use mini_agent::component::ComponentKind;
use mini_agent::event::{Event, Log, Metric};
use mini_agent::fields::FieldMap;
use mini_agent::filter::{Filter, FilterConfig, FilterMethod, FilterMethodConfig, Transform};
use mini_agent::order::{compare_keys, KeyOrder};
use mini_agent::time::{now, timestamp_of_reading, Timestamp};

fn tags_of(m: &Metric) -> Vec<(String, String)> {
    (0..m.tags.len())
        .map(|i| {
            let (k, v) = m.tags.entry(i);
            (k.clone(), v.clone())
        })
        .collect()
}

#[test]
fn component_kind_names() {
    assert_eq!(ComponentKind::Source.to_string(), "source");
    assert_eq!(ComponentKind::Transform.to_string(), "transform");
    assert_eq!(ComponentKind::Sink.to_string(), "sink");
}

#[test]
fn keys_compare_as_str_does() {
    assert!(matches!(compare_keys("a", "b"), KeyOrder::Less));
    assert!(matches!(compare_keys("b", "a"), KeyOrder::Greater));
    assert!(matches!(compare_keys("ab", "ab"), KeyOrder::Equal));
    assert!(matches!(compare_keys("ab", "abc"), KeyOrder::Less));
    assert!(matches!(compare_keys("", "a"), KeyOrder::Less));
    assert!(matches!(compare_keys("Z", "a"), KeyOrder::Less));
    assert!(matches!(compare_keys("é", "z"), KeyOrder::Greater));
    for (a, b) in [("host", "name"), ("cwd", "cmd"), ("日本", "日"), ("x", "x")] {
        let expected = a.cmp(b);
        let got = match compare_keys(a, b) {
            KeyOrder::Less => std::cmp::Ordering::Less,
            KeyOrder::Equal => std::cmp::Ordering::Equal,
            KeyOrder::Greater => std::cmp::Ordering::Greater,
        };
        assert_eq!(got, expected);
    }
}

#[test]
fn field_map_keeps_key_order_and_last_value() {
    let m = FieldMap::new()
        .insert("zeta".to_owned(), 1u32)
        .insert("alpha".to_owned(), 2)
        .insert("mid".to_owned(), 3)
        .insert("alpha".to_owned(), 4);
    assert_eq!(m.len(), 3);
    let entries: Vec<(String, u32)> = (0..m.len())
        .map(|i| {
            let (k, v) = m.entry(i);
            (k.clone(), *v)
        })
        .collect();
    assert_eq!(
        entries,
        vec![
            ("alpha".to_owned(), 4),
            ("mid".to_owned(), 3),
            ("zeta".to_owned(), 1)
        ]
    );
}

#[test]
fn field_map_order_does_not_depend_on_insertion_order() {
    let a = FieldMap::new()
        .insert("b".to_owned(), 1u8)
        .insert("a".to_owned(), 2)
        .insert("c".to_owned(), 3);
    let b = FieldMap::new()
        .insert("c".to_owned(), 3u8)
        .insert("b".to_owned(), 1)
        .insert("a".to_owned(), 2);
    let list = |m: &FieldMap<u8>| -> Vec<(String, u8)> {
        (0..m.len())
            .map(|i| {
                let (k, v) = m.entry(i);
                (k.clone(), *v)
            })
            .collect()
    };
    assert_eq!(list(&a), list(&b));
}

#[test]
fn metric_now_has_no_tags() {
    let m = Metric::now("cpu".to_owned(), 1.5f64.to_bits());
    assert_eq!(m.name, "cpu");
    assert_eq!(f64::from_bits(m.value_bits), 1.5);
    assert_eq!(m.tags.len(), 0);
    assert!(m.timestamp.nanos < 1_000_000_000);
    assert!(m.timestamp.secs > 1_600_000_000);
}

#[test]
fn timestamps_before_the_epoch() {
    let before = Timestamp {
        secs: 3,
        nanos: 0,
        before_epoch: true,
    };
    assert!(before.is_before_epoch());
    let after = Timestamp {
        secs: 3,
        nanos: 0,
        before_epoch: false,
    };
    assert!(!after.is_before_epoch());
    let m = Metric::at(before, "old".to_owned(), 1);
    assert_eq!(m.timestamp, before);
    assert_eq!(m.name, "old");
    assert_eq!(m.tags.len(), 0);
}

#[test]
fn timestamp_of_a_reading() {
    let after = timestamp_of_reading(true, 1_700_000_000, 12);
    assert_eq!(
        after,
        Timestamp {
            secs: 1_700_000_000,
            nanos: 12,
            before_epoch: false
        }
    );
    let before = timestamp_of_reading(false, 5, 0);
    assert!(before.before_epoch && before.is_before_epoch());
    assert_eq!(before.secs, 5);
}

#[test]
fn now_is_after_the_epoch() {
    let t = now();
    assert!(!t.before_epoch);
    assert!(!t.is_before_epoch());
}

#[test]
fn now_moves_forward() {
    let a = now();
    let b = now();
    assert!((b.secs, b.nanos) >= (a.secs, a.nanos));
}

#[test]
fn with_tag_replaces_earlier_value() {
    let m = Metric::now("m".to_owned(), 0)
        .with_tag("name".to_owned(), "a".to_owned())
        .with_tag("host".to_owned(), "h".to_owned())
        .with_tag("name".to_owned(), "b".to_owned());
    assert_eq!(
        tags_of(&m),
        vec![
            ("host".to_owned(), "h".to_owned()),
            ("name".to_owned(), "b".to_owned())
        ]
    );
}

#[test]
fn with_optional_tag_adds_only_some() {
    let m = Metric::now("m".to_owned(), 0).with_optional_tag("host".to_owned(), None);
    assert_eq!(m.tags.len(), 0);
    let m = m.with_optional_tag("host".to_owned(), Some("box".to_owned()));
    assert_eq!(tags_of(&m), vec![("host".to_owned(), "box".to_owned())]);
}

#[test]
fn with_tags_later_pairs_win() {
    let m = Metric::now("m".to_owned(), 7).with_tags(vec![
        ("pid", "1".to_owned()),
        ("cmd", "ls -l".to_owned()),
        ("pid", "2".to_owned()),
    ]);
    assert_eq!(m.value_bits, 7);
    assert_eq!(
        tags_of(&m),
        vec![
            ("cmd".to_owned(), "ls -l".to_owned()),
            ("pid".to_owned(), "2".to_owned())
        ]
    );
}

#[test]
fn log_fields() {
    let log = Log::default()
        .with("b".to_owned(), serde_json::Value::from(1))
        .with_message(serde_json::Value::from("hello"))
        .with("a".to_owned(), serde_json::Value::Bool(true));
    let fields: Vec<(String, serde_json::Value)> = (0..log.inner.len())
        .map(|i| {
            let (k, v) = log.inner.entry(i);
            (k.clone(), v.clone())
        })
        .collect();
    assert_eq!(
        fields,
        vec![
            ("a".to_owned(), serde_json::Value::Bool(true)),
            ("b".to_owned(), serde_json::Value::from(1)),
            ("message".to_owned(), serde_json::Value::from("hello")),
        ]
    );
}

#[test]
fn event_kinds() {
    let log: Event = Log::default().into();
    let metric: Event = Metric::now("m".to_owned(), 0).into();
    assert!(log.is_log() && !log.is_metric());
    assert!(metric.is_metric() && !metric.is_log());
}

#[test]
fn filter_passes_one_kind() {
    let is_log = FilterMethod::from(FilterMethodConfig::IsLog);
    let is_metric = FilterConfig {
        method: FilterMethodConfig::IsMetric,
    }
    .method();
    assert_eq!(is_log, FilterMethod::IsLog);
    assert_eq!(is_metric, FilterMethod::IsMetric);
    let log: Event = Log::default().into();
    let metric: Event = Metric::now("m".to_owned(), 0).into();
    assert!(is_log.matches(&log));
    assert!(!is_log.matches(&metric));
    assert!(is_metric.matches(&metric));
    assert!(!is_metric.matches(&log));
    assert!(is_log.forward(Metric::now("m".to_owned(), 0).into()).is_none());
    assert!(is_log.forward(log).unwrap().is_log());
    let transform = Transform::from(Filter { method: is_metric });
    assert!(transform.forward(metric).unwrap().is_metric());
    assert!(transform.forward(Log::default().into()).is_none());
}

#[test]
fn filters_partition_events() {
    let events: Vec<Event> = vec![
        Log::default().into(),
        Metric::now("a".to_owned(), 0).into(),
        Metric::now("b".to_owned(), 0).into(),
    ];
    for e in &events {
        assert!(FilterMethod::IsLog.matches(e) != FilterMethod::IsMetric.matches(e));
    }
}

use mini_agent::datadog::{
    default_headers, split_batch, DatadogConfig, DatadogConfigError, DatadogMetricPayload, DatadogMetricSerie,
    DatadogMetricSeriePoint, DatadogRegion, BATCH_SIZE, GAUGE,
};
use mini_agent::event::{Event, Log, Metric};
use mini_agent::sink::{BatchAction, SinkBatch};
use mini_agent::time::Timestamp;

fn metric(name: &str, secs: u64, value: f64) -> Metric {
    Metric::at(
        Timestamp {
            secs,
            nanos: 5,
            before_epoch: false,
        },
        name.to_owned(),
        value.to_bits(),
    )
}

#[test]
fn region_urls() {
    assert_eq!(DatadogRegion::Eu.base_url(), "https://api.datadoghq.eu");
    assert_eq!(DatadogRegion::Us1.base_url(), "https://api.datadoghq.com");
    assert_eq!(DatadogRegion::Us3.base_url(), "https://api.us3.datadoghq.com");
    assert_eq!(
        DatadogRegion::Eu.metric_url(),
        "https://api.datadoghq.eu/api/v2/series"
    );
    assert_eq!(
        DatadogRegion::Us3.metric_url(),
        "https://api.us3.datadoghq.com/api/v2/series"
    );
    assert_eq!(
        DatadogRegion::Us1.logs_url(),
        "https://http-intake.logs.datadoghq.com/api/v2/logs"
    );
    assert_eq!(
        DatadogRegion::Eu.logs_url(),
        "https://http-intake.logs.datadoghq.eu/api/v2/logs"
    );
    assert_eq!(
        DatadogRegion::Us3.logs_url(),
        "https://http-intake.logs.us3.datadoghq.com/api/v2/logs"
    );
}

#[test]
fn metric_url_is_base_url_and_series_path() {
    for region in [DatadogRegion::Eu, DatadogRegion::Us1, DatadogRegion::Us3] {
        let config = DatadogConfig {
            region,
            token: "t".to_owned(),
        };
        assert_eq!(config.metrics_url(), region.metric_url());
        assert_eq!(
            config.metrics_url(),
            format!("{}/api/v2/series", region.base_url())
        );
    }
}

#[test]
fn settings_for_a_valid_token() {
    let config = DatadogConfig {
        region: DatadogRegion::Us1,
        token: "abc123\tdef".to_owned(),
    };
    let settings = config.settings().unwrap();
    assert_eq!(settings.metrics_url, "https://api.datadoghq.com/api/v2/series");
    assert_eq!(
        settings.logs_url,
        "https://http-intake.logs.datadoghq.com/api/v2/logs"
    );
    assert_eq!(settings.batch_size, BATCH_SIZE);
    assert_eq!(settings.batch_size, 10);
    assert_eq!(settings.api_key.as_bytes(), b"abc123\tdef");
}

#[test]
fn requests_carry_json_headers_and_the_api_key() {
    assert_eq!(
        default_headers(),
        vec![
            ("Accept", "application/json"),
            ("Content-Type", "application/json")
        ]
    );
    let config = DatadogConfig {
        region: DatadogRegion::Us3,
        token: "abc".to_owned(),
    };
    let settings = config.settings().unwrap();
    assert_eq!(settings.headers, default_headers());
    assert_eq!(settings.api_key_header, "DD-API-KEY");
    assert_eq!(settings.api_key.as_bytes(), b"abc");
    assert_eq!(settings.batch_size, 10);
    assert_eq!(
        settings.metrics_url,
        "https://api.us3.datadoghq.com/api/v2/series"
    );
}

#[test]
fn batches_deliver_the_stream_once_in_order() {
    let sink = SinkBatch { batch_size: 2 };
    let received: Vec<Vec<Event>> = vec![
        vec![metric("a", 1, 0.0).into(), metric("b", 2, 0.0).into()],
        vec![metric("c", 3, 0.0).into()],
        vec![],
    ];
    let mut delivered: Vec<String> = Vec::new();
    let mut batches = 0;
    for batch in received {
        match sink.step(batch) {
            BatchAction::Stop => break,
            BatchAction::Deliver(events) => {
                assert!(!events.is_empty() && events.len() <= sink.batch_size);
                batches += 1;
                for e in events {
                    match e {
                        Event::Metric(m) => delivered.push(m.name),
                        Event::Log(_) => unreachable!(),
                    }
                }
            }
        }
    }
    assert_eq!(batches, 2);
    assert_eq!(delivered, vec!["a", "b", "c"]);
}

#[test]
fn api_key_holds_the_token() {
    let config = DatadogConfig {
        region: DatadogRegion::Eu,
        token: "0123abcdef".to_owned(),
    };
    let settings = config.settings().unwrap();
    assert_eq!(settings.api_key.as_bytes(), config.token.as_bytes());
    assert_eq!(settings.api_key.to_str().unwrap(), config.token);
}

#[test]
fn settings_refuse_a_token_with_a_control_byte() {
    for token in ["line\nbreak", "nul\0", "del\x7f"] {
        let config = DatadogConfig {
            region: DatadogRegion::Eu,
            token: token.to_owned(),
        };
        assert_eq!(config.settings().unwrap_err(), DatadogConfigError::InvalidToken);
    }
}

#[test]
fn serie_from_metric() {
    let m = metric("cpu", 1_700_000_000, 2.5)
        .with_tag("name".to_owned(), "cpu0".to_owned())
        .with_tag("host".to_owned(), "box".to_owned());
    let serie = DatadogMetricSerie::from_metric(m);
    assert_eq!(serie.metric, "cpu");
    assert_eq!(serie.kind, GAUGE);
    assert_eq!(serie.kind, 3);
    assert_eq!(
        serie.points,
        vec![DatadogMetricSeriePoint {
            timestamp: 1_700_000_000,
            value_bits: 2.5f64.to_bits()
        }]
    );
    assert_eq!(serie.tags, vec!["host:box".to_owned(), "name:cpu0".to_owned()]);
}

#[test]
fn serie_tags_do_not_depend_on_tagging_order() {
    let a = metric("m", 1, 0.0)
        .with_tag("b".to_owned(), "2".to_owned())
        .with_tag("a".to_owned(), "1".to_owned());
    let b = metric("m", 1, 0.0)
        .with_tag("a".to_owned(), "1".to_owned())
        .with_tag("b".to_owned(), "2".to_owned());
    assert_eq!(
        DatadogMetricSerie::from_metric(a).tags,
        DatadogMetricSerie::from_metric(b).tags
    );
}

#[test]
fn payload_keeps_sample_order() {
    let payload =
        DatadogMetricPayload::from_metrics(vec![metric("a", 1, 1.0), metric("b", 2, 2.0)]);
    let names: Vec<&str> = payload.series.iter().map(|s| s.metric.as_str()).collect();
    assert_eq!(names, vec!["a", "b"]);
    assert_eq!(payload.series[1].points[0].timestamp, 2);
    assert!(DatadogMetricPayload::from_metrics(vec![]).series.is_empty());
    let at_epoch = Metric::at(
        Timestamp {
            secs: 0,
            nanos: 0,
            before_epoch: true,
        },
        "e".to_owned(),
        0,
    );
    assert!(!at_epoch.timestamp.is_before_epoch());
    assert_eq!(DatadogMetricSerie::from_metric(at_epoch).points[0].timestamp, 0);
}

#[test]
fn split_batch_reverses_each_kind() {
    let events: Vec<Event> = vec![
        metric("m1", 1, 0.0).into(),
        Log::default()
            .with("n".to_owned(), serde_json::Value::from(1))
            .into(),
        metric("m2", 2, 0.0).into(),
        Log::default()
            .with("n".to_owned(), serde_json::Value::from(2))
            .into(),
        metric("m3", 3, 0.0).into(),
    ];
    let (metrics, logs) = split_batch(events);
    let names: Vec<&str> = metrics.iter().map(|m| m.name.as_str()).collect();
    assert_eq!(names, vec!["m3", "m2", "m1"]);
    let ns: Vec<serde_json::Value> = logs.iter().map(|l| l.inner.entry(0).1.clone()).collect();
    assert_eq!(
        ns,
        vec![serde_json::Value::from(2), serde_json::Value::from(1)]
    );
    assert_eq!(metrics.len() + logs.len(), 5);
}

#[test]
fn split_empty_batch() {
    let (metrics, logs) = split_batch(vec![]);
    assert!(metrics.is_empty() && logs.is_empty());
}

#[test]
fn batch_sink_stops_on_empty_batch() {
    let sink = SinkBatch { batch_size: 10 };
    assert!(matches!(sink.step(vec![]), BatchAction::Stop));
    match sink.step(vec![metric("m", 1, 0.0).into()]) {
        BatchAction::Deliver(batch) => assert_eq!(batch.len(), 1),
        BatchAction::Stop => panic!("a non-empty batch is delivered"),
    }
}

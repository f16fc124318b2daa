use mini_agent::component::ComponentKind;
use mini_agent::topology::Topology;

fn names(v: &[&str]) -> Vec<String> {
    v.iter().map(|s| s.to_string()).collect()
}

fn pairs(v: &[(&str, &str)]) -> Vec<(String, String)> {
    v.iter().map(|(a, b)| (a.to_string(), b.to_string())).collect()
}

#[test]
fn wires_sources_through_transforms_to_sinks() {
    let t = Topology {
        sinks: names(&["console", "datadog"]),
        transforms: pairs(&[("only_metrics", "datadog"), ("only_logs", "console")]),
        sources: pairs(&[("timer", "only_metrics"), ("http", "datadog"), ("logs", "only_logs")]),
    };
    assert!(t.targets_resolve());
    let plan = t.components();
    let summary: Vec<(String, ComponentKind, Option<usize>)> = plan
        .into_iter()
        .map(|c| (c.name, c.kind, c.target))
        .collect();
    assert_eq!(
        summary,
        vec![
            ("console".to_owned(), ComponentKind::Sink, None),
            ("datadog".to_owned(), ComponentKind::Sink, None),
            ("only_metrics".to_owned(), ComponentKind::Transform, Some(1)),
            ("only_logs".to_owned(), ComponentKind::Transform, Some(0)),
            ("timer".to_owned(), ComponentKind::Source, Some(2)),
            ("http".to_owned(), ComponentKind::Source, Some(1)),
            ("logs".to_owned(), ComponentKind::Source, Some(3)),
        ]
    );
}

#[test]
fn transform_may_feed_an_earlier_transform() {
    let t = Topology {
        sinks: names(&["out"]),
        transforms: pairs(&[("first", "out"), ("second", "first")]),
        sources: pairs(&[("src", "second")]),
    };
    assert!(t.targets_resolve());
    let plan = t.components();
    assert_eq!(plan[2].target, Some(1));
    assert_eq!(plan[3].target, Some(2));
    for (i, c) in plan.iter().enumerate() {
        if let Some(x) = c.target {
            assert!(x < i);
            assert_ne!(plan[x].kind, ComponentKind::Source);
        }
    }
}

#[test]
fn transform_cannot_feed_a_later_transform() {
    let t = Topology {
        sinks: names(&["out"]),
        transforms: pairs(&[("second", "first"), ("first", "out")]),
        sources: vec![],
    };
    assert!(!t.targets_resolve());
}

#[test]
fn missing_target_is_refused() {
    let t = Topology {
        sinks: names(&["out"]),
        transforms: vec![],
        sources: pairs(&[("src", "nowhere")]),
    };
    assert!(!t.targets_resolve());
    let t = Topology {
        sinks: vec![],
        transforms: pairs(&[("t", "out")]),
        sources: vec![],
    };
    assert!(!t.targets_resolve());
}

#[test]
fn source_cannot_feed_a_source() {
    let t = Topology {
        sinks: names(&["out"]),
        transforms: vec![],
        sources: pairs(&[("a", "out"), ("b", "a")]),
    };
    assert!(!t.targets_resolve());
}

#[test]
fn transform_name_shadows_sink_name() {
    let t = Topology {
        sinks: names(&["x"]),
        transforms: pairs(&[("x", "x")]),
        sources: pairs(&[("s", "x")]),
    };
    assert!(t.targets_resolve());
    let plan = t.components();
    assert_eq!(plan[1].target, Some(0));
    assert_eq!(plan[2].target, Some(1));
}

#[test]
fn empty_topology() {
    let t = Topology {
        sinks: vec![],
        transforms: vec![],
        sources: vec![],
    };
    assert!(t.targets_resolve());
    assert!(t.components().is_empty());
}

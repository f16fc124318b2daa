use mini_agent::event::{Event, Metric};
use mini_agent::source::{
    handle_metric, RandomLogsExecutor, RandomMetricsExecutor, TimerExecutor, MESSAGE_WORDS,
    NO_CONTENT, TOO_MANY_REQUESTS,
};
use mini_agent::sysinfo::{
    combine_cmd, ComponentReading, CpuReading, MemoryReading, ProcessReading, SysinfoExecutor,
    SystemSnapshot,
};

fn tags_of(m: &Metric) -> Vec<(String, String)> {
    (0..m.tags.len())
        .map(|i| {
            let (k, v) = m.tags.entry(i);
            (k.clone(), v.clone())
        })
        .collect()
}

fn t(k: &str, v: &str) -> (String, String) {
    (k.to_owned(), v.to_owned())
}

#[test]
fn http_status_for_delivery() {
    assert_eq!(handle_metric(true), NO_CONTENT);
    assert_eq!(handle_metric(true), 204);
    assert_eq!(handle_metric(false), TOO_MANY_REQUESTS);
    assert_eq!(handle_metric(false), 429);
}

#[test]
fn random_log_message_is_lorem_ipsum() {
    let message = RandomLogsExecutor.message();
    assert_eq!(message, lipsum::lipsum_words(MESSAGE_WORDS));
    assert_eq!(message, RandomLogsExecutor.message());
    assert!(!message.is_empty());
    assert!(message.split_whitespace().count() >= 1);
}

#[test]
fn timer_sources_send_instant() {
    for event in [TimerExecutor.next_event(), RandomMetricsExecutor.next_event()] {
        match event {
            Event::Metric(m) => {
                assert_eq!(m.name, "instant");
                assert_eq!(f64::from_bits(m.value_bits), 0.0);
                assert_eq!(m.tags.len(), 0);
            }
            Event::Log(_) => panic!("a timer sends metrics"),
        }
    }
}

#[test]
fn combine_cmd_joins_with_spaces() {
    assert_eq!(combine_cmd(&[]), "");
    assert_eq!(combine_cmd(&["ls".to_owned()]), "ls");
    assert_eq!(
        combine_cmd(&["ls".to_owned(), "-l".to_owned(), "/tmp".to_owned()]),
        "ls -l /tmp"
    );
    assert_eq!(combine_cmd(&["".to_owned(), "".to_owned()]), " ");
}

fn snapshot(host: Option<&str>) -> SystemSnapshot {
    SystemSnapshot {
        host_name: host.map(|h| h.to_owned()),
        memory: MemoryReading {
            total_bits: 100f64.to_bits(),
            used_bits: 40f64.to_bits(),
            swap_total_bits: 10f64.to_bits(),
            swap_used_bits: 1f64.to_bits(),
        },
        processes: vec![ProcessReading {
            pid: "42".to_owned(),
            cmd: vec!["sleep".to_owned(), "5".to_owned()],
            exe: "/bin/sleep".to_owned(),
            cwd: "/".to_owned(),
            memory_bits: 7f64.to_bits(),
            virtual_memory_bits: 8f64.to_bits(),
            cpu_usage_bits: 0.5f64.to_bits(),
        }],
        cpu_count_bits: 2f64.to_bits(),
        cpus: vec![
            CpuReading {
                name: "cpu0".to_owned(),
                usage_bits: 10f64.to_bits(),
                frequency_bits: 2000f64.to_bits(),
            },
            CpuReading {
                name: "cpu1".to_owned(),
                usage_bits: 20f64.to_bits(),
                frequency_bits: 2100f64.to_bits(),
            },
        ],
        components: vec![ComponentReading {
            label: "core".to_owned(),
            temperature_bits: 55f64.to_bits(),
        }],
    }
}

#[test]
fn sysinfo_samples_in_order() {
    let executor = SysinfoExecutor {
        system: snapshot(Some("box")),
    };
    let samples = executor.execute();
    let names: Vec<&str> = samples.iter().map(|m| m.name.as_str()).collect();
    assert_eq!(
        names,
        vec![
            "system.memory.total",
            "system.memory.used",
            "system.swap.total",
            "system.swap.used",
            "process.memory",
            "process.virtual_memory",
            "process.cpu_usage",
            "system.cpu.count",
            "system.cpu.usage",
            "system.cpu.frequency",
            "system.cpu.usage",
            "system.cpu.frequency",
            "system.component.temperature",
        ]
    );
    assert_eq!(f64::from_bits(samples[1].value_bits), 40.0);
    assert_eq!(tags_of(&samples[0]), vec![t("host", "box")]);
    assert_eq!(
        tags_of(&samples[4]),
        vec![
            t("cmd", "sleep 5"),
            t("cwd", "/"),
            t("exe", "/bin/sleep"),
            t("host", "box"),
            t("pid", "42"),
        ]
    );
    assert_eq!(f64::from_bits(samples[6].value_bits), 0.5);
    assert_eq!(f64::from_bits(samples[7].value_bits), 2.0);
    assert_eq!(tags_of(&samples[10]), vec![t("host", "box"), t("name", "cpu1")]);
    assert_eq!(f64::from_bits(samples[11].value_bits), 2100.0);
    assert_eq!(tags_of(&samples[12]), vec![t("host", "box"), t("name", "core")]);
}

#[test]
fn sysinfo_without_host_name() {
    let executor = SysinfoExecutor {
        system: snapshot(None),
    };
    let memory = executor.handle_memory();
    assert_eq!(memory.len(), 4);
    assert!(memory.iter().all(|m| m.tags.len() == 0));
    let cpu = executor.handle_cpu();
    assert_eq!(cpu.len(), 5);
    assert_eq!(tags_of(&cpu[1]), vec![t("name", "cpu0")]);
    let components = executor.handle_components();
    assert_eq!(components.len(), 1);
    let processes = executor.handle_processes();
    assert_eq!(processes.len(), 3);
    assert_eq!(tags_of(&processes[2]).len(), 4);
    let pushed = executor.push(Metric::now("x".to_owned(), 0));
    assert_eq!(pushed.tags.len(), 0);
}

use std::sync::Arc;

use cadvisor::families::{family, Family, Kind};
use cadvisor::metrics::{encode_block, family_group, labels_less, render, sanitize_label_name, ContainerView, MetricsOpts, Value};
use cadvisor::model::{ContainerReference, ContainerSpec, ContainerStats, GoTime, MachineInfo, VersionInfo};

fn opts() -> MetricsOpts {
    MetricsOpts { store_container_labels: true, whitelisted_container_labels: vec![], disabled_groups: vec![] }
}

fn view(name: &str, cpu_total: u64) -> ContainerView {
    let mut spec = ContainerSpec::default();
    spec.has_cpu = true;
    spec.has_memory = true;
    spec.labels = vec![("app".to_string(), "web".to_string())];
    let mut s = ContainerStats::default();
    s.timestamp = GoTime { secs: 1_700_000_000, nanos: 0 };
    s.cpu.usage.total = cpu_total;
    s.memory.usage = 4096;
    ContainerView {
        name: name.to_string(),
        reference: ContainerReference { id: String::new(), name: name.to_string(), aliases: vec![], namespace: String::new() },
        spec,
        latest: Some(Arc::new(s)),
    }
}

fn text_of(v: &Value) -> String {
    match v {
        Value::Int(x) => x.to_string(),
        _ => "0".to_string(),
    }
}

#[test]
fn exposition_blocks_are_ordered() {
    let version = VersionInfo { cadvisor_version: "0.1.0".to_string(), kernel_version: "6.1".to_string(), ..Default::default() };
    let machine = MachineInfo { timestamp: GoTime { secs: 1_700_000_000, nanos: 0 }, num_cores: 4, memory_capacity: 1 << 30, ..Default::default() };
    let now = GoTime { secs: 1_700_000_001, nanos: 0 };
    let blocks = render(&version, &machine, &vec![view("/b", 2_000_000_000), view("/a", 1_000_000_000)], &opts(), now);
    assert!(!blocks.is_empty());
    assert_eq!(blocks[0].family, Family::CadvisorVersionInfo);
    for w in blocks.windows(2) {
        assert!(w[0].family.position().unwrap() < w[1].family.position().unwrap());
    }
    for b in &blocks {
        assert!(!b.series.is_empty());
        for w in b.series.windows(2) {
            assert!(!labels_less(&w[1].labels, &w[0].labels));
        }
    }
    let cpu = blocks.iter().find(|b| b.family == Family::ContainerCpuUsageSecondsTotal).unwrap();
    assert_eq!(cpu.series.len(), 2);
    assert!(cpu.series[0].labels.iter().any(|(k, v)| k == "id" && v == "/a"));
    assert!(cpu.series[0].labels.iter().any(|(k, v)| k == "container_label_app" && v == "web"));
    let mut out = String::new();
    let values: Vec<String> = blocks[0].series.iter().map(|s| text_of(&s.value)).collect();
    encode_block(&blocks[0], &values, &mut out);
    assert!(out.starts_with("# HELP cadvisor_version_info "), "{out}");
    assert!(out.contains("# TYPE cadvisor_version_info gauge\n"), "{out}");
    assert!(out.contains("cadvisorVersion=\"0.1.0\""), "{out}");
    assert!(out.ends_with("} 1\n"), "{out}");
}

#[test]
fn disabled_groups_drop_families() {
    let mut o = opts();
    o.disabled_groups = vec!["cpu".to_string()];
    let machine = MachineInfo::default();
    let blocks = render(&VersionInfo::default(), &machine, &vec![view("/a", 5)], &o, GoTime { secs: 1, nanos: 0 });
    assert!(!blocks.iter().any(|b| b.family == Family::ContainerCpuUsageSecondsTotal));
    assert!(blocks.iter().any(|b| b.family == Family::ContainerMemoryUsageBytes));
}

#[test]
fn family_lookup_and_groups() {
    let (name, kind, _help) = family("container_cpu_usage_seconds_total").unwrap();
    assert_eq!(name, "container_cpu_usage_seconds_total");
    assert_eq!(kind, Kind::Counter);
    assert_eq!(kind.as_str(), "counter");
    assert!(family("nope").is_none());
    assert_eq!(family_group("container_cpu_load_average_10s"), Some("cpuLoad"));
    assert_eq!(family_group("container_cpu_usage_seconds_total"), Some("cpu"));
    assert_eq!(family_group("container_memory_rss"), Some("memory"));
    assert_eq!(family_group("machine_cpu_cores"), None);
    assert_eq!(sanitize_label_name("io.kubernetes/pod-name"), "io_kubernetes_pod_name");
}

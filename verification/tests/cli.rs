use cadvisor::cli::{disabled_groups, flag_list, go_style_argv, listen_addr, manager_config, metrics_opts, parse_duration, Args};
use cadvisor::model::Span;

fn args() -> Args {
    Args {
        listen_ip: String::new(),
        port: 8080,
        housekeeping_interval: "1s".to_string(),
        max_housekeeping_interval: "60s".to_string(),
        allow_dynamic_housekeeping: true,
        global_housekeeping_interval: "1m0s".to_string(),
        storage_duration: "2m0s".to_string(),
        disable_metrics: String::new(),
        enable_metrics: String::new(),
        store_container_labels: true,
        whitelisted_container_labels: String::new(),
        env_metadata_whitelist: String::new(),
        containerd: "/run/containerd/containerd.sock".to_string(),
        containerd_namespace: "k8s.io".to_string(),
        crio: "/var/run/crio/crio.sock".to_string(),
    }
}

fn sv(v: &[&str]) -> Vec<String> {
    v.iter().map(|s| s.to_string()).collect()
}

#[test]
fn go_style_flags() {
    let out = go_style_argv(&sv(&["cadvisor", "-port", "8080", "--storage_duration", "5m", "-1", "-x", "-ab"]));
    assert_eq!(out, sv(&["cadvisor", "--port", "8080", "--storage_duration", "5m", "-1", "-x", "--ab"]));
    assert_eq!(go_style_argv(&sv(&["-port"])), sv(&["-port"]));
    assert_eq!(go_style_argv(&out), out);
}

#[test]
fn comma_lists() {
    assert_eq!(flag_list(" a, b ,,c "), sv(&["a", "b", "c"]));
    assert!(flag_list("").is_empty());
    assert!(flag_list(" , ").is_empty());
}

#[test]
fn metric_groups() {
    let d = disabled_groups("", "disk, network");
    assert_eq!(d, sv(&["disk", "network"]));
    let e = disabled_groups("cpu,memory", "disk");
    assert!(e.contains(&"disk".to_string()));
    assert!(e.contains(&"network".to_string()));
    assert!(!e.contains(&"cpu".to_string()));
    assert!(!e.contains(&"memory".to_string()));
    assert_eq!(e.len(), 9);
}

#[test]
fn settings_from_flags() {
    let mut a = args();
    a.whitelisted_container_labels = "io.kubernetes.pod.name, app".to_string();
    a.store_container_labels = false;
    let o = metrics_opts(&a);
    assert!(!o.store_container_labels);
    assert_eq!(o.whitelisted_container_labels, sv(&["io.kubernetes.pod.name", "app"]));
    let c = manager_config(&a, "0.1.0").unwrap();
    assert_eq!(c.housekeeping_interval, Span { secs: 1, nanos: 0 });
    assert_eq!(c.max_housekeeping_interval, Span { secs: 60, nanos: 0 });
    assert_eq!(c.global_housekeeping_interval, Span { secs: 60, nanos: 0 });
    assert_eq!(c.storage_duration, Span { secs: 120, nanos: 0 });
    assert_eq!(c.cgroup_root, "/sys/fs/cgroup");
    assert_eq!(c.cadvisor_version, "0.1.0");
    assert_eq!(c.crio_socket, "/var/run/crio/crio.sock");
}

#[test]
fn bad_durations_are_reported() {
    assert_eq!(parse_duration("250ms", "x").unwrap(), Span { secs: 0, nanos: 250_000_000 });
    assert_eq!(parse_duration("2h 37min", "x").unwrap(), Span { secs: 9420, nanos: 0 });
    let e = parse_duration("soon", "storage_duration").err().unwrap();
    assert!(e.starts_with("invalid storage_duration \"soon\": "), "{e}");
    let mut a = args();
    a.max_housekeeping_interval = "1x".to_string();
    a.storage_duration = "".to_string();
    let e = manager_config(&a, "v").err().unwrap();
    assert!(e.starts_with("invalid max_housekeeping_interval \"1x\": "), "{e}");
}

#[test]
fn listen_addresses() {
    let mut a = args();
    assert_eq!(listen_addr(&a), "0.0.0.0:8080");
    a.listen_ip = "127.0.0.1".to_string();
    a.port = 9096;
    assert_eq!(listen_addr(&a), "127.0.0.1:9096");
}

use std::sync::Arc;

use cadvisor::api::strip_slashes;
use cadvisor::encode::{go_float_text, ryu_shaped};
use cadvisor::events::EventLog;
use cadvisor::machine::{cache_size_fits, node_memory, node_memory_fits_text, parse_cache_size};
use cadvisor::host::cgroup_name;
use cadvisor::model::{ContainerSpec, ContainerStats, Event, EventData, EventType, GoTime, TcpAdvancedStat};
use cadvisor::v2::{v2_network, v2_stats};
use cadvisor::parse::{meminfo_fits_text, parse_meminfo};

#[test]
fn meminfo_fit_is_decided_by_the_totals() {
    let ok = "MemTotal:       16342752 kB\nMemFree:         1234 kB\nSwapTotal:       8388604 kB\n";
    assert!(meminfo_fits_text(ok));
    assert_eq!(parse_meminfo(ok).total_bytes, 16_342_752 * 1024);
    // 2^54 KiB is 2^64 bytes: one past the largest u64.
    let too_big = "MemTotal: 18014398509481984 kB\n";
    assert!(!meminfo_fits_text(too_big));
    let edge = "SwapTotal: 18014398509481983 kB\n";
    assert!(meminfo_fits_text(edge));
    // Other keys are not multiplied, so their size does not matter.
    assert!(meminfo_fits_text("MemFree: 18014398509481984 kB\n"));
    assert!(meminfo_fits_text(""));
}

#[test]
fn node_memory_fit_looks_at_memtotal_lines() {
    let node = "Node 0 MemTotal:       16342752 kB\nNode 0 MemFree:        1000 kB\n";
    assert!(node_memory_fits_text(node));
    assert_eq!(node_memory(node), 16_342_752 * 1024);
    assert!(!node_memory_fits_text("Node 0 MemTotal: 18014398509481984 kB\n"));
    assert!(node_memory_fits_text("Node 0 MemFree: 18014398509481984 kB\n"));
}

#[test]
fn cache_size_fit_by_unit() {
    assert!(cache_size_fits("32K"));
    assert_eq!(parse_cache_size("32K"), 32768);
    assert!(cache_size_fits("18014398509481983K"));
    assert!(!cache_size_fits("18014398509481984K"));
    assert!(cache_size_fits("17592186044415M"));
    assert!(!cache_size_fits("17592186044416M"));
    assert!(cache_size_fits("17179869183G"));
    assert!(!cache_size_fits("17179869184G"));
    assert!(cache_size_fits("99999999999999999999"));
    assert!(cache_size_fits(""));
}

#[test]
fn ryu_shapes() {
    let mut buf = ryu::Buffer::new();
    for v in [1.5, 100000.0, 1e21, 1.2345e-7, -3.25, 13614579712.0, 0.001, 5e-324, f64::MAX] {
        let s = buf.format_finite(v);
        assert!(ryu_shaped(s), "{s}");
        assert!(!go_float_text(s).is_empty());
    }
    assert!(ryu_shaped("0.0"));
    assert!(ryu_shaped("1e10"));
    assert!(!ryu_shaped(""));
    assert!(!ryu_shaped("abc"));
    assert!(!ryu_shaped("01.5"));
    assert!(!ryu_shaped("1."));
    assert!(!ryu_shaped("12e5"));
    assert!(!ryu_shaped("0e5"));
    assert!(!ryu_shaped("1e1234"));
    assert!(!ryu_shaped("1e"));
    assert!(!ryu_shaped("1.5x"));
}

#[test]
fn newest_event_of_the_log() {
    let mut log = EventLog::new();
    assert!(log.newest().is_none());
    let ev = |secs: i64| {
        Arc::new(Event {
            container_name: "/a".to_string(),
            timestamp: GoTime { secs: 1_800_000_000 + secs, nanos: 0 },
            event_type: EventType::Oom,
            event_data: EventData { oom_kill: None },
        })
    };
    log.record(ev(5));
    log.record(ev(2));
    assert_eq!(log.newest().unwrap().timestamp.secs, 1_800_000_005);
    log.record(ev(9));
    assert_eq!(log.newest().unwrap().timestamp.secs, 1_800_000_009);
}

#[test]
fn ids_lose_leading_slashes() {
    assert_eq!(strip_slashes("//abc/def"), "abc/def");
    assert_eq!(strip_slashes("/"), "");
    assert_eq!(strip_slashes("abc"), "abc");
}

#[test]
fn cgroup_names_of_watched_paths() {
    assert_eq!(cgroup_name("/sys/fs/cgroup", "/sys/fs/cgroup"), "/");
    assert_eq!(cgroup_name("/sys/fs/cgroup", "/sys/fs/cgroup/system.slice"), "/system.slice");
    assert_eq!(cgroup_name("/sys/fs/cgroup", "/sys/fs/cgroup/a/b.scope"), "/a/b.scope");
    // A sibling that merely shares the prefix is not under the root.
    assert_eq!(cgroup_name("/sys/fs/cgroup", "/sys/fs/cgroupx"), "//sys/fs/cgroupx");
    assert_eq!(cgroup_name("/sys/fs/cgroup", "/other"), "//other");
}

#[test]
fn advanced_tcp_counters_travel_to_v2() {
    assert_eq!(TcpAdvancedStat::zero(), TcpAdvancedStat::default());
    let mut s = ContainerStats::default();
    s.network.tcp_advanced.in_segs = 7;
    s.network.tcp_advanced.max_conn = -1;
    let n = v2_network(s.network.clone());
    assert_eq!(n.tcp_advanced.in_segs, 7);
    assert_eq!(n.tcp_advanced.max_conn, -1);
    let mut spec = ContainerSpec::default();
    spec.has_network = true;
    let out = v2_stats(vec![s], &spec, 0, vec![None]);
    assert_eq!(out[0].network.as_ref().unwrap().tcp_advanced.in_segs, 7);
}

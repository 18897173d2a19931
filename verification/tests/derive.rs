use std::sync::Arc;

use cadvisor::derive::{cpu_deltas, successive_deltas};
use cadvisor::model::{ContainerStats, GoTime};
use chrono::TimeZone;

fn sample(sec: u32, total_ns: u64) -> ContainerStats {
    let dt = chrono::Utc.with_ymd_and_hms(2026, 7, 16, 12, 0, sec).unwrap();
    let mut s = ContainerStats { timestamp: GoTime { secs: dt.timestamp(), nanos: 0 }, ..Default::default() };
    s.cpu.usage.total = total_ns;
    s.cpu.usage.user = total_ns / 2;
    s.cpu.usage.system = total_ns / 2;
    s
}

/// Nanocores per second of a counter's growth over the interval, as the
/// server computes it from the deltas.
fn rate(delta: u64, interval_ns: u64) -> u64 {
    (delta as f64 / interval_ns as f64 * 1e9) as u64
}

#[test]
fn one_core_busy() {
    let d = cpu_deltas(&sample(0, 0), &sample(2, 1_000_000_000)).unwrap();
    assert_eq!(d.interval_ns, 2_000_000_000);
    assert_eq!(rate(d.total, d.interval_ns), 500_000_000);
    assert_eq!(rate(d.user, d.interval_ns), 250_000_000);
}

#[test]
fn rejects_backwards() {
    assert!(cpu_deltas(&sample(2, 0), &sample(1, 10)).is_none());
    assert!(cpu_deltas(&sample(0, 100), &sample(1, 50)).is_none(), "counter decreased");
}

#[test]
fn rejects_same_instant_and_cpu_count_change() {
    assert!(cpu_deltas(&sample(3, 0), &sample(3, 10)).is_none());
    let a = sample(0, 0);
    let mut b = sample(1, 10);
    b.cpu.usage.per_cpu = vec![5, 5];
    assert!(cpu_deltas(&a, &b).is_none());
}

#[test]
fn per_cpu_deltas_and_successive_samples() {
    let mut a = sample(0, 100);
    a.cpu.usage.per_cpu = vec![40, 60];
    let mut b = sample(1, 400);
    b.cpu.usage.per_cpu = vec![100, 300];
    let d = cpu_deltas(&a, &b).unwrap();
    assert_eq!(d.per_cpu, vec![60, 240]);
    assert_eq!(d.total, 300);
    let all = successive_deltas(&vec![Arc::new(a), Arc::new(b), Arc::new(sample(2, 50))]);
    assert_eq!(all.len(), 3);
    assert!(all[0].is_none());
    assert_eq!(all[1].as_ref().unwrap().total, 300);
    assert!(all[2].is_none());
}

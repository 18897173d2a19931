use std::sync::Arc;

use cadvisor::model::{ContainerStats, GoTime, Span};
use cadvisor::store::TimedStore;
use chrono::TimeZone;

fn t(sec: u32) -> GoTime {
    let dt = chrono::Utc.with_ymd_and_hms(2026, 7, 16, 12, 0, sec).unwrap();
    GoTime { secs: dt.timestamp(), nanos: 0 }
}

fn sample(sec: u32) -> Arc<ContainerStats> {
    Arc::new(ContainerStats { timestamp: t(sec), ..Default::default() })
}

fn store_with(secs: &[u32]) -> TimedStore {
    let mut s = TimedStore::new(Span { secs: 120, nanos: 0 });
    for &sec in secs {
        s.push(sample(sec));
    }
    s
}

fn secs_of(v: &[Arc<ContainerStats>]) -> Vec<i64> {
    v.iter().map(|x| x.timestamp.secs % 100).collect()
}

#[test]
fn age_eviction() {
    let mut s = TimedStore::new(Span { secs: 10, nanos: 0 });
    for sec in [0, 5, 9, 12, 25] {
        s.push(sample(sec));
    }
    let all = s.in_range(GoTime::zero(), GoTime::zero(), -1);
    let secs: Vec<u32> = all.iter().map(|x| (x.timestamp.secs % 100) as u32).collect();
    assert_eq!(secs, vec![25]);
}

#[test]
fn most_recent_n_when_trimming() {
    let s = store_with(&[1, 2, 3, 4, 5]);
    let out = s.in_range(GoTime::zero(), GoTime::zero(), 2);
    assert_eq!(secs_of(&out), vec![4, 5], "keeps most recent, chronological order");
}

#[test]
fn window_selection() {
    let s = store_with(&[1, 2, 3, 4, 5]);
    let out = s.in_range(t(2), t(4), -1);
    assert_eq!(secs_of(&out), vec![2, 3, 4]);

    assert!(s.in_range(t(50), GoTime::zero(), -1).is_empty(), "start after newest");
    assert!(s.in_range(GoTime::zero(), t(0), -1).is_empty(), "end before oldest");
}

#[test]
fn unlimited_and_zero() {
    let s = store_with(&[1, 2, 3]);
    assert_eq!(s.in_range(GoTime::zero(), GoTime::zero(), -1).len(), 3);
    assert_eq!(s.in_range(GoTime::zero(), GoTime::zero(), 0).len(), 0);
}

#[test]
fn two_latest_order() {
    let s = store_with(&[1, 2, 3]);
    let (prev, last) = s.two_latest().unwrap();
    assert!(prev.timestamp.before(&last.timestamp));
}

#[test]
fn latest_is_newest_pushed_and_stale_samples_go() {
    let mut s = TimedStore::new(Span { secs: 3, nanos: 0 });
    s.push(sample(1));
    s.push(sample(2));
    assert_eq!(s.latest().unwrap().timestamp, t(2));
    s.push(sample(10));
    assert_eq!(s.len(), 1);
    assert_eq!(s.latest().unwrap().timestamp, t(10));
    assert!(!s.is_empty());
}

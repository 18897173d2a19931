use std::sync::Arc;

use cadvisor::api::Params;
use cadvisor::events::{event_query, EventLog, EventQuery};
use cadvisor::model::{Event, EventData, EventType, GoTime};

fn ev(name: &str, secs: i64, t: EventType) -> Arc<Event> {
    Arc::new(Event {
        container_name: name.to_string(),
        timestamp: GoTime { secs: 1_800_000_000 + secs, nanos: 0 },
        event_type: t,
        event_data: EventData { oom_kill: None },
    })
}

fn all_types() -> Vec<EventType> {
    vec![EventType::Oom, EventType::OomKill, EventType::ContainerCreation, EventType::ContainerDeletion]
}

fn query(name: &str, sub: bool, max: usize) -> EventQuery {
    EventQuery {
        container_name: name.to_string(),
        include_subcontainers: sub,
        event_types: all_types(),
        max_events: max,
        start_time: GoTime::zero(),
        end_time: GoTime::zero(),
    }
}

#[test]
fn query_from_parameters() {
    let q = event_query("/a", &Params::parse(&Some("oom_events=true&deletion_events=true&max_events=3&subcontainers=true".to_string())));
    assert_eq!(q.container_name, "/a");
    assert!(q.include_subcontainers);
    assert_eq!(q.event_types, vec![EventType::Oom, EventType::ContainerDeletion]);
    assert_eq!(q.max_events, 3);
    let q = event_query("/", &Params::parse(&Some("all_events=true&max_events=x".to_string())));
    assert_eq!(q.event_types, all_types());
    assert_eq!(q.max_events, 10);
    assert!(q.start_time.is_zero());
}

#[test]
fn records_in_time_order() {
    let mut log = EventLog::new();
    log.record(ev("/a", 20, EventType::ContainerCreation));
    log.record(ev("/a", 10, EventType::Oom));
    log.record(ev("/b", 15, EventType::ContainerDeletion));
    let all = log.select(&query("/", true, 100));
    let secs: Vec<i64> = all.iter().map(|e| e.timestamp.secs - 1_800_000_000).collect();
    assert_eq!(secs, vec![10, 15, 20]);
}

#[test]
fn old_events_age_out() {
    let mut log = EventLog::new();
    log.record(ev("/a", 0, EventType::Oom));
    log.record(ev("/a", 100, EventType::Oom));
    log.record(ev("/a", 86_400 + 50, EventType::Oom));
    let all = log.select(&query("/a", false, 100));
    let secs: Vec<i64> = all.iter().map(|e| e.timestamp.secs - 1_800_000_000).collect();
    assert_eq!(secs, vec![100, 86_450]);
}

#[test]
fn selection_keeps_most_recent_matches() {
    let mut log = EventLog::new();
    for i in 0..15 {
        log.record(ev(if i % 2 == 0 { "/a/x" } else { "/b" }, i, EventType::OomKill));
    }
    let sel = log.select(&query("/a", true, 0));
    assert_eq!(sel.len(), 8);
    let only_a = log.select(&query("/a", false, 0));
    assert!(only_a.is_empty());
    let two = log.select(&query("/b", false, 2));
    let secs: Vec<i64> = two.iter().map(|e| e.timestamp.secs - 1_800_000_000).collect();
    assert_eq!(secs, vec![11, 13]);
    let mut q = query("/", true, 100);
    q.start_time = GoTime { secs: 1_800_000_005, nanos: 0 };
    q.end_time = GoTime { secs: 1_800_000_007, nanos: 0 };
    assert_eq!(log.select(&q).len(), 3);
    q.event_types = vec![EventType::Oom];
    assert!(log.select(&q).is_empty());
}

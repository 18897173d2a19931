use cadvisor::runtime::{extract_container_id, lookup_plan, retry_delay_ms, should_retry, Lookup};

#[test]
fn id_extraction() {
    let id = "a".repeat(64);
    assert_eq!(extract_container_id(&id).as_deref(), Some(id.as_str()));
    assert_eq!(
        extract_container_id(&format!("cri-containerd-{id}.scope")).as_deref(),
        Some(id.as_str())
    );
    assert_eq!(extract_container_id(&format!("crio-{id}.scope")).as_deref(), Some(id.as_str()));
    assert_eq!(extract_container_id(&format!("libpod-{id}.scope")).as_deref(), Some(id.as_str()));
    assert_eq!(extract_container_id("system.slice"), None);
    assert_eq!(extract_container_id(&format!("{id}.mount")), None);
    assert_eq!(extract_container_id(&"a".repeat(63)), None);
    assert_eq!(extract_container_id(&"a".repeat(65)), None);
}

#[test]
fn lookup_plan_picks_runtime() {
    let id = "b".repeat(64);
    assert_eq!(lookup_plan(&format!("crio-{id}.scope")), Some((id.clone(), true)));
    assert_eq!(lookup_plan(&format!("cri-containerd-{id}.scope")), Some((id.clone(), false)));
    assert_eq!(lookup_plan(&format!("crio-conmon-{id}.scope")), None);
    assert_eq!(lookup_plan("user.slice"), None);
}

#[test]
fn retries_follow_runtime() {
    assert!(should_retry(true, Lookup::NotFound));
    assert!(!should_retry(true, Lookup::Failed));
    assert!(should_retry(false, Lookup::Failed));
    assert!(!should_retry(false, Lookup::NotFound));
    assert!(!should_retry(false, Lookup::Found));
    assert_eq!(retry_delay_ms(1), 200);
    assert_eq!(retry_delay_ms(2), 400);
}

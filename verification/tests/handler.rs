use wgpu_renderer::handler::{Ready, ResourceHandler, ResourceStatus};

fn ready(rsc: u32, hold_time: Option<u64>, accessed: u64) -> Ready<u32> {
    Ready { rsc, hold_time, accessed }
}

#[test]
fn new_handler_is_empty_with_default_timeouts() {
    let mut h: ResourceHandler<u32> = ResourceHandler::new();
    assert!(!h.contains("a"));
    h.request_new("a", 0);
    // default thread timeout is 5 seconds
    assert!(h.sync(Vec::new(), 5000).is_empty());
    assert_eq!(h.sync(Vec::new(), 5001), vec!["a".to_string()]);
    // default failed timeout is 3 seconds
    assert!(h.contains("a"));
    let _ = h.sync(Vec::new(), 8001);
    assert!(h.contains("a"));
    let _ = h.sync(Vec::new(), 8002);
    assert!(!h.contains("a"));
}

#[test]
fn store_then_get_returns_the_resource() {
    let mut h: ResourceHandler<u32> = ResourceHandler::new();
    h.store("tex", 7, None, 100);
    assert!(h.contains("tex"));
    assert!(h.is_ready("tex"));
    assert!(!h.is_pending("tex"));
    assert!(!h.is_failed("tex"));
    assert_eq!(h.get("tex", 200), Some(&7));
    assert_eq!(h.get("other", 200), None);
}

#[test]
fn store_replaces_previous_status() {
    let mut h: ResourceHandler<u32> = ResourceHandler::new();
    assert!(h.request_new("k", 0));
    assert!(h.is_pending("k"));
    h.store("k", 3, None, 1);
    assert!(h.is_ready("k"));
    assert_eq!(h.get("k", 2), Some(&3));
}

#[test]
fn remove_forgets_the_resource() {
    let mut h: ResourceHandler<u32> = ResourceHandler::new();
    h.store("a", 1, None, 0);
    h.store("b", 2, None, 0);
    h.remove("a");
    assert!(!h.contains("a"));
    assert_eq!(h.get("a", 1), None);
    assert_eq!(h.get("b", 1), Some(&2));
    h.remove("missing");
    assert!(h.contains("b"));
}

#[test]
fn request_new_spawns_once() {
    let mut h: ResourceHandler<u32> = ResourceHandler::new();
    assert!(h.request_new("a", 10));
    assert!(h.is_pending("a"));
    assert!(!h.request_new("a", 20));
    match h.status_of("a") {
        Some(ResourceStatus::Pending(p)) => assert_eq!(p.requested_at, 10),
        _ => panic!("expected a pending resource"),
    }
}

#[test]
fn get_or_request_requests_absent_resource_once() {
    let mut h: ResourceHandler<u32> = ResourceHandler::new();
    let (r, spawn) = h.get_or_request("a", 0);
    assert_eq!(r, None);
    assert!(spawn);
    let (r, spawn) = h.get_or_request("a", 1);
    assert_eq!(r, None);
    assert!(!spawn);
    h.store("a", 9, None, 2);
    let (r, spawn) = h.get_or_request("a", 3);
    assert_eq!(r, Some(&9));
    assert!(!spawn);
}

#[test]
fn failed_resource_is_retried() {
    let mut h: ResourceHandler<u32> = ResourceHandler::new();
    assert!(h.request_new("a", 0));
    let aborted = h.sync(vec![("a".to_string(), Err("no such file".to_string()))], 10);
    assert!(aborted.is_empty());
    assert!(h.is_failed("a"));
    assert_eq!(h.get_err("a"), Some("no such file"));
    assert_eq!(h.get_err("b"), None);
    let (r, spawn) = h.get_or_request("a", 20);
    assert_eq!(r, None);
    assert!(spawn);
    assert!(h.is_pending("a"));
}

#[test]
fn request_retry_leaves_pending_and_ready_alone() {
    let mut h: ResourceHandler<u32> = ResourceHandler::new();
    assert!(h.request_retry("a", 0));
    assert!(!h.request_retry("a", 1));
    h.store("b", 4, None, 0);
    assert!(!h.request_retry("b", 1));
    assert!(h.is_ready("b"));
}

#[test]
fn sync_delivers_built_resources() {
    let mut h: ResourceHandler<u32> = ResourceHandler::new();
    assert!(h.request_new("a", 0));
    let aborted = h.sync(vec![("a".to_string(), Ok(ready(5, None, 10)))], 20);
    assert!(aborted.is_empty());
    assert!(h.is_ready("a"));
    assert_eq!(h.get("a", 30), Some(&5));
}

#[test]
fn sync_stores_outcomes_in_order() {
    let mut h: ResourceHandler<u32> = ResourceHandler::new();
    let results = vec![
        ("a".to_string(), Err("first".to_string())),
        ("a".to_string(), Ok(ready(8, None, 0))),
    ];
    let _ = h.sync(results, 0);
    assert_eq!(h.get("a", 0), Some(&8));
}

#[test]
fn stalled_builder_fails_and_is_reported() {
    let mut h: ResourceHandler<u32> = ResourceHandler::new();
    h.set_thread_tmt(1);
    assert!(h.request_new("a", 0));
    assert!(h.sync(Vec::new(), 1000).is_empty());
    assert!(h.is_pending("a"));
    let aborted = h.sync(Vec::new(), 1001);
    assert_eq!(aborted, vec!["a".to_string()]);
    assert!(h.is_failed("a"));
    assert_eq!(h.get_err("a"), Some("Worker thread lost or stalled execution."));
}

#[test]
fn failed_resources_are_dropped_after_timeout() {
    let mut h: ResourceHandler<u32> = ResourceHandler::new();
    h.set_failed_tmt(2);
    let _ = h.sync(vec![("a".to_string(), Err("bad".to_string()))], 100);
    let _ = h.sync(Vec::new(), 2100);
    assert!(h.is_failed("a"));
    let _ = h.sync(Vec::new(), 2101);
    assert!(!h.contains("a"));
}

#[test]
fn hold_time_counts_from_last_access() {
    let mut h: ResourceHandler<u32> = ResourceHandler::new();
    h.store("a", 1, Some(2), 0);
    assert_eq!(h.get("a", 1500), Some(&1));
    let _ = h.sync(Vec::new(), 3500);
    assert!(h.is_ready("a"));
    h.mark_accessed("a", 3500);
    let _ = h.sync(Vec::new(), 5500);
    assert!(h.is_ready("a"));
    let _ = h.sync(Vec::new(), 5501);
    assert!(!h.contains("a"));
}

#[test]
fn resources_without_hold_time_are_kept() {
    let mut h: ResourceHandler<u32> = ResourceHandler::new();
    h.store("a", 1, None, 0);
    let _ = h.sync(Vec::new(), u64::MAX);
    assert!(h.is_ready("a"));
}

#[test]
fn clock_going_backwards_counts_as_no_time() {
    let mut h: ResourceHandler<u32> = ResourceHandler::new();
    h.store("a", 1, Some(0), 1000);
    let _ = h.sync(Vec::new(), 10);
    assert!(h.is_ready("a"));
}

#[test]
fn evaluating_twice_changes_nothing() {
    let mut h: ResourceHandler<u32> = ResourceHandler::new();
    h.set_thread_tmt(0);
    assert!(h.request_new("a", 0));
    h.store("b", 2, Some(1), 0);
    let first = h.sync(Vec::new(), 5000);
    assert_eq!(first, vec!["a".to_string()]);
    let before = h.status_of_all();
    let second = h.sync(Vec::new(), 5000);
    assert!(second.is_empty());
    assert_eq!(h.status_of_all(), before);
}

#[test]
fn status_of_all_names_every_state() {
    let mut h: ResourceHandler<u32> = ResourceHandler::new();
    h.request_new("p", 0);
    h.store("r", 1, None, 0);
    let _ = h.sync(vec![("f".to_string(), Err("e".to_string()))], 0);
    let all = h.status_of_all();
    assert_eq!(all.len(), 3);
    assert!(all.contains(&("p".to_string(), "PENDING".to_string())));
    assert!(all.contains(&("r".to_string(), "READY".to_string())));
    assert!(all.contains(&("f".to_string(), "FAILED".to_string())));
}

#[test]
fn request_wait_stores_built_resource() {
    let mut h: ResourceHandler<u32> = ResourceHandler::new();
    assert_eq!(h.request_wait("a", Ok(11), Some(5), 0), Ok(Some(&11)));
    assert!(h.is_ready("a"));
    assert_eq!(h.request_wait("a", Ok(12), None, 1), Ok(Some(&11)));
}

#[test]
fn request_wait_reports_build_error() {
    let mut h: ResourceHandler<u32> = ResourceHandler::new();
    assert_eq!(h.request_wait("a", Err("boom".to_string()), None, 0), Err("boom".to_string()));
    assert!(!h.contains("a"));
    h.request_new("b", 0);
    assert_eq!(h.request_wait("b", Err("ignored".to_string()), None, 0), Ok(None));
}

#[test]
fn get_mut_writes_back() {
    let mut h: ResourceHandler<u32> = ResourceHandler::new();
    h.store("a", 1, None, 0);
    if let Some(v) = h.get_mut("a", 5) {
        *v = 42;
    }
    assert_eq!(h.get("a", 6), Some(&42));
    assert!(h.get_mut("missing", 0).is_none());
}

#[test]
fn status_accessors() {
    let pending: ResourceStatus<u32> = ResourceStatus::Pending(wgpu_renderer::handler::Pending { requested_at: 4 });
    assert_eq!(pending.requested_at(), Some(4));
    assert!(pending.is_pending() && !pending.is_ready() && !pending.is_failed());
    let failed: ResourceStatus<u32> = ResourceStatus::Failed(wgpu_renderer::handler::Failed { err_msg: "x".to_string(), failed_at: 1 });
    assert_eq!(failed.error_msg(), Some("x"));
    assert!(failed.is_failed());
    let mut r: ResourceStatus<u32> = ResourceStatus::Ready(ready(3, None, 0));
    assert!(r.is_ready());
    assert_eq!(r.value().map(|v| v.rsc), Some(3));
    if let Some(v) = r.value_mut() {
        v.rsc = 4;
    }
    assert_eq!(r.value().map(|v| v.rsc), Some(4));
}

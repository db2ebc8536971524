use pagoda_runtime::runtime::{
    detect_worker_thread_count, release, shutdown, thread_label, GracefulShutdownTracker, Release,
    Runtime, RuntimeConfig, RuntimeType, ShutdownPhase, PROBE_COUNT,
};

type Process = Runtime<u8, &'static str, &'static str, u32>;

fn config(workers: Option<usize>, compute: Option<usize>) -> RuntimeConfig {
    RuntimeConfig {
        num_worker_threads: workers,
        compute_threads: compute,
        compute_stack_size: None,
        compute_thread_prefix: "compute".to_string(),
    }
}

fn process() -> Process {
    Runtime::new(
        RuntimeType::External("primary"),
        None,
        Ok(RuntimeType::External("fallback")),
        "root",
        "endpoint",
    )
    .ok()
    .unwrap()
}

fn handle(runtime: &RuntimeType<u8, &'static str>) -> &'static str {
    match runtime {
        RuntimeType::External(name) => name,
        RuntimeType::Shared(_) => "shared",
    }
}

#[test]
fn test_new_creates_runtime_with_secondary_fallback() {
    let runtime = process();
    assert_eq!(handle(runtime.primary()), "primary");
    assert_eq!(handle(runtime.secondary()), "fallback");
    assert_eq!(runtime.id().len(), 36);
    assert_ne!(runtime.id(), process().id());
    assert!(runtime.compute_pool().is_none());
    assert_eq!(*runtime.primary_token(), "root");
    assert_eq!(*runtime.child_token(), "endpoint");
    assert_eq!(*runtime.endpoint_shutdown_token(), "endpoint");
    assert!(runtime.block_in_place_permits().is_none());
}

#[test]
fn test_new_reuses_explicit_secondary_handle() {
    let runtime: Process = Runtime::new(
        RuntimeType::External("primary"),
        Some(RuntimeType::External("given")),
        Err("unused".to_string()),
        "root",
        "endpoint",
    )
    .ok()
    .unwrap();
    assert_eq!(handle(runtime.secondary()), "given");
    let failed = Process::new(
        RuntimeType::External("primary"),
        None,
        Err("no threads".to_string()),
        "root",
        "endpoint",
    );
    assert_eq!(failed.err().unwrap(), "no threads");
}

#[test]
fn test_new_with_config_disables_compute_pool_when_requested() {
    let runtime = process().new_with_config(&config(Some(4), Some(0)), Ok(1), 8);
    assert!(runtime.compute_pool().is_none());
    assert_eq!(runtime.block_in_place_permits(), Some(3));
    assert!(runtime.initialize_thread_local().is_none());
}

#[test]
fn test_new_with_config_initializes_compute_pool_and_permits() {
    let runtime = process().new_with_config(&config(Some(3), Some(1)), Ok(1), 8);
    assert_eq!(**runtime.compute_pool().unwrap(), 1);
    assert_eq!(runtime.block_in_place_permits(), Some(2));
    let (pool, permits) = runtime.initialize_thread_local().unwrap();
    assert_eq!((**pool, permits), (1, 2));
}

#[test]
fn test_new_with_config_keeps_at_least_one_block_in_place_permit() {
    let runtime = process().new_with_config(&config(Some(1), Some(0)), Ok(1), 8);
    assert!(runtime.compute_pool().is_none());
    assert_eq!(runtime.block_in_place_permits(), Some(1));
    for (workers, permits) in [(0, 1), (1, 1), (2, 1), (3, 2)] {
        assert_eq!(config(Some(workers), None).block_in_place_permits(64), permits);
    }
    assert_eq!(config(None, None).block_in_place_permits(16), 15);
}

#[test]
fn pool_that_cannot_be_created_is_done_without() {
    let runtime = process().new_with_config(&config(None, None), Err("no memory".to_string()), 4);
    assert!(runtime.compute_pool().is_none());
    assert_eq!(runtime.initialize_all_thread_locals(0), Ok(0));
}

#[test]
fn test_initialize_all_thread_locals_without_compute_pool_is_noop() {
    assert_eq!(process().initialize_all_thread_locals(7), Ok(0));
}

#[test]
fn test_initialize_all_thread_locals_with_compute_pool_succeeds() {
    let runtime = process().new_with_config(&config(Some(2), Some(1)), Ok(1), 2);
    assert_eq!(runtime.initialize_all_thread_locals(2), Ok(2));
    assert_eq!(
        runtime.initialize_all_thread_locals(0),
        Err("No worker threads detected".to_string())
    );
}

#[test]
fn test_detect_worker_thread_count_returns_positive_value() {
    let probes: Vec<u64> = (0..PROBE_COUNT as u64).map(|i| i % 7).collect();
    assert_eq!(detect_worker_thread_count(&probes), 7);
    assert_eq!(detect_worker_thread_count(&vec![]), 0);
    assert_eq!(detect_worker_thread_count(&vec![3, 3, 3]), 1);
}

#[test]
fn test_graceful_shutdown_tracker_accessor_shares_state() {
    let mut tracker = GracefulShutdownTracker::new();
    tracker.register_portname();
    tracker.register_portname();
    tracker.unregister_portname();
    assert_eq!(tracker.get_count(), 1);
}

#[test]
fn test_shutdown_cancels_child_tokens_before_main_token() {
    let mut tracker = GracefulShutdownTracker::new();
    tracker.register_portname();
    let phase = shutdown(ShutdownPhase::CancelEndpoints, &tracker);
    assert_eq!(phase, ShutdownPhase::WaitForEndpoints);
    assert_eq!(shutdown(phase, &tracker), ShutdownPhase::WaitForEndpoints);
    tracker.unregister_portname();
    let phase = shutdown(phase, &tracker);
    assert_eq!(phase, ShutdownPhase::CancelRuntime);
    assert_eq!(shutdown(phase, &tracker), ShutdownPhase::Done);
}

#[test]
fn test_shutdown_without_active_endpoints_cancels_all_tokens() {
    let tracker = GracefulShutdownTracker::new();
    let phase = shutdown(ShutdownPhase::CancelEndpoints, &tracker);
    assert_eq!(phase, ShutdownPhase::CancelRuntime);
    assert_eq!(shutdown(ShutdownPhase::Done, &tracker), ShutdownPhase::Done);
}

#[test]
fn executors_are_released_where_they_are_owned() {
    assert_eq!(release(false, true, true), Release::Keep);
    assert_eq!(release(true, false, false), Release::Keep);
    assert_eq!(release(true, true, true), Release::ShutDownInBackground);
    assert_eq!(release(true, true, false), Release::Drop);
}

#[test]
fn an_unnamed_thread_is_labelled_by_its_identifier() {
    assert_eq!(thread_label(Some("main"), "ThreadId(1)"), "main");
    assert_eq!(thread_label(None, "ThreadId(7)"), "tokio-worker-ThreadId(7)");
}

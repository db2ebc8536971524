use pagoda_runtime::timeline::{
    NoopBackend, Timeline, TimelineBackend, TimelineCall, TimelineRangeGuard,
};

fn on() -> Timeline {
    Timeline::init(true, Some("on"))
}

#[test]
fn environment_switches_annotations() {
    for value in ["1", "true", "TRUE", "Yes", "on"] {
        assert!(Timeline::init(true, Some(value)).enabled());
        assert!(!Timeline::init(false, Some(value)).enabled());
    }
    for value in ["", "0", "off", "true ", "yes!"] {
        assert!(!Timeline::init(true, Some(value)).enabled());
    }
    assert!(!Timeline::init(true, None).enabled());
}

#[test]
fn annotations_are_made_where_they_are_on() {
    assert!(matches!(on().push_impl("a"), Some(TimelineCall::Push(n)) if n == "a"));
    assert!(matches!(on().pop_impl(), Some(TimelineCall::Pop)));
    assert!(matches!(
        on().name_current_thread_impl(7, "t"),
        Some(TimelineCall::NameThread(7, n)) if n == "t"
    ));
    let off = Timeline::init(true, None);
    assert!(off.push_impl("a").is_none());
    assert!(off.pop_impl().is_none());
    assert!(off.name_current_thread_impl(7, "t").is_none());
}

#[test]
fn guards_close_what_they_opened() {
    let (guard, call) = TimelineRangeGuard::new(&on(), "range");
    assert!(matches!(call, Some(TimelineCall::Push(n)) if n == "range"));
    assert!(matches!(guard.close(), Some(TimelineCall::Pop)));
    let (guard, call) = TimelineRangeGuard::new(&Timeline::init(true, None), "range");
    assert!(call.is_none());
    assert!(guard.close().is_none());
}

#[test]
fn noop_backend_has_no_identifiers() {
    assert_eq!(NoopBackend::range_push("x"), 0);
    NoopBackend::range_pop();
    NoopBackend::name_os_thread(1, "x");
}

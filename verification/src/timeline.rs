//! Annotations of what threads do, for profilers.
//!
//! Annotations are made only where they were compiled in and switched on. Here stands whether one is
//! made; making it is left to a [`TimelineBackend`].

use vstd::prelude::*;
use vstd::string::*;

use crate::text::{lowercase, same_text, to_lowercase};

verus! {

/// A profiler that takes annotations of the calling thread.
pub trait TimelineBackend {
    /// Opens a named range and returns an identifier, or zero where the profiler has none.
    fn range_push(name: &str) -> u64;

    /// Closes the innermost range.
    fn range_pop();

    /// Names a thread.
    fn name_os_thread(tid: u32, name: &str);
}

/// Takes annotations and drops them.
pub struct NoopBackend;

impl TimelineBackend for NoopBackend {
    fn range_push(_name: &str) -> (id: u64)
        ensures
            id == 0,
    {
        0
    }

    fn range_pop() {
    }

    fn name_os_thread(_tid: u32, _name: &str) {
    }
}

/// An annotation to make.
#[derive(Debug)]
pub enum TimelineCall {
    Push(String),
    Pop,
    NameThread(u32, String),
}

/// Whether the value of `PGD_ENABLE_RUST_TIMELINE` switches annotations on, in any case of its
/// letters.
pub open spec fn switches_on(value: Option<Seq<char>>) -> bool {
    match value {
        None => false,
        Some(s) => {
            ||| lowercase(s) == "1"@
            ||| lowercase(s) == "true"@
            ||| lowercase(s) == "yes"@
            ||| lowercase(s) == "on"@
        },
    }
}

/// Whether annotations are made.
#[derive(Debug)]
pub struct Timeline {
    enabled: bool,
}

impl Timeline {
    /// Whether annotations are made.
    pub closed spec fn spec_enabled(&self) -> bool {
        self.enabled
    }

    /// Annotations as they are compiled in and switched on by the environment.
    pub fn init(compiled: bool, value: Option<&str>) -> (timeline: Self)
        ensures
            timeline.spec_enabled() == (compiled && switches_on(
                match value {
                    Some(text) => Some(text@),
                    None => None,
                },
            )),
    {
        let enabled = compiled && match value {
            None => false,
            Some(text) => {
                let lower = to_lowercase(text);
                same_text(lower.as_str(), "1") || same_text(lower.as_str(), "true") || same_text(
                    lower.as_str(),
                    "yes",
                ) || same_text(lower.as_str(), "on")
            },
        };
        Timeline { enabled }
    }

    /// Whether annotations are made.
    pub fn enabled(&self) -> (enabled: bool)
        ensures
            enabled == self.spec_enabled(),
    {
        self.enabled
    }

    /// Opens a named range.
    pub fn push_impl(&self, name: &str) -> (call: Option<TimelineCall>)
        ensures
            opens(call, self.spec_enabled(), name@),
    {
        if self.enabled {
            Some(TimelineCall::Push(name.to_owned()))
        } else {
            None
        }
    }

    /// Closes the innermost range.
    pub fn pop_impl(&self) -> (call: Option<TimelineCall>)
        ensures
            call == if self.spec_enabled() {
                Some(TimelineCall::Pop)
            } else {
                None
            },
    {
        if self.enabled {
            Some(TimelineCall::Pop)
        } else {
            None
        }
    }

    /// Names the calling thread.
    pub fn name_current_thread_impl(&self, tid: u32, name: &str) -> (call: Option<TimelineCall>)
        ensures
            match call {
                Some(TimelineCall::NameThread(t, n)) => self.spec_enabled() && t == tid && n@
                    == name@,
                Some(_) => false,
                None => !self.spec_enabled(),
            },
    {
        if self.enabled {
            Some(TimelineCall::NameThread(tid, name.to_owned()))
        } else {
            None
        }
    }
}

/// Whether `call` opens the named range, where ranges are opened.
pub open spec fn opens(call: Option<TimelineCall>, enabled: bool, name: Seq<char>) -> bool {
    match call {
        Some(TimelineCall::Push(n)) => enabled && n@ == name,
        Some(_) => false,
        None => !enabled,
    }
}

/// A range that is closed when its guard is let go of.
///
/// Whether there is a range to close is settled when it is opened, so that openings and closings
/// match even where annotations are switched in between.
#[derive(Debug)]
pub struct TimelineRangeGuard {
    active: bool,
}

impl TimelineRangeGuard {
    /// Whether there is a range to close.
    pub closed spec fn spec_active(&self) -> bool {
        self.active
    }

    /// Opens a named range.
    pub fn new(timeline: &Timeline, name: &str) -> (opened: (Self, Option<TimelineCall>))
        ensures
            opened.0.spec_active() == timeline.spec_enabled(),
            opens(opened.1, timeline.spec_enabled(), name@),
    {
        let call = timeline.push_impl(name);
        (TimelineRangeGuard { active: timeline.enabled }, call)
    }

    /// Closes the range.
    pub fn close(self) -> (call: Option<TimelineCall>)
        ensures
            call == if self.spec_active() {
                Some(TimelineCall::Pop)
            } else {
                None
            },
    {
        if self.active {
            Some(TimelineCall::Pop)
        } else {
            None
        }
    }
}

/// How many ranges are open after an annotation.
pub open spec fn depth_after(depth: int, call: Option<TimelineCall>) -> int {
    match call {
        Some(TimelineCall::Push(_)) => depth + 1,
        Some(TimelineCall::Pop) => depth - 1,
        _ => depth,
    }
}

/// Opening and closing a guarded range leaves as many ranges open as before, whether annotations are
/// switched in between or not: only the switch at the opening counts.
pub proof fn law_guard_is_balanced(
    depth: int,
    enabled_at_opening: bool,
    name: Seq<char>,
    opening: Option<TimelineCall>,
    closing: Option<TimelineCall>,
)
    requires
        opens(opening, enabled_at_opening, name),
        closing == (if enabled_at_opening {
            Some(TimelineCall::Pop)
        } else {
            None
        }),
    ensures
        depth_after(depth_after(depth, opening), closing) == depth,
{
}

/// Annotations are made exactly where they are compiled in and one of the words `1`, `true`, `yes`
/// and `on` switches them on, and then each call is handed on with its name; else none is.
pub proof fn law_switch_decides_every_call(
    compiled: bool,
    value: Option<&str>,
    timeline: Timeline,
    enabled: bool,
    name: &str,
    tid: u32,
    push: Option<TimelineCall>,
    pop: Option<TimelineCall>,
    naming: Option<TimelineCall>,
)
    requires
        call_ensures(Timeline::init, (compiled, value), timeline),
        call_ensures(Timeline::enabled, (&timeline,), enabled),
        call_ensures(Timeline::push_impl, (&timeline, name), push),
        call_ensures(Timeline::pop_impl, (&timeline,), pop),
        call_ensures(Timeline::name_current_thread_impl, (&timeline, tid, name), naming),
    ensures
        enabled <==> compiled && value is Some && (lowercase(value->Some_0@) == "1"@ || lowercase(
            value->Some_0@,
        ) == "true"@ || lowercase(value->Some_0@) == "yes"@ || lowercase(value->Some_0@) == "on"@),
        push is Some == enabled && pop is Some == enabled && naming is Some == enabled,
        enabled ==> push->Some_0 is Push && push->Some_0->Push_0@ == name@,
        enabled ==> pop->Some_0 is Pop,
        enabled ==> naming->Some_0 is NameThread && naming->Some_0->NameThread_0 == tid
            && naming->Some_0->NameThread_1@ == name@,
{
}

/// A guard closes its range exactly if it opened one, under its name.
pub proof fn law_guard_closes_what_it_opened(
    timeline: &Timeline,
    name: &str,
    enabled: bool,
    opened: (TimelineRangeGuard, Option<TimelineCall>),
    closing: Option<TimelineCall>,
)
    requires
        call_ensures(Timeline::enabled, (timeline,), enabled),
        call_ensures(TimelineRangeGuard::new, (timeline, name), opened),
        call_ensures(TimelineRangeGuard::close, (opened.0,), closing),
    ensures
        opened.1 is Some == enabled,
        opened.1 is Some ==> opened.1->Some_0 is Push && opened.1->Some_0->Push_0@ == name@,
        closing is Some == opened.1 is Some,
        closing is Some ==> closing->Some_0 is Pop,
{
}

} // verus!

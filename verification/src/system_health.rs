//! The health of this process and of the endpoints that it serves.

use vstd::prelude::*;

use crate::config::HealthStatus;
use crate::dict::{Dict, DictKey};
use crate::json::copy_json;
use crate::servicegroup::Instance;

use serde_json::Value;
use std::sync::Arc;

verus! {

/// What a health check of an endpoint sends, and where.
#[derive(Debug)]
pub struct HealthCheckTarget {
    pub instance: Instance,
    pub payload: Value,
}

impl Clone for HealthCheckTarget {
    fn clone(&self) -> (copy: Self)
        ensures
            copy == *self,
    {
        HealthCheckTarget { instance: self.instance.clone(), payload: copy_json(&self.payload) }
    }
}

/// The word for a health status.
pub open spec fn health_label(status: HealthStatus) -> Seq<char> {
    match status {
        HealthStatus::Ready => "ready"@,
        HealthStatus::NotReady => "notready"@,
    }
}

/// Whether `endpoint` is known to be ready.
pub open spec fn is_ready(health: Map<Seq<char>, HealthStatus>, endpoint: Seq<char>) -> bool {
    health.contains_key(endpoint) && health[endpoint] == HealthStatus::Ready
}

/// What is known of the health of a process.
///
/// `N` wakes the health check of an endpoint, `R` receives the names of endpoints that were
/// registered, and `G` is the gauge of the uptime.
pub struct SystemHealth<N, R, G> {
    system_health: HealthStatus,
    endpoint_health: Dict<String, HealthStatus>,
    health_check_targets: Dict<String, Arc<HealthCheckTarget>>,
    health_check_notifiers: Dict<String, Arc<N>>,
    new_endpoint_rx: Option<R>,
    use_endpoint_health_status: Vec<String>,
    health_check_enabled: bool,
    health_path: String,
    live_path: String,
    start_time: u64,
    uptime_gauge: Option<G>,
}

/// The health of a process, as it is seen from outside.
pub ghost struct HealthView {
    pub system: HealthStatus,
    pub endpoints: Map<Seq<char>, HealthStatus>,
    pub targets: Map<Seq<char>, Arc<HealthCheckTarget>>,
    pub listed: Seq<String>,
    pub checked: bool,
}

impl HealthView {
    /// Whether the process is healthy: every listed endpoint is ready; or, where none is listed,
    /// every endpoint with a health check; or, where there is none either, the process itself.
    pub open spec fn healthy(self) -> bool {
        if self.listed.len() > 0 {
            forall|i: int|
                0 <= i < self.listed.len() ==> is_ready(self.endpoints, (#[trigger] self.listed[i])@)
        } else if self.targets.dom() != Set::<Seq<char>>::empty() {
            forall|endpoint: Seq<char>| #[trigger]
                self.targets.contains_key(endpoint) ==> is_ready(self.endpoints, endpoint)
        } else {
            self.system == HealthStatus::Ready
        }
    }

    /// The view after the status of `endpoint` was set.
    pub open spec fn with_endpoint(self, endpoint: Seq<char>, status: HealthStatus) -> Self {
        HealthView { endpoints: self.endpoints.insert(endpoint, status), ..self }
    }

    /// The view after `endpoint` was given a health check for the first time: it counts as not
    /// ready until its status is set.
    pub open spec fn with_target(self, endpoint: Seq<char>, target: Arc<HealthCheckTarget>) -> Self {
        HealthView {
            targets: self.targets.insert(endpoint, target),
            endpoints: if self.endpoints.contains_key(endpoint) {
                self.endpoints
            } else {
                self.endpoints.insert(endpoint, HealthStatus::NotReady)
            },
            ..self
        }
    }
}

impl<N, R, G> View for SystemHealth<N, R, G> {
    type V = HealthView;

    closed spec fn view(&self) -> HealthView {
        HealthView {
            system: self.system_health,
            endpoints: self.endpoint_health@,
            targets: self.health_check_targets@,
            listed: self.use_endpoint_health_status@,
            checked: self.health_check_enabled,
        }
    }
}

/// The endpoints of a list, each with the same status.
pub open spec fn seeded(list: Seq<String>, status: HealthStatus) -> Map<Seq<char>, HealthStatus>
    decreases list.len(),
{
    if list.len() == 0 {
        Map::empty()
    } else {
        seeded(list.drop_last(), status).insert(list.last()@, status)
    }
}

impl<N, R, G> SystemHealth<N, R, G> {
    /// What wakes the health check of each endpoint.
    pub closed spec fn spec_notifiers(&self) -> Map<Seq<char>, Arc<N>> {
        self.health_check_notifiers@
    }

    /// The receiver of new endpoints, until it is taken.
    pub closed spec fn spec_receiver(&self) -> Option<R> {
        self.new_endpoint_rx
    }

    /// The gauge of the uptime, once it was set.
    pub closed spec fn spec_gauge(&self) -> Option<G> {
        self.uptime_gauge
    }

    /// The path of the health probe.
    pub closed spec fn spec_health_path(&self) -> Seq<char> {
        self.health_path@
    }

    /// The path of the liveness probe.
    pub closed spec fn spec_live_path(&self) -> Seq<char> {
        self.live_path@
    }

    /// When the process started, in nanoseconds.
    pub closed spec fn spec_start(&self) -> u64 {
        self.start_time
    }

    /// Every endpoint with a health check has something that wakes it.
    pub open spec fn wf(&self) -> bool {
        forall|endpoint: Seq<char>| #[trigger]
            self@.targets.contains_key(endpoint) ==> self.spec_notifiers().contains_key(endpoint)
    }

    /// Whether nothing but the view differs.
    pub open spec fn same_frame(&self, other: &Self) -> bool {
        &&& self.spec_notifiers() == other.spec_notifiers()
        &&& self.same_setup(other)
    }

    /// Whether nothing but the view and the notifiers differs.
    pub open spec fn same_setup(&self, other: &Self) -> bool {
        &&& self.spec_receiver() == other.spec_receiver()
        &&& self.spec_gauge() == other.spec_gauge()
        &&& self.spec_health_path() == other.spec_health_path()
        &&& self.spec_live_path() == other.spec_live_path()
        &&& self.spec_start() == other.spec_start()
    }

    /// The health of a process that starts at `now`. Listed endpoints start with the status of the
    /// process, or as not ready where health checks are to find out.
    pub fn new(
        starting_health_status: HealthStatus,
        use_endpoint_health_status: Vec<String>,
        health_check_enabled: bool,
        health_path: String,
        live_path: String,
        receiver: R,
        now: u64,
    ) -> (health: Self)
        ensures
            health@ == (HealthView {
                system: starting_health_status,
                endpoints: seeded(
                    use_endpoint_health_status@,
                    if health_check_enabled {
                        HealthStatus::NotReady
                    } else {
                        starting_health_status
                    },
                ),
                targets: Map::<Seq<char>, Arc<HealthCheckTarget>>::empty(),
                listed: use_endpoint_health_status@,
                checked: health_check_enabled,
            }),
            health.spec_notifiers() == Map::<Seq<char>, Arc<N>>::empty(),
            health.spec_receiver() == Some(receiver),
            health.spec_gauge() is None,
            health.spec_health_path() == health_path@,
            health.spec_live_path() == live_path@,
            health.spec_start() == now,
            health.wf(),
    {
        let seed = if health_check_enabled {
            HealthStatus::NotReady
        } else {
            starting_health_status
        };
        let mut endpoint_health: Dict<String, HealthStatus> = Dict::new();
        let ghost listed = use_endpoint_health_status@;
        let mut i: usize = 0;
        assert(listed.take(0) =~= Seq::empty());
        while i < use_endpoint_health_status.len()
            invariant
                i <= listed.len(),
                listed == use_endpoint_health_status@,
                endpoint_health@ == seeded(listed.take(i as int), seed),
            decreases listed.len() - i,
        {
            assert(listed.take(i + 1).drop_last() =~= listed.take(i as int));
            endpoint_health.insert(use_endpoint_health_status[i].clone(), seed);
            i = i + 1;
        }
        assert(listed.take(i as int) =~= listed);
        SystemHealth {
            system_health: starting_health_status,
            endpoint_health,
            health_check_targets: Dict::new(),
            health_check_notifiers: Dict::new(),
            new_endpoint_rx: Some(receiver),
            use_endpoint_health_status,
            health_check_enabled,
            health_path,
            live_path,
            start_time: now,
            uptime_gauge: None,
        }
    }

    /// Whether health checks are made.
    pub fn health_check_enabled(&self) -> (enabled: bool)
        ensures
            enabled == self@.checked,
    {
        self.health_check_enabled
    }

    /// Notes that the transport of `endpoint` was registered: without health checks it is ready
    /// then.
    pub fn set_endpoint_registered(&mut self, endpoint: &str)
        ensures
            final(self)@ == if old(self)@.checked {
                old(self)@
            } else {
                old(self)@.with_endpoint(endpoint@, HealthStatus::Ready)
            },
            final(self).same_frame(old(self)),
            old(self).wf() ==> final(self).wf(),
    {
        if !self.health_check_enabled {
            self.set_endpoint_health_status(endpoint, HealthStatus::Ready);
        }
    }

    /// Sets the status of the process itself.
    pub fn set_health_status(&mut self, status: HealthStatus)
        ensures
            final(self)@ == (HealthView { system: status, ..old(self)@ }),
            final(self).same_frame(old(self)),
            old(self).wf() ==> final(self).wf(),
    {
        self.system_health = status;
    }

    /// Sets the status of `endpoint`.
    pub fn set_endpoint_health_status(&mut self, endpoint: &str, status: HealthStatus)
        ensures
            final(self)@ == old(self)@.with_endpoint(endpoint@, status),
            final(self).same_frame(old(self)),
            old(self).wf() ==> final(self).wf(),
    {
        self.endpoint_health.insert(endpoint.to_owned(), status);
    }

    fn endpoint_ready(&self, endpoint: &String) -> (ready: bool)
        ensures
            ready == is_ready(self@.endpoints, endpoint@),
    {
        match self.endpoint_health.get(endpoint) {
            Some(status) => *status == HealthStatus::Ready,
            None => false,
        }
    }

    /// Whether the process is healthy, and the status of every endpoint in words.
    pub fn get_health_status(&self) -> (report: (bool, Dict<String, String>))
        ensures
            report.0 == self@.healthy(),
            report.1@.dom() == self@.endpoints.dom(),
            forall|endpoint: Seq<char>| #[trigger]
                self@.endpoints.contains_key(endpoint) ==> report.1@[endpoint]@ == health_label(
                    self@.endpoints[endpoint],
                ),
    {
        let endpoints = self.endpoint_labels();
        let healthy = if self.use_endpoint_health_status.len() > 0 {
            self.listed_ready()
        } else if self.health_check_targets.len() > 0 {
            proof {
                assert(self.health_check_targets@.dom().len() > 0);
                assert(self@.targets.dom() != Set::<Seq<char>>::empty());
            }
            self.targets_ready()
        } else {
            proof {
                assert(self@.targets.dom() =~= Set::empty());
            }
            self.system_health == HealthStatus::Ready
        };
        (healthy, endpoints)
    }

    fn listed_ready(&self) -> (ready: bool)
        ensures
            ready == (forall|i: int|
                0 <= i < self@.listed.len() ==> is_ready(
                    self@.endpoints,
                    (#[trigger] self@.listed[i])@,
                )),
    {
        let mut i: usize = 0;
        while i < self.use_endpoint_health_status.len()
            invariant
                i <= self@.listed.len(),
                forall|j: int|
                    0 <= j < i ==> is_ready(self@.endpoints, (#[trigger] self@.listed[j])@),
            decreases self@.listed.len() - i,
        {
            if !self.endpoint_ready(&self.use_endpoint_health_status[i]) {
                assert(!is_ready(self@.endpoints, self@.listed[i as int]@));
                return false;
            }
            i = i + 1;
        }
        true
    }

    fn targets_ready(&self) -> (ready: bool)
        ensures
            ready == (forall|endpoint: Seq<char>| #[trigger]
                self@.targets.contains_key(endpoint) ==> is_ready(self@.endpoints, endpoint)),
    {
        let n: usize = self.health_check_targets.len();
        let mut i: usize = 0;
        while i < n
            invariant
                i <= n,
                n == self.health_check_targets.entries().len(),
                self.health_check_targets.lawful(),
                forall|j: int|
                    0 <= j < i ==> is_ready(
                        self@.endpoints,
                        (#[trigger] self.health_check_targets.entries()[j]).0@,
                    ),
            decreases n - i,
        {
            let (endpoint, _) = self.health_check_targets.at(i);
            if !self.endpoint_ready(endpoint) {
                assert(self.health_check_targets.entries()[i as int].0@ == endpoint@);
                assert(self@.targets.contains_key(endpoint@));
                return false;
            }
            i = i + 1;
        }
        assert forall|endpoint: Seq<char>| #[trigger]
            self@.targets.contains_key(endpoint) implies is_ready(self@.endpoints, endpoint) by {
            assert(self.health_check_targets@.contains_key(endpoint));
            let j = choose|j: int|
                0 <= j < n && (#[trigger] self.health_check_targets.entries()[j]).0@ == endpoint;
            assert(is_ready(self@.endpoints, self.health_check_targets.entries()[j].0@));
        }
        true
    }

    fn endpoint_labels(&self) -> (labels: Dict<String, String>)
        ensures
            labels@.dom() == self@.endpoints.dom(),
            forall|endpoint: Seq<char>| #[trigger]
                self@.endpoints.contains_key(endpoint) ==> labels@[endpoint]@ == health_label(
                    self@.endpoints[endpoint],
                ),
    {
        let n: usize = self.endpoint_health.len();
        let mut labels: Dict<String, String> = Dict::new();
        let mut i: usize = 0;
        while i < n
            invariant
                i <= n,
                n == self.endpoint_health.entries().len(),
                self.endpoint_health.lawful(),
                forall|j: int| #![trigger self.endpoint_health.entries()[j]]
                    0 <= j < i ==> labels@.contains_key(self.endpoint_health.entries()[j].0@)
                        && labels@[self.endpoint_health.entries()[j].0@]@ == health_label(
                        self.endpoint_health.entries()[j].1,
                    ),
                forall|k: Seq<char>| #[trigger]
                    labels@.contains_key(k) ==> self.endpoint_health@.contains_key(k),
            decreases n - i,
        {
            let (endpoint, status) = self.endpoint_health.at(i);
            let label = match status {
                HealthStatus::Ready => "ready".to_owned(),
                HealthStatus::NotReady => "notready".to_owned(),
            };
            proof {
                assert(self.endpoint_health.entries()[i as int].0@ == endpoint@);
            }
            labels.insert(endpoint.copy_key(), label);
            i = i + 1;
        }
        proof {
            assert forall|k: Seq<char>| #[trigger] self.endpoint_health@.contains_key(k) implies (
            labels@.contains_key(k) && labels@[k]@ == health_label(self.endpoint_health@[k])) by {
                let j = choose|j: int|
                    0 <= j < n && (#[trigger] self.endpoint_health.entries()[j]).0@ == k;
                assert(self.endpoint_health.entries()[j].0@ == k);
            }
            assert(labels@.dom() =~= self@.endpoints.dom());
        }
        labels
    }

    /// Gives `endpoint_subject` a health check, once: later registrations change nothing. The
    /// result is the name to announce, where this was the first.
    pub fn register_health_check_target(
        &mut self,
        endpoint_subject: &str,
        instance: Instance,
        payload: Value,
        notifier: N,
    ) -> (announced: Option<String>)
        ensures
            final(self).same_setup(old(self)),
            old(self).wf() ==> final(self).wf(),
            if old(self)@.targets.contains_key(endpoint_subject@) {
                &&& announced is None
                &&& final(self)@ == old(self)@
                &&& final(self).spec_notifiers() == old(self).spec_notifiers()
            } else {
                &&& announced is Some
                &&& announced->Some_0@ == endpoint_subject@
                &&& final(self)@ == old(self)@.with_target(
                    endpoint_subject@,
                    Arc::new(HealthCheckTarget { instance, payload }),
                )
                &&& final(self).spec_notifiers() == if old(self).spec_notifiers().contains_key(
                    endpoint_subject@,
                ) {
                    old(self).spec_notifiers()
                } else {
                    old(self).spec_notifiers().insert(endpoint_subject@, Arc::new(notifier))
                }
            },
    {
        let key = endpoint_subject.to_owned();
        if self.health_check_targets.contains(&key) {
            return None;
        }
        self.health_check_targets.insert(
            key.clone(),
            Arc::new(HealthCheckTarget { instance, payload }),
        );
        if !self.health_check_notifiers.contains(&key) {
            self.health_check_notifiers.insert(key.clone(), Arc::new(notifier));
        }
        if !self.endpoint_health.contains(&key) {
            self.endpoint_health.insert(key.clone(), HealthStatus::NotReady);
        }
        Some(key)
    }

    /// Every endpoint that has a health check, with its target.
    pub fn get_health_check_targets(&self) -> (targets: Vec<(String, Arc<HealthCheckTarget>)>)
        ensures
            targets@.len() == self@.targets.dom().len(),
            forall|i: int| #![trigger targets@[i]]
                0 <= i < targets@.len() ==> self@.targets.contains_key(targets@[i].0@)
                    && self@.targets[targets@[i].0@] == targets@[i].1,
            forall|endpoint: Seq<char>| #[trigger]
                self@.targets.contains_key(endpoint) ==> exists|i: int|
                    0 <= i < targets@.len() && (#[trigger] targets@[i]).0@ == endpoint,
    {
        let n: usize = self.health_check_targets.len();
        let mut targets: Vec<(String, Arc<HealthCheckTarget>)> = Vec::new();
        let mut i: usize = 0;
        while i < n
            invariant
                i <= n,
                n == self.health_check_targets.entries().len(),
                self.health_check_targets.lawful(),
                targets@.len() == i,
                forall|j: int| #![trigger targets@[j]]
                    0 <= j < i ==> targets@[j].0@ == self.health_check_targets.entries()[j].0@
                        && targets@[j].1 == self.health_check_targets.entries()[j].1,
            decreases n - i,
        {
            let (endpoint, target) = self.health_check_targets.at(i);
            targets.push((endpoint.copy_key(), target.clone()));
            i = i + 1;
        }
        proof {
            assert forall|j: int| #![trigger targets@[j]]
                0 <= j < targets@.len() implies self@.targets.contains_key(targets@[j].0@)
                && self@.targets[targets@[j].0@] == targets@[j].1 by {
                assert(self.health_check_targets.entries()[j].0@ == targets@[j].0@);
            }
            assert forall|endpoint: Seq<char>| #[trigger]
                self@.targets.contains_key(endpoint) implies exists|j: int|
                0 <= j < targets@.len() && (#[trigger] targets@[j]).0@ == endpoint by {
                assert(self.health_check_targets@.contains_key(endpoint));
                let j = choose|j: int|
                    0 <= j < n && (#[trigger] self.health_check_targets.entries()[j]).0@
                        == endpoint;
                assert(targets@[j].0@ == endpoint);
            }
        }
        targets
    }

    /// Whether any endpoint has a health check.
    pub fn has_health_check_targets(&self) -> (any: bool)
        ensures
            any == (self@.targets.dom() != Set::<Seq<char>>::empty()),
    {
        let n: usize = self.health_check_targets.len();
        proof {
            if n == 0 {
                assert(self@.targets.dom() =~= Set::empty());
            }
        }
        n > 0
    }

    /// The endpoints that have a health check.
    pub fn get_health_check_endpoints(&self) -> (endpoints: Vec<String>)
        ensures
            endpoints@.len() == self@.targets.dom().len(),
            forall|i: int|
                0 <= i < endpoints@.len() ==> self@.targets.contains_key(
                    (#[trigger] endpoints@[i])@,
                ),
            forall|endpoint: Seq<char>| #[trigger]
                self@.targets.contains_key(endpoint) ==> exists|i: int|
                    0 <= i < endpoints@.len() && (#[trigger] endpoints@[i])@ == endpoint,
    {
        let targets = self.get_health_check_targets();
        let mut endpoints: Vec<String> = Vec::new();
        let mut i: usize = 0;
        while i < targets.len()
            invariant
                i <= targets@.len(),
                endpoints@.len() == i,
                forall|j: int| 0 <= j < i ==> #[trigger] endpoints@[j] == targets@[j].0,
            decreases targets@.len() - i,
        {
            endpoints.push(targets[i].0.clone());
            i = i + 1;
        }
        proof {
            assert forall|endpoint: Seq<char>| #[trigger]
                self@.targets.contains_key(endpoint) implies exists|j: int|
                0 <= j < endpoints@.len() && (#[trigger] endpoints@[j])@ == endpoint by {
                let j = choose|j: int|
                    0 <= j < targets@.len() && (#[trigger] targets@[j]).0@ == endpoint;
                assert(endpoints@[j]@ == endpoint);
            }
        }
        endpoints
    }

    /// The health check of `endpoint`.
    pub fn get_health_check_target(&self, endpoint: &str) -> (target: Option<
        Arc<HealthCheckTarget>,
    >)
        ensures
            target == if self@.targets.contains_key(endpoint@) {
                Some(self@.targets[endpoint@])
            } else {
                None
            },
    {
        match self.health_check_targets.get(&endpoint.to_owned()) {
            Some(target) => Some(target.clone()),
            None => None,
        }
    }

    /// The status of `endpoint`.
    pub fn get_endpoint_health_status(&self, endpoint: &str) -> (status: Option<HealthStatus>)
        ensures
            status == if self@.endpoints.contains_key(endpoint@) {
                Some(self@.endpoints[endpoint@])
            } else {
                None
            },
    {
        match self.endpoint_health.get(&endpoint.to_owned()) {
            Some(status) => Some(*status),
            None => None,
        }
    }

    /// What wakes the health check of `endpoint_subject`.
    pub fn get_endpoint_health_check_notifier(&self, endpoint_subject: &str) -> (notifier: Option<
        Arc<N>,
    >)
        ensures
            notifier == if self.spec_notifiers().contains_key(endpoint_subject@) {
                Some(self.spec_notifiers()[endpoint_subject@])
            } else {
                None
            },
    {
        match self.health_check_notifiers.get(&endpoint_subject.to_owned()) {
            Some(notifier) => Some(notifier.clone()),
            None => None,
        }
    }

    /// Takes the receiver of new endpoints, which can be done once.
    pub fn take_new_endpoint_receiver(&mut self) -> (receiver: Option<R>)
        ensures
            receiver == old(self).spec_receiver(),
            final(self).spec_receiver() is None,
            final(self)@ == old(self)@,
            final(self).spec_notifiers() == old(self).spec_notifiers(),
            final(self).spec_gauge() == old(self).spec_gauge(),
            final(self).spec_health_path() == old(self).spec_health_path(),
            final(self).spec_live_path() == old(self).spec_live_path(),
            final(self).spec_start() == old(self).spec_start(),
            old(self).wf() ==> final(self).wf(),
    {
        self.new_endpoint_rx.take()
    }

    /// Sets the gauge of the uptime, which can be done once. Where the gauge could not be created,
    /// that is the outcome.
    pub fn initialize_uptime_gauge(&mut self, gauge: Result<G, String>) -> (outcome: Result<
        (),
        String,
    >)
        ensures
            final(self)@ == old(self)@,
            final(self).spec_notifiers() == old(self).spec_notifiers(),
            final(self).spec_receiver() == old(self).spec_receiver(),
            final(self).spec_health_path() == old(self).spec_health_path(),
            final(self).spec_live_path() == old(self).spec_live_path(),
            final(self).spec_start() == old(self).spec_start(),
            old(self).wf() ==> final(self).wf(),
            match gauge {
                Err(text) => outcome == Err::<(), String>(text) && final(self).spec_gauge()
                    == old(self).spec_gauge(),
                Ok(gauge) => if old(self).spec_gauge() is Some {
                    outcome is Err && outcome->Err_0@ == "uptime_gauge already initialized"@
                        && final(self).spec_gauge() == old(self).spec_gauge()
                } else {
                    outcome is Ok && final(self).spec_gauge() == Some(gauge)
                },
            },
    {
        match gauge {
            Err(text) => Err(text),
            Ok(gauge) => {
                if self.uptime_gauge.is_some() {
                    return Err("uptime_gauge already initialized".to_owned());
                }
                self.uptime_gauge = Some(gauge);
                Ok(())
            },
        }
    }

    /// How long, in nanoseconds, the process has been running at `now`.
    pub fn uptime(&self, now: u64) -> (elapsed: u64)
        ensures
            elapsed == if now >= self.spec_start() {
                (now - self.spec_start()) as u64
            } else {
                0u64
            },
    {
        if now >= self.start_time {
            now - self.start_time
        } else {
            0
        }
    }

    /// The gauge to set, and the uptime in nanoseconds to set it to.
    pub fn update_uptime_gauge(&self, now: u64) -> (update: Option<(&G, u64)>)
        ensures
            match update {
                Some(pair) => self.spec_gauge() == Some(*pair.0) && pair.1 == (if now
                    >= self.spec_start() {
                    now - self.spec_start()
                } else {
                    0
                }),
                None => self.spec_gauge() is None,
            },
    {
        let elapsed: u64 = self.uptime(now);
        match &self.uptime_gauge {
            Some(gauge) => Some((gauge, elapsed)),
            None => None,
        }
    }

    /// The path of the health probe.
    pub fn health_path(&self) -> (path: &str)
        ensures
            path@ == self.spec_health_path(),
    {
        self.health_path.as_str()
    }

    /// The path of the liveness probe.
    pub fn live_path(&self) -> (path: &str)
        ensures
            path@ == self.spec_live_path(),
    {
        self.live_path.as_str()
    }
}

/// Unless endpoints are listed, a process is unhealthy from the registration of a health check for an
/// endpoint of which nothing is known until that endpoint is set ready. From then on it is healthy
/// where the other endpoints with a health check are ready.
pub proof fn law_registered_endpoint_gates_health(
    view: HealthView,
    endpoint: Seq<char>,
    target: Arc<HealthCheckTarget>,
)
    requires
        view.listed.len() == 0,
        !view.targets.contains_key(endpoint),
        !view.endpoints.contains_key(endpoint),
    ensures
        !view.with_target(endpoint, target).healthy(),
        !view.with_target(endpoint, target).with_endpoint(
            endpoint,
            HealthStatus::NotReady,
        ).healthy(),
        view.with_target(endpoint, target).with_endpoint(endpoint, HealthStatus::Ready).healthy()
            == (view.targets.dom() == Set::<Seq<char>>::empty() || view.healthy()),
{
    let registered = view.with_target(endpoint, target);
    assert(registered.targets.contains_key(endpoint));
    assert(registered.targets.dom().contains(endpoint));
    let ready = registered.with_endpoint(endpoint, HealthStatus::Ready);
    let not_ready = registered.with_endpoint(endpoint, HealthStatus::NotReady);
    assert(ready.targets.contains_key(endpoint));
    assert(not_ready.targets.contains_key(endpoint));
    assert forall|e: Seq<char>| #[trigger] view.targets.contains_key(e) implies (is_ready(
        ready.endpoints,
        e,
    ) == is_ready(view.endpoints, e) && ready.targets.contains_key(e)) by {}
    if view.targets.dom() == Set::<Seq<char>>::empty() || view.healthy() {
        assert forall|e: Seq<char>| #[trigger] ready.targets.contains_key(e) implies is_ready(
            ready.endpoints,
            e,
        ) by {
            if e != endpoint {
                assert(view.targets.contains_key(e));
                assert(view.targets.dom().contains(e));
            }
        }
    } else {
        let e = choose|e: Seq<char>| #[trigger]
            view.targets.contains_key(e) && !is_ready(view.endpoints, e);
        assert(ready.targets.contains_key(e) && !is_ready(ready.endpoints, e));
    }
}

/// Listed endpoints alone decide: where any are listed, neither the status of the process nor the
/// registration of health checks changes whether it is healthy.
pub proof fn law_listed_endpoints_decide(
    view: HealthView,
    status: HealthStatus,
    endpoint: Seq<char>,
    target: Arc<HealthCheckTarget>,
)
    requires
        view.listed.len() > 0,
    ensures
        (HealthView { system: status, ..view }).healthy() == view.healthy(),
        view.with_target(endpoint, target).healthy() == view.healthy(),
{
    let registered = view.with_target(endpoint, target);
    assert forall|i: int| 0 <= i < view.listed.len() implies is_ready(
        registered.endpoints,
        (#[trigger] view.listed[i])@,
    ) == is_ready(view.endpoints, view.listed[i]@) by {}
}

/// Where endpoints are listed, each of them has to be ready: one that is not makes the process
/// unhealthy, whatever the others are, and nothing else does.
pub proof fn law_every_listed_endpoint_counts(view: HealthView)
    requires
        view.listed.len() > 0,
    ensures
        forall|i: int|
            0 <= i < view.listed.len() && !is_ready(view.endpoints, (#[trigger] view.listed[i])@)
                ==> !view.healthy(),
        (forall|i: int|
            0 <= i < view.listed.len() ==> is_ready(view.endpoints, (#[trigger] view.listed[i])@))
            ==> view.healthy(),
{
}

/// Where none is listed, each endpoint with a health check has to be ready: one that is not makes
/// the process unhealthy, whatever the others are, and nothing else does.
pub proof fn law_every_checked_endpoint_counts(view: HealthView, endpoint: Seq<char>)
    requires
        view.listed.len() == 0,
        view.targets.contains_key(endpoint),
    ensures
        !is_ready(view.endpoints, endpoint) ==> !view.healthy(),
        (forall|e: Seq<char>| #[trigger]
            view.targets.contains_key(e) ==> is_ready(view.endpoints, e)) ==> view.healthy(),
{
    assert(view.targets.dom().contains(endpoint));
}

/// What is reported of a process is what the statuses of its endpoints say: the process is healthy
/// exactly if every listed endpoint is found to be ready; where none is listed, exactly if every
/// endpoint with a health check is; and the status of each endpoint is the word for what is found.
pub proof fn law_report_agrees_with_statuses<N, R, G>(
    health: &SystemHealth<N, R, G>,
    report: (bool, Dict<String, String>),
    endpoint: &str,
    status: Option<HealthStatus>,
    target: Option<Arc<HealthCheckTarget>>,
    i: int,
)
    requires
        call_ensures(SystemHealth::<N, R, G>::get_health_status, (health,), report),
        call_ensures(
            SystemHealth::<N, R, G>::get_endpoint_health_status,
            (health, endpoint),
            status,
        ),
        call_ensures(SystemHealth::<N, R, G>::get_health_check_target, (health, endpoint), target),
    ensures
        0 <= i < health@.listed.len() && health@.listed[i]@ == endpoint@ && status != Some(
            HealthStatus::Ready,
        ) ==> !report.0,
        health@.listed.len() == 0 && target is Some && status != Some(HealthStatus::Ready)
            ==> !report.0,
        health@.listed.len() > 0 && (forall|j: int|
            0 <= j < health@.listed.len() ==> health@.endpoints.contains_key(
                (#[trigger] health@.listed[j])@,
            ) && health@.endpoints[health@.listed[j]@] == HealthStatus::Ready) ==> report.0,
        health@.listed.len() == 0 && target is Some && (forall|e: Seq<char>| #[trigger]
            health@.targets.contains_key(e) ==> health@.endpoints.contains_key(e)
                && health@.endpoints[e] == HealthStatus::Ready) ==> report.0,
        health@.listed.len() == 0 && health@.targets.len() == 0 && health@.targets.dom().finite()
            ==> report.0 == (health@.system == HealthStatus::Ready),
        report.1@.contains_key(endpoint@) == status is Some,
        status == Some(HealthStatus::Ready) ==> report.1@[endpoint@]@ == "ready"@,
        status == Some(HealthStatus::NotReady) ==> report.1@[endpoint@]@ == "notready"@,
{
    if target is Some {
        assert(health@.targets.dom().contains(endpoint@));
    }
    if 0 <= i < health@.listed.len() && health@.listed[i]@ == endpoint@ {
        assert(is_ready(health@.endpoints, health@.listed[i]@) == (status == Some(
            HealthStatus::Ready,
        )));
    }
    if health@.targets.len() == 0 && health@.targets.dom().finite() {
        assert(health@.targets.dom() =~= Set::empty());
    }
    assert(report.1@.dom().contains(endpoint@) == health@.endpoints.dom().contains(endpoint@));
}

/// The status that was set for an endpoint is the one that is found, and every other endpoint keeps
/// its status.
pub proof fn law_set_status_is_found<N, R, G>(
    health: &mut SystemHealth<N, R, G>,
    endpoint: &str,
    status: HealthStatus,
    other: &str,
    before: Option<HealthStatus>,
    after: Option<HealthStatus>,
    target_before: Option<Arc<HealthCheckTarget>>,
    target_after: Option<Arc<HealthCheckTarget>>,
)
    requires
        call_ensures(
            SystemHealth::<N, R, G>::set_endpoint_health_status,
            (health, endpoint, status),
            (),
        ),
        call_ensures(
            SystemHealth::<N, R, G>::get_endpoint_health_status,
            (&*old(health), other),
            before,
        ),
        call_ensures(
            SystemHealth::<N, R, G>::get_endpoint_health_status,
            (&*final(health), other),
            after,
        ),
        call_ensures(
            SystemHealth::<N, R, G>::get_health_check_target,
            (&*old(health), other),
            target_before,
        ),
        call_ensures(
            SystemHealth::<N, R, G>::get_health_check_target,
            (&*final(health), other),
            target_after,
        ),
    ensures
        other@ == endpoint@ ==> after == Some(status),
        other@ != endpoint@ ==> after == before,
        target_after == target_before,
        final(health)@.system == old(health)@.system,
        final(health)@.listed == old(health)@.listed,
        final(health)@.checked == old(health)@.checked,
{
}

/// A registered transport makes its endpoint ready exactly where no health check is to find out, and
/// concerns no other endpoint.
pub proof fn law_registered_transport<N, R, G>(
    health: &mut SystemHealth<N, R, G>,
    endpoint: &str,
    enabled: bool,
    other: &str,
    before: Option<HealthStatus>,
    after: Option<HealthStatus>,
)
    requires
        call_ensures(SystemHealth::<N, R, G>::health_check_enabled, (&*old(health),), enabled),
        call_ensures(
            SystemHealth::<N, R, G>::set_endpoint_registered,
            (health, endpoint),
            (),
        ),
        call_ensures(
            SystemHealth::<N, R, G>::get_endpoint_health_status,
            (&*old(health), other),
            before,
        ),
        call_ensures(
            SystemHealth::<N, R, G>::get_endpoint_health_status,
            (&*final(health), other),
            after,
        ),
    ensures
        other@ == endpoint@ && !enabled ==> after == Some(HealthStatus::Ready),
        other@ != endpoint@ || enabled ==> after == before,
        final(health)@.targets == old(health)@.targets,
        final(health)@.system == old(health)@.system,
        final(health)@.listed == old(health)@.listed,
{
}

/// The first registration of a health check counts: it is what is found for the endpoint from then
/// on, with what wakes it, and the endpoint is not ready where its status was not known. A later
/// registration changes nothing, and no registration concerns another endpoint.
pub proof fn law_first_health_check_counts<N, R, G>(
    health: &mut SystemHealth<N, R, G>,
    endpoint: &str,
    instance: Instance,
    payload: Value,
    notifier: N,
    announced: Option<String>,
    other: &str,
    target_before: Option<Arc<HealthCheckTarget>>,
    target_after: Option<Arc<HealthCheckTarget>>,
    status_before: Option<HealthStatus>,
    status_after: Option<HealthStatus>,
    wake_before: Option<Arc<N>>,
    wake_after: Option<Arc<N>>,
)
    requires
        call_ensures(
            SystemHealth::<N, R, G>::register_health_check_target,
            (health, endpoint, instance, payload, notifier),
            announced,
        ),
        call_ensures(
            SystemHealth::<N, R, G>::get_health_check_target,
            (&*old(health), other),
            target_before,
        ),
        call_ensures(
            SystemHealth::<N, R, G>::get_health_check_target,
            (&*final(health), other),
            target_after,
        ),
        call_ensures(
            SystemHealth::<N, R, G>::get_endpoint_health_status,
            (&*old(health), other),
            status_before,
        ),
        call_ensures(
            SystemHealth::<N, R, G>::get_endpoint_health_status,
            (&*final(health), other),
            status_after,
        ),
        call_ensures(
            SystemHealth::<N, R, G>::get_endpoint_health_check_notifier,
            (&*old(health), other),
            wake_before,
        ),
        call_ensures(
            SystemHealth::<N, R, G>::get_endpoint_health_check_notifier,
            (&*final(health), other),
            wake_after,
        ),
    ensures
        other@ != endpoint@ ==> target_after == target_before && status_after == status_before
            && wake_after == wake_before,
        other@ == endpoint@ ==> {
            &&& target_after is Some
            &&& announced is Some == target_before is None
            &&& announced is Some ==> announced->Some_0@ == endpoint@
            &&& target_before is Some ==> target_after == target_before && wake_after == wake_before
                && status_after == status_before
            &&& target_before is None ==> target_after->Some_0.instance == instance
                && target_after->Some_0.payload == payload
            &&& target_before is None && wake_before is None ==> wake_after == Some(
                Arc::new(notifier),
            )
            &&& wake_before is Some ==> wake_after == wake_before
            &&& status_before is Some ==> status_after == status_before
            &&& target_before is None && status_before is None ==> status_after == Some(
                HealthStatus::NotReady,
            )
        },
        final(health)@.system == old(health)@.system,
        final(health)@.listed == old(health)@.listed,
        final(health)@.checked == old(health)@.checked,
{
}

/// The endpoints that are listed with a health check are those for which one is found, each once.
pub proof fn law_listed_health_checks_are_found<N, R, G>(
    health: &SystemHealth<N, R, G>,
    targets: Vec<(String, Arc<HealthCheckTarget>)>,
    endpoints: Vec<String>,
    any: bool,
    endpoint: &str,
    target: Option<Arc<HealthCheckTarget>>,
)
    requires
        call_ensures(SystemHealth::<N, R, G>::get_health_check_targets, (health,), targets),
        call_ensures(SystemHealth::<N, R, G>::get_health_check_endpoints, (health,), endpoints),
        call_ensures(SystemHealth::<N, R, G>::has_health_check_targets, (health,), any),
        call_ensures(SystemHealth::<N, R, G>::get_health_check_target, (health, endpoint), target),
    ensures
        target is Some == exists|i: int|
            0 <= i < targets@.len() && (#[trigger] targets@[i]).0@ == endpoint@,
        target is Some == exists|i: int|
            0 <= i < endpoints@.len() && (#[trigger] endpoints@[i])@ == endpoint@,
        forall|i: int|
            0 <= i < targets@.len() && (#[trigger] targets@[i]).0@ == endpoint@ ==> target == Some(
                targets@[i].1,
            ),
        targets@.len() == endpoints@.len(),
        health@.targets.dom().finite() ==> any == (targets@.len() > 0),
        target is Some ==> any,
{
    if target is Some {
        assert(health@.targets.dom().contains(endpoint@));
    }
    if !any {
        assert(health@.targets.dom() =~= Set::empty());
    } else if health@.targets.dom().finite() && targets@.len() == 0 {
        assert(health@.targets.dom() =~= Set::empty());
    }
}

/// A process starts out healthy exactly if it is started as ready, unless listed endpoints have to be
/// checked first. It starts without health checks, and the receiver of new endpoints can be taken
/// once.
pub proof fn law_start_of_a_process<N, R, G>(
    status: HealthStatus,
    listed: Vec<String>,
    enabled: bool,
    health_path: String,
    live_path: String,
    receiver: R,
    now: u64,
    health: SystemHealth<N, R, G>,
    report: (bool, Dict<String, String>),
    endpoint: &str,
    found: Option<HealthStatus>,
    target: Option<Arc<HealthCheckTarget>>,
)
    requires
        call_ensures(
            SystemHealth::<N, R, G>::new,
            (status, listed, enabled, health_path, live_path, receiver, now),
            health,
        ),
        call_ensures(SystemHealth::<N, R, G>::get_health_status, (&health,), report),
        call_ensures(
            SystemHealth::<N, R, G>::get_endpoint_health_status,
            (&health, endpoint),
            found,
        ),
        call_ensures(SystemHealth::<N, R, G>::get_health_check_target, (&health, endpoint), target),
    ensures
        report.0 == (status == HealthStatus::Ready && (listed@.len() == 0 || !enabled)),
        found is Some == exists|i: int|
            0 <= i < listed@.len() && (#[trigger] listed@[i])@ == endpoint@,
        found is Some ==> found == Some(
            if enabled {
                HealthStatus::NotReady
            } else {
                status
            },
        ),
        target is None,
{
    let seed = if enabled {
        HealthStatus::NotReady
    } else {
        status
    };
    lemma_seeded(listed@, seed, endpoint@);
    assert forall|i: int| 0 <= i < listed@.len() implies seeded(listed@, seed).contains_key(
        (#[trigger] listed@[i])@,
    ) && seeded(listed@, seed)[listed@[i]@] == seed by {
        lemma_seeded(listed@, seed, listed@[i]@);
    }
    if listed@.len() > 0 {
        assert(is_ready(health@.endpoints, listed@[0]@) == (seed == HealthStatus::Ready));
    } else {
        assert(health@.targets.dom() =~= Set::empty());
    }
}

proof fn lemma_seeded(list: Seq<String>, status: HealthStatus, endpoint: Seq<char>)
    ensures
        seeded(list, status).contains_key(endpoint) == exists|i: int|
            0 <= i < list.len() && (#[trigger] list[i])@ == endpoint,
        seeded(list, status).contains_key(endpoint) ==> seeded(list, status)[endpoint] == status,
    decreases list.len(),
{
    if list.len() > 0 {
        lemma_seeded(list.drop_last(), status, endpoint);
        let init = list.drop_last();
        if exists|i: int| 0 <= i < list.len() && (#[trigger] list[i])@ == endpoint {
            let i = choose|i: int| 0 <= i < list.len() && (#[trigger] list[i])@ == endpoint;
            if i < list.len() - 1 {
                assert(init[i]@ == endpoint);
            }
        }
        if seeded(init, status).contains_key(endpoint) {
            let i = choose|i: int| 0 <= i < init.len() && (#[trigger] init[i])@ == endpoint;
            assert(list[i]@ == endpoint);
        }
        assert(list[list.len() - 1] == list.last());
    }
}

/// The status of the process is what is reported where no endpoint is listed and none has a health
/// check, and setting it concerns no endpoint.
pub proof fn law_status_of_the_process<N, R, G>(
    health: &mut SystemHealth<N, R, G>,
    status: HealthStatus,
    any: bool,
    report: (bool, Dict<String, String>),
    endpoint: &str,
    before: Option<HealthStatus>,
    after: Option<HealthStatus>,
)
    requires
        call_ensures(SystemHealth::<N, R, G>::set_health_status, (health, status), ()),
        call_ensures(SystemHealth::<N, R, G>::has_health_check_targets, (&*old(health),), any),
        call_ensures(SystemHealth::<N, R, G>::get_health_status, (&*final(health),), report),
        call_ensures(
            SystemHealth::<N, R, G>::get_endpoint_health_status,
            (&*old(health), endpoint),
            before,
        ),
        call_ensures(
            SystemHealth::<N, R, G>::get_endpoint_health_status,
            (&*final(health), endpoint),
            after,
        ),
    ensures
        old(health)@.listed.len() == 0 && !any ==> report.0 == (status == HealthStatus::Ready),
        after == before,
        final(health)@.targets == old(health)@.targets,
        final(health)@.listed == old(health)@.listed,
        final(health)@.checked == old(health)@.checked,
{
}

/// The receiver of new endpoints is handed out once.
pub proof fn law_receiver_is_taken_once<N, R, G>(
    first: &mut SystemHealth<N, R, G>,
    taken: Option<R>,
    second: &mut SystemHealth<N, R, G>,
    again: Option<R>,
)
    requires
        call_ensures(SystemHealth::<N, R, G>::take_new_endpoint_receiver, (first,), taken),
        *old(second) == *final(first),
        call_ensures(SystemHealth::<N, R, G>::take_new_endpoint_receiver, (second,), again),
    ensures
        taken == old(first).spec_receiver(),
        again is None,
        final(second)@ == old(first)@,
{
}

/// The first gauge stays: it is the one that is updated, with the time that has gone by since the
/// start, which never goes backwards.
pub proof fn law_first_gauge_stays<N, R, G>(
    first: &mut SystemHealth<N, R, G>,
    gauge: G,
    set: Result<(), String>,
    second: &mut SystemHealth<N, R, G>,
    later: G,
    refused: Result<(), String>,
    now: u64,
    then: u64,
    elapsed: u64,
    elapsed_then: u64,
    update: Option<(&G, u64)>,
)
    requires
        old(first).spec_gauge() is None,
        call_ensures(
            SystemHealth::<N, R, G>::initialize_uptime_gauge,
            (first, Ok::<G, String>(gauge)),
            set,
        ),
        *old(second) == *final(first),
        call_ensures(
            SystemHealth::<N, R, G>::initialize_uptime_gauge,
            (second, Ok::<G, String>(later)),
            refused,
        ),
        call_ensures(SystemHealth::<N, R, G>::uptime, (&*final(second), now), elapsed),
        call_ensures(SystemHealth::<N, R, G>::uptime, (&*final(second), then), elapsed_then),
        call_ensures(SystemHealth::<N, R, G>::update_uptime_gauge, (&*final(second), now), update),
        now <= then,
    ensures
        set is Ok,
        refused is Err,
        update is Some,
        *update->Some_0.0 == gauge,
        update->Some_0.1 == elapsed,
        elapsed <= elapsed_then,
        now >= old(first).spec_start() ==> old(first).spec_start() + elapsed == now,
        now <= old(first).spec_start() ==> elapsed == 0,
{
}

} // verus!

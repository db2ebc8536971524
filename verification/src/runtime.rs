//! The resources of a process and how it shuts down.

use vstd::prelude::*;

use crate::ids::{fresh_uuid, is_uuid_text};
use crate::text::concat2;

use std::sync::Arc;

verus! {

/// How the resources of a process are sized.
#[derive(Debug)]
pub struct RuntimeConfig {
    /// The number of worker threads; by default as many as can run in parallel.
    pub num_worker_threads: Option<usize>,
    /// The number of threads for computations; zero switches them off.
    pub compute_threads: Option<usize>,
    /// The stack size of those threads.
    pub compute_stack_size: Option<usize>,
    /// The prefix of their names.
    pub compute_thread_prefix: String,
}

impl RuntimeConfig {
    /// Whether threads for computations are wanted.
    pub open spec fn wants_compute_pool(&self) -> bool {
        self.compute_threads != Some(0usize)
    }

    /// Whether threads for computations are wanted.
    pub fn compute_pool_wanted(&self) -> (wanted: bool)
        ensures
            wanted == self.wants_compute_pool(),
    {
        match self.compute_threads {
            Some(threads) => threads != 0,
            None => true,
        }
    }

    /// How many workers may block at a time: all but one, and at least one. `available` is how many
    /// threads can run in parallel.
    pub open spec fn permits(&self, available: usize) -> usize {
        let workers = match self.num_worker_threads {
            Some(workers) => workers,
            None => available,
        };
        if workers <= 2 {
            1
        } else {
            (workers - 1) as usize
        }
    }

    /// How many workers may block at a time.
    pub fn block_in_place_permits(&self, available: usize) -> (count: usize)
        ensures
            count == self.permits(available),
            count >= 1,
    {
        let workers: usize = match self.num_worker_threads {
            Some(workers) => workers,
            None => available,
        };
        let rest: usize = workers.saturating_sub(1);
        if rest < 1 {
            1
        } else {
            rest
        }
    }
}

/// An executor `S` that is shared, or a handle `H` on one that others own.
pub enum RuntimeType<S, H> {
    Shared(Arc<S>),
    External(H),
}

/// What becomes of an executor that is let go of.
#[derive(Debug, Clone, Copy, PartialEq, Eq, Structural)]
pub enum Release {
    /// Others own it.
    Keep,
    /// Shut it down without waiting: waiting is not allowed on a thread of an executor.
    ShutDownInBackground,
    /// Drop it, which waits for its tasks.
    Drop,
}

/// What becomes of an executor that is let go of.
pub fn release(shared: bool, sole_owner: bool, inside_executor: bool) -> (action: Release)
    ensures
        action == if !shared || !sole_owner {
            Release::Keep
        } else if inside_executor {
            Release::ShutDownInBackground
        } else {
            Release::Drop
        },
{
    if !shared || !sole_owner {
        Release::Keep
    } else if inside_executor {
        Release::ShutDownInBackground
    } else {
        Release::Drop
    }
}

/// The endpoints that a graceful shutdown waits for.
#[derive(Debug)]
pub struct GracefulShutdownTracker {
    count: usize,
}

impl View for GracefulShutdownTracker {
    type V = nat;

    closed spec fn view(&self) -> nat {
        self.count as nat
    }
}

impl GracefulShutdownTracker {
    /// A tracker of no endpoint.
    pub fn new() -> (tracker: Self)
        ensures
            tracker@ == 0,
    {
        GracefulShutdownTracker { count: 0 }
    }

    /// Counts one more endpoint.
    pub fn register_portname(&mut self)
        requires
            old(self)@ < usize::MAX,
        ensures
            final(self)@ == old(self)@ + 1,
    {
        self.count = self.count + 1;
    }

    /// Counts an endpoint as ended.
    pub fn unregister_portname(&mut self)
        requires
            old(self)@ > 0,
        ensures
            final(self)@ == old(self)@ - 1,
    {
        self.count = self.count - 1;
    }

    /// The number of endpoints that have not ended.
    pub fn get_count(&self) -> (count: usize)
        ensures
            count == self@,
    {
        self.count
    }
}

/// A phase of a shutdown.
#[derive(Debug, Clone, Copy, PartialEq, Eq, Structural)]
pub enum ShutdownPhase {
    /// Tell the endpoints to end.
    CancelEndpoints,
    /// Wait until they have.
    WaitForEndpoints,
    /// Tell everything else to end.
    CancelRuntime,
    /// Nothing is left to do.
    Done,
}

/// What follows a phase, while `active` endpoints have not ended.
pub open spec fn shutdown_after(phase: ShutdownPhase, active: nat) -> ShutdownPhase {
    match phase {
        ShutdownPhase::CancelEndpoints => if active > 0 {
            ShutdownPhase::WaitForEndpoints
        } else {
            ShutdownPhase::CancelRuntime
        },
        ShutdownPhase::WaitForEndpoints => if active > 0 {
            ShutdownPhase::WaitForEndpoints
        } else {
            ShutdownPhase::CancelRuntime
        },
        ShutdownPhase::CancelRuntime => ShutdownPhase::Done,
        ShutdownPhase::Done => ShutdownPhase::Done,
    }
}

/// What follows a phase of a shutdown.
pub fn shutdown(phase: ShutdownPhase, tracker: &GracefulShutdownTracker) -> (next: ShutdownPhase)
    ensures
        next == shutdown_after(phase, tracker@),
{
    match phase {
        ShutdownPhase::CancelEndpoints | ShutdownPhase::WaitForEndpoints => {
            if tracker.get_count() > 0 {
                ShutdownPhase::WaitForEndpoints
            } else {
                ShutdownPhase::CancelRuntime
            }
        },
        ShutdownPhase::CancelRuntime => ShutdownPhase::Done,
        ShutdownPhase::Done => ShutdownPhase::Done,
    }
}

/// The phases of a shutdown, given how many endpoints were active after each.
pub open spec fn is_shutdown_run(phases: Seq<ShutdownPhase>, active: Seq<nat>) -> bool {
    &&& phases.len() > 0
    &&& phases.len() == active.len()
    &&& phases[0] == ShutdownPhase::CancelEndpoints
    &&& forall|i: int|
        0 <= i < phases.len() - 1 ==> phases[i + 1] == shutdown_after(
            #[trigger] phases[i],
            active[i],
        )
}

/// Everything else is only told to end once no endpoint is active any more, and after the
/// endpoints were told.
pub proof fn law_endpoints_end_first(phases: Seq<ShutdownPhase>, active: Seq<nat>, i: int)
    requires
        is_shutdown_run(phases, active),
        0 <= i < phases.len(),
        phases[i] == ShutdownPhase::CancelRuntime,
    ensures
        i > 0,
        active[i - 1] == 0,
        phases[0] == ShutdownPhase::CancelEndpoints,
{
    assert(phases[i - 1 + 1] == shutdown_after(phases[i - 1], active[i - 1]));
}

/// The resources of a process.
///
/// `S` is an executor, `H` a handle on one, `T` a token that cancels, and `C` a pool of threads for
/// computations.
pub struct Runtime<S, H, T, C> {
    id: String,
    primary: RuntimeType<S, H>,
    secondary: RuntimeType<S, H>,
    cancellation_token: T,
    endpoint_shutdown_token: T,
    compute_pool: Option<Arc<C>>,
    block_in_place_permits: Option<usize>,
}

/// The resources of a process, as they are seen from outside.
pub ghost struct RuntimeView<S, H, T, C> {
    pub primary: RuntimeType<S, H>,
    pub secondary: RuntimeType<S, H>,
    pub cancellation_token: T,
    pub endpoint_shutdown_token: T,
    pub compute_pool: Option<Arc<C>>,
    pub permits: Option<usize>,
}

impl<S, H, T, C> View for Runtime<S, H, T, C> {
    type V = RuntimeView<S, H, T, C>;

    closed spec fn view(&self) -> RuntimeView<S, H, T, C> {
        RuntimeView {
            primary: self.primary,
            secondary: self.secondary,
            cancellation_token: self.cancellation_token,
            endpoint_shutdown_token: self.endpoint_shutdown_token,
            compute_pool: self.compute_pool,
            permits: self.block_in_place_permits,
        }
    }
}

impl<S, H, T, C> Runtime<S, H, T, C> {
    /// The identifier of the process.
    pub closed spec fn spec_id(&self) -> Seq<char> {
        self.id@
    }

    /// Resources without a pool for computations. Where no secondary executor is given, `fallback`
    /// is used, or its failure is the outcome.
    pub fn new(
        runtime: RuntimeType<S, H>,
        secondary: Option<RuntimeType<S, H>>,
        fallback: Result<RuntimeType<S, H>, String>,
        root_token: T,
        endpoint_token: T,
    ) -> (assembled: Result<Self, String>)
        ensures
            if secondary is None && fallback is Err {
                assembled == Err::<Self, String>(fallback->Err_0)
            } else {
                &&& assembled is Ok
                &&& is_uuid_text(assembled->Ok_0.spec_id())
                &&& assembled->Ok_0@ == (RuntimeView {
                    primary: runtime,
                    secondary: match secondary {
                        Some(given) => given,
                        None => fallback->Ok_0,
                    },
                    cancellation_token: root_token,
                    endpoint_shutdown_token: endpoint_token,
                    compute_pool: None::<Arc<C>>,
                    permits: None,
                })
            },
    {
        let secondary = match secondary {
            Some(given) => given,
            None => match fallback {
                Ok(created) => created,
                Err(text) => {
                    return Err(text);
                },
            },
        };
        Ok(
            Runtime {
                id: fresh_uuid(),
                primary: runtime,
                secondary,
                cancellation_token: root_token,
                endpoint_shutdown_token: endpoint_token,
                compute_pool: None,
                block_in_place_permits: None,
            },
        )
    }

    /// The same resources, with the pool for computations and the permits that a configuration asks
    /// for. A pool that could not be created is done without.
    pub fn new_with_config(
        self,
        config: &RuntimeConfig,
        pool: Result<C, String>,
        available: usize,
    ) -> (assembled: Self)
        ensures
            assembled.spec_id() == self.spec_id(),
            assembled@ == (RuntimeView {
                compute_pool: if config.wants_compute_pool() && pool is Ok {
                    Some(Arc::new(pool->Ok_0))
                } else {
                    self@.compute_pool
                },
                permits: Some(config.permits(available)),
                ..self@
            }),
    {
        let mut assembled = self;
        if config.compute_pool_wanted() {
            if let Ok(created) = pool {
                assembled.compute_pool = Some(Arc::new(created));
            }
        }
        let count: usize = config.block_in_place_permits(available);
        assembled.block_in_place_permits = Some(count);
        assembled
    }

    /// The identifier of the process.
    pub fn id(&self) -> (id: &str)
        ensures
            id@ == self.spec_id(),
    {
        self.id.as_str()
    }

    /// The executor for requests.
    pub fn primary(&self) -> (runtime: &RuntimeType<S, H>)
        ensures
            *runtime == self@.primary,
    {
        &self.primary
    }

    /// The executor for background work.
    pub fn secondary(&self) -> (runtime: &RuntimeType<S, H>)
        ensures
            *runtime == self@.secondary,
    {
        &self.secondary
    }

    /// The token that cancels everything.
    pub fn primary_token(&self) -> (token: &T)
        ensures
            *token == self@.cancellation_token,
    {
        &self.cancellation_token
    }

    /// The token that cancels the endpoints, of which endpoints get children.
    pub fn child_token(&self) -> (token: &T)
        ensures
            *token == self@.endpoint_shutdown_token,
    {
        &self.endpoint_shutdown_token
    }

    /// The token that cancels the endpoints.
    pub fn endpoint_shutdown_token(&self) -> (token: &T)
        ensures
            *token == self@.endpoint_shutdown_token,
    {
        &self.endpoint_shutdown_token
    }

    /// How many blocking sections may run at once, if that was configured.
    pub fn block_in_place_permits(&self) -> (permits: Option<usize>)
        ensures
            permits == self@.permits,
    {
        self.block_in_place_permits
    }

    /// The pool for computations, if there is one.
    pub fn compute_pool(&self) -> (pool: Option<&Arc<C>>)
        ensures
            match pool {
                Some(found) => self@.compute_pool == Some(*found),
                None => self@.compute_pool is None,
            },
    {
        match &self.compute_pool {
            Some(pool) => Some(pool),
            None => None,
        }
    }

    /// What a thread is set up with: the pool and the permits, where there are both.
    pub fn initialize_thread_local(&self) -> (context: Option<(&Arc<C>, usize)>)
        ensures
            match context {
                Some(pair) => self@.compute_pool == Some(*pair.0) && self@.permits == Some(pair.1),
                None => self@.compute_pool is None || self@.permits is None,
            },
    {
        match (&self.compute_pool, self.block_in_place_permits) {
            (Some(pool), Some(permits)) => Some((pool, permits)),
            _ => None,
        }
    }

    /// How many threads to set up: none without a pool, else as many as were detected, of which there
    /// has to be one.
    pub fn initialize_all_thread_locals(&self, detected: usize) -> (threads: Result<usize, String>)
        ensures
            if self@.compute_pool is None || self@.permits is None {
                threads == Ok::<usize, String>(0)
            } else if detected == 0 {
                threads is Err && threads->Err_0@ == "No worker threads detected"@
            } else {
                threads == Ok::<usize, String>(detected)
            },
    {
        if self.initialize_thread_local().is_none() {
            return Ok(0);
        }
        if detected == 0 {
            return Err("No worker threads detected".to_owned());
        }
        Ok(detected)
    }
}

/// The name under which a thread appears in a timeline: its own, or one made of its identifier.
pub fn thread_label(name: Option<&str>, id: &str) -> (label: String)
    ensures
        label@ == match name {
            Some(own) => own@,
            None => "tokio-worker-"@ + id@,
        },
{
    match name {
        Some(own) => own.to_owned(),
        None => concat2("tokio-worker-", id),
    }
}

/// How many probes detect the worker threads.
pub const PROBE_COUNT: usize = 100;

/// The number of threads that probes ran on, each told by its identifier.
pub fn detect_worker_thread_count(probes: &Vec<u64>) -> (count: usize)
    ensures
        probes@.to_set().finite(),
        count == probes@.to_set().len(),
{
    let mut seen: Vec<u64> = Vec::new();
    let mut i: usize = 0;
    proof {
        assert(seen@.to_set() =~= probes@.take(0).to_set());
    }
    while i < probes.len()
        invariant
            i <= probes@.len(),
            seen@.no_duplicates(),
            seen@.to_set() =~= probes@.take(i as int).to_set(),
        decreases probes@.len() - i,
    {
        let ghost before = seen@;
        let id: u64 = probes[i];
        proof {
            assert(probes@.take(i + 1) =~= probes@.take(i as int).push(id));
            assert(probes@.take(i + 1).to_set() =~= probes@.take(i as int).to_set().insert(id)) by {
                let t = probes@.take(i as int);
                assert forall|x: u64| t.push(id).to_set().contains(x) == t.to_set().insert(
                    id,
                ).contains(x) by {
                    if t.contains(x) {
                        let j = choose|j: int| 0 <= j < t.len() && t[j] == x;
                        assert(t.push(id)[j] == x);
                    }
                    assert(t.push(id)[t.len() as int] == id);
                    if t.push(id).contains(x) {
                        let j = choose|j: int| 0 <= j < t.push(id).len() && t.push(id)[j] == x;
                        if j < t.len() {
                            assert(t[j] == x);
                        }
                    }
                }
            }
        }
        if !crate::servicegroup::client::contains_id(&seen, id) {
            seen.push(id);
            proof {
                assert(seen@.to_set() =~= before.to_set().insert(id)) by {
                    assert forall|x: u64| seen@.to_set().contains(x) == before.to_set().insert(
                        id,
                    ).contains(x) by {
                        if before.contains(x) {
                            let j = choose|j: int| 0 <= j < before.len() && before[j] == x;
                            assert(seen@[j] == x);
                        }
                        assert(seen@[before.len() as int] == id);
                        if seen@.contains(x) {
                            let j = choose|j: int| 0 <= j < seen@.len() && seen@[j] == x;
                            if j < before.len() {
                                assert(before[j] == x);
                            }
                        }
                    }
                }
                assert forall|a: int, b: int|
                    0 <= a < seen@.len() && 0 <= b < seen@.len() && a != b implies seen@[a]
                    != seen@[b] by {
                    if a == before.len() {
                        assert(before.contains(before[b]));
                    } else if b == before.len() {
                        assert(before.contains(before[a]));
                    }
                }
            }
        } else {
            proof {
                assert(before.contains(id));
                assert(before.to_set().insert(id) =~= before.to_set());
            }
        }
        i = i + 1;
    }
    proof {
        assert(probes@.take(i as int) =~= probes@);
        seen@.unique_seq_to_set();
    }
    seen.len()
}

/// All but one of the workers may block, and at least one; the configured number of workers comes
/// before the detected one. Computations get threads unless they are given none.
pub proof fn law_sizes_of_a_runtime(
    config: &RuntimeConfig,
    available: usize,
    count: usize,
    wanted: bool,
)
    requires
        call_ensures(RuntimeConfig::block_in_place_permits, (config, available), count),
        call_ensures(RuntimeConfig::compute_pool_wanted, (config,), wanted),
    ensures
        count >= 1,
        config.num_worker_threads is Some && config.num_worker_threads->Some_0 >= 2 ==> count + 1
            == config.num_worker_threads->Some_0,
        config.num_worker_threads is Some && config.num_worker_threads->Some_0 < 2 ==> count == 1,
        config.num_worker_threads is None && available >= 2 ==> count + 1 == available,
        config.num_worker_threads is None && available < 2 ==> count == 1,
        !wanted <==> config.compute_threads is Some && config.compute_threads->Some_0 == 0,
{
}

/// An executor is only ended by its last owner, and not waited for on one of its own threads.
pub proof fn law_last_owner_ends_the_executor(
    shared: bool,
    sole_owner: bool,
    inside: bool,
    action: Release,
)
    requires
        call_ensures(release, (shared, sole_owner, inside), action),
    ensures
        action == Release::Keep <==> !(shared && sole_owner),
        action == Release::ShutDownInBackground <==> shared && sole_owner && inside,
        action == Release::Drop <==> shared && sole_owner && !inside,
{
}

/// Endpoints that begin and end leave the count as it was, which starts at none.
pub proof fn law_endpoints_are_counted(
    fresh: GracefulShutdownTracker,
    none: usize,
    beginning: &mut GracefulShutdownTracker,
    before: usize,
    during: usize,
    ending: &mut GracefulShutdownTracker,
    after: usize,
)
    requires
        call_ensures(GracefulShutdownTracker::new, (), fresh),
        call_ensures(GracefulShutdownTracker::get_count, (&fresh,), none),
        call_ensures(GracefulShutdownTracker::get_count, (&*old(beginning),), before),
        call_ensures(GracefulShutdownTracker::register_portname, (beginning,), ()),
        call_ensures(GracefulShutdownTracker::get_count, (&*final(beginning),), during),
        *old(ending) == *final(beginning),
        call_ensures(GracefulShutdownTracker::unregister_portname, (ending,), ()),
        call_ensures(GracefulShutdownTracker::get_count, (&*final(ending),), after),
    ensures
        none == 0,
        during == before + 1,
        after == before,
{
}

/// A shutdown tells the endpoints first, waits as long as any has not ended, tells everything else
/// next, and is done then.
pub proof fn law_order_of_a_shutdown(
    phase: ShutdownPhase,
    tracker: &GracefulShutdownTracker,
    count: usize,
    next: ShutdownPhase,
)
    requires
        call_ensures(GracefulShutdownTracker::get_count, (tracker,), count),
        call_ensures(shutdown, (phase, tracker), next),
    ensures
        next == ShutdownPhase::WaitForEndpoints <==> count > 0 && (phase
            == ShutdownPhase::CancelEndpoints || phase == ShutdownPhase::WaitForEndpoints),
        next == ShutdownPhase::CancelRuntime <==> count == 0 && (phase
            == ShutdownPhase::CancelEndpoints || phase == ShutdownPhase::WaitForEndpoints),
        next == ShutdownPhase::Done <==> phase == ShutdownPhase::CancelRuntime || phase
            == ShutdownPhase::Done,
{
}

/// A run of a shutdown that does not wait for ever gets done: once no endpoint is active, two steps
/// are enough.
pub proof fn law_shutdown_gets_done(phases: Seq<ShutdownPhase>, active: Seq<nat>, i: int)
    requires
        is_shutdown_run(phases, active),
        0 <= i < phases.len() - 2,
        active[i] == 0,
    ensures
        phases[i + 2] == ShutdownPhase::Done,
{
    assert(phases[i + 1] == shutdown_after(phases[i], active[i]));
    assert(phases[i + 1 + 1] == shutdown_after(phases[i + 1], active[i + 1]));
}

/// What a runtime is assembled of is what it hands out: the executors, the tokens and the identifier
/// stay when it is configured, and configuring adds a pool exactly where one is wanted and could be
/// created.
pub proof fn law_parts_of_a_runtime<S, H, T, C>(
    primary: RuntimeType<S, H>,
    secondary: Option<RuntimeType<S, H>>,
    fallback: Result<RuntimeType<S, H>, String>,
    root: T,
    endpoints: T,
    made: Result<Runtime<S, H, T, C>, String>,
    config: &RuntimeConfig,
    pool: Result<C, String>,
    available: usize,
    wanted: bool,
    count: usize,
    runtime: Runtime<S, H, T, C>,
    found_primary: &RuntimeType<S, H>,
    found_secondary: &RuntimeType<S, H>,
    found_root: &T,
    found_child: &T,
    found_endpoints: &T,
    found_permits: Option<usize>,
    found_pool: Option<&Arc<C>>,
    context: Option<(&Arc<C>, usize)>,
)
    requires
        call_ensures(
            Runtime::<S, H, T, C>::new,
            (primary, secondary, fallback, root, endpoints),
            made,
        ),
        call_ensures(RuntimeConfig::compute_pool_wanted, (config,), wanted),
        call_ensures(RuntimeConfig::block_in_place_permits, (config, available), count),
        made is Ok ==> call_ensures(
            Runtime::<S, H, T, C>::new_with_config,
            (made->Ok_0, config, pool, available),
            runtime,
        ),
        call_ensures(Runtime::<S, H, T, C>::primary, (&runtime,), found_primary),
        call_ensures(Runtime::<S, H, T, C>::secondary, (&runtime,), found_secondary),
        call_ensures(Runtime::<S, H, T, C>::primary_token, (&runtime,), found_root),
        call_ensures(Runtime::<S, H, T, C>::child_token, (&runtime,), found_child),
        call_ensures(Runtime::<S, H, T, C>::endpoint_shutdown_token, (&runtime,), found_endpoints),
        call_ensures(Runtime::<S, H, T, C>::block_in_place_permits, (&runtime,), found_permits),
        call_ensures(Runtime::<S, H, T, C>::compute_pool, (&runtime,), found_pool),
        call_ensures(Runtime::<S, H, T, C>::initialize_thread_local, (&runtime,), context),
    ensures
        made is Err <==> secondary is None && fallback is Err,
        made is Err ==> made->Err_0 == fallback->Err_0,
        made is Ok ==> {
            &&& *found_primary == primary
            &&& secondary is Some ==> *found_secondary == secondary->Some_0
            &&& secondary is None ==> *found_secondary == fallback->Ok_0
            &&& *found_root == root
            &&& *found_child == endpoints
            &&& *found_endpoints == endpoints
            &&& found_permits == Some(count)
            &&& found_pool is Some <==> wanted && pool is Ok
            &&& found_pool is Some ==> **found_pool->Some_0 == pool->Ok_0
            &&& context is Some == found_pool is Some
            &&& context is Some ==> *context->Some_0.0 == *found_pool->Some_0 && context->Some_0.1
                == count
            &&& runtime.spec_id() == made->Ok_0.spec_id()
            &&& made->Ok_0@.compute_pool is None && made->Ok_0@.permits is None
        },
{
}

/// Threads are set up exactly where there is something to set them up with, every one that was
/// detected; a thread without a name of its own goes by its identifier.
pub proof fn law_threads_are_set_up<S, H, T, C>(
    runtime: &Runtime<S, H, T, C>,
    context: Option<(&Arc<C>, usize)>,
    detected: usize,
    threads: Result<usize, String>,
    own: &str,
    id: &str,
    named: String,
    unnamed: String,
)
    requires
        call_ensures(Runtime::<S, H, T, C>::initialize_thread_local, (runtime,), context),
        call_ensures(
            Runtime::<S, H, T, C>::initialize_all_thread_locals,
            (runtime, detected),
            threads,
        ),
        call_ensures(thread_label, (Some(own), id), named),
        call_ensures(thread_label, (None::<&str>, id), unnamed),
    ensures
        context is None ==> threads == Ok::<usize, String>(0),
        context is Some && detected > 0 ==> threads == Ok::<usize, String>(detected),
        context is Some && detected == 0 ==> threads is Err && threads->Err_0@
            == "No worker threads detected"@,
        named@ == own@,
        unnamed@ == "tokio-worker-"@ + id@,
{
}

/// Each thread is counted once, however many probes ran on it: probes on a thread that was seen do
/// not change the count, and a probe on another adds one.
pub proof fn law_each_thread_is_counted_once(
    probes: &Vec<u64>,
    more: &Vec<u64>,
    id: u64,
    count: usize,
    count_more: usize,
)
    requires
        more@ == probes@.push(id),
        call_ensures(detect_worker_thread_count, (probes,), count),
        call_ensures(detect_worker_thread_count, (more,), count_more),
    ensures
        probes@.contains(id) ==> count_more == count,
        !probes@.contains(id) ==> count_more == count + 1,
        probes@.len() == 0 ==> count == 0,
{
    let a = probes@.to_set();
    assert(more@.to_set() =~= a.insert(id)) by {
        assert forall|x: u64| more@.to_set().contains(x) == a.insert(id).contains(x) by {
            if probes@.contains(x) {
                let j = choose|j: int| 0 <= j < probes@.len() && probes@[j] == x;
                assert(more@[j] == x);
            }
            assert(more@[probes@.len() as int] == id);
            if more@.contains(x) {
                let j = choose|j: int| 0 <= j < more@.len() && more@[j] == x;
                if j < probes@.len() {
                    assert(probes@[j] == x);
                }
            }
        }
    }
    if probes@.contains(id) {
        assert(a.insert(id) =~= a);
    }
    if probes@.len() == 0 {
        assert(a =~= Set::empty());
    }
}

} // verus!

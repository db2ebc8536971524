//! A caller's view of a port name: which instances there are, which of them can be used, and how
//! busy each of them is.

use vstd::prelude::*;

use dashmap::DashMap;

use crate::dash::{counters, get_counter, new_counters, retain_counters, set_counter};
use crate::dict::{Dict, DictKey};
use crate::discovery::{
    DiscoveryEvent, DiscoveryInstance, DiscoveryInstanceId, PortNameInstanceId,
};
use crate::servicegroup::Instance;

use std::sync::Arc;

verus! {

/// Whether `id` is among `ids`.
pub fn contains_id(ids: &Vec<u64>, id: u64) -> (found: bool)
    ensures
        found == ids@.contains(id),
{
    let mut i: usize = 0;
    while i < ids.len()
        invariant
            i <= ids@.len(),
            forall|j: int| 0 <= j < i ==> ids@[j] != id,
        decreases ids@.len() - i,
    {
        if ids[i] == id {
            assert(ids@[i as int] == id);
            return true;
        }
        i = i + 1;
    }
    false
}

/// The number of requests that an instance is working on; none is known of an unknown instance.
pub open spec fn load_of(loads: Map<u64, u64>, id: u64) -> u64 {
    if loads.contains_key(id) {
        loads[id]
    } else {
        0
    }
}

/// The loads after one more request to `id`. A counter that is at its end starts over.
pub open spec fn incremented(loads: Map<u64, u64>, id: u64) -> Map<u64, u64> {
    loads.insert(
        id,
        if load_of(loads, id) == u64::MAX {
            0
        } else {
            (load_of(loads, id) + 1) as u64
        },
    )
}

/// The loads after a request to `id` was done. An unknown instance stays unknown, and a counter at
/// zero stays there.
pub open spec fn decremented(loads: Map<u64, u64>, id: u64) -> Map<u64, u64> {
    if !loads.contains_key(id) {
        loads
    } else {
        loads.insert(
            id,
            if loads[id] == 0 {
                0
            } else {
                (loads[id] - 1) as u64
            },
        )
    }
}

/// Whether `id` is the first of `ids` with the least load.
pub open spec fn is_first_least_loaded(loads: Map<u64, u64>, ids: Seq<u64>, id: u64) -> bool {
    exists|i: int|
        {
            &&& 0 <= i < ids.len()
            &&& #[trigger] ids[i] == id
            &&& forall|j: int| 0 <= j < i ==> load_of(loads, id) < load_of(loads, #[trigger] ids[j])
            &&& forall|j: int|
                0 <= j < ids.len() ==> load_of(loads, id) <= load_of(loads, #[trigger] ids[j])
        }
}

/// How many requests each instance is working on.
pub struct RoutingOccupancyState {
    counts: DashMap<u64, u64>,
}

impl View for RoutingOccupancyState {
    type V = Map<u64, u64>;

    closed spec fn view(&self) -> Map<u64, u64> {
        counters(self.counts)
    }
}

impl Default for RoutingOccupancyState {
    fn default() -> (state: Self)
        ensures
            state@ == Map::<u64, u64>::empty(),
    {
        let state = RoutingOccupancyState { counts: new_counters() };
        assert(state@ =~= Map::empty());
        state
    }
}

impl RoutingOccupancyState {
    /// Counts one more request to `instance_id`.
    pub fn increment(&mut self, instance_id: u64)
        ensures
            final(self)@ == incremented(old(self)@, instance_id),
    {
        let count: u64 = self.load(instance_id);
        set_counter(&mut self.counts, instance_id, count.wrapping_add(1));
    }

    /// Picks the first instance with the least load and counts one more request to it.
    pub fn select_exact_min_and_increment(&mut self, instance_ids: &Vec<u64>) -> (chosen: Option<
        u64,
    >)
        ensures
            match chosen {
                Some(id) => is_first_least_loaded(old(self)@, instance_ids@, id) && final(self)@
                    == incremented(old(self)@, id),
                None => instance_ids@.len() == 0 && final(self)@ == old(self)@,
            },
    {
        if instance_ids.len() == 0 {
            return None;
        }
        let mut chosen: u64 = instance_ids[0];
        let mut least: u64 = self.load(chosen);
        let mut i: usize = 1;
        let ghost mut at: int = 0;
        while i < instance_ids.len()
            invariant
                1 <= i <= instance_ids@.len(),
                0 <= at < i,
                chosen == instance_ids@[at],
                least == load_of(self@, chosen),
                self@ == old(self)@,
                forall|j: int| 0 <= j < at ==> least < load_of(self@, #[trigger] instance_ids@[j]),
                forall|j: int| 0 <= j < i ==> least <= load_of(self@, #[trigger] instance_ids@[j]),
            decreases instance_ids@.len() - i,
        {
            let load: u64 = self.load(instance_ids[i]);
            if load < least {
                chosen = instance_ids[i];
                least = load;
                proof {
                    at = i as int;
                }
            }
            i = i + 1;
        }
        self.increment(chosen);
        assert(instance_ids@[at] == chosen);
        Some(chosen)
    }

    /// Counts a request to `instance_id` as done.
    pub fn decrement(&mut self, instance_id: u64)
        ensures
            final(self)@ == decremented(old(self)@, instance_id),
    {
        match get_counter(&self.counts, instance_id) {
            Some(count) => {
                set_counter(&mut self.counts, instance_id, count.saturating_sub(1));
            },
            None => {},
        }
    }

    /// The number of requests that `instance_id` is working on.
    pub fn load(&self, instance_id: u64) -> (count: u64)
        ensures
            count == load_of(self@, instance_id),
    {
        match get_counter(&self.counts, instance_id) {
            Some(count) => count,
            None => 0,
        }
    }

    /// Forgets the instances that are not among `instance_ids`.
    pub fn retain(&mut self, instance_ids: &Vec<u64>)
        ensures
            final(self)@ == old(self)@.restrict(instance_ids@.to_set()),
    {
        retain_counters(&mut self.counts, instance_ids);
    }
}

/// A request that was counted and then done leaves the load of every instance as it was, as long
/// as the counter was not at its end.
pub proof fn law_decrement_undoes_increment(loads: Map<u64, u64>, id: u64, other: u64)
    requires
        load_of(loads, id) < u64::MAX,
    ensures
        load_of(decremented(incremented(loads, id), id), other) == load_of(loads, other),
{
}

/// A load never falls below zero, however often requests are reported as done.
pub proof fn law_load_does_not_wrap_below_zero(loads: Map<u64, u64>, id: u64)
    requires
        load_of(loads, id) == 0,
    ensures
        load_of(decremented(loads, id), id) == 0,
{
}

/// Whether the loads of `ids` differ by one at most.
pub open spec fn is_balanced(loads: Map<u64, u64>, ids: Seq<u64>) -> bool {
    forall|i: int, j: int|
        0 <= i < ids.len() && 0 <= j < ids.len() ==> load_of(loads, #[trigger] ids[i]) <= load_of(
            loads,
            #[trigger] ids[j],
        ) + 1
}

/// Requests that are sent to the least loaded instance keep the loads balanced: instances whose
/// loads differ by one at most still do so after one more request.
pub proof fn law_selection_balances(loads: Map<u64, u64>, ids: Seq<u64>, chosen: u64)
    requires
        is_balanced(loads, ids),
        is_first_least_loaded(loads, ids, chosen),
        load_of(loads, chosen) < u64::MAX,
    ensures
        is_balanced(incremented(loads, chosen), ids),
{
}

/// Forgetting instances that are gone resets their load and keeps that of the others.
pub proof fn law_retain_resets_the_gone(loads: Map<u64, u64>, live: Seq<u64>, id: u64)
    ensures
        live.contains(id) ==> load_of(loads.restrict(live.to_set()), id) == load_of(loads, id),
        !live.contains(id) ==> load_of(loads.restrict(live.to_set()), id) == 0,
{
}

/// The shared state for `key`: that of an entry which is still in use, else `fresh`, which is then
/// entered. `live` is what the present entry, if there is one, still refers to.
pub fn get_or_create_shared<K: DictKey, W, S>(
    registry: &mut Dict<K, W>,
    key: K,
    live: Option<Arc<S>>,
    fresh: Arc<S>,
    entry: W,
) -> (shared: Arc<S>)
    ensures
        if old(registry)@.contains_key(key@) && live is Some {
            shared == live->Some_0 && final(registry)@ == old(registry)@
        } else {
            shared == fresh && final(registry)@ == old(registry)@.insert(key@, entry)
        },
{
    if registry.contains(&key) {
        if let Some(shared) = live {
            return shared;
        }
    }
    registry.insert(key, entry);
    fresh
}

/// How often, in seconds, the usable instances are set to the known ones again.
pub const DEFAULT_RECONCILE_INTERVAL_SECS: u64 = 5;

/// Those who follow the raw events of a port name.
pub struct PortNameDiscoverySource<T> {
    event_subscribers: Vec<T>,
}

/// The subscribers to whom an event could be delivered, in order.
pub open spec fn still_subscribed<T>(subscribers: Seq<T>, delivered: Seq<bool>) -> Seq<T>
    decreases subscribers.len(),
{
    if subscribers.len() == 0 {
        Seq::empty()
    } else {
        let rest = still_subscribed(subscribers.drop_last(), delivered);
        if delivered[subscribers.len() - 1] {
            rest.push(subscribers.last())
        } else {
            rest
        }
    }
}

impl<T> PortNameDiscoverySource<T> {
    /// The subscribers, in the order in which they came.
    pub closed spec fn spec_subscribers(&self) -> Seq<T> {
        self.event_subscribers@
    }

    /// A source that nobody follows.
    pub fn new() -> (source: Self)
        ensures
            source.spec_subscribers() == Seq::<T>::empty(),
    {
        PortNameDiscoverySource { event_subscribers: Vec::new() }
    }

    /// Adds a subscriber.
    pub fn subscribe_events(&mut self, subscriber: T)
        ensures
            final(self).spec_subscribers() == old(self).spec_subscribers().push(subscriber),
    {
        self.event_subscribers.push(subscriber);
    }

    /// The subscribers to whom an event is delivered.
    pub fn subscribers(&self) -> (subscribers: &Vec<T>)
        ensures
            subscribers@ == self.spec_subscribers(),
    {
        &self.event_subscribers
    }

    /// Drops the subscribers to whom an event could not be delivered.
    pub fn broadcast_event(&mut self, delivered: &Vec<bool>)
        requires
            delivered@.len() == old(self).spec_subscribers().len(),
        ensures
            final(self).spec_subscribers() == still_subscribed(
                old(self).spec_subscribers(),
                delivered@,
            ),
    {
        let ghost all = self.event_subscribers@;
        let mut waiting: Vec<T> = Vec::new();
        core::mem::swap(&mut waiting, &mut self.event_subscribers);
        let n: usize = waiting.len();
        let mut i: usize = 0;
        assert(all.skip(0) =~= all);
        assert(all.take(0) =~= Seq::empty());
        while i < n
            invariant
                i <= n,
                n == all.len(),
                n == delivered@.len(),
                waiting@ == all.skip(i as int),
                self.event_subscribers@ == still_subscribed(all.take(i as int), delivered@),
            decreases n - i,
        {
            let subscriber = waiting.remove(0);
            proof {
                assert(waiting@ =~= all.skip(i + 1));
                assert(all.take(i + 1).drop_last() =~= all.take(i as int));
                assert(all.take(i + 1).last() == subscriber);
            }
            if delivered[i] {
                self.event_subscribers.push(subscriber);
            }
            i = i + 1;
        }
        assert(all.take(n as int) =~= all);
    }
}

/// The known instances after an event: an added instance of a port name replaces the one with its
/// identifier, a removed one goes away, and nothing else counts.
pub open spec fn instances_after(
    known: Map<u64, Arc<Instance>>,
    event: DiscoveryEvent,
) -> Map<u64, Arc<Instance>> {
    match event {
        DiscoveryEvent::Added(DiscoveryInstance::PortName(instance)) => known.insert(
            instance.instance_id,
            Arc::new(instance),
        ),
        DiscoveryEvent::Removed(DiscoveryInstanceId::PortName(id)) => known.remove(id.instance_id),
        _ => known,
    }
}

/// Whether `list` holds exactly the known instances, each once.
pub open spec fn lists_instances(
    list: Seq<Arc<Instance>>,
    known: Map<u64, Arc<Instance>>,
) -> bool {
    &&& known.dom().finite()
    &&& list.len() == known.dom().len()
    &&& forall|i: int|
        0 <= i < list.len() ==> exists|id: u64| #[trigger]
            known.contains_key(id) && known[id] == #[trigger] list[i]
    &&& forall|id: u64| #[trigger] known.contains_key(id) ==> list.contains(known[id])
}

/// What reaches the watcher of a port name.
pub enum WatchInput {
    /// Nobody listens any more.
    Unheard,
    /// Discovery told of a change.
    Event(DiscoveryEvent),
    /// Discovery failed.
    Failed(String),
    /// Discovery has nothing more to tell.
    Ended,
}

/// What the watcher does.
pub enum WatchStep {
    /// Tell whoever follows events of the event as it came, publish the known instances after it, in
    /// this order, and go on.
    Publish { broadcast: DiscoveryEvent, instances: Vec<Arc<Instance>> },
    /// Publish that there are no instances, and end.
    Finish,
}

/// Follows the changes of the instances of a port name.
pub struct DiscoveryWatcher {
    map: Dict<u64, Arc<Instance>>,
}

impl DiscoveryWatcher {
    /// The known instances.
    pub closed spec fn spec_known(&self) -> Map<u64, Arc<Instance>> {
        self.map@
    }

    /// A watcher that knows of no instance.
    pub fn new() -> (watcher: Self)
        ensures
            watcher.spec_known() == Map::<u64, Arc<Instance>>::empty(),
    {
        DiscoveryWatcher { map: Dict::new() }
    }

    fn snapshot(&self) -> (list: Vec<Arc<Instance>>)
        ensures
            lists_instances(list@, self.spec_known()),
    {
        let n: usize = self.map.len();
        let mut list: Vec<Arc<Instance>> = Vec::new();
        let mut i: usize = 0;
        while i < n
            invariant
                i <= n,
                n == self.map.entries().len(),
                self.map.lawful(),
                list@.len() == i,
                forall|j: int| 0 <= j < i ==> #[trigger] list@[j] == self.map.entries()[j].1,
            decreases n - i,
        {
            let (_, instance) = self.map.at(i);
            list.push(instance.clone());
            i = i + 1;
        }
        proof {
            assert forall|j: int| 0 <= j < list@.len() implies exists|id: u64| #[trigger]
                self.map@.contains_key(id) && self.map@[id] == #[trigger] list@[j] by {
                let id = self.map.entries()[j].0@;
                assert(self.map@.contains_key(id) && self.map@[id] == list@[j]);
            }
            assert forall|id: u64| #[trigger] self.map@.contains_key(id) implies list@.contains(
                self.map@[id],
            ) by {
                let j = choose|j: int|
                    0 <= j < self.map.entries().len() && (#[trigger] self.map.entries()[j]).0@
                        == id;
                assert(list@[j] == self.map@[id]);
            }
        }
        list
    }

    /// Reacts to what reached the watcher.
    pub fn step(&mut self, input: WatchInput) -> (step: WatchStep)
        ensures
            match input {
                WatchInput::Event(event) => {
                    &&& final(self).spec_known() == instances_after(old(self).spec_known(), event)
                    &&& step is Publish
                    &&& step->broadcast == event
                    &&& lists_instances(step->instances@, final(self).spec_known())
                },
                _ => step is Finish && final(self).spec_known() == old(self).spec_known(),
            },
    {
        match input {
            WatchInput::Event(event) => {
                let broadcast = event.clone();
                match event {
                    DiscoveryEvent::Added(DiscoveryInstance::PortName(instance)) => {
                        let id: u64 = instance.instance_id;
                        self.map.insert(id, Arc::new(instance));
                    },
                    DiscoveryEvent::Removed(DiscoveryInstanceId::PortName(id)) => {
                        self.map.remove(&id.instance_id);
                    },
                    _ => {},
                }
                WatchStep::Publish { broadcast, instances: self.snapshot() }
            },
            _ => WatchStep::Finish,
        }
    }
}

/// An instance that was added and then removed is unknown; whatever else was known stays.
pub proof fn law_removed_instance_is_unknown(
    known: Map<u64, Arc<Instance>>,
    added: DiscoveryEvent,
    removed: DiscoveryEvent,
    instance: Instance,
    id: PortNameInstanceId,
)
    requires
        added == DiscoveryEvent::Added(DiscoveryInstance::PortName(instance)),
        removed == DiscoveryEvent::Removed(DiscoveryInstanceId::PortName(id)),
        id.instance_id == instance.instance_id,
    ensures
        instances_after(instances_after(known, added), removed) == known.remove(
            instance.instance_id,
        ),
        instances_after(known, added)[instance.instance_id] == Arc::new(instance),
{
    assert(instances_after(instances_after(known, added), removed) =~= known.remove(
        instance.instance_id,
    ));
}

/// The identifiers of a list of instances.
pub open spec fn ids_of(instances: Seq<Arc<Instance>>) -> Seq<u64> {
    instances.map_values(|instance: Arc<Instance>| instance.instance_id)
}

/// A caller's handle on a port name.
pub struct Client {
    instance_source: Vec<Arc<Instance>>,
    instance_avail: Vec<u64>,
    instance_free: Vec<u64>,
}

impl Client {
    /// The known instances.
    pub closed spec fn spec_instances(&self) -> Seq<Arc<Instance>> {
        self.instance_source@
    }

    /// The identifiers of the instances that were not reported as down.
    pub closed spec fn spec_avail(&self) -> Seq<u64> {
        self.instance_avail@
    }

    /// The identifiers of the instances that are not busy.
    pub closed spec fn spec_free(&self) -> Seq<u64> {
        self.instance_free@
    }

    /// A client that knows of `instances`, all of which can be used.
    pub fn new(instances: Vec<Arc<Instance>>) -> (client: Self)
        ensures
            client.spec_instances() == instances@,
            client.spec_avail() == ids_of(instances@),
            client.spec_free() == ids_of(instances@),
    {
        let instance_avail = collect_ids(&instances);
        let instance_free = collect_ids(&instances);
        Client { instance_source: instances, instance_avail, instance_free }
    }

    /// The known instances.
    pub fn instances(&self) -> (instances: &Vec<Arc<Instance>>)
        ensures
            instances@ == self.spec_instances(),
    {
        &self.instance_source
    }

    /// The identifiers of the known instances.
    pub fn instance_ids(&self) -> (ids: Vec<u64>)
        ensures
            ids@ == ids_of(self.spec_instances()),
    {
        collect_ids(&self.instance_source)
    }

    /// The identifiers of the instances that were not reported as down.
    pub fn instance_ids_avail(&self) -> (ids: &Vec<u64>)
        ensures
            ids@ == self.spec_avail(),
    {
        &self.instance_avail
    }

    /// The identifiers of the instances that are not busy.
    pub fn instance_ids_free(&self) -> (ids: &Vec<u64>)
        ensures
            ids@ == self.spec_free(),
    {
        &self.instance_free
    }

    /// Whether waiting for instances is over: with the known ones as soon as there are any, with an
    /// error once nobody can tell of new ones.
    pub fn wait_for_instances(
        instances: Vec<Arc<Instance>>,
        source_gone: Option<String>,
    ) -> (outcome: Option<Result<Vec<Arc<Instance>>, String>>)
        ensures
            outcome == if instances@.len() > 0 {
                Some(Ok::<Vec<Arc<Instance>>, String>(instances))
            } else {
                match source_gone {
                    Some(text) => Some(Err::<Vec<Arc<Instance>>, String>(text)),
                    None => None,
                }
            },
    {
        if instances.len() > 0 {
            return Some(Ok(instances));
        }
        match source_gone {
            Some(text) => Some(Err(text)),
            None => None,
        }
    }

    /// Leaves an instance out until the next reconciliation. Whoever follows the usable instances
    /// is told what they are now.
    pub fn report_instance_down(&mut self, instance_id: u64) -> (notice: Vec<u64>)
        ensures
            final(self).spec_avail() == old(self).spec_avail().filter(|id: u64| id != instance_id),
            notice@ == final(self).spec_avail(),
            final(self).spec_instances() == old(self).spec_instances(),
            final(self).spec_free() == old(self).spec_free(),
    {
        let mut down: Vec<u64> = Vec::new();
        down.push(instance_id);
        let filtered = without_ids(&self.instance_avail, &down);
        let notice = without_ids(&self.instance_avail, &down);
        proof {
            lemma_without_one(self.instance_avail@, down@, instance_id);
        }
        self.instance_avail = filtered;
        notice
    }

    /// Takes the busy instances out of the free ones. Those reported as down count as free unless
    /// they are busy.
    pub fn update_free_instances(&mut self, busy_instance_ids: &Vec<u64>)
        ensures
            final(self).spec_free() == ids_of(old(self).spec_instances()).filter(
                |id: u64| !busy_instance_ids@.contains(id),
            ),
            final(self).spec_instances() == old(self).spec_instances(),
            final(self).spec_avail() == old(self).spec_avail(),
    {
        let all = self.instance_ids();
        self.instance_free = without_ids(&all, busy_instance_ids);
    }

    /// Sets the usable and the free instances to the known ones, and forgets the load of those that
    /// are gone. Whoever follows the usable instances is told what they are now.
    pub fn monitor_instance_source(
        &mut self,
        instances: Vec<Arc<Instance>>,
        occupancy: Option<&mut RoutingOccupancyState>,
    ) -> (notice: Vec<u64>)
        ensures
            final(self).spec_instances() == instances@,
            final(self).spec_avail() == ids_of(instances@),
            final(self).spec_free() == ids_of(instances@),
            notice@ == ids_of(instances@),
            occupancy is Some ==> (*final(occupancy->Some_0))@ == (*old(
                occupancy->Some_0,
            ))@.restrict(ids_of(instances@).to_set()),
    {
        let notice = collect_ids(&instances);
        self.instance_avail = collect_ids(&instances);
        self.instance_free = collect_ids(&instances);
        self.instance_source = instances;
        if let Some(state) = occupancy {
            state.retain(&notice);
        }
        notice
    }
}

fn collect_ids(instances: &Vec<Arc<Instance>>) -> (ids: Vec<u64>)
    ensures
        ids@ == ids_of(instances@),
{
    let mut ids: Vec<u64> = Vec::new();
    let mut i: usize = 0;
    while i < instances.len()
        invariant
            i <= instances@.len(),
            ids@.len() == i,
            forall|j: int| 0 <= j < i ==> #[trigger] ids@[j] == instances@[j].instance_id,
        decreases instances@.len() - i,
    {
        ids.push(instances[i].instance_id);
        i = i + 1;
    }
    assert(ids@ =~= ids_of(instances@));
    ids
}

fn without_ids(ids: &Vec<u64>, left_out: &Vec<u64>) -> (rest: Vec<u64>)
    ensures
        rest@ == ids@.filter(|id: u64| !left_out@.contains(id)),
{
    let ghost keep = |id: u64| !left_out@.contains(id);
    let mut rest: Vec<u64> = Vec::new();
    let mut i: usize = 0;
    proof {
        reveal(Seq::filter);
        assert(ids@.take(0) =~= Seq::empty());
    }
    while i < ids.len()
        invariant
            i <= ids@.len(),
            keep == (|id: u64| !left_out@.contains(id)),
            rest@ == ids@.take(i as int).filter(keep),
        decreases ids@.len() - i,
    {
        proof {
            reveal(Seq::filter);
            assert(ids@.take(i + 1).drop_last() =~= ids@.take(i as int));
            assert(ids@.take(i + 1).last() == ids@[i as int]);
        }
        if !contains_id(left_out, ids[i]) {
            rest.push(ids[i]);
        }
        i = i + 1;
    }
    assert(ids@.take(i as int) =~= ids@);
    rest
}

proof fn lemma_without_one(ids: Seq<u64>, left_out: Seq<u64>, gone: u64)
    requires
        left_out == seq![gone],
    ensures
        ids.filter(|id: u64| !left_out.contains(id)) == ids.filter(|id: u64| id != gone),
    decreases ids.len(),
{
    reveal(Seq::filter);
    assert(left_out[0] == gone);
    if ids.len() > 0 {
        lemma_without_one(ids.drop_last(), left_out, gone);
    }
}

/// An instance that was reported as down cannot be used, while the others still can.
pub proof fn law_down_instance_is_left_out(avail: Seq<u64>, down: u64, other: u64)
    ensures
        !avail.filter(|id: u64| id != down).contains(down),
        other != down && avail.contains(other) ==> avail.filter(|id: u64| id != down).contains(
            other,
        ),
{
    let keep = |id: u64| id != down;
    if other != down && avail.contains(other) {
        let i = choose|i: int| 0 <= i < avail.len() && avail[i] == other;
        avail.lemma_filter_contains(keep, i);
    }
    assert forall|i: int| 0 <= i < avail.filter(keep).len() implies avail.filter(keep)[i]
        != down by {
        avail.lemma_filter_pred(keep, i);
    }
}

/// Counting a request changes the load of its instance by one and that of no other instance.
pub proof fn law_counted_request(
    state: &mut RoutingOccupancyState,
    id: u64,
    other: u64,
    before: u64,
    after: u64,
)
    requires
        call_ensures(RoutingOccupancyState::increment, (state, id), ()),
        call_ensures(RoutingOccupancyState::load, (&*old(state), other), before),
        call_ensures(RoutingOccupancyState::load, (&*final(state), other), after),
    ensures
        other != id ==> after == before,
        other == id && before < u64::MAX ==> after == before + 1,
        other == id && before == u64::MAX ==> after == 0,
{
}

/// A request that is done lowers the load of its instance by one, but not below zero, and that of no
/// other instance.
pub proof fn law_done_request(
    state: &mut RoutingOccupancyState,
    id: u64,
    other: u64,
    before: u64,
    after: u64,
)
    requires
        call_ensures(RoutingOccupancyState::decrement, (state, id), ()),
        call_ensures(RoutingOccupancyState::load, (&*old(state), other), before),
        call_ensures(RoutingOccupancyState::load, (&*final(state), other), after),
    ensures
        other != id ==> after == before,
        other == id && before > 0 ==> after == before - 1,
        other == id && before == 0 ==> after == 0,
        final(state)@.dom() == old(state)@.dom(),
{
    assert(final(state)@.dom() =~= old(state)@.dom());
}

/// The instance that is chosen has no more requests than any other on the list, fewer than those
/// listed before it, and is charged with the request; no other load changes. One is chosen from
/// every list that is not empty.
pub proof fn law_least_loaded_is_chosen(
    state: &mut RoutingOccupancyState,
    ids: &Vec<u64>,
    chosen: Option<u64>,
    i: int,
    load_chosen: u64,
    load_i: u64,
    charged: u64,
    load_i_after: u64,
)
    requires
        call_ensures(
            RoutingOccupancyState::select_exact_min_and_increment,
            (state, ids),
            chosen,
        ),
        0 <= i < ids@.len(),
        chosen is Some ==> call_ensures(
            RoutingOccupancyState::load,
            (&*old(state), chosen->Some_0),
            load_chosen,
        ),
        call_ensures(RoutingOccupancyState::load, (&*old(state), ids@[i]), load_i),
        chosen is Some ==> call_ensures(
            RoutingOccupancyState::load,
            (&*final(state), chosen->Some_0),
            charged,
        ),
        call_ensures(RoutingOccupancyState::load, (&*final(state), ids@[i]), load_i_after),
    ensures
        chosen is Some,
        ids@.contains(chosen->Some_0),
        load_chosen <= load_i,
        load_i == load_chosen ==> exists|j: int| 0 <= j <= i && #[trigger] ids@[j] == chosen->Some_0,
        load_chosen < u64::MAX ==> charged == load_chosen + 1,
        ids@[i] != chosen->Some_0 ==> load_i_after == load_i,
{
    let id = chosen->Some_0;
    let at = choose|at: int|
        {
            &&& 0 <= at < ids@.len()
            &&& #[trigger] ids@[at] == id
            &&& forall|j: int| 0 <= j < at ==> load_of(old(state)@, id) < load_of(
                old(state)@,
                #[trigger] ids@[j],
            )
            &&& forall|j: int|
                0 <= j < ids@.len() ==> load_of(old(state)@, id) <= load_of(
                    old(state)@,
                    #[trigger] ids@[j],
                )
        };
    assert(ids@[at] == id);
    if at > i {
        assert(load_of(old(state)@, id) < load_of(old(state)@, ids@[i]));
    }
}

/// No instance is chosen from an empty list, and nothing is charged.
pub proof fn law_nothing_to_choose_from(
    state: &mut RoutingOccupancyState,
    ids: &Vec<u64>,
    chosen: Option<u64>,
)
    requires
        call_ensures(
            RoutingOccupancyState::select_exact_min_and_increment,
            (state, ids),
            chosen,
        ),
        ids@.len() == 0,
    ensures
        chosen is None,
        final(state)@ == old(state)@,
{
}

/// Instances that are still there keep their load; those that are gone start over.
pub proof fn law_load_of_the_gone_is_forgotten(
    state: &mut RoutingOccupancyState,
    live: &Vec<u64>,
    id: u64,
    before: u64,
    after: u64,
    found: bool,
)
    requires
        call_ensures(RoutingOccupancyState::retain, (state, live), ()),
        call_ensures(RoutingOccupancyState::load, (&*old(state), id), before),
        call_ensures(RoutingOccupancyState::load, (&*final(state), id), after),
        call_ensures(contains_id, (live, id), found),
    ensures
        found == exists|i: int| 0 <= i < live@.len() && #[trigger] live@[i] == id,
        found ==> after == before,
        !found ==> after == 0,
{
}

/// A state that is in use is shared: asking twice for one key gives the same, however it was made,
/// and asking for it concerns no other key.
pub proof fn law_state_is_shared<K: DictKey, W, S>(
    first: &mut Dict<K, W>,
    key: K,
    found: Option<Arc<S>>,
    fresh: Arc<S>,
    entry: W,
    shared: Arc<S>,
    second: &mut Dict<K, W>,
    same_key: K,
    other_fresh: Arc<S>,
    other_entry: W,
    again: Arc<S>,
    other: K::V,
)
    requires
        call_ensures(
            get_or_create_shared::<K, W, S>,
            (first, key, found, fresh, entry),
            shared,
        ),
        *old(second) == *final(first),
        same_key@ == key@,
        call_ensures(
            get_or_create_shared::<K, W, S>,
            (second, same_key, Some(shared), other_fresh, other_entry),
            again,
        ),
    ensures
        again == shared,
        final(second)@ == old(second)@,
        shared == fresh || found == Some(shared),
        found is None ==> shared == fresh,
        old(first)@.contains_key(key@) && found is Some ==> shared == found->Some_0 && final(first)@
            == old(first)@,
        shared != fresh ==> final(first)@ == old(first)@,
        !old(first)@.contains_key(key@) || found is None ==> final(first)@.contains_key(key@)
            && final(first)@[key@] == entry,
        other != key@ ==> final(first)@.contains_key(other) == old(first)@.contains_key(other),
        other != key@ && old(first)@.contains_key(other) ==> final(first)@[other] == old(
            first
        )@[other],
{
}

/// A subscriber stays exactly if the event was delivered to it: an event that reached everybody
/// drops nobody, one that reached nobody drops all, and the order stays.
pub proof fn law_delivered_subscribers_stay<T>(
    source: &mut PortNameDiscoverySource<T>,
    delivered: &Vec<bool>,
    i: int,
)
    requires
        call_ensures(PortNameDiscoverySource::<T>::broadcast_event, (source, delivered), ()),
        delivered@.len() == old(source).spec_subscribers().len(),
    ensures
        0 <= i < delivered@.len() && delivered@[i] ==> final(source).spec_subscribers().contains(
            old(source).spec_subscribers()[i],
        ),
        0 <= i < final(source).spec_subscribers().len() ==> exists|j: int|
            0 <= j < delivered@.len() && delivered@[j] && #[trigger] old(source).spec_subscribers()[j]
                == final(source).spec_subscribers()[i],
        (forall|j: int| 0 <= j < delivered@.len() ==> #[trigger] delivered@[j]) ==> final(
            source
        ).spec_subscribers() == old(source).spec_subscribers(),
        (forall|j: int| 0 <= j < delivered@.len() ==> !#[trigger] delivered@[j]) ==> final(
            source
        ).spec_subscribers().len() == 0,
        final(source).spec_subscribers().len() == delivered@.filter(|d: bool| d).len(),
{
    lemma_still_subscribed(old(source).spec_subscribers(), delivered@, i);
}

proof fn lemma_still_subscribed<T>(subscribers: Seq<T>, delivered: Seq<bool>, i: int)
    requires
        delivered.len() == subscribers.len(),
    ensures
        0 <= i < delivered.len() && delivered[i] ==> still_subscribed(
            subscribers,
            delivered,
        ).contains(subscribers[i]),
        0 <= i < still_subscribed(subscribers, delivered).len() ==> exists|j: int|
            0 <= j < delivered.len() && delivered[j] && #[trigger] subscribers[j]
                == still_subscribed(subscribers, delivered)[i],
        (forall|j: int| 0 <= j < delivered.len() ==> #[trigger] delivered[j]) ==> still_subscribed(
            subscribers,
            delivered,
        ) == subscribers,
        (forall|j: int| 0 <= j < delivered.len() ==> !#[trigger] delivered[j])
            ==> still_subscribed(subscribers, delivered).len() == 0,
        still_subscribed(subscribers, delivered).len() == delivered.filter(|d: bool| d).len(),
    decreases subscribers.len(),
{
    reveal(Seq::filter);
    if subscribers.len() > 0 {
        let init = subscribers.drop_last();
        let d = delivered.drop_last();
        lemma_same_deliveries(init, delivered, d);
        lemma_still_subscribed(init, d, i);
        let rest = still_subscribed(init, d);
        let kept = still_subscribed(subscribers, delivered);
        if 0 <= i < delivered.len() && delivered[i] {
            if i < init.len() {
                assert(d[i]);
                let k = choose|k: int| 0 <= k < rest.len() && rest[k] == init[i];
                assert(kept[k] == subscribers[i]);
            } else {
                assert(kept[kept.len() - 1] == subscribers[i]);
            }
        }
        if 0 <= i < kept.len() {
            if i < rest.len() {
                let j = choose|j: int| 0 <= j < d.len() && d[j] && #[trigger] init[j] == rest[i];
                assert(delivered[j] && subscribers[j] == kept[i]);
            } else {
                let j = subscribers.len() - 1;
                assert(delivered[j] && subscribers[j] == kept[i]);
            }
        }
        if forall|j: int| 0 <= j < delivered.len() ==> #[trigger] delivered[j] {
            assert forall|j: int| 0 <= j < d.len() implies #[trigger] d[j] by {
                assert(delivered[j]);
            }
            assert(kept =~= subscribers);
        }
        if forall|j: int| 0 <= j < delivered.len() ==> !#[trigger] delivered[j] {
            assert forall|j: int| 0 <= j < d.len() implies !#[trigger] d[j] by {
                assert(!delivered[j]);
            }
        }
    } else {
        assert(still_subscribed(subscribers, delivered) =~= subscribers);
    }
}

proof fn lemma_same_deliveries<T>(subscribers: Seq<T>, a: Seq<bool>, b: Seq<bool>)
    requires
        a.len() >= subscribers.len(),
        b.len() >= subscribers.len(),
        forall|i: int| 0 <= i < subscribers.len() ==> a[i] == b[i],
    ensures
        still_subscribed(subscribers, a) == still_subscribed(subscribers, b),
    decreases subscribers.len(),
{
    if subscribers.len() > 0 {
        lemma_same_deliveries(subscribers.drop_last(), a, b);
    }
}

/// A subscriber that joins is the last one, behind those that are there.
pub proof fn law_subscriber_joins<T>(
    source: &mut PortNameDiscoverySource<T>,
    subscriber: T,
    before: &Vec<T>,
    after: &Vec<T>,
    i: int,
)
    requires
        call_ensures(PortNameDiscoverySource::<T>::subscribers, (&*old(source),), before),
        call_ensures(PortNameDiscoverySource::<T>::subscribe_events, (source, subscriber), ()),
        call_ensures(PortNameDiscoverySource::<T>::subscribers, (&*final(source),), after),
    ensures
        after@.len() == before@.len() + 1,
        after@.last() == subscriber,
        0 <= i < before@.len() ==> after@[i] == before@[i],
{
}

/// An instance that was added is published, until it is removed; one event concerns no other
/// instance; and every event is handed on as it came.
pub proof fn law_added_instance_is_published(
    watcher: &mut DiscoveryWatcher,
    instance: Instance,
    step: WatchStep,
    other: u64,
)
    requires
        call_ensures(
            DiscoveryWatcher::step,
            (
                watcher,
                WatchInput::Event(DiscoveryEvent::Added(DiscoveryInstance::PortName(instance))),
            ),
            step,
        ),
    ensures
        step is Publish,
        step->broadcast == DiscoveryEvent::Added(DiscoveryInstance::PortName(instance)),
        step->instances@.contains(Arc::new(instance)),
        final(watcher).spec_known().contains_key(instance.instance_id),
        final(watcher).spec_known()[instance.instance_id] == Arc::new(instance),
        other != instance.instance_id ==> final(watcher).spec_known().contains_key(other) == old(
            watcher
        ).spec_known().contains_key(other),
        other != instance.instance_id && old(watcher).spec_known().contains_key(other) ==> final(
            watcher
        ).spec_known()[other] == old(watcher).spec_known()[other] && step->instances@.contains(
            old(watcher).spec_known()[other],
        ),
{
    assert(final(watcher).spec_known().contains_key(instance.instance_id));
    if old(watcher).spec_known().contains_key(other) {
        assert(final(watcher).spec_known().contains_key(other));
    }
}

/// An instance that was removed is published no more, and the others still are.
pub proof fn law_removed_instance_is_not_published(
    watcher: &mut DiscoveryWatcher,
    id: PortNameInstanceId,
    step: WatchStep,
    other: u64,
)
    requires
        call_ensures(
            DiscoveryWatcher::step,
            (watcher, WatchInput::Event(DiscoveryEvent::Removed(DiscoveryInstanceId::PortName(id)))),
            step,
        ),
        forall|k: u64| #[trigger]
            old(watcher).spec_known().contains_key(k) ==> old(watcher).spec_known()[k].instance_id
                == k,
    ensures
        step is Publish,
        step->broadcast == DiscoveryEvent::Removed(DiscoveryInstanceId::PortName(id)),
        forall|i: int|
            0 <= i < step->instances@.len() ==> (#[trigger] step->instances@[i]).instance_id
                != id.instance_id,
        !final(watcher).spec_known().contains_key(id.instance_id),
        other != id.instance_id && old(watcher).spec_known().contains_key(other) ==> final(
            watcher
        ).spec_known().contains_key(other) && final(watcher).spec_known()[other] == old(
            watcher
        ).spec_known()[other] && step->instances@.contains(old(watcher).spec_known()[other]),
        other != id.instance_id && !old(watcher).spec_known().contains_key(other) ==> !final(
            watcher
        ).spec_known().contains_key(other),
{
    let known = final(watcher).spec_known();
    assert forall|i: int| 0 <= i < step->instances@.len() implies (#[trigger] step->instances@[i]).instance_id
        != id.instance_id by {
        let k = choose|k: u64| #[trigger]
            known.contains_key(k) && known[k] == step->instances@[i];
        assert(old(watcher).spec_known().contains_key(k));
    }
    if old(watcher).spec_known().contains_key(other) && other != id.instance_id {
        assert(known.contains_key(other));
    }
}

/// An event that is about something else than instances of port names changes no instance, and is
/// handed on all the same.
pub proof fn law_other_events_change_nothing(
    watcher: &mut DiscoveryWatcher,
    event: DiscoveryEvent,
    step: WatchStep,
)
    requires
        call_ensures(DiscoveryWatcher::step, (watcher, WatchInput::Event(event)), step),
        match event {
            DiscoveryEvent::Added(DiscoveryInstance::PortName(_)) => false,
            DiscoveryEvent::Removed(DiscoveryInstanceId::PortName(_)) => false,
            _ => true,
        },
    ensures
        step is Publish,
        step->broadcast == event,
        final(watcher).spec_known() == old(watcher).spec_known(),
        forall|id: u64| #[trigger]
            old(watcher).spec_known().contains_key(id) ==> step->instances@.contains(
                old(watcher).spec_known()[id],
            ),
        step->instances@.len() == old(watcher).spec_known().dom().len(),
{
}

/// The watch ends when nobody listens, when discovery fails and when it has nothing more to tell,
/// and only then.
pub proof fn law_watch_ends(watcher: &mut DiscoveryWatcher, input: WatchInput, step: WatchStep)
    requires
        call_ensures(DiscoveryWatcher::step, (watcher, input), step),
    ensures
        step is Finish == (input is Unheard || input is Failed || input is Ended),
        step is Finish ==> final(watcher).spec_known() == old(watcher).spec_known(),
{
}

/// Every known instance can be used and is free at first, and none but the known ones.
pub proof fn law_known_instances_are_usable(
    instances: Vec<Arc<Instance>>,
    client: Client,
    known: &Vec<Arc<Instance>>,
    ids: Vec<u64>,
    avail: &Vec<u64>,
    free: &Vec<u64>,
    i: int,
)
    requires
        call_ensures(Client::new, (instances,), client),
        call_ensures(Client::instances, (&client,), known),
        call_ensures(Client::instance_ids, (&client,), ids),
        call_ensures(Client::instance_ids_avail, (&client,), avail),
        call_ensures(Client::instance_ids_free, (&client,), free),
    ensures
        known@ == instances@,
        ids@.len() == instances@.len(),
        avail@ == ids@,
        free@ == ids@,
        0 <= i < instances@.len() ==> ids@[i] == instances@[i].instance_id,
{
}

/// An instance that was reported as down cannot be used; every other that could be still can; and
/// what whoever follows is told is what can be used.
pub proof fn law_reported_instance_is_left_out(
    client: &mut Client,
    down: u64,
    notice: Vec<u64>,
    before: &Vec<u64>,
    after: &Vec<u64>,
    other: u64,
)
    requires
        call_ensures(Client::instance_ids_avail, (&*old(client),), before),
        call_ensures(Client::report_instance_down, (client, down), notice),
        call_ensures(Client::instance_ids_avail, (&*final(client),), after),
    ensures
        !after@.contains(down),
        other != down ==> after@.contains(other) == before@.contains(other),
        !before@.contains(down) ==> after@ == before@,
        notice@ == after@,
        final(client).spec_instances() == old(client).spec_instances(),
        final(client).spec_free() == old(client).spec_free(),
{
    law_down_instance_is_left_out(before@, down, other);
    let keep = |id: u64| id != down;
    if after@.contains(other) {
        let i = choose|i: int| 0 <= i < after@.len() && after@[i] == other;
        before@.lemma_filter_contains_rev(keep, other);
    }
    if !before@.contains(down) {
        lemma_filter_of_all(before@, keep);
    }
}

proof fn lemma_filter_of_all(ids: Seq<u64>, keep: spec_fn(u64) -> bool)
    requires
        forall|i: int| 0 <= i < ids.len() ==> keep(#[trigger] ids[i]),
    ensures
        ids.filter(keep) == ids,
    decreases ids.len(),
{
    reveal(Seq::filter);
    if ids.len() > 0 {
        let init = ids.drop_last();
        assert forall|i: int| 0 <= i < init.len() implies keep(#[trigger] init[i]) by {
            assert(keep(ids[i]));
        }
        lemma_filter_of_all(init, keep);
        assert(keep(ids[ids.len() - 1]));
        assert(init.push(ids.last()) =~= ids);
    }
}

/// A known instance is free exactly if it is not busy, and no other is; which can be used does not
/// change.
pub proof fn law_busy_instance_is_not_free(
    client: &mut Client,
    busy: &Vec<u64>,
    ids: Vec<u64>,
    free: &Vec<u64>,
    id: u64,
)
    requires
        call_ensures(Client::instance_ids, (&*old(client),), ids),
        call_ensures(Client::update_free_instances, (client, busy), ()),
        call_ensures(Client::instance_ids_free, (&*final(client),), free),
    ensures
        free@.contains(id) == (ids@.contains(id) && !busy@.contains(id)),
        final(client).spec_instances() == old(client).spec_instances(),
        final(client).spec_avail() == old(client).spec_avail(),
{
    let keep = |id: u64| !busy@.contains(id);
    if ids@.contains(id) && !busy@.contains(id) {
        let i = choose|i: int| 0 <= i < ids@.len() && ids@[i] == id;
        ids@.lemma_filter_contains(keep, i);
    }
    if free@.contains(id) {
        ids@.lemma_filter_contains_rev(keep, id);
        let i = choose|i: int| 0 <= i < free@.len() && free@[i] == id;
        ids@.lemma_filter_pred(keep, i);
    }
}

/// A reconciliation brings back what was reported as down: afterwards exactly the known instances
/// can be used and are free, and the load of those that are gone is forgotten.
pub proof fn law_reconciliation_starts_over(
    client: &mut Client,
    instances: Vec<Arc<Instance>>,
    occupancy: &mut RoutingOccupancyState,
    notice: Vec<u64>,
    ids: Vec<u64>,
    id: u64,
    before: u64,
    after: u64,
)
    requires
        call_ensures(
            Client::monitor_instance_source,
            (client, instances, Some(occupancy)),
            notice,
        ),
        call_ensures(Client::instance_ids, (&*final(client),), ids),
        call_ensures(RoutingOccupancyState::load, (&*old(occupancy), id), before),
        call_ensures(RoutingOccupancyState::load, (&*final(occupancy), id), after),
    ensures
        final(client).spec_instances() == instances@,
        final(client).spec_avail() == ids@,
        final(client).spec_free() == ids@,
        notice@ == ids@,
        ids@.contains(id) ==> after == before,
        !ids@.contains(id) ==> after == 0,
{
}

/// Waiting is over as soon as there are instances, all of which are handed on; it fails only without
/// any, and only if there will be none.
pub proof fn law_waiting_ends_with_instances(
    instances: Vec<Arc<Instance>>,
    gone: Option<String>,
    outcome: Option<Result<Vec<Arc<Instance>>, String>>,
)
    requires
        call_ensures(Client::wait_for_instances, (instances, gone), outcome),
    ensures
        outcome is None == (instances@.len() == 0 && gone is None),
        instances@.len() > 0 ==> outcome == Some(Ok::<Vec<Arc<Instance>>, String>(instances)),
        instances@.len() == 0 && gone is Some ==> outcome == Some(
            Err::<Vec<Arc<Instance>>, String>(gone->Some_0),
        ),
{
}

} // verus!

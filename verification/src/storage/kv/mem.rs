//! Buckets in memory.

use vstd::prelude::*;

use dashmap::DashMap;

use crate::dash::{get_number, new_numbered, numbered, set_number};
use crate::dict::{Dict, DictKey};
use crate::ids::random_u64;
use crate::storage::kv::{path_of, write_path, Key, KeyValue, StoreError, StoreOutcome, WatchEvent};

use std::sync::Arc;

verus! {

/// A change that the watchers of a bucket are told of.
#[derive(Debug, Clone)]
pub enum MemoryEvent {
    Put { key: String, value: Arc<Vec<u8>> },
    Delete { key: String },
}

/// The values of a bucket, each with its revision.
pub type Entries = Map<Seq<char>, (u64, Arc<Vec<u8>>)>;

/// The bucket after a write: the same revision changes nothing.
pub open spec fn written(data: Entries, key: Seq<char>, value: Arc<Vec<u8>>, revision: u64) -> Entries {
    if data.contains_key(key) && data[key].0 == revision {
        data
    } else {
        data.insert(key, (revision, value))
    }
}

/// What a write did.
pub open spec fn write_outcome(data: Entries, key: Seq<char>, revision: u64) -> StoreOutcome {
    if data.contains_key(key) && data[key].0 == revision {
        StoreOutcome::Exists(revision)
    } else {
        StoreOutcome::Created(revision)
    }
}

/// A change of a bucket: a key came with a value, or went.
pub ghost enum Change {
    Put { key: Seq<char>, value: Arc<Vec<u8>> },
    Delete { key: Seq<char> },
}

impl Change {
    /// The key that changed.
    pub open spec fn key(self) -> Seq<char> {
        match self {
            Change::Put { key, .. } => key,
            Change::Delete { key } => key,
        }
    }
}

impl View for MemoryEvent {
    type V = Change;

    open spec fn view(&self) -> Change {
        match *self {
            MemoryEvent::Put { key, value } => Change::Put { key: key@, value },
            MemoryEvent::Delete { key } => Change::Delete { key: key@ },
        }
    }
}

/// The change that watchers are told of a write: only a new key counts.
pub open spec fn write_change(data: Entries, key: Seq<char>, value: Arc<Vec<u8>>) -> Option<Change> {
    if data.contains_key(key) {
        None
    } else {
        Some(Change::Put { key, value })
    }
}

/// The change that watchers are told of a deletion: only a key that was there counts.
pub open spec fn delete_change(data: Entries, key: Seq<char>) -> Option<Change> {
    if data.contains_key(key) {
        Some(Change::Delete { key })
    } else {
        None
    }
}

/// Whether `event` tells of that change, or of none where there is none.
pub open spec fn tells(event: Option<MemoryEvent>, change: Option<Change>) -> bool {
    match change {
        Some(change) => event is Some && event->Some_0@ == change,
        None => event is None,
    }
}

/// The values of one bucket.
struct BucketState {
    data: Dict<String, (u64, Arc<Vec<u8>>)>,
}

/// Buckets in memory, which go away with the process.
pub struct MemoryStore {
    buckets: DashMap<String, u64>,
    states: Vec<BucketState>,
    connection_id: u64,
}

impl View for MemoryStore {
    type V = Map<Seq<char>, Entries>;

    closed spec fn view(&self) -> Map<Seq<char>, Entries> {
        Map::new(
            |name: Seq<char>| numbered(self.buckets).contains_key(name),
            |name: Seq<char>| self.states@[numbered(self.buckets)[name] as int].data@,
        )
    }
}

/// A bucket of a [`MemoryStore`], by its name.
#[derive(Debug)]
pub struct MemoryBucketRef {
    pub name: String,
}

impl MemoryStore {
    /// Each bucket has values of its own.
    pub closed spec fn wf(&self) -> bool {
        &&& forall|name: Seq<char>| #[trigger]
            numbered(self.buckets).contains_key(name) ==> numbered(self.buckets)[name]
                < self.states@.len()
        &&& forall|a: Seq<char>, b: Seq<char>|
            #![trigger numbered(self.buckets).contains_key(a), numbered(self.buckets).contains_key(b)]
            numbered(self.buckets).contains_key(a) && numbered(self.buckets).contains_key(b) && a
                != b ==> numbered(self.buckets)[a] != numbered(self.buckets)[b]
    }

    /// The identifier of the store.
    pub closed spec fn spec_connection_id(&self) -> u64 {
        self.connection_id
    }

    /// A store without buckets, under a random identifier.
    pub fn new() -> (store: Self)
        ensures
            store.wf(),
            store@ == Map::<Seq<char>, Entries>::empty(),
    {
        let store = MemoryStore {
            buckets: new_numbered(),
            states: Vec::new(),
            connection_id: random_u64(),
        };
        assert(store@ =~= Map::empty());
        store
    }

    /// The bucket of that name, which is made where there is none.
    pub fn get_or_create_bucket(&mut self, bucket_name: &str) -> (bucket: MemoryBucketRef)
        requires
            old(self).wf(),
        ensures
            final(self).wf(),
            bucket.name@ == bucket_name@,
            final(self)@ == if old(self)@.contains_key(bucket_name@) {
                old(self)@
            } else {
                old(self)@.insert(
                    bucket_name@,
                    Map::<Seq<char>, (u64, Arc<Vec<u8>>)>::empty(),
                )
            },
            final(self).spec_connection_id() == old(self).spec_connection_id(),
    {
        if get_number(&self.buckets, bucket_name).is_none() {
            let number: u64 = self.states.len() as u64;
            self.states.push(BucketState { data: Dict::new() });
            set_number(&mut self.buckets, bucket_name.to_owned(), number);
            assert(self@ =~= old(self)@.insert(
                bucket_name@,
                Map::<Seq<char>, (u64, Arc<Vec<u8>>)>::empty(),
            ));
        }
        MemoryBucketRef { name: bucket_name.to_owned() }
    }

    /// The bucket of that name, if there is one.
    pub fn get_bucket(&self, bucket_name: &str) -> (bucket: Option<MemoryBucketRef>)
        ensures
            bucket is Some == self@.contains_key(bucket_name@),
            bucket is Some ==> bucket->Some_0.name@ == bucket_name@,
    {
        if get_number(&self.buckets, bucket_name).is_some() {
            Some(MemoryBucketRef { name: bucket_name.to_owned() })
        } else {
            None
        }
    }

    /// The identifier of the store.
    pub fn connection_id(&self) -> (id: u64)
        ensures
            id == self.spec_connection_id(),
    {
        self.connection_id
    }
}

/// Whether `error` says that there is no bucket of that name.
pub open spec fn is_missing_bucket(error: StoreError, name: Seq<char>) -> bool {
    match error {
        StoreError::MissingBucket(n) => n@ == name,
        _ => false,
    }
}

/// Whether `list` holds each value of a bucket once, its key preceded by the bucket's name.
pub open spec fn lists_entries(
    list: Seq<(Key, Arc<Vec<u8>>)>,
    bucket: Seq<char>,
    data: Entries,
) -> bool {
    &&& list.len() == data.dom().len()
    &&& data.dom().finite()
    &&& forall|i: int|
        0 <= i < list.len() ==> exists|key: Seq<char>| #[trigger]
            data.contains_key(key) && (#[trigger] list[i]).0@ == path_of(bucket, key)
                && list[i].1 == data[key].1
    &&& forall|key: Seq<char>| #[trigger]
        data.contains_key(key) ==> exists|i: int|
            0 <= i < list.len() && (#[trigger] list[i]).0@ == path_of(bucket, key) && list[i].1
                == data[key].1
}

impl Default for MemoryStore {
    /// A store without buckets, under a random identifier.
    fn default() -> (store: Self)
        ensures
            store.wf(),
            store@ == Map::<Seq<char>, Entries>::empty(),
    {
        MemoryStore::new()
    }
}

impl MemoryBucketRef {
    fn state(&self, store: &MemoryStore) -> (number: Result<usize, StoreError>)
        requires
            store.wf(),
        ensures
            match number {
                Ok(n) => store@.contains_key(self.name@) && n < store.states@.len() && n
                    == numbered(store.buckets)[self.name@] && store.states@[n as int].data@
                    == store@[self.name@],
                Err(error) => !store@.contains_key(self.name@) && is_missing_bucket(
                    error,
                    self.name@,
                ),
            },
    {
        let count: usize = store.states.len();
        match get_number(&store.buckets, self.name.as_str()) {
            Some(number) => {
                assert(number < count);
                Ok(number as usize)
            },
            None => Err(StoreError::MissingBucket(self.name.clone())),
        }
    }

    /// Writes a value. A key that is new is created; one that is there is replaced, unless its
    /// revision is the same. The second part of the result is what to tell watchers.
    pub fn insert(
        &self,
        store: &mut MemoryStore,
        key: &Key,
        value: Arc<Vec<u8>>,
        revision: u64,
    ) -> (outcome: Result<(StoreOutcome, Option<MemoryEvent>), StoreError>)
        requires
            old(store).wf(),
        ensures
            final(store).wf(),
            final(store).spec_connection_id() == old(store).spec_connection_id(),
            match outcome {
                Err(error) => !old(store)@.contains_key(self.name@) && is_missing_bucket(
                    error,
                    self.name@,
                ) && final(store)@ == old(store)@,
                Ok(done) => {
                    let data = old(store)@[self.name@];
                    &&& old(store)@.contains_key(self.name@)
                    &&& final(store)@ == old(store)@.insert(
                        self.name@,
                        written(data, key@, value, revision),
                    )
                    &&& done.0 == write_outcome(data, key@, revision)
                    &&& tells(done.1, write_change(data, key@, value))
                },
            },
    {
        let number: usize = match self.state(store) {
            Ok(number) => number,
            Err(error) => {
                return Err(error);
            },
        };
        let name = key.to_string();
        let ghost before = store.states@;
        let mut state = BucketState { data: Dict::new() };
        core::mem::swap(&mut state, &mut store.states[number]);
        let found: Option<u64> = match state.data.get(&name) {
            Some(entry) => Some(entry.0),
            None => None,
        };
        let (done, event) = match found {
            None => {
                state.data.insert(name.clone(), (revision, value.clone()));
                (
                    StoreOutcome::Created(revision),
                    Some(MemoryEvent::Put { key: name, value }),
                )
            },
            Some(present) => if present == revision {
                (StoreOutcome::Exists(revision), None)
            } else {
                state.data.insert(name, (revision, value));
                (StoreOutcome::Created(revision), None)
            },
        };
        let ghost after = state.data@;
        core::mem::swap(&mut state, &mut store.states[number]);
        proof {
            lemma_replaced(*old(store), *store, self.name@, after);
        }
        Ok((done, event))
    }

    /// The value of a key, if there is one. Where there is no bucket, there is none.
    pub fn get(&self, store: &MemoryStore, key: &Key) -> (value: Result<
        Option<Arc<Vec<u8>>>,
        StoreError,
    >)
        requires
            store.wf(),
        ensures
            value is Ok,
            value->Ok_0 == if store@.contains_key(self.name@)
                && store@[self.name@].contains_key(key@) {
                Some(store@[self.name@][key@].1)
            } else {
                None
            },
    {
        match self.state(store) {
            Err(_) => Ok(None),
            Ok(number) => match store.states[number].data.get(&key.to_string()) {
                Some(entry) => Ok(Some(entry.1.clone())),
                None => Ok(None),
            },
        }
    }

    /// Deletes a key. The result is what to tell watchers.
    pub fn delete(&self, store: &mut MemoryStore, key: &Key) -> (outcome: Result<
        Option<MemoryEvent>,
        StoreError,
    >)
        requires
            old(store).wf(),
        ensures
            final(store).wf(),
            final(store).spec_connection_id() == old(store).spec_connection_id(),
            match outcome {
                Err(error) => !old(store)@.contains_key(self.name@) && is_missing_bucket(
                    error,
                    self.name@,
                ) && final(store)@ == old(store)@,
                Ok(event) => {
                    let data = old(store)@[self.name@];
                    &&& old(store)@.contains_key(self.name@)
                    &&& final(store)@ == old(store)@.insert(self.name@, data.remove(key@))
                    &&& tells(event, delete_change(data, key@))
                },
            },
    {
        let number: usize = match self.state(store) {
            Ok(number) => number,
            Err(error) => {
                return Err(error);
            },
        };
        let name = key.to_string();
        let mut state = BucketState { data: Dict::new() };
        core::mem::swap(&mut state, &mut store.states[number]);
        let event = match state.data.remove(&name) {
            Some(_) => Some(MemoryEvent::Delete { key: name }),
            None => None,
        };
        let ghost after = state.data@;
        core::mem::swap(&mut state, &mut store.states[number]);
        proof {
            lemma_replaced(*old(store), *store, self.name@, after);
        }
        Ok(event)
    }

    /// Every value of the bucket, its key preceded by the bucket's name.
    pub fn entries(&self, store: &MemoryStore) -> (list: Result<
        Vec<(Key, Arc<Vec<u8>>)>,
        StoreError,
    >)
        requires
            store.wf(),
        ensures
            match list {
                Err(error) => !store@.contains_key(self.name@) && is_missing_bucket(
                    error,
                    self.name@,
                ),
                Ok(list) => store@.contains_key(self.name@) && lists_entries(
                    list@,
                    self.name@,
                    store@[self.name@],
                ),
            },
    {
        let number: usize = match self.state(store) {
            Ok(number) => number,
            Err(error) => {
                return Err(error);
            },
        };
        let data = &store.states[number].data;
        let n: usize = data.len();
        let mut list: Vec<(Key, Arc<Vec<u8>>)> = Vec::new();
        let mut i: usize = 0;
        while i < n
            invariant
                i <= n,
                n == data.entries().len(),
                data.lawful(),
                list@.len() == i,
                forall|j: int| #![trigger list@[j]]
                    0 <= j < i ==> list@[j].0@ == path_of(self.name@, data.entries()[j].0@)
                        && list@[j].1 == data.entries()[j].1.1,
            decreases n - i,
        {
            let (key, entry) = data.at(i);
            let full = write_path(self.name.as_str(), key.as_str());
            list.push((Key::new(full), entry.1.clone()));
            i = i + 1;
        }
        proof {
            assert forall|j: int| 0 <= j < list@.len() implies exists|key: Seq<char>| #[trigger]
                data@.contains_key(key) && (#[trigger] list@[j]).0@ == path_of(self.name@, key)
                    && list@[j].1 == data@[key].1 by {
                let key = data.entries()[j].0@;
                assert(data@.contains_key(key));
            }
            assert forall|key: Seq<char>| #[trigger] data@.contains_key(key) implies exists|j: int|
                0 <= j < list@.len() && (#[trigger] list@[j]).0@ == path_of(self.name@, key)
                    && list@[j].1 == data@[key].1 by {
                let j = choose|j: int|
                    0 <= j < data.entries().len() && (#[trigger] data.entries()[j]).0@ == key;
                assert(list@[j].0@ == path_of(self.name@, key));
            }
        }
        Ok(list)
    }

    /// Starts to watch the bucket: every value that is there, and a watch that knows them.
    pub fn watch(&self, store: &MemoryStore) -> (started: Result<
        (Vec<WatchEvent>, MemoryWatch),
        StoreError,
    >)
        requires
            store.wf(),
        ensures
            match started {
                Err(error) => !store@.contains_key(self.name@) && is_missing_bucket(
                    error,
                    self.name@,
                ),
                Ok(started) => store@.contains_key(self.name@) && replays(
                    started.0@,
                    store@[self.name@],
                ) && started.1@ == store@[self.name@].dom(),
            },
    {
        let number: usize = match self.state(store) {
            Ok(number) => number,
            Err(error) => {
                return Err(error);
            },
        };
        let data = &store.states[number].data;
        let n: usize = data.len();
        let mut snapshot: Vec<WatchEvent> = Vec::new();
        let mut seen: Dict<String, ()> = Dict::new();
        let mut i: usize = 0;
        while i < n
            invariant
                i <= n,
                n == data.entries().len(),
                data.lawful(),
                snapshot@.len() == i,
                forall|j: int| #![trigger snapshot@[j]]
                    0 <= j < i ==> is_put(
                        snapshot@[j],
                        data.entries()[j].0@,
                        data.entries()[j].1.1,
                    ),
                forall|j: int|
                    0 <= j < i ==> seen@.contains_key((#[trigger] data.entries()[j]).0@),
                forall|k: Seq<char>| #[trigger] seen@.contains_key(k) ==> data@.contains_key(k),
            decreases n - i,
        {
            let (key, entry) = data.at(i);
            assert(data.entries()[i as int].0@ == key@);
            seen.insert(key.copy_key(), ());
            snapshot.push(
                WatchEvent::Put(KeyValue::new(Key::new(key.copy_key()), entry.1.clone())),
            );
            i = i + 1;
        }
        proof {
            assert forall|k: Seq<char>| #[trigger] data@.contains_key(k) implies (
            seen@.contains_key(k) && exists|j: int|
                0 <= j < snapshot@.len() && is_put(#[trigger] snapshot@[j], k, data@[k].1)) by {
                let j = choose|j: int|
                    0 <= j < data.entries().len() && (#[trigger] data.entries()[j]).0@ == k;
                assert(is_put(snapshot@[j], k, data@[k].1));
            }
            assert forall|j: int| 0 <= j < snapshot@.len() implies ({
                let key = told_change(#[trigger] snapshot@[j]).key();
                data@.contains_key(key) && is_put(snapshot@[j], key, data@[key].1)
            }) by {
                assert(data@.contains_key(data.entries()[j].0@));
            }
            assert forall|i: int, j: int| 0 <= i < j < snapshot@.len() implies told_change(
                #[trigger] snapshot@[i],
            ).key() != told_change(#[trigger] snapshot@[j]).key() by {
                assert(data.entries()[i].0@ != data.entries()[j].0@);
            }
            assert(seen@.dom() =~= data@.dom());
        }
        Ok((snapshot, MemoryWatch { seen }))
    }
}

/// Whether `event` says that `key` has `value`.
pub open spec fn is_put(event: WatchEvent, key: Seq<char>, value: Arc<Vec<u8>>) -> bool {
    match event {
        WatchEvent::Put(kv) => kv.spec_key() == key && kv.spec_value() == value,
        WatchEvent::Delete(_) => false,
    }
}

/// What an event tells of a bucket.
pub open spec fn told_change(event: WatchEvent) -> Change {
    match event {
        WatchEvent::Put(kv) => Change::Put { key: kv.spec_key(), value: kv.spec_value() },
        WatchEvent::Delete(key) => Change::Delete { key: key@ },
    }
}

/// What events tell of a bucket.
pub open spec fn told_changes(events: Seq<WatchEvent>) -> Seq<Change> {
    Seq::new(events.len(), |i: int| told_change(events[i]))
}

/// Whether `events` tell of each value of a bucket once, and of nothing else.
pub open spec fn replays(events: Seq<WatchEvent>, data: Entries) -> bool {
    &&& data.dom().finite()
    &&& events.len() == data.dom().len()
    &&& forall|i: int|
        0 <= i < events.len() ==> {
            let key = told_change(#[trigger] events[i]).key();
            data.contains_key(key) && is_put(events[i], key, data[key].1)
        }
    &&& forall|i: int, j: int|
        0 <= i < j < events.len() ==> told_change(#[trigger] events[i]).key() != told_change(
            #[trigger] events[j],
        ).key()
    &&& forall|key: Seq<char>| #[trigger]
        data.contains_key(key) ==> exists|i: int|
            0 <= i < events.len() && is_put(#[trigger] events[i], key, data[key].1)
}

proof fn lemma_replaced(before: MemoryStore, after: MemoryStore, name: Seq<char>, data: Entries)
    requires
        before.wf(),
        before@.contains_key(name),
        after.buckets == before.buckets,
        after.connection_id == before.connection_id,
        ({
            let n = numbered(before.buckets)[name] as int;
            &&& after.states@.len() == before.states@.len()
            &&& after.states@[n].data@ == data
            &&& forall|i: int|
                0 <= i < before.states@.len() && i != n ==> after.states@[i] == before.states@[i]
        }),
    ensures
        after.wf(),
        after@ == before@.insert(name, data),
{
    assert(after@ =~= before@.insert(name, data));
}

/// What a watcher of a bucket has been told of.
pub struct MemoryWatch {
    seen: Dict<String, ()>,
}

impl View for MemoryWatch {
    type V = Set<Seq<char>>;

    closed spec fn view(&self) -> Set<Seq<char>> {
        self.seen@.dom()
    }
}

/// The keys that a watcher knows, after a change.
pub open spec fn seen_after(seen: Set<Seq<char>>, change: Change) -> Set<Seq<char>> {
    match change {
        Change::Put { key, .. } => seen.insert(key),
        Change::Delete { key } => seen.remove(key),
    }
}

/// What a watcher that knows the keys `seen` is told of a change: a key that it knows is not told
/// again until it was deleted.
pub open spec fn passed_on(seen: Set<Seq<char>>, change: Change) -> Option<Change> {
    if change is Put && seen.contains(change.key()) {
        None
    } else {
        Some(change)
    }
}

impl MemoryWatch {
    /// What to tell the watcher of an event: a key that it knows is not told again until it was
    /// deleted.
    pub fn step(&mut self, event: MemoryEvent) -> (told: Option<WatchEvent>)
        ensures
            final(self)@ == seen_after(old(self)@, event@),
            match passed_on(old(self)@, event@) {
                Some(change) => told is Some && told_change(told->Some_0) == change,
                None => told is None,
            },
    {
        match event {
            MemoryEvent::Put { key, value } => {
                if self.seen.contains(&key) {
                    assert(self@.insert(key@) =~= self@);
                    return None;
                }
                self.seen.insert(key.clone(), ());
                assert(self@ =~= old(self)@.insert(key@));
                Some(WatchEvent::Put(KeyValue::new(Key::new(key), value)))
            },
            MemoryEvent::Delete { key } => {
                self.seen.remove(&key);
                assert(self@ =~= old(self)@.remove(key@));
                Some(WatchEvent::Delete(Key::new(key)))
            },
        }
    }
}

/// What was written is read, and a second write at the same revision changes nothing.
pub proof fn law_written_value_is_read(
    data: Entries,
    key: Seq<char>,
    value: Arc<Vec<u8>>,
    other: Arc<Vec<u8>>,
    revision: u64,
)
    requires
        !data.contains_key(key) || data[key].0 != revision,
    ensures
        written(data, key, value, revision)[key] == (revision, value),
        write_outcome(data, key, revision) == StoreOutcome::Created(revision),
        write_outcome(written(data, key, value, revision), key, revision) == StoreOutcome::Exists(
            revision,
        ),
        written(written(data, key, value, revision), key, other, revision) == written(
            data,
            key,
            value,
            revision,
        ),
{
}

/// The keys that a watcher knows, after a change where there is one.
pub open spec fn seen_after_any(seen: Set<Seq<char>>, change: Option<Change>) -> Set<Seq<char>> {
    match change {
        Some(change) => seen_after(seen, change),
        None => seen,
    }
}

/// A watcher that knows the keys of a bucket still knows them after a write of which it was told.
pub proof fn law_watch_follows_writes(
    data: Entries,
    key: Seq<char>,
    value: Arc<Vec<u8>>,
    revision: u64,
)
    ensures
        written(data, key, value, revision).dom() == seen_after_any(
            data.dom(),
            write_change(data, key, value),
        ),
{
    assert(written(data, key, value, revision).dom() =~= seen_after_any(
        data.dom(),
        write_change(data, key, value),
    ));
}

/// A watcher that knows the keys of a bucket still knows them after a deletion of which it was told.
pub proof fn law_watch_follows_deletes(data: Entries, key: Seq<char>)
    ensures
        data.remove(key).dom() == seen_after_any(data.dom(), delete_change(data, key)),
{
    assert(data.remove(key).dom() =~= seen_after_any(data.dom(), delete_change(data, key)));
}

/// A call that may change a bucket.
pub ghost enum BucketCall {
    Insert { key: Seq<char>, value: Arc<Vec<u8>>, revision: u64 },
    Delete { key: Seq<char> },
}

/// A bucket after a call.
pub open spec fn called(data: Entries, call: BucketCall) -> Entries {
    match call {
        BucketCall::Insert { key, value, revision } => written(data, key, value, revision),
        BucketCall::Delete { key } => data.remove(key),
    }
}

/// The change that watchers are told of a call.
pub open spec fn call_change(data: Entries, call: BucketCall) -> Option<Change> {
    match call {
        BucketCall::Insert { key, value, .. } => write_change(data, key, value),
        BucketCall::Delete { key } => delete_change(data, key),
    }
}

/// A list with one more element, where there is one.
pub open spec fn push_any(list: Seq<Change>, change: Option<Change>) -> Seq<Change> {
    match change {
        Some(change) => list.push(change),
        None => list,
    }
}

/// A bucket after one call and then the next.
pub open spec fn data_after(data: Entries, calls: Seq<BucketCall>) -> Entries
    decreases calls.len(),
{
    if calls.len() == 0 {
        data
    } else {
        called(data_after(data, calls.drop_last()), calls.last())
    }
}

/// The changes of a bucket by one call and then the next: one for each key that is created and one
/// for each that is removed.
pub open spec fn changes_of(data: Entries, calls: Seq<BucketCall>) -> Seq<Change>
    decreases calls.len(),
{
    if calls.len() == 0 {
        Seq::empty()
    } else {
        push_any(
            changes_of(data, calls.drop_last()),
            call_change(data_after(data, calls.drop_last()), calls.last()),
        )
    }
}

/// The keys that a watcher knows, after one change and then the next.
pub open spec fn seen_after_all(seen: Set<Seq<char>>, changes: Seq<Change>) -> Set<Seq<char>>
    decreases changes.len(),
{
    if changes.len() == 0 {
        seen
    } else {
        seen_after(seen_after_all(seen, changes.drop_last()), changes.last())
    }
}

/// What a watcher is told of one change and then the next.
pub open spec fn told_of(seen: Set<Seq<char>>, changes: Seq<Change>) -> Seq<Change>
    decreases changes.len(),
{
    if changes.len() == 0 {
        Seq::empty()
    } else {
        push_any(
            told_of(seen, changes.drop_last()),
            passed_on(seen_after_all(seen, changes.drop_last()), changes.last()),
        )
    }
}

/// Whether the last change of `key` among the first `n` is that it came.
pub open spec fn is_present(changes: Seq<Change>, n: int, key: Seq<char>) -> bool {
    exists|j: int| #![trigger changes[j]]
        0 <= j < n && changes[j] is Put && changes[j].key() == key && forall|k: int|
            j < k < n ==> (#[trigger] changes[k]).key() != key
}

/// Whether for each key coming and going alternate, and coming is first.
pub open spec fn alternates(changes: Seq<Change>) -> bool {
    forall|i: int|
        0 <= i < changes.len() ==> ((#[trigger] changes[i]) is Put) == !is_present(
            changes,
            i,
            changes[i].key(),
        )
}

proof fn lemma_present_before(changes: Seq<Change>, change: Change, n: int, key: Seq<char>)
    requires
        0 <= n <= changes.len(),
    ensures
        is_present(changes.push(change), n, key) == is_present(changes, n, key),
{
    let more = changes.push(change);
    assert(forall|k: int| 0 <= k < n ==> more[k] == changes[k]);
    if is_present(changes, n, key) {
        let j = choose|j: int| #![trigger changes[j]]
            0 <= j < n && changes[j] is Put && changes[j].key() == key && forall|k: int|
                j < k < n ==> (#[trigger] changes[k]).key() != key;
        assert(more[j] is Put);
    }
    if is_present(more, n, key) {
        let j = choose|j: int| #![trigger more[j]]
            0 <= j < n && more[j] is Put && more[j].key() == key && forall|k: int|
                j < k < n ==> (#[trigger] more[k]).key() != key;
        assert(changes[j] is Put);
        assert forall|k: int| j < k < n implies (#[trigger] changes[k]).key() != key by {
            assert(more[k] == changes[k]);
        }
    }
}

proof fn lemma_present_after(changes: Seq<Change>, change: Change, key: Seq<char>)
    ensures
        is_present(changes.push(change), changes.len() as int + 1, key) == if change.key() == key {
            change is Put
        } else {
            is_present(changes, changes.len() as int, key)
        },
{
    let more = changes.push(change);
    let n = changes.len() as int;
    lemma_present_before(changes, change, n, key);
    assert(more[n] == change);
    if change.key() != key {
        if is_present(more, n, key) {
            let j = choose|j: int| #![trigger more[j]]
                0 <= j < n && more[j] is Put && more[j].key() == key && forall|k: int|
                    j < k < n ==> (#[trigger] more[k]).key() != key;
            assert(more[j] is Put);
        }
        if is_present(more, n + 1, key) {
            let j = choose|j: int| #![trigger more[j]]
                0 <= j < n + 1 && more[j] is Put && more[j].key() == key && forall|k: int|
                    j < k < n + 1 ==> (#[trigger] more[k]).key() != key;
            assert(more[j] is Put);
        }
    }
}

proof fn lemma_alternates_on(changes: Seq<Change>, change: Change)
    requires
        alternates(changes),
        (change is Put) == !is_present(changes, changes.len() as int, change.key()),
    ensures
        alternates(changes.push(change)),
{
    let more = changes.push(change);
    assert forall|i: int| 0 <= i < more.len() implies ((#[trigger] more[i]) is Put) == !is_present(
        more,
        i,
        more[i].key(),
    ) by {
        lemma_present_before(changes, change, i, more[i].key());
        if i < changes.len() {
            assert(more[i] == changes[i]);
        }
    }
}

proof fn lemma_snapshot_alternates(snapshot: Seq<WatchEvent>, data: Entries)
    requires
        replays(snapshot, data),
    ensures
        alternates(told_changes(snapshot)),
        forall|key: Seq<char>|
            is_present(told_changes(snapshot), snapshot.len() as int, key) == #[trigger]
                data.contains_key(key),
{
    let changes = told_changes(snapshot);
    assert(forall|i: int|
        0 <= i < snapshot.len() ==> #[trigger] changes[i] == told_change(snapshot[i]));
    assert(forall|i: int| 0 <= i < snapshot.len() ==> (#[trigger] changes[i]) is Put);
    assert forall|i: int, j: int| 0 <= i < j < changes.len() implies (#[trigger] changes[i]).key()
        != (#[trigger] changes[j]).key() by {
        assert(told_change(snapshot[i]).key() != told_change(snapshot[j]).key());
    }
    assert forall|key: Seq<char>|
        is_present(changes, snapshot.len() as int, key) == #[trigger] data.contains_key(key) by {
        if data.contains_key(key) {
            let i = choose|i: int|
                0 <= i < snapshot.len() && is_put(#[trigger] snapshot[i], key, data[key].1);
            assert(changes[i].key() == key);
        }
        if is_present(changes, snapshot.len() as int, key) {
            let j = choose|j: int| #![trigger changes[j]]
                0 <= j < snapshot.len() && changes[j] is Put && changes[j].key() == key;
            assert(data.contains_key(told_change(snapshot[j]).key()));
        }
    }
}

proof fn lemma_run(snapshot: Seq<Change>, data: Entries, calls: Seq<BucketCall>)
    requires
        alternates(snapshot),
        forall|key: Seq<char>|
            is_present(snapshot, snapshot.len() as int, key) == #[trigger] data.contains_key(key),
    ensures
        told_of(data.dom(), changes_of(data, calls)) == changes_of(data, calls),
        seen_after_all(data.dom(), changes_of(data, calls)) == data_after(data, calls).dom(),
        alternates(snapshot + changes_of(data, calls)),
        forall|key: Seq<char>| #[trigger]
            data_after(data, calls).contains_key(key) == is_present(
                snapshot + changes_of(data, calls),
                (snapshot + changes_of(data, calls)).len() as int,
                key,
            ),
    decreases calls.len(),
{
    if calls.len() == 0 {
        assert(snapshot + Seq::<Change>::empty() =~= snapshot);
    } else {
        let before = calls.drop_last();
        lemma_run(snapshot, data, before);
        let now = data_after(data, before);
        let earlier = changes_of(data, before);
        match calls.last() {
            BucketCall::Insert { key, value, revision } => {
                law_watch_follows_writes(now, key, value, revision);
            },
            BucketCall::Delete { key } => {
                law_watch_follows_deletes(now, key);
            },
        }
        match call_change(now, calls.last()) {
            None => {
                assert(called(now, calls.last()).dom() =~= now.dom());
            },
            Some(change) => {
                let stream = snapshot + earlier;
                assert(earlier.push(change).drop_last() =~= earlier);
                assert(snapshot + earlier.push(change) =~= stream.push(change));
                assert(now.contains_key(change.key()) == is_present(
                    stream,
                    stream.len() as int,
                    change.key(),
                ));
                lemma_alternates_on(stream, change);
                assert forall|key: Seq<char>| #[trigger]
                    data_after(data, calls).contains_key(key) == is_present(
                        stream.push(change),
                        stream.len() as int + 1,
                        key,
                    ) by {
                    lemma_present_after(stream, change, key);
                    assert(now.contains_key(key) == is_present(stream, stream.len() as int, key));
                }
            },
        }
    }
}

/// A watch tells of the values that are there when it starts, each once, and then of one change for
/// each key that is created and one for each that is removed, in order, and of nothing else. For each
/// key, coming and going alternate, and coming is first. The keys that came and did not go are those
/// of the bucket.
pub proof fn law_watch_tells_of_a_run(
    snapshot: Seq<WatchEvent>,
    data: Entries,
    calls: Seq<BucketCall>,
)
    requires
        replays(snapshot, data),
    ensures
        told_of(data.dom(), changes_of(data, calls)) == changes_of(data, calls),
        seen_after_all(data.dom(), changes_of(data, calls)) == data_after(data, calls).dom(),
        alternates(told_changes(snapshot) + told_of(data.dom(), changes_of(data, calls))),
        forall|key: Seq<char>| #[trigger]
            data_after(data, calls).contains_key(key) == is_present(
                told_changes(snapshot) + told_of(data.dom(), changes_of(data, calls)),
                (snapshot.len() + changes_of(data, calls).len()) as int,
                key,
            ),
{
    lemma_snapshot_alternates(snapshot, data);
    lemma_run(told_changes(snapshot), data, calls);
}

/// What a read yields.
pub type ReadValue = Result<Option<Arc<Vec<u8>>>, StoreError>;

/// A write changes what is read of its own key in its own bucket, and of no other. A key that was not
/// there is created, and only then are watchers told.
pub proof fn law_write_changes_its_own_key(
    bucket: &MemoryBucketRef,
    store: &mut MemoryStore,
    key: &Key,
    value: Arc<Vec<u8>>,
    revision: u64,
    outcome: Result<(StoreOutcome, Option<MemoryEvent>), StoreError>,
    reader: &MemoryBucketRef,
    other: &Key,
    before: ReadValue,
    after: ReadValue,
)
    requires
        call_ensures(MemoryBucketRef::insert, (bucket, store, key, value, revision), outcome),
        call_ensures(MemoryBucketRef::get, (reader, &*old(store), other), before),
        call_ensures(MemoryBucketRef::get, (reader, &*final(store), other), after),
    ensures
        bucket.name@ != reader.name@ || key@ != other@ || outcome is Err ==> after == before,
        bucket.name@ == reader.name@ && key@ == other@ && outcome is Ok ==> {
            &&& outcome->Ok_0.0 == StoreOutcome::Created(revision) ==> after == Ok::<
                Option<Arc<Vec<u8>>>,
                StoreError,
            >(Some(value))
            &&& outcome->Ok_0.0 != StoreOutcome::Created(revision) ==> outcome->Ok_0.0
                == StoreOutcome::Exists(revision) && after == before
            &&& before == Ok::<Option<Arc<Vec<u8>>>, StoreError>(None) ==> outcome->Ok_0.0
                == StoreOutcome::Created(revision) && match outcome->Ok_0.1 {
                Some(MemoryEvent::Put { key: k, value: v }) => k@ == key@ && v == value,
                _ => false,
            }
            &&& before != Ok::<Option<Arc<Vec<u8>>>, StoreError>(None) ==> outcome->Ok_0.1 is None
        },
        final(store).spec_connection_id() == old(store).spec_connection_id(),
{
}

/// Of two writes to a key, the second one counts unless both are at the same revision.
pub proof fn law_second_write_counts_at_another_revision(
    bucket: &MemoryBucketRef,
    store: &mut MemoryStore,
    key: &Key,
    value: Arc<Vec<u8>>,
    revision: u64,
    outcome: Result<(StoreOutcome, Option<MemoryEvent>), StoreError>,
    again: &mut MemoryStore,
    other_value: Arc<Vec<u8>>,
    other_revision: u64,
    second: Result<(StoreOutcome, Option<MemoryEvent>), StoreError>,
    read: ReadValue,
)
    requires
        call_ensures(MemoryBucketRef::insert, (bucket, store, key, value, revision), outcome),
        outcome is Ok,
        outcome->Ok_0.0 == StoreOutcome::Created(revision),
        *old(again) == *final(store),
        call_ensures(
            MemoryBucketRef::insert,
            (bucket, again, key, other_value, other_revision),
            second,
        ),
        call_ensures(MemoryBucketRef::get, (bucket, &*final(again), key), read),
    ensures
        second is Ok,
        second->Ok_0.1 is None,
        second->Ok_0.0 == if revision == other_revision {
            StoreOutcome::Exists(revision)
        } else {
            StoreOutcome::Created(other_revision)
        },
        read == Ok::<Option<Arc<Vec<u8>>>, StoreError>(
            Some(
                if revision == other_revision {
                    value
                } else {
                    other_value
                },
            ),
        ),
{
}

/// A deletion takes its own key out of its own bucket, and no other. Watchers are told exactly where
/// the key was there.
pub proof fn law_deletion_takes_its_own_key(
    bucket: &MemoryBucketRef,
    store: &mut MemoryStore,
    key: &Key,
    outcome: Result<Option<MemoryEvent>, StoreError>,
    reader: &MemoryBucketRef,
    other: &Key,
    before: ReadValue,
    after: ReadValue,
)
    requires
        call_ensures(MemoryBucketRef::delete, (bucket, store, key), outcome),
        call_ensures(MemoryBucketRef::get, (reader, &*old(store), other), before),
        call_ensures(MemoryBucketRef::get, (reader, &*final(store), other), after),
    ensures
        bucket.name@ != reader.name@ || key@ != other@ ==> after == before,
        bucket.name@ == reader.name@ && key@ == other@ ==> {
            &&& after == Ok::<Option<Arc<Vec<u8>>>, StoreError>(None)
            &&& before == Ok::<Option<Arc<Vec<u8>>>, StoreError>(None) ==> outcome is Err
                || outcome->Ok_0 is None
            &&& before != Ok::<Option<Arc<Vec<u8>>>, StoreError>(None) ==> outcome is Ok
                && match outcome->Ok_0 {
                Some(MemoryEvent::Delete { key: k }) => k@ == key@,
                _ => false,
            }
        },
        final(store).spec_connection_id() == old(store).spec_connection_id(),
{
}

/// Making a bucket makes it known and leaves every value of every bucket as it was; other buckets are
/// known exactly where they were.
pub proof fn law_made_bucket_is_known(
    store: &mut MemoryStore,
    name: &str,
    made: MemoryBucketRef,
    asked: &str,
    before: Option<MemoryBucketRef>,
    after: Option<MemoryBucketRef>,
    reader: &MemoryBucketRef,
    key: &Key,
    read_before: ReadValue,
    read_after: ReadValue,
)
    requires
        call_ensures(MemoryStore::get_or_create_bucket, (store, name), made),
        call_ensures(MemoryStore::get_bucket, (&*old(store), asked), before),
        call_ensures(MemoryStore::get_bucket, (&*final(store), asked), after),
        call_ensures(MemoryBucketRef::get, (reader, &*old(store), key), read_before),
        call_ensures(MemoryBucketRef::get, (reader, &*final(store), key), read_after),
    ensures
        made.name@ == name@,
        asked@ == name@ ==> after is Some,
        asked@ != name@ ==> after is Some == before is Some,
        after is Some ==> after->Some_0.name@ == asked@,
        read_after == read_before,
        final(store).spec_connection_id() == old(store).spec_connection_id(),
{
}

/// A bucket can be written to, deleted from, listed and watched exactly where it is known.
pub proof fn law_known_bucket_is_usable(
    bucket: &MemoryBucketRef,
    store: &MemoryStore,
    name: &str,
    known: Option<MemoryBucketRef>,
    list: Result<Vec<(Key, Arc<Vec<u8>>)>, StoreError>,
    started: Result<(Vec<WatchEvent>, MemoryWatch), StoreError>,
    writing: &mut MemoryStore,
    key: &Key,
    value: Arc<Vec<u8>>,
    revision: u64,
    written: Result<(StoreOutcome, Option<MemoryEvent>), StoreError>,
    deleting: &mut MemoryStore,
    deleted: Result<Option<MemoryEvent>, StoreError>,
)
    requires
        name@ == bucket.name@,
        call_ensures(MemoryStore::get_bucket, (store, name), known),
        call_ensures(MemoryBucketRef::entries, (bucket, store), list),
        call_ensures(MemoryBucketRef::watch, (bucket, store), started),
        *old(writing) == *store,
        *old(deleting) == *store,
        call_ensures(MemoryBucketRef::insert, (bucket, writing, key, value, revision), written),
        call_ensures(MemoryBucketRef::delete, (bucket, deleting, key), deleted),
    ensures
        known is Some == list is Ok,
        known is Some == started is Ok,
        known is Some == written is Ok,
        known is Some == deleted is Ok,
        list is Err ==> list->Err_0 is MissingBucket && list->Err_0->MissingBucket_0@ == name@,
{
}

/// The list of a bucket tells of a key exactly what is read of it, under the name of the bucket, a
/// slash and the key.
pub proof fn law_list_tells_what_is_read(
    bucket: &MemoryBucketRef,
    store: &MemoryStore,
    list: Vec<(Key, Arc<Vec<u8>>)>,
    key: &Key,
    read: ReadValue,
)
    requires
        call_ensures(
            MemoryBucketRef::entries,
            (bucket, store),
            Ok::<Vec<(Key, Arc<Vec<u8>>)>, StoreError>(list),
        ),
        call_ensures(MemoryBucketRef::get, (bucket, store, key), read),
    ensures
        read == Ok::<Option<Arc<Vec<u8>>>, StoreError>(None) ==> forall|i: int|
            0 <= i < list@.len() ==> (#[trigger] list@[i]).0@ != bucket.name@ + "/"@ + key@,
        forall|i: int|
            0 <= i < list@.len() && (#[trigger] list@[i]).0@ == bucket.name@ + "/"@ + key@ ==> read
                == Ok::<Option<Arc<Vec<u8>>>, StoreError>(Some(list@[i].1)),
        read != Ok::<Option<Arc<Vec<u8>>>, StoreError>(None) ==> exists|i: int|
            0 <= i < list@.len() && (#[trigger] list@[i]).0@ == bucket.name@ + "/"@ + key@,
        list@.len() == store@[bucket.name@].dom().len(),
{
    let data = store@[bucket.name@];
    let start = bucket.name@ + "/"@;
    assert forall|i: int|
        0 <= i < list@.len() && (#[trigger] list@[i]).0@ == bucket.name@ + "/"@ + key@ implies read
        == Ok::<Option<Arc<Vec<u8>>>, StoreError>(Some(list@[i].1)) by {
        let k = choose|k: Seq<char>| #[trigger]
            data.contains_key(k) && list@[i].0@ == path_of(bucket.name@, k) && list@[i].1
                == data[k].1;
        assert(path_of(bucket.name@, k).skip(start.len() as int) =~= k);
        assert((bucket.name@ + "/"@ + key@).skip(start.len() as int) =~= key@);
    }
    if data.contains_key(key@) {
        let i = choose|i: int|
            0 <= i < list@.len() && (#[trigger] list@[i]).0@ == path_of(bucket.name@, key@)
                && list@[i].1 == data[key@].1;
        assert(list@[i].0@ == bucket.name@ + "/"@ + key@);
    }
}

/// A watch starts with what is read of the bucket: one event for each key that has a value, and none
/// for any other.
pub proof fn law_watch_starts_with_what_is_read(
    bucket: &MemoryBucketRef,
    store: &MemoryStore,
    snapshot: Vec<WatchEvent>,
    watch: MemoryWatch,
    key: &Key,
    read: ReadValue,
)
    requires
        call_ensures(
            MemoryBucketRef::watch,
            (bucket, store),
            Ok::<(Vec<WatchEvent>, MemoryWatch), StoreError>((snapshot, watch)),
        ),
        call_ensures(MemoryBucketRef::get, (bucket, store, key), read),
    ensures
        forall|i: int|
            0 <= i < snapshot@.len() ==> match #[trigger] snapshot@[i] {
                WatchEvent::Put(kv) => kv.spec_key() == key@ ==> read == Ok::<
                    Option<Arc<Vec<u8>>>,
                    StoreError,
                >(Some(kv.spec_value())),
                WatchEvent::Delete(_) => false,
            },
        read != Ok::<Option<Arc<Vec<u8>>>, StoreError>(None) ==> exists|i: int|
            0 <= i < snapshot@.len() && match #[trigger] snapshot@[i] {
                WatchEvent::Put(kv) => kv.spec_key() == key@ && kv.spec_value()
                    == read->Ok_0->Some_0,
                WatchEvent::Delete(_) => false,
            },
        forall|i: int, j: int|
            0 <= i < j < snapshot@.len() ==> match (#[trigger] snapshot@[i], #[trigger] snapshot@[j]) {
                (WatchEvent::Put(a), WatchEvent::Put(b)) => a.spec_key() != b.spec_key(),
                _ => false,
            },
        watch@.contains(key@) == (read != Ok::<Option<Arc<Vec<u8>>>, StoreError>(None)),
{
    assert forall|i: int| 0 <= i < snapshot@.len() implies match #[trigger] snapshot@[i] {
        WatchEvent::Put(kv) => kv.spec_key() == key@ ==> read == Ok::<
            Option<Arc<Vec<u8>>>,
            StoreError,
        >(Some(kv.spec_value())),
        WatchEvent::Delete(_) => false,
    } by {
        let told = told_change(snapshot@[i]);
        assert(store@[bucket.name@].contains_key(told.key()));
    }
    assert forall|i: int, j: int| 0 <= i < j < snapshot@.len() implies match (
        #[trigger] snapshot@[i],
        #[trigger] snapshot@[j],
    ) {
        (WatchEvent::Put(a), WatchEvent::Put(b)) => a.spec_key() != b.spec_key(),
        _ => false,
    } by {
        assert(told_change(snapshot@[i]).key() != told_change(snapshot@[j]).key());
    }
}

/// A watcher is told of a deletion in any case, and of a value unless it was told of one for the key
/// and of no deletion since.
pub proof fn law_watcher_is_told_once(
    watch: &mut MemoryWatch,
    event: MemoryEvent,
    told: Option<WatchEvent>,
    other: Seq<char>,
)
    requires
        call_ensures(MemoryWatch::step, (watch, event), told),
    ensures
        match event {
            MemoryEvent::Put { key, value } => {
                &&& told is None == old(watch)@.contains(key@)
                &&& told is Some ==> told->Some_0 is Put && told->Some_0->Put_0.spec_key() == key@
                    && told->Some_0->Put_0.spec_value() == value
                &&& final(watch)@.contains(key@)
                &&& other != key@ ==> final(watch)@.contains(other) == old(watch)@.contains(other)
            },
            MemoryEvent::Delete { key } => {
                &&& told is Some
                &&& told->Some_0 is Delete
                &&& told->Some_0->Delete_0@ == key@
                &&& !final(watch)@.contains(key@)
                &&& other != key@ ==> final(watch)@.contains(other) == old(watch)@.contains(other)
            },
        },
{
}

/// A write leaves the other keys of a bucket alone.
pub proof fn law_write_leaves_other_keys(
    data: Entries,
    key: Seq<char>,
    value: Arc<Vec<u8>>,
    revision: u64,
    other: Seq<char>,
)
    requires
        other != key,
    ensures
        written(data, key, value, revision).contains_key(other) == data.contains_key(other),
        data.contains_key(other) ==> written(data, key, value, revision)[other] == data[other],
        written(data, key, value, revision).contains_key(key),
{
}

/// A store keeps its identifier, whatever is done to its buckets.
pub proof fn law_store_keeps_its_identifier(
    making: &mut MemoryStore,
    name: &str,
    made: MemoryBucketRef,
    writing: &mut MemoryStore,
    key: &Key,
    value: Arc<Vec<u8>>,
    revision: u64,
    outcome: Result<(StoreOutcome, Option<MemoryEvent>), StoreError>,
    before: u64,
    after: u64,
)
    requires
        call_ensures(MemoryStore::connection_id, (&*old(making),), before),
        call_ensures(MemoryStore::get_or_create_bucket, (making, name), made),
        *old(writing) == *final(making),
        call_ensures(MemoryBucketRef::insert, (&made, writing, key, value, revision), outcome),
        call_ensures(MemoryStore::connection_id, (&*final(writing),), after),
    ensures
        after == before,
        outcome is Ok,
{
}

} // verus!

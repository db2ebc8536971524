//! Buckets as prefixes of the keys of an etcd cluster.

use vstd::prelude::*;
use vstd::utf8::*;

use crate::dict::Dict;
use crate::storage::kv::{path_of, write_path, Key, KeyValue, StoreError, StoreOutcome, WatchEvent};
use crate::text::{lossy_text, text_of_utf8, text_of_utf8_lossy};

use std::sync::Arc;

verus! {

/// Buckets in an etcd cluster, reached through `C`.
pub struct EtcdStore<C> {
    client: Arc<C>,
}

impl<C> EtcdStore<C> {
    /// The connection.
    pub closed spec fn spec_client(&self) -> Arc<C> {
        self.client
    }

    /// The buckets of a cluster.
    pub fn new(client: Arc<C>) -> (store: Self)
        ensures
            store.spec_client() == client,
    {
        EtcdStore { client }
    }

    /// The bucket of that name. Nothing has to be made, so there always is one.
    pub fn get_or_create_bucket(&self, bucket_name: &str) -> (bucket: EtcdBucket<C>)
        ensures
            bucket.spec_client() == self.spec_client(),
            bucket.spec_name() == bucket_name@,
    {
        EtcdBucket::new(self.client.clone(), bucket_name.to_owned())
    }

    /// The bucket of that name, which there always is.
    pub fn get_bucket(&self, bucket_name: &str) -> (bucket: Option<EtcdBucket<C>>)
        ensures
            bucket is Some,
            bucket->Some_0.spec_client() == self.spec_client(),
            bucket->Some_0.spec_name() == bucket_name@,
    {
        Some(EtcdBucket::new(self.client.clone(), bucket_name.to_owned()))
    }
}

/// A bucket: the keys that start with its name.
pub struct EtcdBucket<C> {
    client: Arc<C>,
    bucket_name: String,
}

/// How a value is written.
#[derive(Debug, Clone, Copy, PartialEq, Eq, Structural)]
pub enum EtcdWrite {
    /// Create the key, if there is none.
    Create,
    /// Update a key that is there.
    Update,
}

/// Whether `error` is an error of the cluster with that text.
pub open spec fn is_etcd_error(error: StoreError, text: Seq<char>) -> bool {
    match error {
        StoreError::EtcdError(t) => t@ == text,
        _ => false,
    }
}

/// The revision that an update reports, by the version that it replaced: where that is the expected
/// one, the given revision; else the version after it.
pub open spec fn reported_revision(previous: Option<i64>, revision: u64) -> u64 {
    match previous {
        None => 1,
        Some(version) => if version as u64 == revision + 1 {
            revision
        } else {
            (version as u64 + 1) as u64
        },
    }
}

impl<C> EtcdBucket<C> {
    /// The connection.
    pub closed spec fn spec_client(&self) -> Arc<C> {
        self.client
    }

    /// The name of the bucket.
    pub closed spec fn spec_name(&self) -> Seq<char> {
        self.bucket_name@
    }

    /// The bucket of that name.
    pub fn new(client: Arc<C>, bucket_name: String) -> (bucket: Self)
        ensures
            bucket.spec_client() == client,
            bucket.spec_name() == bucket_name@,
    {
        EtcdBucket { client, bucket_name }
    }

    /// The connection.
    pub fn client(&self) -> (client: &Arc<C>)
        ensures
            *client == self.spec_client(),
    {
        &self.client
    }

    /// The key in the cluster: the bucket's name, a slash and the key.
    pub fn full_key(&self, key: &Key) -> (full: String)
        ensures
            full@ == path_of(self.spec_name(), key@),
    {
        write_path(self.bucket_name.as_str(), key.as_ref())
    }

    /// The start of every key of the bucket in the cluster.
    pub fn prefix(&self) -> (prefix: String)
        ensures
            prefix@ == path_of(self.spec_name(), Seq::<char>::empty()),
    {
        let empty = Key::new(String::new());
        self.full_key(&empty)
    }

    /// How a value at a revision is written: the first revision creates.
    pub fn insert(revision: u64) -> (write: EtcdWrite)
        ensures
            write == if revision == 0 {
                EtcdWrite::Create
            } else {
                EtcdWrite::Update
            },
    {
        if revision == 0 {
            EtcdWrite::Create
        } else {
            EtcdWrite::Update
        }
    }

    /// The outcome of creating a key: the first version, or the one that is there.
    pub fn create_path(created: Result<Option<u64>, String>) -> (outcome: Result<
        StoreOutcome,
        StoreError,
    >)
        ensures
            match created {
                Err(text) => outcome is Err && is_etcd_error(outcome->Err_0, text@),
                Ok(None) => outcome == Ok::<StoreOutcome, StoreError>(StoreOutcome::Created(1)),
                Ok(Some(version)) => outcome == Ok::<StoreOutcome, StoreError>(
                    StoreOutcome::Exists(version),
                ),
            },
    {
        match created {
            Err(text) => Err(StoreError::EtcdError(text)),
            Ok(None) => Ok(StoreOutcome::Created(1)),
            Ok(Some(version)) => Ok(StoreOutcome::Exists(version)),
        }
    }

    /// Whether an update may write: the key has to be there, at whatever version. `versions` are those
    /// of what was found under the key.
    pub fn update_path(key: &Key, versions: Result<Vec<i64>, String>) -> (outcome: Result<
        (),
        StoreError,
    >)
        ensures
            match versions {
                Err(text) => outcome is Err && is_etcd_error(outcome->Err_0, text@),
                Ok(found) => if found@.len() == 0 {
                    outcome is Err && outcome->Err_0 is MissingKey && outcome->Err_0->MissingKey_0@
                        == key@
                } else {
                    outcome is Ok
                },
            },
    {
        match versions {
            Err(text) => Err(StoreError::EtcdError(text)),
            Ok(found) => if found.len() == 0 {
                Err(StoreError::MissingKey(key.to_string()))
            } else {
                Ok(())
            },
        }
    }

    /// The outcome of an update, by the version that it replaced. A key that went away before the
    /// write is at its first version.
    pub fn updated(previous: Result<Option<i64>, String>, revision: u64) -> (outcome: Result<
        StoreOutcome,
        StoreError,
    >)
        requires
            revision < u64::MAX,
            previous is Ok && previous->Ok_0 is Some ==> previous->Ok_0->Some_0 as u64 == revision
                + 1 || (previous->Ok_0->Some_0 as u64) < u64::MAX,
        ensures
            match previous {
                Err(text) => outcome is Err && is_etcd_error(outcome->Err_0, text@),
                Ok(version) => outcome == Ok::<StoreOutcome, StoreError>(
                    StoreOutcome::Created(reported_revision(version, revision)),
                ),
            },
    {
        match previous {
            Err(text) => Err(StoreError::EtcdError(text)),
            Ok(None) => Ok(StoreOutcome::Created(1)),
            Ok(Some(version)) => {
                let version: u64 = version as u64;
                if version == revision + 1 {
                    Ok(StoreOutcome::Created(revision))
                } else {
                    Ok(StoreOutcome::Created(version + 1))
                }
            },
        }
    }

    /// The value among what was found under a key: the first.
    pub fn get(found: Result<Vec<Arc<Vec<u8>>>, String>) -> (value: Result<
        Option<Arc<Vec<u8>>>,
        StoreError,
    >)
        ensures
            match found {
                Err(text) => value is Err && is_etcd_error(value->Err_0, text@),
                Ok(values) => value == Ok::<Option<Arc<Vec<u8>>>, StoreError>(
                    if values@.len() == 0 {
                        None
                    } else {
                        Some(values@[0])
                    },
                ),
            },
    {
        match found {
            Err(text) => Err(StoreError::EtcdError(text)),
            Ok(values) => if values.len() == 0 {
                Ok(None)
            } else {
                Ok(Some(values[0].clone()))
            },
        }
    }

    /// The outcome of deleting a key, be it there or not.
    pub fn delete(deleted: Result<(), String>) -> (outcome: Result<(), StoreError>)
        ensures
            match deleted {
                Err(text) => outcome is Err && is_etcd_error(outcome->Err_0, text@),
                Ok(_) => outcome is Ok,
            },
    {
        match deleted {
            Err(text) => Err(StoreError::EtcdError(text)),
            Ok(()) => Ok(()),
        }
    }

    /// What a watcher is told of a change in the cluster. A key that is no text is passed over.
    pub fn watch(raw_key: Vec<u8>, put: Option<Arc<Vec<u8>>>) -> (event: Option<WatchEvent>)
        ensures
            if !valid_utf8(raw_key@) {
                event is None
            } else {
                match (put, event) {
                    (Some(value), Some(WatchEvent::Put(kv))) => kv.spec_key() == decode_utf8(
                        raw_key@,
                    ) && kv.spec_value() == value,
                    (None, Some(WatchEvent::Delete(key))) => key@ == decode_utf8(raw_key@),
                    _ => false,
                }
            },
    {
        let key = match text_of_utf8(raw_key) {
            Some(text) => Key::new(text),
            None => {
                return None;
            },
        };
        match put {
            Some(value) => Some(WatchEvent::Put(KeyValue::new(key, value))),
            None => Some(WatchEvent::Delete(key)),
        }
    }

    /// The values of the bucket, by their keys in the cluster.
    pub fn entries(found: Result<Vec<(Vec<u8>, Arc<Vec<u8>>)>, String>) -> (values: Result<
        Dict<String, Arc<Vec<u8>>>,
        StoreError,
    >)
        ensures
            match found {
                Err(text) => values is Err && is_etcd_error(values->Err_0, text@),
                Ok(list) => values is Ok && values->Ok_0@ == listed_values(list@),
            },
    {
        let list = match found {
            Ok(list) => list,
            Err(text) => {
                return Err(StoreError::EtcdError(text));
            },
        };
        let mut out: Dict<String, Arc<Vec<u8>>> = Dict::new();
        let mut i: usize = 0;
        assert(list@.take(0) =~= Seq::empty());
        while i < list.len()
            invariant
                i <= list@.len(),
                out@ == listed_values(list@.take(i as int)),
            decreases list@.len() - i,
        {
            assert(list@.take(i + 1).drop_last() =~= list@.take(i as int));
            out.insert(text_of_utf8_lossy(&list[i].0), list[i].1.clone());
            i = i + 1;
        }
        assert(list@.take(i as int) =~= list@);
        Ok(out)
    }
}

/// The values of a list, by their keys as texts.
pub open spec fn listed_values(list: Seq<(Vec<u8>, Arc<Vec<u8>>)>) -> Map<Seq<char>, Arc<Vec<u8>>>
    decreases list.len(),
{
    if list.len() == 0 {
        Map::empty()
    } else {
        listed_values(list.drop_last()).insert(lossy_text(list.last().0@), list.last().1)
    }
}

/// Different keys of a bucket are different keys in the cluster, and every one of them starts with
/// the bucket's prefix.
pub proof fn law_bucket_keys_stay_apart(bucket: Seq<char>, a: Seq<char>, b: Seq<char>)
    ensures
        path_of(bucket, a) == path_of(bucket, b) ==> a == b,
        path_of(bucket, Seq::<char>::empty()).is_prefix_of(path_of(bucket, a)),
{
    let prefix = path_of(bucket, Seq::<char>::empty());
    assert(prefix =~= bucket + "/"@);
    assert(path_of(bucket, a).skip(prefix.len() as int) =~= a);
    assert(path_of(bucket, b).skip(prefix.len() as int) =~= b);
    assert(path_of(bucket, a).subrange(0, prefix.len() as int) =~= prefix);
}

/// An update that replaced the expected version reports the revision that it was given; any other
/// reports a version that is higher than the one it replaced.
pub proof fn law_update_reports_the_new_version(version: i64, revision: u64)
    requires
        (version as u64) < u64::MAX,
        revision < u64::MAX,
    ensures
        version as u64 == revision + 1 ==> reported_revision(Some(version), revision) == revision,
        version as u64 != revision + 1 ==> reported_revision(Some(version), revision)
            == version as u64 + 1,
{
}

/// A bucket goes by its name on the connection of its store, and its keys stand behind that name and
/// a slash.
pub proof fn law_bucket_goes_by_its_name<C>(
    client: Arc<C>,
    store: EtcdStore<C>,
    name: &str,
    bucket: EtcdBucket<C>,
    found: Option<EtcdBucket<C>>,
    connection: &Arc<C>,
    key: &Key,
    shown: &str,
    full: String,
    prefix: String,
)
    requires
        call_ensures(EtcdStore::<C>::new, (client,), store),
        call_ensures(EtcdStore::<C>::get_or_create_bucket, (&store, name), bucket),
        call_ensures(EtcdStore::<C>::get_bucket, (&store, name), found),
        call_ensures(EtcdBucket::<C>::client, (&bucket,), connection),
        call_ensures(Key::as_ref, (key,), shown),
        call_ensures(EtcdBucket::<C>::full_key, (&bucket, key), full),
        call_ensures(EtcdBucket::<C>::prefix, (&bucket,), prefix),
    ensures
        *connection == client,
        found is Some,
        found->Some_0.spec_name() == bucket.spec_name(),
        found->Some_0.spec_client() == client,
        full@ == name@ + "/"@ + shown@,
        prefix@ == name@ + "/"@,
{
    assert(prefix@ =~= name@ + "/"@);
}

/// The first revision creates a key and every other updates it; creating reports the first version,
/// or the one that is there.
pub proof fn law_create_or_update<C>(
    revision: u64,
    write: EtcdWrite,
    version: u64,
    text: String,
    created: Result<StoreOutcome, StoreError>,
    there: Result<StoreOutcome, StoreError>,
    failed: Result<StoreOutcome, StoreError>,
)
    requires
        call_ensures(EtcdBucket::<C>::insert, (revision,), write),
        call_ensures(EtcdBucket::<C>::create_path, (Ok::<Option<u64>, String>(None),), created),
        call_ensures(
            EtcdBucket::<C>::create_path,
            (Ok::<Option<u64>, String>(Some(version)),),
            there,
        ),
        call_ensures(EtcdBucket::<C>::create_path, (Err::<Option<u64>, String>(text),), failed),
    ensures
        write == EtcdWrite::Create <==> revision == 0,
        created == Ok::<StoreOutcome, StoreError>(StoreOutcome::Created(1)),
        there == Ok::<StoreOutcome, StoreError>(StoreOutcome::Exists(version)),
        failed is Err && failed->Err_0 is EtcdError && failed->Err_0->EtcdError_0@ == text@,
{
}

/// Only a key that is there is updated, at whatever version.
pub proof fn law_present_key_is_updated<C>(
    key: &Key,
    versions: Vec<i64>,
    text: String,
    outcome: Result<(), StoreError>,
    failed: Result<(), StoreError>,
)
    requires
        call_ensures(
            EtcdBucket::<C>::update_path,
            (key, Ok::<Vec<i64>, String>(versions)),
            outcome,
        ),
        call_ensures(EtcdBucket::<C>::update_path, (key, Err::<Vec<i64>, String>(text)), failed),
    ensures
        outcome is Ok <==> versions@.len() > 0,
        outcome is Err ==> outcome->Err_0 is MissingKey && outcome->Err_0->MissingKey_0@ == key@,
        failed is Err && failed->Err_0 is EtcdError && failed->Err_0->EtcdError_0@ == text@,
{
}

/// An update reports the given revision where it replaced the version behind that, the version behind
/// the replaced one elsewhere, and the first where the key had gone.
pub proof fn law_reported_update<C>(
    version: i64,
    revision: u64,
    text: String,
    outcome: Result<StoreOutcome, StoreError>,
    gone: Result<StoreOutcome, StoreError>,
    failed: Result<StoreOutcome, StoreError>,
)
    requires
        revision < u64::MAX,
        0 <= version,
        call_ensures(
            EtcdBucket::<C>::updated,
            (Ok::<Option<i64>, String>(Some(version)), revision),
            outcome,
        ),
        call_ensures(
            EtcdBucket::<C>::updated,
            (Ok::<Option<i64>, String>(None), revision),
            gone,
        ),
        call_ensures(
            EtcdBucket::<C>::updated,
            (Err::<Option<i64>, String>(text), revision),
            failed,
        ),
    ensures
        version == revision + 1 ==> outcome == Ok::<StoreOutcome, StoreError>(
            StoreOutcome::Created(revision),
        ),
        version != revision + 1 ==> outcome == Ok::<StoreOutcome, StoreError>(
            StoreOutcome::Created((version + 1) as u64),
        ),
        gone == Ok::<StoreOutcome, StoreError>(StoreOutcome::Created(1)),
        failed is Err && failed->Err_0 is EtcdError && failed->Err_0->EtcdError_0@ == text@,
{
}

/// The value of a key is the first that is found, and a deletion succeeds where the cluster says so.
pub proof fn law_found_value<C>(
    values: Vec<Arc<Vec<u8>>>,
    text: String,
    value: Result<Option<Arc<Vec<u8>>>, StoreError>,
    failed: Result<Option<Arc<Vec<u8>>>, StoreError>,
    deleted: Result<(), String>,
    outcome: Result<(), StoreError>,
)
    requires
        call_ensures(EtcdBucket::<C>::get, (Ok::<Vec<Arc<Vec<u8>>>, String>(values),), value),
        call_ensures(EtcdBucket::<C>::get, (Err::<Vec<Arc<Vec<u8>>>, String>(text),), failed),
        call_ensures(EtcdBucket::<C>::delete, (deleted,), outcome),
    ensures
        value is Ok,
        value->Ok_0 is Some <==> values@.len() > 0,
        value->Ok_0 is Some ==> value->Ok_0->Some_0 == values@[0],
        failed is Err && failed->Err_0 is EtcdError && failed->Err_0->EtcdError_0@ == text@,
        outcome is Ok == deleted is Ok,
        outcome is Err ==> outcome->Err_0 is EtcdError && outcome->Err_0->EtcdError_0@
            == deleted->Err_0@,
{
}

/// A change of a key that is a text is told, as a value or as a deletion, under that text; any other
/// is passed over.
pub proof fn law_change_is_told<C>(
    raw: Vec<u8>,
    value: Arc<Vec<u8>>,
    put: Option<WatchEvent>,
    deleted: Option<WatchEvent>,
)
    requires
        call_ensures(EtcdBucket::<C>::watch, (raw, Some(value)), put),
        call_ensures(EtcdBucket::<C>::watch, (raw, None::<Arc<Vec<u8>>>), deleted),
    ensures
        put is Some <==> valid_utf8(raw@),
        deleted is Some <==> valid_utf8(raw@),
        put is Some ==> put->Some_0 is Put && put->Some_0->Put_0.spec_key() == decode_utf8(raw@)
            && put->Some_0->Put_0.spec_value() == value,
        deleted is Some ==> deleted->Some_0 is Delete && deleted->Some_0->Delete_0@ == decode_utf8(
            raw@,
        ),
{
}

/// Every value that is found is listed under its key, the last one where there are several of one
/// key, and nothing else is.
pub proof fn law_found_values_are_listed<C>(
    list: Vec<(Vec<u8>, Arc<Vec<u8>>)>,
    values: Result<Dict<String, Arc<Vec<u8>>>, StoreError>,
    key: Seq<char>,
)
    requires
        call_ensures(
            EtcdBucket::<C>::entries,
            (Ok::<Vec<(Vec<u8>, Arc<Vec<u8>>)>, String>(list),),
            values,
        ),
    ensures
        values is Ok,
        values->Ok_0@.contains_key(key) <==> exists|i: int|
            0 <= i < list@.len() && lossy_text((#[trigger] list@[i]).0@) == key,
        forall|i: int|
            0 <= i < list@.len() && lossy_text((#[trigger] list@[i]).0@) == key && (forall|j: int|
                i < j < list@.len() ==> lossy_text((#[trigger] list@[j]).0@) != key)
                ==> values->Ok_0@[key] == list@[i].1,
{
    lemma_listed_values(list@, key);
    assert forall|i: int|
        0 <= i < list@.len() && lossy_text((#[trigger] list@[i]).0@) == key && (forall|j: int|
            i < j < list@.len() ==> lossy_text((#[trigger] list@[j]).0@) != key) implies
        values->Ok_0@[key] == list@[i].1 by {
        lemma_last_listed(list@, key, i);
    }
}

proof fn lemma_listed_values(list: Seq<(Vec<u8>, Arc<Vec<u8>>)>, key: Seq<char>)
    ensures
        listed_values(list).contains_key(key) <==> exists|i: int|
            0 <= i < list.len() && lossy_text((#[trigger] list[i]).0@) == key,
    decreases list.len(),
{
    if list.len() > 0 {
        let init = list.drop_last();
        lemma_listed_values(init, key);
        let n = list.len() - 1;
        assert(list[n] == list.last());
        if exists|i: int| 0 <= i < list.len() && lossy_text((#[trigger] list[i]).0@) == key {
            let i = choose|i: int| 0 <= i < list.len() && lossy_text((#[trigger] list[i]).0@) == key;
            if i < n {
                assert(lossy_text(init[i].0@) == key);
            }
        }
        if listed_values(init).contains_key(key) {
            let i = choose|i: int| 0 <= i < init.len() && lossy_text((#[trigger] init[i]).0@) == key;
            assert(lossy_text(list[i].0@) == key);
        }
    }
}

proof fn lemma_last_listed(list: Seq<(Vec<u8>, Arc<Vec<u8>>)>, key: Seq<char>, i: int)
    requires
        0 <= i < list.len(),
        lossy_text(list[i].0@) == key,
        forall|j: int| i < j < list.len() ==> lossy_text((#[trigger] list[j]).0@) != key,
    ensures
        listed_values(list)[key] == list[i].1,
    decreases list.len(),
{
    let n = list.len() - 1;
    if i < n {
        let init = list.drop_last();
        assert(lossy_text(list[n].0@) != key);
        assert forall|j: int| i < j < init.len() implies lossy_text((#[trigger] init[j]).0@)
            != key by {
            assert(list[j] == init[j]);
        }
        lemma_last_listed(init, key, i);
    }
}

} // verus!

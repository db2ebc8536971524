//! Buckets of a JetStream key-value store.

use vstd::prelude::*;
use vstd::string::*;

use crate::dict::Dict;
use crate::protocols::PortNameId;
use crate::slug::{slug_of, Slug};
use crate::storage::kv::{Key, KeyValue, StoreError, StoreOutcome, WatchEvent};
use crate::text::concat2;

use std::sync::Arc;

verus! {

/// The name of a bucket: namespace and slug, with an underscore in between, since a bucket's name
/// has to be one segment.
pub open spec fn qualified_name(namespace: Seq<char>, slug: Seq<char>) -> Seq<char> {
    namespace + "_"@ + slug
}

/// Writes the name of a bucket.
pub fn single_name(namespace: &str, name: &Slug) -> (qualified: String)
    ensures
        qualified@ == qualified_name(namespace@, name@),
{
    let mut qualified = concat2(namespace, "_");
    qualified.append(name.as_ref());
    qualified
}

/// Whether `error` is an error of the server with that text.
pub open spec fn is_nats_error(error: StoreError, text: Seq<char>) -> bool {
    match error {
        StoreError::NATSError(t) => t@ == text,
        _ => false,
    }
}

/// Whether `error` says that `bucket` could not be used, and why.
pub open spec fn is_bucket_error(error: StoreError, why: Seq<char>, bucket: Seq<char>) -> bool {
    match error {
        StoreError::KeyValueError(w, b) => w@ == why && b@ == bucket,
        _ => false,
    }
}

/// The buckets of a port name's namespace, reached through `C`.
pub struct NATSStore<C> {
    client: C,
    portname: PortNameId,
}

/// Why a bucket could not be opened.
pub enum OpenError {
    /// There is none of that name.
    NoBucket,
    Other(String),
}

impl<C> NATSStore<C> {
    /// The connection.
    pub closed spec fn spec_client(&self) -> C {
        self.client
    }

    /// The namespace of the port name.
    pub closed spec fn spec_namespace(&self) -> Seq<char> {
        self.portname.namespace@
    }

    /// The buckets of the port name's namespace.
    pub fn new(client: C, portname: PortNameId) -> (store: Self)
        ensures
            store.spec_client() == client,
            store.spec_namespace() == portname.namespace@,
    {
        NATSStore { client, portname }
    }

    /// The connection.
    pub fn client(&self) -> (client: &C)
        ensures
            *client == self.spec_client(),
    {
        &self.client
    }

    /// The name of a bucket on the server.
    pub fn qualified(&self, bucket_name: &str) -> (name: String)
        ensures
            name@ == qualified_name(self.spec_namespace(), slug_of(bucket_name@)),
    {
        let slug = Slug::slugify(bucket_name);
        single_name(self.portname.namespace.as_str(), &slug)
    }

    /// A bucket that was opened, if there is one.
    pub fn get_key_value<B>(qualified: String, opened: Result<B, OpenError>) -> (bucket: Result<
        Option<B>,
        StoreError,
    >)
        ensures
            match opened {
                Ok(found) => bucket == Ok::<Option<B>, StoreError>(Some(found)),
                Err(OpenError::NoBucket) => bucket == Ok::<Option<B>, StoreError>(None),
                Err(OpenError::Other(text)) => bucket is Err && is_bucket_error(
                    bucket->Err_0,
                    text@,
                    qualified@,
                ),
            },
    {
        match opened {
            Ok(found) => Ok(Some(found)),
            Err(OpenError::NoBucket) => Ok(None),
            Err(OpenError::Other(text)) => Err(StoreError::KeyValueError(text, qualified)),
        }
    }

    /// A bucket that was created, else the one that is there. `opened` is the outcome of opening it,
    /// and only counts where it could not be created.
    pub fn get_or_create_key_value<B>(
        qualified: String,
        created: Result<B, String>,
        opened: Result<B, OpenError>,
    ) -> (bucket: Result<B, StoreError>)
        ensures
            match created {
                Ok(made) => bucket == Ok::<B, StoreError>(made),
                Err(_) => match opened {
                    Ok(found) => bucket == Ok::<B, StoreError>(found),
                    Err(OpenError::NoBucket) => bucket is Err && is_bucket_error(
                        bucket->Err_0,
                        "bucket disappeared between create and get"@,
                        qualified@,
                    ),
                    Err(OpenError::Other(text)) => bucket is Err && is_bucket_error(
                        bucket->Err_0,
                        text@,
                        qualified@,
                    ),
                },
            },
    {
        if let Ok(made) = created {
            return Ok(made);
        }
        match Self::get_key_value(qualified.clone(), opened) {
            Ok(Some(found)) => Ok(found),
            Ok(None) => Err(
                StoreError::KeyValueError(
                    "bucket disappeared between create and get".to_owned(),
                    qualified,
                ),
            ),
            Err(error) => Err(error),
        }
    }
}

/// What to ask the server for next in order to write a value.
#[derive(Debug, Clone, Copy, PartialEq, Eq, Structural)]
pub enum WriteCall {
    /// Create the key.
    Create,
    /// Look at the key, which could not be created.
    LookAfterCreate,
    /// Update the key at a revision.
    Update(u64),
    /// Look at the key, whose revision was not the expected one.
    LookAfterUpdate,
    /// Update the key at the revision that was found.
    UpdateAgain(u64),
}

/// What the server answered.
pub enum WriteReply {
    /// The value was written, at this revision.
    Written(u64),
    /// The key could not be created: it is there.
    AlreadyExists,
    /// The key could not be updated: its revision is another.
    WrongLastRevision,
    /// The key is there, at this revision.
    Found(u64),
    /// The key is not there.
    NotFound,
    Failed(String),
}

/// What follows a reply: another call, or the outcome.
pub enum WriteStep {
    Call(WriteCall),
    Done(Result<StoreOutcome, StoreError>),
}

/// Whether a reply can come to a call.
pub open spec fn answers(call: WriteCall, reply: WriteReply) -> bool {
    match call {
        WriteCall::Create => reply is Written || reply is AlreadyExists || reply is Failed,
        WriteCall::LookAfterCreate | WriteCall::LookAfterUpdate => reply is Found || reply
            is NotFound || reply is Failed,
        WriteCall::Update(_) => reply is Written || reply is WrongLastRevision || reply is Failed,
        WriteCall::UpdateAgain(_) => reply is Written || reply is Failed,
    }
}

/// Whether `step` is what follows `reply` to `call`, in writing `key`.
pub open spec fn write_follows(
    key: Seq<char>,
    call: WriteCall,
    reply: WriteReply,
    step: WriteStep,
) -> bool {
    match (call, reply) {
        (WriteCall::LookAfterCreate, WriteReply::Found(revision)) => step == WriteStep::Done(
            Ok(StoreOutcome::Exists(revision)),
        ),
        (WriteCall::LookAfterCreate, WriteReply::NotFound) => step == WriteStep::Done(
            Err(StoreError::Retry),
        ),
        (WriteCall::LookAfterUpdate, WriteReply::Found(revision)) => step == WriteStep::Call(
            WriteCall::UpdateAgain((revision + 1) as u64),
        ),
        (WriteCall::LookAfterUpdate, WriteReply::NotFound) => step == WriteStep::Call(
            WriteCall::Create,
        ),
        (_, WriteReply::Written(revision)) => step == WriteStep::Done(
            Ok(StoreOutcome::Created(revision)),
        ),
        (_, WriteReply::AlreadyExists) => step == WriteStep::Call(WriteCall::LookAfterCreate),
        (_, WriteReply::WrongLastRevision) => step == WriteStep::Call(WriteCall::LookAfterUpdate),
        (WriteCall::UpdateAgain(_), WriteReply::Failed(text)) => step is Done && step->Done_0 is Err
            && is_nats_error(
            step->Done_0->Err_0,
            "Error during update of key "@ + key + " after resync: "@ + text@,
        ),
        (_, WriteReply::Failed(text)) => step is Done && step->Done_0 is Err && is_nats_error(
            step->Done_0->Err_0,
            text@,
        ),
        _ => false,
    }
}

/// How many calls may follow a call, itself included.
pub open spec fn calls_left(call: WriteCall) -> nat {
    match call {
        WriteCall::Update(_) => 4,
        WriteCall::LookAfterUpdate => 3,
        WriteCall::Create => 2,
        WriteCall::LookAfterCreate => 1,
        WriteCall::UpdateAgain(_) => 1,
    }
}

/// A bucket of the server.
pub struct NATSBucket<B> {
    nats_store: B,
}

impl<B> NATSBucket<B> {
    /// The bucket on the server.
    pub closed spec fn spec_store(&self) -> B {
        self.nats_store
    }

    /// A bucket of the server.
    pub fn new(nats_store: B) -> (bucket: Self)
        ensures
            bucket.spec_store() == nats_store,
    {
        NATSBucket { nats_store }
    }

    /// The bucket on the server.
    pub fn store(&self) -> (store: &B)
        ensures
            *store == self.spec_store(),
    {
        &self.nats_store
    }

    /// The first call in order to write a value at a revision: the first revision creates.
    pub fn insert(revision: u64) -> (call: WriteCall)
        ensures
            call == if revision == 0 {
                WriteCall::Create
            } else {
                WriteCall::Update(revision)
            },
    {
        if revision == 0 {
            WriteCall::Create
        } else {
            WriteCall::Update(revision)
        }
    }

    /// What follows the reply to a call, in writing `key`. A key that cannot be created is reported
    /// as it is; one whose revision is not the expected one is updated at the revision after the one
    /// found, or created where it is gone.
    pub fn write_step(key: &Key, call: WriteCall, reply: WriteReply) -> (step: WriteStep)
        requires
            answers(call, reply),
            call == WriteCall::LookAfterUpdate && reply is Found ==> reply->Found_0 < u64::MAX,
        ensures
            write_follows(key@, call, reply, step),
            step is Call ==> calls_left(step->Call_0) < calls_left(call),
    {
        match reply {
            WriteReply::Written(revision) => WriteStep::Done(Ok(StoreOutcome::Created(revision))),
            WriteReply::AlreadyExists => WriteStep::Call(WriteCall::LookAfterCreate),
            WriteReply::WrongLastRevision => WriteStep::Call(WriteCall::LookAfterUpdate),
            WriteReply::Found(revision) => match call {
                WriteCall::LookAfterCreate => WriteStep::Done(Ok(StoreOutcome::Exists(revision))),
                _ => WriteStep::Call(WriteCall::UpdateAgain(revision + 1)),
            },
            WriteReply::NotFound => match call {
                WriteCall::LookAfterCreate => WriteStep::Done(Err(StoreError::Retry)),
                _ => WriteStep::Call(WriteCall::Create),
            },
            WriteReply::Failed(text) => match call {
                WriteCall::UpdateAgain(_) => {
                    let mut whole = concat2("Error during update of key ", key.as_ref());
                    whole.append(" after resync: ");
                    whole.append(text.as_str());
                    WriteStep::Done(Err(StoreError::NATSError(whole)))
                },
                _ => WriteStep::Done(Err(StoreError::NATSError(text))),
            },
        }
    }

    /// The value of a key, by the server's answer.
    pub fn get(read: Result<Option<Arc<Vec<u8>>>, String>) -> (value: Result<
        Option<Arc<Vec<u8>>>,
        StoreError,
    >)
        ensures
            match read {
                Ok(found) => value == Ok::<Option<Arc<Vec<u8>>>, StoreError>(found),
                Err(text) => value is Err && is_nats_error(value->Err_0, text@),
            },
    {
        match read {
            Ok(found) => Ok(found),
            Err(text) => Err(StoreError::NATSError(text)),
        }
    }

    /// The outcome of deleting a key, by the server's answer.
    pub fn delete(deleted: Result<(), String>) -> (outcome: Result<(), StoreError>)
        ensures
            match deleted {
                Ok(_) => outcome is Ok,
                Err(text) => outcome is Err && is_nats_error(outcome->Err_0, text@),
            },
    {
        match deleted {
            Ok(()) => Ok(()),
            Err(text) => Err(StoreError::NATSError(text)),
        }
    }

    /// What a watcher is told of an entry. A purge counts as a deletion, and an entry that could not
    /// be read is passed over.
    pub fn watch(item: Result<WatchedEntry, String>) -> (event: Option<WatchEvent>)
        ensures
            match item {
                Err(_) => event is None,
                Ok(entry) => match (entry.operation, event) {
                    (Operation::Put, Some(WatchEvent::Put(kv))) => kv.spec_key() == entry.key@
                        && kv.spec_value() == entry.value,
                    (Operation::Delete, Some(WatchEvent::Delete(key))) => key@ == entry.key@,
                    (Operation::Purge, Some(WatchEvent::Delete(key))) => key@ == entry.key@,
                    _ => false,
                },
            },
    {
        match item {
            Err(_) => None,
            Ok(entry) => {
                let key = Key::new(entry.key);
                match entry.operation {
                    Operation::Put => Some(WatchEvent::Put(KeyValue::new(key, entry.value))),
                    Operation::Delete | Operation::Purge => Some(WatchEvent::Delete(key)),
                }
            },
        }
    }

    /// The values of the bucket, by their keys. A key that could not be listed, and one whose value
    /// could not be read or is gone, is passed over.
    pub fn entries(items: &Vec<ListedEntry>) -> (values: Dict<String, Arc<Vec<u8>>>)
        ensures
            values@ == readable_entries(items@),
    {
        let mut out: Dict<String, Arc<Vec<u8>>> = Dict::new();
        let mut i: usize = 0;
        assert(items@.take(0) =~= Seq::empty());
        while i < items.len()
            invariant
                i <= items@.len(),
                out@ == readable_entries(items@.take(i as int)),
            decreases items@.len() - i,
        {
            assert(items@.take(i + 1).drop_last() =~= items@.take(i as int));
            if let Ok(listed) = &items[i] {
                if let Ok(Some(value)) = &listed.1 {
                    out.insert(listed.0.clone(), value.clone());
                }
            }
            i = i + 1;
        }
        assert(items@.take(i as int) =~= items@);
        out
    }
}

/// What happened to an entry.
#[derive(Debug, Clone, Copy, PartialEq, Eq, Structural)]
pub enum Operation {
    Put,
    Delete,
    Purge,
}

/// An entry as a watcher of the server sees it.
pub struct WatchedEntry {
    pub key: String,
    pub value: Arc<Vec<u8>>,
    pub operation: Operation,
}

/// A key as it was listed, and what reading its entry yielded.
pub type ListedEntry = Result<(String, Result<Option<Arc<Vec<u8>>>, String>), String>;

/// The values that could be read, by their keys.
pub open spec fn readable_entries(items: Seq<ListedEntry>) -> Map<Seq<char>, Arc<Vec<u8>>>
    decreases items.len(),
{
    if items.len() == 0 {
        Map::empty()
    } else {
        let rest = readable_entries(items.drop_last());
        match items.last() {
            Ok(listed) => match listed.1 {
                Ok(Some(value)) => rest.insert(listed.0@, value),
                _ => rest,
            },
            Err(_) => rest,
        }
    }
}

/// A run of calls with their replies.
pub open spec fn is_write_run(
    key: Seq<char>,
    calls: Seq<WriteCall>,
    replies: Seq<WriteReply>,
) -> bool {
    &&& calls.len() > 0
    &&& calls.len() == replies.len()
    &&& calls[0] is Create || calls[0] is Update
    &&& forall|i: int| 0 <= i < calls.len() ==> answers(#[trigger] calls[i], replies[i])
    &&& forall|i: int|
        0 <= i < calls.len() - 1 ==> write_follows(
            key,
            #[trigger] calls[i],
            replies[i],
            WriteStep::Call(calls[i + 1]),
        )
}

/// A write takes four calls at most, whatever the server answers.
pub proof fn law_write_takes_four_calls(
    key: Seq<char>,
    calls: Seq<WriteCall>,
    replies: Seq<WriteReply>,
)
    requires
        is_write_run(key, calls, replies),
    ensures
        calls.len() <= 4,
{
    lemma_calls_left(key, calls, replies, calls.len() - 1);
}

proof fn lemma_calls_left(
    key: Seq<char>,
    calls: Seq<WriteCall>,
    replies: Seq<WriteReply>,
    i: int,
)
    requires
        is_write_run(key, calls, replies),
        0 <= i < calls.len(),
    ensures
        calls_left(calls[i]) + i <= 4,
        calls_left(calls[i]) >= 1,
    decreases i,
{
    if i > 0 {
        lemma_calls_left(key, calls, replies, i - 1);
        assert(answers(calls[i - 1], replies[i - 1]));
        assert(write_follows(key, calls[i - 1], replies[i - 1], WriteStep::Call(calls[i - 1 + 1])));
    }
}

/// A bucket goes by the namespace of the store and the slug of its name, with an underscore in
/// between.
pub proof fn law_bucket_name_on_the_server<C>(
    client: C,
    portname: PortNameId,
    store: NATSStore<C>,
    connection: &C,
    name: &str,
    qualified: String,
    slug: Slug,
    namespace: &str,
    single: String,
)
    requires
        call_ensures(NATSStore::<C>::new, (client, portname), store),
        call_ensures(NATSStore::<C>::client, (&store,), connection),
        call_ensures(NATSStore::<C>::qualified, (&store, name), qualified),
        call_ensures(Slug::slugify, (name,), slug),
        call_ensures(single_name, (namespace, &slug), single),
    ensures
        *connection == client,
        qualified@ == portname.namespace@ + "_"@ + slug@,
        single@ == namespace@ + "_"@ + slug@,
{
}

/// A bucket that was created is used, else the one that could be opened; a bucket that is not there
/// is no error, unless it had been there a moment ago.
pub proof fn law_bucket_is_opened<C, B>(
    qualified: String,
    found: B,
    text: String,
    why: String,
    opened: Result<Option<B>, StoreError>,
    missing: Result<Option<B>, StoreError>,
    failed: Result<Option<B>, StoreError>,
    made: B,
    open_outcome: Result<B, OpenError>,
    created: Result<B, StoreError>,
    fallen_back: Result<B, StoreError>,
)
    requires
        call_ensures(
            NATSStore::<C>::get_key_value::<B>,
            (qualified, Ok::<B, OpenError>(found)),
            opened,
        ),
        call_ensures(
            NATSStore::<C>::get_key_value::<B>,
            (qualified, Err::<B, OpenError>(OpenError::NoBucket)),
            missing,
        ),
        call_ensures(
            NATSStore::<C>::get_key_value::<B>,
            (qualified, Err::<B, OpenError>(OpenError::Other(text))),
            failed,
        ),
        call_ensures(
            NATSStore::<C>::get_or_create_key_value::<B>,
            (qualified, Ok::<B, String>(made), open_outcome),
            created,
        ),
        call_ensures(
            NATSStore::<C>::get_or_create_key_value::<B>,
            (qualified, Err::<B, String>(why), open_outcome),
            fallen_back,
        ),
    ensures
        opened == Ok::<Option<B>, StoreError>(Some(found)),
        missing == Ok::<Option<B>, StoreError>(None),
        failed is Err && failed->Err_0 is KeyValueError && failed->Err_0->KeyValueError_0@ == text@
            && failed->Err_0->KeyValueError_1@ == qualified@,
        created == Ok::<B, StoreError>(made),
        fallen_back is Ok == open_outcome is Ok,
        fallen_back is Ok ==> fallen_back->Ok_0 == open_outcome->Ok_0,
        fallen_back is Err ==> fallen_back->Err_0 is KeyValueError
            && fallen_back->Err_0->KeyValueError_1@ == qualified@,
        fallen_back is Err && open_outcome->Err_0 is NoBucket ==> fallen_back->Err_0->KeyValueError_0@
            == "bucket disappeared between create and get"@,
        fallen_back is Err && open_outcome->Err_0 is Other ==> fallen_back->Err_0->KeyValueError_0@
            == open_outcome->Err_0->Other_0@,
{
}

/// A write starts by creating at the first revision and by updating at any other; it ends as soon as
/// the value was written, at the revision that the server tells, whatever was tried before.
pub proof fn law_written_is_done<B>(
    revision: u64,
    first: WriteCall,
    key: &Key,
    call: WriteCall,
    at: u64,
    step: WriteStep,
)
    requires
        call_ensures(NATSBucket::<B>::insert, (revision,), first),
        call_ensures(
            NATSBucket::<B>::write_step,
            (key, call, WriteReply::Written(at)),
            step,
        ),
        answers(call, WriteReply::Written(at)),
    ensures
        revision == 0 ==> first is Create,
        revision > 0 ==> first == WriteCall::Update(revision),
        step == WriteStep::Done(Ok(StoreOutcome::Created(at))),
{
}

/// A key that could not be created is looked at: it is reported as there, with its revision, or, where
/// it has gone in the meantime, as to be tried again. Nothing is overwritten.
pub proof fn law_present_key_is_not_overwritten<B>(
    key: &Key,
    looking: WriteStep,
    at: u64,
    found: WriteStep,
    gone: WriteStep,
)
    requires
        call_ensures(
            NATSBucket::<B>::write_step,
            (key, WriteCall::Create, WriteReply::AlreadyExists),
            looking,
        ),
        call_ensures(
            NATSBucket::<B>::write_step,
            (key, WriteCall::LookAfterCreate, WriteReply::Found(at)),
            found,
        ),
        call_ensures(
            NATSBucket::<B>::write_step,
            (key, WriteCall::LookAfterCreate, WriteReply::NotFound),
            gone,
        ),
    ensures
        looking == WriteStep::Call(WriteCall::LookAfterCreate),
        found == WriteStep::Done(Ok(StoreOutcome::Exists(at))),
        gone == WriteStep::Done(Err(StoreError::Retry)),
{
}

/// A key whose revision was not the expected one is looked at and updated behind the revision that
/// was found, or created where it has gone.
pub proof fn law_update_is_tried_again<B>(
    key: &Key,
    revision: u64,
    looking: WriteStep,
    at: u64,
    found: WriteStep,
    gone: WriteStep,
)
    requires
        at < u64::MAX,
        call_ensures(
            NATSBucket::<B>::write_step,
            (key, WriteCall::Update(revision), WriteReply::WrongLastRevision),
            looking,
        ),
        call_ensures(
            NATSBucket::<B>::write_step,
            (key, WriteCall::LookAfterUpdate, WriteReply::Found(at)),
            found,
        ),
        call_ensures(
            NATSBucket::<B>::write_step,
            (key, WriteCall::LookAfterUpdate, WriteReply::NotFound),
            gone,
        ),
    ensures
        looking == WriteStep::Call(WriteCall::LookAfterUpdate),
        found is Call && found->Call_0 is UpdateAgain && found->Call_0->UpdateAgain_0 == at + 1,
        gone == WriteStep::Call(WriteCall::Create),
{
}

/// A failure ends a write with its reason; that of the second update also names the key.
pub proof fn law_failed_write_tells_why<B>(
    key: &Key,
    call: WriteCall,
    text: String,
    step: WriteStep,
)
    requires
        call_ensures(NATSBucket::<B>::write_step, (key, call, WriteReply::Failed(text)), step),
    ensures
        step is Done && step->Done_0 is Err && step->Done_0->Err_0 is NATSError,
        call is UpdateAgain ==> step->Done_0->Err_0->NATSError_0@ == "Error during update of key "@
            + key@ + " after resync: "@ + text@,
        !(call is UpdateAgain) ==> step->Done_0->Err_0->NATSError_0@ == text@,
{
}

/// What the server answers to a read or a deletion is the outcome.
pub proof fn law_answer_is_the_outcome<B>(
    read: Result<Option<Arc<Vec<u8>>>, String>,
    value: Result<Option<Arc<Vec<u8>>>, StoreError>,
    deleted: Result<(), String>,
    outcome: Result<(), StoreError>,
    store: B,
    bucket: NATSBucket<B>,
    on_server: &B,
)
    requires
        call_ensures(NATSBucket::<B>::get, (read,), value),
        call_ensures(NATSBucket::<B>::delete, (deleted,), outcome),
        call_ensures(NATSBucket::<B>::new, (store,), bucket),
        call_ensures(NATSBucket::<B>::store, (&bucket,), on_server),
    ensures
        *on_server == store,
        value is Ok == read is Ok,
        value is Ok ==> value->Ok_0 == read->Ok_0,
        value is Err ==> value->Err_0 is NATSError && value->Err_0->NATSError_0@ == read->Err_0@,
        outcome is Ok == deleted is Ok,
        outcome is Err ==> outcome->Err_0 is NATSError && outcome->Err_0->NATSError_0@
            == deleted->Err_0@,
{
}

/// Every entry that could be read is told under its key: a put with its value, a deletion and a purge
/// as a deletion.
pub proof fn law_entry_is_told<B>(
    entry: WatchedEntry,
    event: Option<WatchEvent>,
    text: String,
    unread: Option<WatchEvent>,
)
    requires
        call_ensures(NATSBucket::<B>::watch, (Ok::<WatchedEntry, String>(entry),), event),
        call_ensures(NATSBucket::<B>::watch, (Err::<WatchedEntry, String>(text),), unread),
    ensures
        unread is None,
        event is Some,
        event->Some_0 is Put <==> entry.operation == Operation::Put,
        event->Some_0 is Put ==> event->Some_0->Put_0.spec_key() == entry.key@
            && event->Some_0->Put_0.spec_value() == entry.value,
        event->Some_0 is Delete ==> event->Some_0->Delete_0@ == entry.key@,
{
}

/// Every key whose value could be read is listed with it, the last one where a key comes twice; keys
/// that could not be listed or read, and those that are gone, are not.
pub proof fn law_readable_values_are_listed<B>(
    items: &Vec<ListedEntry>,
    values: Dict<String, Arc<Vec<u8>>>,
    key: Seq<char>,
)
    requires
        call_ensures(NATSBucket::<B>::entries, (items,), values),
    ensures
        values@.contains_key(key) <==> exists|i: int|
            0 <= i < items@.len() && is_readable_as(#[trigger] items@[i], key),
        forall|i: int|
            0 <= i < items@.len() && is_readable_as(#[trigger] items@[i], key) && (forall|j: int|
                i < j < items@.len() ==> !is_readable_as(#[trigger] items@[j], key))
                ==> values@[key] == items@[i]->Ok_0.1->Ok_0->Some_0,
{
    lemma_readable_entries(items@, key);
    assert forall|i: int|
        0 <= i < items@.len() && is_readable_as(#[trigger] items@[i], key) && (forall|j: int|
            i < j < items@.len() ==> !is_readable_as(#[trigger] items@[j], key)) implies values@[key]
        == items@[i]->Ok_0.1->Ok_0->Some_0 by {
        lemma_last_readable(items@, key, i);
    }
}

/// Whether an item holds a value that could be read under that key.
pub open spec fn is_readable_as(item: ListedEntry, key: Seq<char>) -> bool {
    item is Ok && item->Ok_0.0@ == key && item->Ok_0.1 is Ok && item->Ok_0.1->Ok_0 is Some
}

proof fn lemma_readable_entries(items: Seq<ListedEntry>, key: Seq<char>)
    ensures
        readable_entries(items).contains_key(key) <==> exists|i: int|
            0 <= i < items.len() && is_readable_as(#[trigger] items[i], key),
    decreases items.len(),
{
    if items.len() > 0 {
        let init = items.drop_last();
        lemma_readable_entries(init, key);
        let n = items.len() - 1;
        assert(items[n] == items.last());
        if exists|i: int| 0 <= i < items.len() && is_readable_as(#[trigger] items[i], key) {
            let i = choose|i: int| 0 <= i < items.len() && is_readable_as(#[trigger] items[i], key);
            if i < n {
                assert(is_readable_as(init[i], key));
            }
        }
        if readable_entries(init).contains_key(key) {
            let i = choose|i: int| 0 <= i < init.len() && is_readable_as(#[trigger] init[i], key);
            assert(is_readable_as(items[i], key));
        } else if readable_entries(items).contains_key(key) {
            assert(is_readable_as(items[n], key));
        }
    }
}

proof fn lemma_last_readable(items: Seq<ListedEntry>, key: Seq<char>, i: int)
    requires
        0 <= i < items.len(),
        is_readable_as(items[i], key),
        forall|j: int| i < j < items.len() ==> !is_readable_as(#[trigger] items[j], key),
    ensures
        readable_entries(items)[key] == items[i]->Ok_0.1->Ok_0->Some_0,
    decreases items.len(),
{
    let n = items.len() - 1;
    if i < n {
        let init = items.drop_last();
        assert(!is_readable_as(items[n], key));
        assert forall|j: int| i < j < init.len() implies !is_readable_as(#[trigger] init[j], key) by {
            assert(items[j] == init[j]);
        }
        lemma_last_readable(init, key, i);
    }
}

} // verus!

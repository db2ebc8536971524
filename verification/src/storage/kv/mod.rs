//! Buckets of keys and values, over several backends.

pub mod encoding;
pub mod etcd;
pub mod file;
pub mod mem;
pub mod nats;
pub mod path;

use vstd::prelude::*;
use vstd::string::*;

use crate::storage::kv::encoding::{percent_decode, percent_encode, safe_text, unsafe_text};
use crate::text::same_text;

use std::sync::Arc;

verus! {

/// The name of a value in a bucket.
#[derive(Debug)]
pub struct Key(String);

impl View for Key {
    type V = Seq<char>;

    closed spec fn view(&self) -> Seq<char> {
        self.0@
    }
}

impl Key {
    /// The key of that name.
    pub fn new(name: String) -> (key: Self)
        ensures
            key@ == name@,
    {
        Key(name)
    }

    /// The name.
    pub fn as_ref(&self) -> (name: &str)
        ensures
            name@ == self@,
    {
        self.0.as_str()
    }

    /// The key whose name can stand in a file name or a URL: every byte but ASCII letters and digits
    /// is escaped.
    pub fn url_safe(&self) -> (key: Key)
        ensures
            key@ == safe_text(self@),
    {
        Key(percent_encode(self.0.as_str()))
    }

    /// The key whose name was escaped.
    pub fn from_url_safe(s: &str) -> (key: Key)
        ensures
            key@ == unsafe_text(s@),
    {
        Key(percent_decode(s))
    }

    /// The name.
    pub fn to_string(&self) -> (name: String)
        ensures
            name@ == self@,
    {
        self.0.clone()
    }
}

impl Clone for Key {
    fn clone(&self) -> (copy: Self)
        ensures
            copy == *self,
    {
        Key(self.0.clone())
    }
}

impl PartialEq for Key {
    fn eq(&self, other: &Self) -> (same: bool) {
        same_text(self.0.as_str(), other.0.as_str())
    }
}

impl vstd::std_specs::cmp::PartialEqSpecImpl for Key {
    open spec fn obeys_eq_spec() -> bool {
        true
    }

    open spec fn eq_spec(&self, other: &Self) -> bool {
        self@ == other@
    }
}

/// A key and its value.
#[derive(Debug, Clone)]
pub struct KeyValue {
    key: Key,
    value: Arc<Vec<u8>>,
}

impl KeyValue {
    /// The name of the key.
    pub closed spec fn spec_key(&self) -> Seq<char> {
        self.key@
    }

    /// The value.
    pub closed spec fn spec_value(&self) -> Arc<Vec<u8>> {
        self.value
    }

    /// A key and its value.
    pub fn new(key: Key, value: Arc<Vec<u8>>) -> (kv: Self)
        ensures
            kv.spec_key() == key@,
            kv.spec_value() == value,
    {
        KeyValue { key, value }
    }

    /// The name of the key.
    pub fn key(&self) -> (name: String)
        ensures
            name@ == self.spec_key(),
    {
        self.key.to_string()
    }

    /// The value.
    pub fn value(&self) -> (value: Arc<Vec<u8>>)
        ensures
            value == self.spec_value(),
    {
        self.value.clone()
    }
}

/// What went wrong in a store.
#[derive(Debug)]
pub enum StoreError {
    /// There is no bucket of that name.
    MissingBucket(String),
    /// There is no such key.
    MissingKey(String),
    /// A bucket, named second, could not be used.
    KeyValueError(String, String),
    NATSError(String),
    EtcdError(String),
    FilesystemError(String),
    /// Something else got in between: try again.
    Retry,
}

/// What a write did.
#[derive(Debug, Clone, Copy, PartialEq, Eq, Structural)]
pub enum StoreOutcome {
    /// The value was written, at this revision.
    Created(u64),
    /// There is a value already, at this revision.
    Exists(u64),
}

/// A change in a bucket.
#[derive(Debug, Clone)]
pub enum WatchEvent {
    Put(KeyValue),
    Delete(Key),
}

/// A bucket's name and a key's, with a slash in between.
pub open spec fn path_of(bucket: Seq<char>, key: Seq<char>) -> Seq<char> {
    bucket + "/"@ + key
}

/// Writes a bucket's name and a key's, with a slash in between.
pub fn write_path(bucket: &str, key: &str) -> (path: String)
    ensures
        path@ == path_of(bucket@, key@),
{
    let mut path = bucket.to_owned();
    path.append("/");
    path.append(key);
    path
}

/// A key reads back from its escaped form, which holds ASCII letters, digits and percent signs alone.
pub proof fn law_escaped_key_reads_back(key: &Key, safe: Key, text: &str, read: Key)
    requires
        call_ensures(Key::url_safe, (key,), safe),
        text@ == safe@,
        call_ensures(Key::from_url_safe, (text,), read),
    ensures
        read@ == key@,
        forall|i: int|
            0 <= i < safe@.len() ==> 'a' <= #[trigger] safe@[i] <= 'z' || 'A' <= safe@[i] <= 'Z' || '0'
                <= safe@[i] <= '9' || safe@[i] == '%',
{
    crate::storage::kv::encoding::law_escaped_name_reads_back(key@);
    crate::storage::kv::encoding::lemma_encoded_is_plain(vstd::utf8::encode_utf8(key@));
}

/// What a change tells of a key is what it was made of.
pub proof fn law_key_and_value_are_kept(
    key: Key,
    value: Arc<Vec<u8>>,
    kv: KeyValue,
    name: String,
    read: Arc<Vec<u8>>,
)
    requires
        call_ensures(KeyValue::new, (key, value), kv),
        call_ensures(KeyValue::key, (&kv,), name),
        call_ensures(KeyValue::value, (&kv,), read),
    ensures
        name@ == key@,
        read == value,
{
}

/// A key of a bucket is written behind the name of the bucket and a slash, and a key is shown as it
/// was made.
pub proof fn law_written_key(
    bucket: &str,
    text: &str,
    path: String,
    name: String,
    key: Key,
    shown: &str,
    word: String,
)
    requires
        call_ensures(write_path, (bucket, text), path),
        call_ensures(Key::new, (name,), key),
        call_ensures(Key::as_ref, (&key,), shown),
        call_ensures(Key::to_string, (&key,), word),
    ensures
        path@ == bucket@ + "/"@ + text@,
        shown@ == name@,
        word@ == name@,
{
}

/// Keys are equal exactly if their names are.
pub proof fn law_equal_keys(a: Key, b: Key)
    ensures
        vstd::std_specs::cmp::PartialEqSpec::eq_spec(&a, &b) <==> a@ == b@,
{
}

} // verus!

//! Parameters of a pipeline under construction, kept by name.

use vstd::prelude::*;
use vstd::string::*;

use crate::dict::Dict;
use crate::text::{concat2, yields};

use std::sync::Arc;

verus! {

/// A value of any of several types, one of which may be `T`.
pub trait Holds<T>: Sized {
    /// The value, where it is a `T`.
    open spec fn spec_held(&self) -> Option<T> {
        arbitrary()
    }

    /// The value, once it is forgotten that it is a `T`.
    open spec fn spec_hold(value: T) -> Self {
        arbitrary()
    }

    /// Forgets that a value is a `T`.
    fn hold(value: T) -> (any: Self)
        ensures
            any == Self::spec_hold(value),
            any.spec_held() == Some(value),
    ;

    /// The value, where it is a `T`.
    fn held(&self) -> (value: Option<&T>)
        ensures
            match value {
                Some(v) => self.spec_held() == Some(*v),
                None => self.spec_held() is None,
            },
    ;

    /// Takes the value, where it is a `T`.
    fn release(self) -> (value: Option<T>)
        ensures
            value == self.spec_held(),
    ;
}

/// Named parameters. A shared one is handed out any number of times, a unique one is taken once.
pub struct Registry<A> {
    shared_storage: Dict<String, A>,
    unique_storage: Dict<String, A>,
}

impl<A> Default for Registry<A> {
    fn default() -> (registry: Self)
        ensures
            registry.shared() == Map::<Seq<char>, A>::empty(),
            registry.unique() == Map::<Seq<char>, A>::empty(),
    {
        Registry { shared_storage: Dict::new(), unique_storage: Dict::new() }
    }
}

/// What a lookup of `key` as a `V` finds in `storage`: the value, or the text of the error.
pub open spec fn lookup<A: Holds<V>, V>(
    storage: Map<Seq<char>, A>,
    key: Seq<char>,
    mismatch: Seq<char>,
    missing: Seq<char>,
) -> Result<V, Seq<char>> {
    if !storage.contains_key(key) {
        Err(missing + key)
    } else {
        match storage[key].spec_held() {
            Some(value) => Ok(value),
            None => Err(mismatch + key),
        }
    }
}

/// What a lookup of the shared `key` as a `V` finds.
pub open spec fn shared_lookup<A: Holds<Arc<V>>, V>(
    storage: Map<Seq<char>, A>,
    key: Seq<char>,
) -> Result<Arc<V>, Seq<char>> {
    lookup(
        storage,
        key,
        "Failed to downcast to the requested type for shared key: "@,
        "Shared key not found: "@,
    )
}

/// What a lookup of the unique `key` as a `V` finds.
pub open spec fn unique_lookup<A: Holds<V>, V>(
    storage: Map<Seq<char>, A>,
    key: Seq<char>,
) -> Result<V, Seq<char>> {
    lookup(
        storage,
        key,
        "Failed to downcast to the requested type for unique key: "@,
        "Takable key not found: "@,
    )
}

impl<A> Registry<A> {
    /// The shared parameters.
    pub closed spec fn shared(&self) -> Map<Seq<char>, A> {
        self.shared_storage@
    }

    /// The unique parameters that were not taken yet.
    pub closed spec fn unique(&self) -> Map<Seq<char>, A> {
        self.unique_storage@
    }

    /// A registry without parameters.
    pub fn new() -> (registry: Self)
        ensures
            registry.shared() == Map::<Seq<char>, A>::empty(),
            registry.unique() == Map::<Seq<char>, A>::empty(),
    {
        Registry::default()
    }

    /// Whether there is a shared parameter `key`.
    pub fn contains_shared(&self, key: &str) -> (found: bool)
        ensures
            found == self.shared().contains_key(key@),
    {
        self.shared_storage.contains(&key.to_owned())
    }

    /// Sets the shared parameter `key`.
    pub fn insert_shared<U>(&mut self, key: &str, value: U) where A: Holds<Arc<U>>
        ensures
            final(self).unique() == old(self).unique(),
            final(self).shared() == old(self).shared().insert(key@, A::spec_hold(Arc::new(value))),
            A::spec_hold(Arc::new(value)).spec_held() == Some(Arc::new(value)),
    {
        let any = A::hold(Arc::new(value));
        self.shared_storage.insert(key.to_owned(), any);
    }

    /// The shared parameter `key`, as a `V`.
    pub fn get_shared<V>(&self, key: &str) -> (outcome: Result<Arc<V>, String>) where
        A: Holds<Arc<V>>,
        ensures
            yields(outcome, shared_lookup::<A, V>(self.shared(), key@)),
    {
        match self.shared_storage.get(&key.to_owned()) {
            Some(any) => match any.held() {
                Some(value) => Ok(value.clone()),
                None => Err(
                    concat2("Failed to downcast to the requested type for shared key: ", key),
                ),
            },
            None => Err(concat2("Shared key not found: ", key)),
        }
    }

    /// Whether there is a unique parameter `key`.
    pub fn contains_unique(&self, key: &str) -> (found: bool)
        ensures
            found == self.unique().contains_key(key@),
    {
        self.unique_storage.contains(&key.to_owned())
    }

    /// Sets the unique parameter `key`.
    pub fn insert_unique<U>(&mut self, key: &str, value: U) where A: Holds<U>
        ensures
            final(self).shared() == old(self).shared(),
            final(self).unique() == old(self).unique().insert(key@, A::spec_hold(value)),
            A::spec_hold(value).spec_held() == Some(value),
    {
        let any = A::hold(value);
        self.unique_storage.insert(key.to_owned(), any);
    }

    /// Takes the unique parameter `key`, as a `V`. It is gone afterwards, also where it was not a
    /// `V`.
    pub fn take_unique<V>(&mut self, key: &str) -> (outcome: Result<V, String>) where A: Holds<V>
        ensures
            yields(outcome, unique_lookup::<A, V>(old(self).unique(), key@)),
            final(self).unique() == old(self).unique().remove(key@),
            final(self).shared() == old(self).shared(),
    {
        match self.unique_storage.remove(&key.to_owned()) {
            Some(any) => match any.release() {
                Some(value) => Ok(value),
                None => Err(
                    concat2("Failed to downcast to the requested type for unique key: ", key),
                ),
            },
            None => Err(concat2("Takable key not found: ", key)),
        }
    }

    /// A copy of the unique parameter `key`, as a `V`. The parameter stays.
    pub fn clone_unique<V: Clone>(&self, key: &str) -> (outcome: Result<V, String>) where
        A: Holds<V>,
        ensures
            match unique_lookup::<A, V>(self.unique(), key@) {
                Ok(value) => outcome is Ok && cloned(value, outcome->Ok_0),
                Err(text) => outcome is Err && outcome->Err_0@ == text,
            },
    {
        match self.unique_storage.get(&key.to_owned()) {
            Some(any) => match any.held() {
                Some(value) => Ok(value.clone()),
                None => Err(
                    concat2("Failed to downcast to the requested type for unique key: ", key),
                ),
            },
            None => Err(concat2("Takable key not found: ", key)),
        }
    }
}

/// A unique parameter is taken once: after it was set it can be taken as what it is, and after it
/// was taken the key is missing.
pub proof fn law_unique_is_taken_once<A: Holds<V>, V>(
    unique: Map<Seq<char>, A>,
    key: Seq<char>,
    value: V,
)
    requires
        A::spec_hold(value).spec_held() == Some(value),
    ensures
        unique_lookup::<A, V>(unique.insert(key, A::spec_hold(value)), key) == Ok::<V, Seq<char>>(
            value,
        ),
        unique_lookup::<A, V>(unique.insert(key, A::spec_hold(value)).remove(key), key) == Err::<
            V,
            Seq<char>,
        >("Takable key not found: "@ + key),
{
}

/// A shared parameter that was set is found, as often as it is looked up.
pub proof fn law_shared_is_found<A: Holds<Arc<V>>, V>(
    shared: Map<Seq<char>, A>,
    key: Seq<char>,
    value: V,
)
    requires
        A::spec_hold(Arc::new(value)).spec_held() == Some(Arc::new(value)),
    ensures
        shared_lookup::<A, V>(shared.insert(key, A::spec_hold(Arc::new(value))), key) == Ok::<
            Arc<V>,
            Seq<char>,
        >(Arc::new(value)),
{
}

/// A parameter that is held as one type is not found as another.
pub proof fn law_wrong_type_is_refused<A: Holds<V>, V>(
    unique: Map<Seq<char>, A>,
    key: Seq<char>,
    any: A,
)
    requires
        any.spec_held() is None,
    ensures
        unique_lookup::<A, V>(unique.insert(key, any), key) == Err::<V, Seq<char>>(
            "Failed to downcast to the requested type for unique key: "@ + key,
        ),
{
}

/// The parameter types that pipelines commonly exchange.
pub enum Parameter {
    Integer(i32),
    Text(String),
    Bytes(Vec<u8>),
    SharedInteger(Arc<i32>),
    SharedText(Arc<String>),
    SharedBytes(Arc<Vec<u8>>),
}

impl Holds<i32> for Parameter {
    open spec fn spec_held(&self) -> Option<i32> {
        match *self {
            Parameter::Integer(value) => Some(value),
            _ => None,
        }
    }

    open spec fn spec_hold(value: i32) -> Self {
        Parameter::Integer(value)
    }

    fn hold(value: i32) -> (any: Self) {
        Parameter::Integer(value)
    }

    fn held(&self) -> (value: Option<&i32>) {
        match self {
            Parameter::Integer(value) => Some(value),
            _ => None,
        }
    }

    fn release(self) -> (value: Option<i32>) {
        match self {
            Parameter::Integer(value) => Some(value),
            _ => None,
        }
    }
}

impl Holds<String> for Parameter {
    open spec fn spec_held(&self) -> Option<String> {
        match *self {
            Parameter::Text(value) => Some(value),
            _ => None,
        }
    }

    open spec fn spec_hold(value: String) -> Self {
        Parameter::Text(value)
    }

    fn hold(value: String) -> (any: Self) {
        Parameter::Text(value)
    }

    fn held(&self) -> (value: Option<&String>) {
        match self {
            Parameter::Text(value) => Some(value),
            _ => None,
        }
    }

    fn release(self) -> (value: Option<String>) {
        match self {
            Parameter::Text(value) => Some(value),
            _ => None,
        }
    }
}

impl Holds<Vec<u8>> for Parameter {
    open spec fn spec_held(&self) -> Option<Vec<u8>> {
        match *self {
            Parameter::Bytes(value) => Some(value),
            _ => None,
        }
    }

    open spec fn spec_hold(value: Vec<u8>) -> Self {
        Parameter::Bytes(value)
    }

    fn hold(value: Vec<u8>) -> (any: Self) {
        Parameter::Bytes(value)
    }

    fn held(&self) -> (value: Option<&Vec<u8>>) {
        match self {
            Parameter::Bytes(value) => Some(value),
            _ => None,
        }
    }

    fn release(self) -> (value: Option<Vec<u8>>) {
        match self {
            Parameter::Bytes(value) => Some(value),
            _ => None,
        }
    }
}

impl Holds<Arc<i32>> for Parameter {
    open spec fn spec_held(&self) -> Option<Arc<i32>> {
        match *self {
            Parameter::SharedInteger(value) => Some(value),
            _ => None,
        }
    }

    open spec fn spec_hold(value: Arc<i32>) -> Self {
        Parameter::SharedInteger(value)
    }

    fn hold(value: Arc<i32>) -> (any: Self) {
        Parameter::SharedInteger(value)
    }

    fn held(&self) -> (value: Option<&Arc<i32>>) {
        match self {
            Parameter::SharedInteger(value) => Some(value),
            _ => None,
        }
    }

    fn release(self) -> (value: Option<Arc<i32>>) {
        match self {
            Parameter::SharedInteger(value) => Some(value),
            _ => None,
        }
    }
}

impl Holds<Arc<String>> for Parameter {
    open spec fn spec_held(&self) -> Option<Arc<String>> {
        match *self {
            Parameter::SharedText(value) => Some(value),
            _ => None,
        }
    }

    open spec fn spec_hold(value: Arc<String>) -> Self {
        Parameter::SharedText(value)
    }

    fn hold(value: Arc<String>) -> (any: Self) {
        Parameter::SharedText(value)
    }

    fn held(&self) -> (value: Option<&Arc<String>>) {
        match self {
            Parameter::SharedText(value) => Some(value),
            _ => None,
        }
    }

    fn release(self) -> (value: Option<Arc<String>>) {
        match self {
            Parameter::SharedText(value) => Some(value),
            _ => None,
        }
    }
}

impl Holds<Arc<Vec<u8>>> for Parameter {
    open spec fn spec_held(&self) -> Option<Arc<Vec<u8>>> {
        match *self {
            Parameter::SharedBytes(value) => Some(value),
            _ => None,
        }
    }

    open spec fn spec_hold(value: Arc<Vec<u8>>) -> Self {
        Parameter::SharedBytes(value)
    }

    fn hold(value: Arc<Vec<u8>>) -> (any: Self) {
        Parameter::SharedBytes(value)
    }

    fn held(&self) -> (value: Option<&Arc<Vec<u8>>>) {
        match self {
            Parameter::SharedBytes(value) => Some(value),
            _ => None,
        }
    }

    fn release(self) -> (value: Option<Arc<Vec<u8>>>) {
        match self {
            Parameter::SharedBytes(value) => Some(value),
            _ => None,
        }
    }
}

/// A shared parameter that was set is found under its key as what it is, however often; no other
/// parameter changes.
pub proof fn law_shared_parameter_is_found<A: Holds<Arc<U>>, U>(
    registry: &mut Registry<A>,
    key: &str,
    value: U,
    found: Result<Arc<U>, String>,
    there: bool,
    other: &str,
    before: Result<Arc<U>, String>,
    after: Result<Arc<U>, String>,
    other_before: bool,
    other_after: bool,
)
    requires
        call_ensures(Registry::<A>::insert_shared::<U>, (registry, key, value), ()),
        call_ensures(Registry::<A>::get_shared::<U>, (&*final(registry), key), found),
        call_ensures(Registry::<A>::contains_shared, (&*final(registry), key), there),
        other@ != key@,
        call_ensures(Registry::<A>::get_shared::<U>, (&*old(registry), other), before),
        call_ensures(Registry::<A>::get_shared::<U>, (&*final(registry), other), after),
        call_ensures(Registry::<A>::contains_shared, (&*old(registry), other), other_before),
        call_ensures(Registry::<A>::contains_shared, (&*final(registry), other), other_after),
    ensures
        found == Ok::<Arc<U>, String>(Arc::new(value)),
        there,
        before is Ok == after is Ok,
        before is Ok ==> after == before,
        before is Err ==> after->Err_0@ == before->Err_0@,
        other_after == other_before,
        final(registry).unique() == old(registry).unique(),
{
}

/// A unique parameter that was set is taken under its key as what it is, once; afterwards it is
/// missing. No other parameter changes, neither when it is set nor when it is taken.
pub proof fn law_unique_parameter_is_taken<A: Holds<U>, U>(
    setting: &mut Registry<A>,
    key: &str,
    value: U,
    there: bool,
    taking: &mut Registry<A>,
    taken: Result<U, String>,
    gone: bool,
    again: &mut Registry<A>,
    nothing: Result<U, String>,
    other: Seq<char>,
)
    requires
        call_ensures(Registry::<A>::insert_unique::<U>, (setting, key, value), ()),
        call_ensures(Registry::<A>::contains_unique, (&*final(setting), key), there),
        *old(taking) == *final(setting),
        call_ensures(Registry::<A>::take_unique::<U>, (taking, key), taken),
        call_ensures(Registry::<A>::contains_unique, (&*final(taking), key), gone),
        *old(again) == *final(taking),
        call_ensures(Registry::<A>::take_unique::<U>, (again, key), nothing),
    ensures
        there,
        taken == Ok::<U, String>(value),
        !gone,
        nothing is Err,
        nothing->Err_0@ == "Takable key not found: "@ + key@,
        final(again).shared() == old(setting).shared(),
        other != key@ ==> final(again).unique().contains_key(other) == old(
            setting
        ).unique().contains_key(other),
        other != key@ && old(setting).unique().contains_key(other) ==> final(
            again
        ).unique()[other] == old(setting).unique()[other],
{
}

/// A parameter that is missing, or of another type, is told by its key; one that is taken as the
/// wrong type is gone all the same, while a copy leaves it.
pub proof fn law_missing_and_mistaken_parameters<A: Holds<V> + Holds<Arc<V>>, V: Clone>(
    registry: &Registry<A>,
    key: &str,
    shared: Result<Arc<V>, String>,
    copy: Result<V, String>,
    taking: &mut Registry<A>,
    taken: Result<V, String>,
)
    requires
        call_ensures(Registry::<A>::get_shared::<V>, (registry, key), shared),
        call_ensures(Registry::<A>::clone_unique::<V>, (registry, key), copy),
        *old(taking) == *registry,
        call_ensures(Registry::<A>::take_unique::<V>, (taking, key), taken),
    ensures
        !registry.shared().contains_key(key@) ==> shared is Err && shared->Err_0@
            == "Shared key not found: "@ + key@,
        registry.shared().contains_key(key@) && shared is Err ==> shared->Err_0@
            == "Failed to downcast to the requested type for shared key: "@ + key@,
        !registry.unique().contains_key(key@) ==> taken is Err && taken->Err_0@
            == "Takable key not found: "@ + key@,
        registry.unique().contains_key(key@) && taken is Err ==> taken->Err_0@
            == "Failed to downcast to the requested type for unique key: "@ + key@,
        copy is Ok == taken is Ok,
        copy is Ok ==> cloned(taken->Ok_0, copy->Ok_0),
        copy is Err ==> copy->Err_0@ == taken->Err_0@,
        !final(taking).unique().contains_key(key@),
        final(taking).shared() == registry.shared(),
{
}

/// A parameter of one of the common types is held as that type and as no other.
pub proof fn law_common_parameters(
    number: i32,
    text: String,
    bytes: Vec<u8>,
    parameter: Parameter,
)
    ensures
        <Parameter as Holds<i32>>::spec_held(&Parameter::Integer(number)) == Some(number),
        <Parameter as Holds<String>>::spec_held(&Parameter::Text(text)) == Some(text),
        <Parameter as Holds<Vec<u8>>>::spec_held(&Parameter::Bytes(bytes)) == Some(bytes),
        <Parameter as Holds<Arc<i32>>>::spec_held(&Parameter::SharedInteger(Arc::new(number))) == Some(Arc::new(number)),
        <Parameter as Holds<Arc<String>>>::spec_held(&Parameter::SharedText(Arc::new(text))) == Some(Arc::new(text)),
        <Parameter as Holds<Arc<Vec<u8>>>>::spec_held(&Parameter::SharedBytes(Arc::new(bytes))) == Some(Arc::new(bytes)),
        <Parameter as Holds<i32>>::spec_held(&parameter) is Some ==> parameter is Integer,
        <Parameter as Holds<String>>::spec_held(&parameter) is Some ==> parameter is Text,
        <Parameter as Holds<Vec<u8>>>::spec_held(&parameter) is Some ==> parameter is Bytes,
        <Parameter as Holds<Arc<i32>>>::spec_held(&parameter) is Some ==> parameter is SharedInteger,
        <Parameter as Holds<Arc<String>>>::spec_held(&parameter) is Some ==> parameter is SharedText,
        <Parameter as Holds<Arc<Vec<u8>>>>::spec_held(&parameter) is Some ==> parameter is SharedBytes,
{
}

} // verus!

//! Namespaces, the service groups in them, and the port names that those offer.

pub mod client;
pub mod portname;
pub mod registry;
pub mod service;

use vstd::prelude::*;
use vstd::std_specs::cmp::PartialEqSpec;
use vstd::string::*;

use crate::discovery::{DiscoveryInstance, DiscoveryQuery, DiscoverySpec};
use crate::ids::random_u64;
use crate::json::copy_json;
use crate::slug::{slug_of, Slug};
use crate::text::{
    concat2, debug_quoted, decimal, join3, joined, joined3, same_text, to_decimal, views,
};
use crate::transports::{instance_subject, subject_of};

use std::cmp::Ordering;
use std::sync::Arc;

verus! {

/// Where an instance can be reached.
#[derive(Debug, Eq, Hash)]
pub enum TransportType {
    /// A subject, `namespace.servicegroup.portname.instance`.
    Nats(String),
    /// A URL.
    Http(String),
    /// An address, `host:port/instance/portname`.
    Tcp(String),
}

impl Clone for TransportType {
    fn clone(&self) -> (copy: Self)
        ensures
            copy == *self,
    {
        match self {
            TransportType::Nats(subject) => TransportType::Nats(subject.clone()),
            TransportType::Http(url) => TransportType::Http(url.clone()),
            TransportType::Tcp(address) => TransportType::Tcp(address.clone()),
        }
    }
}

impl PartialEq for TransportType {
    fn eq(&self, other: &Self) -> (same: bool) {
        match (self, other) {
            (TransportType::Nats(a), TransportType::Nats(b)) => same_text(a.as_str(), b.as_str()),
            (TransportType::Http(a), TransportType::Http(b)) => same_text(a.as_str(), b.as_str()),
            (TransportType::Tcp(a), TransportType::Tcp(b)) => same_text(a.as_str(), b.as_str()),
            _ => false,
        }
    }
}

impl vstd::std_specs::cmp::PartialEqSpecImpl for TransportType {
    open spec fn obeys_eq_spec() -> bool {
        true
    }

    open spec fn eq_spec(&self, other: &Self) -> bool {
        match (*self, *other) {
            (TransportType::Nats(a), TransportType::Nats(b)) => a@ == b@,
            (TransportType::Http(a), TransportType::Http(b)) => a@ == b@,
            (TransportType::Tcp(a), TransportType::Tcp(b)) => a@ == b@,
            _ => false,
        }
    }
}

/// What kind of device an instance runs on.
#[derive(Debug, Clone, Copy, PartialEq, Eq, Structural)]
pub enum DeviceType {
    Cpu,
    Cuda,
}

/// A running instance of a port name.
#[derive(Debug)]
pub struct Instance {
    pub namespace: String,
    pub servicegroup: String,
    pub portname: String,
    pub instance_id: u64,
    pub transport: TransportType,
    /// What the instance runs on, if that is known.
    pub device_type: Option<DeviceType>,
    /// Where the instance runs, for routing by topology.
    pub topo_json: serde_json::Value,
}

impl Clone for Instance {
    fn clone(&self) -> (copy: Self)
        ensures
            copy == *self,
    {
        Instance {
            namespace: self.namespace.clone(),
            servicegroup: self.servicegroup.clone(),
            portname: self.portname.clone(),
            instance_id: self.instance_id,
            transport: self.transport.clone(),
            device_type: self.device_type,
            topo_json: copy_json(&self.topo_json),
        }
    }
}

impl Instance {
    /// The identifier of the instance.
    pub fn id(&self) -> (id: u64)
        ensures
            id == self.instance_id,
    {
        self.instance_id
    }

    /// The port name that the instance serves.
    pub fn portname_id(&self) -> (id: PortNameId)
        ensures
            id@ == (self.namespace@, self.servicegroup@, self.portname@),
    {
        PortNameId {
            namespace: self.namespace.clone(),
            servicegroup: self.servicegroup.clone(),
            portname: self.portname.clone(),
        }
    }

    /// The instance as `namespace/servicegroup/portname/instance`.
    pub fn to_string(&self) -> (text: String)
        ensures
            text@ == joined3(self.namespace@, self.servicegroup@, self.portname@, "/"@) + "/"@
                + decimal(self.instance_id as nat),
    {
        let mut text = join3(
            self.namespace.as_str(),
            self.servicegroup.as_str(),
            self.portname.as_str(),
            "/",
        );
        text.append("/");
        text.append(to_decimal(self.instance_id).as_str());
        text
    }

    /// Instances are ordered by their identifiers.
    pub fn cmp(&self, other: &Self) -> (order: Ordering)
        ensures
            order == (if self.instance_id < other.instance_id {
                Ordering::Less
            } else if self.instance_id == other.instance_id {
                Ordering::Equal
            } else {
                Ordering::Greater
            }),
    {
        if self.instance_id < other.instance_id {
            Ordering::Less
        } else if self.instance_id == other.instance_id {
            Ordering::Equal
        } else {
            Ordering::Greater
        }
    }
}

/// A port name in a service group in a namespace.
#[derive(Debug, Clone, PartialEq, Eq, Hash)]
pub struct PortNameId {
    pub namespace: String,
    pub servicegroup: String,
    pub portname: String,
}

impl View for PortNameId {
    type V = (Seq<char>, Seq<char>, Seq<char>);

    open spec fn view(&self) -> (Seq<char>, Seq<char>, Seq<char>) {
        (self.namespace@, self.servicegroup@, self.portname@)
    }
}

impl PortNameId {
    /// The identifier as `namespace/servicegroup/portname`.
    pub fn to_string(&self) -> (text: String)
        ensures
            text@ == joined3(self@.0, self@.1, self@.2, "/"@),
    {
        join3(self.namespace.as_str(), self.servicegroup.as_str(), self.portname.as_str(), "/")
    }
}

/// The characters that a name may hold, as a pattern.
pub const ALLOWED_CHARS: &'static str = "^[a-z0-9\\-_]+$";

/// A name of one or more lower-case letters, digits, `-` and `_`.
pub open spec fn is_allowed_name(s: Seq<char>) -> bool {
    s.len() > 0 && crate::slug::all_slug_chars(s)
}

/// [`regex::Regex::is_match`] of the pattern `^[a-z0-9\\-_]+$`: whether the text holds one or more
/// of those characters and nothing else.
#[verifier::external_body]
fn matches_allowed_chars(pattern: &str, input: &str) -> (matched: bool)
    requires
        pattern@ == ALLOWED_CHARS@,
    ensures
        matched == is_allowed_name(input@),
{
    regex::Regex::new(pattern).unwrap().is_match(input)
}

/// How it is reported that `value` in `field` failed with `code`.
pub open spec fn validation_text(field: Seq<char>, code: Seq<char>, value: Seq<char>) -> Seq<
    char,
> {
    field + ": Validation error: "@ + code + " [{\"value\": String("@ + debug_quoted(value) + ")}]"@
}

/// The `Display` of a [`validator::ValidationErrors`] that holds one error without a message, with the
/// value as its parameter: the field, the code, and the parameters as `Debug` writes them.
#[verifier::external_body]
fn write_validation_error(field: &'static str, code: &'static str, value: &str) -> (text: String)
    ensures
        text@ == validation_text(field@, code@, value@),
{
    let mut error = validator::ValidationError::new(code);
    error.add_param("value".into(), &value);
    let mut errors = validator::ValidationErrors::new();
    errors.add(field, error);
    errors.to_string()
}

/// Checks a name; the error is a code.
pub fn validate_allowed_chars(input: &str) -> (outcome: Result<(), &'static str>)
    ensures
        outcome is Ok == is_allowed_name(input@),
        outcome is Err ==> outcome->Err_0@ == "invalid_characters"@,
{
    if matches_allowed_chars(ALLOWED_CHARS, input) {
        Ok(())
    } else {
        Err("invalid_characters")
    }
}

/// The text of a refused name.
pub open spec fn refusal(prefix: Seq<char>, name: Seq<char>) -> Seq<char> {
    prefix + validation_text("name"@, "invalid_characters"@, name)
}

/// A namespace, possibly within another.
#[derive(Clone)]
pub struct Namespace {
    name: String,
    parent: Option<Arc<Namespace>>,
}

impl Namespace {
    /// The namespace's own name.
    pub closed spec fn spec_own_name(&self) -> Seq<char> {
        self.name@
    }

    /// The namespace around this one.
    pub closed spec fn spec_parent(&self) -> Option<Namespace> {
        match self.parent {
            Some(parent) => Some(*parent),
            None => None,
        }
    }

    /// The full name: that of the namespace around, a dot, and the own name.
    pub closed spec fn spec_name(&self) -> Seq<char>
        decreases self,
    {
        match self.parent {
            Some(parent) => parent.spec_name() + "."@ + self.name@,
            None => self.name@,
        }
    }

    /// A namespace that is not within another.
    pub fn new(name: String) -> (namespace: Result<Self, String>)
        ensures
            namespace is Ok == is_allowed_name(name@),
            match namespace {
                Ok(ns) => ns.spec_own_name() == name@ && ns.spec_parent() is None && ns.spec_name()
                    == name@ && ns.spec_ancestors() == Seq::<Seq<char>>::empty(),
                Err(text) => text@ == refusal("Invalid namespace name: "@, name@),
            },
    {
        match validate_allowed_chars(name.as_str()) {
            Ok(()) => Ok(Namespace { name, parent: None }),
            Err(code) => Err(
                concat2(
                    "Invalid namespace name: ",
                    write_validation_error("name", code, name.as_str()).as_str(),
                ),
            ),
        }
    }

    /// A namespace within this one. Its name is not checked, so this always succeeds.
    pub fn namespace(self: &Arc<Self>, name: &str) -> (child: Result<Namespace, String>)
        ensures
            child is Ok,
            child->Ok_0.spec_own_name() == name@,
            child->Ok_0.spec_parent() == Some(**self),
            child->Ok_0.spec_name() == self.spec_name() + "."@ + name@,
            child->Ok_0.spec_ancestors() == self.spec_ancestors().push(self.spec_own_name()),
    {
        Ok(Namespace { name: name.to_owned(), parent: Some(self.clone()) })
    }

    /// The own names of the namespaces around, the outermost first.
    pub closed spec fn spec_ancestors(&self) -> Seq<Seq<char>>
        decreases self,
    {
        match self.parent {
            Some(parent) => parent.spec_ancestors().push(parent.name@),
            None => Seq::empty(),
        }
    }

    /// The own name, which is that of the innermost metrics hierarchy.
    pub fn basename(&self) -> (name: &str)
        ensures
            name@ == self.spec_own_name(),
    {
        self.name.as_str()
    }

    /// The own names of the namespaces around, the outermost first.
    pub fn parent_hierarchies(&self) -> (names: Vec<String>)
        ensures
            views(names@) == self.spec_ancestors(),
        decreases self,
    {
        match &self.parent {
            Some(parent) => {
                let mut names = parent.parent_hierarchies();
                let name = parent.name.clone();
                proof {
                    assert(views(names@.push(name)) =~= views(names@).push(name@));
                }
                names.push(name);
                names
            },
            None => {
                let names: Vec<String> = Vec::new();
                assert(views(names@) =~= Seq::empty());
                names
            },
        }
    }

    /// The full name.
    pub fn name(&self) -> (name: String)
        ensures
            name@ == self.spec_name(),
        decreases self,
    {
        match &self.parent {
            Some(parent) => {
                let mut text = parent.name();
                text.append(".");
                text.append(self.name.as_str());
                text
            },
            None => self.name.clone(),
        }
    }

    /// The own name, without the namespaces around.
    pub fn to_string(&self) -> (name: String)
        ensures
            name@ == self.spec_own_name(),
    {
        self.name.clone()
    }

    /// A service group of this namespace.
    pub fn service_group(self: &Arc<Self>, name: &str) -> (group: Result<ServiceGroup, String>)
        ensures
            group is Ok == is_allowed_name(name@),
            match group {
                Ok(sg) => sg.spec_name() == name@ && sg.spec_namespace() == **self
                    && sg.spec_labels() == Seq::<(String, String)>::empty(),
                Err(text) => text@ == refusal("Invalid service group name: "@, name@),
            },
    {
        ServiceGroup::new(self.clone(), name.to_owned())
    }
}

/// A group of services in a namespace.
#[derive(Clone)]
pub struct ServiceGroup {
    name: String,
    labels: Vec<(String, String)>,
    namespace: Arc<Namespace>,
}

impl ServiceGroup {
    /// The name of the group.
    pub closed spec fn spec_name(&self) -> Seq<char> {
        self.name@
    }

    /// The namespace of the group.
    pub closed spec fn spec_namespace(&self) -> Namespace {
        *self.namespace
    }

    /// The labels of the group.
    pub closed spec fn spec_labels(&self) -> Seq<(String, String)> {
        self.labels@
    }

    /// The namespace and the name, with a dot in between.
    pub open spec fn spec_path(&self) -> Seq<char> {
        self.spec_namespace().spec_name() + "."@ + self.spec_name()
    }

    /// A service group of `namespace`.
    pub fn new(namespace: Arc<Namespace>, name: String) -> (group: Result<Self, String>)
        ensures
            group is Ok == is_allowed_name(name@),
            match group {
                Ok(sg) => sg.spec_name() == name@ && sg.spec_namespace() == *namespace
                    && sg.spec_labels() == Seq::<(String, String)>::empty(),
                Err(text) => text@ == refusal("Invalid service group name: "@, name@),
            },
    {
        match validate_allowed_chars(name.as_str()) {
            Ok(()) => Ok(ServiceGroup { name, labels: Vec::new(), namespace }),
            Err(code) => Err(
                concat2(
                    "Invalid service group name: ",
                    write_validation_error("name", code, name.as_str()).as_str(),
                ),
            ),
        }
    }

    /// The group as `namespace.name`.
    pub fn to_string(&self) -> (text: String)
        ensures
            text@ == self.spec_path(),
    {
        let mut text = self.namespace.name();
        text.append(".");
        text.append(self.name.as_str());
        text
    }

    /// The name under which the group is registered as a service.
    pub fn service_name(&self) -> (name: String)
        ensures
            name@ == slug_of(self.spec_path()),
    {
        Slug::slugify(self.to_string().as_str()).to_string()
    }

    /// The namespace of the group.
    pub fn namespace(&self) -> (namespace: &Namespace)
        ensures
            *namespace == self.spec_namespace(),
    {
        &self.namespace
    }

    /// The name of the group.
    pub fn name(&self) -> (name: &str)
        ensures
            name@ == self.spec_name(),
    {
        self.name.as_str()
    }

    /// The name of the group, which is that of the innermost metrics hierarchy.
    pub fn basename(&self) -> (name: &str)
        ensures
            name@ == self.spec_name(),
    {
        self.name.as_str()
    }

    /// The own names of the namespaces around, the outermost first.
    pub fn parent_hierarchies(&self) -> (names: Vec<String>)
        ensures
            views(names@) == self.spec_namespace().spec_ancestors().push(
                self.spec_namespace().spec_own_name(),
            ),
    {
        let mut names = self.namespace.parent_hierarchies();
        let name = self.namespace.to_string();
        proof {
            assert(views(names@.push(name)) =~= views(names@).push(name@));
        }
        names.push(name);
        names
    }

    /// The labels of the group.
    pub fn labels(&self) -> (labels: &Vec<(String, String)>)
        ensures
            labels@ == self.spec_labels(),
    {
        &self.labels
    }

    /// A port name of this group.
    pub fn portname(self: &Arc<Self>, name: &str) -> (portname: PortName)
        ensures
            portname.spec_name() == name@,
            portname.spec_servicegroup() == **self,
    {
        PortName { servicegroup: self.clone(), name: name.to_owned() }
    }

    /// What to ask discovery for in order to list the instances of this group.
    pub fn instances_query(&self) -> (query: DiscoveryQuery)
        ensures
            match query {
                DiscoveryQuery::ServiceGroupPortNames { namespace, servicegroup } => namespace@
                    == self.spec_namespace().spec_name() && servicegroup@ == self.spec_name(),
                _ => false,
            },
    {
        DiscoveryQuery::ServiceGroupPortNames {
            namespace: self.namespace.name(),
            servicegroup: self.name.clone(),
        }
    }

    /// The instances among what discovery answered, in order.
    pub fn list_instances(results: Vec<DiscoveryInstance>) -> (instances: Vec<Instance>)
        ensures
            instances@ == port_instances(results@),
    {
        let mut results = results;
        let mut out: Vec<Instance> = Vec::new();
        let ghost all = results@;
        let n: usize = results.len();
        let mut i: usize = 0;
        assert(all.skip(0) =~= all);
        assert(all.take(0) =~= Seq::empty());
        while i < n
            invariant
                i <= n,
                n == all.len(),
                results@ == all.skip(i as int),
                out@ == port_instances(all.take(i as int)),
            decreases n - i,
        {
            let found = results.remove(0);
            proof {
                assert(results@ =~= all.skip(i + 1));
                assert(all.take(i + 1).drop_last() =~= all.take(i as int));
                assert(all.take(i + 1).last() == found);
            }
            match found {
                DiscoveryInstance::PortName(instance) => {
                    out.push(instance);
                },
                _ => {},
            }
            i = i + 1;
        }
        assert(all.take(n as int) =~= all);
        out
    }
}

/// The instances of port names among what discovery knows, in order.
pub open spec fn port_instances(results: Seq<DiscoveryInstance>) -> Seq<Instance>
    decreases results.len(),
{
    if results.len() == 0 {
        Seq::empty()
    } else {
        let rest = port_instances(results.drop_last());
        match results.last() {
            DiscoveryInstance::PortName(instance) => rest.push(instance),
            _ => rest,
        }
    }
}

impl PartialEq for ServiceGroup {
    fn eq(&self, other: &Self) -> (same: bool) {
        same_text(self.namespace.name().as_str(), other.namespace.name().as_str()) && same_text(
            self.name.as_str(),
            other.name.as_str(),
        )
    }
}

impl vstd::std_specs::cmp::PartialEqSpecImpl for ServiceGroup {
    open spec fn obeys_eq_spec() -> bool {
        true
    }

    open spec fn eq_spec(&self, other: &Self) -> bool {
        self.spec_namespace().spec_name() == other.spec_namespace().spec_name() && self.spec_name()
            == other.spec_name()
    }
}

/// A port name: a leaf of the service tree.
#[derive(Clone)]
pub struct PortName {
    servicegroup: Arc<ServiceGroup>,
    name: String,
}

impl PortName {
    /// The own name.
    pub closed spec fn spec_name(&self) -> Seq<char> {
        self.name@
    }

    /// The group that offers the port name.
    pub closed spec fn spec_servicegroup(&self) -> ServiceGroup {
        *self.servicegroup
    }

    /// The full identifier.
    pub open spec fn spec_id(&self) -> (Seq<char>, Seq<char>, Seq<char>) {
        (
            self.spec_servicegroup().spec_namespace().spec_name(),
            self.spec_servicegroup().spec_name(),
            self.spec_name(),
        )
    }

    /// The full identifier.
    pub fn id(&self) -> (id: PortNameId)
        ensures
            id@ == self.spec_id(),
    {
        PortNameId {
            namespace: self.servicegroup.namespace().name(),
            servicegroup: self.servicegroup.name().to_owned(),
            portname: self.name.clone(),
        }
    }

    /// The full identifier, in the form that transports use.
    pub fn protocol_id(&self) -> (id: crate::protocols::PortNameId)
        ensures
            id@ == self.spec_id(),
    {
        crate::protocols::PortNameId {
            namespace: self.servicegroup.namespace().name(),
            servicegroup: self.servicegroup.name().to_owned(),
            name: self.name.clone(),
        }
    }

    /// The own name.
    pub fn name(&self) -> (name: &str)
        ensures
            name@ == self.spec_name(),
    {
        self.name.as_str()
    }

    /// The group that offers the port name.
    pub fn servicegroup(&self) -> (group: &ServiceGroup)
        ensures
            *group == self.spec_servicegroup(),
    {
        &self.servicegroup
    }

    /// What to ask discovery for in order to watch the instances of this port name. The namespace
    /// is asked for by its own name.
    pub fn watch_query(&self) -> (query: DiscoveryQuery)
        ensures
            match query {
                DiscoveryQuery::PortName { namespace, servicegroup, portname } => namespace@
                    == self.spec_servicegroup().spec_namespace().spec_own_name() && servicegroup@
                    == self.spec_servicegroup().spec_name() && portname@ == self.spec_name(),
                _ => false,
            },
    {
        DiscoveryQuery::PortName {
            namespace: self.servicegroup.namespace().to_string(),
            servicegroup: self.servicegroup.name().to_owned(),
            portname: self.name.clone(),
        }
    }

    /// What announces instance `instance_id` of the port name, reached over a subject.
    pub fn announcement(&self, instance_id: u64) -> (spec: DiscoverySpec)
        ensures
            announces_subject(spec, self.spec_id(), instance_id),
    {
        let id = self.protocol_id();
        let subject = instance_subject(&id, instance_id);
        DiscoverySpec::PortName {
            namespace: id.namespace,
            servicegroup: id.servicegroup,
            portname: id.name,
            transport: TransportType::Nats(subject),
            device_type: None,
        }
    }

    /// What announces a new instance of the port name under a random identifier.
    pub fn register_port_instance(&self) -> (spec: DiscoverySpec)
        ensures
            exists|instance_id: u64| announces_subject(spec, self.spec_id(), instance_id),
    {
        let instance_id: u64 = random_u64();
        self.announcement(instance_id)
    }
}

/// Whether `spec` announces the instance of the port name, reached over the subject
/// `namespace.servicegroup.portname.instance`.
pub open spec fn announces_subject(
    spec: DiscoverySpec,
    id: (Seq<char>, Seq<char>, Seq<char>),
    instance_id: u64,
) -> bool {
    &&& spec is PortName
    &&& spec->namespace@ == id.0
    &&& spec->servicegroup@ == id.1
    &&& spec->portname@ == id.2
    &&& spec->device_type is None
    &&& spec->transport is Nats
    &&& spec->transport->Nats_0@ == subject_of(id, instance_id)
}

impl PartialEq for PortName {
    fn eq(&self, other: &Self) -> (same: bool) {
        same_text(
            self.servicegroup.namespace().name().as_str(),
            other.servicegroup.namespace().name().as_str(),
        ) && same_text(self.servicegroup.name(), other.servicegroup.name()) && same_text(
            self.name.as_str(),
            other.name.as_str(),
        )
    }
}

impl vstd::std_specs::cmp::PartialEqSpecImpl for PortName {
    open spec fn obeys_eq_spec() -> bool {
        true
    }

    open spec fn eq_spec(&self, other: &Self) -> bool {
        self.spec_id() == other.spec_id()
    }
}

/// The full name of a namespace is made of the own names of the namespaces around, the outermost
/// first, and of its own, with dots in between.
pub proof fn law_full_name_joins_the_hierarchy(namespace: &Namespace)
    ensures
        namespace.spec_name() == joined(
            namespace.spec_ancestors().push(namespace.spec_own_name()),
            "."@,
        ),
    decreases namespace,
{
    let names = namespace.spec_ancestors().push(namespace.spec_own_name());
    assert(names.drop_last() =~= namespace.spec_ancestors());
    match &namespace.parent {
        Some(parent) => {
            law_full_name_joins_the_hierarchy(parent);
        },
        None => {
            assert(joined(names, "."@) =~= namespace.spec_own_name());
        },
    }
}

/// Asking a namespace for a service group twice yields groups that are equal, and so do their port
/// names of one name.
pub proof fn law_service_group_is_stable(
    a: ServiceGroup,
    b: ServiceGroup,
    p: PortName,
    q: PortName,
)
    requires
        a.spec_name() == b.spec_name(),
        a.spec_namespace() == b.spec_namespace(),
        p.spec_servicegroup() == a,
        q.spec_servicegroup() == b,
        p.spec_name() == q.spec_name(),
    ensures
        a.eq_spec(&b),
        p.eq_spec(&q),
        a.spec_path() == b.spec_path(),
        p.spec_id() == q.spec_id(),
{
}

/// A name is allowed exactly if it has at least one character and every one is a lower-case letter,
/// a digit, a dash or an underscore.
pub proof fn law_allowed_names(name: &str, outcome: Result<(), &'static str>)
    requires
        call_ensures(validate_allowed_chars, (name,), outcome),
    ensures
        outcome is Ok <==> name@.len() > 0 && forall|i: int|
            0 <= i < name@.len() ==> {
                let c = #[trigger] name@[i];
                'a' <= c <= 'z' || '0' <= c <= '9' || c == '-' || c == '_'
            },
        outcome is Err ==> outcome->Err_0@ == "invalid_characters"@,
{
    if name@.len() > 0 && forall|i: int|
        0 <= i < name@.len() ==> {
            let c = #[trigger] name@[i];
            'a' <= c <= 'z' || '0' <= c <= '9' || c == '-' || c == '_'
        } {
        assert forall|i: int| 0 <= i < name@.len() implies crate::slug::slug_char(#[trigger] name@[i]) by {
        }
    }
    if crate::slug::all_slug_chars(name@) {
        assert forall|i: int| 0 <= i < name@.len() implies {
            let c = #[trigger] name@[i];
            'a' <= c <= 'z' || '0' <= c <= '9' || c == '-' || c == '_'
        } by {
            assert(crate::slug::slug_char(name@[i]));
        }
    }
}

/// A namespace and a service group are made of exactly the allowed names, which they keep, and a
/// refusal tells the name.
pub proof fn law_names_are_checked(
    text: &str,
    name: String,
    outcome: Result<(), &'static str>,
    namespace: Result<Namespace, String>,
    around: Arc<Namespace>,
    group: Result<ServiceGroup, String>,
    same_group: Result<ServiceGroup, String>,
)
    requires
        text@ == name@,
        call_ensures(validate_allowed_chars, (text,), outcome),
        call_ensures(Namespace::new, (name,), namespace),
        call_ensures(ServiceGroup::new, (around, name), group),
        call_ensures(Namespace::service_group, (&around, text), same_group),
    ensures
        namespace is Ok == outcome is Ok,
        group is Ok == outcome is Ok,
        same_group is Ok == outcome is Ok,
        namespace is Ok ==> namespace->Ok_0.spec_own_name() == name@
            && namespace->Ok_0.spec_name() == name@ && namespace->Ok_0.spec_parent() is None,
        group is Ok ==> group->Ok_0.spec_name() == name@ && group->Ok_0.spec_namespace() == *around
            && group->Ok_0.spec_labels().len() == 0,
        same_group is Ok ==> same_group->Ok_0.eq_spec(&group->Ok_0)
            && same_group->Ok_0.spec_labels().len() == 0 && same_group->Ok_0.spec_namespace()
            == *around,
        namespace is Ok ==> namespace->Ok_0.spec_ancestors().len() == 0,
        namespace is Err ==> namespace->Err_0@
            == "Invalid namespace name: "@ + ("name"@ + ": Validation error: "@
            + "invalid_characters"@ + " [{\"value\": String("@ + debug_quoted(name@) + ")}]"@),
        group is Err ==> group->Err_0@ == "Invalid service group name: "@ + ("name"@
            + ": Validation error: "@ + "invalid_characters"@ + " [{\"value\": String("@
            + debug_quoted(name@) + ")}]"@) && same_group is Err && same_group->Err_0@
            == group->Err_0@,
{
}

/// A namespace within another is named after it: its full name is that of the other, a dot and its
/// own; the names around it are those around the other, and the other's own.
pub proof fn law_namespace_within_another(
    around: Arc<Namespace>,
    text: &str,
    child: Result<Namespace, String>,
    full: String,
    own: &str,
    word: String,
    names: Vec<String>,
    outer_full: String,
    outer_own: &str,
    outer_names: Vec<String>,
)
    requires
        call_ensures(Namespace::namespace, (&around, text), child),
        child is Ok ==> call_ensures(Namespace::name, (&child->Ok_0,), full),
        child is Ok ==> call_ensures(Namespace::basename, (&child->Ok_0,), own),
        child is Ok ==> call_ensures(Namespace::to_string, (&child->Ok_0,), word),
        child is Ok ==> call_ensures(Namespace::parent_hierarchies, (&child->Ok_0,), names),
        call_ensures(Namespace::name, (&*around,), outer_full),
        call_ensures(Namespace::basename, (&*around,), outer_own),
        call_ensures(Namespace::parent_hierarchies, (&*around,), outer_names),
    ensures
        child is Ok,
        full@ == outer_full@ + "."@ + text@,
        own@ == text@,
        word@ == text@,
        names@.len() == outer_names@.len() + 1,
        names@.last()@ == outer_own@,
        forall|i: int| 0 <= i < outer_names@.len() ==> (#[trigger] names@[i])@ == outer_names@[i]@,
{
    assert(views(names@) == views(outer_names@).push(outer_own@));
    assert(views(names@).len() == names@.len());
    assert forall|i: int| 0 <= i < outer_names@.len() implies (#[trigger] names@[i])@
        == outer_names@[i]@ by {
        assert(views(names@)[i] == views(outer_names@)[i]);
    }
    assert(views(names@)[names@.len() - 1] == names@.last()@);
}

/// A service group goes by its namespace, a dot and its name, as a service by the slug of that; the
/// names around it are those around its namespace, and that of the namespace.
pub proof fn law_names_of_a_service_group(
    group: &ServiceGroup,
    text: String,
    service: String,
    name: &str,
    base: &str,
    namespace: &Namespace,
    namespace_full: String,
    namespace_own: &str,
    namespace_names: Vec<String>,
    names: Vec<String>,
    written: &str,
    slug: Slug,
    query: DiscoveryQuery,
)
    requires
        call_ensures(ServiceGroup::to_string, (group,), text),
        call_ensures(ServiceGroup::service_name, (group,), service),
        call_ensures(ServiceGroup::name, (group,), name),
        call_ensures(ServiceGroup::basename, (group,), base),
        call_ensures(ServiceGroup::namespace, (group,), namespace),
        call_ensures(Namespace::name, (namespace,), namespace_full),
        call_ensures(Namespace::basename, (namespace,), namespace_own),
        call_ensures(Namespace::parent_hierarchies, (namespace,), namespace_names),
        call_ensures(ServiceGroup::parent_hierarchies, (group,), names),
        written@ == text@,
        call_ensures(Slug::slugify, (written,), slug),
        call_ensures(ServiceGroup::instances_query, (group,), query),
    ensures
        text@ == namespace_full@ + "."@ + name@,
        base@ == name@,
        service@ == slug@,
        names@.len() == namespace_names@.len() + 1,
        names@.last()@ == namespace_own@,
        forall|i: int|
            0 <= i < namespace_names@.len() ==> (#[trigger] names@[i])@ == namespace_names@[i]@,
        query is ServiceGroupPortNames,
        query->ServiceGroupPortNames_namespace@ == namespace_full@,
        query->ServiceGroupPortNames_servicegroup@ == name@,
{
    assert(views(names@) == views(namespace_names@).push(namespace_own@));
    assert(views(names@).len() == names@.len());
    assert forall|i: int| 0 <= i < namespace_names@.len() implies (#[trigger] names@[i])@
        == namespace_names@[i]@ by {
        assert(views(names@)[i] == views(namespace_names@)[i]);
    }
    assert(views(names@)[names@.len() - 1] == names@.last()@);
}

/// A port name of a group is identified by the full name of the namespace, the name of the group and
/// its own; it is watched under the own name of the namespace.
pub proof fn law_names_of_a_port_name(
    group: Arc<ServiceGroup>,
    text: &str,
    portname: PortName,
    namespace: &Namespace,
    namespace_full: String,
    namespace_own: &str,
    group_name: &str,
    id: PortNameId,
    protocol_id: crate::protocols::PortNameId,
    name: &str,
    query: DiscoveryQuery,
    written: String,
)
    requires
        call_ensures(ServiceGroup::portname, (&group, text), portname),
        call_ensures(ServiceGroup::namespace, (&*group,), namespace),
        call_ensures(Namespace::name, (namespace,), namespace_full),
        call_ensures(Namespace::basename, (namespace,), namespace_own),
        call_ensures(ServiceGroup::name, (&*group,), group_name),
        call_ensures(PortName::id, (&portname,), id),
        call_ensures(PortName::protocol_id, (&portname,), protocol_id),
        call_ensures(PortName::name, (&portname,), name),
        call_ensures(PortName::watch_query, (&portname,), query),
        call_ensures(PortNameId::to_string, (&id,), written),
    ensures
        name@ == text@,
        id.namespace@ == namespace_full@ && id.servicegroup@ == group_name@ && id.portname@ == text@,
        protocol_id.namespace@ == namespace_full@ && protocol_id.servicegroup@ == group_name@
            && protocol_id.name@ == text@,
        query is PortName,
        query->PortName_namespace@ == namespace_own@,
        query->PortName_servicegroup@ == group_name@,
        query->portname@ == text@,
        written@ == namespace_full@ + "/"@ + group_name@ + "/"@ + text@,
{
}

/// The announcement of an instance names its port name and the subject of that instance.
pub proof fn law_announcement_names_the_subject(
    portname: &PortName,
    instance_id: u64,
    spec: DiscoverySpec,
    id: crate::protocols::PortNameId,
    subject: String,
)
    requires
        call_ensures(PortName::announcement, (portname, instance_id), spec),
        call_ensures(PortName::protocol_id, (portname,), id),
        call_ensures(instance_subject, (&id, instance_id), subject),
    ensures
        spec->namespace@ == id.namespace@,
        spec->servicegroup@ == id.servicegroup@,
        spec->portname@ == id.name@,
        spec->device_type is None,
        spec->transport is Nats,
        spec->transport->Nats_0@ == subject@,
{
}

/// An instance is written as its port name, a slash and its identifier in base ten.
pub proof fn law_instance_in_words(
    instance: &Instance,
    text: String,
    id: u64,
    portname: PortNameId,
    port_text: String,
    number: String,
)
    requires
        call_ensures(Instance::to_string, (instance,), text),
        call_ensures(Instance::id, (instance,), id),
        call_ensures(Instance::portname_id, (instance,), portname),
        call_ensures(PortNameId::to_string, (&portname,), port_text),
        call_ensures(to_decimal, (id,), number),
    ensures
        id == instance.instance_id,
        portname.namespace@ == instance.namespace@,
        portname.servicegroup@ == instance.servicegroup@,
        portname.portname@ == instance.portname@,
        text@ == port_text@ + "/"@ + number@,
        text@ == instance.namespace@ + "/"@ + instance.servicegroup@ + "/"@ + instance.portname@
            + "/"@ + number@,
{
}

/// The order of instances is that of their identifiers, the same from either side.
pub proof fn law_instances_are_ordered(a: &Instance, b: &Instance, ab: Ordering, ba: Ordering)
    requires
        call_ensures(Instance::cmp, (a, b), ab),
        call_ensures(Instance::cmp, (b, a), ba),
    ensures
        ab is Less <==> a.instance_id < b.instance_id,
        ab is Less <==> ba is Greater,
        ab is Equal <==> a.instance_id == b.instance_id,
        ab is Equal <==> ba is Equal,
{
}

/// The instances that are listed are those among the answers, in order, and nothing else: every
/// answer that is an instance of a port name is listed, as often as it is answered.
pub proof fn law_answered_instances_are_listed(
    results: Vec<DiscoveryInstance>,
    instances: Vec<Instance>,
)
    requires
        call_ensures(ServiceGroup::list_instances, (results,), instances),
    ensures
        instances@ == results@.filter_map(
            |found: DiscoveryInstance|
                match found {
                    DiscoveryInstance::PortName(instance) => Some(instance),
                    _ => None,
                },
        ),
        forall|i: int|
            0 <= i < results@.len() && (#[trigger] results@[i]) is PortName ==> instances@.contains(
                results@[i]->PortName_0,
            ),
        (forall|i: int| 0 <= i < results@.len() ==> (#[trigger] results@[i]) is PortName)
            ==> instances@.len() == results@.len(),
{
    lemma_port_instances(results@);
}

proof fn lemma_port_instances(results: Seq<DiscoveryInstance>)
    ensures
        port_instances(results) == results.filter_map(
            |found: DiscoveryInstance|
                match found {
                    DiscoveryInstance::PortName(instance) => Some(instance),
                    _ => None,
                },
        ),
        forall|i: int|
            0 <= i < results.len() && (#[trigger] results[i]) is PortName ==> port_instances(
                results,
            ).contains(results[i]->PortName_0),
        (forall|i: int| 0 <= i < results.len() ==> (#[trigger] results[i]) is PortName)
            ==> port_instances(results).len() == results.len(),
    decreases results.len(),
{
    let f = |found: DiscoveryInstance|
        match found {
            DiscoveryInstance::PortName(instance) => Some(instance),
            _ => None::<Instance>,
        };
    if results.len() > 0 {
        let rest = results.drop_last();
        lemma_port_instances(rest);
        assert(port_instances(results) =~= results.filter_map(f));
        assert forall|i: int|
            0 <= i < results.len() && (#[trigger] results[i]) is PortName implies port_instances(
            results,
        ).contains(results[i]->PortName_0) by {
            let found = results[i]->PortName_0;
            if i < rest.len() {
                assert(rest[i] == results[i]);
                let k = choose|k: int|
                    0 <= k < port_instances(rest).len() && port_instances(rest)[k] == found;
                assert(port_instances(results)[k] == found);
            } else {
                assert(port_instances(results).last() == found);
            }
        }
        if forall|i: int| 0 <= i < results.len() ==> (#[trigger] results[i]) is PortName {
            assert forall|i: int| 0 <= i < rest.len() implies (#[trigger] rest[i]) is PortName by {
                assert(results[i] is PortName);
            }
            assert(results[results.len() - 1] is PortName);
        }
    }
}

/// What makes groups, port names and addresses equal: the same full names, and the same kind of
/// address with the same text.
pub proof fn law_equal_names(
    a: ServiceGroup,
    b: ServiceGroup,
    p: PortName,
    q: PortName,
    s: TransportType,
    t: TransportType,
)
    ensures
        a.eq_spec(&b) <==> a.spec_name() == b.spec_name() && a.spec_namespace().spec_name()
            == b.spec_namespace().spec_name(),
        p.eq_spec(&q) <==> p.spec_name() == q.spec_name() && p.spec_servicegroup().eq_spec(
            &q.spec_servicegroup(),
        ),
        s.eq_spec(&t) <==> (s is Nats && t is Nats && s->Nats_0@ == t->Nats_0@) || (s is Http
            && t is Http && s->Http_0@ == t->Http_0@) || (s is Tcp && t is Tcp && s->Tcp_0@
            == t->Tcp_0@),
{
}

/// A group hands out what it was made of, and a new instance is announced like any other, under some
/// identifier.
pub proof fn law_group_and_new_instance(
    group: &ServiceGroup,
    labels: &Vec<(String, String)>,
    portname: &PortName,
    offered_by: &ServiceGroup,
    id: crate::protocols::PortNameId,
    spec: DiscoverySpec,
)
    requires
        call_ensures(ServiceGroup::labels, (group,), labels),
        call_ensures(PortName::servicegroup, (portname,), offered_by),
        call_ensures(PortName::protocol_id, (portname,), id),
        call_ensures(PortName::register_port_instance, (portname,), spec),
    ensures
        labels@ == group.spec_labels(),
        offered_by.spec_name() == id.servicegroup@,
        offered_by.spec_namespace().spec_name() == id.namespace@,
        spec->namespace@ == id.namespace@,
        spec->servicegroup@ == id.servicegroup@,
        spec->portname@ == id.name@,
        spec->transport is Nats,
        exists|instance_id: u64|
            spec->transport->Nats_0@ == #[trigger] subject_of(id@, instance_id),
{
    let instance_id = choose|instance_id: u64|
        announces_subject(spec, portname.spec_id(), instance_id);
    assert(spec->transport->Nats_0@ == subject_of(id@, instance_id));
}

} // verus!

//! How a service group is registered as a service.

use vstd::prelude::*;
use vstd::string::*;

use crate::servicegroup::ServiceGroup;
use crate::slug::slug_of;

verus! {

/// The name of the project.
pub const PROJECT_NAME: &'static str = "Pagoda";

/// The version under which services are registered.
pub const SERVICE_VERSION: &'static str = "0.1.0";

/// What is said of a service group of which nothing else is said.
pub open spec fn described(name: Seq<char>, namespace: Seq<char>) -> Seq<char> {
    PROJECT_NAME@ + " servicegroup "@ + name + " in namespace "@ + namespace
}

/// Describes the service group `name` in `namespace`.
pub fn describe(name: &str, namespace: &str) -> (text: String)
    ensures
        text@ == described(name@, namespace@),
{
    let mut text = PROJECT_NAME.to_owned();
    text.append(" servicegroup ");
    text.append(name);
    text.append(" in namespace ");
    text.append(namespace);
    text
}

/// What is said of a service group of which nothing else is said. Its namespace goes by its own
/// name.
pub fn default_service_description(servicegroup: &ServiceGroup) -> (text: String)
    ensures
        text@ == described(
            servicegroup.spec_name(),
            servicegroup.spec_namespace().spec_own_name(),
        ),
{
    describe(servicegroup.name(), servicegroup.namespace().to_string().as_str())
}

/// What is said of a service group: the given text, else the default one.
pub fn resolve_service_description(
    servicegroup: &ServiceGroup,
    override_desc: Option<String>,
) -> (text: String)
    ensures
        match override_desc {
            Some(given) => text == given,
            None => text@ == described(
                servicegroup.spec_name(),
                servicegroup.spec_namespace().spec_own_name(),
            ),
        },
{
    match override_desc {
        Some(given) => given,
        None => default_service_description(servicegroup),
    }
}

/// A service as it is registered.
pub struct ServiceRegistration {
    pub name: String,
    pub description: String,
    pub version: String,
}

/// How `servicegroup` is registered as a service.
pub fn build_nats_service(servicegroup: &ServiceGroup, description: Option<String>) -> (service:
    ServiceRegistration)
    ensures
        service.name@ == slug_of(servicegroup.spec_path()),
        match description {
            Some(given) => service.description == given,
            None => service.description@ == described(
                servicegroup.spec_name(),
                servicegroup.spec_namespace().spec_own_name(),
            ),
        },
        service.version@ == SERVICE_VERSION@,
{
    ServiceRegistration {
        name: servicegroup.service_name(),
        description: resolve_service_description(servicegroup, description),
        version: SERVICE_VERSION.to_owned(),
    }
}

/// A service is registered under the name of its group, with the given description or else with one
/// that names the group and the own name of its namespace.
pub proof fn law_registered_service(
    group: &ServiceGroup,
    given: String,
    described_service: ServiceRegistration,
    service: ServiceRegistration,
    service_name: String,
    name: &str,
    own: &str,
    resolved: String,
    usual: String,
)
    requires
        call_ensures(build_nats_service, (group, Some(given)), described_service),
        call_ensures(build_nats_service, (group, None::<String>), service),
        call_ensures(ServiceGroup::service_name, (group,), service_name),
        call_ensures(ServiceGroup::name, (group,), name),
        own@ == group.spec_namespace().spec_own_name(),
        call_ensures(resolve_service_description, (group, None::<String>), resolved),
        call_ensures(default_service_description, (group,), usual),
    ensures
        described_service.name@ == service_name@ && service.name@ == service_name@,
        described_service.description@ == given@,
        service.description@ == "Pagoda"@ + " servicegroup "@ + name@ + " in namespace "@ + own@,
        resolved@ == service.description@,
        usual@ == service.description@,
        described_service.version@ == "0.1.0"@ && service.version@ == "0.1.0"@,
{
}

} // verus!

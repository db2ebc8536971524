//! Identities under which service instances are announced.

use vstd::prelude::*;

use crate::dict::DictKey;
use crate::servicegroup::{DeviceType, Instance, TransportType};
use crate::text::same_text;

verus! {

/// The full identity of one instance of a port name.
#[derive(Debug)]
pub struct PortNameInstanceId {
    pub namespace: String,
    pub servicegroup: String,
    pub portname: String,
    pub instance_id: u64,
}

/// The view of a [`PortNameInstanceId`].
pub ghost struct InstanceKey {
    pub namespace: Seq<char>,
    pub servicegroup: Seq<char>,
    pub portname: Seq<char>,
    pub instance_id: u64,
}

impl View for PortNameInstanceId {
    type V = InstanceKey;

    open spec fn view(&self) -> InstanceKey {
        InstanceKey {
            namespace: self.namespace@,
            servicegroup: self.servicegroup@,
            portname: self.portname@,
            instance_id: self.instance_id,
        }
    }
}

impl Clone for PortNameInstanceId {
    fn clone(&self) -> (copy: Self)
        ensures
            copy == *self,
    {
        PortNameInstanceId {
            namespace: self.namespace.clone(),
            servicegroup: self.servicegroup.clone(),
            portname: self.portname.clone(),
            instance_id: self.instance_id,
        }
    }
}

impl DictKey for PortNameInstanceId {
    fn same_key(&self, other: &Self) -> (same: bool) {
        self.instance_id == other.instance_id && same_text(
            self.portname.as_str(),
            other.portname.as_str(),
        ) && same_text(self.servicegroup.as_str(), other.servicegroup.as_str()) && same_text(
            self.namespace.as_str(),
            other.namespace.as_str(),
        )
    }

    fn copy_key(&self) -> (copy: Self) {
        self.clone()
    }
}

/// Something that discovery knows of.
#[derive(Debug)]
pub enum DiscoveryInstance {
    /// An instance of a port name.
    PortName(Instance),
    /// A model, by its name.
    Model(String),
}

impl Clone for DiscoveryInstance {
    fn clone(&self) -> (copy: Self)
        ensures
            copy == *self,
    {
        match self {
            DiscoveryInstance::PortName(instance) => DiscoveryInstance::PortName(instance.clone()),
            DiscoveryInstance::Model(name) => DiscoveryInstance::Model(name.clone()),
        }
    }
}

/// The identity of something that discovery knows of.
#[derive(Debug)]
pub enum DiscoveryInstanceId {
    /// An instance of a port name.
    PortName(PortNameInstanceId),
    /// A model, by its name.
    Model(String),
}

impl Clone for DiscoveryInstanceId {
    fn clone(&self) -> (copy: Self)
        ensures
            copy == *self,
    {
        match self {
            DiscoveryInstanceId::PortName(id) => DiscoveryInstanceId::PortName(id.clone()),
            DiscoveryInstanceId::Model(name) => DiscoveryInstanceId::Model(name.clone()),
        }
    }
}

/// A change of what discovery knows of.
#[derive(Debug)]
pub enum DiscoveryEvent {
    Added(DiscoveryInstance),
    Removed(DiscoveryInstanceId),
}

impl Clone for DiscoveryEvent {
    fn clone(&self) -> (copy: Self)
        ensures
            copy == *self,
    {
        match self {
            DiscoveryEvent::Added(instance) => DiscoveryEvent::Added(instance.clone()),
            DiscoveryEvent::Removed(id) => DiscoveryEvent::Removed(id.clone()),
        }
    }
}

/// What discovery can be asked for.
#[derive(Debug, Clone)]
pub enum DiscoveryQuery {
    /// The port names of a service group.
    ServiceGroupPortNames { namespace: String, servicegroup: String },
    /// The instances of a port name.
    PortName { namespace: String, servicegroup: String, portname: String },
}

/// What can be announced to discovery.
#[derive(Debug, Clone)]
pub enum DiscoverySpec {
    /// An instance of a port name.
    PortName {
        namespace: String,
        servicegroup: String,
        portname: String,
        transport: TransportType,
        device_type: Option<DeviceType>,
    },
}

} // verus!

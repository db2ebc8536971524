//! How a port name is brought into service: what it runs on, where it is reached, and in which
//! order it is registered.

use vstd::prelude::*;
use vstd::string::*;

use serde_json::Value;

use crate::dict::Dict;
use crate::discovery::{DiscoveryInstance, DiscoverySpec};
use crate::pipeline::tcp::server::{host_port, write_host_port};
use crate::protocols::PortNameId;
use crate::servicegroup::{DeviceType, Instance, PortName, TransportType};
use crate::system_health::{HealthCheckTarget, SystemHealth};
use crate::text::{
    concat2, lower_hex, normalize, normalized, parse_u16, same_text, to_lower_hex, unsigned_value,
};
use crate::transports::{instance_subject, subject_of};

use std::sync::Arc;

verus! {

/// What an environment variable says about devices.
#[derive(Debug, Clone, Copy, PartialEq, Eq, Structural)]
pub enum DeviceVisibility {
    /// Devices may be used.
    GpuAllowed,
    /// Devices are switched off.
    GpuForciblyDisabled,
}

/// Whether the value of an environment variable switches devices off: `none` and `void` do, and so
/// do no value and `-1` where `empty_disables` says so. Case and surrounding white space do not
/// count.
pub open spec fn disables_devices(raw: Option<Seq<char>>, empty_disables: bool) -> bool {
    match raw {
        None => false,
        Some(s) => {
            ||| normalized(s) == "none"@
            ||| normalized(s) == "void"@
            ||| empty_disables && (normalized(s) == ""@ || normalized(s) == "-1"@)
        },
    }
}

/// The view of an optional text.
pub open spec fn text_view(s: Option<&str>) -> Option<Seq<char>> {
    match s {
        Some(text) => Some(text@),
        None => None,
    }
}

/// What the value of an environment variable says about devices.
pub fn read_visibility_env(raw: Option<&str>, treat_empty_as_disabled: bool) -> (visibility:
    DeviceVisibility)
    ensures
        visibility == if disables_devices(text_view(raw), treat_empty_as_disabled) {
            DeviceVisibility::GpuForciblyDisabled
        } else {
            DeviceVisibility::GpuAllowed
        },
{
    let lower = match raw {
        Some(value) => normalize(value),
        None => {
            return DeviceVisibility::GpuAllowed;
        },
    };
    let text = lower.as_str();
    let disabled = if same_text(text, "") || same_text(text, "-1") {
        proof {
            reveal_strlit("");
            reveal_strlit("-1");
            reveal_strlit("none");
            reveal_strlit("void");
            assert(""@.len() == 0 && "-1"@.len() == 2);
            assert("none"@.len() == 4 && "void"@.len() == 4);
        }
        treat_empty_as_disabled
    } else {
        same_text(text, "none") || same_text(text, "void")
    };
    if disabled {
        DeviceVisibility::GpuForciblyDisabled
    } else {
        DeviceVisibility::GpuAllowed
    }
}

/// What an instance runs on, by the values of `CUDA_VISIBLE_DEVICES` and `NVIDIA_VISIBLE_DEVICES`:
/// a device, unless either of them switches devices off. An empty value or `-1` does so in the
/// first, not in the second.
pub fn portname_device_type(cuda: Option<&str>, nvidia: Option<&str>) -> (device: Option<
    DeviceType,
>)
    ensures
        device == Some(
            if disables_devices(text_view(cuda), true) || disables_devices(
                text_view(nvidia),
                false,
            ) {
                DeviceType::Cpu
            } else {
                DeviceType::Cuda
            },
        ),
{
    if read_visibility_env(cuda, true) == DeviceVisibility::GpuForciblyDisabled {
        return Some(DeviceType::Cpu);
    }
    if read_visibility_env(nvidia, false) == DeviceVisibility::GpuForciblyDisabled {
        return Some(DeviceType::Cpu);
    }
    Some(DeviceType::Cuda)
}

/// The port that an environment variable fixes: a 16-bit number other than zero.
pub open spec fn fixed_port(raw: Option<Seq<char>>) -> Option<u16> {
    match raw {
        Some(s) => match unsigned_value(s, u16::MAX as nat) {
            Some(n) => if n != 0 {
                Some(n as u16)
            } else {
                None
            },
            None => None,
        },
        None => None,
    }
}

/// The port that an environment variable fixes.
pub fn fixed_port_from_env(raw: Option<&str>) -> (port: Option<u16>)
    ensures
        port == fixed_port(text_view(raw)),
{
    match raw {
        Some(value) => match parse_u16(value) {
            Some(port) => if port != 0 {
                Some(port)
            } else {
                None
            },
            None => None,
        },
        None => None,
    }
}

/// How requests reach instances.
#[derive(Debug, Clone, Copy, PartialEq, Eq, Structural)]
pub enum RequestPlaneMode {
    Tcp,
    Http,
    Nats,
}

/// What the addresses of instances are made of.
pub struct RequestPlane {
    /// The host of the TCP server.
    pub tcp_host: String,
    /// The value of `PGD_TCP_RPC_PORT`.
    pub tcp_port: Option<String>,
    /// The port that the TCP server is bound to, or why it is not known.
    pub bound_tcp_port: Result<u16, String>,
    /// The host of the HTTP server.
    pub http_host: String,
    /// The value of `PGD_HTTP_RPC_PORT`.
    pub http_port: Option<String>,
    /// The port that the HTTP server is bound to, or why it is not known.
    pub bound_http_port: Result<u16, String>,
    /// The value of `PGD_HTTP_RPC_ROOT_PATH`.
    pub http_root_path: Option<String>,
}

/// The port that is fixed, else the one that was bound.
pub open spec fn resolved_port(
    fixed: Option<String>,
    bound: Result<u16, String>,
) -> Result<u16, String> {
    let raw = match fixed {
        Some(text) => Some(text@),
        None => None,
    };
    match fixed_port(raw) {
        Some(port) => Ok(port),
        None => bound,
    }
}

fn resolve_port(fixed: &Option<String>, bound: &Result<u16, String>) -> (port: Result<u16, String>)
    ensures
        port == resolved_port(*fixed, *bound),
{
    let found: Option<u16> = match fixed {
        Some(text) => fixed_port_from_env(Some(text.as_str())),
        None => None,
    };
    match found {
        Some(port) => Ok(port),
        None => match bound {
            Ok(port) => Ok(*port),
            Err(text) => Err(text.clone()),
        },
    }
}

impl RequestPlane {
    /// The port of the TCP server.
    pub open spec fn spec_tcp_port(&self) -> Result<u16, String> {
        resolved_port(self.tcp_port, self.bound_tcp_port)
    }

    /// The port of the HTTP server.
    pub open spec fn spec_http_port(&self) -> Result<u16, String> {
        resolved_port(self.http_port, self.bound_http_port)
    }

    /// The path under which the HTTP server serves port names.
    pub open spec fn spec_http_root(&self) -> Seq<char> {
        match self.http_root_path {
            Some(root) => root@,
            None => "/v1/rpc"@,
        }
    }

    /// Whether the address is known before the server is bound.
    pub open spec fn spec_fixed(&self, mode: RequestPlaneMode) -> bool {
        match mode {
            RequestPlaneMode::Tcp => fixed_port(optional_view(self.tcp_port)) is Some,
            RequestPlaneMode::Http => fixed_port(optional_view(self.http_port)) is Some,
            RequestPlaneMode::Nats => true,
        }
    }

    /// Whether `transport` is where the instance of the port name is reached.
    pub open spec fn reaches(
        &self,
        mode: RequestPlaneMode,
        id: (Seq<char>, Seq<char>, Seq<char>),
        instance_id: u64,
        transport: Result<TransportType, String>,
    ) -> bool {
        match mode {
            RequestPlaneMode::Http => match self.spec_http_port() {
                Err(text) => transport == Err::<TransportType, String>(text),
                Ok(port) => transport is Ok && transport->Ok_0 is Http
                    && transport->Ok_0->Http_0@ == "http://"@ + host_port(self.http_host@, port)
                    + self.spec_http_root() + "/"@ + id.2,
            },
            RequestPlaneMode::Tcp => match self.spec_tcp_port() {
                Err(text) => transport == Err::<TransportType, String>(text),
                Ok(port) => transport is Ok && transport->Ok_0 is Tcp && transport->Ok_0->Tcp_0@
                    == host_port(self.tcp_host@, port) + "/"@ + lower_hex(instance_id as nat) + "/"@
                    + id.2,
            },
            RequestPlaneMode::Nats => transport is Ok && transport->Ok_0 is Nats
                && transport->Ok_0->Nats_0@ == subject_of(id, instance_id),
        }
    }
}

/// The view of an optional text.
pub open spec fn optional_view(s: Option<String>) -> Option<Seq<char>> {
    match s {
        Some(text) => Some(text@),
        None => None,
    }
}

/// The port of the TCP server.
pub fn resolved_tcp_port(plane: &RequestPlane) -> (port: Result<u16, String>)
    ensures
        port == plane.spec_tcp_port(),
{
    resolve_port(&plane.tcp_port, &plane.bound_tcp_port)
}

/// The port of the HTTP server.
pub fn resolved_http_port(plane: &RequestPlane) -> (port: Result<u16, String>)
    ensures
        port == plane.spec_http_port(),
{
    resolve_port(&plane.http_port, &plane.bound_http_port)
}

/// Where a port name is reached over HTTP.
pub fn compose_http_transport(plane: &RequestPlane, portname_name: &str) -> (transport: Result<
    TransportType,
    String,
>)
    ensures
        match plane.spec_http_port() {
            Err(text) => transport == Err::<TransportType, String>(text),
            Ok(port) => transport is Ok && transport->Ok_0 is Http && transport->Ok_0->Http_0@
                == "http://"@ + host_port(plane.http_host@, port) + plane.spec_http_root() + "/"@
                + portname_name@,
        },
{
    match resolved_http_port(plane) {
        Err(text) => Err(text),
        Ok(port) => {
            let mut url = concat2(
                "http://",
                write_host_port(plane.http_host.as_str(), port).as_str(),
            );
            match &plane.http_root_path {
                Some(root) => {
                    url.append(root.as_str());
                },
                None => {
                    url.append("/v1/rpc");
                },
            }
            url.append("/");
            url.append(portname_name);
            Ok(TransportType::Http(url))
        },
    }
}

/// Where an instance of a port name is reached over TCP. The identifier of the instance keeps
/// apart those that share a server.
pub fn compose_tcp_transport(
    plane: &RequestPlane,
    portname_name: &str,
    instance_id: u64,
) -> (transport: Result<TransportType, String>)
    ensures
        match plane.spec_tcp_port() {
            Err(text) => transport == Err::<TransportType, String>(text),
            Ok(port) => transport is Ok && transport->Ok_0 is Tcp && transport->Ok_0->Tcp_0@
                == host_port(plane.tcp_host@, port) + "/"@ + lower_hex(instance_id as nat) + "/"@
                + portname_name@,
        },
{
    match resolved_tcp_port(plane) {
        Err(text) => Err(text),
        Ok(port) => {
            let mut address = write_host_port(plane.tcp_host.as_str(), port);
            address.append("/");
            address.append(to_lower_hex(instance_id).as_str());
            address.append("/");
            address.append(portname_name);
            Ok(TransportType::Tcp(address))
        },
    }
}

/// Where an instance of a port name is reached over a subject.
pub fn compose_nats_transport(portname_id: &PortNameId, instance_id: u64) -> (transport:
    TransportType)
    ensures
        transport is Nats,
        transport->Nats_0@ == subject_of(portname_id@, instance_id),
{
    TransportType::Nats(instance_subject(portname_id, instance_id))
}

/// Whether the address is known before the server is bound: over a subject always, else where the
/// port is fixed.
pub fn transport_mode_has_fixed_addressing(mode: RequestPlaneMode, plane: &RequestPlane) -> (fixed:
    bool)
    ensures
        fixed == plane.spec_fixed(mode),
{
    match mode {
        RequestPlaneMode::Tcp => match &plane.tcp_port {
            Some(text) => fixed_port_from_env(Some(text.as_str())).is_some(),
            None => false,
        },
        RequestPlaneMode::Http => match &plane.http_port {
            Some(text) => fixed_port_from_env(Some(text.as_str())).is_some(),
            None => false,
        },
        RequestPlaneMode::Nats => true,
    }
}

/// Where an instance of a port name is reached.
pub fn compose_transport_for_mode(
    mode: RequestPlaneMode,
    plane: &RequestPlane,
    portname_id: &PortNameId,
    instance_id: u64,
) -> (transport: Result<TransportType, String>)
    ensures
        plane.reaches(mode, portname_id@, instance_id, transport),
{
    match mode {
        RequestPlaneMode::Http => compose_http_transport(plane, portname_id.name.as_str()),
        RequestPlaneMode::Tcp => compose_tcp_transport(
            plane,
            portname_id.name.as_str(),
            instance_id,
        ),
        RequestPlaneMode::Nats => Ok(compose_nats_transport(portname_id, instance_id)),
    }
}

/// Where an instance of a port name is reached, once the server is bound where the address depends
/// on that. `bound` is the outcome of binding it, and only counts there.
pub fn build_transport_type(
    mode: RequestPlaneMode,
    plane: &RequestPlane,
    portname_id: &PortNameId,
    connection_id: u64,
    bound: Result<(), String>,
) -> (transport: Result<TransportType, String>)
    ensures
        if !plane.spec_fixed(mode) && bound is Err {
            transport == Err::<TransportType, String>(bound->Err_0)
        } else {
            plane.reaches(mode, portname_id@, connection_id, transport)
        },
{
    if !transport_mode_has_fixed_addressing(mode, plane) {
        if let Err(text) = bound {
            return Err(text);
        }
    }
    compose_transport_for_mode(mode, plane, portname_id, connection_id)
}

/// An address that is known before the server is bound is the one that is used afterwards: what
/// the server is bound to makes no difference to it.
pub proof fn law_fixed_address_does_not_move(
    before: RequestPlane,
    after: RequestPlane,
    mode: RequestPlaneMode,
    id: (Seq<char>, Seq<char>, Seq<char>),
    instance_id: u64,
    transport: Result<TransportType, String>,
)
    requires
        before.spec_fixed(mode),
        before.tcp_host == after.tcp_host,
        before.tcp_port == after.tcp_port,
        before.http_host == after.http_host,
        before.http_port == after.http_port,
        before.http_root_path == after.http_root_path,
    ensures
        before.reaches(mode, id, instance_id, transport) == after.reaches(
            mode,
            id,
            instance_id,
            transport,
        ),
        before.reaches(mode, id, instance_id, transport) ==> transport is Ok,
{
}

/// What a port name is brought into service with. `H` handles its requests.
pub struct PortNameConfig<H> {
    pub portname: Arc<PortName>,
    pub handler: H,
    /// Labels for the metrics of the handler.
    pub metrics_labels: Option<Vec<(String, String)>>,
    /// Whether a shutdown waits for requests that are being worked on.
    pub graceful_shutdown: bool,
    /// What health checks send, if there are to be any.
    pub health_check_payload: Option<Value>,
}

/// Collects a [`PortNameConfig`].
pub struct PortNameConfigBuilder<H> {
    portname: Option<Arc<PortName>>,
    handler: Option<H>,
    metrics_labels: Option<Option<Vec<(String, String)>>>,
    graceful_shutdown: Option<bool>,
    health_check_payload: Option<Value>,
}

/// What a [`PortNameConfigBuilder`] has collected.
pub ghost struct ConfigSoFar<H> {
    pub portname: Option<Arc<PortName>>,
    pub handler: Option<H>,
    pub metrics_labels: Option<Option<Vec<(String, String)>>>,
    pub graceful_shutdown: Option<bool>,
    pub health_check_payload: Option<Value>,
}

impl<H> View for PortNameConfigBuilder<H> {
    type V = ConfigSoFar<H>;

    closed spec fn view(&self) -> ConfigSoFar<H> {
        ConfigSoFar {
            portname: self.portname,
            handler: self.handler,
            metrics_labels: self.metrics_labels,
            graceful_shutdown: self.graceful_shutdown,
            health_check_payload: self.health_check_payload,
        }
    }
}

impl<H> Default for PortNameConfigBuilder<H> {
    fn default() -> (builder: Self)
        ensures
            builder@ == (ConfigSoFar::<H> {
                portname: None,
                handler: None,
                metrics_labels: None,
                graceful_shutdown: None,
                health_check_payload: None,
            }),
    {
        PortNameConfigBuilder {
            portname: None,
            handler: None,
            metrics_labels: None,
            graceful_shutdown: None,
            health_check_payload: None,
        }
    }
}

impl<H> PortNameConfigBuilder<H> {
    /// A builder for `portname`.
    pub fn from_portname(portname: Arc<PortName>) -> (builder: Self)
        ensures
            builder@ == (ConfigSoFar::<H> {
                portname: Some(portname),
                handler: None,
                metrics_labels: None,
                graceful_shutdown: None,
                health_check_payload: None,
            }),
    {
        PortNameConfigBuilder {
            portname: Some(portname),
            handler: None,
            metrics_labels: None,
            graceful_shutdown: None,
            health_check_payload: None,
        }
    }

    /// Sets what handles requests.
    pub fn handler(self, handler: H) -> (builder: Self)
        ensures
            builder@ == (ConfigSoFar { handler: Some(handler), ..self@ }),
    {
        PortNameConfigBuilder { handler: Some(handler), ..self }
    }

    /// Sets the labels for metrics.
    pub fn metrics_labels(self, labels: Option<Vec<(String, String)>>) -> (builder: Self)
        ensures
            builder@ == (ConfigSoFar { metrics_labels: Some(labels), ..self@ }),
    {
        PortNameConfigBuilder { metrics_labels: Some(labels), ..self }
    }

    /// Sets whether a shutdown waits for requests that are being worked on.
    pub fn graceful_shutdown(self, graceful: bool) -> (builder: Self)
        ensures
            builder@ == (ConfigSoFar { graceful_shutdown: Some(graceful), ..self@ }),
    {
        PortNameConfigBuilder { graceful_shutdown: Some(graceful), ..self }
    }

    /// Sets what health checks send.
    pub fn health_check_payload(self, payload: Value) -> (builder: Self)
        ensures
            builder@ == (ConfigSoFar { health_check_payload: Some(payload), ..self@ }),
    {
        PortNameConfigBuilder { health_check_payload: Some(payload), ..self }
    }

    /// Enters an engine under the name of the port name, so that this process can call it without
    /// going over the network. Without a port name nothing happens.
    pub fn register_local_engine<E>(self, registry: &mut Dict<String, E>, engine: E) -> (builder:
        Result<Self, String>)
        ensures
            builder == Ok::<Self, String>(self),
            final(registry)@ == match self@.portname {
                Some(portname) => old(registry)@.insert(portname.spec_name(), engine),
                None => old(registry)@,
            },
    {
        if let Some(portname) = &self.portname {
            registry.insert(portname.name().to_owned(), engine);
        }
        Ok(self)
    }

    /// The collected configuration. A port name and a handler are needed; a shutdown waits unless
    /// told otherwise.
    pub fn build_internal(self) -> (config: Result<PortNameConfig<H>, String>)
        ensures
            if self@.portname is None {
                config is Err && config->Err_0@ == "`portname` must be initialized"@
            } else if self@.handler is None {
                config is Err && config->Err_0@ == "`handler` must be initialized"@
            } else {
                config == Ok::<PortNameConfig<H>, String>(
                    PortNameConfig {
                        portname: self@.portname->Some_0,
                        handler: self@.handler->Some_0,
                        metrics_labels: match self@.metrics_labels {
                            Some(labels) => labels,
                            None => None,
                        },
                        graceful_shutdown: match self@.graceful_shutdown {
                            Some(graceful) => graceful,
                            None => true,
                        },
                        health_check_payload: self@.health_check_payload,
                    },
                )
            },
    {
        let portname = match self.portname {
            Some(portname) => portname,
            None => {
                return Err("`portname` must be initialized".to_owned());
            },
        };
        let handler = match self.handler {
            Some(handler) => handler,
            None => {
                return Err("`handler` must be initialized".to_owned());
            },
        };
        let metrics_labels = match self.metrics_labels {
            Some(labels) => labels,
            None => None,
        };
        let graceful_shutdown = match self.graceful_shutdown {
            Some(graceful) => graceful,
            None => true,
        };
        Ok(
            PortNameConfig {
                portname,
                handler,
                metrics_labels,
                graceful_shutdown,
                health_check_payload: self.health_check_payload,
            },
        )
    }
}

/// Why a health check cannot work: it would have to go through an endpoint that is only announced
/// once the check succeeded.
pub open spec fn missing_engine_text(name: Seq<char>) -> Seq<char> {
    "PortName '"@ + name
        + "' has a health_check_payload and canary is enabled, but no local engine is registered. Call .register_local_engine() before .start() so the canary health check can function."@
}

/// Gives a port name its health check, where there is a payload to send. With health checks switched
/// on, an engine has to be registered for it. The result is the name to announce to whoever runs
/// health checks, if it is new, and what wakes the check.
pub fn wire_health_check_target<N, R, G, E>(
    portname: &PortName,
    connection_id: u64,
    system_health: &mut SystemHealth<N, R, G>,
    local_engines: &Dict<String, E>,
    payload: Option<Value>,
    transport: Result<TransportType, String>,
    device_type: Option<DeviceType>,
    topology: Value,
    notifier: N,
) -> (wired: Result<Option<(Option<String>, Arc<N>)>, String>)
    requires
        old(system_health).wf(),
    ensures
        final(system_health).wf(),
        match payload {
            None => wired == Ok::<Option<(Option<String>, Arc<N>)>, String>(None)
                && *final(system_health) == *old(system_health),
            Some(payload) => {
                let name = portname.spec_name();
                if old(system_health)@.checked && !local_engines@.contains_key(name) {
                    &&& wired is Err
                    &&& wired->Err_0@ == missing_engine_text(name)
                    &&& *final(system_health) == *old(system_health)
                } else if transport is Err {
                    &&& wired == Err::<Option<(Option<String>, Arc<N>)>, String>(
                        transport->Err_0,
                    )
                    &&& *final(system_health) == *old(system_health)
                } else {
                    &&& wired is Ok
                    &&& wired->Ok_0 is Some
                    &&& wired->Ok_0->Some_0.1 == final(system_health).spec_notifiers()[name]
                    &&& final(system_health).spec_notifiers() == if old(
                        system_health,
                    ).spec_notifiers().contains_key(name) {
                        old(system_health).spec_notifiers()
                    } else {
                        old(system_health).spec_notifiers().insert(name, Arc::new(notifier))
                    }
                    &&& final(system_health).same_setup(old(system_health))
                    &&& wired->Ok_0->Some_0.0 is Some == !old(
                        system_health,
                    )@.targets.contains_key(name)
                    &&& wired->Ok_0->Some_0.0 is Some ==> wired->Ok_0->Some_0.0->Some_0@ == name
                    &&& if old(system_health)@.targets.contains_key(name) {
                        final(system_health)@ == old(system_health)@
                    } else {
                        exists|target: HealthCheckTarget|
                            {
                                &&& final(system_health)@ == #[trigger] old(
                                    system_health,
                                )@.with_target(name, Arc::new(target))
                                &&& target.payload == payload
                                &&& target.instance.namespace@ == portname.spec_id().0
                                &&& target.instance.servicegroup@ == portname.spec_id().1
                                &&& target.instance.portname@ == name
                                &&& target.instance.instance_id == connection_id
                                &&& target.instance.transport == transport->Ok_0
                                &&& target.instance.device_type == device_type
                                &&& target.instance.topo_json == topology
                            }
                    }
                }
            },
        },
{
    let payload = match payload {
        Some(payload) => payload,
        None => {
            return Ok(None);
        },
    };
    let name = portname.name().to_owned();
    if system_health.health_check_enabled() && !local_engines.contains(&name) {
        let mut text = concat2("PortName '", name.as_str());
        text.append(
            "' has a health_check_payload and canary is enabled, but no local engine is registered. Call .register_local_engine() before .start() so the canary health check can function.",
        );
        return Err(text);
    }
    let transport = match transport {
        Ok(transport) => transport,
        Err(text) => {
            return Err(text);
        },
    };
    let id = portname.protocol_id();
    let instance = Instance {
        namespace: id.namespace,
        servicegroup: id.servicegroup,
        portname: id.name,
        instance_id: connection_id,
        transport,
        device_type,
        topo_json: topology,
    };
    let ghost target = HealthCheckTarget { instance, payload };
    let announced = system_health.register_health_check_target(
        name.as_str(),
        instance,
        payload,
        notifier,
    );
    match system_health.get_endpoint_health_check_notifier(name.as_str()) {
        Some(notifier) => Ok(Some((announced, notifier))),
        None => Ok(None),
    }
}

impl PortName {
    /// A builder of what the port name is brought into service with.
    pub fn portname_builder<H>(self: &Arc<Self>) -> (builder: PortNameConfigBuilder<H>)
        ensures
            builder@ == (ConfigSoFar::<H> {
                portname: Some(*self),
                handler: None,
                metrics_labels: None,
                graceful_shutdown: None,
                health_check_payload: None,
            }),
    {
        PortNameConfigBuilder::from_portname(self.clone())
    }

    /// What announces the running instance of a port name.
    pub fn register_portname_instance(
        &self,
        transport: Result<TransportType, String>,
        device_type: Option<DeviceType>,
    ) -> (spec: Result<DiscoverySpec, String>)
        ensures
            match transport {
                Err(text) => spec == Err::<DiscoverySpec, String>(text),
                Ok(transport) => spec is Ok && ({
                    let made = spec->Ok_0;
                    &&& made->namespace@ == self.spec_id().0
                    &&& made->servicegroup@ == self.spec_id().1
                    &&& made->portname@ == self.spec_id().2
                    &&& made->transport == transport
                    &&& made->device_type == device_type
                }),
            },
    {
        match transport {
            Err(text) => Err(text),
            Ok(transport) => {
                let id = self.protocol_id();
                Ok(
                    DiscoverySpec::PortName {
                        namespace: id.namespace,
                        servicegroup: id.servicegroup,
                        portname: id.name,
                        transport,
                        device_type,
                    },
                )
            },
        }
    }

    /// What takes the running instance of a port name out of discovery.
    pub fn unregister_portname_instance(
        &self,
        instance_id: u64,
        transport: Result<TransportType, String>,
        device_type: Option<DeviceType>,
        topology: Value,
    ) -> (instance: Result<DiscoveryInstance, String>)
        ensures
            match transport {
                Err(text) => instance == Err::<DiscoveryInstance, String>(text),
                Ok(transport) => instance is Ok && instance->Ok_0 is PortName && ({
                    let made = instance->Ok_0->PortName_0;
                    &&& made.namespace@ == self.spec_id().0
                    &&& made.servicegroup@ == self.spec_id().1
                    &&& made.portname@ == self.spec_id().2
                    &&& made.instance_id == instance_id
                    &&& made.transport == transport
                    &&& made.device_type == device_type
                    &&& made.topo_json == topology
                }),
            },
    {
        match transport {
            Err(text) => Err(text),
            Ok(transport) => {
                let id = self.protocol_id();
                Ok(
                    DiscoveryInstance::PortName(
                        Instance {
                            namespace: id.namespace,
                            servicegroup: id.servicegroup,
                            portname: id.name,
                            instance_id,
                            transport,
                            device_type,
                            topo_json: topology,
                        },
                    ),
                )
            },
        }
    }
}

/// The outcome of taking an instance out of discovery, or of entering it again.
pub fn discovery_outcome(registering: bool, done: Result<(), String>) -> (outcome: Result<
    (),
    String,
>)
    ensures
        outcome is Ok == done is Ok,
        outcome is Err ==> outcome->Err_0@ == if registering {
            "Unable to re-register portname instance to discovery. Check discovery service status"@
        } else {
            "Unable to unregister portname instance from discovery. Check discovery service status"@
        },
{
    match done {
        Ok(()) => Ok(()),
        Err(_) => if registering {
            Err(
                "Unable to re-register portname instance to discovery. Check discovery service status".to_owned(),
            )
        } else {
            Err(
                "Unable to unregister portname instance from discovery. Check discovery service status".to_owned(),
            )
        },
    }
}

/// Why a port name could not be brought into service.
pub enum StartError {
    /// A step failed.
    Failed(String),
    /// The instance could not be announced.
    Unannounced,
}

impl StartError {
    /// The error in words.
    pub fn to_string(&self) -> (text: String)
        ensures
            match *self {
                StartError::Failed(reason) => text == reason,
                StartError::Unannounced => text@
                    == "Unable to register service for discovery. Check discovery service status"@,
            },
    {
        match self {
            StartError::Failed(reason) => reason.clone(),
            StartError::Unannounced => "Unable to register service for discovery. Check discovery service status".to_owned(),
        }
    }
}

/// A step in bringing a port name into service.
pub enum StartStep {
    /// Attach metrics to the handler.
    AttachMetrics,
    /// Count the port name among those that a graceful shutdown waits for.
    TrackShutdown,
    /// Get the server that requests come in on.
    AcquireServer,
    /// Give the port name its health check.
    WireHealthCheck,
    /// Register the handler with the server.
    RegisterHandler,
    /// Start the task that cleans up once it is cancelled.
    SpawnCleanup,
    /// Announce the instance to discovery.
    Announce,
    /// Cancel the cleanup task, after the announcement failed.
    CancelCleanup,
    /// Wait for the cleanup task.
    AwaitCleanup,
    /// Be done.
    Done(Result<(), StartError>),
}

/// What follows a step, given its outcome.
pub open spec fn start_after(
    step: StartStep,
    outcome: Result<(), String>,
    graceful: bool,
) -> StartStep {
    match step {
        StartStep::AttachMetrics => match outcome {
            Err(text) => StartStep::Done(Err(StartError::Failed(text))),
            Ok(_) => if graceful {
                StartStep::TrackShutdown
            } else {
                StartStep::AcquireServer
            },
        },
        StartStep::TrackShutdown => StartStep::AcquireServer,
        StartStep::AcquireServer => match outcome {
            Err(text) => StartStep::Done(Err(StartError::Failed(text))),
            Ok(_) => StartStep::WireHealthCheck,
        },
        StartStep::WireHealthCheck => match outcome {
            Err(text) => StartStep::Done(Err(StartError::Failed(text))),
            Ok(_) => StartStep::RegisterHandler,
        },
        StartStep::RegisterHandler => match outcome {
            Err(text) => StartStep::Done(Err(StartError::Failed(text))),
            Ok(_) => StartStep::SpawnCleanup,
        },
        StartStep::SpawnCleanup => StartStep::Announce,
        StartStep::Announce => match outcome {
            Err(_) => StartStep::CancelCleanup,
            Ok(_) => StartStep::AwaitCleanup,
        },
        StartStep::CancelCleanup => StartStep::Done(Err(StartError::Unannounced)),
        StartStep::AwaitCleanup => match outcome {
            Err(text) => StartStep::Done(Err(StartError::Failed(text))),
            Ok(_) => StartStep::Done(Ok(())),
        },
        StartStep::Done(result) => StartStep::Done(result),
    }
}

impl<H> PortNameConfigBuilder<H> {
    /// The collected configuration, and the first step in bringing the port name into service.
    pub fn start(self) -> (begun: Result<(PortNameConfig<H>, StartStep), String>)
        ensures
            if self@.portname is None {
                begun is Err && begun->Err_0@ == "`portname` must be initialized"@
            } else if self@.handler is None {
                begun is Err && begun->Err_0@ == "`handler` must be initialized"@
            } else {
                &&& begun is Ok
                &&& begun->Ok_0.1 is AttachMetrics
                &&& begun->Ok_0.0.portname == self@.portname->Some_0
                &&& begun->Ok_0.0.handler == self@.handler->Some_0
                &&& begun->Ok_0.0.metrics_labels == match self@.metrics_labels {
                    Some(labels) => labels,
                    None => None,
                }
                &&& begun->Ok_0.0.graceful_shutdown == match self@.graceful_shutdown {
                    Some(graceful) => graceful,
                    None => true,
                }
                &&& begun->Ok_0.0.health_check_payload == self@.health_check_payload
            },
    {
        match self.build_internal() {
            Ok(config) => Ok((config, StartStep::AttachMetrics)),
            Err(text) => Err(text),
        }
    }
}

/// The step that follows `step`, given its outcome.
pub fn next_start_step(step: StartStep, outcome: Result<(), String>, graceful: bool) -> (next:
    StartStep)
    ensures
        next == start_after(step, outcome, graceful),
{
    match step {
        StartStep::AttachMetrics => match outcome {
            Err(text) => StartStep::Done(Err(StartError::Failed(text))),
            Ok(()) => if graceful {
                StartStep::TrackShutdown
            } else {
                StartStep::AcquireServer
            },
        },
        StartStep::TrackShutdown => StartStep::AcquireServer,
        StartStep::AcquireServer => match outcome {
            Err(text) => StartStep::Done(Err(StartError::Failed(text))),
            Ok(()) => StartStep::WireHealthCheck,
        },
        StartStep::WireHealthCheck => match outcome {
            Err(text) => StartStep::Done(Err(StartError::Failed(text))),
            Ok(()) => StartStep::RegisterHandler,
        },
        StartStep::RegisterHandler => match outcome {
            Err(text) => StartStep::Done(Err(StartError::Failed(text))),
            Ok(()) => StartStep::SpawnCleanup,
        },
        StartStep::SpawnCleanup => StartStep::Announce,
        StartStep::Announce => match outcome {
            Err(_) => StartStep::CancelCleanup,
            Ok(()) => StartStep::AwaitCleanup,
        },
        StartStep::CancelCleanup => StartStep::Done(Err(StartError::Unannounced)),
        StartStep::AwaitCleanup => match outcome {
            Err(text) => StartStep::Done(Err(StartError::Failed(text))),
            Ok(()) => StartStep::Done(Ok(())),
        },
        StartStep::Done(result) => StartStep::Done(result),
    }
}

/// A run of steps with their outcomes, from the first on.
pub open spec fn is_start_run(
    steps: Seq<StartStep>,
    outcomes: Seq<Result<(), String>>,
    graceful: bool,
) -> bool {
    &&& steps.len() == outcomes.len()
    &&& steps.len() > 0
    &&& steps[0] is AttachMetrics
    &&& forall|i: int|
        0 <= i < steps.len() - 1 ==> steps[i + 1] == start_after(
            #[trigger] steps[i],
            outcomes[i],
            graceful,
        )
}

/// How far a step is on the way.
pub open spec fn start_rank(step: StartStep) -> int {
    match step {
        StartStep::AttachMetrics => 0,
        StartStep::TrackShutdown => 1,
        StartStep::AcquireServer => 2,
        StartStep::WireHealthCheck => 3,
        StartStep::RegisterHandler => 4,
        StartStep::SpawnCleanup => 5,
        StartStep::Announce => 6,
        StartStep::CancelCleanup => 7,
        StartStep::AwaitCleanup => 7,
        StartStep::Done(_) => 8,
    }
}

/// An instance is only announced once its handler was registered and the cleanup task runs: the
/// three steps before an announcement are the registration of the handler, which succeeded, and
/// the start of the task.
pub proof fn law_announced_after_registered(
    steps: Seq<StartStep>,
    outcomes: Seq<Result<(), String>>,
    graceful: bool,
    i: int,
)
    requires
        is_start_run(steps, outcomes, graceful),
        0 <= i < steps.len(),
        steps[i] is Announce,
    ensures
        i >= 3,
        steps[i - 1] is SpawnCleanup,
        steps[i - 2] is RegisterHandler,
        outcomes[i - 2] is Ok,
        steps[i - 3] is WireHealthCheck,
        outcomes[i - 3] is Ok,
{
    assert(steps[i - 1 + 1] == start_after(steps[i - 1], outcomes[i - 1], graceful));
    assert(i >= 2);
    assert(steps[i - 2 + 1] == start_after(steps[i - 2], outcomes[i - 2], graceful));
    assert(i >= 3);
    assert(steps[i - 3 + 1] == start_after(steps[i - 3], outcomes[i - 3], graceful));
}

/// The cleanup task is cancelled exactly after an announcement that failed, so that nothing stays
/// registered that nobody can find.
pub proof fn law_failed_announcement_cancels(
    steps: Seq<StartStep>,
    outcomes: Seq<Result<(), String>>,
    graceful: bool,
    i: int,
)
    requires
        is_start_run(steps, outcomes, graceful),
        0 < i < steps.len(),
    ensures
        steps[i] is CancelCleanup == (steps[i - 1] is Announce && outcomes[i - 1] is Err),
{
    assert(steps[i - 1 + 1] == start_after(steps[i - 1], outcomes[i - 1], graceful));
}

/// A run gets ahead with every step, so that it is done after at most nine of them.
pub proof fn law_start_gets_done(
    steps: Seq<StartStep>,
    outcomes: Seq<Result<(), String>>,
    graceful: bool,
    i: int,
)
    requires
        is_start_run(steps, outcomes, graceful),
        0 <= i < steps.len(),
    ensures
        start_rank(steps[i]) >= i || steps[i] is Done,
    decreases i,
{
    if i > 0 {
        law_start_gets_done(steps, outcomes, graceful, i - 1);
        assert(steps[i - 1 + 1] == start_after(steps[i - 1], outcomes[i - 1], graceful));
    }
}

/// A run of steps in which each was chosen from the outcome of the one before.
pub open spec fn is_chosen_run(
    steps: Seq<StartStep>,
    outcomes: Seq<Result<(), String>>,
    graceful: bool,
) -> bool {
    &&& steps.len() == outcomes.len()
    &&& steps.len() > 0
    &&& steps[0] is AttachMetrics
    &&& forall|i: int|
        0 <= i < steps.len() - 1 ==> call_ensures(
            next_start_step,
            (#[trigger] steps[i], outcomes[i], graceful),
            steps[i + 1],
        )
}

/// Every instance is announced: whatever follows the start of the cleanup task is the announcement,
/// whether or not a shutdown waits for requests.
pub proof fn law_every_instance_is_announced(
    steps: Seq<StartStep>,
    outcomes: Seq<Result<(), String>>,
    graceful: bool,
    i: int,
)
    requires
        is_chosen_run(steps, outcomes, graceful),
        0 <= i < steps.len() - 1,
        steps[i] is SpawnCleanup,
    ensures
        steps[i + 1] is Announce,
{
    assert(call_ensures(next_start_step, (steps[i], outcomes[i], graceful), steps[i + 1]));
}

/// A port name that waits for its cleanup task was brought into service in full: its metrics were
/// attached, its server was acquired, its health check wired, its handler registered, its cleanup
/// task started and its instance announced, in this order, and each of these succeeded. It was
/// counted for the shutdown, right after its metrics were attached, exactly if a shutdown waits for
/// requests.
pub proof fn law_service_is_complete(
    steps: Seq<StartStep>,
    outcomes: Seq<Result<(), String>>,
    graceful: bool,
    n: int,
)
    requires
        is_chosen_run(steps, outcomes, graceful),
        0 <= n < steps.len(),
        steps[n] is AwaitCleanup,
    ensures
        n == if graceful {
            7int
        } else {
            6int
        },
        steps[0] is AttachMetrics && outcomes[0] is Ok,
        graceful ==> steps[1] is TrackShutdown,
        steps[n - 5] is AcquireServer && outcomes[n - 5] is Ok,
        steps[n - 4] is WireHealthCheck && outcomes[n - 4] is Ok,
        steps[n - 3] is RegisterHandler && outcomes[n - 3] is Ok,
        steps[n - 2] is SpawnCleanup,
        steps[n - 1] is Announce && outcomes[n - 1] is Ok,
{
    lemma_run_goes_by_rank(steps, outcomes, graceful, n);
    assert(n >= 1);
    assert(call_ensures(next_start_step, (steps[n - 1], outcomes[n - 1], graceful), steps[n - 1 + 1]));
    lemma_run_goes_by_rank(steps, outcomes, graceful, n - 1);
    assert(call_ensures(next_start_step, (steps[n - 2], outcomes[n - 2], graceful), steps[n - 2 + 1]));
    assert(call_ensures(next_start_step, (steps[n - 3], outcomes[n - 3], graceful), steps[n - 3 + 1]));
    assert(call_ensures(next_start_step, (steps[n - 4], outcomes[n - 4], graceful), steps[n - 4 + 1]));
    assert(call_ensures(next_start_step, (steps[n - 5], outcomes[n - 5], graceful), steps[n - 5 + 1]));
    lemma_run_goes_by_rank(steps, outcomes, graceful, n - 5);
    assert(call_ensures(next_start_step, (steps[n - 6], outcomes[n - 6], graceful), steps[n - 6 + 1]));
}

/// Which step comes at which place, as far as nothing has failed.
proof fn lemma_run_goes_by_rank(
    steps: Seq<StartStep>,
    outcomes: Seq<Result<(), String>>,
    graceful: bool,
    i: int,
)
    requires
        is_chosen_run(steps, outcomes, graceful),
        0 <= i < steps.len(),
    ensures
        steps[i] is Done || steps[i] is CancelCleanup || start_rank(steps[i]) == i + if graceful
            || i == 0 {
            0int
        } else {
            1int
        },
        steps[i] is CancelCleanup ==> i == if graceful {
            7int
        } else {
            6int
        },
    decreases i,
{
    if i > 0 {
        lemma_run_goes_by_rank(steps, outcomes, graceful, i - 1);
        assert(call_ensures(
            next_start_step,
            (steps[i - 1], outcomes[i - 1], graceful),
            steps[i - 1 + 1],
        ));
    }
}

/// A port name is only done without an error once it waited for its cleanup task, and so once it was
/// announced.
pub proof fn law_success_is_announced(
    steps: Seq<StartStep>,
    outcomes: Seq<Result<(), String>>,
    graceful: bool,
    n: int,
)
    requires
        is_chosen_run(steps, outcomes, graceful),
        0 <= n < steps.len(),
        steps[n] is Done,
        steps[n]->Done_0 is Ok,
    ensures
        exists|j: int|
            0 < j < n && (#[trigger] steps[j]) is AwaitCleanup && outcomes[j] is Ok && steps[j - 1] is Announce
                && outcomes[j - 1] is Ok,
    decreases n,
{
    assert(n > 0);
    assert(call_ensures(next_start_step, (steps[n - 1], outcomes[n - 1], graceful), steps[n - 1 + 1]));
    if steps[n - 1] is Done {
        law_success_is_announced(steps, outcomes, graceful, n - 1);
        let j = choose|j: int|
            0 < j < n - 1 && (#[trigger] steps[j]) is AwaitCleanup && outcomes[j] is Ok && steps[j - 1] is Announce
                && outcomes[j - 1] is Ok;
        assert(steps[j] is AwaitCleanup);
    } else {
        assert(steps[n - 1] is AwaitCleanup);
        law_service_is_complete(steps, outcomes, graceful, n - 1);
    }
}

/// A failed step ends the run with its own reason, except that a failed announcement cancels the
/// cleanup task first and is reported as such. An end stays as it is.
pub proof fn law_failure_is_reported(
    steps: Seq<StartStep>,
    outcomes: Seq<Result<(), String>>,
    graceful: bool,
    i: int,
)
    requires
        is_chosen_run(steps, outcomes, graceful),
        0 <= i < steps.len() - 1,
    ensures
        outcomes[i] is Err && (steps[i] is AttachMetrics || steps[i] is AcquireServer
            || steps[i] is WireHealthCheck || steps[i] is RegisterHandler
            || steps[i] is AwaitCleanup) ==> steps[i + 1] == StartStep::Done(
            Err(StartError::Failed(outcomes[i]->Err_0)),
        ),
        outcomes[i] is Err && steps[i] is Announce ==> steps[i + 1] is CancelCleanup,
        steps[i] is CancelCleanup ==> steps[i + 1] == StartStep::Done(
            Err(StartError::Unannounced),
        ),
        steps[i] is Done ==> steps[i + 1] == steps[i],
        steps[i + 1] == StartStep::Done(Err(StartError::Unannounced)) ==> steps[i] is CancelCleanup
            || steps[i] is Done,
        steps[i + 1] is Done && !(steps[i] is Done) && outcomes[i] is Ok ==> steps[i] is CancelCleanup
            || steps[i] is AwaitCleanup,
{
    assert(call_ensures(next_start_step, (steps[i], outcomes[i], graceful), steps[i + 1]));
}

/// Whether a shutdown waits for requests adds one step and changes none: leaving out the step that
/// counts the port name, both runs take the same way.
pub proof fn law_waiting_adds_one_step(
    step: StartStep,
    outcome: Result<(), String>,
    waiting: StartStep,
    plain: StartStep,
    counted: Result<(), String>,
    after: StartStep,
)
    requires
        call_ensures(next_start_step, (step, outcome, true), waiting),
        call_ensures(next_start_step, (step, outcome, false), plain),
        call_ensures(next_start_step, (StartStep::TrackShutdown, counted, true), after),
    ensures
        waiting == plain || (waiting is TrackShutdown && after == plain),
        waiting is TrackShutdown == (step is AttachMetrics && outcome is Ok),
        !(plain is TrackShutdown),
{
}

/// The error in words is the reason of the step that failed.
pub proof fn law_start_error_in_words(reason: String, text: String, unannounced: String)
    requires
        call_ensures(StartError::to_string, (&StartError::Failed(reason),), text),
        call_ensures(StartError::to_string, (&StartError::Unannounced,), unannounced),
    ensures
        text@ == reason@,
        unannounced@
            == "Unable to register service for discovery. Check discovery service status"@,
{
}

/// Either variable can switch devices off, and the other cannot switch them on again. Without
/// either, devices are used. What the second says of an empty value or of `-1` does not count.
pub proof fn law_either_variable_disables(
    cuda: Option<&str>,
    nvidia: Option<&str>,
    both: Option<DeviceType>,
    cuda_alone: Option<DeviceType>,
    nvidia_alone: Option<DeviceType>,
    neither: Option<DeviceType>,
)
    requires
        call_ensures(portname_device_type, (cuda, nvidia), both),
        call_ensures(portname_device_type, (cuda, None::<&str>), cuda_alone),
        call_ensures(portname_device_type, (None::<&str>, nvidia), nvidia_alone),
        call_ensures(portname_device_type, (None::<&str>, None::<&str>), neither),
    ensures
        both is Some,
        neither == Some(DeviceType::Cuda),
        both == Some(DeviceType::Cpu) <==> cuda_alone == Some(DeviceType::Cpu) || nvidia_alone
            == Some(DeviceType::Cpu),
        both == Some(DeviceType::Cuda) <==> cuda_alone == Some(DeviceType::Cuda) && nvidia_alone
            == Some(DeviceType::Cuda),
{
}

/// The values that switch devices off: `none` and `void` in either variable, and nothing or `-1` in
/// the first, all of them in any case and with any white space around. No other value does.
pub proof fn law_disabling_values(
    value: &str,
    text: String,
    as_cuda: Option<DeviceType>,
    as_nvidia: Option<DeviceType>,
)
    requires
        call_ensures(normalize, (value,), text),
        call_ensures(portname_device_type, (Some(value), None::<&str>), as_cuda),
        call_ensures(portname_device_type, (None::<&str>, Some(value)), as_nvidia),
    ensures
        as_nvidia == Some(DeviceType::Cpu) <==> text@ == "none"@ || text@ == "void"@,
        as_cuda == Some(DeviceType::Cpu) <==> text@ == "none"@ || text@ == "void"@ || text@.len()
            == 0 || text@ == "-1"@,
        as_nvidia == Some(DeviceType::Cpu) ==> as_cuda == Some(DeviceType::Cpu),
        as_cuda is Some && as_nvidia is Some,
{
    reveal_strlit("");
    assert(text@.len() == 0 ==> text@ =~= ""@);
}

/// A port that was written into a variable is the one it fixes, except for zero, and what is read
/// as no port fixes none.
pub proof fn law_written_port_is_fixed(
    written: u16,
    text: String,
    raw: &str,
    port: Option<u16>,
    none: Option<u16>,
    other: &str,
    parsed: Option<u16>,
    fixed: Option<u16>,
)
    requires
        call_ensures(crate::text::to_decimal, (written as u64,), text),
        raw@ == text@,
        call_ensures(fixed_port_from_env, (Some(raw),), port),
        call_ensures(fixed_port_from_env, (None::<&str>,), none),
        call_ensures(parse_u16, (other,), parsed),
        call_ensures(fixed_port_from_env, (Some(other),), fixed),
    ensures
        written != 0 ==> port == Some(written),
        written == 0 ==> port is None,
        none is None,
        fixed is Some ==> fixed == parsed && fixed != Some(0u16),
        fixed is None ==> parsed is None || parsed == Some(0u16),
{
    crate::text::law_decimal_reads_back(written as nat);
    assert(crate::text::is_digit(text@[0]));
}

/// A fixed port is used whatever the server is bound to; without one, the port that the server is
/// bound to is, or the reason why it is not known.
pub proof fn law_port_of_a_server(
    plane: RequestPlane,
    tcp: Result<u16, String>,
    http: Result<u16, String>,
    tcp_text: Option<&str>,
    http_text: Option<&str>,
    tcp_fixed: Option<u16>,
    http_fixed: Option<u16>,
)
    requires
        call_ensures(resolved_tcp_port, (&plane,), tcp),
        call_ensures(resolved_http_port, (&plane,), http),
        text_view(tcp_text) == optional_view(plane.tcp_port),
        text_view(http_text) == optional_view(plane.http_port),
        call_ensures(fixed_port_from_env, (tcp_text,), tcp_fixed),
        call_ensures(fixed_port_from_env, (http_text,), http_fixed),
    ensures
        tcp_fixed is Some ==> tcp == Ok::<u16, String>(tcp_fixed->Some_0),
        tcp_fixed is None ==> tcp == plane.bound_tcp_port,
        http_fixed is Some ==> http == Ok::<u16, String>(http_fixed->Some_0),
        http_fixed is None ==> http == plane.bound_http_port,
{
}

/// The address of an instance over TCP is that of the server, the identifier of the instance in
/// hexadecimal and the name of the port name, parted by slashes; over HTTP it is that of the server,
/// the root path and the name.
pub proof fn law_parts_of_an_address(
    plane: RequestPlane,
    name: &str,
    instance_id: u64,
    tcp_port: u16,
    http_port: u16,
    tcp: Result<TransportType, String>,
    http: Result<TransportType, String>,
    hex: String,
    tcp_host: &str,
    http_host: &str,
    tcp_server: String,
    http_server: String,
)
    requires
        call_ensures(resolved_tcp_port, (&plane,), Ok::<u16, String>(tcp_port)),
        call_ensures(resolved_http_port, (&plane,), Ok::<u16, String>(http_port)),
        call_ensures(compose_tcp_transport, (&plane, name, instance_id), tcp),
        call_ensures(compose_http_transport, (&plane, name), http),
        call_ensures(to_lower_hex, (instance_id,), hex),
        tcp_host@ == plane.tcp_host@,
        http_host@ == plane.http_host@,
        call_ensures(write_host_port, (tcp_host, tcp_port), tcp_server),
        call_ensures(write_host_port, (http_host, http_port), http_server),
    ensures
        tcp is Ok && tcp->Ok_0 is Tcp,
        tcp->Ok_0->Tcp_0@ == tcp_server@ + "/"@ + hex@ + "/"@ + name@,
        http is Ok && http->Ok_0 is Http,
        plane.http_root_path is Some ==> http->Ok_0->Http_0@ == "http://"@ + http_server@
            + plane.http_root_path->Some_0@ + "/"@ + name@,
        plane.http_root_path is None ==> http->Ok_0->Http_0@ == "http://"@ + http_server@
            + "/v1/rpc"@ + "/"@ + name@,
{
}

/// Each mode has its own kind of address, and composing it for a mode is composing it for that kind.
/// A server that could not be bound only matters where the address depends on it.
pub proof fn law_mode_decides_the_address(
    mode: RequestPlaneMode,
    plane: RequestPlane,
    id: PortNameId,
    name: &str,
    instance_id: u64,
    bound: Result<(), String>,
    tcp: Result<TransportType, String>,
    http: Result<TransportType, String>,
    subject: String,
    composed: Result<TransportType, String>,
    fixed: bool,
    built: Result<TransportType, String>,
)
    requires
        name@ == id@.2,
        call_ensures(compose_tcp_transport, (&plane, name, instance_id), tcp),
        call_ensures(compose_http_transport, (&plane, name), http),
        call_ensures(instance_subject, (&id, instance_id), subject),
        call_ensures(compose_transport_for_mode, (mode, &plane, &id, instance_id), composed),
        call_ensures(transport_mode_has_fixed_addressing, (mode, &plane), fixed),
        call_ensures(build_transport_type, (mode, &plane, &id, instance_id, bound), built),
    ensures
        mode == RequestPlaneMode::Tcp ==> match tcp {
            Ok(t) => composed is Ok && composed->Ok_0 is Tcp && composed->Ok_0->Tcp_0@ == t->Tcp_0@,
            Err(text) => composed == Err::<TransportType, String>(text),
        },
        mode == RequestPlaneMode::Http ==> match http {
            Ok(t) => composed is Ok && composed->Ok_0 is Http && composed->Ok_0->Http_0@
                == t->Http_0@,
            Err(text) => composed == Err::<TransportType, String>(text),
        },
        mode == RequestPlaneMode::Nats ==> composed is Ok && composed->Ok_0 is Nats
            && composed->Ok_0->Nats_0@ == subject@,
        bound is Ok || fixed ==> (composed is Ok == built is Ok),
        !fixed && bound is Err ==> built is Err && built->Err_0 == bound->Err_0,
        fixed ==> built is Ok,
        mode == RequestPlaneMode::Nats ==> fixed,
{
}

/// Instances that share a server are told apart by their addresses over TCP.
pub proof fn law_instances_have_their_own_address(
    plane: RequestPlane,
    name: &str,
    one: u64,
    other: u64,
    a: Result<TransportType, String>,
    b: Result<TransportType, String>,
)
    requires
        one != other,
        plane.spec_tcp_port() is Ok,
        call_ensures(compose_tcp_transport, (&plane, name, one), a),
        call_ensures(compose_tcp_transport, (&plane, name, other), b),
    ensures
        a is Ok && b is Ok,
        a->Ok_0->Tcp_0@ != b->Ok_0->Tcp_0@,
{
    let x = lower_hex(one as nat);
    let y = lower_hex(other as nat);
    crate::text::law_hex_reads_back(one as nat);
    crate::text::law_hex_reads_back(other as nat);
    let port = plane.spec_tcp_port()->Ok_0;
    let head = host_port(plane.tcp_host@, port) + "/"@;
    let s = a->Ok_0->Tcp_0@;
    let t = b->Ok_0->Tcp_0@;
    assert(s =~= head + x + "/"@ + name@);
    assert(t =~= head + y + "/"@ + name@);
    if s == t {
        assert(s.len() == t.len());
        assert(x.len() == y.len());
        assert forall|i: int| 0 <= i < x.len() implies x[i] == y[i] by {
            assert(s[head.len() + i] == x[i]);
            assert(t[head.len() + i] == y[i]);
        }
        assert(x =~= y);
    }
}

/// What was collected is what a port name is started with, whatever the order in which it was
/// given; what was not given has its usual value.
pub proof fn law_collected_is_started<H>(
    portname: Arc<PortName>,
    handler: H,
    labels: Option<Vec<(String, String)>>,
    graceful: bool,
    payload: Value,
    b0: PortNameConfigBuilder<H>,
    b1: PortNameConfigBuilder<H>,
    b2: PortNameConfigBuilder<H>,
    b3: PortNameConfigBuilder<H>,
    b4: PortNameConfigBuilder<H>,
    begun: Result<(PortNameConfig<H>, StartStep), String>,
    plain: Result<(PortNameConfig<H>, StartStep), String>,
    without: Result<(PortNameConfig<H>, StartStep), String>,
    built: Result<PortNameConfig<H>, String>,
    nameless: PortNameConfigBuilder<H>,
    unnamed: Result<(PortNameConfig<H>, StartStep), String>,
    unbuilt: Result<PortNameConfig<H>, String>,
    unhandled: Result<PortNameConfig<H>, String>,
)
    requires
        call_ensures(PortNameConfigBuilder::<H>::from_portname, (portname,), b0),
        call_ensures(PortNameConfigBuilder::<H>::handler, (b0, handler), b1),
        call_ensures(PortNameConfigBuilder::<H>::metrics_labels, (b1, labels), b2),
        call_ensures(PortNameConfigBuilder::<H>::graceful_shutdown, (b2, graceful), b3),
        call_ensures(PortNameConfigBuilder::<H>::health_check_payload, (b3, payload), b4),
        call_ensures(PortNameConfigBuilder::<H>::start, (b4,), begun),
        call_ensures(PortNameConfigBuilder::<H>::build_internal, (b4,), built),
        call_ensures(PortNameConfigBuilder::<H>::start, (b1,), plain),
        call_ensures(PortNameConfigBuilder::<H>::start, (b0,), without),
        nameless@.portname is None,
        call_ensures(PortNameConfigBuilder::<H>::start, (nameless,), unnamed),
        call_ensures(PortNameConfigBuilder::<H>::build_internal, (nameless,), unbuilt),
        call_ensures(PortNameConfigBuilder::<H>::build_internal, (b0,), unhandled),
    ensures
        begun is Ok,
        begun->Ok_0.1 is AttachMetrics,
        begun->Ok_0.0.portname == portname,
        begun->Ok_0.0.handler == handler,
        begun->Ok_0.0.metrics_labels == labels,
        begun->Ok_0.0.graceful_shutdown == graceful,
        begun->Ok_0.0.health_check_payload == Some(payload),
        built == Ok::<PortNameConfig<H>, String>(begun->Ok_0.0),
        plain is Ok,
        plain->Ok_0.0.portname == portname,
        plain->Ok_0.0.handler == handler,
        plain->Ok_0.0.graceful_shutdown,
        plain->Ok_0.0.metrics_labels is None,
        plain->Ok_0.0.health_check_payload is None,
        plain->Ok_0.1 is AttachMetrics,
        without is Err && without->Err_0@ == "`handler` must be initialized"@,
        unhandled is Err && unhandled->Err_0@ == "`handler` must be initialized"@,
        unnamed is Err && unnamed->Err_0@ == "`portname` must be initialized"@,
        unbuilt is Err && unbuilt->Err_0@ == "`portname` must be initialized"@,
{
}

/// A local engine is entered under the name of its port name, beside those that are there.
pub proof fn law_local_engine_is_entered<H, E>(
    builder: PortNameConfigBuilder<H>,
    portname: Arc<PortName>,
    registry: &mut Dict<String, E>,
    engine: E,
    kept: Result<PortNameConfigBuilder<H>, String>,
    other: Seq<char>,
)
    requires
        builder@.portname == Some(portname),
        call_ensures(
            PortNameConfigBuilder::<H>::register_local_engine::<E>,
            (builder, registry, engine),
            kept,
        ),
    ensures
        kept == Ok::<PortNameConfigBuilder<H>, String>(builder),
        final(registry)@.contains_key(portname.spec_name()),
        final(registry)@[portname.spec_name()] == engine,
        other != portname.spec_name() ==> final(registry)@.contains_key(other) == old(
            registry
        )@.contains_key(other),
        other != portname.spec_name() && old(registry)@.contains_key(other) ==> final(
            registry
        )@[other] == old(registry)@[other],
{
}

/// Giving one port name its health check concerns no other: every other endpoint keeps its check,
/// its status and what wakes it.
pub proof fn law_wired_health_check_leaves_the_rest<N, R, G, E>(
    portname: &PortName,
    connection_id: u64,
    health: &mut SystemHealth<N, R, G>,
    engines: &Dict<String, E>,
    payload: Option<Value>,
    transport: Result<TransportType, String>,
    device_type: Option<DeviceType>,
    topology: Value,
    notifier: N,
    wired: Result<Option<(Option<String>, Arc<N>)>, String>,
    id: PortNameId,
    other: &str,
    target_before: Option<Arc<HealthCheckTarget>>,
    target_after: Option<Arc<HealthCheckTarget>>,
    wake_before: Option<Arc<N>>,
    wake_after: Option<Arc<N>>,
)
    requires
        call_ensures(PortName::protocol_id, (portname,), id),
        call_ensures(
            SystemHealth::<N, R, G>::get_endpoint_health_check_notifier,
            (&*old(health), other),
            wake_before,
        ),
        call_ensures(
            SystemHealth::<N, R, G>::get_endpoint_health_check_notifier,
            (&*final(health), other),
            wake_after,
        ),
        call_ensures(
            wire_health_check_target::<N, R, G, E>,
            (
                portname,
                connection_id,
                health,
                engines,
                payload,
                transport,
                device_type,
                topology,
                notifier,
            ),
            wired,
        ),
        call_ensures(
            SystemHealth::<N, R, G>::get_health_check_target,
            (&*old(health), other),
            target_before,
        ),
        call_ensures(
            SystemHealth::<N, R, G>::get_health_check_target,
            (&*final(health), other),
            target_after,
        ),
    ensures
        other@ != portname.spec_name() ==> target_after == target_before,
        target_before is Some ==> target_after == target_before,
        payload is None || wired is Err ==> target_after == target_before,
        other@ == portname.spec_name() && payload is Some && wired is Ok ==> target_after is Some,
        other@ == portname.spec_name() && payload is Some && wired is Ok && target_before is None
            ==> {
            &&& target_after->Some_0.payload == payload->Some_0
            &&& target_after->Some_0.instance.portname@ == portname.spec_name()
            &&& target_after->Some_0.instance.instance_id == connection_id
            &&& target_after->Some_0.instance.transport == transport->Ok_0
            &&& target_after->Some_0.instance.namespace@ == id.namespace@
            &&& target_after->Some_0.instance.servicegroup@ == id.servicegroup@
            &&& target_after->Some_0.instance.device_type == device_type
            &&& target_after->Some_0.instance.topo_json == topology
        },
        payload is None ==> wired == Ok::<Option<(Option<String>, Arc<N>)>, String>(None),
        payload is Some && wired is Ok ==> wired->Ok_0 is Some,
        other@ == portname.spec_name() && payload is Some && wired is Ok ==> {
            &&& wired->Ok_0->Some_0.0 is Some == target_before is None
            &&& wired->Ok_0->Some_0.0 is Some ==> wired->Ok_0->Some_0.0->Some_0@ == other@
            &&& wake_after == Some(wired->Ok_0->Some_0.1)
            &&& wake_before is Some ==> wake_after == wake_before
            &&& wake_before is None ==> wake_after == Some(Arc::new(notifier))
        },
        other@ != portname.spec_name() ==> wake_after == wake_before,
        wired is Err && old(health)@.checked && !engines@.contains_key(portname.spec_name())
            ==> wired->Err_0@ == "PortName '"@ + portname.spec_name()
            + "' has a health_check_payload and canary is enabled, but no local engine is registered. Call .register_local_engine() before .start() so the canary health check can function."@,
        wired is Err && !(old(health)@.checked && !engines@.contains_key(portname.spec_name()))
            ==> wired->Err_0 == transport->Err_0,
        wired is Err <==> payload is Some && (transport is Err || (old(health)@.checked
            && !engines@.contains_key(portname.spec_name()))),
        final(health)@.system == old(health)@.system,
        final(health)@.listed == old(health)@.listed,
        final(health)@.checked == old(health)@.checked,
        other@ != portname.spec_name() ==> final(health)@.endpoints.contains_key(other@) == old(
            health
        )@.endpoints.contains_key(other@),
        old(health)@.endpoints.contains_key(other@) ==> final(health)@.endpoints.contains_key(
            other@,
        ) && final(health)@.endpoints[other@] == old(health)@.endpoints[other@],
{
}

/// What announces an instance and what takes it out again speak of the same port name at the same
/// address.
pub proof fn law_withdrawn_is_what_was_announced(
    portname: &PortName,
    transport: TransportType,
    device_type: Option<DeviceType>,
    instance_id: u64,
    topology: Value,
    entered: Result<DiscoverySpec, String>,
    withdrawn: Result<DiscoveryInstance, String>,
    reason: String,
    not_entered: Result<DiscoverySpec, String>,
    not_withdrawn: Result<DiscoveryInstance, String>,
)
    requires
        call_ensures(
            PortName::register_portname_instance,
            (portname, Ok::<TransportType, String>(transport), device_type),
            entered,
        ),
        call_ensures(
            PortName::unregister_portname_instance,
            (portname, instance_id, Ok::<TransportType, String>(transport), device_type, topology),
            withdrawn,
        ),
        call_ensures(
            PortName::register_portname_instance,
            (portname, Err::<TransportType, String>(reason), device_type),
            not_entered,
        ),
        call_ensures(
            PortName::unregister_portname_instance,
            (portname, instance_id, Err::<TransportType, String>(reason), device_type, topology),
            not_withdrawn,
        ),
    ensures
        not_entered == Err::<DiscoverySpec, String>(reason),
        not_withdrawn == Err::<DiscoveryInstance, String>(reason),
        withdrawn is Ok ==> withdrawn->Ok_0->PortName_0.topo_json == topology,
        entered->Ok_0->namespace@ == portname.spec_id().0,
        entered->Ok_0->servicegroup@ == portname.spec_id().1,
        entered is Ok,
        withdrawn is Ok,
        withdrawn->Ok_0 is PortName,
        entered->Ok_0->namespace@ == withdrawn->Ok_0->PortName_0.namespace@,
        entered->Ok_0->servicegroup@ == withdrawn->Ok_0->PortName_0.servicegroup@,
        entered->Ok_0->portname@ == withdrawn->Ok_0->PortName_0.portname@,
        entered->Ok_0->portname@ == portname.spec_name(),
        entered->Ok_0->transport == transport,
        entered->Ok_0->device_type == device_type,
        withdrawn->Ok_0->PortName_0.transport == transport,
        withdrawn->Ok_0->PortName_0.device_type == device_type,
        withdrawn->Ok_0->PortName_0.instance_id == instance_id,
{
}

/// What a variable says on its own is what counts for the device, and an address over a subject is
/// the subject of the instance.
pub proof fn law_variable_and_device(
    cuda: Option<&str>,
    nvidia: Option<&str>,
    by_cuda: DeviceVisibility,
    by_nvidia: DeviceVisibility,
    device: Option<DeviceType>,
    id: PortNameId,
    instance_id: u64,
    subject: String,
    transport: TransportType,
)
    requires
        call_ensures(read_visibility_env, (cuda, true), by_cuda),
        call_ensures(read_visibility_env, (nvidia, false), by_nvidia),
        call_ensures(portname_device_type, (cuda, nvidia), device),
        call_ensures(instance_subject, (&id, instance_id), subject),
        call_ensures(compose_nats_transport, (&id, instance_id), transport),
    ensures
        device == Some(DeviceType::Cuda) <==> by_cuda == DeviceVisibility::GpuAllowed && by_nvidia
            == DeviceVisibility::GpuAllowed,
        device is Some,
        transport is Nats && transport->Nats_0@ == subject@,
{
}

/// A builder that a port name hands out is one for that port name, and whether discovery took an
/// instance or gave it up is told as what was tried.
pub proof fn law_builder_and_discovery<H>(
    portname: Arc<PortName>,
    builder: PortNameConfigBuilder<H>,
    same: PortNameConfigBuilder<H>,
    registering: bool,
    done: Result<(), String>,
    outcome: Result<(), String>,
)
    requires
        call_ensures(PortName::portname_builder::<H>, (&portname,), builder),
        call_ensures(PortNameConfigBuilder::<H>::from_portname, (portname,), same),
        call_ensures(discovery_outcome, (registering, done), outcome),
    ensures
        builder@ == same@,
        builder@.portname == Some(portname),
        builder@.handler is None,
        outcome is Ok == done is Ok,
        outcome is Err && registering ==> outcome->Err_0@
            == "Unable to re-register portname instance to discovery. Check discovery service status"@,
        outcome is Err && !registering ==> outcome->Err_0@
            == "Unable to unregister portname instance from discovery. Check discovery service status"@,
{
}

} // verus!

//! What the status and management server of a process answers.
//!
//! Answers are given as a status code and what the body holds; turning that into a response is left
//! to the server.

use vstd::prelude::*;
use vstd::string::*;

use serde_json::Value;

use crate::dict::Dict;
use crate::json::{
    copy_json, json_as_text, json_as_u64, json_is_null, json_is_object, json_member, json_members, json_parse,
    json_text, json_unsigned, json_written, new_object, null, number_value, object_members,
    object_value, parse_json, set_member, text_value, write_json,
};
use crate::pipeline::tcp::server::{host_port, write_host_port};
use crate::protocols::annotated::Annotated;
use crate::system_health::{health_label, SystemHealth};
use crate::config::HealthStatus;
use crate::text::{concat2, decimal, lowercase, same_text, to_decimal, to_lowercase};

use std::sync::Arc;

verus! {

/// Where a running server listens, and its task `H`.
#[derive(Debug)]
pub struct SystemStatusServerInfo<H> {
    pub ip: String,
    /// Whether the address is one of IPv6.
    pub ipv6: bool,
    /// The scope of an address of IPv6, or zero.
    pub scope_id: u32,
    pub port: u16,
    pub handle: Option<Arc<H>>,
}

/// How an address of IPv6 is written together with its scope, if it has one.
pub open spec fn scoped(ip: Seq<char>, scope_id: u32) -> Seq<char> {
    if scope_id == 0 {
        ip
    } else {
        ip + "%"@ + decimal(scope_id as nat)
    }
}

impl<H> SystemStatusServerInfo<H> {
    /// Where a server listens, and its task if there is one.
    pub fn new(ip: String, ipv6: bool, scope_id: u32, port: u16, handle: Option<H>) -> (info: Self)
        ensures
            info.ip == ip,
            info.ipv6 == ipv6,
            info.scope_id == scope_id,
            info.port == port,
            info.handle == match handle {
                Some(task) => Some(Arc::new(task)),
                None => None,
            },
    {
        let handle = match handle {
            Some(task) => Some(Arc::new(task)),
            None => None,
        };
        SystemStatusServerInfo { ip, ipv6, scope_id, port, handle }
    }

    /// The address as `host:port`, with an address of IPv6 and its scope in brackets.
    pub fn address(&self) -> (address: String)
        ensures
            address@ == if self.ipv6 {
                "["@ + scoped(self.ip@, self.scope_id) + "]:"@ + decimal(self.port as nat)
            } else {
                host_port(self.ip@, self.port)
            },
    {
        if self.ipv6 {
            let mut address = concat2("[", self.ip.as_str());
            if self.scope_id != 0 {
                address.append("%");
                address.append(to_decimal(self.scope_id as u64).as_str());
                assert(address@ =~= "["@ + scoped(self.ip@, self.scope_id));
            }
            address.append("]:");
            address.append(to_decimal(self.port as u64).as_str());
            address
        } else {
            write_host_port(self.ip.as_str(), self.port)
        }
    }

    /// The address without the scope and the port.
    pub fn hostname(&self) -> (hostname: String)
        ensures
            hostname@ == self.ip@,
    {
        self.ip.clone()
    }

    /// The port.
    pub fn port(&self) -> (port: u16)
        ensures
            port == self.port,
    {
        self.port
    }
}

impl<H> Clone for SystemStatusServerInfo<H> {
    fn clone(&self) -> (copy: Self)
        ensures
            copy == *self,
    {
        let handle = match &self.handle {
            Some(task) => Some(task.clone()),
            None => None,
        };
        SystemStatusServerInfo {
            ip: self.ip.clone(),
            ipv6: self.ipv6,
            scope_id: self.scope_id,
            port: self.port,
            handle,
        }
    }
}

/// What the server answers from: the process `D` and, where discovery keeps any, the metadata `M`.
pub struct SystemStatusState<D, M> {
    root_drt: Arc<D>,
    discovery_metadata: Option<Arc<M>>,
}

impl<D, M> SystemStatusState<D, M> {
    /// The process.
    pub closed spec fn spec_drt(&self) -> Arc<D> {
        self.root_drt
    }

    /// The metadata of discovery.
    pub closed spec fn spec_metadata(&self) -> Option<Arc<M>> {
        self.discovery_metadata
    }

    /// What a server answers from.
    pub fn new(drt: Arc<D>, discovery_metadata: Option<Arc<M>>) -> (state: Result<Self, String>)
        ensures
            state is Ok,
            state->Ok_0.spec_drt() == drt,
            state->Ok_0.spec_metadata() == discovery_metadata,
    {
        Ok(SystemStatusState { root_drt: drt, discovery_metadata })
    }

    /// The process.
    pub fn drt(&self) -> (drt: &Arc<D>)
        ensures
            *drt == self.spec_drt(),
    {
        &self.root_drt
    }

    /// The metadata of discovery.
    pub fn discovery_metadata(&self) -> (metadata: Option<&Arc<M>>)
        ensures
            match metadata {
                Some(found) => self.spec_metadata() == Some(*found),
                None => self.spec_metadata() is None,
            },
    {
        match &self.discovery_metadata {
            Some(metadata) => Some(metadata),
            None => None,
        }
    }
}

/// A request to load an adapter.
#[derive(Debug, Clone)]
pub struct LoadLoraRequest {
    pub lora_name: String,
    pub source: LoraSource,
}

/// Where an adapter is loaded from.
#[derive(Debug, Clone)]
pub struct LoraSource {
    pub uri: String,
}

/// What became of a request about adapters.
#[derive(Debug)]
pub struct LoraResponse {
    pub status: String,
    pub message: Option<String>,
    pub lora_name: Option<String>,
    pub lora_id: Option<u64>,
    pub loras: Option<Value>,
    pub count: Option<usize>,
}

fn copy_text(text: &Option<String>) -> (copy: Option<String>)
    ensures
        copy == *text,
{
    match text {
        Some(text) => Some(text.clone()),
        None => None,
    }
}

impl Clone for LoraResponse {
    fn clone(&self) -> (copy: Self)
        ensures
            copy == *self,
    {
        let loras = match &self.loras {
            Some(loras) => Some(copy_json(loras)),
            None => None,
        };
        LoraResponse {
            status: self.status.clone(),
            message: copy_text(&self.message),
            lora_name: copy_text(&self.lora_name),
            lora_id: self.lora_id,
            loras,
            count: self.count,
        }
    }
}

/// What answers the requests to a path.
#[derive(Debug, Clone, Copy, PartialEq, Eq, Structural)]
pub enum Handler {
    /// `GET`: health.
    Health,
    /// `GET`: metrics.
    Metrics,
    /// `GET`: the metadata of discovery.
    Metadata,
    /// Any method: a callback of the engine.
    Engine,
    /// `GET`: the adapters that are loaded; `POST`: load one.
    Loras,
    /// `DELETE`: unload an adapter.
    UnloadLora,
    /// `GET`: a file of a model.
    MetadataFile,
}

/// A path and what answers the requests to it.
pub struct RouteEntry {
    pub path: String,
    pub handler: Handler,
}

/// Whether an entry is the one for that path and handler.
pub open spec fn is_route(entry: RouteEntry, path: Seq<char>, handler: Handler) -> bool {
    entry.path@ == path && entry.handler == handler
}

/// Whether `routes` are those of a server, in order: those about adapters only where they are
/// switched on.
pub open spec fn are_routes(
    routes: Seq<RouteEntry>,
    health_path: Seq<char>,
    live_path: Seq<char>,
    lora_enabled: bool,
) -> bool {
    let n: int = if lora_enabled {
        7
    } else {
        5
    };
    &&& routes.len() == n + 1
    &&& is_route(routes[0], health_path, Handler::Health)
    &&& is_route(routes[1], live_path, Handler::Health)
    &&& is_route(routes[2], "/metrics"@, Handler::Metrics)
    &&& is_route(routes[3], "/metadata"@, Handler::Metadata)
    &&& is_route(routes[4], "/engine/{*path}"@, Handler::Engine)
    &&& lora_enabled ==> is_route(routes[5], "/v1/loras"@, Handler::Loras) && is_route(
        routes[6],
        "/v1/loras/{*lora_name}"@,
        Handler::UnloadLora,
    )
    &&& is_route(
        routes[n],
        "/v1/metadata/{model_slug}/{model_suffix}/{*filename}"@,
        Handler::MetadataFile,
    )
}

fn route(path: &str, handler: Handler) -> (entry: RouteEntry)
    ensures
        is_route(entry, path@, handler),
{
    RouteEntry { path: path.to_owned(), handler }
}

/// How a server is set up.
pub struct ServerPlan {
    /// The address to bind.
    pub address: String,
    /// The paths that are answered; any other is not found.
    pub routes: Vec<RouteEntry>,
}

/// Whether the value of the environment variable switches requests about adapters on: `true`, in any
/// case of its letters.
pub fn lora_enabled(value: Option<&str>) -> (enabled: bool)
    ensures
        enabled == match value {
            Some(text) => lowercase(text@) == "true"@,
            None => false,
        },
{
    match value {
        Some(text) => same_text(to_lowercase(text).as_str(), "true"),
        None => false,
    }
}

/// How a server is set up, by the paths of its probes and the value of the environment variable for
/// adapters.
pub fn spawn_system_status_server<N, R, G>(
    host: &str,
    port: u16,
    system_health: &SystemHealth<N, R, G>,
    lora_value: Option<&str>,
) -> (plan: ServerPlan)
    ensures
        plan.address@ == host_port(host@, port),
        are_routes(
            plan.routes@,
            system_health.spec_health_path(),
            system_health.spec_live_path(),
            match lora_value {
                Some(text) => lowercase(text@) == "true"@,
                None => false,
            },
        ),
{
    let mut routes: Vec<RouteEntry> = Vec::new();
    routes.push(route(system_health.health_path(), Handler::Health));
    routes.push(route(system_health.live_path(), Handler::Health));
    routes.push(route("/metrics", Handler::Metrics));
    routes.push(route("/metadata", Handler::Metadata));
    routes.push(route("/engine/{*path}", Handler::Engine));
    if lora_enabled(lora_value) {
        routes.push(route("/v1/loras", Handler::Loras));
        routes.push(route("/v1/loras/{*lora_name}", Handler::UnloadLora));
    }
    routes.push(
        route("/v1/metadata/{model_slug}/{model_suffix}/{*filename}", Handler::MetadataFile),
    );
    ServerPlan { address: write_host_port(host, port), routes }
}

/// Why the server could not be started.
pub fn bind_error(text: &str) -> (error: String)
    ensures
        error@ == "Failed to bind to address: "@ + text@,
{
    concat2("Failed to bind to address: ", text)
}

/// A status code and a text.
pub struct TextReply {
    pub status: u16,
    pub body: String,
}

/// Whether a reply has that status and that text.
pub open spec fn replies(reply: TextReply, status: u16, body: Seq<char>) -> bool {
    reply.status == status && reply.body@ == body
}

/// What is answered to a path that is not known.
pub fn fallback() -> (reply: TextReply)
    ensures
        replies(reply, 404, "Route not found"@),
{
    TextReply { status: 404, body: "Route not found".to_owned() }
}

/// What is answered to a probe.
pub struct HealthReply {
    pub status: u16,
    /// `ready` or `notready`.
    pub health: String,
    /// How long, in nanoseconds, the process has been running.
    pub uptime: u64,
    /// The status of every endpoint in words.
    pub portnames: Dict<String, String>,
}

/// Answers a probe: with success where the process is healthy.
pub fn health_handler<N, R, G>(system_health: &SystemHealth<N, R, G>, now: u64) -> (reply:
    HealthReply)
    ensures
        reply.status == if system_health@.healthy() {
            200u16
        } else {
            503u16
        },
        reply.health@ == health_label(
            if system_health@.healthy() {
                HealthStatus::Ready
            } else {
                HealthStatus::NotReady
            },
        ),
        reply.uptime == (if now >= system_health.spec_start() {
            now - system_health.spec_start()
        } else {
            0
        }),
        reply.portnames@.dom() == system_health@.endpoints.dom(),
        forall|endpoint: Seq<char>| #[trigger]
            system_health@.endpoints.contains_key(endpoint) ==> reply.portnames@[endpoint]@
                == health_label(system_health@.endpoints[endpoint]),
{
    let (healthy, portnames) = system_health.get_health_status();
    let uptime: u64 = system_health.uptime(now);
    if healthy {
        HealthReply { status: 200, health: "ready".to_owned(), uptime, portnames }
    } else {
        HealthReply { status: 503, health: "notready".to_owned(), uptime, portnames }
    }
}

/// Whether `body` holds a length of time: whole seconds, and the nanoseconds of a started one.
pub open spec fn is_duration(body: Value, nanos: u64) -> bool {
    &&& json_is_object(body)
    &&& json_members(body).dom() == set!["secs"@, "nanos"@]
    &&& json_unsigned(json_members(body)["secs"@]) == Some((nanos / 1_000_000_000) as u64)
    &&& json_unsigned(json_members(body)["nanos"@]) == Some((nanos % 1_000_000_000) as u64)
}

/// Whether `body` holds every endpoint with its status in words.
pub open spec fn is_endpoints(body: Value, portnames: Map<Seq<char>, String>) -> bool {
    &&& json_is_object(body)
    &&& json_members(body).dom() == portnames.dom()
    &&& forall|endpoint: Seq<char>| #[trigger]
        portnames.contains_key(endpoint) ==> has_text(body, endpoint, portnames[endpoint]@)
}

fn duration_body(nanos: u64) -> (body: Value)
    ensures
        is_duration(body, nanos),
{
    let mut body = new_object();
    set_member(&mut body, "secs", number_value(nanos / 1_000_000_000));
    set_member(&mut body, "nanos", number_value(nanos % 1_000_000_000));
    proof {
        reveal_strlit("secs");
        reveal_strlit("nanos");
        assert("secs"@.len() != "nanos"@.len());
        assert(object_members(body).dom() =~= set!["secs"@, "nanos"@]);
    }
    object_value(body)
}

fn endpoints_body(portnames: &Dict<String, String>) -> (body: Value)
    ensures
        is_endpoints(body, portnames@),
{
    let mut body = new_object();
    let n: usize = portnames.len();
    let mut i: usize = 0;
    while i < n
        invariant
            i <= n,
            n == portnames.entries().len(),
            portnames.lawful(),
            forall|j: int| #![trigger portnames.entries()[j]]
                0 <= j < i ==> object_members(body).contains_key(portnames.entries()[j].0@)
                    && json_text(object_members(body)[portnames.entries()[j].0@]) == Some(
                    portnames.entries()[j].1@,
                ),
            forall|k: Seq<char>| #[trigger]
                object_members(body).contains_key(k) ==> portnames@.contains_key(k),
        decreases n - i,
    {
        let (endpoint, label) = portnames.at(i);
        assert(portnames.entries()[i as int].0@ == endpoint@);
        set_member(&mut body, endpoint.as_str(), text_value(label.as_str()));
        i = i + 1;
    }
    proof {
        assert forall|k: Seq<char>| #[trigger] portnames@.contains_key(k) implies (object_members(
            body,
        ).contains_key(k) && json_text(object_members(body)[k]) == Some(portnames@[k]@)) by {
            let j = choose|j: int|
                0 <= j < n && (#[trigger] portnames.entries()[j]).0@ == k;
            assert(portnames.entries()[j].0@ == k);
        }
        assert(object_members(body).dom() =~= portnames@.dom());
    }
    object_value(body)
}

/// Whether `body` tells what is answered to a probe.
pub open spec fn is_health_body(body: Value, reply: HealthReply) -> bool {
    &&& json_is_object(body)
    &&& json_members(body).dom() == set!["status"@, "uptime"@, "portnames"@]
    &&& has_text(body, "status"@, reply.health@)
    &&& is_duration(json_members(body)["uptime"@], reply.uptime)
    &&& is_endpoints(json_members(body)["portnames"@], reply.portnames@)
}

/// The body of the answer to a probe.
pub fn health_body(reply: &HealthReply) -> (body: Value)
    ensures
        is_health_body(body, *reply),
{
    let mut body = new_object();
    set_member(&mut body, "status", text_value(reply.health.as_str()));
    set_member(&mut body, "uptime", duration_body(reply.uptime));
    set_member(&mut body, "portnames", endpoints_body(&reply.portnames));
    proof {
        reveal_strlit("status");
        reveal_strlit("uptime");
        reveal_strlit("portnames");
        assert("status"@[0] != "uptime"@[0]);
        assert("status"@.len() != "portnames"@.len());
        assert("uptime"@.len() != "portnames"@.len());
        assert(object_members(body).dom() =~= set!["status"@, "uptime"@, "portnames"@]);
    }
    object_value(body)
}

/// The answer to a probe, as it is sent.
pub fn health_text(reply: &HealthReply) -> (sent: TextReply)
    ensures
        exists|body: Value| #[trigger]
            is_health_body(body, *reply) && replies(sent, reply.status, json_written(body)),
{
    let body = health_body(reply);
    TextReply { status: reply.status, body: write_json(&body) }
}

/// Answers with the metrics, as they could be written.
pub fn metrics_handler(metrics: Result<String, String>) -> (reply: TextReply)
    ensures
        match metrics {
            Ok(text) => replies(reply, 200, text@),
            Err(_) => replies(reply, 500, "Failed to get metrics"@),
        },
{
    match metrics {
        Ok(text) => TextReply { status: 200, body: text },
        Err(_) => TextReply { status: 500, body: "Failed to get metrics".to_owned() },
    }
}

/// Answers with the metadata of discovery, as it could be serialised, where there is any.
pub fn metadata_handler(metadata: Option<Result<String, String>>) -> (reply: TextReply)
    ensures
        match metadata {
            None => replies(reply, 404, "Discovery metadata not available"@),
            Some(Ok(json)) => replies(reply, 200, json@),
            Some(Err(_)) => replies(reply, 500, "Failed to serialize metadata"@),
        },
{
    match metadata {
        None => TextReply { status: 404, body: "Discovery metadata not available".to_owned() },
        Some(Ok(json)) => TextReply { status: 200, body: json },
        Some(Err(_)) => TextReply { status: 500, body: "Failed to serialize metadata".to_owned() },
    }
}

/// A status code and what became of a request about adapters.
pub struct LoraReply {
    pub status: u16,
    pub body: LoraResponse,
}

/// Whether a response says that the request failed, and for which adapter.
pub open spec fn is_lora_failure(
    response: LoraResponse,
    text: Seq<char>,
    lora_name: Option<Seq<char>>,
) -> bool {
    &&& response.status@ == "error"@
    &&& response.message is Some
    &&& response.message->Some_0@ == text
    &&& match lora_name {
        Some(name) => response.lora_name is Some && response.lora_name->Some_0@ == name,
        None => response.lora_name is None,
    }
    &&& response.lora_id is None
    &&& response.loras is None
    &&& response.count is None
}

fn lora_failure(text: String, lora_name: Option<String>) -> (reply: LoraReply)
    ensures
        reply.status == 500,
        is_lora_failure(
            reply.body,
            text@,
            match lora_name {
                Some(name) => Some(name@),
                None => None,
            },
        ),
{
    LoraReply {
        status: 500,
        body: LoraResponse {
            status: "error".to_owned(),
            message: Some(text),
            lora_name,
            lora_id: None,
            loras: None,
            count: None,
        },
    }
}

/// Whether `reply` answers a request about one adapter: with what the engine said, which fails where
/// that says so, or with why the engine said nothing.
pub open spec fn answers_about(
    reply: LoraReply,
    name: Seq<char>,
    result: Result<LoraResponse, String>,
) -> bool {
    match result {
        Ok(response) => reply.body == response && reply.status == if response.status@
            == "error"@ {
            500u16
        } else {
            200u16
        },
        Err(text) => reply.status == 500 && is_lora_failure(reply.body, text@, Some(name)),
    }
}

fn answer_about(name: String, result: Result<LoraResponse, String>) -> (reply: LoraReply)
    ensures
        answers_about(reply, name@, result),
{
    match result {
        Ok(response) => {
            let failed = same_text(response.status.as_str(), "error");
            LoraReply {
                status: if failed {
                    500
                } else {
                    200
                },
                body: response,
            }
        },
        Err(text) => lora_failure(text, Some(name)),
    }
}

/// Answers a request to load an adapter.
pub fn load_lora_handler(
    request: LoadLoraRequest,
    result: Result<LoraResponse, String>,
) -> (reply: LoraReply)
    ensures
        answers_about(reply, request.lora_name@, result),
{
    answer_about(request.lora_name, result)
}

/// The name of an adapter in a path: without a slash at its start.
pub open spec fn path_name(path: Seq<char>) -> Seq<char> {
    if path.len() > 0 && path[0] == '/' {
        path.drop_first()
    } else {
        path
    }
}

/// The name of an adapter in a path.
pub fn lora_name_of_path(path: &str) -> (name: String)
    ensures
        name@ == path_name(path@),
{
    let chars = crate::text::chars_of(path);
    if chars.len() > 0 && chars[0] == '/' {
        let name = crate::text::text_from(&chars, 1);
        assert(name@ =~= path@.drop_first());
        name
    } else {
        path.to_owned()
    }
}

/// Answers a request to unload the adapter that a path names.
pub fn unload_lora_handler(path: &str, result: Result<LoraResponse, String>) -> (reply: LoraReply)
    ensures
        answers_about(reply, path_name(path@), result),
{
    answer_about(lora_name_of_path(path), result)
}

/// Answers a request for the adapters that are loaded: whatever the engine said is a success.
pub fn list_loras_handler(result: Result<LoraResponse, String>) -> (reply: LoraReply)
    ensures
        match result {
            Ok(response) => reply.status == 200 && reply.body == response,
            Err(text) => reply.status == 500 && is_lora_failure(reply.body, text@, None),
        },
{
    match result {
        Ok(response) => LoraReply { status: 200, body: response },
        Err(text) => lora_failure(text, None),
    }
}

/// The endpoint that loads an adapter.
pub const LOAD_LORA: &'static str = "load_lora";

/// The endpoint that unloads an adapter.
pub const UNLOAD_LORA: &'static str = "unload_lora";

/// The endpoint that lists the adapters.
pub const LIST_LORAS: &'static str = "list_loras";

/// Whether the member `key` of an object is that text.
pub open spec fn has_text(body: Value, key: Seq<char>, text: Seq<char>) -> bool {
    json_members(body).contains_key(key) && json_text(json_members(body)[key]) == Some(text)
}

/// What the engine is asked in order to load an adapter: its name, and where it comes from.
pub fn load_lora_request(request: &LoadLoraRequest) -> (body: Value)
    ensures
        json_is_object(body),
        json_members(body).dom() == set!["lora_name"@, "source"@],
        has_text(body, "lora_name"@, request.lora_name@),
        json_is_object(json_members(body)["source"@]),
        json_members(json_members(body)["source"@]).dom() == set!["uri"@],
        has_text(json_members(body)["source"@], "uri"@, request.source.uri@),
{
    let mut source = new_object();
    set_member(&mut source, "uri", text_value(request.source.uri.as_str()));
    assert(object_members(source).dom() =~= set!["uri"@]);
    let mut body = new_object();
    set_member(&mut body, "lora_name", text_value(request.lora_name.as_str()));
    set_member(&mut body, "source", object_value(source));
    proof {
        reveal_strlit("lora_name");
        reveal_strlit("source");
        assert("lora_name"@.len() != "source"@.len());
        assert(object_members(body).dom() =~= set!["lora_name"@, "source"@]);
    }
    object_value(body)
}

/// What the engine is asked in order to unload the adapter that a path names.
pub fn unload_lora_request(path: &str) -> (body: Value)
    ensures
        json_is_object(body),
        json_members(body).dom() == set!["lora_name"@],
        has_text(body, "lora_name"@, path_name(path@)),
{
    let mut body = new_object();
    set_member(&mut body, "lora_name", text_value(lora_name_of_path(path).as_str()));
    assert(object_members(body).dom() =~= set!["lora_name"@]);
    object_value(body)
}

/// What the engine is asked in order to list the adapters: nothing in particular.
pub fn list_loras_request() -> (body: Value)
    ensures
        json_is_object(body),
        json_members(body).dom() == Set::<Seq<char>>::empty(),
{
    let body = new_object();
    assert(object_members(body).dom() =~= Set::empty());
    object_value(body)
}

/// What is answered with a file.
pub enum FileReply {
    Bytes(Vec<u8>),
    Text(TextReply),
}

/// Answers with a file of a model: `found` is what reading it yielded, where it is registered.
pub fn metadata_file_handler(found: Option<Result<Vec<u8>, String>>) -> (reply: FileReply)
    ensures
        match found {
            None => reply is Text && replies(reply->Text_0, 404, "Not found"@),
            Some(Ok(bytes)) => reply == FileReply::Bytes(bytes),
            Some(Err(_)) => reply is Text && replies(reply->Text_0, 500, "Failed to read file"@),
        },
{
    match found {
        None => FileReply::Text(TextReply { status: 404, body: "Not found".to_owned() }),
        Some(Ok(bytes)) => FileReply::Bytes(bytes),
        Some(Err(_)) => FileReply::Text(
            TextReply { status: 500, body: "Failed to read file".to_owned() },
        ),
    }
}

/// The engine of this process that serves `portname_name`. Engines of other processes are not asked.
pub fn find_lora_engine<'a, E>(engines: &'a Dict<String, E>, portname_name: &str) -> (engine:
    Result<&'a E, String>)
    ensures
        if engines@.contains_key(portname_name@) {
            engine is Ok && *engine->Ok_0 == engines@[portname_name@]
        } else {
            engine is Err && engine->Err_0@ == "PortName '"@ + portname_name@
                + "' not found in local registry. Make sure it's registered with .register_local_engine()"@
        },
{
    match engines.get(&portname_name.to_owned()) {
        Some(engine) => Ok(engine),
        None => {
            let mut text = concat2("PortName '", portname_name);
            text.append(
                "' not found in local registry. Make sure it's registered with .register_local_engine()",
            );
            Err(text)
        },
    }
}

/// The data of the first increment that an engine answered with. An increment without data counts as
/// one with a null.
pub fn first_response(
    portname_name: &str,
    first: Result<Option<Annotated<Value>>, String>,
) -> (data: Result<Value, String>)
    ensures
        match first {
            Err(text) => data == Err::<Value, String>(text),
            Ok(None) => data is Err && data->Err_0@ == "No response received from portname '"@
                + portname_name@ + "'"@,
            Ok(Some(response)) => data is Ok && match response.data {
                Some(value) => data->Ok_0 == value,
                None => json_is_null(data->Ok_0),
            },
        },
{
    match first {
        Err(text) => Err(text),
        Ok(None) => {
            let mut text = concat2("No response received from portname '", portname_name);
            text.append("'");
            Err(text)
        },
        Ok(Some(response)) => match response.data {
            Some(value) => Ok(value),
            None => Ok(null()),
        },
    }
}

/// What an engine said: its data where that reads as a response, else what can be found in it.
pub fn call_lora_endpoint(strict: Option<LoraResponse>, response_data: &Value) -> (response:
    LoraResponse)
    ensures
        match strict {
            Some(parsed) => response == parsed,
            None => is_found_in(response, *response_data),
        },
{
    match strict {
        Some(parsed) => parsed,
        None => parse_lora_response(response_data),
    }
}

/// The text of a member.
pub open spec fn member_text(data: Value, key: Seq<char>) -> Option<Seq<char>> {
    if json_members(data).contains_key(key) {
        json_text(json_members(data)[key])
    } else {
        None
    }
}

/// The number of a member.
pub open spec fn member_unsigned(data: Value, key: Seq<char>) -> Option<u64> {
    if json_members(data).contains_key(key) {
        json_unsigned(json_members(data)[key])
    } else {
        None
    }
}

/// Whether an optional text has that view.
pub open spec fn is_text(text: Option<String>, expected: Option<Seq<char>>) -> bool {
    match expected {
        Some(s) => text is Some && text->Some_0@ == s,
        None => text is None,
    }
}

/// Whether a response holds what can be found in a JSON value: members of the right type, and success
/// where no status is told.
pub open spec fn is_found_in(response: LoraResponse, data: Value) -> bool {
    &&& response.status@ == match member_text(data, "status"@) {
        Some(status) => status,
        None => "success"@,
    }
    &&& is_text(response.message, member_text(data, "message"@))
    &&& is_text(response.lora_name, member_text(data, "lora_name"@))
    &&& response.lora_id == member_unsigned(data, "lora_id"@)
    &&& response.loras == if json_members(data).contains_key("loras"@) {
        Some(json_members(data)["loras"@])
    } else {
        None
    }
    &&& response.count == match member_unsigned(data, "count"@) {
        Some(count) => Some(count as usize),
        None => None,
    }
}

fn read_text(data: &Value, key: &str) -> (text: Option<String>)
    ensures
        is_text(text, member_text(*data, key@)),
{
    match json_member(data, key) {
        Some(member) => json_as_text(&member),
        None => None,
    }
}

fn read_unsigned(data: &Value, key: &str) -> (number: Option<u64>)
    ensures
        number == member_unsigned(*data, key@),
{
    match json_member(data, key) {
        Some(member) => json_as_u64(&member),
        None => None,
    }
}

/// Finds in a JSON value what a response holds.
pub fn parse_lora_response(response_data: &Value) -> (response: LoraResponse)
    ensures
        is_found_in(response, *response_data),
{
    let status = match read_text(response_data, "status") {
        Some(status) => status,
        None => "success".to_owned(),
    };
    let count = match read_unsigned(response_data, "count") {
        Some(count) => Some(
            #[verifier::truncate]
            (count as usize),
        ),
        None => None,
    };
    LoraResponse {
        status,
        message: read_text(response_data, "message"),
        lora_name: read_text(response_data, "lora_name"),
        lora_id: read_unsigned(response_data, "lora_id"),
        loras: json_member(response_data, "loras"),
        count,
    }
}

/// A status code and what went wrong.
pub struct ErrorReply {
    pub status: u16,
    pub error: String,
    pub message: String,
}

/// Whether a reply has that status and says that.
pub open spec fn says(
    reply: ErrorReply,
    status: u16,
    error: Seq<char>,
    message: Seq<char>,
) -> bool {
    reply.status == status && reply.error@ == error && reply.message@ == message
}

/// Whether `body` tells what went wrong.
pub open spec fn is_error_body(body: Value, reply: ErrorReply) -> bool {
    &&& json_is_object(body)
    &&& json_members(body).dom() == set!["error"@, "message"@]
    &&& has_text(body, "error"@, reply.error@)
    &&& has_text(body, "message"@, reply.message@)
}

/// The body of an answer that tells what went wrong.
pub fn error_body(reply: &ErrorReply) -> (body: Value)
    ensures
        is_error_body(body, *reply),
{
    let mut body = new_object();
    set_member(&mut body, "error", text_value(reply.error.as_str()));
    set_member(&mut body, "message", text_value(reply.message.as_str()));
    proof {
        reveal_strlit("error");
        reveal_strlit("message");
        assert("error"@.len() != "message"@.len());
        assert(object_members(body).dom() =~= set!["error"@, "message"@]);
    }
    object_value(body)
}

/// The answer that tells what went wrong, as it is sent.
pub fn error_text(reply: &ErrorReply) -> (sent: TextReply)
    ensures
        exists|body: Value| #[trigger]
            is_error_body(body, *reply) && replies(sent, reply.status, json_written(body)),
{
    let body = error_body(reply);
    TextReply { status: reply.status, body: write_json(&body) }
}

/// Whether a value is an object without members.
pub open spec fn is_empty_object(value: Value) -> bool {
    json_is_object(value) && forall|key: Seq<char>| !(#[trigger] json_members(
        value,
    ).contains_key(key))
}

/// What a request to a callback of the engine passes on: its body as JSON, where no body stands for an
/// object without members.
pub fn engine_request(body: &Vec<u8>) -> (request: Result<Value, ErrorReply>)
    ensures
        if body@.len() == 0 {
            request is Ok && is_empty_object(request->Ok_0)
        } else {
            match json_parse(body@) {
                Ok(value) => request == Ok::<Value, ErrorReply>(value),
                Err(text) => request is Err && says(
                    request->Err_0,
                    400,
                    "Invalid JSON"@,
                    text,
                ),
            }
        },
{
    if body.len() == 0 {
        return Ok(object_value(new_object()));
    }
    let parsed = parse_json(body);
    read_engine_body(parsed)
}

/// What a body passes on, given what it reads as.
pub fn read_engine_body(parsed: Result<Value, String>) -> (request: Result<Value, ErrorReply>)
    ensures
        match parsed {
            Ok(value) => request == Ok::<Value, ErrorReply>(value),
            Err(text) => request is Err && says(request->Err_0, 400, "Invalid JSON"@, text@),
        },
{
    match parsed {
        Ok(value) => Ok(value),
        Err(text) => Err(
            ErrorReply { status: 400, error: "Invalid JSON".to_owned(), message: text },
        ),
    }
}

/// The callback that answers a request below `/engine/`, and what it is passed. A body that cannot be
/// read is refused before the callback is looked for.
pub fn engine_route_handler<'a, F>(
    routes: &'a Dict<String, F>,
    path: &str,
    body: &Vec<u8>,
) -> (call: Result<(&'a F, Value), ErrorReply>)
    ensures
        if body@.len() > 0 && json_parse(body@) is Err {
            call is Err && says(call->Err_0, 400, "Invalid JSON"@, json_parse(body@)->Err_0)
        } else if !routes@.contains_key(path@) {
            call is Err && says(
                call->Err_0,
                404,
                "Route not found"@,
                "Route /engine/"@ + path@ + " not found"@,
            )
        } else {
            &&& call is Ok
            &&& *call->Ok_0.0 == routes@[path@]
            &&& body@.len() > 0 ==> json_parse(body@) == Ok::<Value, Seq<char>>(call->Ok_0.1)
            &&& body@.len() == 0 ==> is_empty_object(call->Ok_0.1)
        },
{
    match engine_request(body) {
        Err(reply) => Err(reply),
        Ok(request) => match routes.get(&path.to_owned()) {
            Some(callback) => Ok((callback, request)),
            None => {
                let mut message = concat2("Route /engine/", path);
                message.append(" not found");
                Err(ErrorReply { status: 404, error: "Route not found".to_owned(), message })
            },
        },
    }
}

/// What is answered with the outcome of a callback: a value that it returned is written as JSON.
pub fn engine_outcome(outcome: Result<Value, String>) -> (reply: Result<TextReply, ErrorReply>)
    ensures
        match outcome {
            Ok(value) => reply is Ok && replies(reply->Ok_0, 200, json_written(value)),
            Err(text) => reply is Err && says(reply->Err_0, 500, "Handler error"@, text@),
        },
{
    match outcome {
        Ok(value) => written_outcome(Ok(write_json(&value))),
        Err(text) => written_outcome(Err(text)),
    }
}

/// What is answered with the outcome of a callback, of which a success is given as text.
pub fn written_outcome(outcome: Result<String, String>) -> (reply: Result<TextReply, ErrorReply>)
    ensures
        match outcome {
            Ok(text) => reply is Ok && replies(reply->Ok_0, 200, text@),
            Err(text) => reply is Err && says(reply->Err_0, 500, "Handler error"@, text@),
        },
{
    match outcome {
        Ok(text) => Ok(TextReply { status: 200, body: text }),
        Err(text) => Err(
            ErrorReply { status: 500, error: "Handler error".to_owned(), message: text },
        ),
    }
}

/// A probe succeeds exactly where it says that the process is ready.
pub proof fn law_probe_status_matches_words(healthy: bool, status: u16, words: Seq<char>)
    requires
        status == (if healthy {
            200u16
        } else {
            503u16
        }),
        words == health_label(
            if healthy {
                HealthStatus::Ready
            } else {
                HealthStatus::NotReady
            },
        ),
    ensures
        (status == 200) == (words == "ready"@),
{
    reveal_strlit("ready");
    reveal_strlit("notready");
    assert("ready"@.len() == 5 && "notready"@.len() == 8);
}

/// The address of a server is its host and its port with a colon in between; an address of IPv6
/// stands in brackets, with its scope behind a percent sign where it has one.
pub proof fn law_address_of_a_server<H>(
    ip: String,
    ipv6: bool,
    scope_id: u32,
    port: u16,
    handle: Option<H>,
    info: SystemStatusServerInfo<H>,
    address: String,
    hostname: String,
    number: u16,
    port_text: String,
    scope_text: String,
    host: &str,
    plain: String,
)
    requires
        call_ensures(
            SystemStatusServerInfo::<H>::new,
            (ip, ipv6, scope_id, port, handle),
            info,
        ),
        call_ensures(SystemStatusServerInfo::<H>::address, (&info,), address),
        call_ensures(SystemStatusServerInfo::<H>::hostname, (&info,), hostname),
        call_ensures(SystemStatusServerInfo::<H>::port, (&info,), number),
        call_ensures(to_decimal, (port as u64,), port_text),
        call_ensures(to_decimal, (scope_id as u64,), scope_text),
        host@ == ip@,
        call_ensures(write_host_port, (host, port), plain),
    ensures
        hostname@ == ip@,
        number == port,
        info.handle is Some == handle is Some,
        handle is Some ==> *info.handle->Some_0 == handle->Some_0,
        !ipv6 ==> address@ == plain@,
        ipv6 && scope_id == 0 ==> address@ == "["@ + ip@ + "]:"@ + port_text@,
        ipv6 && scope_id != 0 ==> address@ == "["@ + (ip@ + "%"@ + scope_text@) + "]:"@ + port_text@,
{
}

/// What a server answers from is what it was given.
pub proof fn law_state_keeps_what_it_was_given<D, M>(
    drt: Arc<D>,
    metadata: Option<Arc<M>>,
    state: Result<SystemStatusState<D, M>, String>,
    found: &Arc<D>,
    found_metadata: Option<&Arc<M>>,
)
    requires
        call_ensures(SystemStatusState::<D, M>::new, (drt, metadata), state),
        state is Ok ==> call_ensures(SystemStatusState::<D, M>::drt, (&state->Ok_0,), found),
        state is Ok ==> call_ensures(
            SystemStatusState::<D, M>::discovery_metadata,
            (&state->Ok_0,),
            found_metadata,
        ),
    ensures
        state is Ok,
        *found == drt,
        found_metadata is Some == metadata is Some,
        metadata is Some ==> *found_metadata->Some_0 == metadata->Some_0,
{
}

/// Requests about adapters are answered exactly where the value says `true`, in any case. Switching
/// them on adds two paths and takes none away: every other path is answered either way, by the
/// same handler.
pub proof fn law_adapters_add_two_paths<N, R, G>(
    host: &str,
    port: u16,
    health: &SystemHealth<N, R, G>,
    value: Option<&str>,
    enabled: bool,
    plan: ServerPlan,
    plain: ServerPlan,
    address: String,
    health_path: &str,
    live_path: &str,
)
    requires
        call_ensures(lora_enabled, (value,), enabled),
        call_ensures(spawn_system_status_server::<N, R, G>, (host, port, health, value), plan),
        call_ensures(
            spawn_system_status_server::<N, R, G>,
            (host, port, health, None::<&str>),
            plain,
        ),
        call_ensures(write_host_port, (host, port), address),
        call_ensures(SystemHealth::<N, R, G>::health_path, (health,), health_path),
        call_ensures(SystemHealth::<N, R, G>::live_path, (health,), live_path),
    ensures
        enabled <==> value is Some && lowercase(value->Some_0@) == "true"@,
        plan.address@ == address@,
        plain.routes@.len() == 6,
        plan.routes@.len() == if enabled {
            8int
        } else {
            6int
        },
        plain.routes@[0].path@ == health_path@ && plain.routes@[0].handler == Handler::Health,
        plain.routes@[1].path@ == live_path@ && plain.routes@[1].handler == Handler::Health,
        plain.routes@[2].path@ == "/metrics"@ && plain.routes@[2].handler == Handler::Metrics,
        plain.routes@[3].path@ == "/metadata"@ && plain.routes@[3].handler == Handler::Metadata,
        plain.routes@[4].path@ == "/engine/{*path}"@ && plain.routes@[4].handler == Handler::Engine,
        plain.routes@[5].path@ == "/v1/metadata/{model_slug}/{model_suffix}/{*filename}"@
            && plain.routes@[5].handler == Handler::MetadataFile,
        forall|i: int|
            0 <= i < 5 ==> (#[trigger] plan.routes@[i]).path@ == plain.routes@[i].path@
                && plan.routes@[i].handler == plain.routes@[i].handler,
        plan.routes@.last().path@ == plain.routes@[5].path@ && plan.routes@.last().handler
            == plain.routes@[5].handler,
        enabled ==> plan.routes@[5].path@ == "/v1/loras"@ && plan.routes@[5].handler
            == Handler::Loras,
        enabled ==> plan.routes@[6].path@ == "/v1/loras/{*lora_name}"@ && plan.routes@[6].handler
            == Handler::UnloadLora,
{
}

/// A probe succeeds exactly where the process is reported as healthy, and tells the status of every
/// endpoint as it is reported, and for how long the process has been running.
pub proof fn law_probe_tells_the_report<N, R, G>(
    health: &SystemHealth<N, R, G>,
    now: u64,
    reply: HealthReply,
    report: (bool, Dict<String, String>),
    elapsed: u64,
    endpoint: Seq<char>,
)
    requires
        call_ensures(health_handler::<N, R, G>, (health, now), reply),
        call_ensures(SystemHealth::<N, R, G>::get_health_status, (health,), report),
        call_ensures(SystemHealth::<N, R, G>::uptime, (health, now), elapsed),
    ensures
        report.0 ==> reply.status == 200 && reply.health@ == "ready"@,
        !report.0 ==> reply.status == 503 && reply.health@ == "notready"@,
        reply.uptime == elapsed,
        reply.portnames@.contains_key(endpoint) == report.1@.contains_key(endpoint),
        report.1@.contains_key(endpoint) ==> reply.portnames@[endpoint]@ == report.1@[endpoint]@,
{
    assert(reply.portnames@.dom().contains(endpoint) == report.1@.dom().contains(endpoint));
    if report.1@.contains_key(endpoint) {
        assert(report.1@.dom().contains(endpoint));
        assert(health@.endpoints.contains_key(endpoint));
    }
}

/// What is sent in answer to a probe holds its status in words, the uptime in seconds and
/// nanoseconds, and every endpoint.
pub proof fn law_probe_body(reply: HealthReply, body: Value, endpoint: Seq<char>)
    requires
        call_ensures(health_body, (&reply,), body),
    ensures
        member_text(body, "status"@) == Some(reply.health@),
        json_members(body).contains_key("uptime"@),
        json_members(body).contains_key("portnames"@),
        ({
            let uptime = json_members(body)["uptime"@];
            let secs = member_unsigned(uptime, "secs"@);
            let nanos = member_unsigned(uptime, "nanos"@);
            secs is Some && nanos is Some && secs->Some_0 * 1_000_000_000 + nanos->Some_0
                == reply.uptime && nanos->Some_0 < 1_000_000_000
        }),
        reply.portnames@.contains_key(endpoint) ==> member_text(
            json_members(body)["portnames"@],
            endpoint,
        ) == Some(reply.portnames@[endpoint]@),
        !reply.portnames@.contains_key(endpoint) ==> !json_members(
            json_members(body)["portnames"@],
        ).contains_key(endpoint),
        json_is_object(body),
        json_members(body).contains_key(endpoint) ==> endpoint == "status"@ || endpoint
            == "uptime"@ || endpoint == "portnames"@,
        json_members(json_members(body)["uptime"@]).contains_key(endpoint) ==> endpoint == "secs"@
            || endpoint == "nanos"@,
        json_is_object(json_members(body)["uptime"@]),
        json_is_object(json_members(body)["portnames"@]),
{
    assert(json_members(body).dom().contains(endpoint) ==> set![
        "status"@,
        "uptime"@,
        "portnames"@,
    ].contains(endpoint));
    assert(json_members(json_members(body)["uptime"@]).dom().contains(endpoint) ==> set![
        "secs"@,
        "nanos"@,
    ].contains(endpoint));
    let uptime = json_members(body)["uptime"@];
    assert(json_members(body).dom().contains("uptime"@));
    assert(json_members(body).dom().contains("portnames"@));
    assert(json_members(uptime).dom().contains("secs"@));
    assert(json_members(uptime).dom().contains("nanos"@));
    let ports = json_members(body)["portnames"@];
    assert(json_members(ports).dom().contains(endpoint) == reply.portnames@.dom().contains(
        endpoint,
    ));
}

/// What could be produced is answered with success and as it is; what could not is answered with a
/// failure; what is not there, with that it is not found.
pub proof fn law_success_is_what_was_produced(
    text: String,
    failure: String,
    bytes: Vec<u8>,
    metrics: TextReply,
    no_metrics: TextReply,
    metadata: TextReply,
    bad_metadata: TextReply,
    no_metadata: TextReply,
    file: FileReply,
    bad_file: FileReply,
    no_file: FileReply,
    unknown: TextReply,
)
    requires
        call_ensures(metrics_handler, (Ok::<String, String>(text),), metrics),
        call_ensures(metrics_handler, (Err::<String, String>(failure),), no_metrics),
        call_ensures(metadata_handler, (Some(Ok::<String, String>(text)),), metadata),
        call_ensures(metadata_handler, (Some(Err::<String, String>(failure)),), bad_metadata),
        call_ensures(metadata_handler, (None::<Result<String, String>>,), no_metadata),
        call_ensures(metadata_file_handler, (Some(Ok::<Vec<u8>, String>(bytes)),), file),
        call_ensures(metadata_file_handler, (Some(Err::<Vec<u8>, String>(failure)),), bad_file),
        call_ensures(metadata_file_handler, (None::<Result<Vec<u8>, String>>,), no_file),
        call_ensures(fallback, (), unknown),
    ensures
        metrics.status == 200 && metrics.body@ == text@,
        no_metrics.status == 500 && no_metrics.body@ == "Failed to get metrics"@,
        metadata.status == 200 && metadata.body@ == text@,
        bad_metadata.status == 500 && bad_metadata.body@ == "Failed to serialize metadata"@,
        no_metadata.status == 404 && no_metadata.body@ == "Discovery metadata not available"@,
        file == FileReply::Bytes(bytes),
        bad_file is Text && bad_file->Text_0.status == 500 && bad_file->Text_0.body@
            == "Failed to read file"@,
        no_file is Text && no_file->Text_0.status == 404 && no_file->Text_0.body@ == "Not found"@,
        unknown.status == 404 && unknown.body@ == "Route not found"@,
{
}

/// What the engine says of an adapter is passed on, as a failure exactly where it says so itself;
/// where the engine says nothing, the reason is, with the name of the adapter. A list is a success
/// whatever it says.
pub proof fn law_word_of_the_engine_is_passed_on(
    request: LoadLoraRequest,
    path: &str,
    name: String,
    response: LoraResponse,
    failure: String,
    loaded: LoraReply,
    not_loaded: LoraReply,
    unloaded: LoraReply,
    not_unloaded: LoraReply,
    listed: LoraReply,
    not_listed: LoraReply,
)
    requires
        call_ensures(lora_name_of_path, (path,), name),
        call_ensures(load_lora_handler, (request, Ok::<LoraResponse, String>(response)), loaded),
        call_ensures(load_lora_handler, (request, Err::<LoraResponse, String>(failure)), not_loaded),
        call_ensures(unload_lora_handler, (path, Ok::<LoraResponse, String>(response)), unloaded),
        call_ensures(
            unload_lora_handler,
            (path, Err::<LoraResponse, String>(failure)),
            not_unloaded,
        ),
        call_ensures(list_loras_handler, (Ok::<LoraResponse, String>(response),), listed),
        call_ensures(list_loras_handler, (Err::<LoraResponse, String>(failure),), not_listed),
    ensures
        loaded.body == response && unloaded.body == response && listed.body == response,
        response.status@ == "error"@ ==> loaded.status == 500 && unloaded.status == 500,
        response.status@ != "error"@ ==> loaded.status == 200 && unloaded.status == 200,
        listed.status == 200,
        not_loaded.status == 500 && not_unloaded.status == 500 && not_listed.status == 500,
        not_loaded.body.status@ == "error"@ && not_loaded.body.message is Some
            && not_loaded.body.message->Some_0@ == failure@,
        not_unloaded.body.status@ == "error"@ && not_unloaded.body.message is Some
            && not_unloaded.body.message->Some_0@ == failure@,
        not_listed.body.status@ == "error"@ && not_listed.body.message is Some
            && not_listed.body.message->Some_0@ == failure@,
        not_loaded.body.lora_name is Some && not_loaded.body.lora_name->Some_0@
            == request.lora_name@,
        not_unloaded.body.lora_name is Some && not_unloaded.body.lora_name->Some_0@ == name@,
        not_listed.body.lora_name is None,
        not_loaded.body.lora_id is None && not_loaded.body.loras is None
            && not_loaded.body.count is None,
{
}

/// A slash at the start of a path does not belong to the name of an adapter; a second one does.
pub proof fn law_name_in_a_path(
    rest: Seq<char>,
    plain: &str,
    slashed: &str,
    name: String,
    same: String,
)
    requires
        plain@ == rest,
        slashed@ == seq!['/'] + rest,
        call_ensures(lora_name_of_path, (plain,), name),
        call_ensures(lora_name_of_path, (slashed,), same),
    ensures
        same@ == rest,
        rest.len() == 0 || rest[0] != '/' ==> name@ == rest,
{
    assert(slashed@.drop_first() =~= rest);
}

/// What the engine is asked holds what was asked for, and nothing else.
pub proof fn law_engine_is_asked_what_was_asked(
    request: LoadLoraRequest,
    path: &str,
    name: String,
    loading: Value,
    unloading: Value,
    listing: Value,
    key: Seq<char>,
)
    requires
        call_ensures(load_lora_request, (&request,), loading),
        call_ensures(lora_name_of_path, (path,), name),
        call_ensures(unload_lora_request, (path,), unloading),
        call_ensures(list_loras_request, (), listing),
    ensures
        member_text(loading, "lora_name"@) == Some(request.lora_name@),
        json_members(loading).contains_key("source"@),
        member_text(json_members(loading)["source"@], "uri"@) == Some(request.source.uri@),
        json_members(json_members(loading)["source"@]).contains_key(key) ==> key == "uri"@,
        json_members(loading).contains_key(key) ==> key == "lora_name"@ || key == "source"@,
        member_text(unloading, "lora_name"@) == Some(name@),
        json_members(unloading).contains_key(key) ==> key == "lora_name"@,
        !json_members(listing).contains_key(key),
        json_is_object(loading) && json_is_object(unloading) && json_is_object(listing),
{
    assert(json_members(loading).dom().contains(key) ==> set!["lora_name"@, "source"@].contains(key));
    assert(json_members(unloading).dom().contains(key) ==> set!["lora_name"@].contains(key));
    assert(json_members(loading).dom().contains("source"@));
    assert(json_members(json_members(loading)["source"@]).dom().contains(key) ==> set![
        "uri"@,
    ].contains(key));
}

/// What can be found in the data of an engine: each member of its own name, where it is of the right
/// kind. A status that is not told counts as success. A response that reads as one is taken as it is.
pub proof fn law_found_in_the_data(
    data: Value,
    response: LoraResponse,
    strict: LoraResponse,
    taken: LoraResponse,
    loose: LoraResponse,
)
    requires
        call_ensures(parse_lora_response, (&data,), response),
        call_ensures(call_lora_endpoint, (Some(strict), &data), taken),
        call_ensures(call_lora_endpoint, (None::<LoraResponse>, &data), loose),
    ensures
        member_text(data, "status"@) is Some ==> response.status@
            == member_text(data, "status"@)->Some_0,
        member_text(data, "status"@) is None ==> response.status@ == "success"@,
        response.message is Some == member_text(data, "message"@) is Some,
        response.message is Some ==> Some(response.message->Some_0@)
            == member_text(data, "message"@),
        response.lora_name is Some == member_text(data, "lora_name"@) is Some,
        response.lora_name is Some ==> Some(response.lora_name->Some_0@)
            == member_text(data, "lora_name"@),
        response.lora_id == member_unsigned(data, "lora_id"@),
        response.loras is Some == json_members(data).contains_key("loras"@),
        response.loras is Some ==> response.loras->Some_0 == json_members(data)["loras"@],
        response.count is Some == member_unsigned(data, "count"@) is Some,
        response.count is Some ==> response.count->Some_0
            == member_unsigned(data, "count"@)->Some_0 as usize,
        taken == strict,
        loose.status@ == response.status@,
        loose.lora_id == response.lora_id,
        loose.loras == response.loras,
        loose.count == response.count,
        loose.message is Some == response.message is Some,
        loose.message is Some ==> loose.message->Some_0@ == response.message->Some_0@,
        loose.lora_name is Some == response.lora_name is Some,
        loose.lora_name is Some ==> loose.lora_name->Some_0@ == response.lora_name->Some_0@,
        forall|key: Seq<char>|
            member_text(data, key) is Some <==> json_members(data).contains_key(key) && json_text(
                json_members(data)[key],
            ) is Some,
{
}

/// The engine that is asked is the one that is registered under the name, and only a local one.
pub proof fn law_local_engine_is_asked<'a, E>(
    engines: &'a Dict<String, E>,
    name: &str,
    engine: Result<&'a E, String>,
)
    requires
        call_ensures(find_lora_engine::<E>, (engines, name), engine),
    ensures
        engine is Ok == engines@.contains_key(name@),
        engine is Ok ==> *engine->Ok_0 == engines@[name@],
        engine is Err ==> engine->Err_0@ == "PortName '"@ + name@
            + "' not found in local registry. Make sure it's registered with .register_local_engine()"@,
{
}

/// The first increment is what counts: its data, or null where it has none.
pub proof fn law_first_increment_counts(
    name: &str,
    increment: Annotated<Value>,
    failure: String,
    data: Result<Value, String>,
    none: Result<Value, String>,
    failed: Result<Value, String>,
)
    requires
        call_ensures(
            first_response,
            (name, Ok::<Option<Annotated<Value>>, String>(Some(increment))),
            data,
        ),
        call_ensures(first_response, (name, Ok::<Option<Annotated<Value>>, String>(None)), none),
        call_ensures(
            first_response,
            (name, Err::<Option<Annotated<Value>>, String>(failure)),
            failed,
        ),
    ensures
        data is Ok,
        increment.data is Some ==> data->Ok_0 == increment.data->Some_0,
        increment.data is None ==> json_is_null(data->Ok_0),
        none is Err && none->Err_0@ == "No response received from portname '"@ + name@ + "'"@,
        failed == Err::<Value, String>(failure),
{
}

/// A callback is called exactly where its path is registered and the body can be read, with what the
/// body holds; no body stands for an object without members. Neither the body nor the path makes up
/// for the other.
pub proof fn law_callback_gets_the_body<'a, F>(
    routes: &'a Dict<String, F>,
    path: &str,
    body: &Vec<u8>,
    call: Result<(&'a F, Value), ErrorReply>,
    request: Result<Value, ErrorReply>,
)
    requires
        call_ensures(engine_route_handler::<F>, (routes, path, body), call),
        call_ensures(engine_request, (body,), request),
    ensures
        call is Ok == (request is Ok && routes@.contains_key(path@)),
        call is Ok ==> *call->Ok_0.0 == routes@[path@],
        call is Ok && body@.len() > 0 ==> call->Ok_0.1 == request->Ok_0,
        body@.len() == 0 ==> request is Ok && json_is_object(request->Ok_0) && forall|key: Seq<
            char,
        >| !(#[trigger] json_members(request->Ok_0).contains_key(key)),
        call is Ok && body@.len() == 0 ==> json_is_object(call->Ok_0.1) && forall|key: Seq<char>|
            !(#[trigger] json_members(call->Ok_0.1).contains_key(key)),
        request is Err ==> request->Err_0.status == 400 && request->Err_0.error@
            == "Invalid JSON"@,
        call is Err && request is Err ==> call->Err_0.status == 400 && call->Err_0.error@
            == request->Err_0.error@ && call->Err_0.message@ == request->Err_0.message@,
        call is Err && request is Ok ==> call->Err_0.status == 404 && call->Err_0.error@
            == "Route not found"@ && call->Err_0.message@ == "Route /engine/"@ + path@
            + " not found"@,
{
}

/// What a body reads as is passed on, and why it does not is told.
pub proof fn law_body_is_passed_on(
    value: Value,
    failure: String,
    read: Result<Value, ErrorReply>,
    refused: Result<Value, ErrorReply>,
)
    requires
        call_ensures(read_engine_body, (Ok::<Value, String>(value),), read),
        call_ensures(read_engine_body, (Err::<Value, String>(failure),), refused),
    ensures
        read == Ok::<Value, ErrorReply>(value),
        refused is Err,
        refused->Err_0.status == 400,
        refused->Err_0.error@ == "Invalid JSON"@,
        refused->Err_0.message@ == failure@,
{
}

/// The outcome of a callback is answered: with success and its value, or with a failure and its
/// reason.
pub proof fn law_outcome_is_answered(
    value: Value,
    text: String,
    failure: String,
    written: Result<TextReply, ErrorReply>,
    succeeded: Result<TextReply, ErrorReply>,
    failed: Result<TextReply, ErrorReply>,
    also_failed: Result<TextReply, ErrorReply>,
    body: Value,
    key: Seq<char>,
)
    requires
        call_ensures(written_outcome, (Ok::<String, String>(text),), written),
        call_ensures(engine_outcome, (Ok::<Value, String>(value),), succeeded),
        call_ensures(engine_outcome, (Err::<Value, String>(failure),), failed),
        call_ensures(written_outcome, (Err::<String, String>(failure),), also_failed),
        failed is Err ==> call_ensures(error_body, (&failed->Err_0,), body),
    ensures
        written is Ok && written->Ok_0.status == 200 && written->Ok_0.body@ == text@,
        succeeded is Ok && succeeded->Ok_0.status == 200 && succeeded->Ok_0.body@ == json_written(
            value,
        ),
        failed is Err && failed->Err_0.status == 500 && failed->Err_0.error@ == "Handler error"@
            && failed->Err_0.message@ == failure@,
        also_failed is Err && also_failed->Err_0.status == 500 && also_failed->Err_0.message@
            == failure@ && also_failed->Err_0.error@ == "Handler error"@,
        member_text(body, "error"@) == Some("Handler error"@),
        member_text(body, "message"@) == Some(failure@),
        json_is_object(body),
        json_members(body).contains_key(key) ==> key == "error"@ || key == "message"@,
{
    assert(json_members(body).dom().contains(key) ==> set!["error"@, "message"@].contains(key));
}

/// A server that cannot be bound tells why.
pub proof fn law_failed_binding_tells_why(text: &str, error: String)
    requires
        call_ensures(bind_error, (text,), error),
    ensures
        error@ == "Failed to bind to address: "@ + text@,
{
}

/// What is sent in answer to a probe, or to tell what went wrong, is the written form of its body,
/// with its status.
pub proof fn law_sent_is_the_written_body(
    reply: HealthReply,
    sent: TextReply,
    error: ErrorReply,
    error_sent: TextReply,
)
    requires
        call_ensures(health_text, (&reply,), sent),
        call_ensures(error_text, (&error,), error_sent),
    ensures
        sent.status == reply.status,
        error_sent.status == error.status,
        exists|body: Value|
            sent.body@ == #[trigger] json_written(body) && member_text(body, "status"@) == Some(
                reply.health@,
            ),
        exists|body: Value|
            error_sent.body@ == #[trigger] json_written(body) && member_text(body, "error"@) == Some(
                error.error@,
            ) && member_text(body, "message"@) == Some(error.message@),
{
    let body = choose|body: Value| #[trigger]
        is_health_body(body, reply) && replies(sent, reply.status, json_written(body));
    assert(sent.body@ == json_written(body));
    let told = choose|told: Value| #[trigger]
        is_error_body(told, error) && replies(error_sent, error.status, json_written(told));
    assert(error_sent.body@ == json_written(told));
}

} // verus!

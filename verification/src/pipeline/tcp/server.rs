//! The server side of the response plane: which subjects wait for a worker to call home, which
//! instance each of them was handed to, and what becomes of them when an instance goes away.

use vstd::prelude::*;
use vstd::string::*;

use crate::dict::{key_among, Dict, DictKey};
use crate::discovery::{InstanceKey, PortNameInstanceId};
use crate::ids::{fresh_uuid, is_uuid_text};
use crate::pipeline::error::PipelineError;
use crate::pipeline::tcp::message::{StreamType, TcpStreamConnectionInfo};
use crate::text::{concat2, decimal, same_text, to_decimal};

verus! {

/// How long, in nanoseconds, a removed instance refuses new subjects.
pub const TOMBSTONE_TTL: u64 = 5_000_000_000;

/// Whether a tombstone set at `since` still holds at `now`.
pub open spec fn tombstone_holds(since: u64, now: u64) -> bool {
    (if now >= since { now - since } else { 0 }) < TOMBSTONE_TTL
}

/// The tombstones that still hold at `now`.
pub open spec fn live_tombstones(tombstones: Map<InstanceKey, u64>, now: u64) -> Map<
    InstanceKey,
    u64,
> {
    Map::new(
        |id: InstanceKey| tombstones.contains_key(id) && tombstone_holds(tombstones[id], now),
        |id: InstanceKey| tombstones[id],
    )
}

/// Drops every tombstone that no longer holds at `now`.
pub fn prune_tombstones(tombstones: &mut Dict<PortNameInstanceId, u64>, now: u64)
    ensures
        final(tombstones)@ == live_tombstones(old(tombstones)@, now),
{
    let mut kept: Dict<PortNameInstanceId, u64> = Dict::new();
    let n: usize = tombstones.len();
    let mut i: usize = 0;
    while i < n
        invariant
            i <= n,
            n == tombstones.entries().len(),
            tombstones.lawful(),
            tombstones@ == old(tombstones)@,
            forall|id: InstanceKey| #[trigger]
                kept@.contains_key(id) <==> exists|j: int|
                    0 <= j < i && (#[trigger] tombstones.entries()[j]).0@ == id && tombstone_holds(
                        tombstones.entries()[j].1,
                        now,
                    ),
            forall|id: InstanceKey| #[trigger]
                kept@.contains_key(id) ==> kept@[id] == tombstones@[id],
        decreases n - i,
    {
        let (id, since) = tombstones.at(i);
        let age: u64 = if now >= *since {
            now - *since
        } else {
            0
        };
        let ghost before = kept@;
        if age < TOMBSTONE_TTL {
            kept.insert(id.copy_key(), *since);
        }
        proof {
            let entry = tombstones.entries()[i as int];
            assert forall|k: InstanceKey| #[trigger] kept@.contains_key(k) <==> exists|j: int|
                0 <= j < i + 1 && (#[trigger] tombstones.entries()[j]).0@ == k && tombstone_holds(
                    tombstones.entries()[j].1,
                    now,
                ) by {
                if before.contains_key(k) {
                    let j = choose|j: int|
                        0 <= j < i && (#[trigger] tombstones.entries()[j]).0@ == k
                            && tombstone_holds(tombstones.entries()[j].1, now);
                    assert(tombstones.entries()[j].0@ == k);
                }
                if k == entry.0@ && tombstone_holds(entry.1, now) {
                    assert(tombstones.entries()[i as int].0@ == k);
                }
            }
        }
        i = i + 1;
    }
    proof {
        let want = live_tombstones(tombstones@, now);
        assert forall|id: InstanceKey| kept@.contains_key(id) == want.contains_key(id) by {
            if want.contains_key(id) {
                let j = choose|j: int|
                    0 <= j < n && (#[trigger] tombstones.entries()[j]).0@ == id;
                assert(tombstone_holds(tombstones.entries()[j].1, now));
            }
        }
        assert(kept@ =~= want);
    }
    *tombstones = kept;
}

/// A set of subjects.
pub type SubjectSet = Dict<String, ()>;

/// The members of each entry of a dictionary of subject sets.
pub open spec fn subject_sets(sets: Map<InstanceKey, SubjectSet>) -> Map<
    InstanceKey,
    Set<Seq<char>>,
> {
    Map::new(|id: InstanceKey| sets.contains_key(id), |id: InstanceKey| sets[id]@.dom())
}

/// What a server knows of its subjects.
///
/// `T` is what waits for a request stream to be connected, `R` what waits for a response stream.
pub ghost struct Subjects<T, R> {
    pub tx: Map<Seq<char>, T>,
    pub rx: Map<Seq<char>, R>,
    /// The instance that a subject was handed to.
    pub instance_of: Map<Seq<char>, InstanceKey>,
    /// The subjects that were handed to an instance and are still pending.
    pub subjects_of: Map<InstanceKey, Set<Seq<char>>>,
    /// When each tombstone was set.
    pub removed: Map<InstanceKey, u64>,
}

impl<T, R> Subjects<T, R> {
    /// The state of a server to which nothing has happened yet.
    pub open spec fn nothing() -> Self {
        Subjects {
            tx: Map::empty(),
            rx: Map::empty(),
            instance_of: Map::empty(),
            subjects_of: Map::empty(),
            removed: Map::empty(),
        }
    }

    /// A subject's instance lists that subject, and no instance lists nothing.
    pub open spec fn consistent(self) -> bool {
        &&& forall|subject: Seq<char>| #[trigger]
            self.instance_of.contains_key(subject) ==> self.subjects_of.contains_key(
                self.instance_of[subject],
            ) && self.subjects_of[self.instance_of[subject]].contains(subject)
        &&& forall|id: InstanceKey| #[trigger]
            self.subjects_of.contains_key(id) ==> self.subjects_of[id] != Set::<Seq<char>>::empty()
    }

    /// Subject lists without `subject` in the list of `id`; an emptied list goes away.
    pub open spec fn without_subject(
        lists: Map<InstanceKey, Set<Seq<char>>>,
        id: InstanceKey,
        subject: Seq<char>,
    ) -> Map<InstanceKey, Set<Seq<char>>> {
        if !lists.contains_key(id) {
            lists
        } else if lists[id].remove(subject) == Set::<Seq<char>>::empty() {
            lists.remove(id)
        } else {
            lists.insert(id, lists[id].remove(subject))
        }
    }

    /// The state in which nothing ties `subject` to an instance.
    pub open spec fn untracked(self, subject: Seq<char>) -> Self {
        if self.instance_of.contains_key(subject) {
            Subjects {
                instance_of: self.instance_of.remove(subject),
                subjects_of: Self::without_subject(
                    self.subjects_of,
                    self.instance_of[subject],
                    subject,
                ),
                ..self
            }
        } else {
            self
        }
    }

    /// The state after a registration under the given subjects.
    pub open spec fn registered(
        self,
        request: Option<T>,
        send_subject: Seq<char>,
        response: Option<R>,
        recv_subject: Seq<char>,
    ) -> Self {
        Subjects {
            tx: match request {
                Some(t) => self.tx.insert(send_subject, t),
                None => self.tx,
            },
            rx: match response {
                Some(r) => self.rx.insert(recv_subject, r),
                None => self.rx,
            },
            ..self
        }
    }

    /// The state after the pending response stream of `subject` was given up.
    pub open spec fn recv_cancelled(self, subject: Seq<char>) -> Self {
        Subjects { rx: self.rx.remove(subject), ..self.untracked(subject) }
    }

    /// Whether `id` refuses new subjects at `now`.
    pub open spec fn refuses(self, id: InstanceKey, now: u64) -> bool {
        self.removed.contains_key(id) && tombstone_holds(self.removed[id], now)
    }

    /// The state after `subject` was handed to `id` at `now`.
    pub open spec fn associated(self, subject: Seq<char>, id: InstanceKey, now: u64) -> Self {
        let pruned = Subjects { removed: live_tombstones(self.removed, now), ..self };
        if self.refuses(id, now) {
            Subjects { rx: self.rx.remove(subject), ..pruned }
        } else {
            let others = if self.subjects_of.contains_key(id) {
                self.subjects_of[id]
            } else {
                Set::empty()
            };
            Subjects {
                instance_of: self.instance_of.insert(subject, id),
                subjects_of: self.subjects_of.insert(id, others.insert(subject)),
                ..pruned
            }
        }
    }

    /// The subjects listed for `id`.
    pub open spec fn listed(self, id: InstanceKey) -> Set<Seq<char>> {
        if self.subjects_of.contains_key(id) {
            self.subjects_of[id]
        } else {
            Set::empty()
        }
    }

    /// The state after `id` was removed at `now`.
    pub open spec fn instance_cancelled(self, id: InstanceKey, now: u64) -> Self {
        Subjects {
            rx: self.rx.remove_keys(self.listed(id)),
            instance_of: self.instance_of.remove_keys(self.listed(id)),
            subjects_of: self.subjects_of.remove(id),
            removed: live_tombstones(self.removed, now).insert(id, now),
            ..self
        }
    }
}

/// Subjects that wait for workers to call home, kept per process.
pub struct State<T, R> {
    tx_subjects: Dict<String, T>,
    rx_subjects: Dict<String, R>,
    subject_instance: Dict<String, PortNameInstanceId>,
    instance_subjects: Dict<PortNameInstanceId, SubjectSet>,
    removed_instances: Dict<PortNameInstanceId, u64>,
}

/// The instance that each subject was handed to.
spec fn instance_views(m: Map<Seq<char>, PortNameInstanceId>) -> Map<Seq<char>, InstanceKey> {
    Map::new(|s: Seq<char>| m.contains_key(s), |s: Seq<char>| m[s]@)
}

impl<T, R> View for State<T, R> {
    type V = Subjects<T, R>;

    closed spec fn view(&self) -> Subjects<T, R> {
        Subjects {
            tx: self.tx_subjects@,
            rx: self.rx_subjects@,
            instance_of: instance_views(self.subject_instance@),
            subjects_of: subject_sets(self.instance_subjects@),
            removed: self.removed_instances@,
        }
    }
}

impl<T, R> State<T, R> {
    /// A state in which nothing waits.
    pub fn new() -> (state: Self)
        ensures
            state@ == Subjects::<T, R>::nothing(),
    {
        let state = State {
            tx_subjects: Dict::new(),
            rx_subjects: Dict::new(),
            subject_instance: Dict::new(),
            instance_subjects: Dict::new(),
            removed_instances: Dict::new(),
        };
        proof {
            assert(state@.instance_of =~= Map::empty());
            assert(state@.subjects_of =~= Map::empty());
        }
        state
    }

    /// Unties `subject` from its instance, if it has one.
    fn untrack(&mut self, subject: &String)
        ensures
            final(self)@ == old(self)@.untracked(subject@),
    {
        let ghost before = self@;
        match self.subject_instance.remove(subject) {
            None => {
                assert(self@.instance_of =~= before.instance_of);
            },
            Some(id) => {
                assert(self@.instance_of =~= before.instance_of.remove(subject@));
                match self.instance_subjects.remove(&id) {
                    None => {
                        assert(self@.subjects_of =~= before.subjects_of);
                    },
                    Some(set) => {
                        let mut set = set;
                        set.remove(subject);
                        assert(set@.dom() =~= before.subjects_of[id@].remove(subject@));
                        if set.len() == 0 {
                            assert(set@.dom() =~= Set::empty());
                            assert(self@.subjects_of =~= before.subjects_of.remove(id@));
                        } else {
                            assert(set@.dom() != Set::<Seq<char>>::empty());
                            let ghost rest = self@.subjects_of;
                            assert(rest =~= before.subjects_of.remove(id@));
                            let ghost key = id@;
                            let ghost members = set@.dom();
                            self.instance_subjects.insert(id, set);
                            assert(self@.subjects_of =~= before.subjects_of.insert(key, members));
                        }
                    },
                }
            },
        }
    }
}

/// What a stream registration asks for.
pub struct StreamOptions<T, R> {
    /// The identifier of the request's context.
    pub context: String,
    /// Present when a request stream is wanted: what waits for it.
    pub request_stream: Option<T>,
    /// Present when a response stream is wanted: what waits for it.
    pub response_stream: Option<R>,
}

/// The connections that a registration opened for workers to call home on.
pub struct PendingConnections {
    pub send_stream: Option<TcpStreamConnectionInfo>,
    pub recv_stream: Option<TcpStreamConnectionInfo>,
}

/// The text `host:port`.
pub open spec fn host_port(host: Seq<char>, port: u16) -> Seq<char> {
    host + ":"@ + decimal(port as nat)
}

/// Writes `host:port`.
pub fn write_host_port(host: &str, port: u16) -> (text: String)
    ensures
        text@ == host_port(host@, port),
{
    let mut out = host.to_owned();
    out.append(":");
    out.append(to_decimal(port as u64).as_str());
    out
}

/// The connection info that a registration hands out for one of its streams.
pub open spec fn announces(
    info: Option<TcpStreamConnectionInfo>,
    wanted: bool,
    address: Seq<char>,
    subject: Seq<char>,
    context: Seq<char>,
    stream_type: StreamType,
) -> bool {
    match info {
        Some(info) => wanted && info.address@ == address && info.subject@ == subject
            && info.context@ == context && info.stream_type == stream_type,
        None => !wanted,
    }
}

/// How a server binds its listener.
#[derive(Debug, Clone)]
pub struct ServerOptions {
    /// The port to bind; zero lets the system pick one.
    pub port: u16,
    /// The network interface to bind; by default a routable local address is looked up.
    pub interface: Option<String>,
}

impl Default for ServerOptions {
    fn default() -> (options: Self)
        ensures
            options.port == 0,
            options.interface is None,
    {
        ServerOptions { port: 0, interface: None }
    }
}

impl ServerOptions {
    /// A builder that leaves every option at its default.
    pub fn builder() -> (builder: ServerOptionsBuilder)
        ensures
            builder.spec_port() is None,
            builder.spec_interface() is None,
    {
        ServerOptionsBuilder { port: None, interface: None }
    }
}

/// Collects [`ServerOptions`].
#[derive(Debug)]
pub struct ServerOptionsBuilder {
    port: Option<u16>,
    interface: Option<Option<String>>,
}

impl ServerOptionsBuilder {
    /// The port, if it was set.
    pub closed spec fn spec_port(&self) -> Option<u16> {
        self.port
    }

    /// The interface, if it was set.
    pub closed spec fn spec_interface(&self) -> Option<Option<String>> {
        self.interface
    }

    /// Sets the port.
    pub fn port(self, port: u16) -> (builder: Self)
        ensures
            builder.spec_port() == Some(port),
            builder.spec_interface() == self.spec_interface(),
    {
        ServerOptionsBuilder { port: Some(port), interface: self.interface }
    }

    /// Sets the interface.
    pub fn interface(self, interface: Option<String>) -> (builder: Self)
        ensures
            builder.spec_port() == self.spec_port(),
            builder.spec_interface() == Some(interface),
    {
        ServerOptionsBuilder { port: self.port, interface: Some(interface) }
    }

    /// The options: what was set, and the default of what was not.
    pub fn build(self) -> (options: Result<ServerOptions, PipelineError>)
        ensures
            options is Ok,
            options->Ok_0.port == self.spec_port().unwrap_or(0),
            options->Ok_0.interface == match self.spec_interface() {
                Some(interface) => interface,
                None => None,
            },
    {
        let interface = match self.interface {
            Some(interface) => interface,
            None => None,
        };
        let port: u16 = match self.port {
            Some(port) => port,
            None => 0,
        };
        Ok(ServerOptions { port, interface })
    }
}

/// Why a local address could not be found.
#[derive(Debug)]
pub enum IpLookupError {
    /// There is no routable address.
    LocalIpAddressNotFound,
    /// The lookup itself failed.
    Other(String),
}

/// Looks up the addresses of this machine.
pub trait IpResolver {
    /// A routable IPv4 address.
    fn local_ip(&self) -> Result<String, IpLookupError>;

    /// A routable IPv6 address.
    fn local_ipv6(&self) -> Result<String, IpLookupError>;
}

/// The address of the last entry for `name`: an interface may be listed once per address family.
pub open spec fn interface_address(
    interfaces: Seq<(String, String)>,
    name: Seq<char>,
) -> Option<Seq<char>>
    decreases interfaces.len(),
{
    if interfaces.len() == 0 {
        None
    } else if interfaces.last().0@ == name {
        Some(interfaces.last().1@)
    } else {
        interface_address(interfaces.drop_last(), name)
    }
}

/// The address of the interface `name`.
pub fn find_interface(
    interfaces: Result<Vec<(String, String)>, String>,
    name: &str,
) -> (host: Result<String, PipelineError>)
    ensures
        match interfaces {
            Err(text) => host == Err::<String, _>(PipelineError::LocalIpAddressError(text)),
            Ok(list) => match interface_address(list@, name@) {
                Some(address) => host is Ok && host->Ok_0@ == address,
                None => host is Err && host->Err_0 is Generic && host->Err_0->Generic_0@
                    == "Interface not found: "@ + name@,
            },
        },
{
    let list = match interfaces {
        Ok(list) => list,
        Err(text) => {
            return Err(PipelineError::LocalIpAddressError(text));
        },
    };
    let mut i: usize = list.len();
    assert(list@.take(i as int) =~= list@);
    while i > 0
        invariant
            i <= list@.len(),
            interfaces == Ok::<Vec<(String, String)>, String>(list),
            interface_address(list@, name@) == interface_address(list@.take(i as int), name@),
        decreases i,
    {
        i = i - 1;
        proof {
            assert(list@.take(i + 1).drop_last() =~= list@.take(i as int));
            assert(list@.take(i + 1).last() == list@[i as int]);
        }
        if same_text(list[i].0.as_str(), name) {
            return Ok(list[i].1.clone());
        }
    }
    Err(PipelineError::Generic(concat2("Interface not found: ", name)))
}

/// Which address to bind, given the outcome of both lookups.
///
/// The second lookup counts only where the first found no routable address; the loopback address
/// stands in only where neither found one. Any other failure is reported.
pub fn resolve_local_ip(
    local_ip: Result<String, IpLookupError>,
    local_ipv6: Result<String, IpLookupError>,
) -> (host: Result<String, PipelineError>)
    ensures
        resolved(local_ip, local_ipv6, host),
{
    let found = match local_ip {
        Err(IpLookupError::LocalIpAddressNotFound) => local_ipv6,
        other => other,
    };
    match found {
        Ok(address) => Ok(address),
        Err(IpLookupError::LocalIpAddressNotFound) => Ok("127.0.0.1".to_owned()),
        Err(IpLookupError::Other(text)) => Err(
            PipelineError::Generic(
                concat2("Failed to resolve local IP address: ", text.as_str()),
            ),
        ),
    }
}

/// Whether `host` is what the two lookups resolve to.
pub open spec fn resolved(
    local_ip: Result<String, IpLookupError>,
    local_ipv6: Result<String, IpLookupError>,
    host: Result<String, PipelineError>,
) -> bool {
    let found = if local_ip == Err::<String, _>(IpLookupError::LocalIpAddressNotFound) {
        local_ipv6
    } else {
        local_ip
    };
    match found {
        Ok(address) => host == Ok::<String, PipelineError>(address),
        Err(IpLookupError::LocalIpAddressNotFound) => host is Ok && host->Ok_0@ == "127.0.0.1"@,
        Err(IpLookupError::Other(text)) => host is Err && host->Err_0 is Generic
            && host->Err_0->Generic_0@ == "Failed to resolve local IP address: "@ + text@,
    }
}

/// Whether `host` is the address to bind: that of the interface where one is asked for, else what
/// the lookups of `resolver` resolve to, of which the second is only made where the first found no
/// routable address.
pub open spec fn is_bind_host<I: IpResolver>(
    options: ServerOptions,
    resolver: &I,
    interfaces: Result<Vec<(String, String)>, String>,
    host: Result<String, PipelineError>,
) -> bool {
    match options.interface {
        Some(name) => match interfaces {
            Err(text) => host == Err::<String, _>(PipelineError::LocalIpAddressError(text)),
            Ok(list) => match interface_address(list@, name@) {
                Some(address) => host is Ok && host->Ok_0@ == address,
                None => host is Err && host->Err_0 is Generic && host->Err_0->Generic_0@
                    == "Interface not found: "@ + name@,
            },
        },
        None => exists|local_ip: Result<String, IpLookupError>| #[trigger]
            call_ensures(I::local_ip, (resolver,), local_ip) && is_bind_address(
                resolver,
                local_ip,
                host,
            ),
    }
}

/// Whether `host` is the address to bind where the first lookup of `resolver` yielded `local_ip`.
pub open spec fn is_bind_address<I: IpResolver>(
    resolver: &I,
    local_ip: Result<String, IpLookupError>,
    host: Result<String, PipelineError>,
) -> bool {
    if local_ip == Err::<String, _>(IpLookupError::LocalIpAddressNotFound) {
        exists|local_ipv6: Result<String, IpLookupError>| #[trigger]
            call_ensures(I::local_ipv6, (resolver,), local_ipv6) && resolved(
                local_ip,
                local_ipv6,
                host,
            )
    } else {
        resolved(local_ip, local_ip, host)
    }
}

/// Whether `server` is one that serves `local_ip`, or reports that its listener was not started.
pub open spec fn serves<T, R>(
    server: Result<TcpStreamServer<T, R>, PipelineError>,
    local_ip: Seq<char>,
    started: Result<u16, String>,
) -> bool {
    match started {
        Ok(port) => server is Ok && server->Ok_0@ == Subjects::<T, R>::nothing()
            && server->Ok_0.spec_address() == host_port(local_ip, port)
            && server->Ok_0@.consistent(),
        Err(text) => server is Err && server->Err_0 is Generic && server->Err_0->Generic_0@
            == "Failed to start TcpStreamServer: "@ + text@,
    }
}

/// A service on which workers connect back in order to return response data.
pub struct TcpStreamServer<T, R> {
    local_ip: String,
    local_port: u16,
    state: State<T, R>,
}

impl<T, R> View for TcpStreamServer<T, R> {
    type V = Subjects<T, R>;

    closed spec fn view(&self) -> Subjects<T, R> {
        self.state@
    }
}

impl<T, R> TcpStreamServer<T, R> {
    /// A builder of the options.
    pub fn options_builder() -> (builder: ServerOptionsBuilder)
        ensures
            builder.spec_port() is None,
            builder.spec_interface() is None,
    {
        ServerOptions::builder()
    }

    /// The address to bind, by the interface where one is asked for, else by the resolver.
    ///
    /// `interfaces` is only looked at where an interface is asked for, the resolver only where
    /// none is.
    pub fn bind_host<I: IpResolver>(
        options: &ServerOptions,
        resolver: &I,
        interfaces: Result<Vec<(String, String)>, String>,
    ) -> (host: Result<String, PipelineError>)
        ensures
            is_bind_host(*options, resolver, interfaces, host),
    {
        match &options.interface {
            Some(name) => find_interface(interfaces, name.as_str()),
            None => {
                let local_ip = resolver.local_ip();
                let ghost first = local_ip;
                let host = match local_ip {
                    Err(IpLookupError::LocalIpAddressNotFound) => {
                        let local_ipv6 = resolver.local_ipv6();
                        let ghost second = local_ipv6;
                        let host = resolve_local_ip(
                            Err(IpLookupError::LocalIpAddressNotFound),
                            local_ipv6,
                        );
                        assert(call_ensures(I::local_ipv6, (resolver,), second));
                        host
                    },
                    other => resolve_local_ip(
                        other,
                        Err(IpLookupError::LocalIpAddressNotFound),
                    ),
                };
                assert(call_ensures(I::local_ip, (resolver,), first));
                assert(is_bind_address(resolver, first, host));
                host
            },
        }
    }

    /// A server whose listener `start` starts on the address that it is given, and of which it
    /// returns the port.
    pub fn new_with_resolver<I: IpResolver, F: FnOnce(String) -> Result<u16, String>>(
        options: &ServerOptions,
        resolver: &I,
        interfaces: Result<Vec<(String, String)>, String>,
        start: F,
    ) -> (server: Result<Self, PipelineError>)
        requires
            forall|address: String| call_requires(start, (address,)),
        ensures
            exists|host: Result<String, PipelineError>|
                #![trigger is_bind_host(*options, resolver, interfaces, host)]
                is_bind_host(*options, resolver, interfaces, host) && match host {
                    Err(error) => server == Err::<Self, PipelineError>(error),
                    Ok(local_ip) => exists|address: String, started: Result<u16, String>|
                        #![trigger call_ensures(start, (address,), started)]
                        address@ == host_port(local_ip@, options.port) && call_ensures(
                            start,
                            (address,),
                            started,
                        ) && serves(server, local_ip@, started),
                },
    {
        let host = Self::bind_host(options, resolver, interfaces);
        let ghost picked = host;
        let local_ip = match host {
            Ok(local_ip) => local_ip,
            Err(error) => {
                assert(is_bind_host(*options, resolver, interfaces, picked));
                return Err(error);
            },
        };
        let address = write_host_port(local_ip.as_str(), options.port);
        let ghost at = address;
        let started = start(address);
        let ghost outcome = started;
        let server = Self::from_listener(local_ip, started);
        assert(call_ensures(start, (at,), outcome));
        assert(is_bind_host(*options, resolver, interfaces, picked));
        server
    }

    /// The server whose listener was started on `local_ip`, with the port that it was given.
    pub fn from_listener(local_ip: String, started: Result<u16, String>) -> (server: Result<
        Self,
        PipelineError,
    >)
        ensures
            serves(server, local_ip@, started),
    {
        match started {
            Ok(local_port) => Ok(TcpStreamServer { local_ip, local_port, state: State::new() }),
            Err(text) => Err(
                PipelineError::Generic(
                    concat2("Failed to start TcpStreamServer: ", text.as_str()),
                ),
            ),
        }
    }

    /// The address on which workers call home.
    pub closed spec fn spec_address(&self) -> Seq<char> {
        host_port(self.local_ip@, self.local_port)
    }

    /// The address on which workers call home.
    pub fn address(&self) -> (address: String)
        ensures
            address@ == self.spec_address(),
    {
        write_host_port(self.local_ip.as_str(), self.local_port)
    }

    /// Opens the wanted streams under subjects that the caller picked.
    pub fn register_as(
        &mut self,
        options: StreamOptions<T, R>,
        send_subject: String,
        recv_subject: String,
    ) -> (pending: PendingConnections)
        ensures
            final(self)@ == old(self)@.registered(
                options.request_stream,
                send_subject@,
                options.response_stream,
                recv_subject@,
            ),
            final(self).spec_address() == old(self).spec_address(),
            announces(
                pending.send_stream,
                options.request_stream is Some,
                old(self).spec_address(),
                send_subject@,
                options.context@,
                StreamType::Request,
            ),
            announces(
                pending.recv_stream,
                options.response_stream is Some,
                old(self).spec_address(),
                recv_subject@,
                options.context@,
                StreamType::Response,
            ),
            old(self)@.consistent() ==> final(self)@.consistent(),
    {
        let address = self.address();
        let StreamOptions { context, request_stream, response_stream } = options;
        let send_stream = match request_stream {
            Some(waiting) => {
                self.state.tx_subjects.insert(send_subject.clone(), waiting);
                Some(
                    TcpStreamConnectionInfo {
                        address: address.clone(),
                        subject: send_subject,
                        context: context.clone(),
                        stream_type: StreamType::Request,
                    },
                )
            },
            None => None,
        };
        let recv_stream = match response_stream {
            Some(waiting) => {
                self.state.rx_subjects.insert(recv_subject.clone(), waiting);
                Some(
                    TcpStreamConnectionInfo {
                        address,
                        subject: recv_subject,
                        context,
                        stream_type: StreamType::Response,
                    },
                )
            },
            None => None,
        };
        assert(self@.instance_of == old(self)@.instance_of);
        assert(self@.subjects_of == old(self)@.subjects_of);
        PendingConnections { send_stream, recv_stream }
    }

    /// Opens the wanted streams under fresh random subjects.
    pub fn register(&mut self, options: StreamOptions<T, R>) -> (pending: PendingConnections)
        ensures
            exists|send_subject: Seq<char>, recv_subject: Seq<char>|
                {
                    &&& is_uuid_text(send_subject)
                    &&& is_uuid_text(recv_subject)
                    &&& final(self)@ == #[trigger] old(self)@.registered(
                        options.request_stream,
                        send_subject,
                        options.response_stream,
                        recv_subject,
                    )
                    &&& announces(
                        pending.send_stream,
                        options.request_stream is Some,
                        old(self).spec_address(),
                        send_subject,
                        options.context@,
                        StreamType::Request,
                    )
                    &&& announces(
                        pending.recv_stream,
                        options.response_stream is Some,
                        old(self).spec_address(),
                        recv_subject,
                        options.context@,
                        StreamType::Response,
                    )
                },
            final(self).spec_address() == old(self).spec_address(),
            old(self)@.consistent() ==> final(self)@.consistent(),
    {
        let send_subject = fresh_uuid();
        let recv_subject = fresh_uuid();
        self.register_as(options, send_subject, recv_subject)
    }

    /// Takes out what waits for the response stream of `subject`, once a worker called home.
    pub fn take_response_stream(&mut self, subject: &str) -> (taken: Result<R, String>)
        ensures
            final(self)@ == if old(self)@.rx.contains_key(subject@) {
                old(self)@.recv_cancelled(subject@)
            } else {
                old(self)@
            },
            final(self).spec_address() == old(self).spec_address(),
            match taken {
                Ok(r) => old(self)@.rx.contains_key(subject@) && r == old(self)@.rx[subject@],
                Err(text) => !old(self)@.rx.contains_key(subject@) && text@ == "Subject not found: "@
                    + subject@
                    + "; upstream publisher specified a subject unknown to the downsteam subscriber"@,
            },
            old(self)@.consistent() ==> final(self)@.consistent(),
    {
        let name = subject.to_owned();
        if self.state.rx_subjects.contains(&name) {
            match self.cancel_recv_stream(subject) {
                Some(waiting) => Ok(waiting),
                None => Err(String::new()),
            }
        } else {
            let mut text = concat2("Subject not found: ", subject);
            text.append(
                "; upstream publisher specified a subject unknown to the downsteam subscriber",
            );
            Err(text)
        }
    }

    /// Hands a registered subject to an instance.
    ///
    /// Returns `false` where the instance was removed a short while ago: the subject is then
    /// cancelled at once.
    pub fn associate_instance(&mut self, subject: &str, id: &PortNameInstanceId, now: u64) -> (ok:
        bool)
        ensures
            ok == !old(self)@.refuses(id@, now),
            final(self)@ == old(self)@.associated(subject@, id@, now),
            final(self).spec_address() == old(self).spec_address(),
            old(self)@.consistent() ==> final(self)@.consistent(),
    {
        let ghost before = self@;
        let subject = subject.to_owned();
        prune_tombstones(&mut self.state.removed_instances, now);
        if self.state.removed_instances.contains(id) {
            self.state.rx_subjects.remove(&subject);
            proof {
                if before.consistent() {
                    lemma_associated_consistent(before, subject@, id@, now);
                }
            }
            return false;
        }
        self.state.subject_instance.insert(subject.clone(), id.copy_key());
        assert(self@.instance_of =~= before.instance_of.insert(subject@, id@));
        let mut set = match self.state.instance_subjects.remove(id) {
            Some(set) => set,
            None => {
                assert(Map::<Seq<char>, ()>::empty().dom() =~= Set::empty());
                Dict::new()
            },
        };
        let ghost others = before.listed(id@);
        assert(set@.dom() =~= others);
        set.insert(subject.clone(), ());
        assert(set@.dom() =~= others.insert(subject@));
        self.state.instance_subjects.insert(id.copy_key(), set);
        assert(self@.subjects_of =~= before.subjects_of.insert(id@, others.insert(subject@)));
        proof {
            if before.consistent() {
                lemma_associated_consistent(before, subject@, id@, now);
            }
        }
        true
    }

    /// Gives up a pending response stream: whoever waits for it is told that it will not come.
    pub fn cancel_recv_stream(&mut self, subject: &str) -> (dropped: Option<R>)
        ensures
            final(self)@ == old(self)@.recv_cancelled(subject@),
            final(self).spec_address() == old(self).spec_address(),
            match dropped {
                Some(r) => old(self)@.rx.contains_key(subject@) && r == old(self)@.rx[subject@],
                None => !old(self)@.rx.contains_key(subject@),
            },
            old(self)@.consistent() ==> final(self)@.consistent(),
    {
        let subject = subject.to_owned();
        let dropped = self.state.rx_subjects.remove(&subject);
        self.state.untrack(&subject);
        proof {
            if old(self)@.consistent() {
                lemma_recv_cancelled_consistent(old(self)@, subject@);
            }
        }
        dropped
    }

    /// Gives up a pending request stream.
    pub fn cancel_send_stream(&mut self, subject: &str) -> (dropped: Option<T>)
        ensures
            final(self)@ == (Subjects { tx: old(self)@.tx.remove(subject@), ..old(self)@ }),
            final(self).spec_address() == old(self).spec_address(),
            match dropped {
                Some(t) => old(self)@.tx.contains_key(subject@) && t == old(self)@.tx[subject@],
                None => !old(self)@.tx.contains_key(subject@),
            },
            old(self)@.consistent() ==> final(self)@.consistent(),
    {
        let dropped = self.state.tx_subjects.remove(&subject.to_owned());
        assert(self@.instance_of == old(self)@.instance_of);
        assert(self@.subjects_of == old(self)@.subjects_of);
        dropped
    }

    /// Gives up every pending response stream of an instance and sets its tombstone, so that a
    /// racing [`Self::associate_instance`] is cancelled as well. Returns how many subjects were
    /// listed for the instance.
    pub fn cancel_instance_streams(&mut self, id: &PortNameInstanceId, now: u64) -> (count: usize)
        ensures
            final(self)@ == old(self)@.instance_cancelled(id@, now),
            final(self).spec_address() == old(self).spec_address(),
            old(self)@.listed(id@).finite(),
            count == old(self)@.listed(id@).len(),
            old(self)@.consistent() ==> final(self)@.consistent(),
    {
        let ghost before = self@;
        prune_tombstones(&mut self.state.removed_instances, now);
        self.state.removed_instances.insert(id.copy_key(), now);
        let subjects = match self.state.instance_subjects.remove(id) {
            Some(subjects) => subjects,
            None => {
                proof {
                    assert(self@.subjects_of =~= before.subjects_of.remove(id@));
                    assert(self@.rx =~= before.rx.remove_keys(before.listed(id@)));
                    assert(self@.instance_of =~= before.instance_of.remove_keys(before.listed(id@)));
                    if before.consistent() {
                        lemma_instance_cancelled_consistent(before, id@, now);
                    }
                }
                return 0;
            },
        };
        let count: usize = subjects.len();
        let ghost gone = before.listed(id@);
        assert(gone =~= subjects@.dom());
        assert(self@.subjects_of =~= before.subjects_of.remove(id@));
        let ghost middle = self@;
        let mut i: usize = 0;
        while i < count
            invariant
                i <= count,
                count == subjects.entries().len(),
                subjects.lawful(),
                self@.tx == middle.tx,
                self@.subjects_of == middle.subjects_of,
                self@.removed == middle.removed,
                self.spec_address() == old(self).spec_address(),
                forall|s: Seq<char>| #[trigger]
                    self@.rx.contains_key(s) <==> middle.rx.contains_key(s) && !key_among(
                        subjects.entries(),
                        i as int,
                        s,
                    ),
                forall|s: Seq<char>| #[trigger]
                    self@.rx.contains_key(s) ==> self@.rx[s] == middle.rx[s],
                forall|s: Seq<char>| #[trigger]
                    self@.instance_of.contains_key(s) <==> middle.instance_of.contains_key(s)
                        && !key_among(subjects.entries(), i as int, s),
                forall|s: Seq<char>| #[trigger]
                    self@.instance_of.contains_key(s) ==> self@.instance_of[s]
                        == middle.instance_of[s],
            decreases count - i,
        {
            let (subject, _) = subjects.at(i);
            let ghost rx0 = self@.rx;
            let ghost inst0 = self@.instance_of;
            self.state.rx_subjects.remove(subject);
            self.state.subject_instance.remove(subject);
            assert(self@.rx =~= rx0.remove(subject@));
            assert(self@.instance_of =~= inst0.remove(subject@));
            proof {
                assert forall|s: Seq<char>| #[trigger]
                    key_among(subjects.entries(), i + 1, s) == (s == subject@ || key_among(
                        subjects.entries(),
                        i as int,
                        s,
                    )) by {
                    assert(subjects.entries()[i as int].0@ == subject@);
                }
            }
            i = i + 1;
        }
        proof {
            assert forall|s: Seq<char>| #[trigger] gone.contains(s) == key_among(
                subjects.entries(),
                count as int,
                s,
            ) by {
                if gone.contains(s) {
                    assert(subjects@.contains_key(s));
                }
            }
            assert(self@.rx =~= before.rx.remove_keys(gone));
            assert(self@.instance_of =~= before.instance_of.remove_keys(gone));
            if before.consistent() {
                lemma_instance_cancelled_consistent(before, id@, now);
            }
        }
        count
    }

    /// Drops the tombstone of an instance that was announced again.
    pub fn clear_instance_tombstone(&mut self, id: &PortNameInstanceId)
        ensures
            final(self)@ == (Subjects { removed: old(self)@.removed.remove(id@), ..old(self)@ }),
            final(self).spec_address() == old(self).spec_address(),
            old(self)@.consistent() ==> final(self)@.consistent(),
    {
        self.state.removed_instances.remove(id);
        assert(self@.instance_of == old(self)@.instance_of);
        assert(self@.subjects_of == old(self)@.subjects_of);
    }
}

/// Handing a subject to an instance keeps the state consistent.
pub proof fn lemma_associated_consistent<T, R>(
    s: Subjects<T, R>,
    subject: Seq<char>,
    id: InstanceKey,
    now: u64,
)
    requires
        s.consistent(),
    ensures
        s.associated(subject, id, now).consistent(),
{
    let after = s.associated(subject, id, now);
    if !s.refuses(id, now) {
        assert forall|k: InstanceKey| #[trigger] after.subjects_of.contains_key(k) implies after.subjects_of[k]
            != Set::<Seq<char>>::empty() by {
            if k == id {
                assert(after.subjects_of[k].contains(subject));
            } else {
                assert(s.subjects_of.contains_key(k));
            }
        }
    }
}

/// Giving up a response stream keeps the state consistent.
pub proof fn lemma_recv_cancelled_consistent<T, R>(s: Subjects<T, R>, subject: Seq<char>)
    requires
        s.consistent(),
    ensures
        s.recv_cancelled(subject).consistent(),
{
    let after = s.recv_cancelled(subject);
    if s.instance_of.contains_key(subject) {
        let id = s.instance_of[subject];
        let rest = s.subjects_of[id].remove(subject);
        assert forall|x: Seq<char>| #[trigger]
            after.instance_of.contains_key(x) implies after.subjects_of.contains_key(
            after.instance_of[x],
        ) && after.subjects_of[after.instance_of[x]].contains(x) by {
            if s.instance_of[x] == id {
                assert(rest.contains(x));
            }
        }
        assert forall|k: InstanceKey| #[trigger] after.subjects_of.contains_key(k) implies after.subjects_of[k]
            != Set::<Seq<char>>::empty() by {
            if k == id {
                assert(rest != Set::<Seq<char>>::empty());
            } else {
                assert(s.subjects_of.contains_key(k));
            }
        }
    }
}

/// Removing an instance keeps the state consistent.
pub proof fn lemma_instance_cancelled_consistent<T, R>(
    s: Subjects<T, R>,
    id: InstanceKey,
    now: u64,
)
    requires
        s.consistent(),
    ensures
        s.instance_cancelled(id, now).consistent(),
{
    let after = s.instance_cancelled(id, now);
    assert forall|x: Seq<char>| #[trigger]
        after.instance_of.contains_key(x) implies after.subjects_of.contains_key(
        after.instance_of[x],
    ) && after.subjects_of[after.instance_of[x]].contains(x) by {
        assert(s.instance_of.contains_key(x));
        assert(!s.listed(id).contains(x));
    }
    assert forall|k: InstanceKey| #[trigger] after.subjects_of.contains_key(k) implies after.subjects_of[k]
            != Set::<Seq<char>>::empty() by {
        assert(s.subjects_of.contains_key(k));
    }
}

/// Once an instance was removed, a subject handed to it within the tombstone's lifetime is
/// refused and its pending response stream is dropped.
pub proof fn law_removed_instance_refuses<T, R>(
    s: Subjects<T, R>,
    id: InstanceKey,
    removed_at: u64,
    subject: Seq<char>,
    now: u64,
)
    requires
        now < removed_at + TOMBSTONE_TTL,
    ensures
        s.instance_cancelled(id, removed_at).refuses(id, now),
        !s.instance_cancelled(id, removed_at).associated(subject, id, now).rx.contains_key(subject),
{
}

/// Once the tombstone's lifetime is over, the instance takes subjects again.
pub proof fn law_tombstone_expires<T, R>(
    s: Subjects<T, R>,
    id: InstanceKey,
    removed_at: u64,
    subject: Seq<char>,
    now: u64,
)
    requires
        now >= removed_at + TOMBSTONE_TTL,
    ensures
        !s.instance_cancelled(id, removed_at).refuses(id, now),
        s.instance_cancelled(id, removed_at).associated(subject, id, now).listed(id).contains(
            subject,
        ),
        !s.instance_cancelled(id, removed_at).associated(subject, id, now).removed.contains_key(id),
{
}

/// A tombstone concerns the full identity of an instance: removing one instance leaves the
/// subjects, the lists and the admission of every other instance as they were.
pub proof fn law_tombstone_scoped<T, R>(
    s: Subjects<T, R>,
    id: InstanceKey,
    other: InstanceKey,
    removed_at: u64,
    now: u64,
)
    requires
        id != other,
        removed_at <= now,
    ensures
        s.instance_cancelled(id, removed_at).refuses(other, now) == s.refuses(other, now),
        s.instance_cancelled(id, removed_at).listed(other) == s.listed(other),
        forall|subject: Seq<char>|
            !s.listed(id).contains(subject) ==> (#[trigger] s.instance_cancelled(
                id,
                removed_at,
            ).rx.contains_key(subject) == s.rx.contains_key(subject)),
{
    if s.removed.contains_key(other) && tombstone_holds(s.removed[other], now) {
        assert(tombstone_holds(s.removed[other], removed_at));
    }
}

/// Clearing the tombstone of an announced instance admits its subjects again, whatever the time.
pub proof fn law_cleared_instance_accepts<T, R>(s: Subjects<T, R>, id: InstanceKey, now: u64)
    ensures
        !(Subjects { removed: s.removed.remove(id), ..s }).refuses(id, now),
        forall|other: InstanceKey|
            other != id ==> (#[trigger] (Subjects {
                removed: s.removed.remove(id),
                ..s
            }).refuses(other, now) == s.refuses(other, now)),
{
}

/// A response stream that was registered and handed to an instance is gone once that instance is
/// removed, together with everything that tied it to the instance.
pub proof fn law_removal_cancels_handed_subjects<T, R>(
    s: Subjects<T, R>,
    subject: Seq<char>,
    id: InstanceKey,
    handed_at: u64,
    removed_at: u64,
)
    requires
        !s.refuses(id, handed_at),
    ensures
        s.associated(subject, id, handed_at).listed(id).contains(subject),
        !s.associated(subject, id, handed_at).instance_cancelled(id, removed_at).rx.contains_key(
            subject,
        ),
        !s.associated(subject, id, handed_at).instance_cancelled(
            id,
            removed_at,
        ).instance_of.contains_key(subject),
        s.associated(subject, id, handed_at).instance_cancelled(id, removed_at).listed(id)
            == Set::<Seq<char>>::empty(),
{
}

/// What one call registers, one call takes out, and a second call finds nothing.
pub proof fn law_registered_stream_is_taken_once<T, R>(
    s: Subjects<T, R>,
    request: Option<T>,
    send_subject: Seq<char>,
    response: R,
    recv_subject: Seq<char>,
)
    ensures
        ({
            let waiting = s.registered(request, send_subject, Some(response), recv_subject);
            &&& waiting.rx.contains_key(recv_subject)
            &&& waiting.rx[recv_subject] == response
            &&& !waiting.recv_cancelled(recv_subject).rx.contains_key(recv_subject)
        }),
{
}

/// Handing a subject to an instance and giving the stream up again leaves no trace of the subject,
/// and restores the lists of a state that did not know the subject.
pub proof fn law_cancelled_stream_is_untracked<T, R>(
    s: Subjects<T, R>,
    subject: Seq<char>,
    id: InstanceKey,
    now: u64,
)
    requires
        s.consistent(),
        !s.refuses(id, now),
        !s.instance_of.contains_key(subject),
        !s.listed(id).contains(subject),
    ensures
        s.associated(subject, id, now).recv_cancelled(subject).instance_of == s.instance_of,
        s.associated(subject, id, now).recv_cancelled(subject).subjects_of == s.subjects_of,
{
    let handed = s.associated(subject, id, now);
    let after = handed.recv_cancelled(subject);
    assert(handed.subjects_of[id].remove(subject) =~= s.listed(id));
    assert(after.instance_of =~= s.instance_of);
    assert(after.subjects_of =~= s.subjects_of);
}

/// Whether a subject is listed for an instance.
pub open spec fn lists<T, R>(s: Subjects<T, R>, id: InstanceKey, subject: Seq<char>) -> bool {
    s.subjects_of.contains_key(id) && s.subjects_of[id].contains(subject)
}

/// Whether a subject waits, is handed to the same instance and is listed alike in both states.
pub open spec fn same_subject<T, R>(a: Subjects<T, R>, b: Subjects<T, R>, subject: Seq<char>) -> bool {
    &&& a.rx.contains_key(subject) == b.rx.contains_key(subject)
    &&& a.rx.contains_key(subject) ==> a.rx[subject] == b.rx[subject]
    &&& a.tx.contains_key(subject) == b.tx.contains_key(subject)
    &&& a.tx.contains_key(subject) ==> a.tx[subject] == b.tx[subject]
    &&& a.instance_of.contains_key(subject) == b.instance_of.contains_key(subject)
    &&& a.instance_of.contains_key(subject) ==> a.instance_of[subject] == b.instance_of[subject]
    &&& forall|id: InstanceKey| #[trigger] lists(a, id, subject) == lists(b, id, subject)
}

/// Giving up the response stream of one subject leaves every other subject, every request stream and
/// every tombstone as it was.
pub proof fn law_cancelled_subject_leaves_the_rest<T, R>(
    s: Subjects<T, R>,
    subject: Seq<char>,
    other: Seq<char>,
)
    requires
        other != subject,
    ensures
        !s.recv_cancelled(subject).rx.contains_key(subject),
        !s.recv_cancelled(subject).instance_of.contains_key(subject),
        same_subject(s.recv_cancelled(subject), s, other),
        s.recv_cancelled(subject).tx == s.tx,
        s.recv_cancelled(subject).removed == s.removed,
{
    let after = s.recv_cancelled(subject);
    assert forall|id: InstanceKey| #[trigger] lists(after, id, other) == lists(s, id, other) by {
        if s.instance_of.contains_key(subject) && s.instance_of[subject] == id
            && s.subjects_of.contains_key(id) {
            if s.subjects_of[id].contains(other) {
                assert(s.subjects_of[id].remove(subject).contains(other));
            }
        }
    }
}

/// The worker of one subject takes what waits for that subject and for no other: whatever waited for
/// another subject still waits for it, and nothing waits for this one any more.
pub proof fn law_taken_stream_leaves_the_rest<T, R>(
    server: &mut TcpStreamServer<T, R>,
    subject: &str,
    taken: Result<R, String>,
    other: Seq<char>,
)
    requires
        call_ensures(TcpStreamServer::<T, R>::take_response_stream, (server, subject), taken),
        other != subject@,
    ensures
        taken is Ok == old(server)@.rx.contains_key(subject@),
        taken is Ok ==> taken->Ok_0 == old(server)@.rx[subject@],
        !final(server)@.rx.contains_key(subject@),
        taken is Ok ==> !final(server)@.instance_of.contains_key(subject@),
        taken is Err ==> final(server)@ == old(server)@,
        taken is Err ==> taken->Err_0@ == "Subject not found: "@ + subject@
            + "; upstream publisher specified a subject unknown to the downsteam subscriber"@,
        same_subject(final(server)@, old(server)@, other),
        final(server)@.tx == old(server)@.tx,
        final(server)@.removed == old(server)@.removed,
        final(server).spec_address() == old(server).spec_address(),
{
    law_cancelled_subject_leaves_the_rest(old(server)@, subject@, other);
}

/// Two workers that call home one after the other each get what waits for their subject.
pub proof fn law_workers_call_home_apart<T, R>(
    first: &mut TcpStreamServer<T, R>,
    a: &str,
    taken_a: Result<R, String>,
    second: &mut TcpStreamServer<T, R>,
    b: &str,
    taken_b: Result<R, String>,
)
    requires
        call_ensures(TcpStreamServer::<T, R>::take_response_stream, (first, a), taken_a),
        *old(second) == *final(first),
        call_ensures(TcpStreamServer::<T, R>::take_response_stream, (second, b), taken_b),
        old(first)@.rx.contains_key(a@),
        old(first)@.rx.contains_key(b@),
    ensures
        taken_a == Ok::<R, String>(old(first)@.rx[a@]),
        a@ != b@ ==> taken_b == Ok::<R, String>(old(first)@.rx[b@]),
        a@ == b@ ==> taken_b is Err,
{
    if a@ != b@ {
        law_taken_stream_leaves_the_rest(first, a, taken_a, b@);
    }
}

/// Giving up a response stream hands back what waited for it, and leaves every other subject as it
/// was.
pub proof fn law_cancelled_stream_leaves_the_rest<T, R>(
    server: &mut TcpStreamServer<T, R>,
    subject: &str,
    dropped: Option<R>,
    other: Seq<char>,
)
    requires
        call_ensures(TcpStreamServer::<T, R>::cancel_recv_stream, (server, subject), dropped),
        other != subject@,
    ensures
        dropped is Some == old(server)@.rx.contains_key(subject@),
        dropped is Some ==> dropped->Some_0 == old(server)@.rx[subject@],
        !final(server)@.rx.contains_key(subject@),
        !final(server)@.instance_of.contains_key(subject@),
        same_subject(final(server)@, old(server)@, other),
        final(server)@.tx == old(server)@.tx,
        final(server)@.removed == old(server)@.removed,
        final(server).spec_address() == old(server).spec_address(),
{
    law_cancelled_subject_leaves_the_rest(old(server)@, subject@, other);
}

/// Giving up a request stream hands back what waited for it, and leaves everything else as it was.
pub proof fn law_cancelled_request_leaves_the_rest<T, R>(
    server: &mut TcpStreamServer<T, R>,
    subject: &str,
    dropped: Option<T>,
    other: Seq<char>,
)
    requires
        call_ensures(TcpStreamServer::<T, R>::cancel_send_stream, (server, subject), dropped),
        other != subject@,
    ensures
        final(server).spec_address() == old(server).spec_address(),
        dropped is Some == old(server)@.tx.contains_key(subject@),
        dropped is Some ==> dropped->Some_0 == old(server)@.tx[subject@],
        !final(server)@.tx.contains_key(subject@),
        same_subject(final(server)@, old(server)@, other),
        final(server)@.rx == old(server)@.rx,
        final(server)@.instance_of == old(server)@.instance_of,
        final(server)@.subjects_of == old(server)@.subjects_of,
        final(server)@.removed == old(server)@.removed,
{
}

/// A registration makes the wanted streams wait under their subjects, says so to the caller, and
/// leaves every other subject as it was.
pub proof fn law_registration_adds_its_own_subjects<T, R>(
    server: &mut TcpStreamServer<T, R>,
    options: StreamOptions<T, R>,
    send_subject: String,
    recv_subject: String,
    pending: PendingConnections,
    address: String,
    other: Seq<char>,
)
    requires
        call_ensures(
            TcpStreamServer::<T, R>::register_as,
            (server, options, send_subject, recv_subject),
            pending,
        ),
        call_ensures(TcpStreamServer::<T, R>::address, (&*old(server),), address),
        other != send_subject@,
        other != recv_subject@,
    ensures
        final(server).spec_address() == old(server).spec_address(),
        same_subject(final(server)@, old(server)@, other),
        final(server)@.instance_of == old(server)@.instance_of,
        final(server)@.subjects_of == old(server)@.subjects_of,
        final(server)@.removed == old(server)@.removed,
        match options.request_stream {
            Some(waiting) => {
                &&& final(server)@.tx.contains_key(send_subject@)
                &&& final(server)@.tx[send_subject@] == waiting
                &&& pending.send_stream is Some
                &&& pending.send_stream->Some_0.subject@ == send_subject@
                &&& pending.send_stream->Some_0.address@ == address@
                &&& pending.send_stream->Some_0.context@ == options.context@
                &&& pending.send_stream->Some_0.stream_type == StreamType::Request
            },
            None => pending.send_stream is None && final(server)@.tx == old(server)@.tx,
        },
        match options.response_stream {
            Some(waiting) => {
                &&& final(server)@.rx.contains_key(recv_subject@)
                &&& final(server)@.rx[recv_subject@] == waiting
                &&& pending.recv_stream is Some
                &&& pending.recv_stream->Some_0.subject@ == recv_subject@
                &&& pending.recv_stream->Some_0.address@ == address@
                &&& pending.recv_stream->Some_0.context@ == options.context@
                &&& pending.recv_stream->Some_0.stream_type == StreamType::Response
            },
            None => pending.recv_stream is None && final(server)@.rx == old(server)@.rx,
        },
{
}

/// What a registration announces for a response is what the worker that calls home under it takes.
pub proof fn law_announced_stream_is_taken<T, R>(
    server: &mut TcpStreamServer<T, R>,
    options: StreamOptions<T, R>,
    pending: PendingConnections,
    home: &mut TcpStreamServer<T, R>,
    subject: &str,
    taken: Result<R, String>,
    earlier: Seq<char>,
)
    requires
        call_ensures(TcpStreamServer::<T, R>::register, (server, options), pending),
        options.response_stream is Some,
        *old(home) == *final(server),
        pending.recv_stream is Some ==> subject@ == pending.recv_stream->Some_0.subject@,
        call_ensures(TcpStreamServer::<T, R>::take_response_stream, (home, subject), taken),
    ensures
        pending.recv_stream is Some,
        taken == Ok::<R, String>(options.response_stream->Some_0),
        options.request_stream is Some == pending.send_stream is Some,
        old(server)@.rx.contains_key(earlier) && earlier != subject@ ==> final(home)@.rx.contains_key(earlier) && final(home)@.rx[earlier] == old(server)@.rx[earlier],
{
    if earlier != subject@ {
        law_taken_stream_leaves_the_rest(home, subject, taken, earlier);
    }
}

/// An instance refuses a subject exactly within five seconds, in nanoseconds, of its removal.
pub open spec fn is_tombstoned<T, R>(s: Subjects<T, R>, id: InstanceKey, now: u64) -> bool {
    s.removed.contains_key(id) && now < s.removed[id] + 5_000_000_000
}

/// Handing a subject to an instance concerns that subject and that instance alone. Where the instance
/// refuses, the subject waits no longer; else it is listed for the instance and goes on waiting.
pub proof fn law_handed_subject<T, R>(
    server: &mut TcpStreamServer<T, R>,
    subject: &str,
    id: &PortNameInstanceId,
    now: u64,
    ok: bool,
    other: Seq<char>,
    instance: InstanceKey,
)
    requires
        call_ensures(TcpStreamServer::<T, R>::associate_instance, (server, subject, id, now), ok),
        other != subject@,
    ensures
        final(server).spec_address() == old(server).spec_address(),
        ok == !is_tombstoned(old(server)@, id@, now),
        same_subject(final(server)@, old(server)@, other),
        final(server)@.tx == old(server)@.tx,
        ok ==> {
            &&& final(server)@.rx == old(server)@.rx
            &&& final(server)@.instance_of.contains_key(subject@)
            &&& final(server)@.instance_of[subject@] == id@
            &&& lists(final(server)@, id@, subject@)
            &&& instance != id@ ==> lists(final(server)@, instance, subject@) == lists(
                old(server)@,
                instance,
                subject@,
            )
        },
        !ok ==> {
            &&& !final(server)@.rx.contains_key(subject@)
            &&& final(server)@.instance_of == old(server)@.instance_of
            &&& final(server)@.subjects_of == old(server)@.subjects_of
        },
        final(server)@.removed.contains_key(instance) == is_tombstoned(old(server)@, instance, now),
        final(server)@.removed.contains_key(instance) ==> final(server)@.removed[instance] == old(server)@.removed[instance],
{
    let after = final(server)@;
    let before = old(server)@;
    assert forall|k: InstanceKey| #[trigger] lists(after, k, other) == lists(before, k, other) by {
        if ok && k == id@ {
            assert(before.listed(k).insert(subject@).contains(other) == before.listed(k).contains(
                other,
            ));
        }
    }
}

/// Removing an instance gives up exactly the subjects that were listed for it, counts them, and
/// refuses its subjects from then on. No other subject, list or instance is touched.
pub proof fn law_removed_instance<T, R>(
    server: &mut TcpStreamServer<T, R>,
    id: &PortNameInstanceId,
    now: u64,
    count: usize,
    subject: Seq<char>,
    instance: InstanceKey,
)
    requires
        call_ensures(TcpStreamServer::<T, R>::cancel_instance_streams, (server, id, now), count),
    ensures
        final(server).spec_address() == old(server).spec_address(),
        lists(old(server)@, id@, subject) ==> !final(server)@.rx.contains_key(subject) && !final(server)@.instance_of.contains_key(subject),
        !lists(old(server)@, id@, subject) ==> {
            &&& final(server)@.rx.contains_key(subject) == old(server)@.rx.contains_key(subject)
            &&& final(server)@.rx.contains_key(subject) ==> final(server)@.rx[subject] == old(server)@.rx[subject]
            &&& final(server)@.instance_of.contains_key(subject) == old(server)@.instance_of.contains_key(subject)
            &&& final(server)@.instance_of.contains_key(subject) ==> final(server)@.instance_of[subject] == old(server)@.instance_of[subject]
        },
        final(server)@.tx == old(server)@.tx,
        !lists(final(server)@, id@, subject),
        instance != id@ ==> lists(final(server)@, instance, subject) == lists(
            old(server)@,
            instance,
            subject,
        ),
        count == if old(server)@.subjects_of.contains_key(id@) {
            old(server)@.subjects_of[id@].len()
        } else {
            0
        },
        final(server)@.removed.contains_key(id@) && final(server)@.removed[id@] == now,
        instance != id@ ==> final(server)@.removed.contains_key(instance) == is_tombstoned(
            old(server)@,
            instance,
            now,
        ),
        instance != id@ && final(server)@.removed.contains_key(instance) ==> final(server)@.removed[instance] == old(server)@.removed[instance],
{
}

/// Clearing a tombstone concerns that instance alone, and no subject.
pub proof fn law_cleared_tombstone<T, R>(
    server: &mut TcpStreamServer<T, R>,
    id: &PortNameInstanceId,
    instance: InstanceKey,
    subject: Seq<char>,
)
    requires
        call_ensures(TcpStreamServer::<T, R>::clear_instance_tombstone, (server, id), ()),
    ensures
        final(server).spec_address() == old(server).spec_address(),
        !final(server)@.removed.contains_key(id@),
        instance != id@ ==> final(server)@.removed.contains_key(instance) == old(server)@.removed.contains_key(instance),
        instance != id@ && old(server)@.removed.contains_key(instance) ==> final(server)@.removed[instance] == old(server)@.removed[instance],
        same_subject(final(server)@, old(server)@, subject),
{
}

/// A subject that was handed to an instance before the instance was removed finds nothing when its
/// worker calls home, and one that is handed to it within five seconds is refused.
pub proof fn law_removal_reaches_the_worker<T, R>(
    handing: &mut TcpStreamServer<T, R>,
    subject: &str,
    id: &PortNameInstanceId,
    handed_at: u64,
    removing: &mut TcpStreamServer<T, R>,
    removed_at: u64,
    count: usize,
    home: &mut TcpStreamServer<T, R>,
    taken: Result<R, String>,
    late: &mut TcpStreamServer<T, R>,
    late_subject: &str,
    late_at: u64,
    accepted: bool,
)
    requires
        call_ensures(
            TcpStreamServer::<T, R>::associate_instance,
            (handing, subject, id, handed_at),
            true,
        ),
        *old(removing) == *final(handing),
        call_ensures(
            TcpStreamServer::<T, R>::cancel_instance_streams,
            (removing, id, removed_at),
            count,
        ),
        *old(home) == *final(removing),
        call_ensures(TcpStreamServer::<T, R>::take_response_stream, (home, subject), taken),
        *old(late) == *final(removing),
        call_ensures(
            TcpStreamServer::<T, R>::associate_instance,
            (late, late_subject, id, late_at),
            accepted,
        ),
    ensures
        taken is Err,
        accepted == (late_at >= removed_at + 5_000_000_000),
        !accepted ==> !final(late)@.rx.contains_key(late_subject@),
{
    law_removed_instance(removing, id, removed_at, count, subject@, id@);
}

/// The last interface of a name is the one that counts.
pub proof fn law_interface_is_found_by_name(
    list: Vec<(String, String)>,
    name: &str,
    host: Result<String, PipelineError>,
    i: int,
)
    requires
        call_ensures(
            find_interface,
            (Ok::<Vec<(String, String)>, String>(list), name),
            host,
        ),
        0 <= i < list@.len(),
        list@[i].0@ == name@,
        forall|j: int| i < j < list@.len() ==> (#[trigger] list@[j]).0@ != name@,
    ensures
        host is Ok,
        host->Ok_0@ == list@[i].1@,
{
    lemma_interface_address(list@, name@, i);
}

proof fn lemma_interface_address(list: Seq<(String, String)>, name: Seq<char>, i: int)
    requires
        0 <= i < list.len(),
        list[i].0@ == name,
        forall|j: int| i < j < list.len() ==> (#[trigger] list[j]).0@ != name,
    ensures
        interface_address(list, name) == Some(list[i].1@),
    decreases list.len(),
{
    if i < list.len() - 1 {
        assert(list[list.len() - 1].0@ != name);
        assert(list.drop_last()[i] == list[i]);
        lemma_interface_address(list.drop_last(), name, i);
    }
}

/// Without an interface of the name there is no address.
pub proof fn law_unknown_interface_is_refused(
    list: Vec<(String, String)>,
    name: &str,
    host: Result<String, PipelineError>,
)
    requires
        call_ensures(
            find_interface,
            (Ok::<Vec<(String, String)>, String>(list), name),
            host,
        ),
        forall|j: int| 0 <= j < list@.len() ==> (#[trigger] list@[j]).0@ != name@,
    ensures
        host is Err,
{
    lemma_no_interface(list@, name@);
}

proof fn lemma_no_interface(list: Seq<(String, String)>, name: Seq<char>)
    requires
        forall|j: int| 0 <= j < list.len() ==> (#[trigger] list[j]).0@ != name,
    ensures
        interface_address(list, name) is None,
    decreases list.len(),
{
    if list.len() > 0 {
        assert(list[list.len() - 1].0@ != name);
        assert forall|j: int| 0 <= j < list.drop_last().len() implies (
        #[trigger] list.drop_last()[j]).0@ != name by {
            assert(list[j].0@ != name);
        }
        lemma_no_interface(list.drop_last(), name);
    }
}

/// The second lookup counts only where the first found no address, the loopback address only where
/// neither did, and any other failure is reported.
pub proof fn law_local_address(
    local_ip: Result<String, IpLookupError>,
    local_ipv6: Result<String, IpLookupError>,
    host: Result<String, PipelineError>,
)
    requires
        call_ensures(resolve_local_ip, (local_ip, local_ipv6), host),
    ensures
        local_ip is Ok ==> host is Ok && host->Ok_0@ == local_ip->Ok_0@,
        local_ip is Err && local_ip->Err_0 is Other ==> host is Err,
        local_ip is Err && local_ip->Err_0 is LocalIpAddressNotFound ==> match local_ipv6 {
            Ok(address) => host is Ok && host->Ok_0@ == address@,
            Err(IpLookupError::LocalIpAddressNotFound) => host is Ok && host->Ok_0@ == "127.0.0.1"@,
            Err(IpLookupError::Other(_)) => host is Err,
        },
{
}

/// What was set is what a server is started with; what was not has its usual value.
pub proof fn law_options_as_set<T, R>(
    builder: ServerOptionsBuilder,
    same: ServerOptionsBuilder,
    port: u16,
    interface: Option<String>,
    with_port: ServerOptionsBuilder,
    with_both: ServerOptionsBuilder,
    usual: Result<ServerOptions, PipelineError>,
    set: Result<ServerOptions, PipelineError>,
)
    requires
        call_ensures(ServerOptions::builder, (), builder),
        call_ensures(TcpStreamServer::<T, R>::options_builder, (), same),
        call_ensures(ServerOptionsBuilder::port, (builder, port), with_port),
        call_ensures(ServerOptionsBuilder::interface, (with_port, interface), with_both),
        call_ensures(ServerOptionsBuilder::build, (same,), usual),
        call_ensures(ServerOptionsBuilder::build, (with_both,), set),
    ensures
        usual is Ok && usual->Ok_0.port == 0 && usual->Ok_0.interface is None,
        set is Ok && set->Ok_0.port == port && set->Ok_0.interface == interface,
{
}

/// A server that was started has nothing waiting, and is reached at its host and the port that its
/// listener was given; one that was not tells why.
pub proof fn law_started_server<T, R>(
    local_ip: String,
    port: u16,
    text: String,
    server: Result<TcpStreamServer<T, R>, PipelineError>,
    failed: Result<TcpStreamServer<T, R>, PipelineError>,
    host: &str,
    written: String,
    number: String,
    address: String,
    subject: Seq<char>,
    id: InstanceKey,
)
    requires
        call_ensures(
            TcpStreamServer::<T, R>::from_listener,
            (local_ip, Ok::<u16, String>(port)),
            server,
        ),
        call_ensures(
            TcpStreamServer::<T, R>::from_listener,
            (local_ip, Err::<u16, String>(text)),
            failed,
        ),
        host@ == local_ip@,
        call_ensures(write_host_port, (host, port), written),
        call_ensures(crate::text::to_decimal, (port as u64,), number),
        server is Ok ==> call_ensures(
            TcpStreamServer::<T, R>::address,
            (&server->Ok_0,),
            address,
        ),
    ensures
        server is Ok,
        address@ == written@,
        written@ == local_ip@ + ":"@ + number@,
        !server->Ok_0@.rx.contains_key(subject),
        !server->Ok_0@.tx.contains_key(subject),
        !server->Ok_0@.instance_of.contains_key(subject),
        !server->Ok_0@.removed.contains_key(id),
        !lists(server->Ok_0@, id, subject),
        failed is Err && failed->Err_0 is Generic && failed->Err_0->Generic_0@
            == "Failed to start TcpStreamServer: "@ + text@,
{
}

/// The address to bind is that of the interface where one is asked for, and else what the lookups
/// resolve to: the second only counts where the first found no address.
pub proof fn law_address_to_bind<T, R, I: IpResolver>(
    options: ServerOptions,
    resolver: &I,
    interfaces: Result<Vec<(String, String)>, String>,
    host: Result<String, PipelineError>,
    name: &str,
    found: Result<String, PipelineError>,
    local_ip: String,
)
    requires
        call_ensures(
            TcpStreamServer::<T, R>::bind_host::<I>,
            (&options, resolver, interfaces),
            host,
        ),
        options.interface is Some ==> name@ == options.interface->Some_0@,
        call_ensures(find_interface, (interfaces, name), found),
    ensures
        options.interface is Some ==> host is Ok == found is Ok,
        options.interface is Some && host is Ok ==> host->Ok_0@ == found->Ok_0@,
        options.interface is None && (forall|ip: Result<String, IpLookupError>| #[trigger]
            call_ensures(I::local_ip, (resolver,), ip) ==> ip == Ok::<String, IpLookupError>(
                local_ip,
            )) ==> host == Ok::<String, PipelineError>(local_ip),
        options.interface is None && (forall|ip: Result<String, IpLookupError>| #[trigger]
            call_ensures(I::local_ip, (resolver,), ip) ==> ip == Err::<String, IpLookupError>(
                IpLookupError::LocalIpAddressNotFound,
            )) && (forall|ip: Result<String, IpLookupError>| #[trigger]
            call_ensures(I::local_ipv6, (resolver,), ip) ==> ip == Ok::<String, IpLookupError>(
                local_ip,
            )) ==> host == Ok::<String, PipelineError>(local_ip),
        options.interface is None && (forall|ip: Result<String, IpLookupError>| #[trigger]
            call_ensures(I::local_ip, (resolver,), ip) ==> ip == Err::<String, IpLookupError>(
                IpLookupError::LocalIpAddressNotFound,
            )) && (forall|ip: Result<String, IpLookupError>| #[trigger]
            call_ensures(I::local_ipv6, (resolver,), ip) ==> ip == Err::<String, IpLookupError>(
                IpLookupError::LocalIpAddressNotFound,
            )) ==> host is Ok && host->Ok_0@ == "127.0.0.1"@,
{
}

/// Tombstones that are five seconds old go away, and the younger ones stay as they are.
pub proof fn law_young_tombstones_stay(
    tombstones: &mut Dict<PortNameInstanceId, u64>,
    now: u64,
    id: InstanceKey,
)
    requires
        call_ensures(prune_tombstones, (tombstones, now), ()),
    ensures
        final(tombstones)@.contains_key(id) <==> old(tombstones)@.contains_key(id) && now < old(
            tombstones
        )@[id] + 5_000_000_000,
        final(tombstones)@.contains_key(id) ==> final(tombstones)@[id] == old(tombstones)@[id],
{
}

/// A registration announces exactly the wanted streams, under subjects in the form of a UUID, at the
/// address of the server and with the context of the request; whatever waits under another subject
/// goes on waiting.
pub proof fn law_registration_announces_the_wanted<T, R>(
    server: &mut TcpStreamServer<T, R>,
    options: StreamOptions<T, R>,
    pending: PendingConnections,
    address: String,
    other: Seq<char>,
)
    requires
        call_ensures(TcpStreamServer::<T, R>::register, (server, options), pending),
        call_ensures(TcpStreamServer::<T, R>::address, (&*final(server),), address),
    ensures
        final(server).spec_address() == old(server).spec_address(),
        pending.send_stream is Some == options.request_stream is Some,
        pending.recv_stream is Some == options.response_stream is Some,
        pending.send_stream is Some ==> {
            let info = pending.send_stream->Some_0;
            &&& is_uuid_text(info.subject@)
            &&& info.address@ == address@
            &&& info.context@ == options.context@
            &&& info.stream_type == StreamType::Request
            &&& final(server)@.tx.contains_key(info.subject@)
            &&& final(server)@.tx[info.subject@] == options.request_stream->Some_0
        },
        pending.recv_stream is Some ==> {
            let info = pending.recv_stream->Some_0;
            &&& is_uuid_text(info.subject@)
            &&& info.address@ == address@
            &&& info.context@ == options.context@
            &&& info.stream_type == StreamType::Response
            &&& final(server)@.rx.contains_key(info.subject@)
            &&& final(server)@.rx[info.subject@] == options.response_stream->Some_0
        },
        pending.send_stream is None ==> final(server)@.tx == old(server)@.tx,
        pending.recv_stream is None ==> final(server)@.rx == old(server)@.rx,
        pending.send_stream is Some && other != pending.send_stream->Some_0.subject@ ==> final(
            server
        )@.tx.contains_key(other) == old(server)@.tx.contains_key(other),
        pending.send_stream is Some && other != pending.send_stream->Some_0.subject@ && old(
            server
        )@.tx.contains_key(other) ==> final(server)@.tx[other] == old(server)@.tx[other],
        pending.recv_stream is Some && other != pending.recv_stream->Some_0.subject@ ==> final(
            server
        )@.rx.contains_key(other) == old(server)@.rx.contains_key(other),
        pending.recv_stream is Some && other != pending.recv_stream->Some_0.subject@ && old(
            server
        )@.rx.contains_key(other) ==> final(server)@.rx[other] == old(server)@.rx[other],
        final(server)@.instance_of == old(server)@.instance_of,
        final(server)@.subjects_of == old(server)@.subjects_of,
        final(server)@.removed == old(server)@.removed,
{
}

} // verus!

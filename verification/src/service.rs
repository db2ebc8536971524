//! What the instances of a service tell of themselves.

use vstd::prelude::*;
use vstd::string::*;

use serde_json::Value;

use crate::json::copy_json;
use crate::text::{
    chars_of, concat2, hex_digit, hex_i64, hex_i64_error, law_hex_reads_back, lower_hex, parse_hex_i64,
    text_from,
};

verus! {

/// Asks the instances of services about themselves over the connection `C`.
pub struct ServiceClient<C> {
    nats_client: C,
}

impl<C> ServiceClient<C> {
    /// The connection.
    pub closed spec fn spec_connection(&self) -> C {
        self.nats_client
    }

    /// A client on a connection.
    pub fn new(nats_client: C) -> (client: Self)
        ensures
            client.spec_connection() == nats_client,
    {
        ServiceClient { nats_client }
    }

    /// The connection.
    pub fn connection(&self) -> (connection: &C)
        ensures
            *connection == self.spec_connection(),
    {
        &self.nats_client
    }

    /// The instances that answered: the answers that could be read, in the order in which they came.
    /// Each answer is its payload and what that reads as.
    pub fn collect_services(answers: Vec<(Vec<u8>, Result<ServiceInfo, String>)>) -> (set:
        ServiceSet)
        ensures
            set.services@ == readable(answers@),
    {
        let mut answers = answers;
        let mut services: Vec<ServiceInfo> = Vec::new();
        let ghost all = answers@;
        let n: usize = answers.len();
        let mut i: usize = 0;
        assert(all.skip(0) =~= all);
        assert(all.take(0) =~= Seq::empty());
        while i < n
            invariant
                i <= n,
                n == all.len(),
                answers@ == all.skip(i as int),
                services@ == readable(all.take(i as int)),
            decreases n - i,
        {
            let (payload, parsed) = answers.remove(0);
            proof {
                assert(answers@ =~= all.skip(i + 1));
                assert(all.take(i + 1).drop_last() =~= all.take(i as int));
                assert(all.take(i + 1).last() == (payload, parsed));
            }
            if let Some(info) = try_parse_service_info(&payload, parsed) {
                services.push(info);
            }
            i = i + 1;
        }
        assert(all.take(n as int) =~= all);
        ServiceSet { services }
    }
}

/// What an answer tells: nothing, where it is empty or cannot be read.
pub open spec fn answer_info(payload: Vec<u8>, parsed: Result<ServiceInfo, String>) -> Option<
    ServiceInfo,
> {
    if payload@.len() == 0 {
        None
    } else {
        match parsed {
            Ok(info) => Some(info),
            Err(_) => None,
        }
    }
}

/// What the readable ones of some answers tell, in order.
pub open spec fn readable(answers: Seq<(Vec<u8>, Result<ServiceInfo, String>)>) -> Seq<ServiceInfo>
    decreases answers.len(),
{
    if answers.len() == 0 {
        Seq::empty()
    } else {
        let rest = readable(answers.drop_last());
        match answer_info(answers.last().0, answers.last().1) {
            Some(info) => rest.push(info),
            None => rest,
        }
    }
}

/// What an answer tells. `parsed` is what its payload reads as.
pub fn try_parse_service_info(payload: &Vec<u8>, parsed: Result<ServiceInfo, String>) -> (info:
    Option<ServiceInfo>)
    ensures
        info == answer_info(*payload, parsed),
{
    if payload.len() == 0 {
        return None;
    }
    match parsed {
        Ok(info) => Some(info),
        Err(_) => None,
    }
}

/// The instances of a service.
#[derive(Debug, Clone)]
pub struct ServiceSet {
    pub services: Vec<ServiceInfo>,
}

/// What an instance of a service tells of itself.
#[derive(Debug, Clone)]
pub struct ServiceInfo {
    pub name: String,
    pub id: String,
    pub version: String,
    pub started: String,
    pub portnames: Vec<PortNameInfo>,
}

/// What an instance of a service tells of one of its port names.
#[derive(Debug, Clone)]
pub struct PortNameInfo {
    pub name: String,
    pub subject: String,
    /// The statistics, if there are any.
    pub data: Option<NatsStatsMetrics>,
}

/// The statistics of a port name.
#[derive(Debug)]
pub struct NatsStatsMetrics {
    /// In nanoseconds.
    pub average_processing_time: u64,
    pub last_error: String,
    pub num_errors: u64,
    pub num_requests: u64,
    /// In nanoseconds.
    pub processing_time: u64,
    pub queue_group: String,
    /// What the service itself adds.
    pub data: Value,
}

impl Clone for NatsStatsMetrics {
    fn clone(&self) -> (copy: Self)
        ensures
            copy == *self,
    {
        NatsStatsMetrics {
            average_processing_time: self.average_processing_time,
            last_error: self.last_error.clone(),
            num_errors: self.num_errors,
            num_requests: self.num_requests,
            processing_time: self.processing_time,
            queue_group: self.queue_group.clone(),
            data: copy_json(&self.data),
        }
    }
}

impl NatsStatsMetrics {
    /// What the service itself added.
    pub fn decode(self) -> (data: Value)
        ensures
            data == self.data,
    {
        self.data
    }
}

/// Where the last `-` stands, or -1.
pub open spec fn last_dash(s: Seq<char>) -> int
    decreases s.len(),
{
    if s.len() == 0 {
        -1
    } else if s.last() == '-' {
        s.len() - 1
    } else {
        last_dash(s.drop_last())
    }
}

/// What follows the last `-` of a text, if there is a `-` and something follows it.
pub open spec fn dash_suffix(s: Seq<char>) -> Option<Seq<char>> {
    if 0 <= last_dash(s) < s.len() - 1 {
        Some(s.skip(last_dash(s) + 1))
    } else {
        None
    }
}

/// Whether `id` is what the hexadecimal suffix of a subject reads as.
pub open spec fn reads_suffix(subject: Seq<char>, id: Result<i64, String>) -> bool {
    match dash_suffix(subject) {
        None => id is Err && id->Err_0@ == "No id found in subject"@,
        Some(suffix) => match hex_i64(suffix) {
            Some(value) => id == Ok::<i64, String>(value),
            None => id is Err && id->Err_0@ == "Invalid id format: "@ + hex_i64_error(suffix),
        },
    }
}

/// Reads what follows the last `-` of a subject as a hexadecimal number.
pub fn extract_hex_suffix(subject: &str) -> (id: Result<i64, String>)
    ensures
        reads_suffix(subject@, id),
{
    let chars = chars_of(subject);
    let n: usize = chars.len();
    let mut end: usize = n;
    assert(chars@.take(n as int) =~= chars@);
    while end > 0 && chars[end - 1] != '-'
        invariant
            end <= n,
            n == chars@.len(),
            last_dash(subject@) == last_dash(chars@.take(end as int)),
        decreases end,
    {
        assert(chars@.take(end as int).drop_last() =~= chars@.take(end - 1));
        end = end - 1;
    }
    if end == 0 || end == n {
        return Err("No id found in subject".to_owned());
    }
    assert(chars@.take(end as int).last() == '-');
    assert(last_dash(subject@) == end - 1);
    let suffix = text_from(&chars, end);
    match parse_hex_i64(suffix.as_str()) {
        Ok(value) => Ok(value),
        Err(text) => Err(concat2("Invalid id format: ", text.as_str())),
    }
}

impl PortNameInfo {
    /// The identifier of the instance, which ends the subject in hexadecimal.
    pub fn id(&self) -> (id: Result<i64, String>)
        ensures
            reads_suffix(self.subject@, id),
    {
        extract_hex_suffix(self.subject.as_str())
    }
}

/// The port names of all instances, in order.
pub open spec fn all_portnames(services: Seq<ServiceInfo>) -> Seq<PortNameInfo>
    decreases services.len(),
{
    if services.len() == 0 {
        Seq::empty()
    } else {
        all_portnames(services.drop_last()) + services.last().portnames@
    }
}

impl ServiceSet {
    /// The port names of all instances, in order.
    pub fn into_portnames(self) -> (portnames: Vec<PortNameInfo>)
        ensures
            portnames@ == all_portnames(self.services@),
    {
        let mut services = self.services;
        let mut out: Vec<PortNameInfo> = Vec::new();
        let ghost all = services@;
        let n: usize = services.len();
        let mut i: usize = 0;
        assert(all.skip(0) =~= all);
        assert(all.take(0) =~= Seq::empty());
        while i < n
            invariant
                i <= n,
                n == all.len(),
                services@ == all.skip(i as int),
                out@ == all_portnames(all.take(i as int)),
            decreases n - i,
        {
            let service = services.remove(0);
            let mut portnames = service.portnames;
            proof {
                assert(services@ =~= all.skip(i + 1));
                assert(all.take(i + 1).drop_last() =~= all.take(i as int));
                assert(all.take(i + 1).last() == service);
            }
            out.append(&mut portnames);
            i = i + 1;
        }
        assert(all.take(n as int) =~= all);
        out
    }

    /// The instances.
    pub fn services(&self) -> (services: &Vec<ServiceInfo>)
        ensures
            services@ == self.services@,
    {
        &self.services
    }
}

/// Nothing is lost and nothing is added: the port names of a set are those of its services, one
/// service behind the other.
pub proof fn law_every_port_name_is_listed(set: ServiceSet, portnames: Vec<PortNameInfo>)
    requires
        call_ensures(ServiceSet::into_portnames, (set,), portnames),
    ensures
        portnames@ == set.services@.map_values(|service: ServiceInfo| service.portnames@).flatten(),
        forall|i: int, j: int|
            0 <= i < set.services@.len() && 0 <= j < set.services@[i].portnames@.len()
                ==> portnames@.contains(#[trigger] set.services@[i].portnames@[j]),
        set.services@.len() == 1 ==> portnames@ == set.services@[0].portnames@,
{
    let lists = set.services@.map_values(|service: ServiceInfo| service.portnames@);
    lemma_all_portnames(set.services@);
    lists.lemma_flatten_and_flatten_alt_are_equivalent();
    if lists.len() == 1 {
        lists.lemma_flatten_one_element();
    }
}

proof fn lemma_all_portnames(services: Seq<ServiceInfo>)
    ensures
        all_portnames(services) == services.map_values(
            |service: ServiceInfo| service.portnames@,
        ).flatten_alt(),
        forall|i: int, j: int|
            0 <= i < services.len() && 0 <= j < services[i].portnames@.len()
                ==> all_portnames(services).contains(#[trigger] services[i].portnames@[j]),
    decreases services.len(),
{
    let lists = services.map_values(|service: ServiceInfo| service.portnames@);
    if services.len() > 0 {
        let rest = services.drop_last();
        lemma_all_portnames(rest);
        assert(lists.drop_last() =~= rest.map_values(|service: ServiceInfo| service.portnames@));
        let before = all_portnames(rest);
        let all = all_portnames(services);
        assert forall|i: int, j: int|
            0 <= i < services.len() && 0 <= j < services[i].portnames@.len() implies all.contains(
            #[trigger] services[i].portnames@[j],
        ) by {
            let portname = services[i].portnames@[j];
            if i < rest.len() {
                assert(rest[i].portnames@[j] == portname);
                let k = choose|k: int| 0 <= k < before.len() && before[k] == portname;
                assert(all[k] == portname);
            } else {
                assert(all[before.len() + j] == portname);
            }
        }
    }
}

/// The services that are collected are what the answers with a payload that can be read tell, in the
/// order of the answers, and nothing else.
pub proof fn law_readable_answers_are_collected<C>(
    answers: Vec<(Vec<u8>, Result<ServiceInfo, String>)>,
    set: ServiceSet,
)
    requires
        call_ensures(ServiceClient::<C>::collect_services, (answers,), set),
    ensures
        set.services@ == answers@.filter_map(
            |answer: (Vec<u8>, Result<ServiceInfo, String>)|
                if answer.0@.len() > 0 && answer.1 is Ok {
                    Some(answer.1->Ok_0)
                } else {
                    None
                },
        ),
        forall|i: int|
            0 <= i < answers@.len() && (#[trigger] answers@[i]).0@.len() > 0 && answers@[i].1 is Ok
                ==> set.services@.contains(answers@[i].1->Ok_0),
{
    lemma_readable(answers@);
}

proof fn lemma_readable(answers: Seq<(Vec<u8>, Result<ServiceInfo, String>)>)
    ensures
        readable(answers) == answers.filter_map(
            |answer: (Vec<u8>, Result<ServiceInfo, String>)|
                if answer.0@.len() > 0 && answer.1 is Ok {
                    Some(answer.1->Ok_0)
                } else {
                    None
                },
        ),
        forall|i: int|
            0 <= i < answers.len() && (#[trigger] answers[i]).0@.len() > 0 && answers[i].1 is Ok
                ==> readable(answers).contains(answers[i].1->Ok_0),
    decreases answers.len(),
{
    let f = |answer: (Vec<u8>, Result<ServiceInfo, String>)|
        if answer.0@.len() > 0 && answer.1 is Ok {
            Some(answer.1->Ok_0)
        } else {
            None::<ServiceInfo>
        };
    if answers.len() > 0 {
        let rest = answers.drop_last();
        lemma_readable(rest);
        assert(readable(answers) =~= answers.filter_map(f));
        assert forall|i: int|
            0 <= i < answers.len() && (#[trigger] answers[i]).0@.len() > 0
                && answers[i].1 is Ok implies readable(answers).contains(answers[i].1->Ok_0) by {
            let info = answers[i].1->Ok_0;
            if i < rest.len() {
                assert(rest[i] == answers[i]);
                let k = choose|k: int| 0 <= k < readable(rest).len() && readable(rest)[k] == info;
                assert(readable(answers)[k] == info);
            } else {
                assert(readable(answers).last() == info);
            }
        }
    }
}

proof fn lemma_last_dash(prefix: Seq<char>, suffix: Seq<char>)
    requires
        forall|i: int| 0 <= i < suffix.len() ==> suffix[i] != '-',
    ensures
        last_dash(prefix + "-"@ + suffix) == prefix.len(),
    decreases suffix.len(),
{
    reveal_strlit("-");
    let s = prefix + "-"@ + suffix;
    if suffix.len() > 0 {
        assert(s.drop_last() =~= prefix + "-"@ + suffix.drop_last());
        lemma_last_dash(prefix, suffix.drop_last());
    } else {
        assert(s.last() == '-');
    }
}

/// The identifier of an instance that ends a subject in hexadecimal, behind a dash, is read back,
/// whatever stands in front.
pub proof fn law_instance_id_reads_back(
    info: &PortNameInfo,
    prefix: Seq<char>,
    number: u64,
    id: Result<i64, String>,
)
    requires
        number <= i64::MAX,
        info.subject@ == prefix + "-"@ + lower_hex(number as nat),
        call_ensures(PortNameInfo::id, (info,), id),
    ensures
        id == Ok::<i64, String>(number as i64),
{
    reveal_strlit("-");
    let digits = lower_hex(number as nat);
    law_hex_reads_back(number as nat);
    assert forall|i: int| 0 <= i < digits.len() implies digits[i] != '-' by {
        assert(hex_digit(digits[i]) is Some);
    }
    lemma_last_dash(prefix, digits);
    assert(info.subject@.skip(prefix.len() as int + 1) =~= digits);
    assert(hex_digit(digits[0]) is Some);
}

/// A subject without a dash, or with nothing behind its last one, has no identifier.
pub proof fn law_subject_without_id(subject: &str, id: Result<i64, String>)
    requires
        call_ensures(extract_hex_suffix, (subject,), id),
        subject@.len() == 0 || subject@.last() == '-' || !subject@.contains('-'),
    ensures
        id is Err,
        id->Err_0@ == "No id found in subject"@,
{
    if subject@.len() > 0 && subject@.last() != '-' {
        lemma_no_dash(subject@);
    }
}

proof fn lemma_no_dash(s: Seq<char>)
    requires
        !s.contains('-'),
    ensures
        last_dash(s) == -1,
    decreases s.len(),
{
    if s.len() > 0 {
        assert(s.contains(s.last()));
        assert(!s.drop_last().contains('-')) by {
            if s.drop_last().contains('-') {
                let i = choose|i: int| 0 <= i < s.len() - 1 && s.drop_last()[i] == '-';
                assert(s[i] == '-');
            }
        }
        lemma_no_dash(s.drop_last());
    }
}

/// An answer tells something exactly if it is not empty and can be read; the statistics keep what the
/// service added; and a client keeps its connection.
pub proof fn law_what_an_answer_tells<C>(
    payload: Vec<u8>,
    info: ServiceInfo,
    text: String,
    told: Option<ServiceInfo>,
    untold: Option<ServiceInfo>,
    stats: NatsStatsMetrics,
    data: Value,
    connection: C,
    client: ServiceClient<C>,
    kept: &C,
    set: ServiceSet,
    services: &Vec<ServiceInfo>,
)
    requires
        call_ensures(try_parse_service_info, (&payload, Ok::<ServiceInfo, String>(info)), told),
        call_ensures(try_parse_service_info, (&payload, Err::<ServiceInfo, String>(text)), untold),
        call_ensures(NatsStatsMetrics::decode, (stats,), data),
        call_ensures(ServiceClient::<C>::new, (connection,), client),
        call_ensures(ServiceClient::<C>::connection, (&client,), kept),
        call_ensures(ServiceSet::services, (&set,), services),
    ensures
        told is Some <==> payload@.len() > 0,
        told is Some ==> told->Some_0 == info,
        untold is None,
        data == stats.data,
        *kept == connection,
        services@ == set.services@,
{
}

/// What stands behind the last dash is read as a number and nothing in front of it is; what is no
/// number is told as such.
pub proof fn law_last_dash_counts(
    subject: &str,
    prefix: Seq<char>,
    suffix: Seq<char>,
    id: Result<i64, String>,
)
    requires
        subject@ == prefix + "-"@ + suffix,
        suffix.len() > 0,
        !suffix.contains('-'),
        call_ensures(extract_hex_suffix, (subject,), id),
    ensures
        id is Ok <==> hex_i64(suffix) is Some,
        id is Ok ==> id->Ok_0 == hex_i64(suffix)->Some_0,
        id is Err ==> id->Err_0@ == "Invalid id format: "@ + hex_i64_error(suffix),
{
    reveal_strlit("-");
    assert forall|i: int| 0 <= i < suffix.len() implies suffix[i] != '-' by {
        assert(suffix.contains(suffix[i]));
    }
    lemma_last_dash(prefix, suffix);
    assert(subject@.skip(prefix.len() as int + 1) =~= suffix);
}

} // verus!

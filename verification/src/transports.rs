//! Names that transports use.

use vstd::prelude::*;
use vstd::string::*;

use crate::protocols::PortNameId;
use crate::text::{join3, joined3, lower_hex, to_lower_hex};

verus! {

/// The subject of an instance of a port name: the segments of the name and the identifier in
/// hexadecimal, with dots in between.
pub open spec fn subject_of(
    id: (Seq<char>, Seq<char>, Seq<char>),
    instance_id: u64,
) -> Seq<char> {
    joined3(id.0, id.1, id.2, "."@) + "."@ + lower_hex(instance_id as nat)
}

/// The subject of an instance of a port name.
pub fn instance_subject(id: &PortNameId, instance_id: u64) -> (subject: String)
    ensures
        subject@ == subject_of(id@, instance_id),
{
    let mut subject = join3(
        id.namespace.as_str(),
        id.servicegroup.as_str(),
        id.name.as_str(),
        ".",
    );
    subject.append(".");
    subject.append(to_lower_hex(instance_id).as_str());
    subject
}

/// A subject names the namespace, the service group, the port name and the instance in hexadecimal,
/// in this order, with dots in between.
pub proof fn law_parts_of_a_subject(
    id: &PortNameId,
    instance_id: u64,
    subject: String,
    hex: String,
)
    requires
        call_ensures(instance_subject, (id, instance_id), subject),
        call_ensures(to_lower_hex, (instance_id,), hex),
    ensures
        subject@ == id.namespace@ + "."@ + id.servicegroup@ + "."@ + id.name@ + "."@ + hex@,
{
}

/// Instances of one port name have subjects of their own.
pub proof fn law_instances_have_their_own_subject(
    id: &PortNameId,
    one: u64,
    other: u64,
    a: String,
    b: String,
)
    requires
        one != other,
        call_ensures(instance_subject, (id, one), a),
        call_ensures(instance_subject, (id, other), b),
    ensures
        a@ != b@,
{
    let x = lower_hex(one as nat);
    let y = lower_hex(other as nat);
    crate::text::law_hex_reads_back(one as nat);
    crate::text::law_hex_reads_back(other as nat);
    let head = joined3(id@.0, id@.1, id@.2, "."@) + "."@;
    if a@ == b@ {
        assert(a@.skip(head.len() as int) =~= x);
        assert(b@.skip(head.len() as int) =~= y);
    }
}

} // verus!

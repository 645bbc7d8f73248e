//! The resource descriptor: the topology of resources and modes that a
//! device reports as a flat stream of length-prefixed records.

use crate::field::{
    le16, le16_bytes, le32, le32_bytes, read_le16, read_le32, write_le16, write_le32,
};
use vstd::prelude::*;
use vstd::slice::{slice_subrange, slice_to_vec};
use vstd::string::*;
use vstd::utf8::*;

verus! {

/// Record type of the header that opens the stream.
pub const DESCRIPTOR_TYPE_VIKING: u8 = 0x40;

/// Record type of a name for the mode or resource opened last.
pub const DESCRIPTOR_TYPE_IDENTIFIER: u8 = 0x41;

/// Record type that opens a resource.
pub const DESCRIPTOR_TYPE_RESOURCE: u8 = 0x42;

/// Record type that opens a mode of the resource opened last.
pub const DESCRIPTOR_TYPE_MODE: u8 = 0x43;

/// Most resources a topology holds; their ids run from 1.
pub const MAX_RESOURCES: usize = 63;

/// Most modes a resource holds; their ids run from 1.
pub const MAX_MODES: usize = 254;

/// Most bytes in the body of a record.
pub const MAX_BODY: usize = 253;

/// One record as it models in contracts.
pub struct RecordView {
    pub kind: u8,
    pub body: Seq<u8>,
}

/// A mode as it models in contracts.
pub struct ModeView {
    pub name: Option<Seq<char>>,
    pub protocol: u16,
    pub descriptor: Seq<u8>,
}

/// A resource as it models in contracts.
pub struct ResourceView {
    pub name: Seq<char>,
    pub modes: Seq<ModeView>,
}

/// The records that `bytes` splits into: each is a length byte that counts
/// itself, a type byte and the body. `None` where a length is under two or
/// runs past the end.
pub open spec fn records(bytes: Seq<u8>) -> Option<Seq<RecordView>>
    decreases bytes.len(),
{
    if bytes.len() == 0 {
        Some(Seq::empty())
    } else if bytes.len() < 2 || bytes[0] < 2 || bytes[0] > bytes.len() {
        None
    } else {
        let first = RecordView { kind: bytes[1], body: bytes.subrange(2, bytes[0] as int) };
        match records(bytes.skip(bytes[0] as int)) {
            Some(rest) => Some(seq![first] + rest),
            None => None,
        }
    }
}

/// The protocol number at the front of a mode record, low byte first.
pub open spec fn protocol_of(body: Seq<u8>) -> u16 {
    (body[0] as int + 256 * body[1] as int) as u16
}

/// The topology after one more record, or `None` where the record cannot
/// stand there.
pub open spec fn apply_record(t: Seq<ResourceView>, r: RecordView) -> Option<Seq<ResourceView>> {
    if r.kind == DESCRIPTOR_TYPE_RESOURCE {
        Some(t.push(ResourceView { name: Seq::empty(), modes: Seq::empty() }))
    } else if r.kind == DESCRIPTOR_TYPE_MODE {
        if t.len() == 0 || r.body.len() < 2 || t.last().modes.len() >= MAX_MODES {
            None
        } else {
            let mode = ModeView {
                name: None,
                protocol: protocol_of(r.body),
                descriptor: r.body.skip(2),
            };
            Some(
                t.drop_last().push(
                    ResourceView { name: t.last().name, modes: t.last().modes.push(mode) },
                ),
            )
        }
    } else if r.kind == DESCRIPTOR_TYPE_IDENTIFIER {
        if !valid_utf8(r.body) {
            None
        } else if t.len() == 0 {
            Some(t)
        } else if t.last().modes.len() == 0 {
            Some(t.drop_last().push(ResourceView { name: decode_utf8(r.body), modes: Seq::empty() }))
        } else {
            let modes = t.last().modes;
            let named = ModeView {
                name: Some(decode_utf8(r.body)),
                protocol: modes.last().protocol,
                descriptor: modes.last().descriptor,
            };
            Some(
                t.drop_last().push(
                    ResourceView { name: t.last().name, modes: modes.drop_last().push(named) },
                ),
            )
        }
    } else {
        Some(t)
    }
}

/// The topology that the records build on top of `t`, taken in order.
pub open spec fn apply_records(t: Option<Seq<ResourceView>>, rs: Seq<RecordView>) -> Option<
    Seq<ResourceView>,
>
    decreases rs.len(),
{
    if rs.len() == 0 {
        t
    } else {
        match apply_records(t, rs.drop_last()) {
            Some(before) => apply_record(before, rs.last()),
            None => None,
        }
    }
}

/// The topology that a descriptor describes, or `None` where it describes
/// none: a record is cut short, a mode comes before any resource or lacks its
/// protocol number, a name is not UTF-8, a resource has more than 254 modes,
/// or there are more than 63 resources.
pub open spec fn topology(bytes: Seq<u8>) -> Option<Seq<ResourceView>> {
    match records(bytes) {
        Some(rs) => match apply_records(Some(Seq::empty()), rs) {
            Some(t) => if t.len() <= MAX_RESOURCES {
                Some(t)
            } else {
                None
            },
            None => None,
        },
        None => None,
    }
}

/// One record on the wire: the length, which counts itself and the type,
/// the type, and the body.
pub open spec fn record_wire(kind: u8, body: Seq<u8>) -> Seq<u8> {
    seq![(body.len() + 2) as u8, kind] + body
}

/// A protocol number on the wire, low byte first.
pub open spec fn protocol_wire(protocol: u16) -> Seq<u8> {
    seq![(protocol % 256) as u8, (protocol / 256) as u8]
}

/// The records of a mode: the mode itself and, where it has one, its name.
pub open spec fn mode_records(m: ModeView) -> Seq<RecordView> {
    let opening = RecordView {
        kind: DESCRIPTOR_TYPE_MODE,
        body: protocol_wire(m.protocol) + m.descriptor,
    };
    match m.name {
        Some(name) => seq![
            opening,
            RecordView { kind: DESCRIPTOR_TYPE_IDENTIFIER, body: encode_utf8(name) },
        ],
        None => seq![opening],
    }
}

/// The records of a run of modes.
pub open spec fn modes_records(ms: Seq<ModeView>) -> Seq<RecordView>
    decreases ms.len(),
{
    if ms.len() == 0 {
        Seq::empty()
    } else {
        modes_records(ms.drop_last()) + mode_records(ms.last())
    }
}

/// The records of a resource: the resource itself, its name, its modes.
pub open spec fn resource_records(r: ResourceView) -> Seq<RecordView> {
    seq![
        RecordView { kind: DESCRIPTOR_TYPE_RESOURCE, body: Seq::empty() },
        RecordView { kind: DESCRIPTOR_TYPE_IDENTIFIER, body: encode_utf8(r.name) },
    ] + modes_records(r.modes)
}

/// The records of a topology.
pub open spec fn topology_records(t: Seq<ResourceView>) -> Seq<RecordView>
    decreases t.len(),
{
    if t.len() == 0 {
        Seq::empty()
    } else {
        topology_records(t.drop_last()) + resource_records(t.last())
    }
}

/// A run of records on the wire.
pub open spec fn records_wire(rs: Seq<RecordView>) -> Seq<u8>
    decreases rs.len(),
{
    if rs.len() == 0 {
        Seq::empty()
    } else {
        records_wire(rs.drop_last()) + record_wire(rs.last().kind, rs.last().body)
    }
}

/// A topology on the wire.
pub open spec fn topology_wire(t: Seq<ResourceView>) -> Seq<u8> {
    records_wire(topology_records(t))
}

/// Whether a mode can be written down: its name and what it tells of
/// itself each fit the body of a record.
pub open spec fn mode_fits(m: ModeView) -> bool {
    &&& m.descriptor.len() + 2 <= MAX_BODY
    &&& match m.name {
        Some(name) => encode_utf8(name).len() <= MAX_BODY,
        None => true,
    }
}

/// Whether a resource can be written down.
pub open spec fn resource_fits(r: ResourceView) -> bool {
    &&& encode_utf8(r.name).len() <= MAX_BODY
    &&& r.modes.len() <= MAX_MODES
    &&& forall|i: int| 0 <= i < r.modes.len() ==> mode_fits(#[trigger] r.modes[i])
}

/// Whether a topology can be written down.
pub open spec fn topology_fits(t: Seq<ResourceView>) -> bool {
    &&& t.len() <= MAX_RESOURCES
    &&& forall|i: int| 0 <= i < t.len() ==> resource_fits(#[trigger] t[i])
}

/// Whether the body of every record fits.
pub open spec fn bodies_fit(rs: Seq<RecordView>) -> bool {
    forall|i: int| 0 <= i < rs.len() ==> (#[trigger] rs[i]).body.len() <= MAX_BODY
}

proof fn lemma_records_concat(a: Seq<u8>, b: Seq<u8>)
    requires
        records(a) is Some,
        records(b) is Some,
    ensures
        records(a + b) == Some(records(a)->0 + records(b)->0),
    decreases a.len(),
{
    if a.len() == 0 {
        assert(a + b =~= b);
        assert(records(a)->0 + records(b)->0 =~= records(b)->0);
    } else {
        let len = a[0] as int;
        let all = a + b;
        assert(all[0] == a[0] && all[1] == a[1]);
        assert(all.subrange(2, len) =~= a.subrange(2, len));
        assert(all.skip(len) =~= a.skip(len) + b);
        lemma_records_concat(a.skip(len), b);
        let first = RecordView { kind: a[1], body: a.subrange(2, len) };
        assert(seq![first] + (records(a.skip(len))->0 + records(b)->0) =~= (seq![first] + records(
            a.skip(len),
        )->0) + records(b)->0);
    }
}

proof fn lemma_record_wire(kind: u8, body: Seq<u8>)
    requires
        body.len() <= MAX_BODY,
    ensures
        records(record_wire(kind, body)) == Some(seq![RecordView { kind, body }]),
{
    let w = record_wire(kind, body);
    assert(w.len() == body.len() + 2);
    assert(w[0] == body.len() + 2);
    assert(w[1] == kind);
    assert(w.subrange(2, w[0] as int) =~= body);
    assert(w.skip(w[0] as int) =~= Seq::<u8>::empty());
    assert(records(Seq::<u8>::empty()) == Some(Seq::<RecordView>::empty()));
    assert(seq![RecordView { kind, body }] + Seq::<RecordView>::empty() =~= seq![
        RecordView { kind, body },
    ]);
}

proof fn lemma_records_wire(rs: Seq<RecordView>)
    requires
        bodies_fit(rs),
    ensures
        records(records_wire(rs)) == Some(rs),
    decreases rs.len(),
{
    if rs.len() > 0 {
        let head = rs.drop_last();
        assert(bodies_fit(head)) by {
            assert forall|i: int| 0 <= i < head.len() implies (#[trigger] head[i]).body.len()
                <= MAX_BODY by {
                assert(head[i] == rs[i]);
            }
        }
        lemma_records_wire(head);
        lemma_record_wire(rs.last().kind, rs.last().body);
        lemma_records_concat(records_wire(head), record_wire(rs.last().kind, rs.last().body));
        assert(head + seq![rs.last()] =~= rs);
    }
}

proof fn lemma_apply_records_concat(
    t: Option<Seq<ResourceView>>,
    a: Seq<RecordView>,
    b: Seq<RecordView>,
)
    ensures
        apply_records(t, a + b) == apply_records(apply_records(t, a), b),
    decreases b.len(),
{
    if b.len() == 0 {
        assert(a + b =~= a);
    } else {
        assert((a + b).drop_last() =~= a + b.drop_last());
        assert((a + b).last() == b.last());
        lemma_apply_records_concat(t, a, b.drop_last());
    }
}

proof fn lemma_apply_mode(t: Seq<ResourceView>, r: ResourceView, m: ModeView)
    requires
        r.modes.len() < MAX_MODES,
        mode_fits(m),
    ensures
        apply_records(Some(t.push(r)), mode_records(m)) == Some(
            t.push(ResourceView { name: r.name, modes: r.modes.push(m) }),
        ),
        bodies_fit(mode_records(m)),
{
    let rs = mode_records(m);
    let opening = rs[0];
    let unnamed = ModeView { name: None, protocol: m.protocol, descriptor: m.descriptor };
    let opened = t.push(ResourceView { name: r.name, modes: r.modes.push(unnamed) });
    assert(t.push(r).drop_last() =~= t);
    assert(opening.body.skip(2) =~= m.descriptor);
    assert(protocol_of(opening.body) == m.protocol);
    assert(apply_record(t.push(r), opening) == Some(opened));
    reveal_with_fuel(apply_records, 3);
    match m.name {
        Some(name) => {
            encode_utf8_valid_utf8(name);
            encode_utf8_decode_utf8(name);
            assert(rs.drop_last() =~= seq![opening]);
            assert(seq![opening].drop_last() =~= Seq::<RecordView>::empty());
            assert(opened.drop_last() =~= t);
            assert(r.modes.push(unnamed).drop_last() =~= r.modes);
            assert(apply_records(Some(t.push(r)), seq![opening]) == Some(opened));
        },
        None => {
            assert(rs.drop_last() =~= Seq::<RecordView>::empty());
            assert(unnamed == m);
        },
    }
}

proof fn lemma_apply_modes(t: Seq<ResourceView>, r: ResourceView, ms: Seq<ModeView>)
    requires
        r.modes.len() + ms.len() <= MAX_MODES,
        forall|i: int| 0 <= i < ms.len() ==> mode_fits(#[trigger] ms[i]),
    ensures
        apply_records(Some(t.push(r)), modes_records(ms)) == Some(
            t.push(ResourceView { name: r.name, modes: r.modes + ms }),
        ),
        bodies_fit(modes_records(ms)),
    decreases ms.len(),
{
    if ms.len() == 0 {
        assert(r.modes + ms =~= r.modes);
    } else {
        let head = ms.drop_last();
        assert forall|i: int| 0 <= i < head.len() implies mode_fits(#[trigger] head[i]) by {
            assert(head[i] == ms[i]);
        }
        lemma_apply_modes(t, r, head);
        let mid = ResourceView { name: r.name, modes: r.modes + head };
        lemma_apply_mode(t, mid, ms.last());
        lemma_apply_records_concat(Some(t.push(r)), modes_records(head), mode_records(ms.last()));
        assert((r.modes + head).push(ms.last()) =~= r.modes + ms);
    }
}

proof fn lemma_apply_resource(t: Seq<ResourceView>, r: ResourceView)
    requires
        resource_fits(r),
    ensures
        apply_records(Some(t), resource_records(r)) == Some(t.push(r)),
        bodies_fit(resource_records(r)),
{
    let opening = RecordView { kind: DESCRIPTOR_TYPE_RESOURCE, body: Seq::empty() };
    let naming = RecordView { kind: DESCRIPTOR_TYPE_IDENTIFIER, body: encode_utf8(r.name) };
    let blank = ResourceView { name: Seq::empty(), modes: Seq::empty() };
    let named = ResourceView { name: r.name, modes: Seq::empty() };
    let front = seq![opening, naming];
    encode_utf8_valid_utf8(r.name);
    encode_utf8_decode_utf8(r.name);
    reveal_with_fuel(apply_records, 3);
    assert(front.drop_last() =~= seq![opening]);
    assert(seq![opening].drop_last() =~= Seq::<RecordView>::empty());
    assert(t.push(blank).drop_last() =~= t);
    assert(apply_records(Some(t), seq![opening]) == Some(t.push(blank)));
    assert(apply_records(Some(t), front) == Some(t.push(named)));
    lemma_apply_modes(t, named, r.modes);
    lemma_apply_records_concat(Some(t), front, modes_records(r.modes));
    assert(named.modes + r.modes =~= r.modes);
}

proof fn lemma_apply_topology(t: Seq<ResourceView>)
    requires
        forall|i: int| 0 <= i < t.len() ==> resource_fits(#[trigger] t[i]),
    ensures
        apply_records(Some(Seq::empty()), topology_records(t)) == Some(t),
        bodies_fit(topology_records(t)),
    decreases t.len(),
{
    if t.len() > 0 {
        let head = t.drop_last();
        assert forall|i: int| 0 <= i < head.len() implies resource_fits(#[trigger] head[i]) by {
            assert(head[i] == t[i]);
        }
        lemma_apply_topology(head);
        lemma_apply_resource(head, t.last());
        lemma_apply_records_concat(
            Some(Seq::empty()),
            topology_records(head),
            resource_records(t.last()),
        );
        assert(head.push(t.last()) =~= t);
    }
}

/// Reading undoes writing: the bytes that a topology is written down as
/// describe that very topology.
pub proof fn lemma_parse_serialize(t: Seq<ResourceView>)
    requires
        topology_fits(t),
    ensures
        topology(topology_wire(t)) == Some(t),
{
    lemma_apply_topology(t);
    lemma_records_wire(topology_records(t));
}

/// Whether `i` is the first place in `t` that holds a resource named `name`.
pub open spec fn first_named(t: Seq<ResourceView>, name: Seq<char>, i: int) -> bool {
    &&& 0 <= i < t.len()
    &&& t[i].name == name
    &&& forall|j: int| 0 <= j < i ==> (#[trigger] t[j]).name != name
}

/// Whether `i` is the first place in `modes` that holds a mode of `protocol`.
pub open spec fn first_with_protocol(modes: Seq<ModeView>, protocol: u16, i: int) -> bool {
    &&& 0 <= i < modes.len()
    &&& modes[i].protocol == protocol
    &&& forall|j: int| 0 <= j < i ==> (#[trigger] modes[j]).protocol != protocol
}

/// Whether `i` is the first place in `modes` that holds a mode named `name`.
pub open spec fn first_mode_named(modes: Seq<ModeView>, name: Seq<char>, i: int) -> bool {
    &&& 0 <= i < modes.len()
    &&& modes[i].name == Some(name)
    &&& forall|j: int| 0 <= j < i ==> (#[trigger] modes[j]).name != Some(name)
}

/// One record of a descriptor.
#[derive(Clone, Copy, Debug)]
pub struct Record<'a> {
    pub kind: u8,
    pub body: &'a [u8],
}

impl<'a> View for Record<'a> {
    type V = RecordView;

    open spec fn view(&self) -> RecordView {
        RecordView { kind: self.kind, body: self.body@ }
    }
}

/// One personality that a resource can take.
#[derive(Debug, PartialEq, Eq)]
pub struct Mode {
    name: Option<String>,
    protocol: u16,
    descriptor: Vec<u8>,
}

/// One piece of hardware on the device, with the modes it offers.
#[derive(Debug, PartialEq, Eq)]
pub struct Resource {
    name: String,
    modes: Vec<Mode>,
}

/// The topology of a device: its resources, in the order of their ids.
#[derive(Debug, PartialEq, Eq)]
pub struct Resources {
    resources: Vec<Resource>,
}

spec fn mode_views(modes: Seq<Mode>) -> Seq<ModeView> {
    Seq::new(modes.len(), |i: int| modes[i]@)
}

spec fn resource_views(resources: Seq<Resource>) -> Seq<ResourceView> {
    Seq::new(resources.len(), |i: int| resources[i]@)
}

impl View for Mode {
    type V = ModeView;

    closed spec fn view(&self) -> ModeView {
        ModeView {
            name: match self.name {
                Some(s) => Some(s@),
                None => None,
            },
            protocol: self.protocol,
            descriptor: self.descriptor@,
        }
    }
}

impl View for Resource {
    type V = ResourceView;

    closed spec fn view(&self) -> ResourceView {
        ResourceView { name: self.name@, modes: mode_views(self.modes@) }
    }
}

impl View for Resources {
    type V = Seq<ResourceView>;

    closed spec fn view(&self) -> Seq<ResourceView> {
        resource_views(self.resources@)
    }
}

/// `core::str::from_utf8`: a string comes back exactly when the bytes are
/// well-formed UTF-8, and it is then made of those very bytes.
#[verifier::external_body]
fn str_from_utf8<'a>(bytes: &'a [u8]) -> (out: Option<&'a str>)
    ensures
        out is Some <==> valid_utf8(bytes@),
        out matches Some(s) ==> s.spec_bytes() == bytes@,
{
    match core::str::from_utf8(bytes) {
        Ok(s) => Some(s),
        Err(_) => None,
    }
}

/// Whether two runs of bytes are the same.
fn same_bytes(a: &[u8], b: &[u8]) -> (same: bool)
    ensures
        same == (a@ == b@),
{
    if a.len() != b.len() {
        return false;
    }
    let mut i: usize = 0;
    while i < a.len()
        invariant
            a@.len() == b@.len(),
            0 <= i <= a@.len(),
            forall|j: int| 0 <= j < i ==> a@[j] == b@[j],
        decreases a@.len() - i,
    {
        if a[i] != b[i] {
            return false;
        }
        i = i + 1;
    }
    assert(a@ =~= b@);
    true
}

/// Whether two strings are the same, decided on their bytes.
fn same_str(a: &str, b: &str) -> (same: bool)
    ensures
        same == (a@ == b@),
{
    proof {
        encode_utf8_decode_utf8(a@);
        encode_utf8_decode_utf8(b@);
    }
    same_bytes(a.as_bytes(), b.as_bytes())
}

/// Splits a descriptor into its records.
pub fn descriptors<'a>(bytes: &'a [u8]) -> (out: Result<Vec<Record<'a>>, ()>)
    ensures
        match out {
            Ok(list) => {
                &&& records(bytes@) == Some(list@.map_values(|r: Record<'a>| r@))
                &&& forall|i: int| 0 <= i < list@.len() ==> (#[trigger] list@[i]).body@.len() <= MAX_BODY
            },
            Err(_) => records(bytes@) is None,
        },
{
    let total: usize = bytes.len();
    let mut list: Vec<Record<'a>> = Vec::new();
    let mut pos: usize = 0;
    proof {
        assert(bytes@.skip(0) =~= bytes@);
        match records(bytes@) {
            Some(rest) => {
                assert(list@.map_values(|r: Record<'a>| r@) + rest =~= rest);
            },
            None => {},
        }
    }
    while pos < total
        invariant
            total == bytes@.len(),
            0 <= pos <= total,
            forall|i: int| 0 <= i < list@.len() ==> (#[trigger] list@[i]).body@.len() <= MAX_BODY,
            records(bytes@) == match records(bytes@.skip(pos as int)) {
                Some(rest) => Some(list@.map_values(|r: Record<'a>| r@) + rest),
                None => None,
            },
        decreases total - pos,
    {
        let ghost tail = bytes@.skip(pos as int);
        let ghost done = list@.map_values(|r: Record<'a>| r@);
        if total - pos < 2 {
            return Err(());
        }
        let len: usize = bytes[pos] as usize;
        let kind: u8 = bytes[pos + 1];
        if len < 2 || len > total - pos {
            return Err(());
        }
        let body = slice_subrange(bytes, pos + 2, pos + len);
        let record = Record { kind, body };
        list.push(record);
        proof {
            assert(tail.subrange(2, len as int) =~= body@);
            assert(tail.skip(len as int) =~= bytes@.skip(pos + len));
            let after = list@.map_values(|r: Record<'a>| r@);
            assert(after =~= done.push(record@));
            match records(bytes@.skip(pos + len)) {
                Some(rest) => {
                    assert(done + (seq![record@] + rest) =~= after + rest);
                },
                None => {},
            }
        }
        pos = pos + len;
    }
    proof {
        assert(list@.map_values(|r: Record<'a>| r@) + Seq::<RecordView>::empty()
            =~= list@.map_values(|r: Record<'a>| r@));
    }
    Ok(list)
}

/// Bytes of the header that opens a descriptor.
pub const VIKING_DESCRIPTOR_LEN: usize = 16;

/// The header that opens a descriptor: the length of the whole descriptor,
/// the version of the protocol, and the most bytes that a request, a
/// response and an event may have.
#[derive(Clone, Copy, Debug, PartialEq, Eq, Structural)]
pub struct VikingDescriptor {
    pub total_len: u16,
    pub version: u8,
    pub rsvd: u8,
    pub max_cmd: u32,
    pub max_res: u32,
    pub max_evt: u32,
}

/// The header that begins `body`, where `body` is long enough to hold one.
pub open spec fn header_of(body: Seq<u8>) -> Option<VikingDescriptor> {
    if body.len() < VIKING_DESCRIPTOR_LEN {
        None
    } else {
        Some(
            VikingDescriptor {
                total_len: le16(body.subrange(0, 2)),
                version: body[2],
                rsvd: body[3],
                max_cmd: le32(body.subrange(4, 8)),
                max_res: le32(body.subrange(8, 12)),
                max_evt: le32(body.subrange(12, 16)),
            },
        )
    }
}

/// A header on the wire.
pub open spec fn header_wire(h: VikingDescriptor) -> Seq<u8> {
    le16_bytes(h.total_len) + seq![h.version, h.rsvd] + le32_bytes(h.max_cmd) + le32_bytes(
        h.max_res,
    ) + le32_bytes(h.max_evt)
}

/// The header in the first record that holds one, if any record does.
pub open spec fn first_header(rs: Seq<RecordView>) -> Option<VikingDescriptor>
    decreases rs.len(),
{
    if rs.len() == 0 {
        None
    } else if rs[0].kind == DESCRIPTOR_TYPE_VIKING && header_of(rs[0].body) is Some {
        header_of(rs[0].body)
    } else {
        first_header(rs.skip(1))
    }
}

/// The header of a descriptor, if the descriptor splits into records and
/// one of them holds a header.
pub open spec fn descriptor_header(bytes: Seq<u8>) -> Option<VikingDescriptor> {
    match records(bytes) {
        Some(rs) => first_header(rs),
        None => None,
    }
}

/// Reading a header undoes writing it.
pub proof fn lemma_header_round_trip(h: VikingDescriptor)
    ensures
        header_wire(h).len() == VIKING_DESCRIPTOR_LEN,
        header_of(header_wire(h)) == Some(h),
{
    let w = header_wire(h);
    let a = le16_bytes(h.total_len);
    let b = seq![h.version, h.rsvd];
    let c = le32_bytes(h.max_cmd);
    let d = le32_bytes(h.max_res);
    let e = le32_bytes(h.max_evt);
    crate::field::lemma_le_round_trip(h.total_len, h.max_cmd);
    crate::field::lemma_le_round_trip(h.total_len, h.max_res);
    crate::field::lemma_le_round_trip(h.total_len, h.max_evt);
    lemma_header_layout(a, b, c, d, e);
}

proof fn lemma_header_layout(a: Seq<u8>, b: Seq<u8>, c: Seq<u8>, d: Seq<u8>, e: Seq<u8>)
    requires
        a.len() == 2,
        b.len() == 2,
        c.len() == 4,
        d.len() == 4,
        e.len() == 4,
    ensures
        (a + b + c + d + e).len() == 16,
        (a + b + c + d + e).subrange(0, 2) == a,
        (a + b + c + d + e)[2] == b[0],
        (a + b + c + d + e)[3] == b[1],
        (a + b + c + d + e).subrange(4, 8) == c,
        (a + b + c + d + e).subrange(8, 12) == d,
        (a + b + c + d + e).subrange(12, 16) == e,
{
    let w = a + b + c + d + e;
    assert(w.subrange(0, 2) =~= a);
    assert(w.subrange(4, 8) =~= c);
    assert(w.subrange(8, 12) =~= d);
    assert(w.subrange(12, 16) =~= e);
}

impl VikingDescriptor {
    /// Reads the header at the front of the body of a header record.
    pub fn from_bytes(body: &[u8]) -> (out: Option<Self>)
        ensures
            out == header_of(body@),
    {
        if body.len() < VIKING_DESCRIPTOR_LEN {
            return None;
        }
        Some(
            VikingDescriptor {
                total_len: read_le16(body, 0),
                version: body[2],
                rsvd: body[3],
                max_cmd: read_le32(body, 4),
                max_res: read_le32(body, 8),
                max_evt: read_le32(body, 12),
            },
        )
    }

    /// Writes the header as it stands in the body of a header record.
    pub fn to_bytes(&self) -> (out: Vec<u8>)
        ensures
            out@ == header_wire(*self),
            header_of(out@) == Some(*self),
    {
        let mut out: Vec<u8> = Vec::new();
        write_le16(&mut out, self.total_len);
        out.push(self.version);
        out.push(self.rsvd);
        write_le32(&mut out, self.max_cmd);
        write_le32(&mut out, self.max_res);
        write_le32(&mut out, self.max_evt);
        proof {
            assert(out@ =~= header_wire(*self));
            lemma_header_round_trip(*self);
        }
        out
    }

    /// Looks for the header in a descriptor.
    pub fn find(bytes: &[u8]) -> (out: Option<Self>)
        ensures
            out == descriptor_header(bytes@),
    {
        let list = match descriptors(bytes) {
            Ok(list) => list,
            Err(_) => {
                return None;
            },
        };
        let ghost rs = list@.map_values(|r: Record| r@);
        let mut i: usize = 0;
        proof {
            assert(rs.skip(0) =~= rs);
        }
        while i < list.len()
            invariant
                0 <= i <= list@.len(),
                rs == list@.map_values(|r: Record| r@),
                descriptor_header(bytes@) == first_header(rs),
                first_header(rs) == first_header(rs.skip(i as int)),
            decreases list@.len() - i,
        {
            let record = list[i];
            proof {
                assert(rs.skip(i as int)[0] == record@);
                assert(rs.skip(i as int).skip(1) =~= rs.skip(i + 1));
            }
            if record.kind == DESCRIPTOR_TYPE_VIKING {
                match VikingDescriptor::from_bytes(record.body) {
                    Some(h) => {
                        return Some(h);
                    },
                    None => {},
                }
            }
            i = i + 1;
        }
        None
    }
}

/// Once the records up to some point cannot stand, no continuation mends it.
proof fn lemma_apply_records_fails(t: Option<Seq<ResourceView>>, rs: Seq<RecordView>, k: int)
    requires
        0 <= k <= rs.len(),
        apply_records(t, rs.take(k)) is None,
    ensures
        apply_records(t, rs) is None,
    decreases rs.len() - k,
{
    if k == rs.len() {
        assert(rs.take(k) =~= rs);
    } else {
        assert(rs.take(k + 1).drop_last() =~= rs.take(k));
        lemma_apply_records_fails(t, rs, k + 1);
    }
}

/// Appends one record to a descriptor under construction.
fn push_record(out: &mut Vec<u8>, kind: u8, body: &[u8])
    requires
        body@.len() <= MAX_BODY,
    ensures
        final(out)@ == old(out)@ + record_wire(kind, body@),
{
    let ghost before = out@;
    out.push((body.len() + 2) as u8);
    out.push(kind);
    let mut copy = slice_to_vec(body);
    out.append(&mut copy);
    assert(out@ =~= before + record_wire(kind, body@));
}

proof fn lemma_records_wire_push(rs: Seq<RecordView>, r: RecordView)
    ensures
        records_wire(rs.push(r)) == records_wire(rs) + record_wire(r.kind, r.body),
{
    assert(rs.push(r).drop_last() =~= rs);
}

impl Mode {
    #[verifier::type_invariant]
    spec fn inv(&self) -> bool {
        &&& self.descriptor@.len() <= MAX_BODY - 2
        &&& match self.name {
            Some(s) => encode_utf8(s@).len() <= MAX_BODY,
            None => true,
        }
    }

    /// The name, where the device gave one.
    pub fn name(&self) -> (out: Option<&str>)
        ensures
            match out {
                Some(s) => self@.name == Some(s@),
                None => self@.name is None,
            },
    {
        match &self.name {
            Some(s) => Some(s.as_str()),
            None => None,
        }
    }

    /// The number of the protocol the mode speaks.
    pub fn protocol(&self) -> (out: u16)
        ensures
            out == self@.protocol,
    {
        self.protocol
    }

    /// What the device tells of the mode's capabilities.
    pub fn descriptor(&self) -> (out: &[u8])
        ensures
            out@ == self@.descriptor,
            out@.len() <= MAX_BODY - 2,
    {
        proof {
            use_type_invariant(self);
        }
        self.descriptor.as_slice()
    }
}

impl Resource {
    #[verifier::type_invariant]
    spec fn inv(&self) -> bool {
        &&& self.modes@.len() <= MAX_MODES
        &&& encode_utf8(self.name@).len() <= MAX_BODY
    }

    /// The name; empty where the device gave none.
    pub fn name(&self) -> (out: &str)
        ensures
            out@ == self@.name,
    {
        self.name.as_str()
    }

    /// The modes, each with its id.
    pub fn modes(&self) -> (out: Vec<(u8, &Mode)>)
        ensures
            out@.len() == self@.modes.len(),
            forall|i: int|
                0 <= i < out@.len() ==> (#[trigger] out@[i]).0 == i + 1 && out@[i].1@
                    == self@.modes[i],
    {
        proof {
            use_type_invariant(self);
        }
        let mut out: Vec<(u8, &Mode)> = Vec::new();
        let mut i: usize = 0;
        while i < self.modes.len()
            invariant
                self.modes@.len() <= MAX_MODES,
                0 <= i <= self.modes@.len(),
                out@.len() == i,
                forall|k: int|
                    0 <= k < i ==> (#[trigger] out@[k]).0 == k + 1 && out@[k].1@
                        == self@.modes[k],
            decreases self.modes@.len() - i,
        {
            out.push(((i + 1) as u8, &self.modes[i]));
            i = i + 1;
        }
        out
    }

    /// The id of the first mode that speaks `protocol`.
    pub fn find_mode(&self, protocol: u16) -> (out: Option<u8>)
        ensures
            match out {
                Some(id) => first_with_protocol(self@.modes, protocol, id - 1),
                None => forall|j: int|
                    0 <= j < self@.modes.len() ==> (#[trigger] self@.modes[j]).protocol
                        != protocol,
            },
    {
        proof {
            use_type_invariant(self);
        }
        let mut i: usize = 0;
        while i < self.modes.len()
            invariant
                self.modes@.len() <= MAX_MODES,
                0 <= i <= self.modes@.len(),
                forall|j: int| 0 <= j < i ==> (#[trigger] self@.modes[j]).protocol != protocol,
            decreases self.modes@.len() - i,
        {
            if self.modes[i].protocol == protocol {
                return Some((i + 1) as u8);
            }
            i = i + 1;
        }
        None
    }

    /// The id of the first mode named `name`.
    pub fn find_mode_named(&self, name: &str) -> (out: Option<u8>)
        ensures
            match out {
                Some(id) => first_mode_named(self@.modes, name@, id - 1),
                None => forall|j: int|
                    0 <= j < self@.modes.len() ==> (#[trigger] self@.modes[j]).name != Some(
                        name@,
                    ),
            },
    {
        proof {
            use_type_invariant(self);
        }
        let mut i: usize = 0;
        while i < self.modes.len()
            invariant
                self.modes@.len() <= MAX_MODES,
                0 <= i <= self.modes@.len(),
                forall|j: int| 0 <= j < i ==> (#[trigger] self@.modes[j]).name != Some(name@),
            decreases self.modes@.len() - i,
        {
            let hit = match &self.modes[i].name {
                Some(s) => same_str(s.as_str(), name),
                None => false,
            };
            if hit {
                return Some((i + 1) as u8);
            }
            i = i + 1;
        }
        None
    }

    /// The mode with the given id; ids run from 1.
    pub fn mode(&self, id: u8) -> (out: Option<&Mode>)
        ensures
            match out {
                Some(m) => 1 <= id <= self@.modes.len() && m@ == self@.modes[id - 1],
                None => id == 0 || id > self@.modes.len(),
            },
    {
        if id == 0 || id as usize > self.modes.len() {
            None
        } else {
            Some(&self.modes[id as usize - 1])
        }
    }
}

impl Resources {
    #[verifier::type_invariant]
    spec fn inv(&self) -> bool {
        self.resources@.len() <= MAX_RESOURCES
    }

    /// Reads the topology out of a descriptor.
    pub fn parse(bytes: &[u8]) -> (out: Result<Self, ()>)
        ensures
            match out {
                Ok(t) => topology(bytes@) == Some(t@),
                Err(_) => topology(bytes@) is None,
            },
    {
        let list = match descriptors(bytes) {
            Ok(list) => list,
            Err(_) => {
                return Err(());
            },
        };
        let ghost rs = list@.map_values(|r: Record| r@);
        let mut resources: Vec<Resource> = Vec::new();
        let mut i: usize = 0;
        while i < list.len()
            invariant
                0 <= i <= list@.len(),
                rs == list@.map_values(|r: Record| r@),
                records(bytes@) == Some(rs),
                forall|k: int| 0 <= k < list@.len() ==> (#[trigger] list@[k]).body@.len() <= MAX_BODY,
                apply_records(Some(Seq::empty()), rs.take(i as int)) == Some(
                    resource_views(resources@),
                ),
            decreases list@.len() - i,
        {
            let ghost before = resource_views(resources@);
            let record = list[i];
            proof {
                assert(rs.take(i + 1).drop_last() =~= rs.take(i as int));
                assert(rs.take(i + 1).last() == record@);
                if apply_record(before, record@) is None {
                    lemma_apply_records_fails(Some(Seq::empty()), rs, i + 1);
                }
            }
            if record.kind == DESCRIPTOR_TYPE_RESOURCE {
                resources.push(Resource { name: String::new(), modes: Vec::new() });
                proof {
                    assert(encode_utf8(Seq::<char>::empty()) =~= Seq::<u8>::empty());
                    assert(mode_views(Seq::<Mode>::empty()) =~= Seq::<ModeView>::empty());
                    assert(resource_views(resources@) =~= before.push(
                        ResourceView { name: Seq::empty(), modes: Seq::empty() },
                    ));
                }
            } else if record.kind == DESCRIPTOR_TYPE_MODE {
                if resources.len() == 0 || record.body.len() < 2 {
                    return Err(());
                }
                let resource = resources.pop().unwrap();
                proof {
                    use_type_invariant(&resource);
                }
                if resource.modes.len() >= MAX_MODES {
                    return Err(());
                }
                let ghost modes_before = mode_views(resource.modes@);
                let protocol: u16 = record.body[0] as u16 + 256 * (record.body[1] as u16);
                let descriptor = slice_to_vec(
                    slice_subrange(record.body, 2, record.body.len()),
                );
                let mode = Mode { name: None, protocol, descriptor };
                let Resource { name, mut modes } = resource;
                modes.push(mode);
                let resource = Resource { name, modes };
                proof {
                    assert(mode_views(resource.modes@) =~= modes_before.push(mode@));
                    assert(mode@.descriptor =~= record@.body.skip(2));
                }
                resources.push(resource);
                proof {
                    assert(resource_views(resources@) =~= before.drop_last().push(resource@));
                }
            } else if record.kind == DESCRIPTOR_TYPE_IDENTIFIER {
                let name = match str_from_utf8(record.body) {
                    Some(name) => name,
                    None => {
                        return Err(());
                    },
                };
                proof {
                    encode_utf8_decode_utf8(name@);
                }
                if resources.len() > 0 {
                    let resource = resources.pop().unwrap();
                    proof {
                        use_type_invariant(&resource);
                    }
                    let ghost modes_before = mode_views(resource.modes@);
                    let Resource { name: resource_name, mut modes } = resource;
                    let resource = if modes.len() > 0 {
                        let mode = modes.pop().unwrap();
                        proof {
                            use_type_invariant(&mode);
                        }
                        let named = Mode {
                            name: Some(name.to_owned()),
                            protocol: mode.protocol,
                            descriptor: mode.descriptor,
                        };
                        modes.push(named);
                        proof {
                            assert(mode_views(modes@) =~= modes_before.drop_last().push(named@));
                        }
                        Resource { name: resource_name, modes }
                    } else {
                        proof {
                            assert(mode_views(modes@) =~= Seq::<ModeView>::empty());
                        }
                        Resource { name: name.to_owned(), modes }
                    };
                    resources.push(resource);
                    proof {
                        assert(resource_views(resources@) =~= before.drop_last().push(
                            resource@,
                        ));
                    }
                }
            }
            i = i + 1;
        }
        proof {
            assert(rs.take(i as int) =~= rs);
        }
        if resources.len() > MAX_RESOURCES {
            return Err(());
        }
        Ok(Resources { resources })
    }

    /// The resources, each with its id.
    pub fn resources(&self) -> (out: Vec<(u8, &Resource)>)
        ensures
            out@.len() == self@.len(),
            forall|i: int|
                0 <= i < out@.len() ==> (#[trigger] out@[i]).0 == i + 1 && out@[i].1@ == self@[i],
    {
        proof {
            use_type_invariant(self);
        }
        let mut out: Vec<(u8, &Resource)> = Vec::new();
        let mut i: usize = 0;
        while i < self.resources.len()
            invariant
                self.resources@.len() <= MAX_RESOURCES,
                0 <= i <= self.resources@.len(),
                out@.len() == i,
                forall|k: int|
                    0 <= k < i ==> (#[trigger] out@[k]).0 == k + 1 && out@[k].1@ == self@[k],
            decreases self.resources@.len() - i,
        {
            out.push(((i + 1) as u8, &self.resources[i]));
            i = i + 1;
        }
        out
    }

    /// The id of the first resource named `name`.
    pub fn find_resource(&self, name: &str) -> (out: Option<u8>)
        ensures
            match out {
                Some(id) => first_named(self@, name@, id - 1) && 1 <= id <= MAX_RESOURCES,
                None => forall|j: int| 0 <= j < self@.len() ==> (#[trigger] self@[j]).name != name@,
            },
    {
        proof {
            use_type_invariant(self);
        }
        let mut i: usize = 0;
        while i < self.resources.len()
            invariant
                self.resources@.len() <= MAX_RESOURCES,
                0 <= i <= self.resources@.len(),
                forall|j: int| 0 <= j < i ==> (#[trigger] self@[j]).name != name@,
            decreases self.resources@.len() - i,
        {
            if same_str(self.resources[i].name.as_str(), name) {
                return Some((i + 1) as u8);
            }
            i = i + 1;
        }
        None
    }

    /// The resource with the given id; ids run from 1.
    pub fn resource(&self, id: u8) -> (out: Option<&Resource>)
        ensures
            match out {
                Some(r) => 1 <= id <= self@.len() && r@ == self@[id - 1],
                None => id == 0 || id > self@.len(),
            },
    {
        if id == 0 || id as usize > self.resources.len() {
            None
        } else {
            Some(&self.resources[id as usize - 1])
        }
    }

    /// Writes the topology down as a descriptor: for each resource a
    /// resource record and its name, for each of its modes a mode record
    /// and, where the mode has one, its name.
    pub fn serialize(&self) -> (out: Vec<u8>)
        ensures
            out@ == topology_wire(self@),
            topology_fits(self@),
            topology(out@) == Some(self@),
    {
        proof {
            use_type_invariant(self);
        }
        let mut out: Vec<u8> = Vec::new();
        let mut i: usize = 0;
        proof {
            assert(self@.take(0) =~= Seq::<ResourceView>::empty());
        }
        while i < self.resources.len()
            invariant
                0 <= i <= self.resources@.len(),
                self.resources@.len() == self@.len(),
                out@ == records_wire(topology_records(self@.take(i as int))),
                forall|k: int| 0 <= k < i ==> resource_fits(#[trigger] self@[k]),
            decreases self.resources@.len() - i,
        {
            let resource = &self.resources[i];
            let ghost prefix = topology_records(self@.take(i as int));
            let ghost view = self@[i as int];
            let ghost front = seq![
                RecordView { kind: DESCRIPTOR_TYPE_RESOURCE, body: Seq::empty() },
                RecordView { kind: DESCRIPTOR_TYPE_IDENTIFIER, body: encode_utf8(view.name) },
            ];
            proof {
                use_type_invariant(resource);
                assert(view == resource@);
                assert(self@.take(i + 1).drop_last() =~= self@.take(i as int));
                assert(self@.take(i + 1).last() == view);
            }
            let empty: Vec<u8> = Vec::new();
            push_record(&mut out, DESCRIPTOR_TYPE_RESOURCE, empty.as_slice());
            push_record(&mut out, DESCRIPTOR_TYPE_IDENTIFIER, resource.name.as_str().as_bytes());
            proof {
                lemma_records_wire_push(prefix, front[0]);
                lemma_records_wire_push(prefix.push(front[0]), front[1]);
                assert(prefix.push(front[0]).push(front[1]) =~= prefix + front);
                assert(view.modes.take(0) =~= Seq::<ModeView>::empty());
                assert(prefix + front + modes_records(view.modes.take(0)) =~= prefix + front);
            }
            let mut j: usize = 0;
            while j < resource.modes.len()
                invariant
                    0 <= j <= resource.modes@.len(),
                    resource.modes@.len() == view.modes.len(),
                    view == resource@,
                    out@ == records_wire(prefix + front + modes_records(view.modes.take(j as int))),
                    forall|k: int| 0 <= k < j ==> mode_fits(#[trigger] view.modes[k]),
                decreases resource.modes@.len() - j,
            {
                let mode = &resource.modes[j];
                let ghost m = view.modes[j as int];
                let ghost sofar = prefix + front + modes_records(view.modes.take(j as int));
                proof {
                    use_type_invariant(mode);
                    assert(m == mode@);
                    assert(view.modes.take(j + 1).drop_last() =~= view.modes.take(j as int));
                    assert(view.modes.take(j + 1).last() == m);
                }
                let mut body: Vec<u8> = Vec::new();
                body.push((mode.protocol % 256) as u8);
                body.push((mode.protocol / 256) as u8);
                let mut rest = slice_to_vec(mode.descriptor.as_slice());
                body.append(&mut rest);
                proof {
                    assert(body@ =~= protocol_wire(m.protocol) + m.descriptor);
                }
                push_record(&mut out, DESCRIPTOR_TYPE_MODE, body.as_slice());
                proof {
                    lemma_records_wire_push(sofar, mode_records(m)[0]);
                }
                match &mode.name {
                    Some(name) => {
                        push_record(
                            &mut out,
                            DESCRIPTOR_TYPE_IDENTIFIER,
                            name.as_str().as_bytes(),
                        );
                        proof {
                            lemma_records_wire_push(
                                sofar.push(mode_records(m)[0]),
                                mode_records(m)[1],
                            );
                            assert(sofar.push(mode_records(m)[0]).push(mode_records(m)[1])
                                =~= sofar + mode_records(m));
                        }
                    },
                    None => {
                        proof {
                            assert(sofar.push(mode_records(m)[0]) =~= sofar + mode_records(m));
                        }
                    },
                }
                proof {
                    assert(sofar + mode_records(m) =~= prefix + front + modes_records(
                        view.modes.take(j + 1),
                    ));
                }
                j = j + 1;
            }
            proof {
                assert(view.modes.take(j as int) =~= view.modes);
                assert(prefix + front + modes_records(view.modes) =~= prefix + resource_records(
                    view,
                ));
                assert(resource_fits(view));
            }
            i = i + 1;
        }
        proof {
            assert(self@.take(i as int) =~= self@);
            lemma_parse_serialize(self@);
        }
        out
    }

    /// The number of resources.
    pub fn len(&self) -> (out: usize)
        ensures
            out == self@.len(),
            out <= MAX_RESOURCES,
    {
        proof {
            use_type_invariant(self);
        }
        self.resources.len()
    }
}

} // verus!

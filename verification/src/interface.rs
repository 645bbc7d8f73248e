//! The state of one attached interface: the topology that the device
//! reported, the limits of a request, and which resources are claimed.

use crate::batch::{
    empty_batch, fits, pushed, CommandBatch, ResponseHandle, DEFAULT_MAX_COMMAND_LEN,
    DEFAULT_MAX_RESPONSE_LEN,
};
use crate::command::{Command, CommandView, PayloadPattern, StaticResponsePattern, VarInt};
use crate::descriptor::{
    descriptor_header, first_named, topology, ResourceView, Resources, VikingDescriptor,
};
use crate::protocol::CMD_DELAY;
use crate::error::{Error, ErrorKind, ResourceError};
use crate::queue::{CommandQueue, QueueView};
use crate::resource::Resource;
use vstd::prelude::*;

verus! {

/// An interface as it models in contracts.
pub struct InterfaceView {
    /// The resources, in the order of their ids.
    pub descriptor: Seq<ResourceView>,
    /// The ids of the resources that are claimed.
    pub in_use: Set<int>,
    /// Most bytes of a request, header included.
    pub max_command_len: nat,
    /// Most bytes of the answers in a response.
    pub max_response_len: nat,
}

/// The limits of a request and a response that a descriptor names: those
/// of its header, or the usual ones where it has none.
pub open spec fn negotiated(bytes: Seq<u8>) -> (nat, nat) {
    match descriptor_header(bytes) {
        Some(h) => (h.max_cmd as nat, h.max_res as nat),
        None => (DEFAULT_MAX_COMMAND_LEN as nat, DEFAULT_MAX_RESPONSE_LEN as nat),
    }
}

/// The id of the first resource named `name`, if there is one.
pub open spec fn named_id(t: Seq<ResourceView>, name: Seq<char>) -> Option<int> {
    if exists|i: int| first_named(t, name, i) {
        Some((choose|i: int| first_named(t, name, i)) + 1)
    } else {
        None
    }
}

/// What comes of claiming the resource named `name`: its id, or why not.
pub open spec fn claim(v: InterfaceView, name: Seq<char>) -> Result<int, ResourceError> {
    match named_id(v.descriptor, name) {
        None => Err(ResourceError::NotFound),
        Some(id) => if v.in_use.contains(id) {
            Err(ResourceError::Busy)
        } else {
            Ok(id)
        },
    }
}

/// The interface with resource `id` claimed.
pub open spec fn claimed(v: InterfaceView, id: int) -> InterfaceView {
    InterfaceView {
        descriptor: v.descriptor,
        in_use: v.in_use.insert(id),
        max_command_len: v.max_command_len,
        max_response_len: v.max_response_len,
    }
}

/// The interface with resource `id` free again.
pub open spec fn released(v: InterfaceView, id: int) -> InterfaceView {
    InterfaceView {
        descriptor: v.descriptor,
        in_use: v.in_use.remove(id),
        max_command_len: v.max_command_len,
        max_response_len: v.max_response_len,
    }
}

/// The command that makes the device wait.
pub open spec fn delay_view(us: u32) -> CommandView {
    CommandView { bytes: seq![0u8] + crate::varint::encoding(us), width: 0 }
}

/// The command, on resource zero, that makes the device wait for `us`
/// microseconds.
pub fn cmd_delay(us: u32) -> (out: Command<VarInt, ()>)
    ensures
        out.resource_id() == 0,
        out.opcode() == CMD_DELAY,
        out.payload() == VarInt(us),
        out.wf(),
        out@ == delay_view(us),
{
    let out = Command::new(0, CMD_DELAY, VarInt(us), ());
    proof {
        crate::command::lemma_command_byte(0, CMD_DELAY);
        assert(out@.bytes =~= delay_view(us).bytes);
    }
    out
}

/// Whether bit `i` of `bits` is set.
pub open spec fn bit(bits: u64, i: u64) -> bool {
    (bits >> i) & 1 == 1
}

spec fn ids_of(bits: u64) -> Set<int> {
    Set::new(|id: int| 0 <= id < 64 && bit(bits, id as u64))
}

proof fn lemma_bit_ops(bits: u64, id: u64)
    requires
        id < 64,
    ensures
        (bits & (1u64 << id) != 0) == bit(bits, id),
        forall|j: u64| j < 64 ==> #[trigger] bit(bits | (1u64 << id), j) == (bit(bits, j) || j == id),
        forall|j: u64|
            j < 64 ==> #[trigger] bit(bits & !(1u64 << id), j) == (bit(bits, j) && j != id),
        forall|j: u64| j < 64 ==> !(#[trigger] bit(0u64, j)),
{
    assert((bits & (1u64 << id) != 0) == ((bits >> id) & 1 == 1)) by (bit_vector)
        requires
            id < 64,
    ;
    assert forall|j: u64| j < 64 implies #[trigger] bit(bits | (1u64 << id), j) == (bit(bits, j)
        || j == id) by {
        assert((((bits | (1u64 << id)) >> j) & 1 == 1) == (((bits >> j) & 1 == 1) || j == id))
            by (bit_vector)
            requires
                id < 64,
                j < 64,
        ;
    }
    assert forall|j: u64| j < 64 implies #[trigger] bit(bits & !(1u64 << id), j) == (bit(bits, j)
        && j != id) by {
        assert((((bits & !(1u64 << id)) >> j) & 1 == 1) == (((bits >> j) & 1 == 1) && j != id))
            by (bit_vector)
            requires
                id < 64,
                j < 64,
        ;
    }
    assert forall|j: u64| j < 64 implies !(#[trigger] bit(0u64, j)) by {
        assert(!((0u64 >> j) & 1 == 1)) by (bit_vector);
    }
}

/// One attached interface.
#[derive(Debug)]
pub struct Interface {
    descriptor: Resources,
    resources_used: u64,
    max_command_len: usize,
    max_response_len: usize,
}

impl View for Interface {
    type V = InterfaceView;

    closed spec fn view(&self) -> InterfaceView {
        InterfaceView {
            descriptor: self.descriptor@,
            in_use: ids_of(self.resources_used),
            max_command_len: self.max_command_len as nat,
            max_response_len: self.max_response_len as nat,
        }
    }
}

impl Interface {
    /// An interface with the given topology, nothing claimed, and the
    /// limits that hold where the device names none.
    pub fn new(descriptor: Resources) -> (out: Self)
        ensures
            out@ == (InterfaceView {
                descriptor: descriptor@,
                in_use: Set::empty(),
                max_command_len: DEFAULT_MAX_COMMAND_LEN as nat,
                max_response_len: DEFAULT_MAX_RESPONSE_LEN as nat,
            }),
    {
        Self::with_limits(descriptor, DEFAULT_MAX_COMMAND_LEN, DEFAULT_MAX_RESPONSE_LEN)
    }

    /// An interface with the given topology and limits, nothing claimed.
    pub fn with_limits(descriptor: Resources, max_command_len: usize, max_response_len: usize) -> (out:
        Self)
        ensures
            out@ == (InterfaceView {
                descriptor: descriptor@,
                in_use: Set::empty(),
                max_command_len: max_command_len as nat,
                max_response_len: max_response_len as nat,
            }),
    {
        proof {
            lemma_bit_ops(0, 0);
            assert(ids_of(0) =~= Set::<int>::empty());
        }
        Interface { descriptor, resources_used: 0, max_command_len, max_response_len }
    }

    /// Reads the interface out of what the device answered when asked to
    /// describe its resources: the topology, and from the header, where
    /// there is one, the limits of a request and a response.
    pub fn from_descriptor(bytes: &[u8]) -> (out: Result<Self, Error>)
        ensures
            match out {
                Ok(interface) => topology(bytes@) == Some(interface@.descriptor) && interface@
                    == (InterfaceView {
                    descriptor: interface@.descriptor,
                    in_use: Set::empty(),
                    max_command_len: negotiated(bytes@).0,
                    max_response_len: negotiated(bytes@).1,
                }),
                Err(e) => topology(bytes@) is None && e.kind == ErrorKind::ParseDescriptors,
            },
    {
        let descriptor = match Resources::parse(bytes) {
            Ok(descriptor) => descriptor,
            Err(_) => {
                return Err(Error::new(ErrorKind::ParseDescriptors));
            },
        };
        match VikingDescriptor::find(bytes) {
            Some(h) => Ok(Self::with_limits(descriptor, h.max_cmd as usize, h.max_res as usize)),
            None => Ok(Self::new(descriptor)),
        }
    }

    /// The topology.
    pub fn descriptor(&self) -> (out: &Resources)
        ensures
            out@ == self@.descriptor,
    {
        &self.descriptor
    }

    /// Claims the resource named `name`. The first resource of that name
    /// is meant; it is refused while an earlier claim on it stands.
    pub fn resource(&mut self, name: &str) -> (out: Result<Resource, ResourceError>)
        ensures
            match claim(old(self)@, name@) {
                Ok(id) => {
                    &&& out is Ok
                    &&& out->Ok_0@.id == id
                    &&& out->Ok_0@.mode is None
                    &&& 1 <= id <= old(self)@.descriptor.len()
                    &&& final(self)@ == claimed(old(self)@, id)
                },
                Err(e) => out == Err::<Resource, ResourceError>(e) && final(self)@ == old(self)@,
            },
    {
        let id: u8 = match self.descriptor.find_resource(name) {
            Some(id) => id,
            None => {
                return Err(ResourceError::NotFound);
            },
        };
        assert(first_named(self@.descriptor, name@, id - 1));
        proof {
            let other = choose|i: int| first_named(self@.descriptor, name@, i);
            assert(other == id - 1);
            lemma_bit_ops(self.resources_used, id as u64);
        }
        let mask: u64 = 1u64 << id;
        if self.resources_used & mask != 0 {
            return Err(ResourceError::Busy);
        }
        let ghost before = self@;
        self.resources_used = self.resources_used | mask;
        proof {
            assert(self@.in_use =~= before.in_use.insert(id as int));
        }
        Ok(Resource::claimed(id))
    }

    /// Gives back a claim, so that the resource can be claimed anew.
    pub fn release(&mut self, resource: Resource)
        ensures
            final(self)@ == released(old(self)@, resource@.id as int),
    {
        let id: u8 = resource.id();
        proof {
            lemma_bit_ops(self.resources_used, id as u64);
        }
        let mask: u64 = 1u64 << id;
        let ghost before = self@;
        self.resources_used = self.resources_used & !mask;
        proof {
            assert(self@.in_use =~= before.in_use.remove(id as int));
        }
    }

    /// Whether the resource with the given id is claimed.
    pub fn is_claimed(&self, id: u8) -> (out: bool)
        ensures
            out == self@.in_use.contains(id as int),
    {
        if id >= 64 {
            return false;
        }
        proof {
            lemma_bit_ops(self.resources_used, id as u64);
        }
        self.resources_used & (1u64 << id) != 0
    }

    /// Most bytes of a request, header included.
    pub fn max_command_len(&self) -> (out: usize)
        ensures
            out == self@.max_command_len,
    {
        self.max_command_len
    }

    /// Most bytes of the answers in a response.
    pub fn max_response_len(&self) -> (out: usize)
        ensures
            out == self@.max_response_len,
    {
        self.max_response_len
    }

    /// A batch without commands, for the limits of this interface.
    pub fn batch(&self) -> (out: CommandBatch)
        ensures
            out@ == empty_batch(self@.max_command_len, self@.max_response_len),
    {
        CommandBatch::new(self.max_command_len, self.max_response_len)
    }

    /// Sets up the round trip for one command on its own: the batch that
    /// holds it, and the ticket for its answer.
    pub fn run<P: PayloadPattern, R: StaticResponsePattern>(&self, cmd: Command<P, R>) -> (out: (
        CommandBatch,
        ResponseHandle<R>,
    ))
        requires
            cmd.payload().encodable(),
            fits(empty_batch(self@.max_command_len, self@.max_response_len), cmd@),
        ensures
            out.0@ == pushed(empty_batch(self@.max_command_len, self@.max_response_len), cmd@),
            out.1.pattern() == cmd.response(),
            out.1.offset() == 0,
    {
        let mut batch = self.batch();
        let handle = batch.push(cmd);
        (batch, handle)
    }

    /// A queue without commands, for the limits of this interface.
    pub fn queue(&self) -> (out: CommandQueue)
        ensures
            out@ == (QueueView {
                batch: empty_batch(self@.max_command_len, self@.max_response_len),
                reads: Seq::empty(),
                error: None,
            }),
    {
        CommandQueue::new(self.max_command_len, self.max_response_len)
    }
}

/// A resource that was claimed and given back can be claimed again: the
/// claim on its name succeeds and yields the same id.
pub proof fn lemma_release_then_claim(v: InterfaceView, name: Seq<char>, id: int)
    requires
        named_id(v.descriptor, name) == Some(id),
    ensures
        claim(released(v, id), name) == Ok::<int, ResourceError>(id),
        claim(released(claimed(v, id), id), name) == Ok::<int, ResourceError>(id),
{
}

/// While a claim stands, a second claim on the same name is refused as busy.
pub proof fn lemma_claim_twice_is_busy(v: InterfaceView, name: Seq<char>, id: int)
    requires
        claim(v, name) == Ok::<int, ResourceError>(id),
    ensures
        claim(claimed(v, id), name) == Err::<int, ResourceError>(ResourceError::Busy),
{
}

} // verus!

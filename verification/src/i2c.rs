//! The I2C bus controller: its commands, and how a transaction on the bus
//! is laid out as a run of them.

use crate::command::{command_byte, Command, CommandView, ScalarResponse, SliceResponse};
use crate::error::{Error as AttachError, ErrorKind, RequestError};
use crate::protocol::i2c::{
    CONTROLLER_CMD_READ, CONTROLLER_CMD_START, CONTROLLER_CMD_STOP, CONTROLLER_CMD_WRITE,
    CONTROLLER_PROTOCOL, SCL_PROTOCOL, SDA_PROTOCOL,
};
use crate::queue::{
    chunk_len, chunk_sized, plain, plan_view, Destination, Planned, PushView, CHUNK,
};
use crate::interface::{released, Interface};
use crate::request::CONFIGURE_MODE;
use crate::resource::{configure_value, ControlOut, Resource, ResourceHandleView, ResourceMode};
use nusb::transfer::TransferError;
use vstd::prelude::*;
use vstd::slice::slice_subrange;

verus! {

/// One operation of a transaction on the bus.
#[derive(Clone, Copy, Debug)]
pub enum Operation<'a> {
    /// Reads so many bytes from the device.
    Read(usize),
    /// Writes these bytes to the device.
    Write(&'a [u8]),
}

/// An operation as it models in contracts.
pub enum OperationView {
    Read(nat),
    Write(Seq<u8>),
}

impl<'a> View for Operation<'a> {
    type V = OperationView;

    open spec fn view(&self) -> OperationView {
        match self {
            Operation::Read(n) => OperationView::Read(*n as nat),
            Operation::Write(data) => OperationView::Write(data@),
        }
    }
}

/// The byte that follows a start condition: the address in the upper seven
/// bits, and in the lowest bit whether the device is to be read.
pub open spec fn address_byte(address: u8, read: bool) -> u8 {
    (((address as int * 2) % 256) + if read {
        1int
    } else {
        0int
    }) as u8
}

/// The start command.
pub open spec fn start_view(id: u8, byte: u8) -> CommandView {
    CommandView { bytes: seq![command_byte(id, CONTROLLER_CMD_START), byte], width: 1 }
}

/// The command that reads `len` bytes.
pub open spec fn read_view(id: u8, len: u8) -> CommandView {
    CommandView { bytes: seq![command_byte(id, CONTROLLER_CMD_READ), len], width: len as nat }
}

/// The command that writes `data`.
pub open spec fn write_view(id: u8, data: Seq<u8>) -> CommandView {
    CommandView {
        bytes: seq![command_byte(id, CONTROLLER_CMD_WRITE), data.len() as u8] + data,
        width: 0,
    }
}

/// The stop command.
pub open spec fn stop_view(id: u8) -> CommandView {
    CommandView { bytes: seq![command_byte(id, CONTROLLER_CMD_STOP)], width: 0 }
}

/// The read commands for the bytes of buffer `buffer` from `done` on, in
/// chunks of 255 bytes at most, each bound for its place in the buffer.
pub open spec fn read_chunks(id: u8, buffer: usize, len: nat, done: nat) -> Seq<PushView>
    decreases len - done,
{
    if done >= len {
        Seq::empty()
    } else {
        let n = chunk_len(len, done);
        seq![
            PushView {
                command: read_view(id, n as u8),
                dest: Some(Destination { buffer, offset: done as usize }),
            },
        ] + read_chunks(id, buffer, len, done + n)
    }
}

/// The write commands for the bytes of `data` from `done` on, in chunks of
/// 255 bytes at most.
pub open spec fn write_chunks(id: u8, data: Seq<u8>, done: nat) -> Seq<PushView>
    decreases data.len() - done,
{
    if done >= data.len() {
        Seq::empty()
    } else {
        let n = chunk_len(data.len(), done);
        seq![plain(write_view(id, data.subrange(done as int, (done + n) as int)))] + write_chunks(
            id,
            data,
            done + n,
        )
    }
}

/// Whether an operation reads.
pub open spec fn reads(op: OperationView) -> bool {
    op is Read
}

/// The commands for operation number `index`: a start condition where the
/// direction differs from that of the operation before, or there is none
/// before, and then the chunks.
pub open spec fn operation_plan(
    id: u8,
    address: u8,
    op: OperationView,
    index: usize,
    last: Option<bool>,
) -> Seq<PushView> {
    let start = if last != Some(reads(op)) {
        seq![plain(start_view(id, address_byte(address, reads(op))))]
    } else {
        Seq::empty()
    };
    match op {
        OperationView::Read(len) => start + read_chunks(id, index, len, 0),
        OperationView::Write(data) => start + write_chunks(id, data, 0),
    }
}

/// The direction of the last of `ops`, if there is one.
pub open spec fn last_direction(ops: Seq<OperationView>) -> Option<bool> {
    if ops.len() == 0 {
        None
    } else {
        Some(reads(ops.last()))
    }
}

/// The commands for a run of operations, without the stop.
pub open spec fn operations_plan(id: u8, address: u8, ops: Seq<OperationView>) -> Seq<PushView>
    decreases ops.len(),
{
    if ops.len() == 0 {
        Seq::empty()
    } else {
        operations_plan(id, address, ops.drop_last()) + operation_plan(
            id,
            address,
            ops.last(),
            (ops.len() - 1) as usize,
            last_direction(ops.drop_last()),
        )
    }
}

/// The commands for a transaction: those of its operations, and a stop at
/// the end. A transaction without operations has no commands at all.
pub open spec fn transaction_plan(id: u8, address: u8, ops: Seq<OperationView>) -> Seq<PushView> {
    if ops.len() == 0 {
        Seq::empty()
    } else {
        operations_plan(id, address, ops).push(plain(stop_view(id)))
    }
}

/// A resource in the mode of a bus controller.
#[derive(Debug)]
pub struct Controller {
    pub(crate) resource: Resource,
}

impl View for Controller {
    type V = ResourceHandleView;

    closed spec fn view(&self) -> ResourceHandleView {
        self.resource@
    }
}

/// A resource on its way to being a bus controller.
#[derive(Debug)]
pub struct ControllerBuilder {
    resource: Resource,
    mode: u8,
}

impl ResourceMode for Controller {
    const PROTOCOL: u16 = CONTROLLER_PROTOCOL;

    type Builder = ControllerBuilder;

    closed spec fn builder_resource(builder: ControllerBuilder) -> ResourceHandleView {
        builder.resource@
    }

    closed spec fn builder_mode(builder: ControllerBuilder) -> u8 {
        builder.mode
    }

    fn build(resource: Resource, mode: u8) -> (out: ControllerBuilder) {
        ControllerBuilder { resource, mode }
    }
}

impl ControllerBuilder {
    /// The request that puts the resource into the mode.
    pub fn enable(&self) -> (out: ControlOut)
        ensures
            out.request == CONFIGURE_MODE,
            out.value == configure_value(
                Controller::builder_resource(*self).id,
                Controller::builder_mode(*self),
            ),
            out.data@.len() == 0,
    {
        let config: Vec<u8> = Vec::new();
        self.resource.configure(self.mode, config.as_slice())
    }

    /// Takes note of how that request went: where it reached the device, the
    /// resource is in the mode and ready for commands; where it did not,
    /// the claim on the resource is given back.
    pub fn enabled(self, interface: &mut Interface, outcome: Result<(), TransferError>) -> (out:
        Result<Controller, AttachError>)
        ensures
            match outcome {
                Ok(_) => {
                    &&& out is Ok
                    &&& out->Ok_0@ == (ResourceHandleView {
                        id: Controller::builder_resource(self).id,
                        mode: Some(Controller::builder_mode(self)),
                    })
                    &&& final(interface)@ == old(interface)@
                },
                Err(_) => {
                    &&& out is Err
                    &&& out->Err_0.kind == ErrorKind::ConfigureMode
                    &&& final(interface)@ == released(
                        old(interface)@,
                        Controller::builder_resource(self).id as int,
                    )
                },
            },
    {
        let mut resource = self.resource;
        match resource.configured(self.mode, outcome) {
            Ok(_) => Ok(Controller { resource }),
            Err(e) => {
                interface.release(resource);
                Err(e)
            },
        }
    }

    /// Gives the resource back, as it was claimed.
    pub fn into_resource(self) -> (out: Resource)
        ensures
            out@ == Controller::builder_resource(self),
    {
        self.resource
    }
}

impl Controller {
    /// The id of the resource.
    pub fn id(&self) -> (out: u8)
        ensures
            out == self@.id,
            1 <= out <= 63,
    {
        self.resource.id()
    }

    /// Gives the resource back, as it was claimed.
    pub fn into_resource(self) -> (out: Resource)
        ensures
            out@ == self@,
    {
        self.resource
    }

    /// The command that sends a start condition and the address byte; its
    /// answer is a status byte.
    pub fn cmd_start(&self, addr: u8) -> (out: Command<u8, ScalarResponse<u8>>)
        ensures
            out.resource_id() == self@.id,
            out.opcode() == CONTROLLER_CMD_START,
            out.payload() == addr,
            out.wf(),
            out@ == start_view(self@.id, addr),
    {
        let out = Command::new(self.resource.id(), CONTROLLER_CMD_START, addr, ScalarResponse::new());
        assert(out@.bytes =~= start_view(self@.id, addr).bytes);
        out
    }

    /// The command that reads `len` bytes.
    pub fn cmd_read(&self, len: u8) -> (out: Command<u8, SliceResponse>)
        ensures
            out.resource_id() == self@.id,
            out.opcode() == CONTROLLER_CMD_READ,
            out.payload() == len,
            out.wf(),
            out@ == read_view(self@.id, len),
    {
        let out = Command::new(
            self.resource.id(),
            CONTROLLER_CMD_READ,
            len,
            SliceResponse::new(len as usize),
        );
        assert(out@.bytes =~= read_view(self@.id, len).bytes);
        out
    }

    /// The command that writes `data`, which may be 255 bytes at most.
    pub fn cmd_write<'a>(&self, data: &'a [u8]) -> (out: Command<&'a [u8], ()>)
        ensures
            out.resource_id() == self@.id,
            out.opcode() == CONTROLLER_CMD_WRITE,
            out.payload() == data,
            data@.len() <= CHUNK ==> out.wf(),
            out@ == write_view(self@.id, data@),
    {
        let out = Command::new(self.resource.id(), CONTROLLER_CMD_WRITE, data, ());
        assert(out@.bytes =~= write_view(self@.id, data@).bytes);
        out
    }

    /// The command that sends a stop condition.
    pub fn cmd_stop(&self) -> (out: Command<(), ()>)
        ensures
            out.resource_id() == self@.id,
            out.opcode() == CONTROLLER_CMD_STOP,
            out.wf(),
            out@ == stop_view(self@.id),
    {
        let out = Command::new(self.resource.id(), CONTROLLER_CMD_STOP, (), ());
        assert(out@.bytes =~= stop_view(self@.id).bytes);
        out
    }

    /// Adds the read commands for one buffer to a plan.
    fn plan_read(&self, plan: &mut Vec<Planned>, buffer: usize, len: usize)
        requires
            forall|i: int| 0 <= i < old(plan)@.len() ==> chunk_sized((#[trigger] old(plan)@[i])@.command),
        ensures
            plan_view(final(plan)@) == plan_view(old(plan)@) + read_chunks(
                self@.id,
                buffer,
                len as nat,
                0,
            ),
            forall|i: int| 0 <= i < final(plan)@.len() ==> chunk_sized((#[trigger] final(plan)@[i])@.command),
    {
        let ghost before = plan_view(plan@);
        let mut done: usize = 0;
        proof {
            assert(before + read_chunks(self@.id, buffer, len as nat, 0) =~= plan_view(plan@)
                + read_chunks(self@.id, buffer, len as nat, 0));
        }
        while done < len
            invariant
                0 <= done <= len,
                before + read_chunks(self@.id, buffer, len as nat, 0) == plan_view(plan@)
                    + read_chunks(self@.id, buffer, len as nat, done as nat),
                forall|i: int| 0 <= i < plan@.len() ==> chunk_sized((#[trigger] plan@[i])@.command),
            decreases len - done,
        {
            let n: usize = if len - done < CHUNK {
                len - done
            } else {
                CHUNK
            };
            let ghost views = plan_view(plan@);
            let entry = Planned {
                command: self.cmd_read(n as u8).encode(),
                dest: Some(Destination { buffer, offset: done }),
            };
            plan.push(entry);
            proof {
                let rest = read_chunks(self@.id, buffer, len as nat, (done + n) as nat);
                assert(plan_view(plan@) =~= views.push(entry@));
                assert(views + (seq![entry@] + rest) =~= views.push(entry@) + rest);
            }
            done = done + n;
        }
        proof {
            assert(plan_view(plan@) + Seq::<PushView>::empty() =~= plan_view(plan@));
        }
    }

    /// Adds the write commands for one run of bytes to a plan.
    fn plan_write(&self, plan: &mut Vec<Planned>, data: &[u8])
        requires
            forall|i: int| 0 <= i < old(plan)@.len() ==> chunk_sized((#[trigger] old(plan)@[i])@.command),
        ensures
            plan_view(final(plan)@) == plan_view(old(plan)@) + write_chunks(self@.id, data@, 0),
            forall|i: int| 0 <= i < final(plan)@.len() ==> chunk_sized((#[trigger] final(plan)@[i])@.command),
    {
        let ghost before = plan_view(plan@);
        let len: usize = data.len();
        let mut done: usize = 0;
        proof {
            assert(before + write_chunks(self@.id, data@, 0) =~= plan_view(plan@) + write_chunks(
                self@.id,
                data@,
                0,
            ));
        }
        while done < len
            invariant
                len == data@.len(),
                0 <= done <= len,
                before + write_chunks(self@.id, data@, 0) == plan_view(plan@) + write_chunks(
                    self@.id,
                    data@,
                    done as nat,
                ),
                forall|i: int| 0 <= i < plan@.len() ==> chunk_sized((#[trigger] plan@[i])@.command),
            decreases len - done,
        {
            let n: usize = if len - done < CHUNK {
                len - done
            } else {
                CHUNK
            };
            let ghost views = plan_view(plan@);
            let chunk = slice_subrange(data, done, done + n);
            let entry = Planned { command: self.cmd_write(chunk).encode(), dest: None };
            plan.push(entry);
            proof {
                let rest = write_chunks(self@.id, data@, (done + n) as nat);
                assert(plan_view(plan@) =~= views.push(entry@));
                assert(views + (seq![entry@] + rest) =~= views.push(entry@) + rest);
            }
            done = done + n;
        }
        proof {
            assert(plan_view(plan@) + Seq::<PushView>::empty() =~= plan_view(plan@));
        }
    }

    /// Lays out a transaction with the device at `address`: for every
    /// change of direction a start condition, the reads and writes in
    /// chunks, and a stop at the end. The answer of each read command is
    /// bound for the buffer of its operation, named by the operation's
    /// place in `operations`.
    pub fn transaction(&self, address: u8, operations: &[Operation<'_>]) -> (out: Vec<Planned>)
        ensures
            plan_view(out@) == transaction_plan(
                self@.id,
                address,
                operations@.map_values(|op: Operation| op@),
            ),
            forall|i: int| 0 <= i < out@.len() ==> chunk_sized((#[trigger] out@[i])@.command),
    {
        let ghost ops = operations@.map_values(|op: Operation| op@);
        let mut plan: Vec<Planned> = Vec::new();
        let mut last: Option<bool> = None;
        let mut i: usize = 0;
        proof {
            assert(plan_view(plan@) =~= Seq::<PushView>::empty());
            assert(ops.take(0) =~= Seq::<OperationView>::empty());
        }
        while i < operations.len()
            invariant
                0 <= i <= operations@.len(),
                ops == operations@.map_values(|op: Operation| op@),
                plan_view(plan@) == operations_plan(self@.id, address, ops.take(i as int)),
                last == last_direction(ops.take(i as int)),
                forall|k: int| 0 <= k < plan@.len() ==> chunk_sized((#[trigger] plan@[k])@.command),
            decreases operations@.len() - i,
        {
            let ghost before = plan_view(plan@);
            let op = operations[i];
            proof {
                assert(ops.take(i + 1).drop_last() =~= ops.take(i as int));
                assert(ops.take(i + 1).last() == op@);
            }
            let reading: bool = match op {
                Operation::Read(_) => true,
                Operation::Write(_) => false,
            };
            let turn: bool = match last {
                Some(direction) => direction != reading,
                None => true,
            };
            if turn {
                let byte: u8 = (((address as u16 * 2) % 256) as u8) + if reading {
                    1u8
                } else {
                    0u8
                };
                let entry = Planned { command: self.cmd_start(byte).encode(), dest: None };
                let ghost views = plan_view(plan@);
                plan.push(entry);
                proof {
                    assert(plan_view(plan@) =~= views.push(entry@));
                }
            }
            match op {
                Operation::Read(len) => {
                    self.plan_read(&mut plan, i, len);
                },
                Operation::Write(data) => {
                    self.plan_write(&mut plan, data);
                },
            }
            proof {
                let piece = operation_plan(self@.id, address, op@, i, last);
                assert(plan_view(plan@) =~= before + piece);
            }
            last = Some(reading);
            i = i + 1;
        }
        proof {
            assert(ops.take(i as int) =~= ops);
        }
        if i > 0 {
            let entry = Planned { command: self.cmd_stop().encode(), dest: None };
            let ghost views = plan_view(plan@);
            plan.push(entry);
            proof {
                assert(plan_view(plan@) =~= views.push(entry@));
            }
        }
        plan
    }
}

/// A resource in the mode of the data line of the bus.
#[derive(Debug)]
pub struct Sda {
    pub(crate) resource: Resource,
}

impl View for Sda {
    type V = ResourceHandleView;

    closed spec fn view(&self) -> ResourceHandleView {
        self.resource@
    }
}

/// A resource on its way to being the data line.
#[derive(Debug)]
pub struct SdaBuilder {
    resource: Resource,
    mode: u8,
}

impl ResourceMode for Sda {
    const PROTOCOL: u16 = SDA_PROTOCOL;

    type Builder = SdaBuilder;

    closed spec fn builder_resource(builder: SdaBuilder) -> ResourceHandleView {
        builder.resource@
    }

    closed spec fn builder_mode(builder: SdaBuilder) -> u8 {
        builder.mode
    }

    fn build(resource: Resource, mode: u8) -> (out: SdaBuilder) {
        SdaBuilder { resource, mode }
    }
}

impl SdaBuilder {
    /// The request that puts the resource into the mode.
    pub fn enable(&self) -> (out: ControlOut)
        ensures
            out.request == CONFIGURE_MODE,
            out.value == configure_value(
                Sda::builder_resource(*self).id,
                Sda::builder_mode(*self),
            ),
            out.data@.len() == 0,
    {
        let config: Vec<u8> = Vec::new();
        self.resource.configure(self.mode, config.as_slice())
    }

    /// Takes note of how that request went: where it reached the device, the
    /// resource is in the mode and ready for commands; where it did not,
    /// the claim on the resource is given back.
    pub fn enabled(self, interface: &mut Interface, outcome: Result<(), TransferError>) -> (out:
        Result<Sda, AttachError>)
        ensures
            match outcome {
                Ok(_) => {
                    &&& out is Ok
                    &&& out->Ok_0@ == (ResourceHandleView {
                        id: Sda::builder_resource(self).id,
                        mode: Some(Sda::builder_mode(self)),
                    })
                    &&& final(interface)@ == old(interface)@
                },
                Err(_) => {
                    &&& out is Err
                    &&& out->Err_0.kind == ErrorKind::ConfigureMode
                    &&& final(interface)@ == released(
                        old(interface)@,
                        Sda::builder_resource(self).id as int,
                    )
                },
            },
    {
        let mut resource = self.resource;
        match resource.configured(self.mode, outcome) {
            Ok(_) => Ok(Sda { resource }),
            Err(e) => {
                interface.release(resource);
                Err(e)
            },
        }
    }

    /// Gives the resource back, as it was claimed.
    pub fn into_resource(self) -> (out: Resource)
        ensures
            out@ == Sda::builder_resource(self),
    {
        self.resource
    }
}

impl Sda {
    /// The id of the resource.
    pub fn id(&self) -> (out: u8)
        ensures
            out == self@.id,
            1 <= out <= 63,
    {
        self.resource.id()
    }

    /// Gives the resource back, as it was claimed.
    pub fn into_resource(self) -> (out: Resource)
        ensures
            out@ == self@,
    {
        self.resource
    }
}

/// A resource in the mode of the clock line of the bus.
#[derive(Debug)]
pub struct Scl {
    pub(crate) resource: Resource,
}

impl View for Scl {
    type V = ResourceHandleView;

    closed spec fn view(&self) -> ResourceHandleView {
        self.resource@
    }
}

/// A resource on its way to being the clock line.
#[derive(Debug)]
pub struct SclBuilder {
    resource: Resource,
    mode: u8,
}

impl ResourceMode for Scl {
    const PROTOCOL: u16 = SCL_PROTOCOL;

    type Builder = SclBuilder;

    closed spec fn builder_resource(builder: SclBuilder) -> ResourceHandleView {
        builder.resource@
    }

    closed spec fn builder_mode(builder: SclBuilder) -> u8 {
        builder.mode
    }

    fn build(resource: Resource, mode: u8) -> (out: SclBuilder) {
        SclBuilder { resource, mode }
    }
}

impl SclBuilder {
    /// The request that puts the resource into the mode.
    pub fn enable(&self) -> (out: ControlOut)
        ensures
            out.request == CONFIGURE_MODE,
            out.value == configure_value(
                Scl::builder_resource(*self).id,
                Scl::builder_mode(*self),
            ),
            out.data@.len() == 0,
    {
        let config: Vec<u8> = Vec::new();
        self.resource.configure(self.mode, config.as_slice())
    }

    /// Takes note of how that request went: where it reached the device, the
    /// resource is in the mode and ready for commands; where it did not,
    /// the claim on the resource is given back.
    pub fn enabled(self, interface: &mut Interface, outcome: Result<(), TransferError>) -> (out:
        Result<Scl, AttachError>)
        ensures
            match outcome {
                Ok(_) => {
                    &&& out is Ok
                    &&& out->Ok_0@ == (ResourceHandleView {
                        id: Scl::builder_resource(self).id,
                        mode: Some(Scl::builder_mode(self)),
                    })
                    &&& final(interface)@ == old(interface)@
                },
                Err(_) => {
                    &&& out is Err
                    &&& out->Err_0.kind == ErrorKind::ConfigureMode
                    &&& final(interface)@ == released(
                        old(interface)@,
                        Scl::builder_resource(self).id as int,
                    )
                },
            },
    {
        let mut resource = self.resource;
        match resource.configured(self.mode, outcome) {
            Ok(_) => Ok(Scl { resource }),
            Err(e) => {
                interface.release(resource);
                Err(e)
            },
        }
    }

    /// Gives the resource back, as it was claimed.
    pub fn into_resource(self) -> (out: Resource)
        ensures
            out@ == Scl::builder_resource(self),
    {
        self.resource
    }
}

impl Scl {
    /// The id of the resource.
    pub fn id(&self) -> (out: u8)
        ensures
            out == self@.id,
            1 <= out <= 63,
    {
        self.resource.id()
    }

    /// Gives the resource back, as it was claimed.
    pub fn into_resource(self) -> (out: Resource)
        ensures
            out@ == self@,
    {
        self.resource
    }
}

/// Without operations a transaction sends nothing, not even a stop.
pub proof fn lemma_empty_transaction(id: u8, address: u8)
    ensures
        transaction_plan(id, address, Seq::empty()).len() == 0,
{
}

/// A transaction that is one read of 1 to 255 bytes comes to three
/// commands: a start condition with the read bit set, the read whose answer
/// goes to the front of the first buffer, and a stop.
pub proof fn lemma_single_read(id: u8, address: u8, len: nat)
    requires
        1 <= len <= CHUNK,
    ensures
        transaction_plan(id, address, seq![OperationView::Read(len)]) == seq![
            plain(start_view(id, address_byte(address, true))),
            PushView {
                command: read_view(id, len as u8),
                dest: Some(Destination { buffer: 0, offset: 0 }),
            },
            plain(stop_view(id)),
        ],
{
    let ops = seq![OperationView::Read(len)];
    assert(ops.drop_last() =~= Seq::<OperationView>::empty());
    reveal_with_fuel(read_chunks, 2);
    reveal_with_fuel(operations_plan, 2);
    assert(transaction_plan(id, address, ops) =~= seq![
        plain(start_view(id, address_byte(address, true))),
        PushView {
            command: read_view(id, len as u8),
            dest: Some(Destination { buffer: 0, offset: 0 }),
        },
        plain(stop_view(id)),
    ]);
}

/// Why a transaction on the bus failed.
#[derive(Clone, Copy, Debug, PartialEq, Eq)]
pub struct Error {
    pub source: RequestError,
}

impl From<RequestError> for Error {
    fn from(value: RequestError) -> (out: Error) {
        Error { source: value }
    }
}

impl vstd::std_specs::convert::FromSpecImpl<RequestError> for Error {
    open spec fn obeys_from_spec() -> bool {
        true
    }

    open spec fn from_spec(value: RequestError) -> Error {
        Error { source: value }
    }
}

} // verus!

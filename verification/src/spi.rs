//! The SPI bus controller, and a device on the bus with its chip select.

use crate::command::{command_byte, Command, CommandView, SliceResponse};
use crate::error::{Error as AttachError, ErrorKind, RequestError};
use crate::gpio::Gpio;
use crate::interface::{cmd_delay, delay_view, released, Interface};
use crate::protocol::gpio::{PIN_CMD_HIGH, PIN_CMD_LOW};
use crate::protocol::spi::{
    CONTROLLER_CMD_TRANSFER, CONTROLLER_PROTOCOL, SCK_PIN_PROTOCOL, SDI_PIN_PROTOCOL,
    SDO_PIN_PROTOCOL,
};
use crate::queue::{
    chunk_len, chunk_sized, plain, plan_view, Destination, Planned, PushView, CHUNK,
};
use crate::request::CONFIGURE_MODE;
use crate::resource::{configure_value, ControlOut, Resource, ResourceHandleView, ResourceMode};
use nusb::transfer::TransferError;
use vstd::prelude::*;
use vstd::slice::slice_subrange;

verus! {

/// One operation of a transaction with a device on the bus.
#[derive(Clone, Copy, Debug)]
pub enum Operation<'a> {
    /// Reads so many bytes, sending zeros meanwhile.
    Read(usize),
    /// Writes these bytes and lets go of what comes back.
    Write(&'a [u8]),
    /// Writes these bytes and reads as many; the first number is the size
    /// of the buffer to read into, which has to be the number of bytes
    /// written.
    Transfer(usize, &'a [u8]),
    /// Writes these bytes and reads as many into their place.
    TransferInPlace(&'a [u8]),
    /// Waits for so many nanoseconds.
    DelayNs(u32),
}

/// An operation as it models in contracts.
pub enum OperationView {
    Read(nat),
    Write(Seq<u8>),
    Transfer(nat, Seq<u8>),
    TransferInPlace(Seq<u8>),
    DelayNs(u32),
}

impl<'a> View for Operation<'a> {
    type V = OperationView;

    open spec fn view(&self) -> OperationView {
        match self {
            Operation::Read(n) => OperationView::Read(*n as nat),
            Operation::Write(data) => OperationView::Write(data@),
            Operation::Transfer(n, data) => OperationView::Transfer(*n as nat, data@),
            Operation::TransferInPlace(data) => OperationView::TransferInPlace(data@),
            Operation::DelayNs(ns) => OperationView::DelayNs(*ns),
        }
    }
}

/// Whether an operation is sound: a transfer reads as many bytes as it
/// writes.
pub open spec fn sound(op: OperationView) -> bool {
    match op {
        OperationView::Transfer(n, data) => n == data.len(),
        _ => true,
    }
}

/// The command that writes `tx` and reads as many bytes.
pub open spec fn transfer_view(id: u8, tx: Seq<u8>) -> CommandView {
    CommandView {
        bytes: seq![command_byte(id, CONTROLLER_CMD_TRANSFER), tx.len() as u8] + tx,
        width: tx.len(),
    }
}

/// The command that drives a chip select pin.
pub open spec fn select_view(pin: u8, level: bool) -> CommandView {
    CommandView {
        bytes: seq![
            command_byte(
                pin,
                if level {
                    PIN_CMD_HIGH
                } else {
                    PIN_CMD_LOW
                },
            ),
        ],
        width: 0,
    }
}

/// So many zeros.
pub open spec fn zeros(len: nat) -> Seq<u8> {
    Seq::new(len, |i: int| 0u8)
}

/// Where the answer to the chunk at `done` goes: to that place in the
/// buffer, if there is a buffer.
pub open spec fn chunk_dest(buffer: Option<usize>, done: nat) -> Option<Destination> {
    match buffer {
        Some(buffer) => Some(Destination { buffer, offset: done as usize }),
        None => None,
    }
}

/// The transfer commands for the bytes of `tx` from `done` on, in chunks of
/// 255 bytes at most. With a buffer, what comes back is bound for the same
/// place in it; without, nobody waits for it.
pub open spec fn transfer_chunks(id: u8, tx: Seq<u8>, buffer: Option<usize>, done: nat) -> Seq<
    PushView,
>
    decreases tx.len() - done,
{
    if done >= tx.len() {
        Seq::empty()
    } else {
        let n = chunk_len(tx.len(), done);
        seq![
            PushView {
                command: transfer_view(id, tx.subrange(done as int, (done + n) as int)),
                dest: chunk_dest(buffer, done),
            },
        ] + transfer_chunks(id, tx, buffer, done + n)
    }
}

/// Microseconds that cover `ns` nanoseconds.
pub open spec fn delay_us(ns: u32) -> u32 {
    ((ns + 999) / 1000) as u32
}

/// The commands for operation number `index` of a transaction.
pub open spec fn operation_plan(id: u8, op: OperationView, index: usize) -> Seq<PushView> {
    match op {
        OperationView::Read(len) => transfer_chunks(id, zeros(len), Some(index), 0),
        OperationView::Write(data) => transfer_chunks(id, data, None, 0),
        OperationView::Transfer(_, data) => transfer_chunks(id, data, Some(index), 0),
        OperationView::TransferInPlace(data) => transfer_chunks(id, data, Some(index), 0),
        OperationView::DelayNs(ns) => seq![plain(delay_view(delay_us(ns)))],
    }
}

/// The commands for a run of operations.
pub open spec fn operations_plan(id: u8, ops: Seq<OperationView>) -> Seq<PushView>
    decreases ops.len(),
{
    if ops.len() == 0 {
        Seq::empty()
    } else {
        operations_plan(id, ops.drop_last()) + operation_plan(
            id,
            ops.last(),
            (ops.len() - 1) as usize,
        )
    }
}

/// The commands for a transaction with a device: chip select low, the
/// operations, chip select high.
pub open spec fn transaction_plan(id: u8, pin: u8, ops: Seq<OperationView>) -> Seq<PushView> {
    (seq![plain(select_view(pin, false))] + operations_plan(id, ops)).push(
        plain(select_view(pin, true)),
    )
}

/// A resource in the mode of a bus controller.
#[derive(Debug)]
pub struct Controller {
    pub(crate) resource: Resource,
}

impl View for Controller {
    type V = ResourceHandleView;

    closed spec fn view(&self) -> ResourceHandleView {
        self.resource@
    }
}

/// A resource on its way to being a bus controller.
#[derive(Debug)]
pub struct ControllerBuilder {
    resource: Resource,
    mode: u8,
}

impl ResourceMode for Controller {
    const PROTOCOL: u16 = CONTROLLER_PROTOCOL;

    type Builder = ControllerBuilder;

    closed spec fn builder_resource(builder: ControllerBuilder) -> ResourceHandleView {
        builder.resource@
    }

    closed spec fn builder_mode(builder: ControllerBuilder) -> u8 {
        builder.mode
    }

    fn build(resource: Resource, mode: u8) -> (out: ControllerBuilder) {
        ControllerBuilder { resource, mode }
    }
}

impl ControllerBuilder {
    /// The request that puts the resource into the mode.
    pub fn enable(&self) -> (out: ControlOut)
        ensures
            out.request == CONFIGURE_MODE,
            out.value == configure_value(
                Controller::builder_resource(*self).id,
                Controller::builder_mode(*self),
            ),
            out.data@.len() == 0,
    {
        let config: Vec<u8> = Vec::new();
        self.resource.configure(self.mode, config.as_slice())
    }

    /// Takes note of how that request went: where it reached the device, the
    /// resource is in the mode and ready for commands; where it did not,
    /// the claim on the resource is given back.
    pub fn enabled(self, interface: &mut Interface, outcome: Result<(), TransferError>) -> (out:
        Result<Controller, AttachError>)
        ensures
            match outcome {
                Ok(_) => {
                    &&& out is Ok
                    &&& out->Ok_0@ == (ResourceHandleView {
                        id: Controller::builder_resource(self).id,
                        mode: Some(Controller::builder_mode(self)),
                    })
                    &&& final(interface)@ == old(interface)@
                },
                Err(_) => {
                    &&& out is Err
                    &&& out->Err_0.kind == ErrorKind::ConfigureMode
                    &&& final(interface)@ == released(
                        old(interface)@,
                        Controller::builder_resource(self).id as int,
                    )
                },
            },
    {
        let mut resource = self.resource;
        match resource.configured(self.mode, outcome) {
            Ok(_) => Ok(Controller { resource }),
            Err(e) => {
                interface.release(resource);
                Err(e)
            },
        }
    }

    /// Gives the resource back, as it was claimed.
    pub fn into_resource(self) -> (out: Resource)
        ensures
            out@ == Controller::builder_resource(self),
    {
        self.resource
    }
}

/// A run of zeros of the size of a chunk.
fn zero_chunk() -> (out: Vec<u8>)
    ensures
        out@ == zeros(CHUNK as nat),
{
    let mut out: Vec<u8> = Vec::new();
    let mut i: usize = 0;
    while i < CHUNK
        invariant
            0 <= i <= CHUNK,
            out@.len() == i,
            forall|k: int| 0 <= k < i ==> out@[k] == 0u8,
        decreases CHUNK - i,
    {
        out.push(0);
        i = i + 1;
    }
    assert(out@ =~= zeros(CHUNK as nat));
    out
}

impl Controller {
    /// The id of the resource.
    pub fn id(&self) -> (out: u8)
        ensures
            out == self@.id,
            1 <= out <= 63,
    {
        self.resource.id()
    }

    /// Gives the resource back, as it was claimed.
    pub fn into_resource(self) -> (out: Resource)
        ensures
            out@ == self@,
    {
        self.resource
    }

    /// The command that writes `tx`, which may be 255 bytes at most, and
    /// reads as many bytes.
    pub fn cmd_transfer<'a>(&self, tx: &'a [u8]) -> (out: Command<&'a [u8], SliceResponse>)
        ensures
            out.resource_id() == self@.id,
            out.opcode() == CONTROLLER_CMD_TRANSFER,
            out.payload() == tx,
            tx@.len() <= CHUNK ==> out.wf(),
            out@ == transfer_view(self@.id, tx@),
    {
        let out = Command::new(
            self.resource.id(),
            CONTROLLER_CMD_TRANSFER,
            tx,
            SliceResponse::new(tx.len()),
        );
        assert(out@.bytes =~= transfer_view(self@.id, tx@).bytes);
        out
    }

    /// Adds the transfer commands for one run of bytes to a plan.
    fn plan_transfer(&self, plan: &mut Vec<Planned>, tx: &[u8], buffer: Option<usize>)
        requires
            forall|i: int|
                0 <= i < old(plan)@.len() ==> chunk_sized((#[trigger] old(plan)@[i])@.command),
        ensures
            plan_view(final(plan)@) == plan_view(old(plan)@) + transfer_chunks(
                self@.id,
                tx@,
                buffer,
                0,
            ),
            forall|i: int|
                0 <= i < final(plan)@.len() ==> chunk_sized((#[trigger] final(plan)@[i])@.command),
    {
        let ghost before = plan_view(plan@);
        let len: usize = tx.len();
        let mut done: usize = 0;
        proof {
            assert(before + transfer_chunks(self@.id, tx@, buffer, 0) =~= plan_view(plan@)
                + transfer_chunks(self@.id, tx@, buffer, 0));
        }
        while done < len
            invariant
                len == tx@.len(),
                0 <= done <= len,
                before + transfer_chunks(self@.id, tx@, buffer, 0) == plan_view(plan@)
                    + transfer_chunks(self@.id, tx@, buffer, done as nat),
                forall|i: int| 0 <= i < plan@.len() ==> chunk_sized((#[trigger] plan@[i])@.command),
            decreases len - done,
        {
            let n: usize = if len - done < CHUNK {
                len - done
            } else {
                CHUNK
            };
            let ghost views = plan_view(plan@);
            let chunk = slice_subrange(tx, done, done + n);
            let dest = match buffer {
                Some(buffer) => Some(Destination { buffer, offset: done }),
                None => None,
            };
            let entry = Planned { command: self.cmd_transfer(chunk).encode(), dest };
            plan.push(entry);
            proof {
                let rest = transfer_chunks(self@.id, tx@, buffer, (done + n) as nat);
                assert(plan_view(plan@) =~= views.push(entry@));
                assert(views + (seq![entry@] + rest) =~= views.push(entry@) + rest);
            }
            done = done + n;
        }
        proof {
            assert(plan_view(plan@) + Seq::<PushView>::empty() =~= plan_view(plan@));
        }
    }

    /// Adds the transfer commands that read `len` bytes, sending zeros.
    fn plan_read(&self, plan: &mut Vec<Planned>, len: usize, buffer: usize)
        requires
            forall|i: int|
                0 <= i < old(plan)@.len() ==> chunk_sized((#[trigger] old(plan)@[i])@.command),
        ensures
            plan_view(final(plan)@) == plan_view(old(plan)@) + transfer_chunks(
                self@.id,
                zeros(len as nat),
                Some(buffer),
                0,
            ),
            forall|i: int|
                0 <= i < final(plan)@.len() ==> chunk_sized((#[trigger] final(plan)@[i])@.command),
    {
        let ghost before = plan_view(plan@);
        let ghost tx = zeros(len as nat);
        let blank = zero_chunk();
        let mut done: usize = 0;
        proof {
            assert(before + transfer_chunks(self@.id, tx, Some(buffer), 0) =~= plan_view(plan@)
                + transfer_chunks(self@.id, tx, Some(buffer), 0));
        }
        while done < len
            invariant
                tx == zeros(len as nat),
                blank@ == zeros(CHUNK as nat),
                0 <= done <= len,
                before + transfer_chunks(self@.id, tx, Some(buffer), 0) == plan_view(plan@)
                    + transfer_chunks(self@.id, tx, Some(buffer), done as nat),
                forall|i: int| 0 <= i < plan@.len() ==> chunk_sized((#[trigger] plan@[i])@.command),
            decreases len - done,
        {
            let n: usize = if len - done < CHUNK {
                len - done
            } else {
                CHUNK
            };
            let ghost views = plan_view(plan@);
            let chunk = slice_subrange(blank.as_slice(), 0, n);
            let entry = Planned {
                command: self.cmd_transfer(chunk).encode(),
                dest: Some(Destination { buffer, offset: done }),
            };
            plan.push(entry);
            proof {
                let rest = transfer_chunks(self@.id, tx, Some(buffer), (done + n) as nat);
                assert(chunk@ =~= tx.subrange(done as int, (done + n) as int));
                assert(plan_view(plan@) =~= views.push(entry@));
                assert(views + (seq![entry@] + rest) =~= views.push(entry@) + rest);
            }
            done = done + n;
        }
        proof {
            assert(plan_view(plan@) + Seq::<PushView>::empty() =~= plan_view(plan@));
        }
    }

    /// Lays out a read of `len` bytes: transfers that send zeros, each
    /// bound for its place in the caller's one buffer.
    pub fn read(&self, len: usize) -> (out: Vec<Planned>)
        ensures
            plan_view(out@) == transfer_chunks(self@.id, zeros(len as nat), Some(0usize), 0),
            forall|i: int| 0 <= i < out@.len() ==> chunk_sized((#[trigger] out@[i])@.command),
    {
        let mut plan: Vec<Planned> = Vec::new();
        self.plan_read(&mut plan, len, 0);
        proof {
            let chunks = transfer_chunks(self@.id, zeros(len as nat), Some(0usize), 0);
            assert(Seq::<PushView>::empty() + chunks =~= chunks);
        }
        plan
    }

    /// Lays out a write of `words`: transfers whose answers nobody waits
    /// for.
    pub fn write(&self, words: &[u8]) -> (out: Vec<Planned>)
        ensures
            plan_view(out@) == transfer_chunks(self@.id, words@, None, 0),
            forall|i: int| 0 <= i < out@.len() ==> chunk_sized((#[trigger] out@[i])@.command),
    {
        let mut plan: Vec<Planned> = Vec::new();
        self.plan_transfer(&mut plan, words, None);
        proof {
            let chunks = transfer_chunks(self@.id, words@, None, 0);
            assert(Seq::<PushView>::empty() + chunks =~= chunks);
        }
        plan
    }

    /// Lays out a transfer that writes `write` and reads as many bytes
    /// into the caller's one buffer, whose size `read_len` has to be the
    /// number of bytes written.
    pub fn transfer(&self, read_len: usize, write: &[u8]) -> (out: Vec<Planned>)
        requires
            read_len == write@.len(),
        ensures
            plan_view(out@) == transfer_chunks(self@.id, write@, Some(0usize), 0),
            forall|i: int| 0 <= i < out@.len() ==> chunk_sized((#[trigger] out@[i])@.command),
    {
        self.transfer_in_place(write)
    }

    /// Lays out a transfer that writes `words` and reads as many bytes
    /// into their place.
    pub fn transfer_in_place(&self, words: &[u8]) -> (out: Vec<Planned>)
        ensures
            plan_view(out@) == transfer_chunks(self@.id, words@, Some(0usize), 0),
            forall|i: int| 0 <= i < out@.len() ==> chunk_sized((#[trigger] out@[i])@.command),
    {
        let mut plan: Vec<Planned> = Vec::new();
        self.plan_transfer(&mut plan, words, Some(0));
        proof {
            let chunks = transfer_chunks(self@.id, words@, Some(0usize), 0);
            assert(Seq::<PushView>::empty() + chunks =~= chunks);
        }
        plan
    }
}

/// A resource in the mode of the clock pin of the bus.
#[derive(Debug)]
pub struct SckPin {
    pub(crate) resource: Resource,
}

impl View for SckPin {
    type V = ResourceHandleView;

    closed spec fn view(&self) -> ResourceHandleView {
        self.resource@
    }
}

/// A resource on its way to being the clock pin.
#[derive(Debug)]
pub struct SckPinBuilder {
    resource: Resource,
    mode: u8,
}

impl ResourceMode for SckPin {
    const PROTOCOL: u16 = SCK_PIN_PROTOCOL;

    type Builder = SckPinBuilder;

    closed spec fn builder_resource(builder: SckPinBuilder) -> ResourceHandleView {
        builder.resource@
    }

    closed spec fn builder_mode(builder: SckPinBuilder) -> u8 {
        builder.mode
    }

    fn build(resource: Resource, mode: u8) -> (out: SckPinBuilder) {
        SckPinBuilder { resource, mode }
    }
}

impl SckPinBuilder {
    /// The request that puts the resource into the mode.
    pub fn enable(&self) -> (out: ControlOut)
        ensures
            out.request == CONFIGURE_MODE,
            out.value == configure_value(
                SckPin::builder_resource(*self).id,
                SckPin::builder_mode(*self),
            ),
            out.data@.len() == 0,
    {
        let config: Vec<u8> = Vec::new();
        self.resource.configure(self.mode, config.as_slice())
    }

    /// Takes note of how that request went: where it reached the device, the
    /// resource is in the mode and ready for commands; where it did not,
    /// the claim on the resource is given back.
    pub fn enabled(self, interface: &mut Interface, outcome: Result<(), TransferError>) -> (out:
        Result<SckPin, AttachError>)
        ensures
            match outcome {
                Ok(_) => {
                    &&& out is Ok
                    &&& out->Ok_0@ == (ResourceHandleView {
                        id: SckPin::builder_resource(self).id,
                        mode: Some(SckPin::builder_mode(self)),
                    })
                    &&& final(interface)@ == old(interface)@
                },
                Err(_) => {
                    &&& out is Err
                    &&& out->Err_0.kind == ErrorKind::ConfigureMode
                    &&& final(interface)@ == released(
                        old(interface)@,
                        SckPin::builder_resource(self).id as int,
                    )
                },
            },
    {
        let mut resource = self.resource;
        match resource.configured(self.mode, outcome) {
            Ok(_) => Ok(SckPin { resource }),
            Err(e) => {
                interface.release(resource);
                Err(e)
            },
        }
    }

    /// Gives the resource back, as it was claimed.
    pub fn into_resource(self) -> (out: Resource)
        ensures
            out@ == SckPin::builder_resource(self),
    {
        self.resource
    }
}

impl SckPin {
    /// The id of the resource.
    pub fn id(&self) -> (out: u8)
        ensures
            out == self@.id,
            1 <= out <= 63,
    {
        self.resource.id()
    }

    /// Gives the resource back, as it was claimed.
    pub fn into_resource(self) -> (out: Resource)
        ensures
            out@ == self@,
    {
        self.resource
    }
}

/// A resource in the mode of the data-out pin of the bus.
#[derive(Debug)]
pub struct SdoPin {
    pub(crate) resource: Resource,
}

impl View for SdoPin {
    type V = ResourceHandleView;

    closed spec fn view(&self) -> ResourceHandleView {
        self.resource@
    }
}

/// A resource on its way to being the data-out pin.
#[derive(Debug)]
pub struct SdoPinBuilder {
    resource: Resource,
    mode: u8,
}

impl ResourceMode for SdoPin {
    const PROTOCOL: u16 = SDO_PIN_PROTOCOL;

    type Builder = SdoPinBuilder;

    closed spec fn builder_resource(builder: SdoPinBuilder) -> ResourceHandleView {
        builder.resource@
    }

    closed spec fn builder_mode(builder: SdoPinBuilder) -> u8 {
        builder.mode
    }

    fn build(resource: Resource, mode: u8) -> (out: SdoPinBuilder) {
        SdoPinBuilder { resource, mode }
    }
}

impl SdoPinBuilder {
    /// The request that puts the resource into the mode.
    pub fn enable(&self) -> (out: ControlOut)
        ensures
            out.request == CONFIGURE_MODE,
            out.value == configure_value(
                SdoPin::builder_resource(*self).id,
                SdoPin::builder_mode(*self),
            ),
            out.data@.len() == 0,
    {
        let config: Vec<u8> = Vec::new();
        self.resource.configure(self.mode, config.as_slice())
    }

    /// Takes note of how that request went: where it reached the device, the
    /// resource is in the mode and ready for commands; where it did not,
    /// the claim on the resource is given back.
    pub fn enabled(self, interface: &mut Interface, outcome: Result<(), TransferError>) -> (out:
        Result<SdoPin, AttachError>)
        ensures
            match outcome {
                Ok(_) => {
                    &&& out is Ok
                    &&& out->Ok_0@ == (ResourceHandleView {
                        id: SdoPin::builder_resource(self).id,
                        mode: Some(SdoPin::builder_mode(self)),
                    })
                    &&& final(interface)@ == old(interface)@
                },
                Err(_) => {
                    &&& out is Err
                    &&& out->Err_0.kind == ErrorKind::ConfigureMode
                    &&& final(interface)@ == released(
                        old(interface)@,
                        SdoPin::builder_resource(self).id as int,
                    )
                },
            },
    {
        let mut resource = self.resource;
        match resource.configured(self.mode, outcome) {
            Ok(_) => Ok(SdoPin { resource }),
            Err(e) => {
                interface.release(resource);
                Err(e)
            },
        }
    }

    /// Gives the resource back, as it was claimed.
    pub fn into_resource(self) -> (out: Resource)
        ensures
            out@ == SdoPin::builder_resource(self),
    {
        self.resource
    }
}

impl SdoPin {
    /// The id of the resource.
    pub fn id(&self) -> (out: u8)
        ensures
            out == self@.id,
            1 <= out <= 63,
    {
        self.resource.id()
    }

    /// Gives the resource back, as it was claimed.
    pub fn into_resource(self) -> (out: Resource)
        ensures
            out@ == self@,
    {
        self.resource
    }
}

/// A resource in the mode of the data-in pin of the bus.
#[derive(Debug)]
pub struct SdiPin {
    pub(crate) resource: Resource,
}

impl View for SdiPin {
    type V = ResourceHandleView;

    closed spec fn view(&self) -> ResourceHandleView {
        self.resource@
    }
}

/// A resource on its way to being the data-in pin.
#[derive(Debug)]
pub struct SdiPinBuilder {
    resource: Resource,
    mode: u8,
}

impl ResourceMode for SdiPin {
    const PROTOCOL: u16 = SDI_PIN_PROTOCOL;

    type Builder = SdiPinBuilder;

    closed spec fn builder_resource(builder: SdiPinBuilder) -> ResourceHandleView {
        builder.resource@
    }

    closed spec fn builder_mode(builder: SdiPinBuilder) -> u8 {
        builder.mode
    }

    fn build(resource: Resource, mode: u8) -> (out: SdiPinBuilder) {
        SdiPinBuilder { resource, mode }
    }
}

impl SdiPinBuilder {
    /// The request that puts the resource into the mode.
    pub fn enable(&self) -> (out: ControlOut)
        ensures
            out.request == CONFIGURE_MODE,
            out.value == configure_value(
                SdiPin::builder_resource(*self).id,
                SdiPin::builder_mode(*self),
            ),
            out.data@.len() == 0,
    {
        let config: Vec<u8> = Vec::new();
        self.resource.configure(self.mode, config.as_slice())
    }

    /// Takes note of how that request went: where it reached the device, the
    /// resource is in the mode and ready for commands; where it did not,
    /// the claim on the resource is given back.
    pub fn enabled(self, interface: &mut Interface, outcome: Result<(), TransferError>) -> (out:
        Result<SdiPin, AttachError>)
        ensures
            match outcome {
                Ok(_) => {
                    &&& out is Ok
                    &&& out->Ok_0@ == (ResourceHandleView {
                        id: SdiPin::builder_resource(self).id,
                        mode: Some(SdiPin::builder_mode(self)),
                    })
                    &&& final(interface)@ == old(interface)@
                },
                Err(_) => {
                    &&& out is Err
                    &&& out->Err_0.kind == ErrorKind::ConfigureMode
                    &&& final(interface)@ == released(
                        old(interface)@,
                        SdiPin::builder_resource(self).id as int,
                    )
                },
            },
    {
        let mut resource = self.resource;
        match resource.configured(self.mode, outcome) {
            Ok(_) => Ok(SdiPin { resource }),
            Err(e) => {
                interface.release(resource);
                Err(e)
            },
        }
    }

    /// Gives the resource back, as it was claimed.
    pub fn into_resource(self) -> (out: Resource)
        ensures
            out@ == SdiPin::builder_resource(self),
    {
        self.resource
    }
}

impl SdiPin {
    /// The id of the resource.
    pub fn id(&self) -> (out: u8)
        ensures
            out == self@.id,
            1 <= out <= 63,
    {
        self.resource.id()
    }

    /// Gives the resource back, as it was claimed.
    pub fn into_resource(self) -> (out: Resource)
        ensures
            out@ == self@,
    {
        self.resource
    }
}

/// A device on the bus: the controller, and the pin that selects the
/// device while it is low.
#[derive(Debug)]
pub struct Device<'a> {
    controller: &'a Controller,
    chip_select: &'a Gpio,
}

impl<'a> Device<'a> {
    /// The id of the controller.
    pub closed spec fn controller_id(&self) -> u8 {
        self.controller@.id
    }

    /// The id of the chip select pin.
    pub closed spec fn chip_select_id(&self) -> u8 {
        self.chip_select@.id
    }

    /// A device on the bus of `controller` that `chip_select` selects.
    pub fn new(controller: &'a Controller, chip_select: &'a Gpio) -> (out: Self)
        ensures
            out.controller_id() == controller@.id,
            out.chip_select_id() == chip_select@.id,
    {
        Device { controller, chip_select }
    }

    /// Lays out a transaction with the device: chip select low, the
    /// operations in order, chip select high. What an operation reads is
    /// bound for the buffer named by the operation's place in
    /// `operations`. A delay is rounded up to whole microseconds.
    pub fn transaction(&self, operations: &[Operation<'_>]) -> (out: Vec<Planned>)
        requires
            forall|i: int| 0 <= i < operations@.len() ==> sound((#[trigger] operations@[i])@),
        ensures
            plan_view(out@) == transaction_plan(
                self.controller_id(),
                self.chip_select_id(),
                operations@.map_values(|op: Operation| op@),
            ),
            forall|i: int| 0 <= i < out@.len() ==> chunk_sized((#[trigger] out@[i])@.command),
    {
        let ghost ops = operations@.map_values(|op: Operation| op@);
        let mut plan: Vec<Planned> = Vec::new();
        let low = Planned { command: self.chip_select.cmd_write(false).encode(), dest: None };
        proof {
            assert(low@.command.bytes =~= select_view(self.chip_select_id(), false).bytes);
        }
        plan.push(low);
        let ghost opening = seq![plain(select_view(self.chip_select_id(), false))];
        let mut i: usize = 0;
        proof {
            assert(ops.take(0) =~= Seq::<OperationView>::empty());
            assert(plan_view(plan@) =~= opening + operations_plan(
                self.controller_id(),
                ops.take(0),
            ));
        }
        while i < operations.len()
            invariant
                0 <= i <= operations@.len(),
                ops == operations@.map_values(|op: Operation| op@),
                opening == seq![plain(select_view(self.chip_select_id(), false))],
                plan_view(plan@) == opening + operations_plan(
                    self.controller_id(),
                    ops.take(i as int),
                ),
                forall|k: int| 0 <= k < plan@.len() ==> chunk_sized((#[trigger] plan@[k])@.command),
            decreases operations@.len() - i,
        {
            let ghost before = plan_view(plan@);
            let ghost done = operations_plan(self.controller_id(), ops.take(i as int));
            let op = operations[i];
            proof {
                assert(ops.take(i + 1).drop_last() =~= ops.take(i as int));
                assert(ops.take(i + 1).last() == op@);
            }
            match op {
                Operation::DelayNs(ns) => {
                    let us: u32 = ns / 1000 + if ns % 1000 == 0 {
                        0u32
                    } else {
                        1u32
                    };
                    let entry = Planned { command: cmd_delay(us).encode(), dest: None };
                    proof {
                        crate::varint::lemma_encoding_minimal(us);
                    }
                    plan.push(entry);
                    proof {
                        assert(plan_view(plan@) =~= before.push(entry@));
                    }
                },
                Operation::Read(len) => {
                    self.controller.plan_read(&mut plan, len, i);
                },
                Operation::Write(data) => {
                    self.controller.plan_transfer(&mut plan, data, None);
                },
                Operation::Transfer(_, data) => {
                    self.controller.plan_transfer(&mut plan, data, Some(i));
                },
                Operation::TransferInPlace(data) => {
                    self.controller.plan_transfer(&mut plan, data, Some(i));
                },
            }
            proof {
                let piece = operation_plan(self.controller_id(), op@, i);
                assert(plan_view(plan@) =~= before + piece);
                assert((opening + done) + piece =~= opening + (done + piece));
            }
            i = i + 1;
        }
        proof {
            assert(ops.take(i as int) =~= ops);
        }
        let high = Planned { command: self.chip_select.cmd_write(true).encode(), dest: None };
        proof {
            assert(high@.command.bytes =~= select_view(self.chip_select_id(), true).bytes);
        }
        let ghost views = plan_view(plan@);
        plan.push(high);
        proof {
            assert(plan_view(plan@) =~= views.push(high@));
        }
        plan
    }
}

/// Why an exchange on the bus failed.
#[derive(Clone, Copy, Debug, PartialEq, Eq)]
pub struct Error {
    pub source: RequestError,
}

impl From<RequestError> for Error {
    fn from(value: RequestError) -> (out: Error) {
        Error { source: value }
    }
}

impl vstd::std_specs::convert::FromSpecImpl<RequestError> for Error {
    open spec fn obeys_from_spec() -> bool {
        true
    }

    open spec fn from_spec(value: RequestError) -> Error {
        Error { source: value }
    }
}

} // verus!

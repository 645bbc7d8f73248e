//! One round trip: a request that carries many commands, and the response
//! that carries their answers back to back.

use crate::command::{
    Command, CommandView, Encoded, PayloadPattern, ResponsePattern, StaticResponsePattern,
};
use crate::error::{ProtocolError, RequestError};
use nusb::transfer::TransferError;
use vstd::prelude::*;
use vstd::slice::{slice_subrange, slice_to_vec};

verus! {

/// Bytes that open every request and every response: the sequence byte and
/// the status byte.
pub const HEADER_LEN: usize = 2;

/// Most bytes of a request, where the device names no other limit.
pub const DEFAULT_MAX_COMMAND_LEN: usize = 1023;

/// Most bytes of a response, where the device names no other limit.
pub const DEFAULT_MAX_RESPONSE_LEN: usize = 1023;

/// A batch as it models in contracts.
pub struct BatchView {
    /// The bytes of the commands pushed so far, behind one another.
    pub commands: Seq<u8>,
    /// The number of response bytes that these commands will produce.
    pub response_len: nat,
    /// Most bytes the request may have, header included.
    pub max_command_len: nat,
    /// Most bytes the commands' answers may have together.
    pub max_response_len: nat,
}

/// A batch without commands.
pub open spec fn empty_batch(max_command_len: nat, max_response_len: nat) -> BatchView {
    BatchView { commands: Seq::empty(), response_len: 0, max_command_len, max_response_len }
}

/// Whether a batch still has room for a command: for its bytes in the
/// request, and for its answer in the response.
pub open spec fn fits(b: BatchView, c: CommandView) -> bool {
    &&& HEADER_LEN + b.commands.len() + c.bytes.len() <= b.max_command_len
    &&& b.response_len + c.width <= b.max_response_len
}

/// Whether a batch keeps to its limits.
pub open spec fn within_limits(b: BatchView) -> bool {
    &&& b.commands.len() == 0 || HEADER_LEN + b.commands.len() <= b.max_command_len
    &&& b.response_len <= b.max_response_len
}

/// The batch after one more command.
pub open spec fn pushed(b: BatchView, c: CommandView) -> BatchView {
    BatchView {
        commands: b.commands + c.bytes,
        response_len: b.response_len + c.width,
        max_command_len: b.max_command_len,
        max_response_len: b.max_response_len,
    }
}

/// The batch after a run of commands, pushed in order.
pub open spec fn pushed_all(b: BatchView, cs: Seq<CommandView>) -> BatchView
    decreases cs.len(),
{
    if cs.len() == 0 {
        b
    } else {
        pushed(pushed_all(b, cs.drop_last()), cs.last())
    }
}

/// Where in the response the answer to command `i` of `cs` begins, when
/// `cs` is pushed onto `b`: the offset that its handle carries.
pub open spec fn offset_of(b: BatchView, cs: Seq<CommandView>, i: int) -> nat {
    pushed_all(b, cs.take(i)).response_len
}

/// The request that goes out for a batch: sequence byte, a zero where the
/// response has its status, then the commands.
pub open spec fn request_bytes(seq: u8, b: BatchView) -> Seq<u8> {
    seq![seq, 0u8] + b.commands
}

/// The verdict on a response to the request numbered `seq`.
pub open spec fn response_verdict(seq: u8, response: Seq<u8>) -> Option<ProtocolError> {
    if response.len() < HEADER_LEN {
        Some(ProtocolError::TooShort)
    } else if response[0] != seq {
        Some(ProtocolError::SeqMismatch)
    } else if response[1] != 0 {
        Some(ProtocolError::DeviceStatus(response[1]))
    } else {
        None
    }
}

/// The sequence number that follows `seq`.
pub open spec fn seq_after(seq: u8) -> u8 {
    ((seq + 1) % 256) as u8
}

/// What all requests on one interface share: the sequence counter. Hold it
/// under the lock that lets one request through at a time.
#[derive(Debug)]
pub struct CmdShared {
    seq: u8,
}

impl View for CmdShared {
    type V = u8;

    closed spec fn view(&self) -> u8 {
        self.seq
    }
}

impl CmdShared {
    /// A counter that starts at zero.
    pub fn new() -> (out: Self)
        ensures
            out@ == 0,
    {
        CmdShared { seq: 0 }
    }

    /// Hands out the current sequence number and steps on, from 255 to 0.
    pub fn next_seq(&mut self) -> (seq: u8)
        ensures
            seq == old(self)@,
            final(self)@ == seq_after(seq),
    {
        let seq = self.seq;
        self.seq = seq.wrapping_add(1);
        seq
    }
}

/// The ticket for one command's answer: how to read it and where it begins.
#[derive(Debug)]
pub struct ResponseHandle<R> {
    res: R,
    offset: usize,
}

impl<R: ResponsePattern> ResponseHandle<R> {
    /// How the answer is read.
    pub closed spec fn pattern(&self) -> R {
        self.res
    }

    /// Where the answer begins, counted from the end of the header.
    pub closed spec fn offset(&self) -> nat {
        self.offset as nat
    }

    /// Number of bytes of the answer.
    pub fn len(&self) -> (n: usize)
        ensures
            n == self.pattern().width(),
    {
        self.res.len()
    }

    /// Where the answer begins, counted from the end of the header.
    pub fn start(&self) -> (n: usize)
        ensures
            n == self.offset(),
    {
        self.offset
    }
}

/// A request under construction.
#[derive(Debug)]
pub struct CommandBatch {
    max_command_len: usize,
    max_response_len: usize,
    response_len: usize,
    body: Vec<u8>,
}

impl View for CommandBatch {
    type V = BatchView;

    closed spec fn view(&self) -> BatchView {
        BatchView {
            commands: self.body@,
            response_len: self.response_len as nat,
            max_command_len: self.max_command_len as nat,
            max_response_len: self.max_response_len as nat,
        }
    }
}

/// A request on its way: what to send, and how to judge what comes back.
#[derive(Debug)]
pub struct Transfer {
    /// The sequence number of the request.
    pub seq: u8,
    /// The bytes to send.
    pub request: Vec<u8>,
    /// Whether an empty packet has to follow, to end the transfer.
    pub zero_length_packet: bool,
}

/// A response that passed the checks.
#[derive(Debug)]
pub struct ResponseBatch {
    res: Vec<u8>,
}

impl View for ResponseBatch {
    type V = Seq<u8>;

    closed spec fn view(&self) -> Seq<u8> {
        self.res@
    }
}

impl CommandBatch {
    /// A batch without commands, for the given limits.
    pub fn new(max_command_len: usize, max_response_len: usize) -> (out: Self)
        ensures
            out@ == empty_batch(max_command_len as nat, max_response_len as nat),
    {
        CommandBatch { max_command_len, max_response_len, response_len: 0, body: Vec::new() }
    }

    /// Whether the batch has no commands.
    pub fn is_empty(&self) -> (out: bool)
        ensures
            out == (self@.commands.len() == 0),
    {
        self.body.len() == 0
    }

    /// Number of response bytes that the commands will produce.
    pub fn response_len(&self) -> (n: usize)
        ensures
            n == self@.response_len,
    {
        self.response_len
    }

    /// Most bytes the request may have, header included.
    pub fn max_command_len(&self) -> (n: usize)
        ensures
            n == self@.max_command_len,
    {
        self.max_command_len
    }

    /// Most bytes the commands' answers may have together.
    pub fn max_response_len(&self) -> (n: usize)
        ensures
            n == self@.max_response_len,
    {
        self.max_response_len
    }

    /// Whether the batch has room for `cmd`.
    pub fn can_fit<P: PayloadPattern, R: ResponsePattern>(&self, cmd: &Command<P, R>) -> (out:
        bool)
        requires
            cmd.payload().encodable(),
        ensures
            out == fits(self@, cmd@),
    {
        let room: usize = if self.max_command_len < HEADER_LEN {
            0
        } else {
            self.max_command_len - HEADER_LEN
        };
        let payload: usize = cmd.payload_len();
        let width: usize = cmd.response_len();
        self.body.len() <= room && payload < room - self.body.len() && self.response_len
            <= self.max_response_len && width <= self.max_response_len - self.response_len
    }

    /// Adds `cmd` to the request and hands out the ticket for its answer.
    pub fn push<P: PayloadPattern, R: ResponsePattern>(&mut self, cmd: Command<P, R>) -> (out:
        ResponseHandle<R>)
        requires
            cmd.payload().encodable(),
            fits(old(self)@, cmd@),
        ensures
            final(self)@ == pushed(old(self)@, cmd@),
            out.pattern() == cmd.response(),
            out.offset() == old(self)@.response_len,
    {
        let offset: usize = self.response_len;
        let mut bytes = cmd.bytes();
        self.body.append(&mut bytes);
        let res = cmd.into_response();
        let len: usize = res.len();
        self.response_len = self.response_len + len;
        ResponseHandle { res, offset }
    }

    /// Whether the batch has room for a command that is laid out already.
    pub fn can_fit_encoded(&self, cmd: &Encoded) -> (out: bool)
        ensures
            out == fits(self@, cmd@),
    {
        if self.max_command_len < HEADER_LEN {
            return false;
        }
        let room: usize = self.max_command_len - HEADER_LEN;
        let len: usize = cmd.len();
        self.body.len() <= room && len <= room - self.body.len() && self.response_len
            <= self.max_response_len && cmd.width() <= self.max_response_len - self.response_len
    }

    /// Adds a command that is laid out already; what comes back is the
    /// place of its answer in the response, counted from the end of the
    /// header.
    pub fn push_encoded(&mut self, cmd: &Encoded) -> (offset: usize)
        requires
            fits(old(self)@, cmd@),
        ensures
            final(self)@ == pushed(old(self)@, cmd@),
            offset == old(self)@.response_len,
    {
        let offset: usize = self.response_len;
        let mut bytes = slice_to_vec(cmd.bytes());
        self.body.append(&mut bytes);
        self.response_len = self.response_len + cmd.width();
        offset
    }

    /// Closes the request: takes the next sequence number and lays out the
    /// bytes to send. An empty packet has to follow where the request fills
    /// its last packet to the brim.
    pub fn run(self, shared: &mut CmdShared, max_packet_size: usize) -> (out: Transfer)
        requires
            max_packet_size > 0,
        ensures
            out.seq == old(shared)@,
            final(shared)@ == seq_after(old(shared)@),
            out.request@ == request_bytes(out.seq, self@),
            out.zero_length_packet == (out.request@.len() % (max_packet_size as nat) == 0),
    {
        let seq: u8 = shared.next_seq();
        let mut request: Vec<u8> = Vec::new();
        request.push(seq);
        request.push(0);
        let mut body = self.body;
        request.append(&mut body);
        let zero_length_packet = request.len() % max_packet_size == 0;
        Transfer { seq, request, zero_length_packet }
    }
}

impl Transfer {
    /// Judges what came back: a transport failure is handed on; a response
    /// has to hold the header, repeat the sequence number and report
    /// status zero.
    pub fn complete(&self, outcome: Result<Vec<u8>, TransferError>) -> (out: Result<
        ResponseBatch,
        RequestError,
    >)
        ensures
            match outcome {
                Err(e) => out == Err::<ResponseBatch, RequestError>(RequestError::Usb(e)),
                Ok(response) => match response_verdict(self.seq, response@) {
                    Some(e) => out == Err::<ResponseBatch, RequestError>(
                        RequestError::Protocol(e),
                    ),
                    None => out is Ok && out->Ok_0@ == response@,
                },
            },
    {
        match outcome {
            Err(e) => Err(RequestError::Usb(e)),
            Ok(res) => {
                if res.len() < HEADER_LEN {
                    Err(RequestError::Protocol(ProtocolError::TooShort))
                } else if res[0] != self.seq {
                    Err(RequestError::Protocol(ProtocolError::SeqMismatch))
                } else if res[1] != 0 {
                    Err(RequestError::Protocol(ProtocolError::DeviceStatus(res[1])))
                } else {
                    Ok(ResponseBatch { res })
                }
            },
        }
    }
}

impl ResponseBatch {
    /// Number of bytes of the response, header included.
    pub fn len(&self) -> (n: usize)
        ensures
            n == self@.len(),
    {
        self.res.len()
    }

    /// Whether the response holds the `len` bytes that begin `offset` bytes
    /// behind its header.
    pub fn covers_range(&self, offset: usize, len: usize) -> (out: bool)
        ensures
            out == (HEADER_LEN + offset + len <= self@.len()),
    {
        let total: usize = self.res.len();
        total >= HEADER_LEN && offset <= total - HEADER_LEN && len <= total - HEADER_LEN - offset
    }

    /// Reads the answer that `h` stands for, or fails where the response
    /// ends before the answer does.
    pub fn get<'a, R: ResponsePattern>(&'a self, h: ResponseHandle<R>) -> (out: Result<
        R::Output<'a>,
        (),
    >)
        ensures
            match out {
                Ok(v) => {
                    &&& HEADER_LEN + h.offset() + h.pattern().width() <= self@.len()
                    &&& h.pattern().decodes(
                        self@.subrange(
                            HEADER_LEN + h.offset(),
                            HEADER_LEN + h.offset() + h.pattern().width(),
                        ),
                        v,
                    )
                },
                Err(_) => HEADER_LEN + h.offset() + h.pattern().width() > self@.len(),
            },
    {
        self.get_ref(&h)
    }

    /// Reads the answer that `h` stands for and leaves the ticket with the
    /// caller.
    pub fn get_ref<'a, R: ResponsePattern>(&'a self, h: &ResponseHandle<R>) -> (out: Result<
        R::Output<'a>,
        (),
    >)
        ensures
            match out {
                Ok(v) => {
                    &&& HEADER_LEN + h.offset() + h.pattern().width() <= self@.len()
                    &&& h.pattern().decodes(
                        self@.subrange(
                            HEADER_LEN + h.offset(),
                            HEADER_LEN + h.offset() + h.pattern().width(),
                        ),
                        v,
                    )
                },
                Err(_) => HEADER_LEN + h.offset() + h.pattern().width() > self@.len(),
            },
    {
        let total: usize = self.res.len();
        let width: usize = h.res.len();
        if total < HEADER_LEN || h.offset > total - HEADER_LEN || width > total - HEADER_LEN
            - h.offset {
            return Err(());
        }
        let region = slice_subrange(
            self.res.as_slice(),
            HEADER_LEN + h.offset,
            HEADER_LEN + h.offset + width,
        );
        Ok(h.res.output(region))
    }

    /// The `len` bytes that begin `offset` bytes behind the header, where
    /// the response holds them.
    pub fn region(&self, offset: usize, len: usize) -> (out: Option<&[u8]>)
        ensures
            match out {
                Some(bytes) => HEADER_LEN + offset + len <= self@.len() && bytes@
                    == self@.subrange(HEADER_LEN + offset, HEADER_LEN + offset + len),
                None => HEADER_LEN + offset + len > self@.len(),
            },
    {
        let total: usize = self.res.len();
        if total >= HEADER_LEN && offset <= total - HEADER_LEN && len <= total - HEADER_LEN
            - offset {
            Some(
                slice_subrange(
                    self.res.as_slice(),
                    HEADER_LEN + offset,
                    HEADER_LEN + offset + len,
                ),
            )
        } else {
            None
        }
    }

    /// Reads an answer that stands on its own, and lets go of the response.
    pub fn get_static<R: StaticResponsePattern>(self, h: ResponseHandle<R>) -> (out: Result<
        R::StaticOutput,
        RequestError,
    >)
        ensures
            match out {
                Ok(v) => {
                    &&& HEADER_LEN + h.offset() + h.pattern().width() <= self@.len()
                    &&& v == h.pattern().reading(
                        self@.subrange(
                            HEADER_LEN + h.offset(),
                            HEADER_LEN + h.offset() + h.pattern().width(),
                        ),
                    )
                },
                Err(e) => {
                    &&& HEADER_LEN + h.offset() + h.pattern().width() > self@.len()
                    &&& e == RequestError::Protocol(ProtocolError::TooShort)
                },
            },
    {
        let total: usize = self.res.len();
        let width: usize = h.res.len();
        if total < HEADER_LEN || h.offset > total - HEADER_LEN || width > total - HEADER_LEN
            - h.offset {
            return Err(RequestError::Protocol(ProtocolError::TooShort));
        }
        let region = slice_subrange(
            self.res.as_slice(),
            HEADER_LEN + h.offset,
            HEADER_LEN + h.offset + width,
        );
        Ok(h.res.static_output(region))
    }
}

/// The answers of a batch lie in the response in the order of the commands,
/// each where the one before ends: the first at the batch's earlier length,
/// the last ending at its new length.
pub proof fn lemma_offsets_contiguous(b: BatchView, cs: Seq<CommandView>)
    ensures
        offset_of(b, cs, 0) == b.response_len,
        forall|i: int|
            0 <= i < cs.len() ==> #[trigger] offset_of(b, cs, i + 1) == offset_of(b, cs, i)
                + cs[i].width,
        offset_of(b, cs, cs.len() as int) == pushed_all(b, cs).response_len,
{
    assert(cs.take(0) =~= Seq::<CommandView>::empty());
    assert(cs.take(cs.len() as int) =~= cs);
    assert forall|i: int| 0 <= i < cs.len() implies #[trigger] offset_of(b, cs, i + 1)
        == offset_of(b, cs, i) + cs[i].width by {
        assert(cs.take(i + 1).drop_last() =~= cs.take(i));
        assert(cs.take(i + 1).last() == cs[i]);
    }
}

/// Each answer of a batch lies inside the part of the response that the
/// batch accounts for, and no two answers overlap.
pub proof fn lemma_offsets_partition(b: BatchView, cs: Seq<CommandView>, i: int, j: int)
    requires
        0 <= i < j < cs.len(),
    ensures
        b.response_len <= offset_of(b, cs, i),
        offset_of(b, cs, i) + cs[i].width <= offset_of(b, cs, j),
        offset_of(b, cs, j) + cs[j].width <= pushed_all(b, cs).response_len,
    decreases cs.len() - i,
{
    lemma_offsets_contiguous(b, cs);
    lemma_offsets_grow(b, cs, 0, i);
    lemma_offsets_grow(b, cs, i + 1, j);
    lemma_offsets_grow(b, cs, j + 1, cs.len() as int);
}

proof fn lemma_offsets_grow(b: BatchView, cs: Seq<CommandView>, i: int, j: int)
    requires
        0 <= i <= j <= cs.len(),
    ensures
        offset_of(b, cs, i) <= offset_of(b, cs, j),
    decreases j - i,
{
    if i < j {
        lemma_offsets_grow(b, cs, i, j - 1);
        lemma_offsets_contiguous(b, cs);
        assert(offset_of(b, cs, (j - 1) + 1) == offset_of(b, cs, j - 1) + cs[j - 1].width);
    }
}

/// Pushing commands that fit keeps a batch within its limits, and the
/// request grows by exactly their bytes, in order.
pub proof fn lemma_push_within_limits(b: BatchView, c: CommandView)
    requires
        within_limits(b),
        fits(b, c),
    ensures
        within_limits(pushed(b, c)),
{
}

/// Two requests in a row carry sequence numbers one apart, 255 being
/// followed by 0.
pub proof fn lemma_sequence_steps(first: u8, second: u8)
    requires
        second == seq_after(first),
    ensures
        second as int == (first as int + 1) % 256,
        first == 255 ==> second == 0,
        first < 255 ==> second == first + 1,
{
}

} // verus!

//! The queue: a stream of commands cut into batches as they fill up, with
//! the answers that the caller wants back scattered to where they belong.
//!
//! The queue never sends anything itself. Where a batch is full it hands it
//! out as a [`Flush`]; the caller runs the batch and reports the outcome
//! with [`CommandQueue::complete`] before it goes on.

use crate::batch::{
    empty_batch, fits, pushed, within_limits, BatchView, CommandBatch, ResponseBatch, HEADER_LEN,
};
use crate::command::{
    Command, CommandView, Encoded, PayloadPattern, ResponsePattern, SliceResponse,
};
use crate::error::{ProtocolError, RequestError};
use vstd::prelude::*;
use vstd::slice::slice_to_vec;

verus! {

/// Where an answer is to go: into which of the caller's buffers, and how far
/// from its start.
#[derive(Clone, Copy, Debug, PartialEq, Eq, Structural)]
pub struct Destination {
    pub buffer: usize,
    pub offset: usize,
}

/// An answer that is owed to the caller, as it models in contracts: where it
/// lies in the response and where it is to go.
pub struct ReadView {
    pub offset: nat,
    pub len: nat,
    pub dest: Destination,
}

/// A batch that is ready to run, as it models in contracts.
pub struct FlushView {
    pub batch: BatchView,
    pub reads: Seq<ReadView>,
}

/// A queue as it models in contracts.
pub struct QueueView {
    /// The batch that is filling up.
    pub batch: BatchView,
    /// The answers of that batch that are owed to the caller, in push order.
    pub reads: Seq<ReadView>,
    /// The first failure, once there is one.
    pub error: Option<RequestError>,
}

/// One push, as it models in contracts: the command, and for one whose
/// answer is owed to the caller, the destination.
pub struct PushView {
    pub command: CommandView,
    pub dest: Option<Destination>,
}

/// An answer cut out of a response, as it models in contracts.
pub struct ScatteredView {
    pub dest: Destination,
    pub data: Seq<u8>,
}

/// The reads of a batch after one more push.
pub open spec fn reads_after(reads: Seq<ReadView>, b: BatchView, p: PushView) -> Seq<ReadView> {
    match p.dest {
        Some(dest) => reads.push(
            ReadView { offset: b.response_len, len: p.command.width, dest },
        ),
        None => reads,
    }
}

/// The queue after a push, and the batch it hands out to be run first, if
/// any. A queue that has failed ignores the push; one whose batch is full
/// hands the batch out and starts a new one with the command.
pub open spec fn queue_push(q: QueueView, p: PushView) -> (QueueView, Option<FlushView>) {
    if q.error is Some {
        (q, None)
    } else if fits(q.batch, p.command) {
        (
            QueueView {
                batch: pushed(q.batch, p.command),
                reads: reads_after(q.reads, q.batch, p),
                error: None,
            },
            None,
        )
    } else {
        let fresh = empty_batch(q.batch.max_command_len, q.batch.max_response_len);
        (
            QueueView {
                batch: pushed(fresh, p.command),
                reads: reads_after(Seq::empty(), fresh, p),
                error: None,
            },
            Some(FlushView { batch: q.batch, reads: q.reads }),
        )
    }
}

/// The queue after a run of pushes, and the batches it hands out on the
/// way, in order.
pub open spec fn queue_push_all(q: QueueView, ps: Seq<PushView>) -> (QueueView, Seq<FlushView>)
    decreases ps.len(),
{
    if ps.len() == 0 {
        (q, Seq::empty())
    } else {
        let (before, flushes) = queue_push_all(q, ps.drop_last());
        let (after, flush) = queue_push(before, ps.last());
        (
            after,
            match flush {
                Some(f) => flushes.push(f),
                None => flushes,
            },
        )
    }
}

/// Whether a response holds every answer in `reads`.
pub open spec fn covers(response: Seq<u8>, reads: Seq<ReadView>) -> bool {
    forall|i: int|
        0 <= i < reads.len() ==> HEADER_LEN + (#[trigger] reads[i]).offset + reads[i].len
            <= response.len()
}

/// The answers in `reads` as they lie in `response`, in order.
pub open spec fn scattered(response: Seq<u8>, reads: Seq<ReadView>) -> Seq<ScatteredView> {
    Seq::new(
        reads.len(),
        |i: int|
            ScatteredView {
                dest: reads[i].dest,
                data: response.subrange(
                    HEADER_LEN + reads[i].offset,
                    HEADER_LEN + reads[i].offset + reads[i].len,
                ),
            },
    )
}

/// The failure that a queue remembers: the first one.
pub open spec fn first_error(before: Option<RequestError>, now: RequestError) -> Option<
    RequestError,
> {
    match before {
        Some(e) => Some(e),
        None => Some(now),
    }
}

/// The bytes of all commands of a run of pushes, behind one another.
pub open spec fn pushed_bytes(ps: Seq<PushView>) -> Seq<u8>
    decreases ps.len(),
{
    if ps.len() == 0 {
        Seq::empty()
    } else {
        pushed_bytes(ps.drop_last()) + ps.last().command.bytes
    }
}

/// The destinations of the pushes that ask for their answer, in order.
pub open spec fn pushed_dests(ps: Seq<PushView>) -> Seq<Destination>
    decreases ps.len(),
{
    if ps.len() == 0 {
        Seq::empty()
    } else {
        match ps.last().dest {
            Some(d) => pushed_dests(ps.drop_last()).push(d),
            None => pushed_dests(ps.drop_last()),
        }
    }
}

/// The bytes of the commands of a run of batches, behind one another.
pub open spec fn flushed_bytes(fs: Seq<FlushView>) -> Seq<u8>
    decreases fs.len(),
{
    if fs.len() == 0 {
        Seq::empty()
    } else {
        flushed_bytes(fs.drop_last()) + fs.last().batch.commands
    }
}

/// The destinations of the reads of a run of batches, in order.
pub open spec fn flushed_dests(fs: Seq<FlushView>) -> Seq<Destination>
    decreases fs.len(),
{
    if fs.len() == 0 {
        Seq::empty()
    } else {
        flushed_dests(fs.drop_last()) + read_dests(fs.last().reads)
    }
}

/// The destinations of a batch's reads, in order.
pub open spec fn read_dests(reads: Seq<ReadView>) -> Seq<Destination> {
    Seq::new(reads.len(), |i: int| reads[i].dest)
}

/// Whether every read of a batch lies within the answers that the batch
/// accounts for.
pub open spec fn reads_within(b: BatchView, reads: Seq<ReadView>) -> bool {
    forall|i: int|
        0 <= i < reads.len() ==> (#[trigger] reads[i]).offset + reads[i].len <= b.response_len
}

/// An answer that is owed to the caller.
#[derive(Clone, Copy, Debug)]
pub struct PendingRead {
    offset: usize,
    len: usize,
    dest: Destination,
}

impl View for PendingRead {
    type V = ReadView;

    closed spec fn view(&self) -> ReadView {
        ReadView { offset: self.offset as nat, len: self.len as nat, dest: self.dest }
    }
}

/// One entry of a plan: a command laid out for the wire, and where its
/// answer is to go if the caller wants it.
#[derive(Debug, PartialEq, Eq)]
pub struct Planned {
    pub command: Encoded,
    pub dest: Option<Destination>,
}

impl View for Planned {
    type V = PushView;

    open spec fn view(&self) -> PushView {
        PushView { command: self.command@, dest: self.dest }
    }
}

/// A batch that is ready to run, with the reads that its response settles.
#[derive(Debug)]
pub struct Flush {
    pub batch: CommandBatch,
    pub reads: Vec<PendingRead>,
}

impl View for Flush {
    type V = FlushView;

    open spec fn view(&self) -> FlushView {
        FlushView { batch: self.batch@, reads: self.reads@.map_values(|r: PendingRead| r@) }
    }
}

/// A plan as it models in contracts.
pub open spec fn plan_view(plan: Seq<Planned>) -> Seq<PushView> {
    plan.map_values(|p: Planned| p@)
}

/// Most bytes that one command of a bus moves: what a length of one byte
/// can say.
pub const CHUNK: usize = 255;

/// A push whose answer nobody waits for.
pub open spec fn plain(command: CommandView) -> PushView {
    PushView { command, dest: None }
}

/// The size of the chunk that begins at `done` of `len` bytes.
pub open spec fn chunk_len(len: nat, done: nat) -> nat {
    if len - done < CHUNK {
        (len - done) as nat
    } else {
        CHUNK as nat
    }
}

/// Whether a command is no larger than the largest that a bus transaction
/// uses: 257 bytes in the request, 255 in the response.
pub open spec fn chunk_sized(c: CommandView) -> bool {
    c.bytes.len() <= CHUNK + 2 && c.width <= CHUNK
}

/// An answer cut out of a response, on its way to its destination.
#[derive(Debug, PartialEq, Eq)]
pub struct Scattered {
    pub dest: Destination,
    pub data: Vec<u8>,
}

impl View for Scattered {
    type V = ScatteredView;

    open spec fn view(&self) -> ScatteredView {
        ScatteredView { dest: self.dest, data: self.data@ }
    }
}

/// A stream of commands that is cut into batches.
#[derive(Debug)]
pub struct CommandQueue {
    batch: CommandBatch,
    reads: Vec<PendingRead>,
    error: Result<(), RequestError>,
}

impl View for CommandQueue {
    type V = QueueView;

    closed spec fn view(&self) -> QueueView {
        QueueView {
            batch: self.batch@,
            reads: self.reads@.map_values(|r: PendingRead| r@),
            error: match self.error {
                Ok(_) => None,
                Err(e) => Some(e),
            },
        }
    }
}

impl CommandQueue {
    /// A queue without commands, for the given limits.
    pub fn new(max_command_len: usize, max_response_len: usize) -> (out: Self)
        ensures
            out@ == (QueueView {
                batch: empty_batch(max_command_len as nat, max_response_len as nat),
                reads: Seq::empty(),
                error: None,
            }),
    {
        let out = CommandQueue {
            batch: CommandBatch::new(max_command_len, max_response_len),
            reads: Vec::new(),
            error: Ok(()),
        };
        assert(out.reads@.map_values(|r: PendingRead| r@) =~= Seq::<ReadView>::empty());
        out
    }

    /// Whether a failure has been recorded, so that pushes are ignored.
    pub fn has_failed(&self) -> (out: bool)
        ensures
            out == self@.error is Some,
    {
        self.error.is_err()
    }

    /// Whether `cmd` may be pushed: whether it fits into a batch of its
    /// own.
    pub fn accepts<P: PayloadPattern, R: ResponsePattern>(&self, cmd: &Command<P, R>) -> (out:
        bool)
        requires
            cmd.payload().encodable(),
        ensures
            out == fits(
                empty_batch(self@.batch.max_command_len, self@.batch.max_response_len),
                cmd@,
            ),
    {
        let probe = CommandBatch::new(self.batch.max_command_len(), self.batch.max_response_len());
        probe.can_fit(cmd)
    }

    /// Whether every entry of `plan` may be pushed: whether each fits into
    /// a batch of its own.
    pub fn accepts_all(&self, plan: &Vec<Planned>) -> (out: bool)
        ensures
            out == forall|i: int|
                0 <= i < plan@.len() ==> fits(
                    empty_batch(self@.batch.max_command_len, self@.batch.max_response_len),
                    (#[trigger] plan@[i])@.command,
                ),
    {
        let probe = CommandBatch::new(self.batch.max_command_len(), self.batch.max_response_len());
        let mut i: usize = 0;
        while i < plan.len()
            invariant
                0 <= i <= plan@.len(),
                probe@ == empty_batch(self@.batch.max_command_len, self@.batch.max_response_len),
                forall|k: int| 0 <= k < i ==> fits(probe@, (#[trigger] plan@[k])@.command),
            decreases plan@.len() - i,
        {
            if !probe.can_fit_encoded(&plan[i].command) {
                return false;
            }
            i = i + 1;
        }
        true
    }

    /// Takes the batch that is filling up, with its reads, and starts a new
    /// one.
    pub fn flush(&mut self) -> (out: Flush)
        ensures
            out@ == (FlushView { batch: old(self)@.batch, reads: old(self)@.reads }),
            final(self)@ == (QueueView {
                batch: empty_batch(
                    old(self)@.batch.max_command_len,
                    old(self)@.batch.max_response_len,
                ),
                reads: Seq::empty(),
                error: old(self)@.error,
            }),
    {
        let mut batch = CommandBatch::new(
            self.batch.max_command_len(),
            self.batch.max_response_len(),
        );
        let mut reads: Vec<PendingRead> = Vec::new();
        core::mem::swap(&mut self.batch, &mut batch);
        core::mem::swap(&mut self.reads, &mut reads);
        assert(self.reads@.map_values(|r: PendingRead| r@) =~= Seq::<ReadView>::empty());
        Flush { batch, reads }
    }

    /// Makes room for `cmd`: where the batch cannot take it, the batch is
    /// handed out and a new one started.
    fn make_room<P: PayloadPattern, R: ResponsePattern>(&mut self, cmd: &Command<P, R>) -> (out:
        Option<Flush>)
        requires
            cmd.payload().encodable(),
            fits(
                empty_batch(old(self)@.batch.max_command_len, old(self)@.batch.max_response_len),
                cmd@,
            ),
        ensures
            fits(final(self)@.batch, cmd@),
            final(self)@.error == old(self)@.error,
            match out {
                None => fits(old(self)@.batch, cmd@) && final(self)@ == old(self)@,
                Some(f) => {
                    &&& !fits(old(self)@.batch, cmd@)
                    &&& f@ == (FlushView { batch: old(self)@.batch, reads: old(self)@.reads })
                    &&& final(self)@.batch == empty_batch(
                        old(self)@.batch.max_command_len,
                        old(self)@.batch.max_response_len,
                    )
                    &&& final(self)@.reads == Seq::<ReadView>::empty()
                },
            },
    {
        if self.batch.can_fit(cmd) {
            None
        } else {
            Some(self.flush())
        }
    }

    /// Appends a command. A queue that has failed ignores it. Where the
    /// batch is full it comes back, to be run before anything else is done
    /// with the queue.
    pub fn push<P: PayloadPattern, R: ResponsePattern>(&mut self, cmd: Command<P, R>) -> (out:
        Option<Flush>)
        requires
            old(self)@.error is None ==> cmd.payload().encodable() && fits(
                empty_batch(old(self)@.batch.max_command_len, old(self)@.batch.max_response_len),
                cmd@,
            ),
        ensures
            final(self)@ == queue_push(old(self)@, PushView { command: cmd@, dest: None }).0,
            match out {
                Some(f) => Some(f@) == queue_push(
                    old(self)@,
                    PushView { command: cmd@, dest: None },
                ).1,
                None => queue_push(old(self)@, PushView { command: cmd@, dest: None }).1 is None,
            },
    {
        if self.error.is_err() {
            return None;
        }
        let out = self.make_room(&cmd);
        let _ = self.batch.push(cmd);
        out
    }

    /// Appends a command whose answer is owed to the caller: once the
    /// batch has run, the answer comes out of [`CommandQueue::complete`]
    /// under the name `dest`.
    pub fn push_read<P: PayloadPattern>(
        &mut self,
        cmd: Command<P, SliceResponse>,
        dest: Destination,
    ) -> (out: Option<Flush>)
        requires
            old(self)@.error is None ==> cmd.payload().encodable() && fits(
                empty_batch(old(self)@.batch.max_command_len, old(self)@.batch.max_response_len),
                cmd@,
            ),
        ensures
            final(self)@ == queue_push(old(self)@, PushView { command: cmd@, dest: Some(dest) }).0,
            match out {
                Some(f) => Some(f@) == queue_push(
                    old(self)@,
                    PushView { command: cmd@, dest: Some(dest) },
                ).1,
                None => queue_push(old(self)@, PushView { command: cmd@, dest: Some(dest) }).1
                    is None,
            },
    {
        if self.error.is_err() {
            return None;
        }
        let out = self.make_room(&cmd);
        let ghost before = self.reads@.map_values(|r: PendingRead| r@);
        let handle = self.batch.push(cmd);
        let read = PendingRead { offset: handle.start(), len: handle.len(), dest };
        self.reads.push(read);
        assert(self.reads@.map_values(|r: PendingRead| r@) =~= before.push(read@));
        out
    }

    /// Appends the command that `cmd` makes of `buf`, whose answer is
    /// owed to the caller and is meant to take the place of `buf`.
    pub fn push_read_in_place<'b, F>(&mut self, buf: &'b [u8], dest: Destination, cmd: F) -> (out:
        Option<Flush>)
        where F: FnOnce(&'b [u8]) -> Command<&'b [u8], SliceResponse> 
        requires
            old(self)@.error is None ==> call_requires(cmd, (buf,)),
            old(self)@.error is None ==> forall|c: Command<&'b [u8], SliceResponse>|
                call_ensures(cmd, (buf,), c) ==> c.payload().encodable() && fits(
                    empty_batch(
                        old(self)@.batch.max_command_len,
                        old(self)@.batch.max_response_len,
                    ),
                    c@,
                ),
        ensures
            old(self)@.error is Some ==> out is None && final(self)@ == old(self)@,
            old(self)@.error is None ==> exists|c: Command<&'b [u8], SliceResponse>|
                {
                    &&& #[trigger] call_ensures(cmd, (buf,), c)
                    &&& final(self)@ == queue_push(
                        old(self)@,
                        PushView { command: c@, dest: Some(dest) },
                    ).0
                    &&& match out {
                        Some(f) => Some(f@) == queue_push(
                            old(self)@,
                            PushView { command: c@, dest: Some(dest) },
                        ).1,
                        None => queue_push(
                            old(self)@,
                            PushView { command: c@, dest: Some(dest) },
                        ).1 is None,
                    }
                },
    {
        if self.error.is_err() {
            return None;
        }
        let command = cmd(buf);
        self.push_read(command, dest)
    }

    /// Appends a command that is laid out already, as [`CommandQueue::push`]
    /// or, where it names a destination, as [`CommandQueue::push_read`]
    /// would.
    pub fn push_planned(&mut self, entry: &Planned) -> (out: Option<Flush>)
        requires
            old(self)@.error is None ==> fits(
                empty_batch(old(self)@.batch.max_command_len, old(self)@.batch.max_response_len),
                entry@.command,
            ),
        ensures
            final(self)@ == queue_push(old(self)@, entry@).0,
            match out {
                Some(f) => Some(f@) == queue_push(old(self)@, entry@).1,
                None => queue_push(old(self)@, entry@).1 is None,
            },
    {
        if self.error.is_err() {
            return None;
        }
        let out = if self.batch.can_fit_encoded(&entry.command) {
            None
        } else {
            Some(self.flush())
        };
        let ghost before = self.reads@.map_values(|r: PendingRead| r@);
        let offset = self.batch.push_encoded(&entry.command);
        match entry.dest {
            Some(dest) => {
                let read = PendingRead { offset, len: entry.command.width(), dest };
                self.reads.push(read);
                assert(self.reads@.map_values(|r: PendingRead| r@) =~= before.push(read@));
            },
            None => {},
        }
        out
    }

    /// Appends the entries of `plan` from `from` on, one after the other,
    /// until a batch has to be run or the plan is through. What comes back
    /// is the place to go on from, and the batch to run before going on.
    pub fn push_all(&mut self, plan: &Vec<Planned>, from: usize) -> (out: (usize, Option<Flush>))
        requires
            from <= plan@.len(),
            old(self)@.error is None ==> forall|i: int|
                0 <= i < plan@.len() ==> fits(
                    empty_batch(
                        old(self)@.batch.max_command_len,
                        old(self)@.batch.max_response_len,
                    ),
                    (#[trigger] plan@[i])@.command,
                ),
        ensures
            from <= out.0 <= plan@.len(),
            final(self)@ == queue_push_all(
                old(self)@,
                plan_view(plan@).subrange(from as int, out.0 as int),
            ).0,
            match out.1 {
                Some(f) => queue_push_all(
                    old(self)@,
                    plan_view(plan@).subrange(from as int, out.0 as int),
                ).1 == seq![f@],
                None => out.0 == plan@.len() && queue_push_all(
                    old(self)@,
                    plan_view(plan@).subrange(from as int, out.0 as int),
                ).1.len() == 0,
            },
    {
        let ghost views = plan_view(plan@);
        let mut i: usize = from;
        proof {
            assert(views.subrange(from as int, from as int) =~= Seq::<PushView>::empty());
        }
        while i < plan.len()
            invariant
                from <= i <= plan@.len(),
                views == plan_view(plan@),
                self@.batch.max_command_len == old(self)@.batch.max_command_len,
                self@.batch.max_response_len == old(self)@.batch.max_response_len,
                self@.error == old(self)@.error,
                old(self)@.error is None ==> forall|k: int|
                    0 <= k < plan@.len() ==> fits(
                        empty_batch(
                            old(self)@.batch.max_command_len,
                            old(self)@.batch.max_response_len,
                        ),
                        (#[trigger] plan@[k])@.command,
                    ),
                queue_push_all(old(self)@, views.subrange(from as int, i as int)) == (
                    self@,
                    Seq::<FlushView>::empty(),
                ),
            decreases plan@.len() - i,
        {
            proof {
                let next = views.subrange(from as int, i + 1);
                assert(next.drop_last() =~= views.subrange(from as int, i as int));
                assert(next.last() == plan@[i as int]@);
            }
            let flush = self.push_planned(&plan[i]);
            i = i + 1;
            match flush {
                Some(f) => {
                    assert(Seq::<FlushView>::empty().push(f@) =~= seq![f@]);
                    return (i, Some(f));
                },
                None => {},
            }
        }
        (i, None)
    }

    /// Settles a batch that was handed out. Where it ran and the response
    /// holds all its reads, they come back cut out of it, in push order.
    /// Otherwise nothing comes back, and the failure is recorded unless an
    /// earlier one already is.
    pub fn complete(&mut self, reads: Vec<PendingRead>, outcome: Result<
        ResponseBatch,
        RequestError,
    >) -> (out: Vec<Scattered>)
        ensures
            final(self)@.batch == old(self)@.batch,
            final(self)@.reads == old(self)@.reads,
            match outcome {
                Ok(response) => if covers(response@, reads@.map_values(|r: PendingRead| r@)) {
                    &&& final(self)@.error == old(self)@.error
                    &&& out@.map_values(|s: Scattered| s@) == scattered(
                        response@,
                        reads@.map_values(|r: PendingRead| r@),
                    )
                } else {
                    &&& final(self)@.error == first_error(
                        old(self)@.error,
                        RequestError::Protocol(ProtocolError::TooShort),
                    )
                    &&& out@.len() == 0
                },
                Err(e) => {
                    &&& final(self)@.error == first_error(old(self)@.error, e)
                    &&& out@.len() == 0
                },
            },
    {
        let ghost views = reads@.map_values(|r: PendingRead| r@);
        let mut out: Vec<Scattered> = Vec::new();
        match outcome {
            Err(e) => {
                if self.error.is_ok() {
                    self.error = Err(e);
                }
            },
            Ok(response) => {
                let mut i: usize = 0;
                let mut whole = true;
                while i < reads.len()
                    invariant
                        0 <= i <= reads@.len(),
                        views == reads@.map_values(|r: PendingRead| r@),
                        whole ==> covers(response@, views.take(i as int)),
                        !whole ==> !covers(response@, views),
                    decreases reads@.len() - i,
                {
                    let read = &reads[i];
                    if !response.covers_range(read.offset, read.len) {
                        whole = false;
                        assert(views[i as int] == read@);
                    }
                    proof {
                        if whole {
                            assert forall|k: int| 0 <= k < i + 1 implies HEADER_LEN + (
                            #[trigger] views.take(i + 1)[k]).offset + views.take(i + 1)[k].len
                                <= response@.len() by {
                                if k < i {
                                    assert(views.take(i as int)[k] == views.take(i + 1)[k]);
                                } else {
                                    assert(views.take(i + 1)[k] == read@);
                                }
                            }
                        }
                    }
                    i = i + 1;
                }
                proof {
                    assert(views.take(i as int) =~= views);
                }
                if !whole {
                    if self.error.is_ok() {
                        self.error = Err(RequestError::Protocol(ProtocolError::TooShort));
                    }
                } else {
                    let mut k: usize = 0;
                    while k < reads.len()
                        invariant
                            0 <= k <= reads@.len(),
                            views == reads@.map_values(|r: PendingRead| r@),
                            covers(response@, views),
                            out@.len() == k,
                            forall|j: int|
                                0 <= j < k ==> (#[trigger] out@[j])@ == scattered(
                                    response@,
                                    views,
                                )[j],
                        decreases reads@.len() - k,
                    {
                        let read = &reads[k];
                        assert(views[k as int] == read@);
                        match response.region(read.offset, read.len) {
                            Some(data) => {
                                out.push(Scattered { dest: read.dest, data: slice_to_vec(data) });
                            },
                            None => {
                                assert(false);
                            },
                        }
                        k = k + 1;
                    }
                    assert(out@.map_values(|s: Scattered| s@) =~= scattered(response@, views));
                }
            },
        }
        out
    }

    /// Ends the queue: what comes back is the first failure, if there was
    /// one. The last batch has to be flushed and settled before.
    pub fn finish(self) -> (out: Result<(), RequestError>)
        ensures
            match out {
                Ok(_) => self@.error is None,
                Err(e) => self@.error == Some(e),
            },
    {
        self.error
    }
}

/// A queue that has failed ignores every push and hands out nothing.
pub proof fn lemma_failed_queue_ignores(q: QueueView, ps: Seq<PushView>)
    requires
        q.error is Some,
    ensures
        queue_push_all(q, ps) == (q, Seq::<FlushView>::empty()),
    decreases ps.len(),
{
    if ps.len() > 0 {
        lemma_failed_queue_ignores(q, ps.drop_last());
    }
}

/// What a run of pushes comes to. Taken together, the batches handed out and
/// the batch left in the queue hold the bytes of the commands exactly as
/// they were pushed, nothing lost, added or moved; the same holds of the
/// destinations of the reads. Every batch keeps to the limits, and every
/// read lies within the answers that its batch accounts for. Each command
/// has to fit into a batch of its own.
pub proof fn lemma_queue_keeps_order(q: QueueView, ps: Seq<PushView>)
    requires
        q.error is None,
        within_limits(q.batch),
        reads_within(q.batch, q.reads),
        forall|i: int|
            0 <= i < ps.len() ==> fits(
                empty_batch(q.batch.max_command_len, q.batch.max_response_len),
                (#[trigger] ps[i]).command,
            ),
    ensures
        ({
            let (after, flushes) = queue_push_all(q, ps);
            &&& after.error is None
            &&& after.batch.max_command_len == q.batch.max_command_len
            &&& after.batch.max_response_len == q.batch.max_response_len
            &&& flushed_bytes(flushes) + after.batch.commands == q.batch.commands + pushed_bytes(
                ps,
            )
            &&& flushed_dests(flushes) + read_dests(after.reads) == read_dests(q.reads)
                + pushed_dests(ps)
            &&& within_limits(after.batch)
            &&& reads_within(after.batch, after.reads)
            &&& forall|k: int|
                0 <= k < flushes.len() ==> within_limits((#[trigger] flushes[k]).batch)
                    && reads_within(flushes[k].batch, flushes[k].reads)
        }),
    decreases ps.len(),
{
    if ps.len() == 0 {
        assert(flushed_bytes(Seq::<FlushView>::empty()) + q.batch.commands =~= q.batch.commands
            + pushed_bytes(ps));
        assert(flushed_dests(Seq::<FlushView>::empty()) + read_dests(q.reads) =~= read_dests(
            q.reads,
        ) + pushed_dests(ps));
    } else {
        let head = ps.drop_last();
        let p = ps.last();
        lemma_queue_keeps_order(q, head);
        let (before, flushes) = queue_push_all(q, head);
        let (after, flush) = queue_push(before, p);
        let dest_tail: Seq<Destination> = match p.dest {
            Some(d) => seq![d],
            None => Seq::empty(),
        };
        assert(pushed_dests(ps) =~= pushed_dests(head) + dest_tail);
        assert(fits(empty_batch(q.batch.max_command_len, q.batch.max_response_len), p.command));
        if fits(before.batch, p.command) {
            assert(flushed_bytes(flushes) + after.batch.commands =~= (flushed_bytes(flushes)
                + before.batch.commands) + p.command.bytes);
            assert(q.batch.commands + pushed_bytes(ps) =~= (q.batch.commands + pushed_bytes(head))
                + p.command.bytes);
            assert(read_dests(after.reads) =~= read_dests(before.reads) + dest_tail);
            assert(flushed_dests(flushes) + read_dests(after.reads) =~= (flushed_dests(flushes)
                + read_dests(before.reads)) + dest_tail);
            assert(read_dests(q.reads) + pushed_dests(ps) =~= (read_dests(q.reads)
                + pushed_dests(head)) + dest_tail);
        } else {
            let f = FlushView { batch: before.batch, reads: before.reads };
            let all = flushes.push(f);
            assert(all.drop_last() =~= flushes);
            assert(flushed_bytes(all) == flushed_bytes(flushes) + before.batch.commands);
            assert(flushed_dests(all) == flushed_dests(flushes) + read_dests(before.reads));
            assert(after.batch.commands =~= p.command.bytes);
            assert(flushed_bytes(all) + after.batch.commands =~= (flushed_bytes(flushes)
                + before.batch.commands) + p.command.bytes);
            assert(q.batch.commands + pushed_bytes(ps) =~= (q.batch.commands + pushed_bytes(head))
                + p.command.bytes);
            assert(read_dests(after.reads) =~= dest_tail);
            assert(flushed_dests(all) + read_dests(after.reads) =~= (flushed_dests(flushes)
                + read_dests(before.reads)) + dest_tail);
            assert(read_dests(q.reads) + pushed_dests(ps) =~= (read_dests(q.reads)
                + pushed_dests(head)) + dest_tail);
        }
    }
}

/// Pushing one run after another comes to the same as pushing both as one.
pub proof fn lemma_queue_push_all_concat(q: QueueView, a: Seq<PushView>, b: Seq<PushView>)
    ensures
        queue_push_all(q, a + b) == (
            queue_push_all(queue_push_all(q, a).0, b).0,
            queue_push_all(q, a).1 + queue_push_all(queue_push_all(q, a).0, b).1,
        ),
    decreases b.len(),
{
    let (mid, first) = queue_push_all(q, a);
    if b.len() == 0 {
        assert(a + b =~= a);
        assert(first + Seq::<FlushView>::empty() =~= first);
    } else {
        lemma_queue_push_all_concat(q, a, b.drop_last());
        assert((a + b).drop_last() =~= a + b.drop_last());
        assert((a + b).last() == b.last());
        let (before, second) = queue_push_all(mid, b.drop_last());
        match queue_push(before, b.last()).1 {
            Some(f) => {
                assert((first + second).push(f) =~= first + second.push(f));
            },
            None => {},
        }
    }
}

/// A queue whose limits leave room for the largest command of a bus takes
/// every such command: 259 bytes of request, header included, and 255 of
/// response are enough.
pub proof fn lemma_chunk_sized_fits(max_command_len: nat, max_response_len: nat, c: CommandView)
    requires
        chunk_sized(c),
        max_command_len >= HEADER_LEN + CHUNK + 2,
        max_response_len >= CHUNK,
    ensures
        fits(empty_batch(max_command_len, max_response_len), c),
{
}

/// A response that holds all the answers of a batch holds each of its
/// reads, so that settling the batch scatters every one of them.
pub proof fn lemma_full_response_covers(b: BatchView, reads: Seq<ReadView>, response: Seq<u8>)
    requires
        reads_within(b, reads),
        HEADER_LEN + b.response_len <= response.len(),
    ensures
        covers(response, reads),
{
}

} // verus!

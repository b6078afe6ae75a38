//! Moving bytes in chunks: the copy loop, the byte ranges of a parallel
//! transfer, and the replies that input and output come back with.

use crate::transfer::{ErrorModel, TransferError};
use crate::transfer::outcome;
use vstd::prelude::*;
use vstd::string::*;

verus! {

/// Copy chunk size: the largest single SFTP write/read packet OpenSSH
/// advertises, so one chunk is exactly one packet.  Every packet costs one
/// round trip through the ssh session thread, so a buffer above this limit
/// would pay a second (mostly empty) round trip, and a buffer below it
/// would pay more round trips for the same bytes.
pub const CHUNK_SIZE: usize = 261120;

/// Milliseconds between two progress reports; the final byte count is
/// always reported.
pub const PROGRESS_INTERVAL: u64 = 100;

/// Seconds a single read or write may take.
pub const IO_TIMEOUT: u64 = 60;

/// Size and mode of a file, as far as they are known.
#[derive(Clone, Copy, Debug, PartialEq, Eq)]
pub struct Stat {
    pub size: Option<u64>,
    pub mode: Option<u32>,
}

/// What came back of one input or output operation.
#[derive(Debug)]
pub enum Reply {
    Done,
    Bytes(usize),
    Stat(Stat),
    Failed(String),
    /// Nothing came back in time.
    TimedOut,
}

/// A reply with its error as characters.
pub enum ReplyModel {
    Done,
    Bytes(usize),
    Stat(Stat),
    Failed(Seq<char>),
    TimedOut,
}

impl View for Reply {
    type V = ReplyModel;

    open spec fn view(&self) -> ReplyModel {
        match *self {
            Reply::Done => ReplyModel::Done,
            Reply::Bytes(n) => ReplyModel::Bytes(n),
            Reply::Stat(s) => ReplyModel::Stat(s),
            Reply::Failed(e) => ReplyModel::Failed(e@),
            Reply::TimedOut => ReplyModel::TimedOut,
        }
    }
}

impl ReplyModel {
    /// The error, if the operation did not succeed.
    pub open spec fn error(self) -> Option<Seq<char>> {
        match self {
            ReplyModel::Failed(e) => Some(e),
            ReplyModel::TimedOut => Some("connection stalled (no data for 60s)"@),
            _ => None,
        }
    }

    /// Bytes that were moved.
    pub open spec fn count(self) -> usize {
        match self {
            ReplyModel::Bytes(n) => n,
            _ => 0,
        }
    }

    pub open spec fn stat_spec(self) -> Stat {
        match self {
            ReplyModel::Stat(s) => s,
            _ => Stat { size: None, mode: None },
        }
    }
}

impl Reply {
    /// The error, if the operation did not succeed.
    pub fn failure(&self) -> (r: Option<String>)
        ensures
            crate::paths::opt(r) == self@.error(),
    {
        match self {
            Reply::Failed(e) => Some(e.clone()),
            Reply::TimedOut => Some("connection stalled (no data for 60s)".to_owned()),
            _ => None,
        }
    }

    /// Bytes that were moved.
    pub fn bytes(&self) -> (r: usize)
        ensures
            r == self@.count(),
    {
        match self {
            Reply::Bytes(n) => *n,
            _ => 0,
        }
    }

    pub fn stat(&self) -> (r: Stat)
        ensures
            r == self@.stat_spec(),
    {
        match self {
            Reply::Stat(s) => *s,
            _ => Stat { size: None, mode: None },
        }
    }
}

/// Where the copy loop stands.
#[derive(Debug)]
pub enum CopyStage {
    Reading,
    Writing(usize),
    /// Reporting progress on the way.
    Ticking,
    /// Reporting the final count.
    Reporting,
    Over(Result<(), TransferError>),
}

/// The copy loop's stage with its error as characters.
pub enum CopyStageModel {
    Reading,
    Writing(usize),
    Ticking,
    Reporting,
    Over(Result<(), ErrorModel>),
}

impl View for CopyStage {
    type V = CopyStageModel;

    open spec fn view(&self) -> CopyStageModel {
        match *self {
            CopyStage::Reading => CopyStageModel::Reading,
            CopyStage::Writing(n) => CopyStageModel::Writing(n),
            CopyStage::Ticking => CopyStageModel::Ticking,
            CopyStage::Reporting => CopyStageModel::Reporting,
            CopyStage::Over(r) => CopyStageModel::Over(outcome(r)),
        }
    }
}

/// What the copy loop needs done next.
#[derive(Debug)]
pub enum CopyAction {
    /// Read up to this many bytes.
    Read(usize),
    /// Write all of the bytes just read.
    Write(usize),
    /// Report the bytes that are in place.
    Report(u64),
    Finish(Result<(), TransferError>),
}

/// A copy action with its error as characters.
pub enum CopyActionModel {
    Read(usize),
    Write(usize),
    Report(u64),
    Finish(Result<(), ErrorModel>),
}

impl View for CopyAction {
    type V = CopyActionModel;

    open spec fn view(&self) -> CopyActionModel {
        match *self {
            CopyAction::Read(n) => CopyActionModel::Read(n),
            CopyAction::Write(n) => CopyActionModel::Write(n),
            CopyAction::Report(n) => CopyActionModel::Report(n),
            CopyAction::Finish(r) => CopyActionModel::Finish(outcome(r)),
        }
    }
}

/// Stream a reader into a writer in [CHUNK_SIZE] chunks, reporting the
/// cumulative byte count at most once per [PROGRESS_INTERVAL], plus once
/// with the final count.  Shared by the transfer engine and by the
/// single-shot copies (remote open preview, editor write-back) so every
/// path moves data in the same packet size.
#[derive(Debug)]
pub struct CopyStream {
    /// Bytes in place, those from before the copy included.
    pub done: u64,
    /// When progress was last reported, in milliseconds.
    pub last_emit: u64,
    pub stage: CopyStage,
}

/// What a copy loop holds.
pub struct CopyModel {
    pub done: u64,
    pub last_emit: u64,
    pub stage: CopyStageModel,
}

impl View for CopyStream {
    type V = CopyModel;

    open spec fn view(&self) -> CopyModel {
        CopyModel { done: self.done, last_emit: self.last_emit, stage: self.stage@ }
    }
}

/// The sum of two counts, held at the largest count there is.
pub open spec fn plus(a: u64, b: int) -> u64 {
    if a + b > u64::MAX {
        u64::MAX
    } else {
        (a + b) as u64
    }
}

impl CopyModel {
    pub open spec fn fresh(start: u64, cancelled: bool, now: u64) -> CopyModel {
        (CopyModel { done: start, last_emit: now, stage: CopyStageModel::Reading }).turn(cancelled)
    }

    /// The source was copied to its end.
    pub open spec fn succeeded(self) -> bool {
        match self.stage {
            CopyStageModel::Over(r) => r is Ok,
            _ => false,
        }
    }

    /// On to the next read, unless the transfer was cancelled.
    pub open spec fn turn(self, cancelled: bool) -> CopyModel {
        CopyModel {
            stage: if cancelled {
                CopyStageModel::Over(Err(ErrorModel::Cancelled))
            } else {
                CopyStageModel::Reading
            },
            ..self
        }
    }

    pub open spec fn action(self) -> CopyActionModel {
        match self.stage {
            CopyStageModel::Reading => CopyActionModel::Read(CHUNK_SIZE),
            CopyStageModel::Writing(n) => CopyActionModel::Write(n),
            CopyStageModel::Ticking => CopyActionModel::Report(self.done),
            CopyStageModel::Reporting => CopyActionModel::Report(self.done),
            CopyStageModel::Over(r) => CopyActionModel::Finish(r),
        }
    }

    /// The loop after the reply to its action, at `now` milliseconds.
    pub open spec fn after(self, reply: ReplyModel, cancelled: bool, now: u64) -> CopyModel {
        match self.stage {
            CopyStageModel::Reading => match reply.error() {
                Some(e) => CopyModel { stage: CopyStageModel::Over(Err(ErrorModel::Failed(e))), ..self },
                None => CopyModel {
                    stage: if reply.count() == 0 {
                        CopyStageModel::Reporting
                    } else {
                        CopyStageModel::Writing(reply.count())
                    },
                    ..self
                },
            },
            CopyStageModel::Writing(n) => match reply.error() {
                Some(e) => CopyModel { stage: CopyStageModel::Over(Err(ErrorModel::Failed(e))), ..self },
                None => {
                    let m = CopyModel { done: plus(self.done, n as int), ..self };
                    if now - self.last_emit >= PROGRESS_INTERVAL {
                        CopyModel { stage: CopyStageModel::Ticking, ..m }
                    } else {
                        m.turn(cancelled)
                    }
                },
            },
            CopyStageModel::Ticking => (CopyModel { last_emit: now, ..self }).turn(cancelled),
            CopyStageModel::Reporting => CopyModel { stage: CopyStageModel::Over(Ok(())), ..self },
            CopyStageModel::Over(_) => self,
        }
    }
}

impl CopyStream {
    /// Begin behind the first `start` bytes, at `now` milliseconds.
    pub fn new(start: u64, cancelled: bool, now: u64) -> (r: Self)
        ensures
            r@ == CopyModel::fresh(start, cancelled, now),
    {
        CopyStream { done: start, last_emit: now, stage: Self::turn(cancelled) }
    }

    fn turn(cancelled: bool) -> (r: CopyStage)
        ensures
            r@ == if cancelled {
                CopyStageModel::Over(Err(ErrorModel::Cancelled))
            } else {
                CopyStageModel::Reading
            },
    {
        if cancelled {
            CopyStage::Over(Err(TransferError::Cancelled))
        } else {
            CopyStage::Reading
        }
    }

    /// What is to be done next.
    pub fn action(&self) -> (r: CopyAction)
        ensures
            r@ == self@.action(),
    {
        match &self.stage {
            CopyStage::Reading => CopyAction::Read(CHUNK_SIZE),
            CopyStage::Writing(n) => CopyAction::Write(*n),
            CopyStage::Ticking => CopyAction::Report(self.done),
            CopyStage::Reporting => CopyAction::Report(self.done),
            CopyStage::Over(Ok(())) => CopyAction::Finish(Ok(())),
            CopyStage::Over(Err(e)) => CopyAction::Finish(Err(e.clone())),
        }
    }

    /// Take the reply to the action.  `cancelled` and `now` are as they are
    /// when the reply is in.
    pub fn feed(&mut self, reply: &Reply, cancelled: bool, now: u64)
        ensures
            final(self)@ == old(self)@.after(reply@, cancelled, now),
    {
        match &self.stage {
            CopyStage::Reading => {
                self.stage = match reply.failure() {
                    Some(e) => CopyStage::Over(Err(TransferError::Failed(e))),
                    None => {
                        let n: usize = reply.bytes();
                        if n == 0 {
                            CopyStage::Reporting
                        } else {
                            CopyStage::Writing(n)
                        }
                    },
                };
            },
            CopyStage::Writing(len) => {
                let n: u64 = *len as u64;
                match reply.failure() {
                    Some(e) => {
                        self.stage = CopyStage::Over(Err(TransferError::Failed(e)));
                    },
                    None => {
                        self.done = if self.done > u64::MAX - n {
                            u64::MAX
                        } else {
                            self.done + n
                        };
                        self.stage = if now >= self.last_emit && now - self.last_emit
                            >= PROGRESS_INTERVAL {
                            CopyStage::Ticking
                        } else {
                            Self::turn(cancelled)
                        };
                    },
                }
            },
            CopyStage::Ticking => {
                self.last_emit = now;
                self.stage = Self::turn(cancelled);
            },
            CopyStage::Reporting => {
                self.stage = CopyStage::Over(Ok(()));
            },
            CopyStage::Over(_) => {},
        }
    }
}

/// One chunk read and written, with a report where one is due.
pub open spec fn moved(m: CopyModel, n: usize, now: u64) -> CopyModel {
    let w = m.after(ReplyModel::Bytes(n), false, now).after(ReplyModel::Done, false, now);
    if w.stage is Ticking {
        w.after(ReplyModel::Done, false, now)
    } else {
        w
    }
}

/// The loop after the chunks `sizes`, each finished at its time.
pub open spec fn streamed(m: CopyModel, sizes: Seq<usize>, times: Seq<u64>) -> CopyModel
    decreases sizes.len(),
{
    if sizes.len() == 0 {
        m
    } else {
        moved(streamed(m, sizes.drop_last(), times), sizes.last(), times[sizes.len() - 1])
    }
}

/// The bytes of the chunks `sizes`.
pub open spec fn sum(sizes: Seq<usize>) -> int
    decreases sizes.len(),
{
    if sizes.len() == 0 {
        0
    } else {
        sum(sizes.drop_last()) + sizes.last()
    }
}

proof fn lemma_streamed(start: u64, t0: u64, sizes: Seq<usize>, times: Seq<u64>)
    requires
        forall|i: int| 0 <= i < sizes.len() ==> #[trigger] sizes[i] > 0,
        start + sum(sizes) <= u64::MAX,
    ensures
        ({
            let m = streamed(CopyModel::fresh(start, false, t0), sizes, times);
            m.stage is Reading && m.done == start + sum(sizes) && sum(sizes) >= 0
        }),
    decreases sizes.len(),
{
    if sizes.len() > 0 {
        let rest = sizes.drop_last();
        assert forall|i: int| 0 <= i < rest.len() implies #[trigger] rest[i] > 0 by {
            assert(sizes[i] > 0);
        }
        lemma_streamed(start, t0, rest, times);
        assert(sizes[sizes.len() - 1] > 0);
    }
}

/// Every byte that was read is written and counted: whatever the chunk
/// sizes and however the time passes, the final report is the starting
/// count plus all bytes read, and only then does the copy succeed.
pub proof fn all_bytes_are_reported(start: u64, t0: u64, sizes: Seq<usize>, times: Seq<u64>, now: u64)
    requires
        forall|i: int| 0 <= i < sizes.len() ==> #[trigger] sizes[i] > 0,
        start + sum(sizes) <= u64::MAX,
    ensures
        ({
            let m = streamed(CopyModel::fresh(start, false, t0), sizes, times);
            let end = m.after(ReplyModel::Bytes(0), false, now);
            &&& m.action() == CopyActionModel::Read(CHUNK_SIZE)
            &&& end.action() == CopyActionModel::Report((start + sum(sizes)) as u64)
            &&& end.after(ReplyModel::Done, false, now).action() == CopyActionModel::Finish(Ok(()))
        }),
{
    lemma_streamed(start, t0, sizes, times);
}

/// A cancelled copy stops before its next read, without a report of its
/// own, and stays stopped.
pub proof fn cancelled_copy_stops(m: CopyModel, n: usize, reply: ReplyModel, c: bool, now: u64)
    requires
        m.stage == CopyStageModel::Writing(n),
        now - m.last_emit < PROGRESS_INTERVAL,
    ensures
        ({
            let s = m.after(ReplyModel::Done, true, now);
            s.action() == CopyActionModel::Finish(Err(ErrorModel::Cancelled)) && s.after(
                reply,
                c,
                now,
            ) == s
        }),
{
}

/// Byte range for worker `index` of `workers`.
pub open spec fn slice_spec(total: nat, workers: nat, index: nat) -> (nat, nat) {
    let slice = total / workers;
    let start = slice * index;
    (
        start,
        if index + 1 == workers {
            (total - start) as nat
        } else {
            slice
        },
    )
}

proof fn lemma_slice(total: nat, workers: nat, index: nat)
    requires
        index < workers,
    ensures
        (total / workers) * index <= (total / workers) * workers <= total,
{
    let q = total / workers;
    assert(q * index <= q * workers) by (nonlinear_arith)
        requires
            index < workers,
            q >= 0,
    ;
    assert(q * workers <= total) by (nonlinear_arith)
        requires
            q == total / workers,
            workers > 0,
    ;
}

/// Byte range for worker `index` of `workers`.  The division remainder
/// lands in the last slice, so the ranges tile `[0, total)` exactly.
pub fn slice_range(total: u64, workers: usize, index: usize) -> (r: (u64, u64))
    requires
        index < workers,
    ensures
        (r.0 as nat, r.1 as nat) == slice_spec(total as nat, workers as nat, index as nat),
{
    proof {
        lemma_slice(total as nat, workers as nat, index as nat);
    }
    let slice: u64 = total / workers as u64;
    let start: u64 = slice * index as u64;
    let len: u64 = if index + 1 == workers {
        total - start
    } else {
        slice
    };
    (start, len)
}

/// The slices of a file tile it: the first starts at the beginning, each
/// one ends where the next one starts, and the last one ends at the end.
pub proof fn slices_tile_the_file(total: nat, workers: nat, index: nat)
    requires
        index < workers,
    ensures
        slice_spec(total, workers, 0).0 == 0,
        index + 1 < workers ==> slice_spec(total, workers, index).0 + slice_spec(
            total,
            workers,
            index,
        ).1 == slice_spec(total, workers, (index + 1) as nat).0,
        index + 1 == workers ==> slice_spec(total, workers, index).0 + slice_spec(
            total,
            workers,
            index,
        ).1 == total,
{
    lemma_slice(total, workers, index);
    let q = total / workers;
    assert(q * 0 == 0) by (nonlinear_arith);
    assert(q * (index + 1) == q * index + q) by (nonlinear_arith);
}

/// Where one slice of a parallel transfer stands.
#[derive(Debug)]
pub enum SliceStage {
    OpenReader,
    SeekReader,
    OpenWriter,
    SeekWriter,
    Reading(usize),
    Writing(usize),
    Flushing,
    Closing,
    Over(Result<(), TransferError>),
}

/// A slice's stage with its error as characters.
pub enum SliceStageModel {
    OpenReader,
    SeekReader,
    OpenWriter,
    SeekWriter,
    Reading(usize),
    Writing(usize),
    Flushing,
    Closing,
    Over(Result<(), ErrorModel>),
}

impl View for SliceStage {
    type V = SliceStageModel;

    open spec fn view(&self) -> SliceStageModel {
        match *self {
            SliceStage::OpenReader => SliceStageModel::OpenReader,
            SliceStage::SeekReader => SliceStageModel::SeekReader,
            SliceStage::OpenWriter => SliceStageModel::OpenWriter,
            SliceStage::SeekWriter => SliceStageModel::SeekWriter,
            SliceStage::Reading(n) => SliceStageModel::Reading(n),
            SliceStage::Writing(n) => SliceStageModel::Writing(n),
            SliceStage::Flushing => SliceStageModel::Flushing,
            SliceStage::Closing => SliceStageModel::Closing,
            SliceStage::Over(r) => SliceStageModel::Over(outcome(r)),
        }
    }
}

/// What a slice needs done next.
#[derive(Debug)]
pub enum SliceAction {
    OpenReader,
    SeekReader(u64),
    /// Open the existing part file without truncating it.
    OpenWriter,
    SeekWriter(u64),
    /// Read exactly this many bytes.
    ReadExact(usize),
    /// Write all of the bytes just read.
    WriteAll(usize),
    Flush,
    Close,
    Finish(Result<(), TransferError>),
}

/// A slice's action with its error as characters.
pub enum SliceActionModel {
    OpenReader,
    SeekReader(u64),
    OpenWriter,
    SeekWriter(u64),
    ReadExact(usize),
    WriteAll(usize),
    Flush,
    Close,
    Finish(Result<(), ErrorModel>),
}

impl View for SliceAction {
    type V = SliceActionModel;

    open spec fn view(&self) -> SliceActionModel {
        match *self {
            SliceAction::OpenReader => SliceActionModel::OpenReader,
            SliceAction::SeekReader(n) => SliceActionModel::SeekReader(n),
            SliceAction::OpenWriter => SliceActionModel::OpenWriter,
            SliceAction::SeekWriter(n) => SliceActionModel::SeekWriter(n),
            SliceAction::ReadExact(n) => SliceActionModel::ReadExact(n),
            SliceAction::WriteAll(n) => SliceActionModel::WriteAll(n),
            SliceAction::Flush => SliceActionModel::Flush,
            SliceAction::Close => SliceActionModel::Close,
            SliceAction::Finish(r) => SliceActionModel::Finish(outcome(r)),
        }
    }
}

/// The copy of one byte range.  The remote writer of an upload is closed
/// when the range is in place; the local writer of a download is flushed.
#[derive(Debug)]
pub struct SliceCopy {
    pub upload: bool,
    pub start: u64,
    pub remaining: u64,
    pub stage: SliceStage,
}

/// What a slice holds.
pub struct SliceModel {
    pub upload: bool,
    pub start: u64,
    pub remaining: u64,
    pub stage: SliceStageModel,
}

impl View for SliceCopy {
    type V = SliceModel;

    open spec fn view(&self) -> SliceModel {
        SliceModel {
            upload: self.upload,
            start: self.start,
            remaining: self.remaining,
            stage: self.stage@,
        }
    }
}

/// Bytes of the next chunk when `remaining` are left.
pub open spec fn chunk(remaining: u64) -> usize {
    if remaining < CHUNK_SIZE {
        remaining as usize
    } else {
        CHUNK_SIZE
    }
}

impl SliceModel {
    pub open spec fn fresh(upload: bool, start: u64, len: u64) -> SliceModel {
        SliceModel { upload, start, remaining: len, stage: SliceStageModel::OpenReader }
    }

    pub open spec fn action(self) -> SliceActionModel {
        match self.stage {
            SliceStageModel::OpenReader => SliceActionModel::OpenReader,
            SliceStageModel::SeekReader => SliceActionModel::SeekReader(self.start),
            SliceStageModel::OpenWriter => SliceActionModel::OpenWriter,
            SliceStageModel::SeekWriter => SliceActionModel::SeekWriter(self.start),
            SliceStageModel::Reading(n) => SliceActionModel::ReadExact(n),
            SliceStageModel::Writing(n) => SliceActionModel::WriteAll(n),
            SliceStageModel::Flushing => SliceActionModel::Flush,
            SliceStageModel::Closing => SliceActionModel::Close,
            SliceStageModel::Over(r) => SliceActionModel::Finish(r),
        }
    }

    /// On to the next chunk, to the end of the range, or to a stop.
    pub open spec fn turn(self, cancelled: bool) -> SliceModel {
        SliceModel {
            stage: if self.remaining == 0 {
                SliceStageModel::Flushing
            } else if cancelled {
                SliceStageModel::Over(Err(ErrorModel::Cancelled))
            } else {
                SliceStageModel::Reading(chunk(self.remaining))
            },
            ..self
        }
    }

    pub open spec fn after(self, reply: ReplyModel, cancelled: bool) -> SliceModel {
        match (self.stage, reply.error()) {
            (SliceStageModel::Over(_), _) => self,
            (_, Some(e)) => SliceModel {
                stage: SliceStageModel::Over(Err(ErrorModel::Failed(e))),
                ..self
            },
            (SliceStageModel::OpenReader, None) => SliceModel {
                stage: SliceStageModel::SeekReader,
                ..self
            },
            (SliceStageModel::SeekReader, None) => SliceModel {
                stage: SliceStageModel::OpenWriter,
                ..self
            },
            (SliceStageModel::OpenWriter, None) => SliceModel {
                stage: SliceStageModel::SeekWriter,
                ..self
            },
            (SliceStageModel::SeekWriter, None) => self.turn(cancelled),
            (SliceStageModel::Reading(n), None) => SliceModel {
                stage: SliceStageModel::Writing(n),
                ..self
            },
            (SliceStageModel::Writing(n), None) => (SliceModel {
                remaining: if n >= self.remaining {
                    0
                } else {
                    (self.remaining - n) as u64
                },
                ..self
            }).turn(cancelled),
            (SliceStageModel::Flushing, None) => SliceModel {
                stage: if self.upload {
                    SliceStageModel::Closing
                } else {
                    SliceStageModel::Over(Ok(()))
                },
                ..self
            },
            (SliceStageModel::Closing, None) => SliceModel {
                stage: SliceStageModel::Over(Ok(())),
                ..self
            },
        }
    }
}

impl SliceCopy {
    pub fn new(upload: bool, start: u64, len: u64) -> (r: Self)
        ensures
            r@ == SliceModel::fresh(upload, start, len),
    {
        SliceCopy { upload, start, remaining: len, stage: SliceStage::OpenReader }
    }

    /// What is to be done next.
    pub fn action(&self) -> (r: SliceAction)
        ensures
            r@ == self@.action(),
    {
        match &self.stage {
            SliceStage::OpenReader => SliceAction::OpenReader,
            SliceStage::SeekReader => SliceAction::SeekReader(self.start),
            SliceStage::OpenWriter => SliceAction::OpenWriter,
            SliceStage::SeekWriter => SliceAction::SeekWriter(self.start),
            SliceStage::Reading(n) => SliceAction::ReadExact(*n),
            SliceStage::Writing(n) => SliceAction::WriteAll(*n),
            SliceStage::Flushing => SliceAction::Flush,
            SliceStage::Closing => SliceAction::Close,
            SliceStage::Over(Ok(())) => SliceAction::Finish(Ok(())),
            SliceStage::Over(Err(e)) => SliceAction::Finish(Err(e.clone())),
        }
    }

    fn turn(&self, cancelled: bool) -> (r: SliceStage)
        ensures
            r@ == self@.turn(cancelled).stage,
    {
        if self.remaining == 0 {
            SliceStage::Flushing
        } else if cancelled {
            SliceStage::Over(Err(TransferError::Cancelled))
        } else if self.remaining < CHUNK_SIZE as u64 {
            SliceStage::Reading(self.remaining as usize)
        } else {
            SliceStage::Reading(CHUNK_SIZE)
        }
    }

    /// Take the reply to the action; the result is the number of bytes it
    /// put in place.
    pub fn feed(&mut self, reply: &Reply, cancelled: bool) -> (placed: u64)
        ensures
            final(self)@ == old(self)@.after(reply@, cancelled),
            placed == match (old(self)@.stage, reply@.error()) {
                (SliceStageModel::Writing(n), None) => n as u64,
                _ => 0,
            },
    {
        let mut placed: u64 = 0;
        let next = match (&self.stage, reply.failure()) {
            (SliceStage::Over(_), _) => {
                return 0;
            },
            (_, Some(e)) => SliceStage::Over(Err(TransferError::Failed(e))),
            (SliceStage::OpenReader, None) => SliceStage::SeekReader,
            (SliceStage::SeekReader, None) => SliceStage::OpenWriter,
            (SliceStage::OpenWriter, None) => SliceStage::SeekWriter,
            (SliceStage::SeekWriter, None) => self.turn(cancelled),
            (SliceStage::Reading(n), None) => SliceStage::Writing(*n),
            (SliceStage::Writing(n), None) => {
                placed = *n as u64;
                self.remaining = if placed >= self.remaining {
                    0
                } else {
                    self.remaining - placed
                };
                self.turn(cancelled)
            },
            (SliceStage::Flushing, None) => if self.upload {
                SliceStage::Closing
            } else {
                SliceStage::Over(Ok(()))
            },
            (SliceStage::Closing, None) => SliceStage::Over(Ok(())),
        };
        self.stage = next;
        placed
    }
}

/// A slice succeeds only with its whole range in place: nothing is left to
/// write when it turns to flushing, and only a flushed (and, on the remote
/// side, closed) slice succeeds.
pub proof fn slice_succeeds_only_when_complete(m: SliceModel, reply: ReplyModel, cancelled: bool)
    requires
        !(m.stage is Over),
        m.stage is Flushing || m.stage is Closing ==> m.remaining == 0,
    ensures
        ({
            let q = m.after(reply, cancelled);
            &&& q.stage is Flushing || q.stage is Closing ==> q.remaining == 0
            &&& q.stage == SliceStageModel::Over(Ok(())) ==> q.remaining == 0 && reply.error()
                is None && (m.stage is Closing || (m.stage is Flushing && !m.upload))
        }),
{
}

/// A copy writes what it read and counts what it wrote: after a read of `n`
/// bytes exactly `n` are written, only then are they counted, and an error
/// of either ends the copy with that error and nothing counted.
pub proof fn a_copy_writes_what_it_read(
    m: CopyModel,
    n: usize,
    e: Seq<char>,
    t: u64,
    cancelled: bool,
)
    requires
        m.action() is Read,
        n > 0,
        m.done + n <= u64::MAX,
    ensures
        ({
            let read = m.after(ReplyModel::Bytes(n), cancelled, t);
            let written = read.after(ReplyModel::Done, false, t);
            &&& m.action() == CopyActionModel::Read(CHUNK_SIZE)
            &&& read.action() == CopyActionModel::Write(n)
            &&& read.done == m.done
            &&& written.done == m.done + n
            &&& written.action() == CopyActionModel::Read(CHUNK_SIZE) || written.action()
                == CopyActionModel::Report((m.done + n) as u64)
            &&& m.after(ReplyModel::Failed(e), cancelled, t).action() == CopyActionModel::Finish(
                Err(ErrorModel::Failed(e)),
            )
            &&& read.after(ReplyModel::Failed(e), cancelled, t).action()
                == CopyActionModel::Finish(Err(ErrorModel::Failed(e)))
            &&& read.after(ReplyModel::Failed(e), cancelled, t).done == m.done
        }),
{
}

/// A slice after several replies, each with whether the transfer was
/// cancelled by then.
pub open spec fn slice_ran(m: SliceModel, replies: Seq<(ReplyModel, bool)>) -> SliceModel
    decreases replies.len(),
{
    if replies.len() == 0 {
        m
    } else {
        slice_ran(m, replies.drop_last()).after(replies.last().0, replies.last().1)
    }
}

/// Bytes that a slice has written.
pub open spec fn slice_written(m: SliceModel, replies: Seq<(ReplyModel, bool)>) -> int
    decreases replies.len(),
{
    if replies.len() == 0 {
        0
    } else {
        let before = slice_written(m, replies.drop_last());
        match slice_ran(m, replies.drop_last()).action() {
            SliceActionModel::WriteAll(n) => if replies.last().0.error() is None {
                before + n
            } else {
                before
            },
            _ => before,
        }
    }
}

proof fn lemma_slice_ran(upload: bool, start: u64, len: u64, replies: Seq<(ReplyModel, bool)>)
    ensures
        ({
            let m = slice_ran(SliceModel::fresh(upload, start, len), replies);
            let w = slice_written(SliceModel::fresh(upload, start, len), replies);
            &&& m.upload == upload
            &&& m.start == start
            &&& 0 <= w
            &&& w + m.remaining == len
            &&& match m.stage {
                SliceStageModel::Reading(n) => 0 < n <= m.remaining,
                SliceStageModel::Writing(n) => 0 < n <= m.remaining,
                SliceStageModel::Flushing => m.remaining == 0,
                SliceStageModel::Closing => m.remaining == 0,
                SliceStageModel::Over(Ok(())) => m.remaining == 0,
                _ => true,
            }
        }),
    decreases replies.len(),
{
    if replies.len() > 0 {
        lemma_slice_ran(upload, start, len, replies.drop_last());
    }
}

/// A slice moves its own byte range and no other: it seeks both files to
/// its own start, never writes more than its length, and succeeds only with
/// exactly its length written.
pub proof fn a_slice_moves_its_own_range(
    upload: bool,
    start: u64,
    len: u64,
    replies: Seq<(ReplyModel, bool)>,
)
    ensures
        ({
            let m = slice_ran(SliceModel::fresh(upload, start, len), replies);
            let w = slice_written(SliceModel::fresh(upload, start, len), replies);
            &&& match m.action() {
                SliceActionModel::SeekReader(n) => n == start,
                SliceActionModel::SeekWriter(n) => n == start,
                SliceActionModel::ReadExact(n) => 0 < n && w + n <= len,
                SliceActionModel::WriteAll(n) => 0 < n && w + n <= len,
                SliceActionModel::Flush => w == len,
                SliceActionModel::Close => w == len && upload,
                SliceActionModel::Finish(Ok(())) => w == len,
                _ => true,
            }
            &&& 0 <= w <= len
        }),
{
    lemma_slice_ran(upload, start, len, replies);
    lemma_only_uploads_close(upload, start, len, replies);
}

proof fn lemma_only_uploads_close(
    upload: bool,
    start: u64,
    len: u64,
    replies: Seq<(ReplyModel, bool)>,
)
    ensures
        slice_ran(SliceModel::fresh(upload, start, len), replies).stage is Closing ==> upload,
    decreases replies.len(),
{
    if replies.len() > 0 {
        lemma_only_uploads_close(upload, start, len, replies.drop_last());
        lemma_slice_ran(upload, start, len, replies.drop_last());
    }
}

/// Both files are opened and put in position before a byte is moved, what
/// is written is what was just read, and any error ends the slice with that
/// error.
pub proof fn a_slice_writes_what_it_read(
    m: SliceModel,
    reply: ReplyModel,
    e: Seq<char>,
    cancelled: bool,
)
    ensures
        ({
            let q = m.after(reply, cancelled);
            &&& !(m.action() is Finish) && reply.error() == Some(e) ==> q.action()
                == SliceActionModel::Finish(Err(ErrorModel::Failed(e)))
            &&& reply.error() is None ==> match m.action() {
                SliceActionModel::OpenReader => q.action() is SeekReader,
                SliceActionModel::SeekReader(_) => q.action() is OpenWriter,
                SliceActionModel::OpenWriter => q.action() is SeekWriter,
                SliceActionModel::ReadExact(n) => q.action() == SliceActionModel::WriteAll(n),
                SliceActionModel::Flush => m.upload ==> q.action() is Close,
                _ => true,
            }
        }),
{
}

} // verus!

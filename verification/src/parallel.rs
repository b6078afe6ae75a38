//! A large file over several connections: every worker moves its own byte
//! range, and the file is published only if all of them succeed.

use crate::job::{
    kept_mode, kept_mode_spec, open_mode, open_mode_spec, replaces, JobAction, JobActionModel,
};
use crate::paths::{local_part_spec, remote_part_spec};
use crate::publish::{
    Publish, PublishAction, PublishActionModel, PublishModel, PublishStage, PublishStageModel,
};
use crate::stream::{slice_range, slice_spec, Reply, ReplyModel};
use crate::transfer::{outcome, ErrorModel, JobModel, TransferError, WorkerJob};
use vstd::prelude::*;
use vstd::string::*;

verus! {

/// What a parallel transfer needs done next.
#[derive(Debug)]
pub enum ParallelAction {
    Do(JobAction),
    /// Create a local file of this length, so slices can be written to
    /// their places in it.
    Allocate { path: String, len: u64 },
    /// Open the auxiliary connections; the reply is their number.
    Helpers,
    /// Move one slice per worker; the reply is the first failure, if any.
    Slices { workers: usize },
    /// Drop the auxiliary connections: a failed slice usually means one of
    /// them is gone.
    Invalidate,
    /// Remove a local file; a failure is ignored.
    RemoveLocal { path: String },
}

/// The action with its texts as characters.
pub enum ParallelActionModel {
    Do(JobActionModel),
    Allocate { path: Seq<char>, len: u64 },
    Helpers,
    Slices { workers: usize },
    Invalidate,
    RemoveLocal { path: Seq<char> },
}

impl View for ParallelAction {
    type V = ParallelActionModel;

    open spec fn view(&self) -> ParallelActionModel {
        match *self {
            ParallelAction::Do(a) => ParallelActionModel::Do(a@),
            ParallelAction::Allocate { path, len } => ParallelActionModel::Allocate {
                path: path@,
                len,
            },
            ParallelAction::Helpers => ParallelActionModel::Helpers,
            ParallelAction::Slices { workers } => ParallelActionModel::Slices { workers },
            ParallelAction::Invalidate => ParallelActionModel::Invalidate,
            ParallelAction::RemoveLocal { path } => ParallelActionModel::RemoveLocal { path: path@ },
        }
    }
}

/// Where a parallel transfer stands.
#[derive(Debug)]
pub enum ParallelStage {
    Parents,
    StatSource,
    OpenPart,
    FlushPart,
    ClosePart,
    LocalParent,
    Allocating,
    Started,
    Helping,
    Slicing(usize),
    Dropping(String),
    Removing(String),
    Publishing(Publish),
    StatMode,
    SettingMode(u32),
    Renaming,
    Reporting,
    Over(Result<(), TransferError>),
}

/// The stage with its texts as characters.
pub enum ParallelStageModel {
    Parents,
    StatSource,
    OpenPart,
    FlushPart,
    ClosePart,
    LocalParent,
    Allocating,
    Started,
    Helping,
    Slicing(usize),
    Dropping(Seq<char>),
    Removing(Seq<char>),
    Publishing(PublishModel),
    StatMode,
    SettingMode(u32),
    Renaming,
    Reporting,
    Over(Result<(), ErrorModel>),
}

impl View for ParallelStage {
    type V = ParallelStageModel;

    open spec fn view(&self) -> ParallelStageModel {
        match *self {
            ParallelStage::Parents => ParallelStageModel::Parents,
            ParallelStage::StatSource => ParallelStageModel::StatSource,
            ParallelStage::OpenPart => ParallelStageModel::OpenPart,
            ParallelStage::FlushPart => ParallelStageModel::FlushPart,
            ParallelStage::ClosePart => ParallelStageModel::ClosePart,
            ParallelStage::LocalParent => ParallelStageModel::LocalParent,
            ParallelStage::Allocating => ParallelStageModel::Allocating,
            ParallelStage::Started => ParallelStageModel::Started,
            ParallelStage::Helping => ParallelStageModel::Helping,
            ParallelStage::Slicing(n) => ParallelStageModel::Slicing(n),
            ParallelStage::Dropping(e) => ParallelStageModel::Dropping(e@),
            ParallelStage::Removing(e) => ParallelStageModel::Removing(e@),
            ParallelStage::Publishing(p) => ParallelStageModel::Publishing(p@),
            ParallelStage::StatMode => ParallelStageModel::StatMode,
            ParallelStage::SettingMode(m) => ParallelStageModel::SettingMode(m),
            ParallelStage::Renaming => ParallelStageModel::Renaming,
            ParallelStage::Reporting => ParallelStageModel::Reporting,
            ParallelStage::Over(r) => ParallelStageModel::Over(outcome(r)),
        }
    }
}

/// A transfer of `total` bytes over several connections.  Slice writes are
/// not a contiguous prefix, so a part file left behind by a failure would
/// make a later resume append on top of a hole: it is removed, and that
/// resume starts over.
#[derive(Debug)]
pub struct ParallelJob {
    pub job: WorkerJob,
    pub total: u64,
    /// Permission bits of the source.
    pub mode: Option<u32>,
    pub stage: ParallelStage,
}

/// What a parallel transfer holds.
pub struct ParallelRun {
    pub job: JobModel,
    pub total: u64,
    pub mode: Option<u32>,
    pub stage: ParallelStageModel,
}

impl View for ParallelJob {
    type V = ParallelRun;

    open spec fn view(&self) -> ParallelRun {
        ParallelRun { job: self.job@, total: self.total, mode: self.mode, stage: self.stage@ }
    }
}

/// A stage, unless the operation failed.
pub open spec fn or_failed(reply: ReplyModel, next: ParallelStageModel) -> ParallelStageModel {
    match reply.error() {
        Some(e) => ParallelStageModel::Over(Err(ErrorModel::Failed(e))),
        None => next,
    }
}

impl ParallelRun {
    pub open spec fn fresh(job: JobModel, total: u64) -> ParallelRun {
        ParallelRun {
            job,
            total,
            mode: None,
            stage: if job is Download {
                ParallelStageModel::LocalParent
            } else {
                ParallelStageModel::Parents
            },
        }
    }

    pub open spec fn at(self, stage: ParallelStageModel) -> ParallelRun {
        ParallelRun { stage, ..self }
    }

    /// The stage that publishing leads to.
    pub open spec fn published(self, p: PublishModel) -> ParallelStageModel {
        match p.stage {
            PublishStageModel::Over(Ok(())) => ParallelStageModel::Reporting,
            PublishStageModel::Over(Err(e)) => ParallelStageModel::Over(
                Err(ErrorModel::Failed(e)),
            ),
            _ => ParallelStageModel::Publishing(p),
        }
    }

    pub open spec fn action(self) -> ParallelActionModel {
        let job = self.job;
        match self.stage {
            ParallelStageModel::Parents => ParallelActionModel::Do(
                JobActionModel::MakeParents { remote: job.dest() },
            ),
            ParallelStageModel::StatSource => ParallelActionModel::Do(
                JobActionModel::StatLocal { path: job.source() },
            ),
            ParallelStageModel::OpenPart => ParallelActionModel::Do(
                JobActionModel::OpenRemoteWrite {
                    path: job.part(),
                    append: false,
                    mode: open_mode_spec(self.mode),
                },
            ),
            ParallelStageModel::FlushPart => ParallelActionModel::Do(JobActionModel::Flush),
            ParallelStageModel::ClosePart => ParallelActionModel::Do(JobActionModel::Close),
            ParallelStageModel::LocalParent => ParallelActionModel::Do(
                JobActionModel::MakeLocalParent { path: job.part() },
            ),
            ParallelStageModel::Allocating => ParallelActionModel::Allocate {
                path: job.part(),
                len: self.total,
            },
            ParallelStageModel::Started => ParallelActionModel::Do(
                JobActionModel::Progress { bytes: 0, total: self.total },
            ),
            ParallelStageModel::Helping => ParallelActionModel::Helpers,
            ParallelStageModel::Slicing(workers) => ParallelActionModel::Slices { workers },
            ParallelStageModel::Dropping(_) => ParallelActionModel::Invalidate,
            ParallelStageModel::Removing(_) => if job is Download {
                ParallelActionModel::RemoveLocal { path: job.part() }
            } else {
                ParallelActionModel::Do(JobActionModel::RemoveRemote { path: job.part() })
            },
            ParallelStageModel::Publishing(p) => ParallelActionModel::Do(
                match p.action() {
                    PublishActionModel::Rename { from, to } => JobActionModel::RenameRemote {
                        from,
                        to,
                    },
                    PublishActionModel::Remove { path } => JobActionModel::RemoveRemote { path },
                    PublishActionModel::Finish(Ok(())) => JobActionModel::Finish(Ok(())),
                    PublishActionModel::Finish(Err(e)) => JobActionModel::Finish(
                        Err(ErrorModel::Failed(e)),
                    ),
                },
            ),
            ParallelStageModel::StatMode => ParallelActionModel::Do(
                JobActionModel::StatRemote { path: job.source() },
            ),
            ParallelStageModel::SettingMode(mode) => ParallelActionModel::Do(
                JobActionModel::SetLocalMode { path: job.part(), mode },
            ),
            ParallelStageModel::Renaming => ParallelActionModel::Do(
                JobActionModel::RenameLocal { from: job.part(), to: job.dest() },
            ),
            ParallelStageModel::Reporting => ParallelActionModel::Do(
                JobActionModel::Progress { bytes: self.total, total: self.total },
            ),
            ParallelStageModel::Over(r) => ParallelActionModel::Do(JobActionModel::Finish(r)),
        }
    }

    /// The transfer after the reply to its action.
    pub open spec fn after(self, reply: ReplyModel, cancelled: bool) -> ParallelRun {
        match self.stage {
            ParallelStageModel::Parents => self.at(ParallelStageModel::StatSource),
            ParallelStageModel::StatSource => ParallelRun {
                mode: match reply.error() {
                    Some(_) => None,
                    None => reply.stat_spec().mode,
                },
                stage: ParallelStageModel::OpenPart,
                ..self
            },
            ParallelStageModel::OpenPart => self.at(or_failed(reply, ParallelStageModel::FlushPart)),
            ParallelStageModel::FlushPart => self.at(or_failed(reply, ParallelStageModel::ClosePart)),
            ParallelStageModel::ClosePart => self.at(or_failed(reply, ParallelStageModel::Started)),
            ParallelStageModel::LocalParent => self.at(
                or_failed(reply, ParallelStageModel::Allocating),
            ),
            ParallelStageModel::Allocating => self.at(or_failed(reply, ParallelStageModel::Started)),
            ParallelStageModel::Started => self.at(ParallelStageModel::Helping),
            ParallelStageModel::Helping => self.at(
                ParallelStageModel::Slicing(
                    if reply.count() == usize::MAX {
                        usize::MAX
                    } else {
                        (reply.count() + 1) as usize
                    },
                ),
            ),
            ParallelStageModel::Slicing(_) => self.at(
                match reply.error() {
                    Some(e) => ParallelStageModel::Dropping(e),
                    None => if self.job is Download {
                        ParallelStageModel::StatMode
                    } else {
                        ParallelStageModel::Publishing(
                            PublishModel::fresh(self.job.part(), self.job.dest()),
                        )
                    },
                },
            ),
            ParallelStageModel::Dropping(e) => self.at(ParallelStageModel::Removing(e)),
            ParallelStageModel::Removing(e) => self.at(
                ParallelStageModel::Over(
                    Err(
                        if cancelled {
                            ErrorModel::Cancelled
                        } else {
                            ErrorModel::Failed(e)
                        },
                    ),
                ),
            ),
            ParallelStageModel::Publishing(p) => self.at(self.published(p.after(reply.error()))),
            ParallelStageModel::StatMode => self.at(
                match (reply.error(), kept_mode_spec(reply.stat_spec().mode)) {
                    (None, Some(mode)) => ParallelStageModel::SettingMode(mode),
                    _ => ParallelStageModel::Renaming,
                },
            ),
            ParallelStageModel::SettingMode(_) => self.at(ParallelStageModel::Renaming),
            ParallelStageModel::Renaming => self.at(or_failed(reply, ParallelStageModel::Reporting)),
            ParallelStageModel::Reporting => self.at(ParallelStageModel::Over(Ok(()))),
            ParallelStageModel::Over(_) => self,
        }
    }
}

impl ParallelJob {
    pub fn new(job: WorkerJob, total: u64) -> (r: Self)
        ensures
            r@ == ParallelRun::fresh(job@, total),
    {
        let stage = match &job {
            WorkerJob::Download { .. } => ParallelStage::LocalParent,
            _ => ParallelStage::Parents,
        };
        ParallelJob { job, total, mode: None, stage }
    }

    fn is_download(&self) -> (r: bool)
        ensures
            r == (self@.job is Download),
    {
        match &self.job {
            WorkerJob::Download { .. } => true,
            _ => false,
        }
    }

    /// What is to be done next.
    pub fn action(&self) -> (r: ParallelAction)
        ensures
            r@ == self@.action(),
    {
        match &self.stage {
            ParallelStage::Parents => ParallelAction::Do(
                JobAction::MakeParents { remote: self.job.dest() },
            ),
            ParallelStage::StatSource => ParallelAction::Do(
                JobAction::StatLocal { path: self.job.source() },
            ),
            ParallelStage::OpenPart => ParallelAction::Do(
                JobAction::OpenRemoteWrite {
                    path: self.job.part(),
                    append: false,
                    mode: open_mode(self.mode),
                },
            ),
            ParallelStage::FlushPart => ParallelAction::Do(JobAction::Flush),
            ParallelStage::ClosePart => ParallelAction::Do(JobAction::Close),
            ParallelStage::LocalParent => ParallelAction::Do(
                JobAction::MakeLocalParent { path: self.job.part() },
            ),
            ParallelStage::Allocating => ParallelAction::Allocate {
                path: self.job.part(),
                len: self.total,
            },
            ParallelStage::Started => ParallelAction::Do(
                JobAction::Progress { bytes: 0, total: self.total },
            ),
            ParallelStage::Helping => ParallelAction::Helpers,
            ParallelStage::Slicing(workers) => ParallelAction::Slices { workers: *workers },
            ParallelStage::Dropping(_) => ParallelAction::Invalidate,
            ParallelStage::Removing(_) => if self.is_download() {
                ParallelAction::RemoveLocal { path: self.job.part() }
            } else {
                ParallelAction::Do(JobAction::RemoveRemote { path: self.job.part() })
            },
            ParallelStage::Publishing(p) => ParallelAction::Do(
                match p.action() {
                    PublishAction::Rename { from, to } => JobAction::RenameRemote { from, to },
                    PublishAction::Remove { path } => JobAction::RemoveRemote { path },
                    PublishAction::Finish(Ok(())) => JobAction::Finish(Ok(())),
                    PublishAction::Finish(Err(e)) => JobAction::Finish(
                        Err(TransferError::Failed(e)),
                    ),
                },
            ),
            ParallelStage::StatMode => ParallelAction::Do(
                JobAction::StatRemote { path: self.job.source() },
            ),
            ParallelStage::SettingMode(mode) => ParallelAction::Do(
                JobAction::SetLocalMode { path: self.job.part(), mode: *mode },
            ),
            ParallelStage::Renaming => ParallelAction::Do(
                JobAction::RenameLocal { from: self.job.part(), to: self.job.dest() },
            ),
            ParallelStage::Reporting => ParallelAction::Do(
                JobAction::Progress { bytes: self.total, total: self.total },
            ),
            ParallelStage::Over(Ok(())) => ParallelAction::Do(JobAction::Finish(Ok(()))),
            ParallelStage::Over(Err(e)) => ParallelAction::Do(JobAction::Finish(Err(e.clone()))),
        }
    }

    fn or_failed(reply: &Reply, next: ParallelStage) -> (r: ParallelStage)
        ensures
            r@ == or_failed(reply@, next@),
    {
        match reply.failure() {
            Some(e) => ParallelStage::Over(Err(TransferError::Failed(e))),
            None => next,
        }
    }

    /// Take the reply to the action.
    pub fn feed(&mut self, reply: &Reply, cancelled: bool)
        ensures
            final(self)@ == old(self)@.after(reply@, cancelled),
    {
        let mut stage = ParallelStage::Parents;
        core::mem::swap(&mut self.stage, &mut stage);
        let next = match stage {
            ParallelStage::Parents => ParallelStage::StatSource,
            ParallelStage::StatSource => {
                self.mode = match reply.failure() {
                    Some(_) => None,
                    None => reply.stat().mode,
                };
                ParallelStage::OpenPart
            },
            ParallelStage::OpenPart => Self::or_failed(reply, ParallelStage::FlushPart),
            ParallelStage::FlushPart => Self::or_failed(reply, ParallelStage::ClosePart),
            ParallelStage::ClosePart => Self::or_failed(reply, ParallelStage::Started),
            ParallelStage::LocalParent => Self::or_failed(reply, ParallelStage::Allocating),
            ParallelStage::Allocating => Self::or_failed(reply, ParallelStage::Started),
            ParallelStage::Started => ParallelStage::Helping,
            ParallelStage::Helping => {
                let helpers: usize = reply.bytes();
                ParallelStage::Slicing(
                    if helpers == usize::MAX {
                        usize::MAX
                    } else {
                        helpers + 1
                    },
                )
            },
            ParallelStage::Slicing(_) => match reply.failure() {
                Some(e) => ParallelStage::Dropping(e),
                None => if self.is_download() {
                    ParallelStage::StatMode
                } else {
                    ParallelStage::Publishing(Publish::new(self.job.part(), self.job.dest()))
                },
            },
            ParallelStage::Dropping(e) => ParallelStage::Removing(e),
            ParallelStage::Removing(e) => if cancelled {
                ParallelStage::Over(Err(TransferError::Cancelled))
            } else {
                ParallelStage::Over(Err(TransferError::Failed(e)))
            },
            ParallelStage::Publishing(p) => {
                let mut publish = p;
                publish.feed(reply.failure());
                match publish.stage {
                    PublishStage::Over(Ok(())) => ParallelStage::Reporting,
                    PublishStage::Over(Err(e)) => ParallelStage::Over(
                        Err(TransferError::Failed(e)),
                    ),
                    _ => ParallelStage::Publishing(publish),
                }
            },
            ParallelStage::StatMode => match (reply.failure(), kept_mode(reply.stat().mode)) {
                (None, Some(mode)) => ParallelStage::SettingMode(mode),
                _ => ParallelStage::Renaming,
            },
            ParallelStage::SettingMode(_) => ParallelStage::Renaming,
            ParallelStage::Renaming => Self::or_failed(reply, ParallelStage::Reporting),
            ParallelStage::Reporting => ParallelStage::Over(Ok(())),
            ParallelStage::Over(r) => ParallelStage::Over(r),
        };
        self.stage = next;
    }
}

/// The byte ranges of all workers.
pub fn slice_plan(total: u64, workers: usize) -> (r: Vec<(u64, u64)>)
    requires
        workers > 0,
    ensures
        r@.len() == workers,
        forall|i: int|
            0 <= i < workers ==> ((#[trigger] r@[i]).0 as nat, r@[i].1 as nat) == slice_spec(
                total as nat,
                workers as nat,
                i as nat,
            ),
{
    let mut out: Vec<(u64, u64)> = Vec::new();
    let mut i: usize = 0;
    while i < workers
        invariant
            i <= workers,
            out@.len() == i,
            forall|k: int|
                0 <= k < i ==> ((#[trigger] out@[k]).0 as nat, out@[k].1 as nat) == slice_spec(
                    total as nat,
                    workers as nat,
                    k as nat,
                ),
        decreases workers - i,
    {
        out.push(slice_range(total, workers, i));
        i += 1;
    }
    out
}

/// How the thread of one slice ended.
#[derive(Debug)]
pub enum SliceEnd {
    Returned(Result<(), TransferError>),
    Panicked,
}

/// Error of a slice that did not succeed.
pub open spec fn slice_error(end: SliceEnd) -> Option<Seq<char>> {
    match end {
        SliceEnd::Returned(Ok(())) => None,
        SliceEnd::Returned(Err(e)) => Some(e@.text()),
        SliceEnd::Panicked => Some("slice thread panicked"@),
    }
}

/// The first slice of `ends` that did not succeed.
pub open spec fn first_error(ends: Seq<SliceEnd>) -> Option<Seq<char>>
    decreases ends.len(),
{
    if ends.len() == 0 {
        None
    } else if slice_error(ends[0]) is Some {
        slice_error(ends[0])
    } else {
        first_error(ends.skip(1))
    }
}

/// Error of a parallel transfer: of the first slice that could not be
/// started, else of the main slice, else of the first helper slice that
/// failed.
pub open spec fn merged(
    unstarted: Seq<Seq<char>>,
    main: Result<(), ErrorModel>,
    ends: Seq<SliceEnd>,
) -> Option<Seq<char>> {
    if unstarted.len() > 0 {
        Some(unstarted[0])
    } else {
        match main {
            Err(e) => Some(e.text()),
            Ok(()) => first_error(ends),
        }
    }
}

/// Error of a parallel transfer.  A range that was never written must fail
/// the transfer rather than report a complete file with a hole in it.
pub fn merge_slices(
    unstarted: &Vec<String>,
    main: &Result<(), TransferError>,
    ends: &Vec<SliceEnd>,
) -> (r: Option<String>)
    ensures
        crate::paths::opt(r) == merged(crate::text::texts(unstarted@), outcome(*main), ends@),
{
    if unstarted.len() > 0 {
        proof {
            assert(crate::text::texts(unstarted@)[0] == unstarted@[0]@);
        }
        return Some(unstarted[0].clone());
    }
    if let Err(e) = main {
        return Some(e.to_text());
    }
    let mut i: usize = 0;
    proof {
        assert(ends@.skip(0) =~= ends@);
    }
    while i < ends.len()
        invariant
            i <= ends@.len(),
            first_error(ends@) == first_error(ends@.skip(i as int)),
            merged(crate::text::texts(unstarted@), outcome(*main), ends@) == first_error(ends@),
        decreases ends@.len() - i,
    {
        proof {
            assert(ends@.skip(i as int)[0] == ends@[i as int]);
            assert(ends@.skip(i as int).skip(1) =~= ends@.skip(i + 1));
        }
        match &ends[i] {
            SliceEnd::Returned(Ok(())) => {},
            SliceEnd::Returned(Err(e)) => {
                return Some(e.to_text());
            },
            SliceEnd::Panicked => {
                return Some("slice thread panicked".to_owned());
            },
        }
        i += 1;
    }
    None
}

/// Whether the progress ticker of a parallel transfer goes on.  The flag
/// is the exit that always happens: a panicking slice thread never counts
/// as done.
pub fn keep_ticking(stopped: bool, done: u64, workers: u64) -> (r: bool)
    ensures
        r == (!stopped && done < workers),
{
    !stopped && done < workers
}

/// A parallel transfer succeeds only if every slice was started and
/// succeeded.
pub proof fn success_means_every_slice_succeeded(
    unstarted: Seq<Seq<char>>,
    main: Result<(), ErrorModel>,
    ends: Seq<SliceEnd>,
    i: int,
)
    requires
        merged(unstarted, main, ends) is None,
        0 <= i < ends.len(),
    ensures
        unstarted.len() == 0,
        main is Ok,
        ends[i] matches SliceEnd::Returned(r) && r is Ok,
{
    lemma_no_error(ends, i);
}

proof fn lemma_no_error(ends: Seq<SliceEnd>, i: int)
    requires
        first_error(ends) is None,
        0 <= i < ends.len(),
    ensures
        slice_error(ends[i]) is None,
    decreases ends.len(),
{
    if i > 0 {
        lemma_no_error(ends.skip(1), i - 1);
    }
}

/// The file is closed and every slice is in place.
pub open spec fn slices_done(stage: ParallelStageModel) -> bool {
    stage is Publishing || stage is StatMode || stage is SettingMode || stage is Renaming || stage
        is Reporting || stage == ParallelStageModel::Over(Ok(()))
}

/// A parallel transfer touches its destination only after all slices
/// succeeded, and one that failed removes its part before it ends.
pub proof fn failed_slices_leave_no_part(m: ParallelRun, reply: ReplyModel, cancelled: bool)
    requires
        m.stage matches ParallelStageModel::Publishing(p) ==> !(p.stage is Over),
    ensures
        ({
            let q = m.after(reply, cancelled);
            &&& slices_done(q.stage) && !slices_done(m.stage) ==> m.stage is Slicing
                && reply.error() is None
            &&& m.action() matches ParallelActionModel::Do(JobActionModel::RenameRemote { .. })
                ==> slices_done(m.stage)
            &&& m.action() matches ParallelActionModel::Do(JobActionModel::RenameLocal { .. })
                ==> slices_done(m.stage)
            &&& m.stage is Slicing && reply.error() is Some ==> q.stage == (
            ParallelStageModel::Dropping(reply.error()->0))
            &&& m.stage matches ParallelStageModel::Dropping(e) ==> q.action() == (if m.job is Download {
                ParallelActionModel::RemoveLocal { path: m.job.part() }
            } else {
                ParallelActionModel::Do(JobActionModel::RemoveRemote { path: m.job.part() })
            })
            &&& m.stage matches ParallelStageModel::Removing(e) ==> q.stage is Over && q.stage
                != ParallelStageModel::Over(Ok(()))
        }),
{
}

/// The transfer after several replies, each with whether it was cancelled
/// by then.
pub open spec fn ran(m: ParallelRun, replies: Seq<(ReplyModel, bool)>) -> ParallelRun
    decreases replies.len(),
{
    if replies.len() == 0 {
        m
    } else {
        let (reply, cancelled) = replies.last();
        ran(m, replies.drop_last()).after(reply, cancelled)
    }
}

/// Every file that an action of a parallel upload of `local` to `remote`
/// names is one of the two or the part beside `remote`: `local` is only
/// read, and `remote` only ever replaced by the part.
pub open spec fn uploads(local: Seq<char>, remote: Seq<char>, a: ParallelActionModel) -> bool {
    let part = remote_part_spec(remote);
    match a {
        ParallelActionModel::Allocate { .. } => false,
        ParallelActionModel::RemoveLocal { .. } => false,
        ParallelActionModel::Do(JobActionModel::MakeParents { remote: of }) => of == remote,
        ParallelActionModel::Do(JobActionModel::StatLocal { path }) => path == local,
        ParallelActionModel::Do(JobActionModel::OpenRemoteWrite { path, append, .. }) => path
            == part && !append,
        ParallelActionModel::Do(JobActionModel::RenameRemote { from, to }) => replaces(
            part,
            remote,
            from,
            to,
        ),
        ParallelActionModel::Do(JobActionModel::RemoveRemote { path }) => path == part || path
            == remote + ".kaku-old"@,
        ParallelActionModel::Do(JobActionModel::Progress { .. }) => true,
        ParallelActionModel::Do(JobActionModel::Flush) => true,
        ParallelActionModel::Do(JobActionModel::Close) => true,
        ParallelActionModel::Do(JobActionModel::Finish(_)) => true,
        ParallelActionModel::Do(_) => false,
        _ => true,
    }
}

/// Every file that an action of a parallel download of `remote` to `local`
/// names is one of the two or the part beside `local`, and the only rename
/// is that of the part onto `local`.
pub open spec fn downloads(
    remote: Seq<char>,
    local: Seq<char>,
    total: u64,
    a: ParallelActionModel,
) -> bool {
    let part = local_part_spec(local);
    match a {
        ParallelActionModel::Allocate { path, len } => path == part && len == total,
        ParallelActionModel::RemoveLocal { path } => path == part,
        ParallelActionModel::Do(JobActionModel::MakeLocalParent { path }) => path == part,
        ParallelActionModel::Do(JobActionModel::StatRemote { path }) => path == remote,
        ParallelActionModel::Do(JobActionModel::SetLocalMode { path, .. }) => path == part,
        ParallelActionModel::Do(JobActionModel::RenameLocal { from, to }) => from == part && to
            == local,
        ParallelActionModel::Do(JobActionModel::Progress { .. }) => true,
        ParallelActionModel::Do(JobActionModel::Finish(_)) => true,
        ParallelActionModel::Do(_) => false,
        _ => true,
    }
}

/// The stage is one that a transfer of this kind comes to.
spec fn suits(m: ParallelRun) -> bool {
    match m.stage {
        ParallelStageModel::Publishing(p) => match m.job {
            JobModel::Upload { remote, .. } => p.part == remote_part_spec(remote) && p.dest
                == remote,
            _ => false,
        },
        ParallelStageModel::Parents => m.job is Upload,
        ParallelStageModel::StatSource => m.job is Upload,
        ParallelStageModel::OpenPart => m.job is Upload,
        ParallelStageModel::FlushPart => m.job is Upload,
        ParallelStageModel::ClosePart => m.job is Upload,
        ParallelStageModel::LocalParent => m.job is Download,
        ParallelStageModel::Allocating => m.job is Download,
        ParallelStageModel::StatMode => m.job is Download,
        ParallelStageModel::SettingMode(_) => m.job is Download,
        ParallelStageModel::Renaming => m.job is Download,
        _ => true,
    }
}

proof fn lemma_suits(job: JobModel, total: u64, replies: Seq<(ReplyModel, bool)>)
    requires
        !(job is RemoteCopy),
    ensures
        ran(ParallelRun::fresh(job, total), replies).job == job,
        ran(ParallelRun::fresh(job, total), replies).total == total,
        suits(ran(ParallelRun::fresh(job, total), replies)),
    decreases replies.len(),
{
    if replies.len() > 0 {
        lemma_suits(job, total, replies.drop_last());
    }
}

/// Whatever is replied, a parallel upload reads the local file of its job
/// and touches nothing on the server but the remote file of its job, the
/// part beside it and the place where the old file waits.
pub proof fn a_parallel_upload_touches_its_own_files(
    local: Seq<char>,
    remote: Seq<char>,
    resume: bool,
    overwrite: bool,
    total: u64,
    replies: Seq<(ReplyModel, bool)>,
)
    ensures
        uploads(
            local,
            remote,
            ran(
                ParallelRun::fresh(JobModel::Upload { local, remote, resume, overwrite }, total),
                replies,
            ).action(),
        ),
{
    lemma_suits(JobModel::Upload { local, remote, resume, overwrite }, total, replies);
}

/// Whatever is replied, a parallel download renames nothing but the part of
/// the local file of its job, onto that file, and asks only about the
/// remote file of its job.
pub proof fn a_parallel_download_touches_its_own_files(
    remote: Seq<char>,
    local: Seq<char>,
    resume: bool,
    total: u64,
    replies: Seq<(ReplyModel, bool)>,
)
    ensures
        downloads(
            remote,
            local,
            total,
            ran(
                ParallelRun::fresh(JobModel::Download { remote, local, resume }, total),
                replies,
            ).action(),
        ),
{
    lemma_suits(JobModel::Download { remote, local, resume }, total, replies);
}

/// `a` makes the part that the slices are written to.
pub open spec fn makes_part(job: JobModel, total: u64, a: ParallelActionModel) -> bool {
    match (job, a) {
        (
            JobModel::Upload { remote, .. },
            ParallelActionModel::Do(JobActionModel::OpenRemoteWrite { path, append, .. }),
        ) => path == remote_part_spec(remote) && !append,
        (JobModel::Download { local, .. }, ParallelActionModel::Allocate { path, len }) => path
            == local_part_spec(local) && len == total,
        _ => false,
    }
}

/// `a` renames the part onto the destination.
pub open spec fn moves_part(job: JobModel, a: ParallelActionModel) -> bool {
    match job {
        JobModel::Upload { remote, .. } => a == ParallelActionModel::Do(
            JobActionModel::RenameRemote { from: remote_part_spec(remote), to: remote },
        ),
        JobModel::Download { local, .. } => a == ParallelActionModel::Do(
            JobActionModel::RenameLocal { from: local_part_spec(local), to: local },
        ),
        JobModel::RemoteCopy { .. } => false,
    }
}

/// How many of these steps succeeded, in this order: the part was made, the
/// slices were written, the part was renamed onto the destination, and all
/// bytes were reported.
pub open spec fn stations(job: JobModel, total: u64, replies: Seq<(ReplyModel, bool)>) -> int
    decreases replies.len(),
{
    if replies.len() == 0 {
        0
    } else {
        let before = stations(job, total, replies.drop_last());
        let a = ran(ParallelRun::fresh(job, total), replies.drop_last()).action();
        let good = replies.last().0.error() is None;
        if good && before == 0 && makes_part(job, total, a) {
            1
        } else if good && before == 1 && a is Slices {
            2
        } else if good && before == 2 && moves_part(job, a) {
            3
        } else if before == 3 && a == ParallelActionModel::Do(
            JobActionModel::Progress { bytes: total, total },
        ) {
            4
        } else {
            before
        }
    }
}

/// How many of the steps lie behind a stage.
spec fn passed(stage: ParallelStageModel) -> int {
    match stage {
        ParallelStageModel::FlushPart => 1,
        ParallelStageModel::ClosePart => 1,
        ParallelStageModel::Started => 1,
        ParallelStageModel::Helping => 1,
        ParallelStageModel::Slicing(_) => 1,
        ParallelStageModel::Dropping(_) => 1,
        ParallelStageModel::Removing(_) => 1,
        ParallelStageModel::Publishing(p) => if p.stage is DropBackup {
            3
        } else {
            2
        },
        ParallelStageModel::StatMode => 2,
        ParallelStageModel::SettingMode(_) => 2,
        ParallelStageModel::Renaming => 2,
        ParallelStageModel::Reporting => 3,
        ParallelStageModel::Over(Ok(())) => 4,
        _ => 0,
    }
}

proof fn lemma_passed(job: JobModel, total: u64, replies: Seq<(ReplyModel, bool)>)
    requires
        !(job is RemoteCopy),
    ensures
        ({
            let m = ran(ParallelRun::fresh(job, total), replies);
            let k = stations(job, total, replies);
            &&& (m.stage matches ParallelStageModel::Publishing(p) ==> !(p.stage is Over))
            &&& m.stage is Over || k == passed(m.stage) || (m.stage is Publishing && k == 3)
            &&& m.stage == ParallelStageModel::Over(Ok(())) ==> k == 4
        }),
    decreases replies.len(),
{
    lemma_suits(job, total, replies);
    if replies.len() > 0 {
        lemma_passed(job, total, replies.drop_last());
        lemma_suits(job, total, replies.drop_last());
    }
}

/// A parallel transfer that ends well left all bytes at the destination of
/// its job: the part was made, every slice was written into it, it was
/// renamed onto that destination, and none of this failed.
pub proof fn parallel_success_means_in_place(
    job: JobModel,
    total: u64,
    replies: Seq<(ReplyModel, bool)>,
)
    requires
        !(job is RemoteCopy),
        ran(ParallelRun::fresh(job, total), replies).action() == ParallelActionModel::Do(
            JobActionModel::Finish(Ok(())),
        ),
    ensures
        stations(job, total, replies) == 4,
{
    lemma_passed(job, total, replies);
}

/// Slices that failed end the transfer in three steps: the connections are
/// given up, the part of the job is removed, and the error is reported, or
/// the cancellation where there was one.
pub proof fn failed_slices_are_cleaned_up(
    job: JobModel,
    total: u64,
    replies: Seq<(ReplyModel, bool)>,
    e: Seq<char>,
    a: (ReplyModel, bool),
    b: (ReplyModel, bool),
    c: (ReplyModel, bool),
)
    requires
        !(job is RemoteCopy),
        ran(ParallelRun::fresh(job, total), replies).action() is Slices,
        a.0.error() == Some(e),
    ensures
        ({
            let m = ran(ParallelRun::fresh(job, total), replies);
            let first = m.after(a.0, a.1);
            let second = first.after(b.0, b.1);
            let third = second.after(c.0, c.1);
            &&& first.action() is Invalidate
            &&& second.action() == match job {
                JobModel::Download { local, .. } => ParallelActionModel::RemoveLocal {
                    path: local_part_spec(local),
                },
                JobModel::Upload { remote, .. } => ParallelActionModel::Do(
                    JobActionModel::RemoveRemote { path: remote_part_spec(remote) },
                ),
                JobModel::RemoteCopy { .. } => second.action(),
            }
            &&& third.action() == ParallelActionModel::Do(
                JobActionModel::Finish(
                    Err(
                        if c.1 {
                            ErrorModel::Cancelled
                        } else {
                            ErrorModel::Failed(e)
                        },
                    ),
                ),
            )
        }),
{
    lemma_suits(job, total, replies);
}

/// The main connection and every helper that answered write one slice each.
pub proof fn every_helper_gets_a_slice(m: ParallelRun, reply: ReplyModel, cancelled: bool)
    requires
        m.action() is Helpers,
        reply.count() < usize::MAX,
    ensures
        m.after(reply, cancelled).action() == (ParallelActionModel::Slices {
            workers: (reply.count() + 1) as usize,
        }),
{
}

/// A file keeps the permission bits of its source over several connections
/// too: the part on the server is made with those that the local file was
/// told to have, and the local part gets those of the remote file before it
/// is renamed.
pub proof fn parallel_transfers_keep_permissions(m: ParallelRun, reply: ReplyModel, cancelled: bool)
    ensures
        ({
            let q = m.after(reply, cancelled);
            let told = match reply.error() {
                Some(_) => None,
                None => reply.stat_spec().mode,
            };
            &&& m.stage is StatSource ==> match q.action() {
                ParallelActionModel::Do(JobActionModel::OpenRemoteWrite { mode, .. }) => match told {
                    Some(x) => mode == x & 0o777 || (mode == 0o600 && x & 0o777 < 0o600),
                    None => mode == 0o600,
                },
                _ => false,
            }
            &&& m.stage is StatMode ==> match q.action() {
                ParallelActionModel::Do(JobActionModel::SetLocalMode { mode, .. }) => mode != 0
                    && told is Some && mode == told->0 & 0o777,
                ParallelActionModel::Do(JobActionModel::RenameLocal { .. }) => told is None || told->0
                    & 0o777 == 0,
                _ => false,
            }
        }),
{
}

} // verus!

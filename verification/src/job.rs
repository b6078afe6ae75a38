//! One transfer from beginning to end: which operation follows which, and
//! what its outcome means.
//!
//! A transfer writes a part file next to its destination and publishes it
//! only once every byte is in place, so an interrupted or cancelled
//! transfer never leaves a truncated destination behind, and a later
//! resume continues from the part file.

use crate::paths::{local_part, local_part_spec, remote_part, remote_part_spec};
use crate::publish::{Publish, PublishAction, PublishActionModel, PublishModel, PublishStage, PublishStageModel};
use crate::stream::{
    CopyAction, CopyActionModel, CopyModel, CopyStage, CopyStageModel, CopyStream, Reply,
    ReplyModel, Stat, CHUNK_SIZE,
};
use crate::text::cat;
use crate::transfer::{
    outcome, ErrorModel, JobModel, TransferError, WorkerJob, PARALLEL_THRESHOLD,
};
use vstd::prelude::*;
use vstd::string::*;

verus! {

/// What a transfer needs done next.
#[derive(Debug)]
pub enum JobAction {
    StatLocal { path: String },
    StatRemote { path: String },
    /// Note the progress; nothing can fail.
    Progress { bytes: u64, total: u64 },
    /// Create the missing parents of a remote file; failures are ignored.
    MakeParents { remote: String },
    /// Create the directory a local file lands in.
    MakeLocalParent { path: String },
    OpenLocal { path: String },
    OpenRemote { path: String },
    CreateLocal { path: String },
    AppendLocal { path: String },
    /// Open a remote file for writing: at its end, or truncated.
    OpenRemoteWrite { path: String, append: bool, mode: u32 },
    /// Move the reader.
    Seek { offset: u64 },
    Read { max: usize },
    Write { len: usize },
    Flush,
    Close,
    /// Set permission bits; a failure is ignored.
    SetLocalMode { path: String, mode: u32 },
    RenameRemote { from: String, to: String },
    RemoveRemote { path: String },
    RenameLocal { from: String, to: String },
    /// Large enough for several connections.
    Parallel { total: u64 },
    Finish(Result<(), TransferError>),
}

/// The action with its texts as characters.
pub enum JobActionModel {
    StatLocal { path: Seq<char> },
    StatRemote { path: Seq<char> },
    Progress { bytes: u64, total: u64 },
    MakeParents { remote: Seq<char> },
    MakeLocalParent { path: Seq<char> },
    OpenLocal { path: Seq<char> },
    OpenRemote { path: Seq<char> },
    CreateLocal { path: Seq<char> },
    AppendLocal { path: Seq<char> },
    OpenRemoteWrite { path: Seq<char>, append: bool, mode: u32 },
    Seek { offset: u64 },
    Read { max: usize },
    Write { len: usize },
    Flush,
    Close,
    SetLocalMode { path: Seq<char>, mode: u32 },
    RenameRemote { from: Seq<char>, to: Seq<char> },
    RemoveRemote { path: Seq<char> },
    RenameLocal { from: Seq<char>, to: Seq<char> },
    Parallel { total: u64 },
    Finish(Result<(), ErrorModel>),
}

impl View for JobAction {
    type V = JobActionModel;

    open spec fn view(&self) -> JobActionModel {
        match *self {
            JobAction::StatLocal { path } => JobActionModel::StatLocal { path: path@ },
            JobAction::StatRemote { path } => JobActionModel::StatRemote { path: path@ },
            JobAction::Progress { bytes, total } => JobActionModel::Progress { bytes, total },
            JobAction::MakeParents { remote } => JobActionModel::MakeParents { remote: remote@ },
            JobAction::MakeLocalParent { path } => JobActionModel::MakeLocalParent { path: path@ },
            JobAction::OpenLocal { path } => JobActionModel::OpenLocal { path: path@ },
            JobAction::OpenRemote { path } => JobActionModel::OpenRemote { path: path@ },
            JobAction::CreateLocal { path } => JobActionModel::CreateLocal { path: path@ },
            JobAction::AppendLocal { path } => JobActionModel::AppendLocal { path: path@ },
            JobAction::OpenRemoteWrite { path, append, mode } => JobActionModel::OpenRemoteWrite {
                path: path@,
                append,
                mode,
            },
            JobAction::Seek { offset } => JobActionModel::Seek { offset },
            JobAction::Read { max } => JobActionModel::Read { max },
            JobAction::Write { len } => JobActionModel::Write { len },
            JobAction::Flush => JobActionModel::Flush,
            JobAction::Close => JobActionModel::Close,
            JobAction::SetLocalMode { path, mode } => JobActionModel::SetLocalMode {
                path: path@,
                mode,
            },
            JobAction::RenameRemote { from, to } => JobActionModel::RenameRemote {
                from: from@,
                to: to@,
            },
            JobAction::RemoveRemote { path } => JobActionModel::RemoveRemote { path: path@ },
            JobAction::RenameLocal { from, to } => JobActionModel::RenameLocal {
                from: from@,
                to: to@,
            },
            JobAction::Parallel { total } => JobActionModel::Parallel { total },
            JobAction::Finish(r) => JobActionModel::Finish(outcome(r)),
        }
    }
}

/// Where a transfer stands.
#[derive(Debug)]
pub enum JobStage {
    StatSource,
    CheckDest,
    CheckPart,
    Report,
    StatMode,
    Parents,
    LocalParent,
    OpenSource,
    OpenSink,
    Seeking,
    Copying(CopyStream),
    Flushing,
    Closing,
    Publishing(Publish),
    SettingMode,
    Renaming,
    Parallel,
    Over(Result<(), TransferError>),
}

/// The stage with its texts as characters.
pub enum JobStageModel {
    StatSource,
    CheckDest,
    CheckPart,
    Report,
    StatMode,
    Parents,
    LocalParent,
    OpenSource,
    OpenSink,
    Seeking,
    Copying(CopyModel),
    Flushing,
    Closing,
    Publishing(PublishModel),
    SettingMode,
    Renaming,
    Parallel,
    Over(Result<(), ErrorModel>),
}

impl View for JobStage {
    type V = JobStageModel;

    open spec fn view(&self) -> JobStageModel {
        match *self {
            JobStage::StatSource => JobStageModel::StatSource,
            JobStage::CheckDest => JobStageModel::CheckDest,
            JobStage::CheckPart => JobStageModel::CheckPart,
            JobStage::Report => JobStageModel::Report,
            JobStage::StatMode => JobStageModel::StatMode,
            JobStage::Parents => JobStageModel::Parents,
            JobStage::LocalParent => JobStageModel::LocalParent,
            JobStage::OpenSource => JobStageModel::OpenSource,
            JobStage::OpenSink => JobStageModel::OpenSink,
            JobStage::Seeking => JobStageModel::Seeking,
            JobStage::Copying(c) => JobStageModel::Copying(c@),
            JobStage::Flushing => JobStageModel::Flushing,
            JobStage::Closing => JobStageModel::Closing,
            JobStage::Publishing(p) => JobStageModel::Publishing(p@),
            JobStage::SettingMode => JobStageModel::SettingMode,
            JobStage::Renaming => JobStageModel::Renaming,
            JobStage::Parallel => JobStageModel::Parallel,
            JobStage::Over(r) => JobStageModel::Over(outcome(r)),
        }
    }
}

impl JobModel {
    /// The file that is read.
    pub open spec fn source(self) -> Seq<char> {
        match self {
            JobModel::Upload { local, .. } => local,
            JobModel::RemoteCopy { from, .. } => from,
            JobModel::Download { remote, .. } => remote,
        }
    }

    /// The file that is to be in place at the end.
    pub open spec fn dest(self) -> Seq<char> {
        match self {
            JobModel::Upload { remote, .. } => remote,
            JobModel::RemoteCopy { to, .. } => to,
            JobModel::Download { local, .. } => local,
        }
    }

    /// The file that is written until then.
    pub open spec fn part(self) -> Seq<char> {
        match self {
            JobModel::Download { local, .. } => local_part_spec(local),
            _ => remote_part_spec(self.dest()),
        }
    }

    pub open spec fn resumes(self) -> bool {
        match self {
            JobModel::Upload { resume, .. } => resume,
            JobModel::RemoteCopy { .. } => false,
            JobModel::Download { resume, .. } => resume,
        }
    }

    /// The upload must not replace an existing file.
    pub open spec fn keeps_existing(self) -> bool {
        match self {
            JobModel::Upload { overwrite, .. } => !overwrite,
            _ => false,
        }
    }
}

impl WorkerJob {
    /// The file that is read.
    pub fn source(&self) -> (r: String)
        ensures
            r@ == self@.source(),
    {
        match self {
            WorkerJob::Upload { local, .. } => local.clone(),
            WorkerJob::RemoteCopy { from, .. } => from.clone(),
            WorkerJob::Download { remote, .. } => remote.clone(),
        }
    }

    /// The file that is to be in place at the end.
    pub fn dest(&self) -> (r: String)
        ensures
            r@ == self@.dest(),
    {
        match self {
            WorkerJob::Upload { remote, .. } => remote.clone(),
            WorkerJob::RemoteCopy { to, .. } => to.clone(),
            WorkerJob::Download { local, .. } => local.clone(),
        }
    }

    /// The file that is written until then.
    pub fn part(&self) -> (r: String)
        ensures
            r@ == self@.part(),
    {
        match self {
            WorkerJob::Upload { remote, .. } => remote_part(remote.as_str()),
            WorkerJob::RemoteCopy { to, .. } => remote_part(to.as_str()),
            WorkerJob::Download { local, .. } => local_part(local.as_str()),
        }
    }

    pub fn resumes(&self) -> (r: bool)
        ensures
            r == self@.resumes(),
    {
        match self {
            WorkerJob::Upload { resume, .. } => *resume,
            WorkerJob::RemoteCopy { .. } => false,
            WorkerJob::Download { resume, .. } => *resume,
        }
    }

    pub fn keeps_existing(&self) -> (r: bool)
        ensures
            r == self@.keeps_existing(),
    {
        match self {
            WorkerJob::Upload { overwrite, .. } => !*overwrite,
            _ => false,
        }
    }
}

/// Permission bits a remote file is opened with: those of the source, but
/// always writable and readable by its owner.
pub open spec fn open_mode_spec(mode: Option<u32>) -> u32 {
    match mode {
        Some(m) => if m & 0o777 < 0o600 {
            0o600
        } else {
            m & 0o777
        },
        None => 0o600,
    }
}

/// Permission bits a remote file is opened with.
pub fn open_mode(mode: Option<u32>) -> (r: u32)
    ensures
        r == open_mode_spec(mode),
{
    match mode {
        Some(m) => if m & 0o777 < 0o600 {
            0o600
        } else {
            m & 0o777
        },
        None => 0o600,
    }
}

/// Permission bits a downloaded file keeps, if the source has any.
pub open spec fn kept_mode_spec(mode: Option<u32>) -> Option<u32> {
    match mode {
        Some(m) => if m & 0o777 == 0 {
            None
        } else {
            Some(m & 0o777)
        },
        None => None,
    }
}

/// Permission bits a downloaded file keeps, so that downloaded scripts and
/// binaries remain runnable.
pub fn kept_mode(mode: Option<u32>) -> (r: Option<u32>)
    ensures
        r == kept_mode_spec(mode),
{
    match mode {
        Some(m) => if m & 0o777 == 0 {
            None
        } else {
            Some(m & 0o777)
        },
        None => None,
    }
}

/// Bytes of a part file that a resumed transfer continues behind.
pub open spec fn resume_from_spec(size: Option<u64>, total: u64) -> u64 {
    match size {
        Some(s) => if s < total {
            s
        } else {
            0
        },
        None => 0,
    }
}

/// Bytes of a part file that a resumed transfer continues behind.
pub fn resume_from(size: Option<u64>, total: u64) -> (r: u64)
    ensures
        r == resume_from_spec(size, total),
{
    match size {
        Some(s) => if s < total {
            s
        } else {
            0
        },
        None => 0,
    }
}

/// A transfer over one connection.
#[derive(Debug)]
pub struct Job {
    pub job: WorkerJob,
    /// Size of the source.
    pub total: u64,
    /// Permission bits of the source.
    pub mode: Option<u32>,
    /// Bytes that were in place before.
    pub start: u64,
    pub stage: JobStage,
}

/// What a transfer holds.
pub struct JobRun {
    pub job: JobModel,
    pub total: u64,
    pub mode: Option<u32>,
    pub start: u64,
    pub stage: JobStageModel,
}

impl View for Job {
    type V = JobRun;

    open spec fn view(&self) -> JobRun {
        JobRun {
            job: self.job@,
            total: self.total,
            mode: self.mode,
            start: self.start,
            stage: self.stage@,
        }
    }
}

/// A stage, unless the operation failed.
pub open spec fn unless_failed(reply: ReplyModel, next: JobStageModel) -> JobStageModel {
    match reply.error() {
        Some(e) => JobStageModel::Over(Err(ErrorModel::Failed(e))),
        None => next,
    }
}

impl JobRun {
    pub open spec fn fresh(job: JobModel) -> JobRun {
        JobRun { job, total: 0, mode: None, start: 0, stage: JobStageModel::StatSource }
    }

    pub open spec fn at(self, stage: JobStageModel) -> JobRun {
        JobRun { stage, ..self }
    }

    /// Several connections, a resume, or a copy from the beginning.
    pub open spec fn route(self) -> JobStageModel {
        if self.job is RemoteCopy {
            JobStageModel::Report
        } else if self.total >= PARALLEL_THRESHOLD && !self.job.resumes() {
            JobStageModel::Parallel
        } else if self.job.resumes() {
            JobStageModel::CheckPart
        } else {
            JobStageModel::Report
        }
    }

    /// The stage that a copy loop leads to.
    pub open spec fn copied(self, c: CopyModel) -> JobStageModel {
        match c.stage {
            CopyStageModel::Over(Ok(())) => if self.job is Download {
                JobStageModel::Flushing
            } else {
                JobStageModel::Closing
            },
            CopyStageModel::Over(Err(e)) => JobStageModel::Over(Err(e)),
            _ => JobStageModel::Copying(c),
        }
    }

    /// The stage that publishing leads to.
    pub open spec fn published(self, p: PublishModel) -> JobStageModel {
        match p.stage {
            PublishStageModel::Over(Ok(())) => JobStageModel::Over(Ok(())),
            PublishStageModel::Over(Err(e)) => JobStageModel::Over(Err(ErrorModel::Failed(e))),
            _ => JobStageModel::Publishing(p),
        }
    }

    pub open spec fn action(self) -> JobActionModel {
        let job = self.job;
        match self.stage {
            JobStageModel::StatSource => if job is Upload {
                JobActionModel::StatLocal { path: job.source() }
            } else {
                JobActionModel::StatRemote { path: job.source() }
            },
            JobStageModel::CheckDest => JobActionModel::StatRemote { path: job.dest() },
            JobStageModel::CheckPart => if job is Download {
                JobActionModel::StatLocal { path: job.part() }
            } else {
                JobActionModel::StatRemote { path: job.part() }
            },
            JobStageModel::Report => JobActionModel::Progress {
                bytes: self.start,
                total: self.total,
            },
            JobStageModel::StatMode => JobActionModel::StatLocal { path: job.source() },
            JobStageModel::Parents => JobActionModel::MakeParents { remote: job.dest() },
            JobStageModel::LocalParent => JobActionModel::MakeLocalParent { path: job.part() },
            JobStageModel::OpenSource => if job is Upload {
                JobActionModel::OpenLocal { path: job.source() }
            } else {
                JobActionModel::OpenRemote { path: job.source() }
            },
            JobStageModel::OpenSink => if job is Download {
                if self.start > 0 {
                    JobActionModel::AppendLocal { path: job.part() }
                } else {
                    JobActionModel::CreateLocal { path: job.part() }
                }
            } else {
                JobActionModel::OpenRemoteWrite {
                    path: job.part(),
                    append: self.start > 0,
                    mode: if self.start > 0 {
                        0o644
                    } else {
                        open_mode_spec(self.mode)
                    },
                }
            },
            JobStageModel::Seeking => JobActionModel::Seek { offset: self.start },
            JobStageModel::Copying(c) => match c.action() {
                CopyActionModel::Read(max) => JobActionModel::Read { max },
                CopyActionModel::Write(len) => JobActionModel::Write { len },
                CopyActionModel::Report(bytes) => JobActionModel::Progress {
                    bytes,
                    total: self.total,
                },
                CopyActionModel::Finish(r) => JobActionModel::Finish(r),
            },
            JobStageModel::Flushing => JobActionModel::Flush,
            JobStageModel::Closing => JobActionModel::Close,
            JobStageModel::Publishing(p) => match p.action() {
                PublishActionModel::Rename { from, to } => JobActionModel::RenameRemote {
                    from,
                    to,
                },
                PublishActionModel::Remove { path } => JobActionModel::RemoveRemote { path },
                PublishActionModel::Finish(Ok(())) => JobActionModel::Finish(Ok(())),
                PublishActionModel::Finish(Err(e)) => JobActionModel::Finish(
                    Err(ErrorModel::Failed(e)),
                ),
            },
            JobStageModel::SettingMode => JobActionModel::SetLocalMode {
                path: job.part(),
                mode: match kept_mode_spec(self.mode) {
                    Some(m) => m,
                    None => 0,
                },
            },
            JobStageModel::Renaming => JobActionModel::RenameLocal {
                from: job.part(),
                to: job.dest(),
            },
            JobStageModel::Parallel => JobActionModel::Parallel { total: self.total },
            JobStageModel::Over(r) => JobActionModel::Finish(r),
        }
    }

    /// The transfer after the reply to its action.
    pub open spec fn after(self, reply: ReplyModel, cancelled: bool, now: u64) -> JobRun {
        let begin = self.copied(CopyModel::fresh(self.start, cancelled, now));
        match self.stage {
            JobStageModel::StatSource => {
                let stat = reply.stat_spec();
                let m = JobRun {
                    total: match stat.size {
                        Some(n) => n,
                        None => 0,
                    },
                    mode: stat.mode,
                    ..self
                };
                match reply.error() {
                    Some(e) => self.at(JobStageModel::Over(Err(ErrorModel::Failed(e)))),
                    None => if self.job.keeps_existing() {
                        m.at(JobStageModel::CheckDest)
                    } else {
                        m.at(m.route())
                    },
                }
            },
            JobStageModel::CheckDest => match reply.error() {
                Some(_) => self.at(self.route()),
                None => self.at(
                    JobStageModel::Over(Err(ErrorModel::AlreadyExists(self.job.dest()))),
                ),
            },
            JobStageModel::CheckPart => JobRun {
                start: match reply.error() {
                    Some(_) => 0,
                    None => resume_from_spec(reply.stat_spec().size, self.total),
                },
                stage: JobStageModel::Report,
                ..self
            },
            JobStageModel::Report => self.at(
                match self.job {
                    JobModel::Upload { .. } => JobStageModel::StatMode,
                    JobModel::RemoteCopy { .. } => JobStageModel::Parents,
                    JobModel::Download { .. } => JobStageModel::LocalParent,
                },
            ),
            JobStageModel::StatMode => match reply.error() {
                Some(e) => self.at(JobStageModel::Over(Err(ErrorModel::Failed(e)))),
                None => JobRun {
                    mode: reply.stat_spec().mode,
                    stage: JobStageModel::Parents,
                    ..self
                },
            },
            JobStageModel::Parents => self.at(JobStageModel::OpenSource),
            JobStageModel::LocalParent => self.at(unless_failed(reply, JobStageModel::OpenSource)),
            JobStageModel::OpenSource => self.at(
                unless_failed(
                    reply,
                    if self.job is Download && self.start > 0 {
                        JobStageModel::Seeking
                    } else {
                        JobStageModel::OpenSink
                    },
                ),
            ),
            JobStageModel::OpenSink => self.at(
                unless_failed(
                    reply,
                    if self.job is Upload && self.start > 0 {
                        JobStageModel::Seeking
                    } else {
                        begin
                    },
                ),
            ),
            JobStageModel::Seeking => self.at(
                match reply.error() {
                    Some(e) => JobStageModel::Over(Err(ErrorModel::Failed("seek: "@ + e))),
                    None => if self.job is Download {
                        JobStageModel::OpenSink
                    } else {
                        begin
                    },
                },
            ),
            JobStageModel::Copying(c) => self.at(self.copied(c.after(reply, cancelled, now))),
            JobStageModel::Flushing => self.at(unless_failed(reply, JobStageModel::Closing)),
            JobStageModel::Closing => self.at(
                unless_failed(
                    reply,
                    if self.job is Download {
                        if kept_mode_spec(self.mode) is Some {
                            JobStageModel::SettingMode
                        } else {
                            JobStageModel::Renaming
                        }
                    } else {
                        JobStageModel::Publishing(
                            PublishModel::fresh(self.job.part(), self.job.dest()),
                        )
                    },
                ),
            ),
            JobStageModel::Publishing(p) => self.at(self.published(p.after(reply.error()))),
            JobStageModel::SettingMode => self.at(JobStageModel::Renaming),
            JobStageModel::Renaming => self.at(unless_failed(reply, JobStageModel::Over(Ok(())))),
            JobStageModel::Parallel => self,
            JobStageModel::Over(_) => self,
        }
    }
}

impl Job {
    pub fn new(job: WorkerJob) -> (r: Self)
        ensures
            r@ == JobRun::fresh(job@),
    {
        Job { job, total: 0, mode: None, start: 0, stage: JobStage::StatSource }
    }

    fn route(&self) -> (r: JobStage)
        ensures
            r@ == self@.route(),
    {
        match &self.job {
            WorkerJob::RemoteCopy { .. } => JobStage::Report,
            _ => {
                if self.total >= PARALLEL_THRESHOLD && !self.job.resumes() {
                    JobStage::Parallel
                } else if self.job.resumes() {
                    JobStage::CheckPart
                } else {
                    JobStage::Report
                }
            },
        }
    }

    fn is_download(&self) -> (r: bool)
        ensures
            r == (self@.job is Download),
    {
        match &self.job {
            WorkerJob::Download { .. } => true,
            _ => false,
        }
    }

    fn is_upload(&self) -> (r: bool)
        ensures
            r == (self@.job is Upload),
    {
        match &self.job {
            WorkerJob::Upload { .. } => true,
            _ => false,
        }
    }

    fn copied(&self, c: CopyStream) -> (r: JobStage)
        ensures
            r@ == self@.copied(c@),
    {
        match c.stage {
            CopyStage::Over(Ok(())) => if self.is_download() {
                JobStage::Flushing
            } else {
                JobStage::Closing
            },
            CopyStage::Over(Err(e)) => JobStage::Over(Err(e)),
            _ => JobStage::Copying(c),
        }
    }

    fn published(p: Publish) -> (r: JobStage)
        ensures
            forall|m: JobRun| r@ == #[trigger] m.published(p@),
    {
        match p.stage {
            PublishStage::Over(Ok(())) => JobStage::Over(Ok(())),
            PublishStage::Over(Err(e)) => JobStage::Over(Err(TransferError::Failed(e))),
            _ => JobStage::Publishing(p),
        }
    }

    /// What is to be done next.
    pub fn action(&self) -> (r: JobAction)
        ensures
            r@ == self@.action(),
    {
        match &self.stage {
            JobStage::StatSource => if self.is_upload() {
                JobAction::StatLocal { path: self.job.source() }
            } else {
                JobAction::StatRemote { path: self.job.source() }
            },
            JobStage::CheckDest => JobAction::StatRemote { path: self.job.dest() },
            JobStage::CheckPart => if self.is_download() {
                JobAction::StatLocal { path: self.job.part() }
            } else {
                JobAction::StatRemote { path: self.job.part() }
            },
            JobStage::Report => JobAction::Progress { bytes: self.start, total: self.total },
            JobStage::StatMode => JobAction::StatLocal { path: self.job.source() },
            JobStage::Parents => JobAction::MakeParents { remote: self.job.dest() },
            JobStage::LocalParent => JobAction::MakeLocalParent { path: self.job.part() },
            JobStage::OpenSource => if self.is_upload() {
                JobAction::OpenLocal { path: self.job.source() }
            } else {
                JobAction::OpenRemote { path: self.job.source() }
            },
            JobStage::OpenSink => if self.is_download() {
                if self.start > 0 {
                    JobAction::AppendLocal { path: self.job.part() }
                } else {
                    JobAction::CreateLocal { path: self.job.part() }
                }
            } else {
                JobAction::OpenRemoteWrite {
                    path: self.job.part(),
                    append: self.start > 0,
                    mode: if self.start > 0 {
                        0o644
                    } else {
                        open_mode(self.mode)
                    },
                }
            },
            JobStage::Seeking => JobAction::Seek { offset: self.start },
            JobStage::Copying(c) => match c.action() {
                CopyAction::Read(max) => JobAction::Read { max },
                CopyAction::Write(len) => JobAction::Write { len },
                CopyAction::Report(bytes) => JobAction::Progress { bytes, total: self.total },
                CopyAction::Finish(r) => JobAction::Finish(r),
            },
            JobStage::Flushing => JobAction::Flush,
            JobStage::Closing => JobAction::Close,
            JobStage::Publishing(p) => match p.action() {
                PublishAction::Rename { from, to } => JobAction::RenameRemote { from, to },
                PublishAction::Remove { path } => JobAction::RemoveRemote { path },
                PublishAction::Finish(Ok(())) => JobAction::Finish(Ok(())),
                PublishAction::Finish(Err(e)) => JobAction::Finish(Err(TransferError::Failed(e))),
            },
            JobStage::SettingMode => JobAction::SetLocalMode {
                path: self.job.part(),
                mode: match kept_mode(self.mode) {
                    Some(m) => m,
                    None => 0,
                },
            },
            JobStage::Renaming => JobAction::RenameLocal {
                from: self.job.part(),
                to: self.job.dest(),
            },
            JobStage::Parallel => JobAction::Parallel { total: self.total },
            JobStage::Over(Ok(())) => JobAction::Finish(Ok(())),
            JobStage::Over(Err(e)) => JobAction::Finish(Err(e.clone())),
        }
    }

    /// Take the reply to the action.  `cancelled` says whether the transfer
    /// was asked to stop, and `now` is the time in milliseconds, both as
    /// they are when the reply is in.
    pub fn feed(&mut self, reply: &Reply, cancelled: bool, now: u64)
        ensures
            final(self)@ == old(self)@.after(reply@, cancelled, now),
    {
        let mut stage = JobStage::StatSource;
        core::mem::swap(&mut self.stage, &mut stage);
        let next = match stage {
            JobStage::StatSource => match reply.failure() {
                Some(e) => JobStage::Over(Err(TransferError::Failed(e))),
                None => {
                    let stat = reply.stat();
                    self.total = match stat.size {
                        Some(n) => n,
                        None => 0,
                    };
                    self.mode = stat.mode;
                    if self.job.keeps_existing() {
                        JobStage::CheckDest
                    } else {
                        self.route()
                    }
                },
            },
            JobStage::CheckDest => match reply.failure() {
                Some(_) => self.route(),
                None => JobStage::Over(Err(TransferError::AlreadyExists(self.job.dest()))),
            },
            JobStage::CheckPart => {
                self.start = match reply.failure() {
                    Some(_) => 0,
                    None => resume_from(reply.stat().size, self.total),
                };
                JobStage::Report
            },
            JobStage::Report => match &self.job {
                WorkerJob::Upload { .. } => JobStage::StatMode,
                WorkerJob::RemoteCopy { .. } => JobStage::Parents,
                WorkerJob::Download { .. } => JobStage::LocalParent,
            },
            JobStage::StatMode => match reply.failure() {
                Some(e) => JobStage::Over(Err(TransferError::Failed(e))),
                None => {
                    self.mode = reply.stat().mode;
                    JobStage::Parents
                },
            },
            JobStage::Parents => JobStage::OpenSource,
            JobStage::LocalParent => Self::unless_failed(reply, JobStage::OpenSource),
            JobStage::OpenSource => if self.is_download() && self.start > 0 {
                Self::unless_failed(reply, JobStage::Seeking)
            } else {
                Self::unless_failed(reply, JobStage::OpenSink)
            },
            JobStage::OpenSink => if self.is_upload() && self.start > 0 {
                Self::unless_failed(reply, JobStage::Seeking)
            } else {
                let begin = self.copied(CopyStream::new(self.start, cancelled, now));
                Self::unless_failed(reply, begin)
            },
            JobStage::Seeking => match reply.failure() {
                Some(e) => JobStage::Over(Err(TransferError::Failed(cat("seek: ", e.as_str())))),
                None => if self.is_download() {
                    JobStage::OpenSink
                } else {
                    self.copied(CopyStream::new(self.start, cancelled, now))
                },
            },
            JobStage::Copying(c) => {
                let mut copy = c;
                copy.feed(reply, cancelled, now);
                self.copied(copy)
            },
            JobStage::Flushing => Self::unless_failed(reply, JobStage::Closing),
            JobStage::Closing => {
                let next = if self.is_download() {
                    match kept_mode(self.mode) {
                        Some(_) => JobStage::SettingMode,
                        None => JobStage::Renaming,
                    }
                } else {
                    JobStage::Publishing(Publish::new(self.job.part(), self.job.dest()))
                };
                Self::unless_failed(reply, next)
            },
            JobStage::Publishing(p) => {
                let mut publish = p;
                publish.feed(reply.failure());
                Self::published(publish)
            },
            JobStage::SettingMode => JobStage::Renaming,
            JobStage::Renaming => Self::unless_failed(reply, JobStage::Over(Ok(()))),
            JobStage::Parallel => JobStage::Parallel,
            JobStage::Over(r) => JobStage::Over(r),
        };
        self.stage = next;
        proof {
            let m = old(self)@.after(reply@, cancelled, now);
            match old(self)@.stage {
                JobStageModel::Publishing(p) => {
                    assert(self.stage@ == old(self)@.published(p.after(reply@.error())));
                },
                _ => {},
            }
            assert(self@.stage == m.stage);
        }
    }

    fn unless_failed(reply: &Reply, next: JobStage) -> (r: JobStage)
        ensures
            r@ == unless_failed(reply@, next@),
    {
        match reply.failure() {
            Some(e) => JobStage::Over(Err(TransferError::Failed(e))),
            None => next,
        }
    }
}

/// Everything that was read is written.
pub open spec fn past_copy(stage: JobStageModel) -> bool {
    stage is Flushing || stage is Closing || in_place(stage)
}

/// The part is closed and on its way to the destination.
pub open spec fn in_place(stage: JobStageModel) -> bool {
    stage is Publishing || stage is SettingMode || stage is Renaming || stage
        == JobStageModel::Over(Ok(()))
}

/// No finished copy loop and no finished publishing is waited for.
pub open spec fn tidy(m: JobRun) -> bool {
    match m.stage {
        JobStageModel::Copying(c) => !(c.stage is Over),
        JobStageModel::Publishing(p) => !(p.stage is Over),
        _ => true,
    }
}

/// The destination only ever appears complete: until the part is closed
/// without an error no action touches the destination, what is written
/// goes to the part, and the part is closed only once the source was read
/// to its end and every byte was written.
pub proof fn destination_appears_complete(m: JobRun, reply: ReplyModel, cancelled: bool, now: u64)
    requires
        tidy(m),
    ensures
        ({
            let q = m.after(reply, cancelled, now);
            &&& tidy(q)
            &&& past_copy(q.stage) && !past_copy(m.stage) ==> (m.stage matches
                JobStageModel::Copying(c) && c.stage is Reporting)
            &&& in_place(q.stage) && !in_place(m.stage) ==> m.stage is Closing && reply.error()
                is None
            &&& m.action() is RenameRemote || m.action() is RenameLocal || m.action()
                is RemoveRemote || m.action() is SetLocalMode ==> in_place(m.stage)
            &&& m.action() matches JobActionModel::OpenRemoteWrite { path, .. } ==> path
                == m.job.part()
            &&& m.action() matches JobActionModel::CreateLocal { path } ==> path == m.job.part()
            &&& m.action() matches JobActionModel::AppendLocal { path } ==> path == m.job.part()
        }),
{
}

/// The end of the source is the only way to the final report: the copy
/// loop reports its final count only after a read that gave nothing.
pub proof fn copy_ends_at_the_end(c: CopyModel, reply: ReplyModel, cancelled: bool, now: u64)
    requires
        !(c.stage is Reporting),
        c.after(reply, cancelled, now).stage is Reporting,
    ensures
        c.stage is Reading,
        reply.error() is None,
        reply.count() == 0,
{
}

/// An upload that must not replace a file leaves an existing one alone: it
/// ends with the destination's name before it has written anything.
pub proof fn existing_file_is_refused(job: JobModel, stat: Stat, there: ReplyModel, c: bool, now: u64)
    requires
        job.keeps_existing(),
        there.error() is None,
    ensures
        ({
            let a = JobRun::fresh(job);
            let b = a.after(ReplyModel::Stat(stat), c, now);
            &&& a.action() == JobActionModel::StatLocal { path: job.source() }
            &&& b.action() == JobActionModel::StatRemote { path: job.dest() }
            &&& b.after(there, c, now).action() == JobActionModel::Finish(
                Err(ErrorModel::AlreadyExists(job.dest())),
            )
        }),
{
}

/// An upload without leave to replace asks about its destination first, and
/// goes on exactly where there is no such file.  With leave it does not ask.
pub proof fn only_leave_to_replace_replaces(
    local: Seq<char>,
    remote: Seq<char>,
    resume: bool,
    overwrite: bool,
    stat: Stat,
    there: ReplyModel,
    c: bool,
    now: u64,
)
    ensures
        ({
            let a = JobRun::fresh(JobModel::Upload { local, remote, resume, overwrite });
            let b = a.after(ReplyModel::Stat(stat), c, now);
            let d = b.after(there, c, now);
            &&& a.action() == JobActionModel::StatLocal { path: local }
            &&& !overwrite ==> b.action() == JobActionModel::StatRemote { path: remote }
            &&& !overwrite && there.error() is None ==> d.action() == JobActionModel::Finish(
                Err(ErrorModel::AlreadyExists(remote)),
            )
            &&& !overwrite && there.error() is Some ==> !(d.action() is Finish)
            &&& overwrite ==> match b.action() {
                JobActionModel::StatRemote { path } => resume && path == remote_part_spec(remote),
                a => !(a is Finish),
            }
        }),
{
}

/// A resumed transfer continues its part file: it starts behind the bytes
/// that are there, appends, and moves the reader there first.
pub proof fn resume_continues_the_part(m: JobRun, size: u64, mode: Option<u32>, c: bool, now: u64)
    requires
        m.stage is CheckPart,
        0 < size < m.total,
    ensures
        ({
            let r = m.after(ReplyModel::Stat(Stat { size: Some(size), mode }), c, now);
            &&& r.start == size
            &&& r.action() == JobActionModel::Progress { bytes: size, total: m.total }
            &&& r.at(JobStageModel::Seeking).action() == JobActionModel::Seek { offset: size }
            &&& m.job is Download ==> r.at(JobStageModel::OpenSink).action()
                == JobActionModel::AppendLocal { path: m.job.part() }
            &&& m.job is Upload ==> r.at(JobStageModel::OpenSink).action()
                == JobActionModel::OpenRemoteWrite { path: m.job.part(), append: true, mode: 0o644 }
            &&& m.job is Upload ==> r.at(JobStageModel::OpenSink).after(
                ReplyModel::Done,
                c,
                now,
            ).stage is Seeking
            &&& m.job is Download ==> r.at(JobStageModel::OpenSource).after(
                ReplyModel::Done,
                c,
                now,
            ).stage is Seeking
        }),
{
}

/// The transfer after several replies, each with whether it was cancelled
/// by then and with the time.
pub open spec fn went(m: JobRun, replies: Seq<(ReplyModel, bool, u64)>) -> JobRun
    decreases replies.len(),
{
    if replies.len() == 0 {
        m
    } else {
        let (reply, cancelled, now) = replies.last();
        went(m, replies.drop_last()).after(reply, cancelled, now)
    }
}

/// Renaming `from` to `to` puts `part` at `dest`, sets the old `dest` aside
/// or puts it back.
pub open spec fn replaces(part: Seq<char>, dest: Seq<char>, from: Seq<char>, to: Seq<char>) -> bool {
    let aside = dest + ".kaku-old"@;
    (from == part && to == dest) || (from == dest && to == aside) || (from == aside && to == dest)
}

/// Every file that `a` names is one of `job`, in the part that `job` gives
/// it: the source is only read, the destination only ever replaced by the
/// part beside it.
pub open spec fn own_files(job: JobModel, a: JobActionModel) -> bool {
    match job {
        JobModel::Upload { local, remote, .. } => match a {
            JobActionModel::StatLocal { path } => path == local,
            JobActionModel::OpenLocal { path } => path == local,
            JobActionModel::StatRemote { path } => path == remote || path == remote_part_spec(
                remote,
            ),
            JobActionModel::MakeParents { remote: of } => of == remote,
            JobActionModel::OpenRemoteWrite { path, .. } => path == remote_part_spec(remote),
            JobActionModel::RenameRemote { from, to } => replaces(
                remote_part_spec(remote),
                remote,
                from,
                to,
            ),
            JobActionModel::RemoveRemote { path } => path == remote + ".kaku-old"@,
            JobActionModel::OpenRemote { .. } => false,
            JobActionModel::MakeLocalParent { .. } => false,
            JobActionModel::CreateLocal { .. } => false,
            JobActionModel::AppendLocal { .. } => false,
            JobActionModel::SetLocalMode { .. } => false,
            JobActionModel::RenameLocal { .. } => false,
            _ => true,
        },
        JobModel::RemoteCopy { from: old, to: new } => match a {
            JobActionModel::StatRemote { path } => path == old,
            JobActionModel::OpenRemote { path } => path == old,
            JobActionModel::MakeParents { remote: of } => of == new,
            JobActionModel::OpenRemoteWrite { path, .. } => path == remote_part_spec(new),
            JobActionModel::RenameRemote { from, to } => replaces(
                remote_part_spec(new),
                new,
                from,
                to,
            ),
            JobActionModel::RemoveRemote { path } => path == new + ".kaku-old"@,
            JobActionModel::StatLocal { .. } => false,
            JobActionModel::OpenLocal { .. } => false,
            JobActionModel::MakeLocalParent { .. } => false,
            JobActionModel::CreateLocal { .. } => false,
            JobActionModel::AppendLocal { .. } => false,
            JobActionModel::SetLocalMode { .. } => false,
            JobActionModel::RenameLocal { .. } => false,
            _ => true,
        },
        JobModel::Download { remote, local, .. } => match a {
            JobActionModel::StatRemote { path } => path == remote,
            JobActionModel::OpenRemote { path } => path == remote,
            JobActionModel::StatLocal { path } => path == local_part_spec(local),
            JobActionModel::MakeLocalParent { path } => path == local_part_spec(local),
            JobActionModel::CreateLocal { path } => path == local_part_spec(local),
            JobActionModel::AppendLocal { path } => path == local_part_spec(local),
            JobActionModel::SetLocalMode { path, .. } => path == local_part_spec(local),
            JobActionModel::RenameLocal { from, to } => from == local_part_spec(local) && to
                == local,
            JobActionModel::OpenLocal { .. } => false,
            JobActionModel::MakeParents { .. } => false,
            JobActionModel::OpenRemoteWrite { .. } => false,
            JobActionModel::RenameRemote { .. } => false,
            JobActionModel::RemoveRemote { .. } => false,
            _ => true,
        },
    }
}

/// The destination that the job names.
spec fn names_dest(job: JobModel, dest: Seq<char>) -> bool {
    match job {
        JobModel::Upload { remote, .. } => dest == remote,
        JobModel::RemoteCopy { to, .. } => dest == to,
        JobModel::Download { local, .. } => dest == local,
    }
}

/// The stage is one that a transfer of this kind comes to.
spec fn fits(m: JobRun) -> bool {
    match m.stage {
        JobStageModel::CheckDest => m.job is Upload,
        JobStageModel::CheckPart => !(m.job is RemoteCopy),
        JobStageModel::StatMode => m.job is Upload,
        JobStageModel::Parents => !(m.job is Download),
        JobStageModel::LocalParent => m.job is Download,
        JobStageModel::SettingMode => m.job is Download,
        JobStageModel::Renaming => m.job is Download,
        JobStageModel::Publishing(p) => !(m.job is Download) && names_dest(m.job, p.dest) && p.part
            == remote_part_spec(p.dest),
        _ => true,
    }
}

proof fn lemma_fits(job: JobModel, replies: Seq<(ReplyModel, bool, u64)>)
    ensures
        went(JobRun::fresh(job), replies).job == job,
        fits(went(JobRun::fresh(job), replies)),
    decreases replies.len(),
{
    if replies.len() > 0 {
        lemma_fits(job, replies.drop_last());
    }
}

/// Whatever is replied, a transfer only ever touches the files of its job:
/// an upload reads the local file that it was given, a download or a copy
/// reads the remote one, what is written is the part beside the
/// destination, and nothing but that part is renamed onto the destination.
pub proof fn a_transfer_touches_its_own_files(
    job: JobModel,
    replies: Seq<(ReplyModel, bool, u64)>,
)
    ensures
        own_files(job, went(JobRun::fresh(job), replies).action()),
{
    lemma_fits(job, replies);
    let m = went(JobRun::fresh(job), replies);
    assert(m.job == job && fits(m));
}

/// `a` opens the file that is to be read.
pub open spec fn opens_source(job: JobModel, a: JobActionModel) -> bool {
    match job {
        JobModel::Upload { local, .. } => a == JobActionModel::OpenLocal { path: local },
        JobModel::RemoteCopy { from, .. } => a == JobActionModel::OpenRemote { path: from },
        JobModel::Download { remote, .. } => a == JobActionModel::OpenRemote { path: remote },
    }
}

/// `a` opens the part beside the destination for writing.
pub open spec fn opens_part(job: JobModel, a: JobActionModel) -> bool {
    match (job, a) {
        (JobModel::Upload { remote, .. }, JobActionModel::OpenRemoteWrite { path, .. }) => path
            == remote_part_spec(remote),
        (JobModel::RemoteCopy { to, .. }, JobActionModel::OpenRemoteWrite { path, .. }) => path
            == remote_part_spec(to),
        (JobModel::Download { local, .. }, JobActionModel::CreateLocal { path }) => path
            == local_part_spec(local),
        (JobModel::Download { local, .. }, JobActionModel::AppendLocal { path }) => path
            == local_part_spec(local),
        _ => false,
    }
}

/// `a` renames the part onto the destination.
pub open spec fn puts_in_place(job: JobModel, a: JobActionModel) -> bool {
    match job {
        JobModel::Upload { remote, .. } => a == (JobActionModel::RenameRemote {
            from: remote_part_spec(remote),
            to: remote,
        }),
        JobModel::RemoteCopy { to, .. } => a == (JobActionModel::RenameRemote {
            from: remote_part_spec(to),
            to,
        }),
        JobModel::Download { local, .. } => a == (JobActionModel::RenameLocal {
            from: local_part_spec(local),
            to: local,
        }),
    }
}

/// How many of these steps succeeded, in this order: the source opened, the
/// part opened, its bytes flushed where the part is local, the part closed,
/// the part renamed onto the destination.
pub open spec fn milestones(job: JobModel, replies: Seq<(ReplyModel, bool, u64)>) -> int
    decreases replies.len(),
{
    if replies.len() == 0 {
        0
    } else {
        let before = milestones(job, replies.drop_last());
        let a = went(JobRun::fresh(job), replies.drop_last()).action();
        let good = replies.last().0.error() is None;
        if good && before == 0 && opens_source(job, a) {
            1
        } else if good && before == 1 && opens_part(job, a) {
            2
        } else if good && before == 2 && job is Download && a is Flush {
            3
        } else if good && (before == 3 || (before == 2 && !(job is Download))) && a is Close {
            4
        } else if good && before == 4 && puts_in_place(job, a) {
            5
        } else {
            before
        }
    }
}

/// How many of the steps lie behind a stage.
spec fn behind(job: JobModel, stage: JobStageModel) -> int {
    match stage {
        JobStageModel::OpenSink => 1,
        JobStageModel::Seeking => if job is Download {
            1
        } else {
            2
        },
        JobStageModel::Copying(_) => 2,
        JobStageModel::Flushing => 2,
        JobStageModel::Closing => if job is Download {
            3
        } else {
            2
        },
        JobStageModel::SettingMode => 4,
        JobStageModel::Renaming => 4,
        JobStageModel::Publishing(p) => if p.stage is DropBackup {
            5
        } else {
            4
        },
        JobStageModel::Over(Ok(())) => 5,
        _ => 0,
    }
}

proof fn lemma_behind(job: JobModel, replies: Seq<(ReplyModel, bool, u64)>)
    ensures
        ({
            let m = went(JobRun::fresh(job), replies);
            let k = milestones(job, replies);
            &&& tidy(m)
            &&& m.stage is Flushing ==> job is Download
            &&& m.stage is Over || k == behind(job, m.stage) || (m.stage is Publishing && k == 5)
            &&& m.stage == JobStageModel::Over(Ok(())) ==> k == 5
        }),
    decreases replies.len(),
{
    lemma_fits(job, replies);
    if replies.len() > 0 {
        let before = replies.drop_last();
        lemma_behind(job, before);
        lemma_fits(job, before);
    }
}

/// A transfer that ends well put the file in place: the source that the job
/// names was opened, then the part, the part was flushed and closed, and
/// then renamed onto the destination that the job names, and none of these
/// failed.
pub proof fn success_means_in_place(job: JobModel, replies: Seq<(ReplyModel, bool, u64)>)
    requires
        went(JobRun::fresh(job), replies).action() == JobActionModel::Finish(Ok(())),
    ensures
        milestones(job, replies) == 5,
{
    lemma_behind(job, replies);
}

/// An operation that a transfer cannot do without.
pub open spec fn needed(a: JobActionModel) -> bool {
    match a {
        JobActionModel::MakeLocalParent { .. } => true,
        JobActionModel::OpenLocal { .. } => true,
        JobActionModel::OpenRemote { .. } => true,
        JobActionModel::CreateLocal { .. } => true,
        JobActionModel::AppendLocal { .. } => true,
        JobActionModel::OpenRemoteWrite { .. } => true,
        JobActionModel::Seek { .. } => true,
        JobActionModel::Flush => true,
        JobActionModel::Close => true,
        JobActionModel::RenameLocal { .. } => true,
        _ => false,
    }
}

/// An error of an operation that a transfer cannot do without ends it with
/// that error.  Missing parents and permission bits that cannot be set end
/// nothing.
pub proof fn a_failed_step_ends_the_transfer(
    m: JobRun,
    reply: ReplyModel,
    e: Seq<char>,
    cancelled: bool,
    now: u64,
)
    requires
        reply.error() == Some(e),
    ensures
        ({
            let q = m.after(reply, cancelled, now);
            &&& needed(m.action()) ==> q.action() == JobActionModel::Finish(
                Err(
                    ErrorModel::Failed(
                        if m.action() is Seek {
                            "seek: "@ + e
                        } else {
                            e
                        },
                    ),
                ),
            )
            &&& m.action() is MakeParents || m.action() is SetLocalMode ==> !(q.action() is Finish)
        }),
{
}

/// What a transfer knows of its source and its part it knows from being
/// told: the size and the permission bits of the source, and the size of a
/// part that is shorter than the source.  Without a resume it starts at the
/// beginning.
pub proof fn sizes_are_what_was_told(job: JobModel, replies: Seq<(ReplyModel, bool, u64)>, next: (
    ReplyModel,
    bool,
    u64,
))
    ensures
        ({
            let m = went(JobRun::fresh(job), replies);
            let (reply, cancelled, now) = next;
            let q = m.after(reply, cancelled, now);
            let stat = reply.stat_spec();
            &&& q.total != m.total ==> replies.len() == 0 && reply.error() is None && stat.size
                == Some(q.total)
            &&& q.mode != m.mode ==> reply.error() is None && stat.mode == q.mode && match job {
                JobModel::Upload { local, .. } => m.action() == (JobActionModel::StatLocal {
                    path: local,
                }),
                JobModel::RemoteCopy { from, .. } => m.action() == (JobActionModel::StatRemote {
                    path: from,
                }),
                JobModel::Download { remote, .. } => m.action() == (JobActionModel::StatRemote {
                    path: remote,
                }),
            }
            &&& q.start != m.start ==> reply.error() is None && stat.size == Some(q.start)
                && q.start < m.total && match job {
                JobModel::Upload { remote, resume, .. } => resume && m.action() == (
                JobActionModel::StatRemote { path: remote_part_spec(remote) }),
                JobModel::RemoteCopy { .. } => false,
                JobModel::Download { local, resume, .. } => resume && m.action() == (
                JobActionModel::StatLocal { path: local_part_spec(local) }),
            }
        }),
{
    lemma_fits(job, replies);
    lemma_untold(job, replies);
}

/// Before it is told anything, a transfer knows nothing; the source is asked
/// about only at the beginning.
proof fn lemma_untold(job: JobModel, replies: Seq<(ReplyModel, bool, u64)>)
    ensures
        ({
            let m = went(JobRun::fresh(job), replies);
            &&& m.stage is StatSource ==> replies.len() == 0
            &&& m.stage is StatSource || m.stage is CheckDest || m.stage is CheckPart ==> m.start
                == 0
            &&& m.stage is CheckPart ==> match job {
                JobModel::Upload { resume, .. } => resume,
                JobModel::RemoteCopy { .. } => false,
                JobModel::Download { resume, .. } => resume,
            }
        }),
    decreases replies.len(),
{
    if replies.len() > 0 {
        lemma_untold(job, replies.drop_last());
        lemma_fits(job, replies.drop_last());
    }
}

/// A part that is opened to be appended to holds `start` bytes already, and
/// a part that is opened anew holds none: the copy begins there, with the
/// source read from there on.
pub proof fn a_copy_begins_where_the_part_ends(
    m: JobRun,
    reply: ReplyModel,
    cancelled: bool,
    now: u64,
)
    requires
        reply.error() is None,
    ensures
        ({
            let q = m.after(reply, cancelled, now);
            &&& m.action() is AppendLocal ==> m.start > 0
            &&& m.action() is CreateLocal ==> m.start == 0
            &&& m.action() matches JobActionModel::OpenRemoteWrite { append, .. } ==> (append
                <==> m.start > 0)
            &&& m.action() matches JobActionModel::Seek { offset } ==> offset == m.start
            &&& m.job is Download && m.action() is OpenRemote && m.start > 0 ==> q.action() is Seek
            &&& m.job is Upload && m.action() is OpenRemoteWrite && m.start > 0 ==> q.action()
                is Seek
            &&& q.stage is Copying && !(m.stage is Copying) ==> q.stage->Copying_0.done == m.start
        }),
{
}

/// A file keeps the permission bits of its source: a part on the server is
/// opened with them, but always for its owner to read and write, and a
/// local part gets them before it is renamed, unless there are none.
pub proof fn permissions_are_kept(m: JobRun, reply: ReplyModel, cancelled: bool, now: u64)
    ensures
        m.action() matches JobActionModel::OpenRemoteWrite { append, mode, .. } ==> append || (match m.mode {
            Some(x) => mode == x & 0o777 || (mode == 0o600 && x & 0o777 < 0o600),
            None => mode == 0o600,
        }),
        m.job is Download && m.action() is Close && reply.error() is None ==> match m.job {
            JobModel::Download { local, .. } => m.after(reply, cancelled, now).action() == (
            match m.mode {
                Some(x) if x & 0o777 != 0 => JobActionModel::SetLocalMode {
                    path: local_part_spec(local),
                    mode: x & 0o777,
                },
                _ => JobActionModel::RenameLocal { from: local_part_spec(local), to: local },
            }),
            _ => true,
        },
{
}

/// Only a large file that starts at the beginning goes over several
/// connections, and such a file always does; a copy on the server never.
pub proof fn large_files_go_parallel(m: JobRun, reply: ReplyModel, cancelled: bool, now: u64)
    requires
        m.stage is StatSource || m.stage is CheckDest,
        m.job is RemoteCopy ==> m.stage is StatSource,
        !(m.after(reply, cancelled, now).action() is Finish),
        m.after(reply, cancelled, now).stage !is CheckDest,
    ensures
        ({
            let q = m.after(reply, cancelled, now);
            q.action() is Parallel <==> q.total >= PARALLEL_THRESHOLD && match m.job {
                JobModel::Upload { resume, .. } => !resume,
                JobModel::RemoteCopy { .. } => false,
                JobModel::Download { resume, .. } => !resume,
            }
        }),
        m.after(reply, cancelled, now).action() matches JobActionModel::Parallel { total } ==> total
            == m.after(reply, cancelled, now).total,
{
}

/// An action that costs a round trip to the server.  Parents that are
/// known to exist cost none.
pub open spec fn on_wire(job: JobModel, a: JobActionModel) -> bool {
    match a {
        JobActionModel::StatRemote { .. } => true,
        JobActionModel::OpenRemote { .. } => true,
        JobActionModel::OpenRemoteWrite { .. } => true,
        JobActionModel::RenameRemote { .. } => true,
        JobActionModel::RemoveRemote { .. } => true,
        JobActionModel::Read { .. } => !(job is Upload),
        JobActionModel::Write { .. } => !(job is Download),
        JobActionModel::Flush => !(job is Download),
        JobActionModel::Close => !(job is Download),
        _ => false,
    }
}

/// Reply of an operation that goes well, with `left` bytes to be read of a
/// file of `size` bytes.
pub open spec fn smooth(a: JobActionModel, size: u64, left: u64) -> ReplyModel {
    match a {
        JobActionModel::StatLocal { .. } => ReplyModel::Stat(
            Stat { size: Some(size), mode: Some(0o644) },
        ),
        JobActionModel::StatRemote { .. } => ReplyModel::Stat(
            Stat { size: Some(size), mode: Some(0o644) },
        ),
        JobActionModel::Read { max } => ReplyModel::Bytes(
            if left < max {
                left as usize
            } else {
                max
            },
        ),
        _ => ReplyModel::Done,
    }
}

/// The round trips of a transfer in which everything goes well, as far as
/// `steps` steps lead.
pub open spec fn wire(m: JobRun, size: u64, left: u64, steps: nat) -> Seq<JobActionModel>
    decreases steps,
{
    let a = m.action();
    let reply = smooth(a, size, left);
    if steps == 0 || a is Finish {
        Seq::empty()
    } else {
        let rest = wire(
            m.after(reply, false, 0),
            size,
            (left - reply.count()) as u64,
            (steps - 1) as nat,
        );
        if on_wire(m.job, a) {
            seq![a] + rest
        } else {
            rest
        }
    }
}

proof fn lemma_wire_step(m: JobRun, size: u64, left: u64, steps: nat)
    requires
        steps > 0,
        !(m.action() is Finish),
    ensures
        ({
            let reply = smooth(m.action(), size, left);
            let rest = wire(
                m.after(reply, false, 0),
                size,
                (left - reply.count()) as u64,
                (steps - 1) as nat,
            );
            wire(m, size, left, steps) == if on_wire(m.job, m.action()) {
                seq![m.action()] + rest
            } else {
                rest
            }
        }),
{
}

/// One small file costs four round trips: OPEN, WRITE, CLOSE and the
/// publishing RENAME.  Every request is one round trip, so a request more
/// per file is what makes a folder of small files slow over a link with
/// any latency.
pub proof fn small_upload_takes_four_round_trips(
    local: Seq<char>,
    remote: Seq<char>,
    size: u64,
    steps: nat,
)
    requires
        0 < size <= CHUNK_SIZE,
        steps >= 13,
    ensures
        ({
            let job = JobModel::Upload { local, remote, resume: false, overwrite: true };
            wire(JobRun::fresh(job), size, size, steps) == seq![
                JobActionModel::OpenRemoteWrite {
                    path: remote_part_spec(remote),
                    append: false,
                    mode: open_mode_spec(Some(0o644)),
                },
                JobActionModel::Write { len: size as usize },
                JobActionModel::Close,
                JobActionModel::RenameRemote { from: remote_part_spec(remote), to: remote },
            ]
        }),
{
    let job = JobModel::Upload { local, remote, resume: false, overwrite: true };
    let m = JobRun { total: size, mode: Some(0o644), ..JobRun::fresh(job) };
    let c = CopyModel { done: 0, last_emit: 0, stage: CopyStageModel::Reading };
    let d = CopyModel { done: size, ..c };
    let w = JobActionModel::Write { len: size as usize };
    let p = PublishModel::fresh(job.part(), remote);
    lemma_wire_step(JobRun::fresh(job), size, size, steps);
    lemma_wire_step(m.at(JobStageModel::Report), size, size, (steps - 1) as nat);
    lemma_wire_step(m.at(JobStageModel::StatMode), size, size, (steps - 2) as nat);
    lemma_wire_step(m.at(JobStageModel::Parents), size, size, (steps - 3) as nat);
    lemma_wire_step(m.at(JobStageModel::OpenSource), size, size, (steps - 4) as nat);
    lemma_wire_step(m.at(JobStageModel::OpenSink), size, size, (steps - 5) as nat);
    lemma_wire_step(m.at(JobStageModel::Copying(c)), size, size, (steps - 6) as nat);
    lemma_wire_step(
        m.at(
            JobStageModel::Copying(
                CopyModel { stage: CopyStageModel::Writing(size as usize), ..c },
            ),
        ),
        size,
        0,
        (steps - 7) as nat,
    );
    lemma_wire_step(m.at(JobStageModel::Copying(d)), size, 0, (steps - 8) as nat);
    lemma_wire_step(
        m.at(JobStageModel::Copying(CopyModel { stage: CopyStageModel::Reporting, ..d })),
        size,
        0,
        (steps - 9) as nat,
    );
    lemma_wire_step(m.at(JobStageModel::Closing), size, 0, (steps - 10) as nat);
    lemma_wire_step(m.at(JobStageModel::Publishing(p)), size, 0, (steps - 11) as nat);
    let end = wire(m.at(JobStageModel::Over(Ok(()))), size, 0, (steps - 12) as nat);
    assert(end =~= Seq::<JobActionModel>::empty());
    let rename = JobActionModel::RenameRemote { from: remote_part_spec(remote), to: remote };
    assert(wire(m.at(JobStageModel::Publishing(p)), size, 0, (steps - 11) as nat) == seq![rename]
        + end);
    assert(wire(m.at(JobStageModel::Closing), size, 0, (steps - 10) as nat)
        =~= seq![JobActionModel::Close, rename]);
    assert(wire(m.at(JobStageModel::Copying(d)), size, 0, (steps - 8) as nat)
        =~= seq![JobActionModel::Close, rename]);
    assert(wire(m.at(JobStageModel::Copying(c)), size, size, (steps - 6) as nat)
        =~= seq![w, JobActionModel::Close, rename]);
    assert(wire(m.at(JobStageModel::OpenSink), size, size, (steps - 5) as nat)
        == wire(JobRun::fresh(job), size, size, steps));
}

} // verus!

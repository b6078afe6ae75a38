//! Single-shot copies beside the transfer queue: fetching a remote file for
//! a preview, and writing an edited preview back.

use crate::edit_sync::RemoteStamp;
use crate::job::{kept_mode, kept_mode_spec, replaces, JobAction, JobActionModel};
use crate::paths::{local_part, local_part_spec, remote_part, remote_part_spec};
use crate::publish::{
    Publish, PublishAction, PublishActionModel, PublishModel, PublishStage, PublishStageModel,
};
use crate::stream::{
    CopyAction, CopyActionModel, CopyModel, CopyStage, CopyStageModel, CopyStream, Reply,
    ReplyModel,
};
use vstd::prelude::*;
use vstd::string::*;

verus! {

/// What one stage of a copy asks for.
pub open spec fn copy_request(c: CopyModel) -> JobActionModel {
    match c.action() {
        CopyActionModel::Read(max) => JobActionModel::Read { max },
        CopyActionModel::Write(len) => JobActionModel::Write { len },
        CopyActionModel::Report(bytes) => JobActionModel::Progress { bytes, total: bytes },
        CopyActionModel::Finish(_) => JobActionModel::Flush,
    }
}

fn request_copy(c: &CopyStream) -> (r: JobAction)
    ensures
        r@ == copy_request(c@),
{
    match c.action() {
        CopyAction::Read(max) => JobAction::Read { max },
        CopyAction::Write(len) => JobAction::Write { len },
        CopyAction::Report(bytes) => JobAction::Progress { bytes, total: bytes },
        CopyAction::Finish(_) => JobAction::Flush,
    }
}

/// Where fetching a preview stands.
#[derive(Debug)]
pub enum PreviewStage {
    OpenSource,
    CreatePart,
    Copying(CopyStream),
    Flush,
    Close,
    Rename,
    Stamp,
    Over(Result<(u64, Option<RemoteStamp>), String>),
}

/// The stage with its texts as characters.
pub enum PreviewStageModel {
    OpenSource,
    CreatePart,
    Copying(CopyModel),
    Flush,
    Close,
    Rename,
    Stamp,
    Over(Result<(u64, Option<RemoteStamp>), Seq<char>>),
}

/// A fetched preview or an error, with the error as characters.
pub open spec fn fetched(r: Result<(u64, Option<RemoteStamp>), String>) -> Result<
    (u64, Option<RemoteStamp>),
    Seq<char>,
> {
    match r {
        Ok(v) => Ok(v),
        Err(e) => Err(e@),
    }
}

impl View for PreviewStage {
    type V = PreviewStageModel;

    open spec fn view(&self) -> PreviewStageModel {
        match *self {
            PreviewStage::OpenSource => PreviewStageModel::OpenSource,
            PreviewStage::CreatePart => PreviewStageModel::CreatePart,
            PreviewStage::Copying(c) => PreviewStageModel::Copying(c@),
            PreviewStage::Flush => PreviewStageModel::Flush,
            PreviewStage::Close => PreviewStageModel::Close,
            PreviewStage::Rename => PreviewStageModel::Rename,
            PreviewStage::Stamp => PreviewStageModel::Stamp,
            PreviewStage::Over(r) => PreviewStageModel::Over(fetched(r)),
        }
    }
}

/// Fetches a remote file for a preview: into a part file, which becomes the
/// preview only once every byte is there. Opening a remote file is a
/// transfer like any other, in the same packets.
#[derive(Debug)]
pub struct Preview {
    pub source: String,
    pub dest: String,
    /// Bytes in place.
    pub written: u64,
    pub stage: PreviewStage,
}

/// A preview, with its texts as characters.
pub struct PreviewModel {
    pub source: Seq<char>,
    pub dest: Seq<char>,
    pub written: u64,
    pub stage: PreviewStageModel,
}

impl View for Preview {
    type V = PreviewModel;

    open spec fn view(&self) -> PreviewModel {
        PreviewModel {
            source: self.source@,
            dest: self.dest@,
            written: self.written,
            stage: self.stage@,
        }
    }
}

/// A stage of the preview, unless the operation failed.
pub open spec fn preview_unless(reply: ReplyModel, next: PreviewStageModel) -> PreviewStageModel {
    match reply.error() {
        Some(e) => PreviewStageModel::Over(Err(e)),
        None => next,
    }
}

impl PreviewModel {
    pub open spec fn fresh(source: Seq<char>, dest: Seq<char>) -> PreviewModel {
        PreviewModel { source, dest, written: 0, stage: PreviewStageModel::OpenSource }
    }

    pub open spec fn action(self) -> Option<JobActionModel> {
        match self.stage {
            PreviewStageModel::OpenSource => Some(
                JobActionModel::OpenRemote { path: self.source },
            ),
            PreviewStageModel::CreatePart => Some(
                JobActionModel::CreateLocal { path: local_part_spec(self.dest) },
            ),
            PreviewStageModel::Copying(c) => Some(copy_request(c)),
            PreviewStageModel::Flush => Some(JobActionModel::Flush),
            PreviewStageModel::Close => Some(JobActionModel::Close),
            PreviewStageModel::Rename => Some(
                JobActionModel::RenameLocal { from: local_part_spec(self.dest), to: self.dest },
            ),
            PreviewStageModel::Stamp => Some(JobActionModel::StatRemote { path: self.source }),
            PreviewStageModel::Over(_) => None,
        }
    }

    /// The copy went on: nothing cancels it.
    pub open spec fn copied(self, c: CopyModel) -> PreviewModel {
        match c.stage {
            CopyStageModel::Over(Ok(())) => PreviewModel {
                written: c.done,
                stage: PreviewStageModel::Flush,
                ..self
            },
            CopyStageModel::Over(Err(e)) => PreviewModel {
                stage: PreviewStageModel::Over(Err(e.text())),
                ..self
            },
            _ => PreviewModel { stage: PreviewStageModel::Copying(c), ..self },
        }
    }

    /// The preview after the reply to its action, at `now` milliseconds.
    /// `stamp` is what the server knows of the file, where it was asked.
    pub open spec fn after(
        self,
        reply: ReplyModel,
        stamp: Option<RemoteStamp>,
        now: u64,
    ) -> PreviewModel {
        match self.stage {
            PreviewStageModel::OpenSource => PreviewModel {
                stage: preview_unless(reply, PreviewStageModel::CreatePart),
                ..self
            },
            PreviewStageModel::CreatePart => PreviewModel {
                stage: preview_unless(
                    reply,
                    PreviewStageModel::Copying(CopyModel::fresh(0, false, now)),
                ),
                ..self
            },
            PreviewStageModel::Copying(c) => self.copied(c.after(reply, false, now)),
            PreviewStageModel::Flush => PreviewModel {
                stage: preview_unless(reply, PreviewStageModel::Close),
                ..self
            },
            PreviewStageModel::Close => PreviewModel {
                stage: preview_unless(reply, PreviewStageModel::Rename),
                ..self
            },
            PreviewStageModel::Rename => PreviewModel {
                stage: preview_unless(reply, PreviewStageModel::Stamp),
                ..self
            },
            PreviewStageModel::Stamp => PreviewModel {
                stage: PreviewStageModel::Over(Ok((self.written, stamp))),
                ..self
            },
            PreviewStageModel::Over(_) => self,
        }
    }
}

impl Preview {
    pub fn new(source: String, dest: String) -> (r: Self)
        ensures
            r@ == PreviewModel::fresh(source@, dest@),
    {
        Preview { source, dest, written: 0, stage: PreviewStage::OpenSource }
    }

    /// What is to be done next, if the preview is not over.
    pub fn action(&self) -> (r: Option<JobAction>)
        ensures
            match (r, self@.action()) {
                (Some(a), Some(b)) => a@ == b,
                (None, None) => true,
                _ => false,
            },
    {
        match &self.stage {
            PreviewStage::OpenSource => Some(JobAction::OpenRemote { path: self.source.clone() }),
            PreviewStage::CreatePart => Some(
                JobAction::CreateLocal { path: local_part(self.dest.as_str()) },
            ),
            PreviewStage::Copying(c) => Some(request_copy(c)),
            PreviewStage::Flush => Some(JobAction::Flush),
            PreviewStage::Close => Some(JobAction::Close),
            PreviewStage::Rename => Some(
                JobAction::RenameLocal {
                    from: local_part(self.dest.as_str()),
                    to: self.dest.clone(),
                },
            ),
            PreviewStage::Stamp => Some(JobAction::StatRemote { path: self.source.clone() }),
            PreviewStage::Over(_) => None,
        }
    }

    fn unless(reply: &Reply, next: PreviewStage) -> (r: PreviewStage)
        ensures
            r@ == preview_unless(reply@, next@),
    {
        match reply.failure() {
            Some(e) => PreviewStage::Over(Err(e)),
            None => next,
        }
    }

    fn went_on(&mut self, c: CopyStream)
        ensures
            final(self)@ == old(self)@.copied(c@),
    {
        let over = match &c.stage {
            CopyStage::Over(Ok(())) => Some(Ok(())),
            CopyStage::Over(Err(e)) => Some(Err(e.to_text())),
            _ => None,
        };
        match over {
            Some(Ok(())) => {
                self.written = c.done;
                self.stage = PreviewStage::Flush;
            },
            Some(Err(e)) => self.stage = PreviewStage::Over(Err(e)),
            None => self.stage = PreviewStage::Copying(c),
        }
    }

    /// Take the reply to the action, at `now` milliseconds.
    pub fn feed(&mut self, reply: &Reply, stamp: Option<RemoteStamp>, now: u64)
        ensures
            final(self)@ == old(self)@.after(reply@, stamp, now),
    {
        let mut stage = PreviewStage::Close;
        core::mem::swap(&mut self.stage, &mut stage);
        match stage {
            PreviewStage::OpenSource => self.stage = Self::unless(reply, PreviewStage::CreatePart),
            PreviewStage::CreatePart => {
                let copy = CopyStream::new(0, false, now);
                self.stage = Self::unless(reply, PreviewStage::Copying(copy));
            },
            PreviewStage::Copying(mut c) => {
                c.feed(reply, false, now);
                self.went_on(c);
            },
            PreviewStage::Flush => self.stage = Self::unless(reply, PreviewStage::Close),
            PreviewStage::Close => self.stage = Self::unless(reply, PreviewStage::Rename),
            PreviewStage::Rename => self.stage = Self::unless(reply, PreviewStage::Stamp),
            PreviewStage::Stamp => self.stage = PreviewStage::Over(Ok((self.written, stamp))),
            PreviewStage::Over(r) => self.stage = PreviewStage::Over(r),
        }
    }

    /// What came of a preview that is over.
    pub fn finish(self) -> (r: Option<Result<(u64, Option<RemoteStamp>), String>>)
        ensures
            match (r, self@.stage) {
                (Some(r), PreviewStageModel::Over(o)) => fetched(r) == o,
                (Some(_), _) => false,
                (None, s) => s !is Over,
            },
    {
        match self.stage {
            PreviewStage::Over(r) => Some(r),
            _ => None,
        }
    }
}

/// Where writing back stands.
#[derive(Debug)]
pub enum WriteBackStage {
    StatRemote,
    OpenLocal,
    OpenPart,
    Copying(CopyStream),
    Close,
    Publishing(Publish),
    Over(Result<u64, String>),
}

/// The stage with its texts as characters.
pub enum WriteBackStageModel {
    StatRemote,
    OpenLocal,
    OpenPart,
    Copying(CopyModel),
    Close,
    Publishing(PublishModel),
    Over(Result<u64, Seq<char>>),
}

/// A byte count or an error, with the error as characters.
pub open spec fn written_view(r: Result<u64, String>) -> Result<u64, Seq<char>> {
    match r {
        Ok(n) => Ok(n),
        Err(e) => Err(e@),
    }
}

impl View for WriteBackStage {
    type V = WriteBackStageModel;

    open spec fn view(&self) -> WriteBackStageModel {
        match *self {
            WriteBackStage::StatRemote => WriteBackStageModel::StatRemote,
            WriteBackStage::OpenLocal => WriteBackStageModel::OpenLocal,
            WriteBackStage::OpenPart => WriteBackStageModel::OpenPart,
            WriteBackStage::Copying(c) => WriteBackStageModel::Copying(c@),
            WriteBackStage::Close => WriteBackStageModel::Close,
            WriteBackStage::Publishing(p) => WriteBackStageModel::Publishing(p@),
            WriteBackStage::Over(r) => WriteBackStageModel::Over(written_view(r)),
        }
    }
}

/// Uploads an edited preview copy over its source, writing a part file and
/// publishing it with a rename so a failed upload can never leave the
/// remote file truncated.
#[derive(Debug)]
pub struct WriteBack {
    /// The remote file.
    pub source: String,
    /// The preview copy on this machine.
    pub local: String,
    /// Permission bits of the remote file: a fresh file would lose them,
    /// and with them the execute bits on scripts and binaries.
    pub mode: Option<u32>,
    pub written: u64,
    pub stage: WriteBackStage,
}

/// Writing back, with its texts as characters.
pub struct WriteBackModel {
    pub source: Seq<char>,
    pub local: Seq<char>,
    pub mode: Option<u32>,
    pub written: u64,
    pub stage: WriteBackStageModel,
}

impl View for WriteBack {
    type V = WriteBackModel;

    open spec fn view(&self) -> WriteBackModel {
        WriteBackModel {
            source: self.source@,
            local: self.local@,
            mode: self.mode,
            written: self.written,
            stage: self.stage@,
        }
    }
}

/// A stage of writing back, unless the operation failed.
pub open spec fn write_unless(
    reply: ReplyModel,
    next: WriteBackStageModel,
) -> WriteBackStageModel {
    match reply.error() {
        Some(e) => WriteBackStageModel::Over(Err(e)),
        None => next,
    }
}

/// What one stage of publishing asks for.
pub open spec fn publish_request(p: PublishModel) -> JobActionModel {
    match p.action() {
        PublishActionModel::Rename { from, to } => JobActionModel::RenameRemote { from, to },
        PublishActionModel::Remove { path } => JobActionModel::RemoveRemote { path },
        PublishActionModel::Finish(_) => JobActionModel::Close,
    }
}

fn request_publish(p: &Publish) -> (r: JobAction)
    ensures
        r@ == publish_request(p@),
{
    match p.action() {
        PublishAction::Rename { from, to } => JobAction::RenameRemote { from, to },
        PublishAction::Remove { path } => JobAction::RemoveRemote { path },
        PublishAction::Finish(_) => JobAction::Close,
    }
}

impl WriteBackModel {
    pub open spec fn fresh(source: Seq<char>, local: Seq<char>) -> WriteBackModel {
        WriteBackModel {
            source,
            local,
            mode: None,
            written: 0,
            stage: WriteBackStageModel::StatRemote,
        }
    }

    /// Permission bits the part file is opened with.
    pub open spec fn part_mode(self) -> u32 {
        match self.mode {
            Some(m) => m,
            None => 0o600,
        }
    }

    pub open spec fn action(self) -> Option<JobActionModel> {
        match self.stage {
            WriteBackStageModel::StatRemote => Some(
                JobActionModel::StatRemote { path: self.source },
            ),
            WriteBackStageModel::OpenLocal => Some(JobActionModel::OpenLocal { path: self.local }),
            WriteBackStageModel::OpenPart => Some(
                JobActionModel::OpenRemoteWrite {
                    path: remote_part_spec(self.source),
                    append: false,
                    mode: self.part_mode(),
                },
            ),
            WriteBackStageModel::Copying(c) => Some(copy_request(c)),
            WriteBackStageModel::Close => Some(JobActionModel::Close),
            WriteBackStageModel::Publishing(p) => Some(publish_request(p)),
            WriteBackStageModel::Over(_) => None,
        }
    }

    pub open spec fn copied(self, c: CopyModel) -> WriteBackModel {
        match c.stage {
            CopyStageModel::Over(Ok(())) => WriteBackModel {
                written: c.done,
                stage: WriteBackStageModel::Close,
                ..self
            },
            CopyStageModel::Over(Err(e)) => WriteBackModel {
                stage: WriteBackStageModel::Over(Err(e.text())),
                ..self
            },
            _ => WriteBackModel { stage: WriteBackStageModel::Copying(c), ..self },
        }
    }

    pub open spec fn published(self, p: PublishModel) -> WriteBackModel {
        WriteBackModel {
            stage: match p.stage {
                PublishStageModel::Over(Ok(())) => WriteBackStageModel::Over(Ok(self.written)),
                PublishStageModel::Over(Err(e)) => WriteBackStageModel::Over(Err(e)),
                _ => WriteBackStageModel::Publishing(p),
            },
            ..self
        }
    }

    /// Writing back after the reply to its action, at `now` milliseconds.
    pub open spec fn after(self, reply: ReplyModel, now: u64) -> WriteBackModel {
        match self.stage {
            WriteBackStageModel::StatRemote => WriteBackModel {
                mode: match reply.error() {
                    Some(_) => None,
                    None => kept_mode_spec(reply.stat_spec().mode),
                },
                stage: WriteBackStageModel::OpenLocal,
                ..self
            },
            WriteBackStageModel::OpenLocal => WriteBackModel {
                stage: write_unless(reply, WriteBackStageModel::OpenPart),
                ..self
            },
            WriteBackStageModel::OpenPart => WriteBackModel {
                stage: write_unless(
                    reply,
                    WriteBackStageModel::Copying(CopyModel::fresh(0, false, now)),
                ),
                ..self
            },
            WriteBackStageModel::Copying(c) => self.copied(c.after(reply, false, now)),
            WriteBackStageModel::Close => WriteBackModel {
                stage: write_unless(
                    reply,
                    WriteBackStageModel::Publishing(
                        PublishModel::fresh(remote_part_spec(self.source), self.source),
                    ),
                ),
                ..self
            },
            WriteBackStageModel::Publishing(p) => self.published(p.after(reply.error())),
            WriteBackStageModel::Over(_) => self,
        }
    }
}

impl WriteBack {
    pub fn new(source: String, local: String) -> (r: Self)
        ensures
            r@ == WriteBackModel::fresh(source@, local@),
    {
        WriteBack { source, local, mode: None, written: 0, stage: WriteBackStage::StatRemote }
    }

    /// What is to be done next, if writing back is not over.
    pub fn action(&self) -> (r: Option<JobAction>)
        ensures
            match (r, self@.action()) {
                (Some(a), Some(b)) => a@ == b,
                (None, None) => true,
                _ => false,
            },
    {
        match &self.stage {
            WriteBackStage::StatRemote => Some(
                JobAction::StatRemote { path: self.source.clone() },
            ),
            WriteBackStage::OpenLocal => Some(JobAction::OpenLocal { path: self.local.clone() }),
            WriteBackStage::OpenPart => Some(
                JobAction::OpenRemoteWrite {
                    path: remote_part(self.source.as_str()),
                    append: false,
                    mode: match self.mode {
                        Some(m) => m,
                        None => 0o600,
                    },
                },
            ),
            WriteBackStage::Copying(c) => Some(request_copy(c)),
            WriteBackStage::Close => Some(JobAction::Close),
            WriteBackStage::Publishing(p) => Some(request_publish(p)),
            WriteBackStage::Over(_) => None,
        }
    }

    fn unless(reply: &Reply, next: WriteBackStage) -> (r: WriteBackStage)
        ensures
            r@ == write_unless(reply@, next@),
    {
        match reply.failure() {
            Some(e) => WriteBackStage::Over(Err(e)),
            None => next,
        }
    }

    fn went_on(&mut self, c: CopyStream)
        ensures
            final(self)@ == old(self)@.copied(c@),
    {
        let over = match &c.stage {
            CopyStage::Over(Ok(())) => Some(Ok(())),
            CopyStage::Over(Err(e)) => Some(Err(e.to_text())),
            _ => None,
        };
        match over {
            Some(Ok(())) => {
                self.written = c.done;
                self.stage = WriteBackStage::Close;
            },
            Some(Err(e)) => self.stage = WriteBackStage::Over(Err(e)),
            None => self.stage = WriteBackStage::Copying(c),
        }
    }

    fn publish_went_on(&mut self, p: Publish)
        ensures
            final(self)@ == old(self)@.published(p@),
    {
        let over = match &p.stage {
            PublishStage::Over(Ok(())) => Some(Ok(())),
            PublishStage::Over(Err(e)) => Some(Err(e.clone())),
            _ => None,
        };
        match over {
            Some(Ok(())) => self.stage = WriteBackStage::Over(Ok(self.written)),
            Some(Err(e)) => self.stage = WriteBackStage::Over(Err(e)),
            None => self.stage = WriteBackStage::Publishing(p),
        }
    }

    /// Take the reply to the action, at `now` milliseconds.
    pub fn feed(&mut self, reply: &Reply, now: u64)
        ensures
            final(self)@ == old(self)@.after(reply@, now),
    {
        let mut stage = WriteBackStage::Close;
        core::mem::swap(&mut self.stage, &mut stage);
        match stage {
            WriteBackStage::StatRemote => {
                self.mode = match reply.failure() {
                    Some(_) => None,
                    None => kept_mode(reply.stat().mode),
                };
                self.stage = WriteBackStage::OpenLocal;
            },
            WriteBackStage::OpenLocal => self.stage = Self::unless(
                reply,
                WriteBackStage::OpenPart,
            ),
            WriteBackStage::OpenPart => {
                let copy = CopyStream::new(0, false, now);
                self.stage = Self::unless(reply, WriteBackStage::Copying(copy));
            },
            WriteBackStage::Copying(mut c) => {
                c.feed(reply, false, now);
                self.went_on(c);
            },
            WriteBackStage::Close => {
                let publish = Publish::new(
                    remote_part(self.source.as_str()),
                    self.source.clone(),
                );
                self.stage = Self::unless(reply, WriteBackStage::Publishing(publish));
            },
            WriteBackStage::Publishing(mut p) => {
                p.feed(reply.failure());
                self.publish_went_on(p);
            },
            WriteBackStage::Over(r) => self.stage = WriteBackStage::Over(r),
        }
    }

    /// What came of writing back, once it is over.
    pub fn finish(self) -> (r: Option<Result<u64, String>>)
        ensures
            match (r, self@.stage) {
                (Some(r), WriteBackStageModel::Over(o)) => written_view(r) == o,
                (Some(_), _) => false,
                (None, s) => s !is Over,
            },
    {
        match self.stage {
            WriteBackStage::Over(r) => Some(r),
            _ => None,
        }
    }
}

/// The remote file is touched only by publishing a complete part file: an
/// action that writes goes to the part, and the first rename onto the file
/// follows a copy that reached its end and a close that succeeded.
pub proof fn a_failed_save_leaves_the_remote_file(
    m: WriteBackModel,
    reply: ReplyModel,
    now: u64,
)
    requires
        m.stage !is Publishing,
        m.after(reply, now).stage is Publishing,
    ensures
        m.stage is Close,
        reply.error() is None,
        m.after(reply, now).action() == Some(
            JobActionModel::RenameRemote { from: remote_part_spec(m.source), to: m.source },
        ),
{
}

/// A preview appears under its name only once every byte is in place: the
/// rename follows a copy that reached its end, a flush and a close.
pub proof fn a_preview_appears_complete(
    m: PreviewModel,
    reply: ReplyModel,
    stamp: Option<RemoteStamp>,
    now: u64,
)
    ensures
        m.after(reply, stamp, now).stage is Rename ==> m.stage is Close && reply.error() is None,
        m.after(reply, stamp, now).stage is Close ==> m.stage is Flush && reply.error() is None,
        m.after(reply, stamp, now).stage is Flush ==> match m.stage {
            PreviewStageModel::Copying(c) => c.after(reply, false, now).succeeded() && m.after(
                reply,
                stamp,
                now,
            ).written == c.after(reply, false, now).done,
            _ => false,
        },
{
}

/// Writing back after several replies, each with its time.
pub open spec fn write_ran(m: WriteBackModel, replies: Seq<(ReplyModel, u64)>) -> WriteBackModel
    decreases replies.len(),
{
    if replies.len() == 0 {
        m
    } else {
        write_ran(m, replies.drop_last()).after(replies.last().0, replies.last().1)
    }
}

/// Every file that `a` names is in its place when the copy `local` is
/// written back to `source`: `local` is the only file opened on this
/// machine and is only read, and `source` is only ever replaced by the part
/// beside it.
pub open spec fn writes_back(source: Seq<char>, local: Seq<char>, a: JobActionModel) -> bool {
    match a {
        JobActionModel::StatRemote { path } => path == source,
        JobActionModel::OpenLocal { path } => path == local,
        JobActionModel::OpenRemoteWrite { path, append, .. } => path == remote_part_spec(source)
            && !append,
        JobActionModel::RenameRemote { from, to } => replaces(
            remote_part_spec(source),
            source,
            from,
            to,
        ),
        JobActionModel::RemoveRemote { path } => path == source + ".kaku-old"@,
        JobActionModel::Read { .. } => true,
        JobActionModel::Write { .. } => true,
        JobActionModel::Progress { .. } => true,
        JobActionModel::Close => true,
        _ => false,
    }
}

proof fn lemma_write_ran(source: Seq<char>, local: Seq<char>, replies: Seq<(ReplyModel, u64)>)
    ensures
        ({
            let m = write_ran(WriteBackModel::fresh(source, local), replies);
            &&& m.source == source
            &&& m.local == local
            &&& match m.stage {
                WriteBackStageModel::Publishing(p) => p.part == remote_part_spec(source) && p.dest
                    == source && !(p.stage is Over),
                WriteBackStageModel::Copying(c) => !(c.stage is Over),
                _ => true,
            }
        }),
    decreases replies.len(),
{
    if replies.len() > 0 {
        lemma_write_ran(source, local, replies.drop_last());
    }
}

/// Whatever is replied, what is written back is the copy that was edited:
/// no other file of this machine is opened, and no file on the server is
/// touched but the one that the copy was made of, the part beside it and
/// the place where the old file waits.
pub proof fn the_edited_copy_is_written_back(
    source: Seq<char>,
    local: Seq<char>,
    replies: Seq<(ReplyModel, u64)>,
)
    ensures
        match write_ran(WriteBackModel::fresh(source, local), replies).action() {
            Some(a) => writes_back(source, local, a),
            None => true,
        },
{
    lemma_write_ran(source, local, replies);
}

/// How many of these steps succeeded, in this order: the copy opened, the
/// part opened, the part closed, the part renamed onto the remote file.
pub open spec fn write_steps(
    source: Seq<char>,
    local: Seq<char>,
    replies: Seq<(ReplyModel, u64)>,
) -> int
    decreases replies.len(),
{
    if replies.len() == 0 {
        0
    } else {
        let before = write_steps(source, local, replies.drop_last());
        let a = write_ran(WriteBackModel::fresh(source, local), replies.drop_last()).action();
        let part = remote_part_spec(source);
        if replies.last().0.error() is Some || a is None {
            before
        } else if before == 0 && a->0 == (JobActionModel::OpenLocal { path: local }) {
            1
        } else if before == 1 && (a->0 matches JobActionModel::OpenRemoteWrite { path, .. } && path
            == part) {
            2
        } else if before == 2 && a->0 is Close {
            3
        } else if before == 3 && a->0 == (JobActionModel::RenameRemote { from: part, to: source }) {
            4
        } else {
            before
        }
    }
}

spec fn written_so_far(stage: WriteBackStageModel) -> int {
    match stage {
        WriteBackStageModel::OpenPart => 1,
        WriteBackStageModel::Copying(_) => 2,
        WriteBackStageModel::Close => 2,
        WriteBackStageModel::Publishing(p) => if p.stage is DropBackup {
            4
        } else {
            3
        },
        WriteBackStageModel::Over(Ok(_)) => 4,
        _ => 0,
    }
}

proof fn lemma_write_steps(source: Seq<char>, local: Seq<char>, replies: Seq<(ReplyModel, u64)>)
    ensures
        ({
            let m = write_ran(WriteBackModel::fresh(source, local), replies);
            let k = write_steps(source, local, replies);
            &&& m.stage is Over || k == written_so_far(m.stage) || (m.stage is Publishing && k == 4)
            &&& m.stage matches WriteBackStageModel::Over(Ok(_)) ==> k == 4
        }),
    decreases replies.len(),
{
    if replies.len() > 0 {
        lemma_write_steps(source, local, replies.drop_last());
        lemma_write_ran(source, local, replies.drop_last());
    }
}

/// A copy that was written back is in place: it was opened, then the part
/// beside the remote file, the part was closed and renamed onto the remote
/// file, and none of these failed.
pub proof fn a_saved_copy_is_in_place(
    source: Seq<char>,
    local: Seq<char>,
    replies: Seq<(ReplyModel, u64)>,
)
    requires
        write_ran(WriteBackModel::fresh(source, local), replies).stage matches WriteBackStageModel::Over(
            r,
        ) && r is Ok,
    ensures
        write_steps(source, local, replies) == 4,
{
    lemma_write_steps(source, local, replies);
}

/// A saved file keeps its permission bits: the part is made with those that
/// the server told of the remote file, or for its owner alone where it told
/// none.
pub proof fn saving_keeps_permissions(
    source: Seq<char>,
    local: Seq<char>,
    stat: ReplyModel,
    opened: ReplyModel,
    t0: u64,
    t1: u64,
)
    requires
        opened.error() is None,
    ensures
        ({
            let m = WriteBackModel::fresh(source, local).after(stat, t0).after(opened, t1);
            let told = match stat.error() {
                Some(_) => None,
                None => stat.stat_spec().mode,
            };
            match m.action() {
                Some(JobActionModel::OpenRemoteWrite { mode, .. }) => match told {
                    Some(x) => mode == (if x & 0o777 == 0 {
                        0o600
                    } else {
                        x & 0o777
                    }),
                    None => mode == 0o600,
                },
                _ => false,
            }
        }),
{
}

/// Fetching a preview after several replies, each with what the server
/// knows of the file and with its time.
pub open spec fn preview_ran(
    m: PreviewModel,
    replies: Seq<(ReplyModel, Option<RemoteStamp>, u64)>,
) -> PreviewModel
    decreases replies.len(),
{
    if replies.len() == 0 {
        m
    } else {
        let (reply, stamp, now) = replies.last();
        preview_ran(m, replies.drop_last()).after(reply, stamp, now)
    }
}

/// Every file that `a` names is in its place when `source` is fetched to
/// `dest`.
pub open spec fn fetches(source: Seq<char>, dest: Seq<char>, a: JobActionModel) -> bool {
    match a {
        JobActionModel::OpenRemote { path } => path == source,
        JobActionModel::StatRemote { path } => path == source,
        JobActionModel::CreateLocal { path } => path == local_part_spec(dest),
        JobActionModel::RenameLocal { from, to } => from == local_part_spec(dest) && to == dest,
        JobActionModel::Read { .. } => true,
        JobActionModel::Write { .. } => true,
        JobActionModel::Progress { .. } => true,
        JobActionModel::Flush => true,
        JobActionModel::Close => true,
        _ => false,
    }
}

/// How many of these steps succeeded, in this order: the remote file
/// opened, the part made, flushed, closed, and renamed to the preview.
pub open spec fn preview_steps(
    source: Seq<char>,
    dest: Seq<char>,
    replies: Seq<(ReplyModel, Option<RemoteStamp>, u64)>,
) -> int
    decreases replies.len(),
{
    if replies.len() == 0 {
        0
    } else {
        let before = preview_steps(source, dest, replies.drop_last());
        let a = preview_ran(PreviewModel::fresh(source, dest), replies.drop_last()).action();
        let part = local_part_spec(dest);
        if replies.last().0.error() is Some || a is None {
            before
        } else if before == 0 && a->0 == (JobActionModel::OpenRemote { path: source }) {
            1
        } else if before == 1 && a->0 == (JobActionModel::CreateLocal { path: part }) {
            2
        } else if before == 2 && a->0 is Flush {
            3
        } else if before == 3 && a->0 is Close {
            4
        } else if before == 4 && a->0 == (JobActionModel::RenameLocal { from: part, to: dest }) {
            5
        } else {
            before
        }
    }
}

spec fn fetched_so_far(stage: PreviewStageModel) -> int {
    match stage {
        PreviewStageModel::CreatePart => 1,
        PreviewStageModel::Copying(_) => 2,
        PreviewStageModel::Flush => 2,
        PreviewStageModel::Close => 3,
        PreviewStageModel::Rename => 4,
        PreviewStageModel::Stamp => 5,
        PreviewStageModel::Over(Ok(_)) => 5,
        _ => 0,
    }
}

proof fn lemma_preview_ran(
    source: Seq<char>,
    dest: Seq<char>,
    replies: Seq<(ReplyModel, Option<RemoteStamp>, u64)>,
)
    ensures
        ({
            let m = preview_ran(PreviewModel::fresh(source, dest), replies);
            let k = preview_steps(source, dest, replies);
            &&& m.source == source
            &&& m.dest == dest
            &&& (m.stage matches PreviewStageModel::Copying(c) ==> !(c.stage is Over))
            &&& m.stage is Over || k == fetched_so_far(m.stage)
            &&& m.stage matches PreviewStageModel::Over(Ok(_)) ==> k == 5
        }),
    decreases replies.len(),
{
    if replies.len() > 0 {
        lemma_preview_ran(source, dest, replies.drop_last());
    }
}

/// Whatever is replied, fetching a preview reads the remote file it was
/// made for, writes the part beside the preview and renames that part to
/// the preview; and a preview that was fetched went through all of this
/// without a failure.
pub proof fn a_preview_is_of_its_source(
    source: Seq<char>,
    dest: Seq<char>,
    replies: Seq<(ReplyModel, Option<RemoteStamp>, u64)>,
)
    ensures
        ({
            let m = preview_ran(PreviewModel::fresh(source, dest), replies);
            &&& match m.action() {
                Some(a) => fetches(source, dest, a),
                None => true,
            }
            &&& m.stage matches PreviewStageModel::Over(Ok(_)) ==> preview_steps(
                source,
                dest,
                replies,
            ) == 5
        }),
{
    lemma_preview_ran(source, dest, replies);
}

/// An error of any step but the last ends the preview with that error; the
/// stamp asked for at the end is what the server told, with the bytes that
/// were copied.
pub proof fn a_preview_reports_what_happened(
    m: PreviewModel,
    reply: ReplyModel,
    stamp: Option<RemoteStamp>,
    now: u64,
)
    requires
        m.action() is Some,
        !(m.stage is Copying),
    ensures
        ({
            let q = m.after(reply, stamp, now);
            &&& !(m.action()->0 is StatRemote) && reply.error() is Some ==> q.stage
                == PreviewStageModel::Over(Err(reply.error()->0))
            &&& m.action()->0 is StatRemote ==> q.stage == PreviewStageModel::Over(
                Ok((m.written, stamp)),
            )
        }),
{
}

} // verus!

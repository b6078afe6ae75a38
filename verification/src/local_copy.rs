//! Copying and creating files on one side: a local copy or move, and the
//! creation of an empty file or a directory.

use crate::paths::{opt, parent_dir, parent_of, push_path, pushed};
use crate::scan::{found_list, DirItem, ItemModel};
use crate::stream::plus;
use crate::text::{begins, cat, cat3};
use vstd::prelude::*;
use vstd::string::*;

verus! {

/// What a local copy needs done next.
#[derive(Debug)]
pub enum LocalAction {
    /// Tell whether this is a directory, without following a link.
    Kind { path: String },
    /// Create a directory and those above it.
    MakeDirs { path: String },
    ReadDir { path: String },
    /// Resolve a link.
    Resolve { path: String },
    /// Tell whether something is there.
    Exists { path: String },
    Copy { from: String, to: String },
    /// Remove a file, or a directory with all it holds.
    Remove { path: String, is_dir: bool },
    /// Files copied and files skipped, or what went wrong.
    Finish(Result<(u64, u64), String>),
}

/// The action with its texts as characters.
pub enum LocalActionModel {
    Kind { path: Seq<char> },
    MakeDirs { path: Seq<char> },
    ReadDir { path: Seq<char> },
    Resolve { path: Seq<char> },
    Exists { path: Seq<char> },
    Copy { from: Seq<char>, to: Seq<char> },
    Remove { path: Seq<char>, is_dir: bool },
    Finish(Result<(u64, u64), Seq<char>>),
}

/// Counts or an error, with the error as characters.
pub open spec fn counted(r: Result<(u64, u64), String>) -> Result<(u64, u64), Seq<char>> {
    match r {
        Ok(c) => Ok(c),
        Err(e) => Err(e@),
    }
}

impl View for LocalAction {
    type V = LocalActionModel;

    open spec fn view(&self) -> LocalActionModel {
        match *self {
            LocalAction::Kind { path } => LocalActionModel::Kind { path: path@ },
            LocalAction::MakeDirs { path } => LocalActionModel::MakeDirs { path: path@ },
            LocalAction::ReadDir { path } => LocalActionModel::ReadDir { path: path@ },
            LocalAction::Resolve { path } => LocalActionModel::Resolve { path: path@ },
            LocalAction::Exists { path } => LocalActionModel::Exists { path: path@ },
            LocalAction::Copy { from, to } => LocalActionModel::Copy { from: from@, to: to@ },
            LocalAction::Remove { path, is_dir } => LocalActionModel::Remove {
                path: path@,
                is_dir,
            },
            LocalAction::Finish(r) => LocalActionModel::Finish(counted(r)),
        }
    }
}

/// What came back of an action.
#[derive(Debug)]
pub enum LocalReply {
    Done,
    /// The answer to a question.
    Yes,
    No,
    /// What a directory holds, up to an entry that could not be read.
    Listing { items: Vec<DirItem>, broken: Option<String> },
    Resolved(String),
    Failed(String),
}

/// A reply, with its texts as characters.
pub enum LocalReplyModel {
    Done,
    Yes,
    No,
    Listing { items: Seq<ItemModel>, broken: Option<Seq<char>> },
    Resolved(Seq<char>),
    Failed(Seq<char>),
}

impl View for LocalReply {
    type V = LocalReplyModel;

    open spec fn view(&self) -> LocalReplyModel {
        match *self {
            LocalReply::Done => LocalReplyModel::Done,
            LocalReply::Yes => LocalReplyModel::Yes,
            LocalReply::No => LocalReplyModel::No,
            LocalReply::Listing { items, broken } => LocalReplyModel::Listing {
                items: found_list(items@),
                broken: opt(broken),
            },
            LocalReply::Resolved(p) => LocalReplyModel::Resolved(p@),
            LocalReply::Failed(e) => LocalReplyModel::Failed(e@),
        }
    }
}

/// Where a local copy stands.
#[derive(Debug)]
pub enum LocalStage {
    Kind,
    MakeRoot,
    /// The directory that the copy started with.
    ReadRoot,
    Read { dir: String },
    /// Make the counterpart of the directory that was read.
    Mirror,
    Resolve { src: String, dst: String },
    Check { src: String, dst: String },
    Parent { src: String, dst: String, parent: String },
    Copy { src: String, dst: String },
    Remove,
    Over(Result<(u64, u64), String>),
}

/// The stage with its texts as characters.
pub enum LocalStageModel {
    Kind,
    MakeRoot,
    ReadRoot,
    Read { dir: Seq<char> },
    Mirror,
    Resolve { src: Seq<char>, dst: Seq<char> },
    Check { src: Seq<char>, dst: Seq<char> },
    Parent { src: Seq<char>, dst: Seq<char>, parent: Seq<char> },
    Copy { src: Seq<char>, dst: Seq<char> },
    Remove,
    Over(Result<(u64, u64), Seq<char>>),
}

impl View for LocalStage {
    type V = LocalStageModel;

    open spec fn view(&self) -> LocalStageModel {
        match *self {
            LocalStage::Kind => LocalStageModel::Kind,
            LocalStage::MakeRoot => LocalStageModel::MakeRoot,
            LocalStage::ReadRoot => LocalStageModel::ReadRoot,
            LocalStage::Mirror => LocalStageModel::Mirror,
            LocalStage::Read { dir } => LocalStageModel::Read { dir: dir@ },
            LocalStage::Resolve { src, dst } => LocalStageModel::Resolve { src: src@, dst: dst@ },
            LocalStage::Check { src, dst } => LocalStageModel::Check { src: src@, dst: dst@ },
            LocalStage::Parent { src, dst, parent } => LocalStageModel::Parent {
                src: src@,
                dst: dst@,
                parent: parent@,
            },
            LocalStage::Copy { src, dst } => LocalStageModel::Copy { src: src@, dst: dst@ },
            LocalStage::Remove => LocalStageModel::Remove,
            LocalStage::Over(r) => LocalStageModel::Over(counted(r)),
        }
    }
}

/// A copy or move on this machine. An existing destination file is skipped
/// rather than replaced, and a move that skipped anything keeps its source,
/// so a paste can never destroy a file the user did not mean to touch; the
/// count of skipped files lets the caller say so.
#[derive(Debug)]
pub struct LocalCopy {
    pub from: String,
    pub to: String,
    /// Remove the source once everything is copied and nothing skipped.
    pub cut: bool,
    pub is_dir: bool,
    pub copied: u64,
    pub skipped: u64,
    /// Directories to mirror, and where to.
    pub stack: Vec<(String, String)>,
    /// Where the directory being gone through is mirrored.
    pub dst_dir: String,
    pub items: Vec<DirItem>,
    /// Items gone through.
    pub at: usize,
    /// Why the directory could not be read to its end.
    pub broken: Option<String>,
    pub stage: LocalStage,
}

/// A local copy, with its texts as characters.
#[verifier::ext_equal]
pub struct LocalModel {
    pub from: Seq<char>,
    pub to: Seq<char>,
    pub cut: bool,
    pub is_dir: bool,
    pub copied: u64,
    pub skipped: u64,
    pub stack: Seq<(Seq<char>, Seq<char>)>,
    pub dst_dir: Seq<char>,
    /// Items that are left.
    pub items: Seq<ItemModel>,
    pub broken: Option<Seq<char>>,
    pub stage: LocalStageModel,
}

pub open spec fn stack_list(v: Seq<(String, String)>) -> Seq<(Seq<char>, Seq<char>)> {
    v.map_values(|p: (String, String)| (p.0@, p.1@))
}

impl View for LocalCopy {
    type V = LocalModel;

    open spec fn view(&self) -> LocalModel {
        LocalModel {
            from: self.from@,
            to: self.to@,
            cut: self.cut,
            is_dir: self.is_dir,
            copied: self.copied,
            skipped: self.skipped,
            stack: stack_list(self.stack@),
            dst_dir: self.dst_dir@,
            items: found_list(self.items@).skip(self.at as int),
            broken: opt(self.broken),
            stage: self.stage@,
        }
    }
}

impl LocalCopy {
    pub open spec fn sound(self) -> bool {
        self.at <= self.items@.len()
    }
}

impl LocalModel {
    pub open spec fn fresh(from: Seq<char>, to: Seq<char>, cut: bool) -> LocalModel {
        LocalModel {
            from,
            to,
            cut,
            is_dir: false,
            copied: 0,
            skipped: 0,
            stack: Seq::empty(),
            dst_dir: Seq::empty(),
            items: Seq::empty(),
            broken: None,
            stage: LocalStageModel::Kind,
        }
    }

    pub open spec fn at_stage(self, stage: LocalStageModel) -> LocalModel {
        LocalModel { stage, ..self }
    }

    pub open spec fn failed(self, path: Seq<char>, err: Seq<char>) -> LocalModel {
        self.at_stage(LocalStageModel::Over(Err(path + ": "@ + err)))
    }

    /// Everything is gone through: remove the source of a move that skipped
    /// nothing, or stop.
    pub open spec fn concluded(self) -> LocalModel {
        if self.cut && self.skipped == 0 {
            self.at_stage(LocalStageModel::Remove)
        } else {
            self.at_stage(LocalStageModel::Over(Ok((self.copied, self.skipped))))
        }
    }

    /// On to the next file of the directory, to the next directory, or to
    /// the end.
    pub open spec fn walked(self) -> LocalModel
        decreases self.items.len(),
    {
        if self.items.len() > 0 {
            let item = self.items[0];
            let dst = pushed(self.dst_dir, item.name);
            let m = LocalModel { items: self.items.skip(1), ..self };
            if item.is_symlink {
                // What the link points at is copied.
                m.at_stage(LocalStageModel::Resolve { src: item.path, dst })
            } else if item.is_dir {
                (LocalModel { stack: m.stack.push((item.path, dst)), ..m }).walked()
            } else {
                m.at_stage(LocalStageModel::Check { src: item.path, dst })
            }
        } else if self.broken is Some {
            self.at_stage(LocalStageModel::Over(Err(self.broken->0)))
        } else if self.stack.len() > 0 {
            (LocalModel {
                stack: self.stack.drop_last(),
                dst_dir: self.stack.last().1,
                ..self
            }).at_stage(LocalStageModel::Read { dir: self.stack.last().0 })
        } else {
            self.concluded()
        }
    }

    /// A file is done with.
    pub open spec fn filed(self, copied: bool) -> LocalModel {
        let m = if copied {
            LocalModel { copied: plus(self.copied, 1), ..self }
        } else {
            LocalModel { skipped: plus(self.skipped, 1), ..self }
        };
        if self.is_dir {
            m.walked()
        } else {
            m.concluded()
        }
    }

    pub open spec fn action(self) -> LocalActionModel {
        match self.stage {
            LocalStageModel::Kind => LocalActionModel::Kind { path: self.from },
            LocalStageModel::MakeRoot => LocalActionModel::MakeDirs { path: self.to },
            LocalStageModel::ReadRoot => LocalActionModel::ReadDir { path: self.from },
            LocalStageModel::Read { dir } => LocalActionModel::ReadDir { path: dir },
            LocalStageModel::Mirror => LocalActionModel::MakeDirs { path: self.dst_dir },
            LocalStageModel::Resolve { src, .. } => LocalActionModel::Resolve { path: src },
            LocalStageModel::Check { dst, .. } => LocalActionModel::Exists { path: dst },
            LocalStageModel::Parent { parent, .. } => LocalActionModel::MakeDirs { path: parent },
            LocalStageModel::Copy { src, dst } => LocalActionModel::Copy { from: src, to: dst },
            LocalStageModel::Remove => LocalActionModel::Remove {
                path: self.from,
                is_dir: self.is_dir,
            },
            LocalStageModel::Over(r) => LocalActionModel::Finish(r),
        }
    }

    /// What was read of a directory is to be gone through.
    pub open spec fn holding(self, reply: LocalReplyModel) -> LocalModel {
        match reply {
            LocalReplyModel::Listing { items, broken } => LocalModel { items, broken, ..self },
            _ => LocalModel { items: Seq::empty(), broken: None, ..self },
        }
    }

    /// The copy after the reply to its action.
    pub open spec fn after(self, reply: LocalReplyModel) -> LocalModel {
        match (self.stage, reply) {
            (LocalStageModel::Over(_), _) => self,
            (LocalStageModel::Kind, LocalReplyModel::Failed(e)) => self.failed(self.from, e),
            (LocalStageModel::Kind, LocalReplyModel::Yes) => (LocalModel {
                is_dir: true,
                ..self
            }).at_stage(LocalStageModel::MakeRoot),
            (LocalStageModel::Kind, _) => self.at_stage(
                LocalStageModel::Check { src: self.from, dst: self.to },
            ),
            (LocalStageModel::MakeRoot, LocalReplyModel::Failed(e)) => self.failed(self.to, e),
            (LocalStageModel::MakeRoot, _) => (LocalModel {
                dst_dir: self.to,
                ..self
            }).at_stage(LocalStageModel::ReadRoot),
            (LocalStageModel::ReadRoot, LocalReplyModel::Failed(e)) => self.failed(self.from, e),
            (LocalStageModel::ReadRoot, _) => self.holding(reply).walked(),
            (LocalStageModel::Read { dir }, LocalReplyModel::Failed(e)) => self.failed(dir, e),
            (LocalStageModel::Read { .. }, _) => self.holding(reply).at_stage(
                LocalStageModel::Mirror,
            ),
            (LocalStageModel::Mirror, LocalReplyModel::Failed(e)) => self.failed(self.dst_dir, e),
            (LocalStageModel::Mirror, _) => self.walked(),
            (
                LocalStageModel::Resolve { src, dst },
                LocalReplyModel::Resolved(found),
            ) => self.at_stage(LocalStageModel::Check { src: found, dst }),
            (LocalStageModel::Resolve { src, dst }, _) => self.at_stage(
                LocalStageModel::Check { src, dst },
            ),
            (LocalStageModel::Check { src, dst }, LocalReplyModel::No) => match parent_of(dst) {
                Some(parent) => self.at_stage(LocalStageModel::Parent { src, dst, parent }),
                None => self.at_stage(LocalStageModel::Copy { src, dst }),
            },
            (LocalStageModel::Check { .. }, _) => self.filed(false),
            (
                LocalStageModel::Parent { parent, .. },
                LocalReplyModel::Failed(e),
            ) => self.failed(parent, e),
            (LocalStageModel::Parent { src, dst, .. }, _) => self.at_stage(
                LocalStageModel::Copy { src, dst },
            ),
            (LocalStageModel::Copy { dst, .. }, LocalReplyModel::Failed(e)) => self.failed(dst, e),
            (LocalStageModel::Copy { .. }, _) => self.filed(true),
            (LocalStageModel::Remove, LocalReplyModel::Failed(e)) => self.failed(self.from, e),
            (LocalStageModel::Remove, _) => self.at_stage(
                LocalStageModel::Over(Ok((self.copied, self.skipped))),
            ),
        }
    }
}

impl LocalCopy {
    /// Begin to copy `from` to `to`.
    pub fn new(from: String, to: String, cut: bool) -> (r: Self)
        ensures
            r@ == LocalModel::fresh(from@, to@, cut),
            r.sound(),
    {
        let r = LocalCopy {
            from,
            to,
            cut,
            is_dir: false,
            copied: 0,
            skipped: 0,
            stack: Vec::new(),
            dst_dir: String::new(),
            items: Vec::new(),
            at: 0,
            broken: None,
            stage: LocalStage::Kind,
        };
        proof {
            assert(r@ =~= LocalModel::fresh(from@, to@, cut));
        }
        r
    }

    /// What is to be done next.
    pub fn action(&self) -> (r: LocalAction)
        ensures
            r@ == self@.action(),
    {
        match &self.stage {
            LocalStage::Kind => LocalAction::Kind { path: self.from.clone() },
            LocalStage::MakeRoot => LocalAction::MakeDirs { path: self.to.clone() },
            LocalStage::ReadRoot => LocalAction::ReadDir { path: self.from.clone() },
            LocalStage::Read { dir } => LocalAction::ReadDir { path: dir.clone() },
            LocalStage::Mirror => LocalAction::MakeDirs { path: self.dst_dir.clone() },
            LocalStage::Resolve { src, .. } => LocalAction::Resolve { path: src.clone() },
            LocalStage::Check { dst, .. } => LocalAction::Exists { path: dst.clone() },
            LocalStage::Parent { parent, .. } => LocalAction::MakeDirs { path: parent.clone() },
            LocalStage::Copy { src, dst } => LocalAction::Copy {
                from: src.clone(),
                to: dst.clone(),
            },
            LocalStage::Remove => LocalAction::Remove {
                path: self.from.clone(),
                is_dir: self.is_dir,
            },
            LocalStage::Over(Ok(c)) => LocalAction::Finish(Ok(*c)),
            LocalStage::Over(Err(e)) => LocalAction::Finish(Err(e.clone())),
        }
    }

    fn fail(&mut self, path: &str, err: &str)
        requires
            old(self).sound(),
        ensures
            final(self).sound(),
            final(self)@ == old(self)@.failed(path@, err@),
    {
        self.stage = LocalStage::Over(Err(cat3(path, ": ", err)));
    }

    fn conclude(&mut self)
        requires
            old(self).sound(),
        ensures
            final(self).sound(),
            final(self)@ == old(self)@.concluded(),
    {
        if self.cut && self.skipped == 0 {
            self.stage = LocalStage::Remove;
        } else {
            self.stage = LocalStage::Over(Ok((self.copied, self.skipped)));
        }
    }

    fn walk(&mut self)
        requires
            old(self).sound(),
        ensures
            final(self).sound(),
            final(self)@ == old(self)@.walked(),
    {
        let ghost start = self@;
        while self.at < self.items.len()
            invariant
                self.sound(),
                start == old(self)@,
                self@.walked() == start.walked(),
            decreases self.items@.len() - self.at,
        {
            let ghost before = self@;
            let item = self.items[self.at].clone();
            let dst = push_path(self.dst_dir.as_str(), item.name.as_str());
            proof {
                assert(before.items[0] == item@);
            }
            self.at = self.at + 1;
            proof {
                assert(self@.items =~= before.items.skip(1));
            }
            if item.is_symlink {
                self.stage = LocalStage::Resolve { src: item.path, dst };
                return;
            }
            if item.is_dir {
                let ghost entry = (item@.path, dst@);
                self.stack.push((item.path, dst));
                proof {
                    assert(stack_list(self.stack@) =~= before.stack.push(entry));
                }
            } else {
                self.stage = LocalStage::Check { src: item.path, dst };
                return;
            }
        }
        proof {
            assert(self@.items.len() == 0);
        }
        if let Some(err) = &self.broken {
            self.stage = LocalStage::Over(Err(err.clone()));
            return;
        }
        let ghost before = self@;
        match self.stack.pop() {
            Some((src, dst)) => {
                proof {
                    assert(stack_list(self.stack@) =~= before.stack.drop_last());
                    assert(before.stack.last() == (src@, dst@));
                }
                self.dst_dir = dst;
                self.stage = LocalStage::Read { dir: src };
            },
            None => self.conclude(),
        }
    }

    fn file_done(&mut self, copied: bool)
        requires
            old(self).sound(),
        ensures
            final(self).sound(),
            final(self)@ == old(self)@.filed(copied),
    {
        if copied {
            self.copied = self.copied.saturating_add(1);
        } else {
            self.skipped = self.skipped.saturating_add(1);
        }
        if self.is_dir {
            self.walk();
        } else {
            self.conclude();
        }
    }

    fn hold(&mut self, reply: LocalReply)
        ensures
            final(self).sound(),
            final(self)@ == old(self)@.holding(reply@),
    {
        let (items, broken) = match reply {
            LocalReply::Listing { items, broken } => (items, broken),
            _ => {
                let none: Vec<DirItem> = Vec::new();
                proof {
                    assert(found_list(none@) =~= Seq::empty());
                }
                (none, None)
            },
        };
        self.items = items;
        self.at = 0;
        self.broken = broken;
        proof {
            assert(found_list(items@).skip(0) =~= found_list(items@));
        }
    }

    fn checked(&mut self, src: String, dst: String)
        requires
            old(self).sound(),
        ensures
            final(self).sound(),
            final(self)@ == match parent_of(dst@) {
                Some(parent) => old(self)@.at_stage(
                    LocalStageModel::Parent { src: src@, dst: dst@, parent },
                ),
                None => old(self)@.at_stage(LocalStageModel::Copy { src: src@, dst: dst@ }),
            },
    {
        match parent_dir(dst.as_str()) {
            Some(parent) => self.stage = LocalStage::Parent { src, dst, parent },
            None => self.stage = LocalStage::Copy { src, dst },
        }
    }

    /// Take the reply to the action.
    pub fn feed(&mut self, reply: LocalReply)
        requires
            old(self).sound(),
        ensures
            final(self).sound(),
            final(self)@ == old(self)@.after(reply@),
    {
        let ghost start = self@;
        let mut stage = LocalStage::Kind;
        core::mem::swap(&mut self.stage, &mut stage);
        match stage {
            LocalStage::Over(r) => self.stage = LocalStage::Over(r),
            LocalStage::Kind => match reply {
                LocalReply::Failed(e) => {
                    let path = self.from.clone();
                    self.fail(path.as_str(), e.as_str());
                },
                LocalReply::Yes => {
                    self.is_dir = true;
                    self.stage = LocalStage::MakeRoot;
                },
                _ => self.stage = LocalStage::Check {
                    src: self.from.clone(),
                    dst: self.to.clone(),
                },
            },
            LocalStage::MakeRoot => match reply {
                LocalReply::Failed(e) => {
                    let path = self.to.clone();
                    self.fail(path.as_str(), e.as_str());
                },
                _ => {
                    self.dst_dir = self.to.clone();
                    self.stage = LocalStage::ReadRoot;
                },
            },
            LocalStage::ReadRoot => match reply {
                LocalReply::Failed(e) => {
                    let path = self.from.clone();
                    self.fail(path.as_str(), e.as_str());
                },
                _ => {
                    self.stage = LocalStage::ReadRoot;
                    self.hold(reply);
                    self.walk();
                },
            },
            LocalStage::Read { dir } => match reply {
                LocalReply::Failed(e) => self.fail(dir.as_str(), e.as_str()),
                _ => {
                    self.hold(reply);
                    self.stage = LocalStage::Mirror;
                },
            },
            LocalStage::Mirror => match reply {
                LocalReply::Failed(e) => {
                    let path = self.dst_dir.clone();
                    self.fail(path.as_str(), e.as_str());
                },
                _ => {
                    self.stage = LocalStage::Mirror;
                    self.walk();
                },
            },
            LocalStage::Resolve { src, dst } => match reply {
                LocalReply::Resolved(found) => self.stage = LocalStage::Check { src: found, dst },
                _ => self.stage = LocalStage::Check { src, dst },
            },
            LocalStage::Check { src, dst } => match reply {
                LocalReply::No => self.checked(src, dst),
                _ => {
                    self.stage = LocalStage::Check { src, dst };
                    self.file_done(false);
                },
            },
            LocalStage::Parent { src, dst, parent } => match reply {
                LocalReply::Failed(e) => self.fail(parent.as_str(), e.as_str()),
                _ => self.stage = LocalStage::Copy { src, dst },
            },
            LocalStage::Copy { src, dst } => match reply {
                LocalReply::Failed(e) => self.fail(dst.as_str(), e.as_str()),
                _ => {
                    self.stage = LocalStage::Copy { src, dst };
                    self.file_done(true);
                },
            },
            LocalStage::Remove => match reply {
                LocalReply::Failed(e) => {
                    let path = self.from.clone();
                    self.fail(path.as_str(), e.as_str());
                },
                _ => self.stage = LocalStage::Over(Ok((self.copied, self.skipped))),
            },
        }
    }
}

impl LocalModel {
    /// The answer just came that nothing is at `dst`.
    pub open spec fn is_free(
        self,
        reply: LocalReplyModel,
        src: Seq<char>,
        dst: Seq<char>,
    ) -> bool {
        self.stage == (LocalStageModel::Check { src, dst }) && reply is No
    }

    /// The directory for `dst` was just made.
    pub open spec fn has_place(self, src: Seq<char>, dst: Seq<char>) -> bool {
        match self.stage {
            LocalStageModel::Parent { src: s, dst: d, parent } => s == src && d == dst,
            _ => false,
        }
    }
}

/// A file is copied only where nothing stood a moment before: the copy to
/// `dst` is asked for only after the answer that nothing is there, with at
/// most the creation of its directory in between.
pub proof fn an_existing_file_is_never_replaced(m: LocalModel, reply: LocalReplyModel)
    ensures
        match m.after(reply).stage {
            LocalStageModel::Copy { src, dst } => m.is_free(reply, src, dst) || m.has_place(
                src,
                dst,
            ),
            LocalStageModel::Parent { src, dst, parent } => m.is_free(reply, src, dst),
            _ => true,
        },
{
    lemma_walk_stage(LocalModel { copied: plus(m.copied, 1), ..m });
    lemma_walk_stage(LocalModel { skipped: plus(m.skipped, 1), ..m });
    lemma_walk_stage(m.holding(reply));
    lemma_walk_stage(m);
}

/// A move destroys no file that it did not copy: where anything was skipped
/// its source stays.
pub proof fn a_skipped_file_keeps_its_source(m: LocalModel, reply: LocalReplyModel)
    ensures
        m.after(reply).stage is Remove ==> m.after(reply).skipped == 0,
{
    lemma_walk_stage(LocalModel { copied: plus(m.copied, 1), ..m });
    lemma_walk_stage(LocalModel { skipped: plus(m.skipped, 1), ..m });
    lemma_walk_stage(m.holding(reply));
    lemma_walk_stage(m);
}

/// The source of a move is removed only once nothing is left to copy: no
/// file of the directory at hand, and no directory.
pub proof fn a_move_removes_its_source_last(m: LocalModel, reply: LocalReplyModel)
    requires
        m.stage !is Remove,
        m.after(reply).stage is Remove,
    ensures
        m.cut,
        m.is_dir ==> m.after(reply).items.len() == 0 && m.after(reply).stack.len() == 0
            && m.after(reply).broken is None,
        reply !is Failed || m.stage is Check,
{
    lemma_walk_stage(LocalModel { copied: plus(m.copied, 1), ..m });
    lemma_walk_stage(LocalModel { skipped: plus(m.skipped, 1), ..m });
    lemma_walk_stage(m.holding(reply));
    lemma_walk_stage(m);
}

proof fn lemma_walk_stage(m: LocalModel)
    ensures
        ({
            let w = m.walked();
            &&& w.cut == m.cut
            &&& w.stage is Resolve || w.stage is Check || w.stage is Read || w.stage is Remove
                || w.stage is Over
            &&& w.stage is Remove ==> m.cut && w.items.len() == 0 && w.stack.len() == 0
                && w.broken is None && w.skipped == 0
        }),
    decreases m.items.len(),
{
    if m.items.len() > 0 {
        let item = m.items[0];
        if !item.is_symlink && item.is_dir {
            lemma_walk_stage(
                LocalModel {
                    items: m.items.skip(1),
                    stack: m.stack.push((item.path, pushed(m.dst_dir, item.name))),
                    ..m
                },
            );
        }
    }
}

/// A copy after a run of replies.
pub open spec fn ran(m: LocalModel, replies: Seq<LocalReplyModel>) -> LocalModel
    decreases replies.len(),
{
    if replies.len() == 0 {
        m
    } else {
        ran(m, replies.drop_last()).after(replies.last())
    }
}

/// A directory among what was read; a link is none.
pub open spec fn is_folder(item: ItemModel) -> bool {
    item.is_dir && !item.is_symlink
}

/// Files among what was read.
pub open spec fn files_in(items: Seq<ItemModel>) -> nat
    decreases items.len(),
{
    if items.len() == 0 {
        0
    } else {
        files_in(items.skip(1)) + if is_folder(items[0]) {
            0nat
        } else {
            1nat
        }
    }
}

impl LocalModel {
    /// The copy has gone wrong.
    pub open spec fn broke(self) -> bool {
        self.stage is Over && self.stage->Over_0 is Err
    }

    /// The copy has come to its end.
    pub open spec fn ended(self) -> bool {
        self.stage is Over && self.stage->Over_0 is Ok
    }

    /// Files that a reply makes known: those of a directory, or the one
    /// that is to be copied.
    pub open spec fn files_met(self, reply: LocalReplyModel) -> nat {
        match (self.stage, reply) {
            (LocalStageModel::Kind, LocalReplyModel::Yes) => 0,
            (LocalStageModel::Kind, LocalReplyModel::Failed(_)) => 0,
            (LocalStageModel::Kind, _) => 1,
            (LocalStageModel::ReadRoot, LocalReplyModel::Listing { items, .. }) => files_in(items),
            (LocalStageModel::Read { .. }, LocalReplyModel::Listing { items, .. }) => files_in(
                items,
            ),
            _ => 0,
        }
    }

    /// Nothing waits at the end, and nothing is lost on the way to it.
    spec fn tidy(self) -> bool {
        let empty = self.items.len() == 0 && self.stack.len() == 0;
        match self.stage {
            LocalStageModel::Kind => !self.is_dir && empty,
            LocalStageModel::MakeRoot => self.is_dir && empty,
            LocalStageModel::ReadRoot => self.is_dir && self.items.len() == 0,
            LocalStageModel::Read { .. } => self.is_dir && self.items.len() == 0,
            LocalStageModel::Mirror => self.is_dir,
            LocalStageModel::Resolve { .. } => self.is_dir,
            LocalStageModel::Check { .. } => self.is_dir || empty,
            LocalStageModel::Parent { .. } => self.is_dir || empty,
            LocalStageModel::Copy { .. } => self.is_dir || empty,
            LocalStageModel::Remove => empty,
            LocalStageModel::Over(Ok(_)) => empty,
            LocalStageModel::Over(Err(_)) => true,
        }
    }

    /// The directory `src`, to be made as `dst`, is among the items.
    spec fn holds_folder(self, src: Seq<char>, dst: Seq<char>) -> bool {
        exists|k: int|
            0 <= k < self.items.len() && is_folder(#[trigger] self.items[k]) && self.items[k].path
                == src && pushed(self.dst_dir, self.items[k].name) == dst
    }

    /// The directory `src` is still to be made as `dst`.
    spec fn owes(self, src: Seq<char>, dst: Seq<char>) -> bool {
        ||| self.stack.contains((src, dst))
        ||| self.holds_folder(src, dst)
        ||| self.stage == (LocalStageModel::Read { dir: src }) && self.dst_dir == dst
        ||| self.stage is Mirror && self.dst_dir == dst
    }

    /// Files done with, at hand, and among the items.
    spec fn files(self) -> int {
        self.copied + self.skipped + files_in(self.items) + match self.stage {
            LocalStageModel::Resolve { .. } => 1int,
            LocalStageModel::Check { .. } => 1int,
            LocalStageModel::Parent { .. } => 1int,
            LocalStageModel::Copy { .. } => 1int,
            _ => 0int,
        }
    }
}

proof fn lemma_walk_keeps(m: LocalModel, src: Seq<char>, dst: Seq<char>)
    requires
        m.is_dir,
    ensures
        m.walked().tidy(),
        m.stack.contains((src, dst)) || m.holds_folder(src, dst) ==> m.walked().broke()
            || m.walked().owes(src, dst),
        m.walked().broke() || m.walked().files() == m.copied + m.skipped + files_in(m.items),
    decreases m.items.len(),
{
    let w = m.walked();
    if m.items.len() > 0 {
        let item = m.items[0];
        let rest = LocalModel { items: m.items.skip(1), ..m };
        let made = pushed(m.dst_dir, item.name);
        assert forall|k: int|
            1 <= k < m.items.len() && is_folder(#[trigger] m.items[k]) && m.items[k].path == src
                && pushed(m.dst_dir, m.items[k].name) == dst implies rest.holds_folder(
            src,
            dst,
        ) by {
            assert(rest.items[k - 1] == m.items[k]);
        }
        if is_folder(item) {
            let deeper = LocalModel { stack: m.stack.push((item.path, made)), ..rest };
            lemma_walk_keeps(deeper, src, dst);
            if m.stack.contains((src, dst)) {
                let i = choose|i: int| 0 <= i < m.stack.len() && m.stack[i] == (src, dst);
                assert(deeper.stack[i] == (src, dst));
            }
            if m.holds_folder(src, dst) {
                if item.path == src && made == dst {
                    assert(deeper.stack[m.stack.len() as int] == (src, dst));
                } else {
                    assert(rest.holds_folder(src, dst));
                    assert(deeper.holds_folder(src, dst)) by {
                        let k = choose|k: int|
                            0 <= k < rest.items.len() && is_folder(#[trigger] rest.items[k])
                                && rest.items[k].path == src && pushed(
                                rest.dst_dir,
                                rest.items[k].name,
                            ) == dst;
                        assert(is_folder(deeper.items[k]));
                    }
                }
            }
        } else {
            if m.holds_folder(src, dst) {
                assert(rest.holds_folder(src, dst));
                let k = choose|k: int|
                    0 <= k < rest.items.len() && is_folder(#[trigger] rest.items[k])
                        && rest.items[k].path == src && pushed(rest.dst_dir, rest.items[k].name)
                        == dst;
                assert(is_folder(w.items[k]));
            }
        }
    } else if m.broken is None && m.stack.len() > 0 && m.stack.contains((src, dst)) {
        let i = choose|i: int| 0 <= i < m.stack.len() && m.stack[i] == (src, dst);
        if i < m.stack.len() - 1 {
            assert(w.stack[i] == (src, dst));
        }
    }
}

proof fn lemma_step_keeps(
    m: LocalModel,
    reply: LocalReplyModel,
    src: Seq<char>,
    dst: Seq<char>,
)
    requires
        m.tidy(),
    ensures
        m.after(reply).tidy(),
        m.owes(src, dst) ==> m.after(reply).broke() || m.after(reply).owes(src, dst) || (m.action()
            == (LocalActionModel::MakeDirs { path: dst }) && reply !is Failed),
        m.copied < u64::MAX && m.skipped < u64::MAX ==> m.after(reply).broke() || m.after(
            reply,
        ).files() == m.files() + m.files_met(reply),
{
    let n = m.after(reply);
    let more = LocalModel { copied: plus(m.copied, 1), ..m };
    let fewer = LocalModel { skipped: plus(m.skipped, 1), ..m };
    let held = m.holding(reply);
    if m.is_dir {
        lemma_walk_keeps(more, src, dst);
        lemma_walk_keeps(fewer, src, dst);
        lemma_walk_keeps(held, src, dst);
        lemma_walk_keeps(m, src, dst);
    }
    if m.holds_folder(src, dst) {
        let k = choose|k: int|
            0 <= k < m.items.len() && is_folder(#[trigger] m.items[k]) && m.items[k].path == src
                && pushed(m.dst_dir, m.items[k].name) == dst;
        assert(is_folder(more.items[k]) && more.holds_folder(src, dst));
        assert(is_folder(fewer.items[k]) && fewer.holds_folder(src, dst));
        if n.items == m.items && n.dst_dir == m.dst_dir {
            assert(is_folder(n.items[k]));
        }
    }
}

proof fn lemma_listing_owes(m: LocalModel, reply: LocalReplyModel, k: int)
    requires
        m.tidy(),
        m.stage is ReadRoot || m.stage is Read,
        reply is Listing,
        0 <= k < reply->items.len(),
        is_folder(reply->items[k]),
    ensures
        m.after(reply).broke() || m.after(reply).owes(
            reply->items[k].path,
            pushed(m.dst_dir, reply->items[k].name),
        ),
{
    let src = reply->items[k].path;
    let dst = pushed(m.dst_dir, reply->items[k].name);
    let held = m.holding(reply);
    assert(is_folder(held.items[k]));
    assert(held.holds_folder(src, dst));
    lemma_walk_keeps(held, src, dst);
    let n = m.after(reply);
    if m.stage is Read {
        assert(is_folder(n.items[k]));
        assert(n.holds_folder(src, dst));
    }
}

proof fn lemma_ran_step(m: LocalModel, replies: Seq<LocalReplyModel>, n: int)
    requires
        0 < n <= replies.len(),
    ensures
        ran(m, replies.take(n)) == ran(m, replies.take(n - 1)).after(replies[n - 1]),
{
    assert(replies.take(n).drop_last() =~= replies.take(n - 1));
}

proof fn lemma_ran_tidy(m: LocalModel, replies: Seq<LocalReplyModel>, n: int)
    requires
        m.tidy(),
        0 <= n <= replies.len(),
    ensures
        ran(m, replies.take(n)).tidy(),
    decreases n,
{
    if n > 0 {
        lemma_ran_tidy(m, replies, n - 1);
        lemma_ran_step(m, replies, n);
        lemma_step_keeps(
            ran(m, replies.take(n - 1)),
            replies[n - 1],
            Seq::empty(),
            Seq::empty(),
        );
    }
}

/// Reply `j` says that the directory `dst` was made.
pub open spec fn made_at(
    m: LocalModel,
    replies: Seq<LocalReplyModel>,
    j: int,
    dst: Seq<char>,
) -> bool {
    ran(m, replies.take(j)).action() == (LocalActionModel::MakeDirs { path: dst }) && replies[j]
        !is Failed
}

proof fn lemma_owed_until_made(
    m: LocalModel,
    replies: Seq<LocalReplyModel>,
    i: int,
    n: int,
    src: Seq<char>,
    dst: Seq<char>,
)
    requires
        m.tidy(),
        0 <= i <= n <= replies.len(),
        ran(m, replies.take(i)).broke() || ran(m, replies.take(i)).owes(src, dst),
    ensures
        ran(m, replies.take(n)).broke() || ran(m, replies.take(n)).owes(src, dst) || exists|j: int|
            i <= j < n && #[trigger] made_at(m, replies, j, dst),
    decreases n - i,
{
    if i < n {
        lemma_owed_until_made(m, replies, i, n - 1, src, dst);
        lemma_ran_step(m, replies, n);
        lemma_ran_tidy(m, replies, n - 1);
        let before = ran(m, replies.take(n - 1));
        lemma_step_keeps(before, replies[n - 1], src, dst);
        if before.owes(src, dst) && before.action() == (LocalActionModel::MakeDirs { path: dst })
            && replies[n - 1] !is Failed {
            assert(made_at(m, replies, n - 1, dst));
        }
    }
}

/// The tree is mirrored: by the end of a copy every directory that was met,
/// with files in it or without, has been made in its place.
pub proof fn every_directory_is_mirrored(
    from: Seq<char>,
    to: Seq<char>,
    cut: bool,
    replies: Seq<LocalReplyModel>,
    i: int,
    k: int,
)
    requires
        ran(LocalModel::fresh(from, to, cut), replies).ended(),
        0 <= i < replies.len(),
        ({
            let m = ran(LocalModel::fresh(from, to, cut), replies.take(i));
            m.stage is ReadRoot || m.stage is Read
        }),
        replies[i] is Listing,
        0 <= k < replies[i]->items.len(),
        is_folder(replies[i]->items[k]),
    ensures
        ({
            let start = LocalModel::fresh(from, to, cut);
            let dst = pushed(ran(start, replies.take(i)).dst_dir, replies[i]->items[k].name);
            exists|j: int| i < j < replies.len() && #[trigger] made_at(start, replies, j, dst)
        }),
{
    let start = LocalModel::fresh(from, to, cut);
    let n = replies.len() as int;
    let m = ran(start, replies.take(i));
    let item = replies[i]->items[k];
    lemma_ran_tidy(start, replies, i);
    lemma_listing_owes(m, replies[i], k);
    lemma_ran_step(start, replies, i + 1);
    lemma_owed_until_made(start, replies, i + 1, n, item.path, pushed(m.dst_dir, item.name));
    lemma_ran_tidy(start, replies, n);
    assert(replies.take(n) =~= replies);
}

/// Files that a run of replies makes known.
pub open spec fn all_files_met(m: LocalModel, replies: Seq<LocalReplyModel>) -> nat
    decreases replies.len(),
{
    if replies.len() == 0 {
        0
    } else {
        all_files_met(m, replies.drop_last()) + ran(m, replies.drop_last()).files_met(
            replies.last(),
        )
    }
}

proof fn lemma_files_add_up(m: LocalModel, replies: Seq<LocalReplyModel>)
    requires
        m.tidy(),
        m.files() == 0,
        all_files_met(m, replies) < u64::MAX,
    ensures
        ran(m, replies).tidy(),
        ran(m, replies).broke() || ran(m, replies).files() == all_files_met(m, replies),
    decreases replies.len(),
{
    if replies.len() > 0 {
        let before = ran(m, replies.drop_last());
        lemma_files_add_up(m, replies.drop_last());
        lemma_step_keeps(before, replies.last(), Seq::empty(), Seq::empty());
    }
}

/// What an ended copy tells are its counts.
proof fn lemma_told(m: LocalModel, replies: Seq<LocalReplyModel>)
    requires
        !(m.stage is Over),
    ensures
        ran(m, replies).ended() ==> ran(m, replies).stage->Over_0 == Ok::<(u64, u64), Seq<char>>(
            (ran(m, replies).copied, ran(m, replies).skipped),
        ),
    decreases replies.len(),
{
    if replies.len() > 0 {
        let before = ran(m, replies.drop_last());
        lemma_told(m, replies.drop_last());
        lemma_walk_told(LocalModel { copied: plus(before.copied, 1), ..before });
        lemma_walk_told(LocalModel { skipped: plus(before.skipped, 1), ..before });
        lemma_walk_told(before.holding(replies.last()));
        lemma_walk_told(before);
    }
}

proof fn lemma_walk_told(m: LocalModel)
    ensures
        m.walked().ended() ==> m.walked().stage->Over_0 == Ok::<(u64, u64), Seq<char>>(
            (m.walked().copied, m.walked().skipped),
        ),
    decreases m.items.len(),
{
    if m.items.len() > 0 && is_folder(m.items[0]) {
        lemma_walk_told(
            LocalModel {
                items: m.items.skip(1),
                stack: m.stack.push((m.items[0].path, pushed(m.dst_dir, m.items[0].name))),
                ..m
            },
        );
    }
}

/// Every file that was met is counted once: as copied or as skipped.
pub proof fn every_file_is_counted(
    from: Seq<char>,
    to: Seq<char>,
    cut: bool,
    replies: Seq<LocalReplyModel>,
)
    requires
        ran(LocalModel::fresh(from, to, cut), replies).ended(),
        all_files_met(LocalModel::fresh(from, to, cut), replies) < u64::MAX,
    ensures
        ({
            let end = ran(LocalModel::fresh(from, to, cut), replies);
            &&& end.copied + end.skipped == all_files_met(
                LocalModel::fresh(from, to, cut),
                replies,
            )
            &&& end.stage->Over_0 == Ok::<(u64, u64), Seq<char>>((end.copied, end.skipped))
        }),
{
    let start = LocalModel::fresh(from, to, cut);
    lemma_files_add_up(start, replies);
    lemma_told(start, replies);
}

/// What creating something needs done next.
#[derive(Debug)]
pub enum CreateAction {
    /// Create a local file; an existing one is refused by the system.
    CreateNewLocal { path: String },
    CreateLocalDir { path: String },
    CreateRemoteDir { path: String, mode: u32 },
    /// Tell whether a remote file is there.
    StatRemote { path: String },
    /// Create a remote file and close it.
    CreateRemote { path: String },
    Finish(Result<(), String>),
}

/// The action with its texts as characters.
pub enum CreateActionModel {
    CreateNewLocal { path: Seq<char> },
    CreateLocalDir { path: Seq<char> },
    CreateRemoteDir { path: Seq<char>, mode: u32 },
    StatRemote { path: Seq<char> },
    CreateRemote { path: Seq<char> },
    Finish(Result<(), Seq<char>>),
}

impl View for CreateAction {
    type V = CreateActionModel;

    open spec fn view(&self) -> CreateActionModel {
        match *self {
            CreateAction::CreateNewLocal { path } => CreateActionModel::CreateNewLocal {
                path: path@,
            },
            CreateAction::CreateLocalDir { path } => CreateActionModel::CreateLocalDir {
                path: path@,
            },
            CreateAction::CreateRemoteDir { path, mode } => CreateActionModel::CreateRemoteDir {
                path: path@,
                mode,
            },
            CreateAction::StatRemote { path } => CreateActionModel::StatRemote { path: path@ },
            CreateAction::CreateRemote { path } => CreateActionModel::CreateRemote { path: path@ },
            CreateAction::Finish(r) => CreateActionModel::Finish(
                match r {
                    Ok(()) => Ok(()),
                    Err(e) => Err(e@),
                },
            ),
        }
    }
}

/// How an empty file, or a directory, is created on this machine: a file
/// only where none is, so a typo cannot silently empty one.
pub fn create_local(path: &str, is_dir: bool) -> (r: CreateAction)
    ensures
        r@ == if is_dir {
            CreateActionModel::CreateLocalDir { path: path@ }
        } else {
            CreateActionModel::CreateNewLocal { path: path@ }
        },
{
    if is_dir {
        CreateAction::CreateLocalDir { path: path.to_owned() }
    } else {
        CreateAction::CreateNewLocal { path: path.to_owned() }
    }
}

/// How the same is begun on the remote side. SFTP cannot create
/// exclusively, so the presence check comes first: without it an existing
/// file would be truncated to zero bytes.
pub fn create_remote(path: &str, is_dir: bool) -> (r: CreateAction)
    ensures
        r@ == if is_dir {
            CreateActionModel::CreateRemoteDir { path: path@, mode: 0o755 }
        } else {
            CreateActionModel::StatRemote { path: path@ }
        },
{
    if is_dir {
        CreateAction::CreateRemoteDir { path: path.to_owned(), mode: 0o755 }
    } else {
        CreateAction::StatRemote { path: path.to_owned() }
    }
}

/// What follows the presence check of a remote file.
pub fn create_checked(path: &str, present: bool) -> (r: CreateAction)
    ensures
        r@ == if present {
            CreateActionModel::Finish(Err(path@ + ": already exists"@))
        } else {
            CreateActionModel::CreateRemote { path: path@ }
        },
{
    if present {
        CreateAction::Finish(Err(cat(path, ": already exists")))
    } else {
        CreateAction::CreateRemote { path: path.to_owned() }
    }
}

/// What stands at `dst` is asked about, and where nothing does, `src` is
/// copied there, after its directory was made.
pub open spec fn lands(m: LocalModel, src: Seq<char>, dst: Seq<char>, made: LocalReplyModel) -> bool {
    let free = m.after(LocalReplyModel::No);
    &&& m.action() == (LocalActionModel::Exists { path: dst })
    &&& match parent_of(dst) {
        Some(parent) => free.action() == (LocalActionModel::MakeDirs { path: parent })
            && free.after(made).action() == (LocalActionModel::Copy { from: src, to: dst }),
        None => free.action() == (LocalActionModel::Copy { from: src, to: dst }),
    }
}

/// A single file is copied from where it is to where it was to go; where
/// something is there it is skipped and stays, and only a move removes it,
/// after it was copied.
pub proof fn a_single_file_is_copied_to_its_place(
    from: Seq<char>,
    to: Seq<char>,
    cut: bool,
    made: LocalReplyModel,
    src: Seq<char>,
    dst: Seq<char>,
)
    requires
        made !is Failed,
    ensures
        ({
            let start = LocalModel::fresh(from, to, cut);
            let asked = start.after(LocalReplyModel::No);
            let copying = asked.at_stage(LocalStageModel::Copy { src, dst });
            let copied = copying.after(LocalReplyModel::Done);
            &&& start.action() == (LocalActionModel::Kind { path: from })
            &&& lands(asked, from, to, made)
            &&& asked.after(LocalReplyModel::Yes).action() == LocalActionModel::Finish(
                Ok((0u64, 1u64)),
            )
            &&& !cut ==> copied.action() == LocalActionModel::Finish(Ok((1u64, 0u64)))
            &&& cut ==> copied.action() == (LocalActionModel::Remove { path: from, is_dir: false })
                && copied.after(LocalReplyModel::Done).action() == LocalActionModel::Finish(
                Ok((1u64, 0u64)),
            )
        }),
{
}

/// A directory is made where it was to go before its own listing is read,
/// and every file that the listing holds is copied from its path to its name
/// below the directory's counterpart: what a link points at in its place.
pub proof fn a_listed_file_is_copied_under_its_name(
    m: LocalModel,
    items: Seq<ItemModel>,
    broken: Option<Seq<char>>,
    found: Seq<char>,
    made: LocalReplyModel,
)
    requires
        m.stage is ReadRoot || m.stage is Read,
        made !is Failed,
        items.len() > 0,
        !is_folder(items[0]),
    ensures
        ({
            let listed = m.after(LocalReplyModel::Listing { items, broken });
            let next = if m.stage is Read {
                listed.after(LocalReplyModel::Done)
            } else {
                listed
            };
            let dst = pushed(m.dst_dir, items[0].name);
            &&& m.stage is Read ==> listed.action() == (LocalActionModel::MakeDirs {
                path: m.dst_dir,
            })
            &&& !items[0].is_symlink ==> lands(next, items[0].path, dst, made)
            &&& items[0].is_symlink ==> next.action() == (LocalActionModel::Resolve {
                path: items[0].path,
            }) && lands(next.after(LocalReplyModel::Resolved(found)), found, dst, made)
        }),
{
}

/// A directory that holds one folder is gone into that folder, under the
/// folder's own path and with its name below the counterpart.
pub proof fn a_listed_folder_is_gone_into(m: LocalModel, item: ItemModel, rest: Seq<ItemModel>)
    requires
        m.stage is ReadRoot,
        m.stack.len() == 0,
        is_folder(item),
    ensures
        ({
            let read = m.after(LocalReplyModel::Listing { items: seq![item], broken: None });
            let made = read.after(LocalReplyModel::Listing { items: rest, broken: None });
            &&& read.action() == (LocalActionModel::ReadDir { path: item.path })
            &&& made.action() == (LocalActionModel::MakeDirs {
                path: pushed(m.dst_dir, item.name),
            })
        }),
{
    let held = m.holding(LocalReplyModel::Listing { items: seq![item], broken: None });
    let deeper = LocalModel {
        items: held.items.skip(1),
        stack: held.stack.push((item.path, pushed(m.dst_dir, item.name))),
        ..held
    };
    assert(held.items.skip(1) =~= Seq::empty());
    assert(held.walked() == deeper.walked());
    assert(deeper.stack.last() == (item.path, pushed(m.dst_dir, item.name)));
}

/// Every name in the listings is the name of an entry: no path of its own.
pub open spec fn plain_names(replies: Seq<LocalReplyModel>) -> bool {
    forall|i: int, k: int|
        0 <= i < replies.len() && replies[i] is Listing && 0 <= k < replies[i]->items.len()
            ==> plain_name((#[trigger] replies[i]->items[k]).name)
}

/// A name that no path buffer takes for an absolute path.
pub open spec fn plain_name(name: Seq<char>) -> bool {
    name.len() > 0 && name[0] != '/'
}

proof fn lemma_pushed_below(dir: Seq<char>, name: Seq<char>, to: Seq<char>)
    requires
        begins(dir, to),
        plain_name(name),
    ensures
        begins(pushed(dir, name), to),
{
    reveal_strlit("/");
    let p = pushed(dir, name);
    assert(p.take(to.len() as int) =~= dir.take(to.len() as int));
}

/// Everything that is to be written lies at or below `to`.
spec fn stays_below(m: LocalModel, to: Seq<char>) -> bool {
    &&& forall|i: int| 0 <= i < m.stack.len() ==> begins((#[trigger] m.stack[i]).1, to)
    &&& forall|i: int| 0 <= i < m.items.len() ==> plain_name((#[trigger] m.items[i]).name)
    &&& m.items.len() > 0 || m.stage is Read || m.stage is Mirror || m.stage is ReadRoot ==> begins(
        m.dst_dir,
        to,
    )
    &&& match m.stage {
        LocalStageModel::Resolve { dst, .. } => begins(dst, to),
        LocalStageModel::Check { dst, .. } => begins(dst, to),
        LocalStageModel::Parent { dst, .. } => begins(dst, to),
        LocalStageModel::Copy { dst, .. } => begins(dst, to),
        _ => true,
    }
}

proof fn lemma_walk_below(m: LocalModel, to: Seq<char>)
    requires
        forall|i: int| 0 <= i < m.stack.len() ==> begins((#[trigger] m.stack[i]).1, to),
        forall|i: int| 0 <= i < m.items.len() ==> plain_name((#[trigger] m.items[i]).name),
        m.items.len() > 0 ==> begins(m.dst_dir, to),
    ensures
        stays_below(m.walked(), to),
        m.walked().from == m.from,
        m.walked().to == m.to,
        m.walked().cut == m.cut,
        m.walked().is_dir == m.is_dir,
    decreases m.items.len(),
{
    if m.items.len() > 0 {
        let item = m.items[0];
        let rest = m.items.skip(1);
        assert(plain_name(m.items[0].name));
        lemma_pushed_below(m.dst_dir, item.name, to);
        assert forall|i: int| 0 <= i < rest.len() implies plain_name(
            (#[trigger] rest[i]).name,
        ) by {
            assert(rest[i] == m.items[i + 1]);
        }
        if !item.is_symlink && item.is_dir {
            lemma_walk_below(
                LocalModel {
                    items: rest,
                    stack: m.stack.push((item.path, pushed(m.dst_dir, item.name))),
                    ..m
                },
                to,
            );
        }
    } else if m.broken is None && m.stack.len() > 0 {
        assert(begins(m.stack[m.stack.len() - 1].1, to));
        let w = m.walked();
        assert forall|i: int| 0 <= i < w.stack.len() implies begins(
            (#[trigger] w.stack[i]).1,
            to,
        ) by {
            assert(w.stack[i] == m.stack[i]);
        }
    }
}

proof fn lemma_ran_below(
    from: Seq<char>,
    to: Seq<char>,
    cut: bool,
    replies: Seq<LocalReplyModel>,
)
    requires
        plain_names(replies),
    ensures
        ({
            let m = ran(LocalModel::fresh(from, to, cut), replies);
            &&& m.from == from
            &&& m.to == to
            &&& m.cut == cut
            &&& stays_below(m, to)
            &&& m.stage is Remove ==> cut
        }),
    decreases replies.len(),
{
    assert(begins(to, to)) by {
        assert(to.take(to.len() as int) =~= to);
    }
    if replies.len() > 0 {
        let before = replies.drop_last();
        let reply = replies.last();
        assert forall|i: int, k: int|
            0 <= i < before.len() && before[i] is Listing && 0 <= k
                < before[i]->items.len() implies plain_name(
            (#[trigger] before[i]->items[k]).name,
        ) by {
            assert(before[i] == replies[i]);
            assert(plain_name(replies[i]->items[k].name));
        }
        lemma_ran_below(from, to, cut, before);
        let m = ran(LocalModel::fresh(from, to, cut), before);
        let held = m.holding(reply);
        assert forall|i: int| 0 <= i < held.items.len() implies plain_name(
            (#[trigger] held.items[i]).name,
        ) by {
            let last = replies.len() - 1;
            assert(replies[last] is Listing);
            assert(plain_name(replies[last]->items[i].name));
        }
        if m.stage is ReadRoot {
            lemma_walk_below(held, to);
        }
        if m.stage is Mirror {
            lemma_walk_below(m, to);
        }
        lemma_walk_below(LocalModel { copied: plus(m.copied, 1), ..m }, to);
        lemma_walk_below(LocalModel { skipped: plus(m.skipped, 1), ..m }, to);
        lemma_walk_stage(LocalModel { copied: plus(m.copied, 1), ..m });
        lemma_walk_stage(LocalModel { skipped: plus(m.skipped, 1), ..m });
        lemma_walk_stage(held);
        lemma_walk_stage(m);
    }
}

/// Whatever is replied, a copy writes nothing outside its destination,
/// looks first at its own source, and removes nothing but that source, in a
/// move.  Of the directories it makes only the one that holds the
/// destination may lie above it.
pub proof fn a_copy_stays_below_its_destination(
    from: Seq<char>,
    to: Seq<char>,
    cut: bool,
    replies: Seq<LocalReplyModel>,
)
    requires
        plain_names(replies),
    ensures
        match ran(LocalModel::fresh(from, to, cut), replies).action() {
            LocalActionModel::Kind { path } => path == from,
            LocalActionModel::Exists { path } => begins(path, to),
            LocalActionModel::Copy { to: path, .. } => begins(path, to),
            LocalActionModel::MakeDirs { path } => begins(path, to) || exists|dst: Seq<char>|
                #[trigger] begins(dst, to) && parent_of(dst) == Some(path),
            LocalActionModel::Remove { path, .. } => path == from && cut,
            _ => true,
        },
{
    lemma_ran_below(from, to, cut, replies);
    lemma_parents(from, to, cut, replies);
    assert(begins(to, to)) by {
        assert(to.take(to.len() as int) =~= to);
    }
    let m = ran(LocalModel::fresh(from, to, cut), replies);
    if let LocalStageModel::Parent { src, dst, parent } = m.stage {
        assert(begins(dst, to) && parent_of(dst) == Some(parent));
    }
}

proof fn lemma_parents(
    from: Seq<char>,
    to: Seq<char>,
    cut: bool,
    replies: Seq<LocalReplyModel>,
)
    ensures
        match ran(LocalModel::fresh(from, to, cut), replies).stage {
            LocalStageModel::Parent { dst, parent, .. } => parent_of(dst) == Some(parent),
            _ => true,
        },
    decreases replies.len(),
{
    if replies.len() > 0 {
        let m = ran(LocalModel::fresh(from, to, cut), replies.drop_last());
        lemma_walk_stage(LocalModel { copied: plus(m.copied, 1), ..m });
        lemma_walk_stage(LocalModel { skipped: plus(m.skipped, 1), ..m });
        lemma_walk_stage(m.holding(replies.last()));
        lemma_walk_stage(m);
    }
}

} // verus!

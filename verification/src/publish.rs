//! Moving a finished part file onto its remote destination.

use crate::text::cat;
use vstd::prelude::*;
use vstd::string::*;

verus! {

/// Where publishing stands.
#[derive(Debug)]
pub enum PublishStage {
    /// Renaming the part onto the destination.
    Replace,
    /// Moving the old destination aside.
    Aside,
    /// Renaming the part once more.
    Retry { had_dest: bool },
    /// Removing the old destination.
    DropBackup,
    /// Putting the old destination back.
    Restore { err: String },
    Over(Result<(), String>),
}

/// The stage with its errors as characters.
pub enum PublishStageModel {
    Replace,
    Aside,
    Retry { had_dest: bool },
    DropBackup,
    Restore { err: Seq<char> },
    Over(Result<(), Seq<char>>),
}

/// A result with its error as characters.
pub open spec fn told(r: Result<(), String>) -> Result<(), Seq<char>> {
    match r {
        Ok(()) => Ok(()),
        Err(e) => Err(e@),
    }
}

impl View for PublishStage {
    type V = PublishStageModel;

    open spec fn view(&self) -> PublishStageModel {
        match *self {
            PublishStage::Replace => PublishStageModel::Replace,
            PublishStage::Aside => PublishStageModel::Aside,
            PublishStage::Retry { had_dest } => PublishStageModel::Retry { had_dest },
            PublishStage::DropBackup => PublishStageModel::DropBackup,
            PublishStage::Restore { err } => PublishStageModel::Restore { err: err@ },
            PublishStage::Over(r) => PublishStageModel::Over(told(r)),
        }
    }
}

/// What publishing needs done next.
#[derive(Debug)]
pub enum PublishAction {
    Rename { from: String, to: String },
    Remove { path: String },
    Finish(Result<(), String>),
}

/// The action with its paths as characters.
pub enum PublishActionModel {
    Rename { from: Seq<char>, to: Seq<char> },
    Remove { path: Seq<char> },
    Finish(Result<(), Seq<char>>),
}

impl View for PublishAction {
    type V = PublishActionModel;

    open spec fn view(&self) -> PublishActionModel {
        match *self {
            PublishAction::Rename { from, to } => PublishActionModel::Rename {
                from: from@,
                to: to@,
            },
            PublishAction::Remove { path } => PublishActionModel::Remove { path: path@ },
            PublishAction::Finish(r) => PublishActionModel::Finish(told(r)),
        }
    }
}

/// Moves a finished part file onto its destination.  OpenSSH replaces an
/// existing destination; servers that follow the draft strictly refuse.
/// There the old file is moved aside instead of deleted: deleting first
/// would mean that a second failure (a transient error, not "already
/// exists") left the user with neither the new file nor the old one.
#[derive(Debug)]
pub struct Publish {
    pub part: String,
    pub dest: String,
    pub stage: PublishStage,
}

/// What publishing holds.
pub struct PublishModel {
    pub part: Seq<char>,
    pub dest: Seq<char>,
    pub stage: PublishStageModel,
}

impl View for Publish {
    type V = PublishModel;

    open spec fn view(&self) -> PublishModel {
        PublishModel { part: self.part@, dest: self.dest@, stage: self.stage@ }
    }
}

impl PublishModel {
    pub open spec fn fresh(part: Seq<char>, dest: Seq<char>) -> PublishModel {
        PublishModel { part, dest, stage: PublishStageModel::Replace }
    }

    /// Where the old destination waits.
    pub open spec fn backup(self) -> Seq<char> {
        self.dest + ".kaku-old"@
    }

    pub open spec fn action(self) -> PublishActionModel {
        match self.stage {
            PublishStageModel::Replace => PublishActionModel::Rename {
                from: self.part,
                to: self.dest,
            },
            PublishStageModel::Aside => PublishActionModel::Rename {
                from: self.dest,
                to: self.backup(),
            },
            PublishStageModel::Retry { had_dest } => PublishActionModel::Rename {
                from: self.part,
                to: self.dest,
            },
            PublishStageModel::DropBackup => PublishActionModel::Remove { path: self.backup() },
            PublishStageModel::Restore { err } => PublishActionModel::Rename {
                from: self.backup(),
                to: self.dest,
            },
            PublishStageModel::Over(r) => PublishActionModel::Finish(r),
        }
    }

    pub open spec fn after(self, error: Option<Seq<char>>) -> PublishModel {
        let stage = match (self.stage, error) {
            (PublishStageModel::Replace, None) => PublishStageModel::Over(Ok(())),
            (PublishStageModel::Replace, Some(_)) => PublishStageModel::Aside,
            (PublishStageModel::Aside, e) => PublishStageModel::Retry { had_dest: e is None },
            (PublishStageModel::Retry { had_dest }, None) => if had_dest {
                PublishStageModel::DropBackup
            } else {
                PublishStageModel::Over(Ok(()))
            },
            (PublishStageModel::Retry { had_dest }, Some(err)) => if had_dest {
                PublishStageModel::Restore { err }
            } else {
                PublishStageModel::Over(Err(err))
            },
            (PublishStageModel::DropBackup, _) => PublishStageModel::Over(Ok(())),
            (PublishStageModel::Restore { err }, _) => PublishStageModel::Over(Err(err)),
            (PublishStageModel::Over(r), _) => PublishStageModel::Over(r),
        };
        PublishModel { stage, ..self }
    }
}

impl Publish {
    pub fn new(part: String, dest: String) -> (r: Self)
        ensures
            r@ == PublishModel::fresh(part@, dest@),
    {
        Publish { part, dest, stage: PublishStage::Replace }
    }

    fn backup(&self) -> (r: String)
        ensures
            r@ == self@.backup(),
    {
        cat(self.dest.as_str(), ".kaku-old")
    }

    /// What is to be done next.
    pub fn action(&self) -> (r: PublishAction)
        ensures
            r@ == self@.action(),
    {
        match &self.stage {
            PublishStage::Replace => PublishAction::Rename {
                from: self.part.clone(),
                to: self.dest.clone(),
            },
            PublishStage::Aside => PublishAction::Rename {
                from: self.dest.clone(),
                to: self.backup(),
            },
            PublishStage::Retry { .. } => PublishAction::Rename {
                from: self.part.clone(),
                to: self.dest.clone(),
            },
            PublishStage::DropBackup => PublishAction::Remove { path: self.backup() },
            PublishStage::Restore { .. } => PublishAction::Rename {
                from: self.backup(),
                to: self.dest.clone(),
            },
            PublishStage::Over(Ok(())) => PublishAction::Finish(Ok(())),
            PublishStage::Over(Err(e)) => PublishAction::Finish(Err(e.clone())),
        }
    }

    /// Take the outcome of the action: none, or the error it failed with.
    pub fn feed(&mut self, error: Option<String>)
        ensures
            final(self)@ == old(self)@.after(crate::paths::opt(error)),
    {
        let next = match (&self.stage, error) {
            (PublishStage::Replace, None) => PublishStage::Over(Ok(())),
            (PublishStage::Replace, Some(_)) => PublishStage::Aside,
            (PublishStage::Aside, None) => PublishStage::Retry { had_dest: true },
            (PublishStage::Aside, Some(_)) => PublishStage::Retry { had_dest: false },
            (PublishStage::Retry { had_dest }, None) => if *had_dest {
                PublishStage::DropBackup
            } else {
                PublishStage::Over(Ok(()))
            },
            (PublishStage::Retry { had_dest }, Some(err)) => if *had_dest {
                PublishStage::Restore { err }
            } else {
                PublishStage::Over(Err(err))
            },
            (PublishStage::DropBackup, _) => PublishStage::Over(Ok(())),
            (PublishStage::Restore { err }, _) => PublishStage::Over(Err(err.clone())),
            (PublishStage::Over(_), _) => {
                return;
            },
        };
        self.stage = next;
    }
}

/// Contents of a server's files, by path.
pub type Files = Map<Seq<char>, int>;

/// The files after an action that succeeded or changed nothing.
pub open spec fn performed(files: Files, action: PublishActionModel, ok: bool) -> Files {
    match action {
        PublishActionModel::Rename { from, to } => if ok {
            files.remove(from).insert(to, files[from])
        } else {
            files
        },
        PublishActionModel::Remove { path } => if ok {
            files.remove(path)
        } else {
            files
        },
        PublishActionModel::Finish(_) => files,
    }
}

/// A rename can only succeed on a file that is there.
pub open spec fn possible(files: Files, action: PublishActionModel, ok: bool) -> bool {
    match action {
        PublishActionModel::Rename { from, to } => ok ==> files.contains_key(from),
        _ => true,
    }
}

/// The content at a path.
pub open spec fn at(files: Files, path: Seq<char>) -> Option<int> {
    if files.contains_key(path) {
        Some(files[path])
    } else {
        None
    }
}

/// Neither the new content nor the old one is lost: until the new one is
/// published, the part holds it, and the old one is at the destination or
/// aside.
pub open spec fn nothing_lost(p: PublishModel, files: Files, new: int, was: Option<int>) -> bool {
    match p.stage {
        PublishStageModel::Replace => at(files, p.part) == Some(new) && at(files, p.dest) == was,
        PublishStageModel::Aside => at(files, p.part) == Some(new) && at(files, p.dest) == was,
        PublishStageModel::Retry { had_dest } => at(files, p.part) == Some(new) && (if had_dest {
            was is Some && at(files, p.backup()) == was
        } else {
            at(files, p.dest) == was
        }),
        PublishStageModel::DropBackup => at(files, p.dest) == Some(new),
        PublishStageModel::Restore { err } => at(files, p.part) == Some(new) && was is Some && at(
            files,
            p.backup(),
        ) == was,
        PublishStageModel::Over(Ok(())) => at(files, p.dest) == Some(new),
        PublishStageModel::Over(Err(_)) => at(files, p.part) == Some(new) && (at(files, p.dest)
            == was || (was is Some && at(files, p.backup()) == was)),
    }
}

/// Whatever the server answers, publishing loses nothing: a success leaves
/// the new content at the destination, and a failure leaves the part in
/// place and the old content at the destination, or aside where even
/// putting it back failed.
pub proof fn publishing_loses_nothing(
    p: PublishModel,
    files: Files,
    new: int,
    was: Option<int>,
    error: Option<Seq<char>>,
)
    requires
        p.part != p.dest,
        p.part != p.backup(),
        nothing_lost(p, files, new, was),
        possible(files, p.action(), error is None),
    ensures
        nothing_lost(p.after(error), performed(files, p.action(), error is None), new, was),
        p.after(error).part == p.part,
        p.after(error).dest == p.dest,
{
    reveal_strlit(".kaku-old");
    assert(p.backup() != p.dest) by {
        assert(p.backup().len() == p.dest.len() + 9);
    }
    let g = performed(files, p.action(), error is None);
    assert(p.after(error).backup() == p.backup());
    match p.stage {
        PublishStageModel::Restore { err } => {
            if error is None {
                assert(at(g, p.dest) == was);
            }
        },
        _ => {},
    }
}

/// Publishing comes to an end after at most four operations.
pub proof fn publishing_ends(
    p: PublishModel,
    e1: Option<Seq<char>>,
    e2: Option<Seq<char>>,
    e3: Option<Seq<char>>,
    e4: Option<Seq<char>>,
)
    ensures
        p.after(e1).after(e2).after(e3).after(e4).stage is Over,
{
}

/// A server that replaces nothing is got past: where the first rename is
/// refused the old file is set aside, the part renamed once more, and the
/// old file removed; where even that is refused the old file is put back
/// and the second refusal is told.
pub proof fn a_strict_server_is_got_past(
    part: Seq<char>,
    dest: Seq<char>,
    first: Seq<char>,
    second: Seq<char>,
    last: Option<Seq<char>>,
)
    ensures
        ({
            let aside = dest + ".kaku-old"@;
            let onto = PublishActionModel::Rename { from: part, to: dest };
            let a = PublishModel::fresh(part, dest);
            let b = a.after(Some(first));
            let c = b.after(None);
            let d = b.after(Some(second));
            &&& a.action() == onto
            &&& a.after(None).action() == PublishActionModel::Finish(Ok(()))
            &&& b.action() == PublishActionModel::Rename { from: dest, to: aside }
            &&& c.action() == onto
            &&& c.after(None).action() == PublishActionModel::Remove { path: aside }
            &&& c.after(None).after(last).action() == PublishActionModel::Finish(Ok(()))
            &&& c.after(Some(second)).action() == PublishActionModel::Rename {
                from: aside,
                to: dest,
            }
            &&& c.after(Some(second)).after(last).action() == PublishActionModel::Finish(
                Err(second),
            )
            &&& d.action() == onto
            &&& d.after(None).action() == PublishActionModel::Finish(Ok(()))
            &&& d.after(Some(first)).action() == PublishActionModel::Finish(Err(first))
        }),
{
}

} // verus!

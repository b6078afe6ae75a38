//! The background worker: what a request of the browser asks for, and what
//! its outcome is reported as.

use crate::edit_sync::RemoteStamp;
use crate::local_copy::{create_local, create_remote, CreateAction, CreateActionModel};
use crate::overlay::OpResult;
use crate::state::{request_list, OpRequest, RequestModel, ScanFile};
use crate::types::{FileEntry, PanelSide};
use vstd::prelude::*;
use vstd::string::*;

verus! {

/// Seconds that any single remote operation may take. A half-dead
/// connection (NAT drop, server restart) otherwise wedges the worker
/// forever with no error and no recovery.
pub const REMOTE_OP_TIMEOUT: u64 = 20;

/// What a request asks for.
#[derive(Debug)]
pub enum Work {
    ListLocal { path: String },
    /// List a remote directory; an empty path stands for where the server
    /// resolves `.`, the remote home.
    ListRemote { path: String },
    ScanLocal { root: String },
    ScanRemote { root: String },
    Preview { source: String, dest: String },
    RenameLocal { from: String, to: String },
    RenameRemote { from: String, to: String },
    Create(CreateAction),
    CopyLocal { from: String, to: String, cut: bool },
    RemoveLocal { path: String, is_dir: bool },
    RemoveRemote { path: String, is_dir: bool },
    /// There is no session for it.
    Refuse,
}

/// The work with its paths as characters.
pub enum WorkModel {
    ListLocal { path: Seq<char> },
    ListRemote { path: Seq<char> },
    ScanLocal { root: Seq<char> },
    ScanRemote { root: Seq<char> },
    Preview { source: Seq<char>, dest: Seq<char> },
    RenameLocal { from: Seq<char>, to: Seq<char> },
    RenameRemote { from: Seq<char>, to: Seq<char> },
    Create(CreateActionModel),
    CopyLocal { from: Seq<char>, to: Seq<char>, cut: bool },
    RemoveLocal { path: Seq<char>, is_dir: bool },
    RemoveRemote { path: Seq<char>, is_dir: bool },
    Refuse,
}

impl View for Work {
    type V = WorkModel;

    open spec fn view(&self) -> WorkModel {
        match *self {
            Work::ListLocal { path } => WorkModel::ListLocal { path: path@ },
            Work::ListRemote { path } => WorkModel::ListRemote { path: path@ },
            Work::ScanLocal { root } => WorkModel::ScanLocal { root: root@ },
            Work::ScanRemote { root } => WorkModel::ScanRemote { root: root@ },
            Work::Preview { source, dest } => WorkModel::Preview { source: source@, dest: dest@ },
            Work::RenameLocal { from, to } => WorkModel::RenameLocal { from: from@, to: to@ },
            Work::RenameRemote { from, to } => WorkModel::RenameRemote { from: from@, to: to@ },
            Work::Create(a) => WorkModel::Create(a@),
            Work::CopyLocal { from, to, cut } => WorkModel::CopyLocal {
                from: from@,
                to: to@,
                cut,
            },
            Work::RemoveLocal { path, is_dir } => WorkModel::RemoveLocal { path: path@, is_dir },
            Work::RemoveRemote { path, is_dir } => WorkModel::RemoveRemote { path: path@, is_dir },
            Work::Refuse => WorkModel::Refuse,
        }
    }
}

impl RequestModel {
    /// The request needs a session.
    pub open spec fn needs_session(self) -> bool {
        match self {
            RequestModel::Ls { side, .. } => side == PanelSide::Remote,
            RequestModel::ScanTree { side, .. } => side == PanelSide::Remote,
            RequestModel::OpenRemote { .. } => true,
            RequestModel::Rename { side, .. } => side == PanelSide::Remote,
            RequestModel::Create { side, .. } => side == PanelSide::Remote,
            RequestModel::LocalCopy { .. } => false,
            RequestModel::Delete { side, .. } => side == PanelSide::Remote,
        }
    }

    /// What the request asks for.
    pub open spec fn work(self, connected: bool) -> WorkModel {
        if self.needs_session() && !connected {
            WorkModel::Refuse
        } else {
            match self {
                RequestModel::Ls { side, path } => match side {
                    PanelSide::Local => WorkModel::ListLocal { path },
                    PanelSide::Remote => WorkModel::ListRemote { path },
                },
                RequestModel::ScanTree { side, root, .. } => match side {
                    PanelSide::Local => WorkModel::ScanLocal { root },
                    PanelSide::Remote => WorkModel::ScanRemote { root },
                },
                RequestModel::OpenRemote { source, dest } => WorkModel::Preview { source, dest },
                RequestModel::Rename { side, from, to } => match side {
                    PanelSide::Local => WorkModel::RenameLocal { from, to },
                    PanelSide::Remote => WorkModel::RenameRemote { from, to },
                },
                RequestModel::Create { side, path, is_dir } => WorkModel::Create(
                    match (side, is_dir) {
                        (PanelSide::Local, true) => CreateActionModel::CreateLocalDir { path },
                        (PanelSide::Local, false) => CreateActionModel::CreateNewLocal { path },
                        (PanelSide::Remote, true) => CreateActionModel::CreateRemoteDir {
                            path,
                            mode: 0o755,
                        },
                        (PanelSide::Remote, false) => CreateActionModel::StatRemote { path },
                    },
                ),
                RequestModel::LocalCopy { from, to, cut } => WorkModel::CopyLocal { from, to, cut },
                RequestModel::Delete { side, path, is_dir } => match side {
                    PanelSide::Local => WorkModel::RemoveLocal { path, is_dir },
                    PanelSide::Remote => WorkModel::RemoveRemote { path, is_dir },
                },
            }
        }
    }
}

fn needs_session(request: &OpRequest) -> (r: bool)
    ensures
        r == request@.needs_session(),
{
    match request {
        OpRequest::Ls { side, .. } => *side == PanelSide::Remote,
        OpRequest::ScanTree { side, .. } => *side == PanelSide::Remote,
        OpRequest::OpenRemote { .. } => true,
        OpRequest::Rename { side, .. } => *side == PanelSide::Remote,
        OpRequest::Create { side, .. } => *side == PanelSide::Remote,
        OpRequest::LocalCopy { .. } => false,
        OpRequest::Delete { side, .. } => *side == PanelSide::Remote,
    }
}

/// What a request asks for, with or without a session at hand.
pub fn plan(request: &OpRequest, connected: bool) -> (r: Work)
    ensures
        r@ == request@.work(connected),
{
    if needs_session(request) && !connected {
        return Work::Refuse;
    }
    match request {
        OpRequest::Ls { side, path } => match side {
            PanelSide::Local => Work::ListLocal { path: path.clone() },
            PanelSide::Remote => Work::ListRemote { path: path.clone() },
        },
        OpRequest::ScanTree { side, root, .. } => match side {
            PanelSide::Local => Work::ScanLocal { root: root.clone() },
            PanelSide::Remote => Work::ScanRemote { root: root.clone() },
        },
        OpRequest::OpenRemote { source, dest } => Work::Preview {
            source: source.clone(),
            dest: dest.clone(),
        },
        OpRequest::Rename { side, from, to } => match side {
            PanelSide::Local => Work::RenameLocal { from: from.clone(), to: to.clone() },
            PanelSide::Remote => Work::RenameRemote { from: from.clone(), to: to.clone() },
        },
        OpRequest::Create { side, path, is_dir } => match side {
            PanelSide::Local => Work::Create(create_local(path.as_str(), *is_dir)),
            PanelSide::Remote => Work::Create(create_remote(path.as_str(), *is_dir)),
        },
        OpRequest::LocalCopy { from, to, cut } => Work::CopyLocal {
            from: from.clone(),
            to: to.clone(),
            cut: *cut,
        },
        OpRequest::Delete { side, path, is_dir } => match side {
            PanelSide::Local => Work::RemoveLocal { path: path.clone(), is_dir: *is_dir },
            PanelSide::Remote => Work::RemoveRemote { path: path.clone(), is_dir: *is_dir },
        },
    }
}

/// How an operation ended.
#[derive(Debug)]
pub enum Attempt<T> {
    /// There was no session for it.
    NoSession,
    /// It took too long.
    TimedOut,
    Ended(Result<T, String>),
}

impl<T> Attempt<T> {
    /// The error, unless the operation succeeded.
    pub open spec fn error(self) -> Option<Seq<char>> {
        match self {
            Attempt::NoSession => Some("not connected"@),
            Attempt::TimedOut => Some("connection timed out; session unresponsive"@),
            Attempt::Ended(Ok(_)) => None,
            Attempt::Ended(Err(e)) => Some(e@),
        }
    }

    /// The outcome as it is reported.
    pub fn outcome(self) -> (r: Result<T, String>)
        ensures
            told(self, r),
    {
        match self {
            Attempt::NoSession => Err("not connected".to_owned()),
            Attempt::TimedOut => Err("connection timed out; session unresponsive".to_owned()),
            Attempt::Ended(r) => r,
        }
    }
}

/// The directory that was listed: an empty remote path stands for where the
/// server resolved `.`, or the root where it did not. Without a session
/// nothing was resolved.
pub open spec fn listed_path(
    side: PanelSide,
    path: Seq<char>,
    resolved: Option<Seq<char>>,
    connected: bool,
) -> Seq<char> {
    if side == PanelSide::Remote && path.len() == 0 && connected {
        match resolved {
            Some(p) => p,
            None => "/"@,
        }
    } else {
        path
    }
}

/// The remote directory to list for `path`; `resolved` is what the server
/// made of `.`, where it was asked and answered.
pub fn listing_dir(path: &str, resolved: Option<String>) -> (r: String)
    ensures
        r@ == listed_path(PanelSide::Remote, path@, crate::paths::opt(resolved), true),
{
    if path.is_empty() {
        match resolved {
            Some(p) => p,
            None => "/".to_owned(),
        }
    } else {
        path.to_owned()
    }
}

/// What is told of an attempt: its value, or the error.
pub open spec fn told<T>(attempt: Attempt<T>, outcome: Result<T, String>) -> bool {
    match (outcome, attempt.error()) {
        (Ok(v), None) => attempt == Attempt::Ended(Ok::<T, String>(v)),
        (Err(e), Some(text)) => e@ == text,
        _ => false,
    }
}

/// What is told of the attempt to fetch a preview.
pub open spec fn told_preview(
    attempt: Attempt<(u64, Option<RemoteStamp>)>,
    outcome: Result<u64, String>,
    stamp: Option<RemoteStamp>,
) -> bool {
    match (outcome, attempt.error()) {
        (Ok(bytes), None) => attempt == Attempt::Ended(
            Ok::<(u64, Option<RemoteStamp>), String>((bytes, stamp)),
        ),
        (Err(e), Some(text)) => e@ == text && stamp is None,
        _ => false,
    }
}

/// The directory that a listing is reported for: what was resolved counts
/// where it came in time.
pub open spec fn reported_path(
    side: PanelSide,
    path: Seq<char>,
    resolved: Option<String>,
    attempt: Attempt<Vec<FileEntry>>,
) -> Seq<char> {
    listed_path(
        side,
        path,
        match attempt {
            Attempt::TimedOut => None,
            _ => crate::paths::opt(resolved),
        },
        attempt !is NoSession,
    )
}

/// Report a listing. `resolved` is what the server made of `.`, where it
/// was asked and answered in time.
pub fn report_listing(
    side: PanelSide,
    path: String,
    resolved: Option<String>,
    attempt: Attempt<Vec<FileEntry>>,
) -> (r: OpResult)
    ensures
        match r {
            OpResult::Listed { side: s, path: p, entries } => {
                &&& s == side
                &&& p@ == reported_path(side, path@, resolved, attempt)
                &&& told(attempt, entries)
            },
            _ => false,
        },
{
    let (connected, late) = match &attempt {
        Attempt::NoSession => (false, false),
        Attempt::TimedOut => (true, true),
        Attempt::Ended(_) => (true, false),
    };
    let shown = if side == PanelSide::Remote && path.as_str().is_empty() && connected {
        listing_dir(
            path.as_str(),
            if late {
                None
            } else {
                resolved
            },
        )
    } else {
        path
    };
    OpResult::Listed { side, path: shown, entries: attempt.outcome() }
}

/// Report that an entry was created, renamed, moved or removed, or could
/// not be.
pub fn report_change(side: PanelSide, attempt: Attempt<()>) -> (r: OpResult)
    ensures
        match r {
            OpResult::Mutated { side: s, outcome } => s == side && told(attempt, outcome),
            _ => false,
        },
{
    OpResult::Mutated { side, outcome: attempt.outcome() }
}

/// Report a fetched preview.
pub fn report_preview(
    source: String,
    dest: String,
    attempt: Attempt<(u64, Option<RemoteStamp>)>,
) -> (r: OpResult)
    ensures
        match r {
            OpResult::Opened { source: s, dest: d, outcome, stamp } => {
                &&& s == source && d == dest
                &&& told_preview(attempt, outcome, stamp)
            },
            _ => false,
        },
{
    match attempt.outcome() {
        Ok((bytes, stamp)) => OpResult::Opened { source, dest, outcome: Ok(bytes), stamp },
        Err(e) => OpResult::Opened { source, dest, outcome: Err(e), stamp: None },
    }
}

/// Report the files of a folder.
pub fn report_scan(
    side: PanelSide,
    root: String,
    dest: String,
    dest_side: PanelSide,
    cut_source: bool,
    attempt: Attempt<Vec<ScanFile>>,
) -> (r: OpResult)
    ensures
        match r {
            OpResult::Scanned { side: s, root: ro, dest: d, dest_side: ds, cut_source: c, files } => {
                &&& s == side && ro == root && d == dest && ds == dest_side && c == cut_source
                &&& told(attempt, files)
            },
            _ => false,
        },
{
    OpResult::Scanned { side, root, dest, dest_side, cut_source, files: attempt.outcome() }
}

/// What carrying out the work of a request gave.
#[derive(Debug)]
pub enum Outcome {
    /// Of listing a directory. `resolved` is what the server made of `.`,
    /// where it was asked and answered in time.
    Listing { resolved: Option<String>, attempt: Attempt<Vec<FileEntry>> },
    /// Of walking a folder.
    Scan(Attempt<Vec<ScanFile>>),
    /// Of fetching a preview.
    Preview(Attempt<(u64, Option<RemoteStamp>)>),
    /// Of creating, renaming, moving or removing something.
    Change(Attempt<()>),
}

impl Outcome {
    /// The outcome is one that the request can have.
    pub open spec fn fits(self, request: RequestModel) -> bool {
        match request {
            RequestModel::Ls { .. } => self is Listing,
            RequestModel::ScanTree { .. } => self is Scan,
            RequestModel::OpenRemote { .. } => self is Preview,
            _ => self is Change,
        }
    }

    /// The error that is reported, unless the work succeeded.
    pub open spec fn error(self) -> Option<Seq<char>> {
        match self {
            Outcome::Listing { attempt, .. } => attempt.error(),
            Outcome::Scan(attempt) => attempt.error(),
            Outcome::Preview(attempt) => attempt.error(),
            Outcome::Change(attempt) => attempt.error(),
        }
    }
}

impl RequestModel {
    /// The side that a change takes place on.
    pub open spec fn changed_side(self) -> PanelSide {
        match self {
            RequestModel::Rename { side, .. } => side,
            RequestModel::Create { side, .. } => side,
            RequestModel::Delete { side, .. } => side,
            _ => PanelSide::Local,
        }
    }

    /// The outcome of a request that there is no session for.
    pub open spec fn refusal(self) -> Outcome {
        match self {
            RequestModel::Ls { .. } => Outcome::Listing {
                resolved: None,
                attempt: Attempt::NoSession,
            },
            RequestModel::ScanTree { .. } => Outcome::Scan(Attempt::NoSession),
            RequestModel::OpenRemote { .. } => Outcome::Preview(Attempt::NoSession),
            _ => Outcome::Change(Attempt::NoSession),
        }
    }

    /// The result is the report of the outcome.
    pub open spec fn answered_by(self, outcome: Outcome, result: OpResult) -> bool {
        outcome.fits(self) && match (self, outcome, result) {
            (
                RequestModel::Ls { side, path },
                Outcome::Listing { resolved, attempt },
                OpResult::Listed { side: s, path: p, entries },
            ) => s == side && p@ == reported_path(side, path, resolved, attempt) && told(
                attempt,
                entries,
            ),
            (
                RequestModel::ScanTree { side, root, dest, dest_side, cut_source },
                Outcome::Scan(attempt),
                OpResult::Scanned { side: s, root: r, dest: d, dest_side: ds, cut_source: c, files },
            ) => s == side && r@ == root && d@ == dest && ds == dest_side && c == cut_source
                && told(attempt, files),
            (
                RequestModel::OpenRemote { source, dest },
                Outcome::Preview(attempt),
                OpResult::Opened { source: s, dest: d, outcome: bytes, stamp },
            ) => s@ == source && d@ == dest && told_preview(attempt, bytes, stamp),
            (_, Outcome::Change(attempt), OpResult::Mutated { side: s, outcome: change }) => s
                == self.changed_side() && told(attempt, change),
            _ => false,
        }
    }
}

fn change_side(request: &OpRequest) -> (r: PanelSide)
    ensures
        r == request@.changed_side(),
{
    match request {
        OpRequest::Rename { side, .. } => *side,
        OpRequest::Create { side, .. } => *side,
        OpRequest::Delete { side, .. } => *side,
        _ => PanelSide::Local,
    }
}

/// Report the outcome of a request.
pub fn report(request: OpRequest, outcome: Outcome) -> (r: OpResult)
    requires
        outcome.fits(request@),
    ensures
        request@.answered_by(outcome, r),
{
    let changed = change_side(&request);
    match (request, outcome) {
        (OpRequest::Ls { side, path }, Outcome::Listing { resolved, attempt }) => report_listing(
            side,
            path,
            resolved,
            attempt,
        ),
        (
            OpRequest::ScanTree { side, root, dest, dest_side, cut_source },
            Outcome::Scan(attempt),
        ) => report_scan(side, root, dest, dest_side, cut_source, attempt),
        (OpRequest::OpenRemote { source, dest }, Outcome::Preview(attempt)) => report_preview(
            source,
            dest,
            attempt,
        ),
        (_, Outcome::Change(attempt)) => report_change(changed, attempt),
        // No other outcome fits a request.
        _ => report_change(changed, Attempt::NoSession),
    }
}

fn refused(request: &OpRequest) -> (r: Outcome)
    ensures
        r == request@.refusal(),
        r.fits(request@),
{
    match request {
        OpRequest::Ls { .. } => Outcome::Listing { resolved: None, attempt: Attempt::NoSession },
        OpRequest::ScanTree { .. } => Outcome::Scan(Attempt::NoSession),
        OpRequest::OpenRemote { .. } => Outcome::Preview(Attempt::NoSession),
        _ => Outcome::Change(Attempt::NoSession),
    }
}

/// The worker's queue: requests are carried out one at a time, in the order
/// in which they came.
#[derive(Debug)]
pub struct Worker {
    pub waiting: Vec<OpRequest>,
}

impl View for Worker {
    type V = Seq<RequestModel>;

    open spec fn view(&self) -> Seq<RequestModel> {
        request_list(self.waiting@)
    }
}

impl Worker {
    pub fn new() -> (r: Self)
        ensures
            r@ == Seq::<RequestModel>::empty(),
    {
        let r = Worker { waiting: Vec::new() };
        proof {
            assert(r@ =~= Seq::<RequestModel>::empty());
        }
        r
    }

    /// A request came in.
    pub fn ask(&mut self, request: OpRequest)
        ensures
            final(self)@ == old(self)@.push(request@),
    {
        let ghost before = self@;
        self.waiting.push(request);
        proof {
            assert(self@ =~= before.push(request@));
        }
    }

    /// The work to be carried out next, with or without a session at hand.
    pub fn next(&self, connected: bool) -> (r: Option<Work>)
        ensures
            match r {
                Some(work) => self@.len() > 0 && work@ == self@[0].work(connected),
                None => self@.len() == 0,
            },
    {
        if self.waiting.len() == 0 {
            return None;
        }
        proof {
            assert(self@[0] == self.waiting@[0]@);
        }
        Some(plan(&self.waiting[0], connected))
    }

    /// The work that was next is done; its report.
    pub fn finish(&mut self, outcome: Outcome) -> (r: Option<OpResult>)
        requires
            old(self)@.len() > 0 ==> outcome.fits(old(self)@[0]),
        ensures
            match r {
                Some(result) => {
                    &&& old(self)@.len() > 0
                    &&& old(self)@[0].answered_by(outcome, result)
                    &&& final(self)@ == old(self)@.skip(1)
                },
                None => old(self)@.len() == 0 && final(self)@ == old(self)@,
            },
    {
        if self.waiting.len() == 0 {
            return None;
        }
        let ghost before = self@;
        proof {
            assert(before[0] == self.waiting@[0]@);
        }
        let request = self.waiting.remove(0);
        proof {
            assert(self@ =~= before.skip(1));
        }
        Some(report(request, outcome))
    }

    /// The request that is next needs a session and there is none; its
    /// report.
    pub fn refuse(&mut self) -> (r: Option<OpResult>)
        ensures
            match r {
                Some(result) => {
                    &&& old(self)@.len() > 0
                    &&& old(self)@[0].answered_by(old(self)@[0].refusal(), result)
                    &&& final(self)@ == old(self)@.skip(1)
                },
                None => old(self)@.len() == 0 && final(self)@ == old(self)@,
            },
    {
        if self.waiting.len() == 0 {
            return None;
        }
        proof {
            assert(self@[0] == self.waiting@[0]@);
        }
        let outcome = refused(&self.waiting[0]);
        self.finish(outcome)
    }
}

/// A run of the worker until nothing waits: each step carries out the
/// request in front and reports its outcome.
pub open spec fn served(
    waiting: Seq<RequestModel>,
    outcomes: Seq<Outcome>,
    results: Seq<OpResult>,
) -> bool
    decreases waiting.len(),
{
    if waiting.len() == 0 {
        outcomes.len() == 0 && results.len() == 0
    } else {
        &&& outcomes.len() > 0
        &&& results.len() > 0
        &&& waiting[0].answered_by(outcomes[0], results[0])
        &&& served(waiting.skip(1), outcomes.skip(1), results.skip(1))
    }
}

/// The error that a result tells of.
pub open spec fn told_error(r: OpResult) -> Option<Seq<char>> {
    match r {
        OpResult::Listed { entries: Err(e), .. } => Some(e@),
        OpResult::Mutated { outcome: Err(e), .. } => Some(e@),
        OpResult::Opened { outcome: Err(e), .. } => Some(e@),
        OpResult::Scanned { files: Err(e), .. } => Some(e@),
        OpResult::ConnectFailed(e) => Some(e@),
        _ => None,
    }
}

/// The result is of the request's kind and names what the request named.
/// Where the listing of an empty remote path lands is the server's to say.
pub open spec fn matches_request(request: RequestModel, result: OpResult) -> bool {
    match (request, result) {
        (RequestModel::Ls { side, path }, OpResult::Listed { side: s, path: p, .. }) => s == side
            && (p@ == path || (side == PanelSide::Remote && path.len() == 0)),
        (
            RequestModel::ScanTree { side, root, dest, dest_side, cut_source },
            OpResult::Scanned { side: s, root: r, dest: d, dest_side: ds, cut_source: c, .. },
        ) => s == side && r@ == root && d@ == dest && ds == dest_side && c == cut_source,
        (
            RequestModel::OpenRemote { source, dest },
            OpResult::Opened { source: s, dest: d, .. },
        ) => s@ == source && d@ == dest,
        (RequestModel::Rename { side, .. }, OpResult::Mutated { side: s, .. }) => s == side,
        (RequestModel::Create { side, .. }, OpResult::Mutated { side: s, .. }) => s == side,
        (RequestModel::Delete { side, .. }, OpResult::Mutated { side: s, .. }) => s == side,
        (RequestModel::LocalCopy { .. }, OpResult::Mutated { side: s, .. }) => s
            == PanelSide::Local,
        _ => false,
    }
}

proof fn lemma_served_at(
    waiting: Seq<RequestModel>,
    outcomes: Seq<Outcome>,
    results: Seq<OpResult>,
    i: int,
)
    requires
        served(waiting, outcomes, results),
        0 <= i < waiting.len(),
    ensures
        outcomes.len() == waiting.len(),
        results.len() == waiting.len(),
        waiting[i].answered_by(outcomes[i], results[i]),
    decreases waiting.len(),
{
    reveal_with_fuel(served, 2);
    if waiting.len() > 1 {
        lemma_served_at(
            waiting.skip(1),
            outcomes.skip(1),
            results.skip(1),
            if i > 0 {
                i - 1
            } else {
                0
            },
        );
    }
}

/// Every request is answered exactly once and in order: over a run there
/// are as many results as requests, each of the kind of its request, with
/// the error of its outcome if there was one.
pub proof fn every_request_is_answered_in_order(
    requests: Seq<RequestModel>,
    outcomes: Seq<Outcome>,
    results: Seq<OpResult>,
)
    requires
        served(requests, outcomes, results),
    ensures
        results.len() == requests.len(),
        outcomes.len() == requests.len(),
        forall|i: int|
            0 <= i < requests.len() ==> matches_request(requests[i], #[trigger] results[i])
                && told_error(results[i]) == outcomes[i].error(),
{
    if requests.len() > 0 {
        lemma_served_at(requests, outcomes, results, 0);
    }
    assert forall|i: int| 0 <= i < requests.len() implies matches_request(
        requests[i],
        #[trigger] results[i],
    ) && told_error(results[i]) == outcomes[i].error() by {
        lemma_served_at(requests, outcomes, results, i);
    }
}

/// Without a session nothing remote is attempted: the work of a request that
/// needs one is to refuse it, and over a run each such request is answered
/// that there is no connection, with the path it named left as it was.
pub proof fn without_a_session_requests_are_refused(
    requests: Seq<RequestModel>,
    outcomes: Seq<Outcome>,
    results: Seq<OpResult>,
)
    requires
        served(requests, outcomes, results),
        forall|i: int|
            0 <= i < requests.len() && (#[trigger] requests[i]).needs_session() ==> outcomes[i]
                == requests[i].refusal(),
    ensures
        results.len() == requests.len(),
        forall|i: int|
            0 <= i < requests.len() && (#[trigger] requests[i]).needs_session() ==> {
                &&& requests[i].work(false) is Refuse
                &&& matches_request(requests[i], results[i])
                &&& told_error(results[i]) == Some("not connected"@)
                &&& match (requests[i], results[i]) {
                    (RequestModel::Ls { path, .. }, OpResult::Listed { path: p, .. }) => p@ == path,
                    _ => true,
                }
            },
{
    every_request_is_answered_in_order(requests, outcomes, results);
    assert forall|i: int|
        0 <= i < requests.len() && (#[trigger] requests[i]).needs_session() implies requests[
        i].answered_by(requests[i].refusal(), results[i]) by {
        lemma_served_at(requests, outcomes, results, i);
    }
}

/// Work is only ever what was asked for, on the side it was asked for: a
/// path that is removed, renamed, written or read is the path that the
/// request names, and nothing on the server is touched without a session.
pub proof fn work_is_what_was_asked_for(request: RequestModel, connected: bool)
    ensures
        match request.work(connected) {
            WorkModel::ListLocal { path } => request == (RequestModel::Ls {
                side: PanelSide::Local,
                path,
            }),
            WorkModel::ListRemote { path } => connected && request == (RequestModel::Ls {
                side: PanelSide::Remote,
                path,
            }),
            WorkModel::ScanLocal { root } => match request {
                RequestModel::ScanTree { side, root: of, .. } => side == PanelSide::Local && of
                    == root,
                _ => false,
            },
            WorkModel::ScanRemote { root } => connected && match request {
                RequestModel::ScanTree { side, root: of, .. } => side == PanelSide::Remote && of
                    == root,
                _ => false,
            },
            WorkModel::Preview { source, dest } => connected && request == (
            RequestModel::OpenRemote { source, dest }),
            WorkModel::RenameLocal { from, to } => request == (RequestModel::Rename {
                side: PanelSide::Local,
                from,
                to,
            }),
            WorkModel::RenameRemote { from, to } => connected && request == (RequestModel::Rename {
                side: PanelSide::Remote,
                from,
                to,
            }),
            WorkModel::CopyLocal { from, to, cut } => request == (RequestModel::LocalCopy {
                from,
                to,
                cut,
            }),
            WorkModel::RemoveLocal { path, is_dir } => request == (RequestModel::Delete {
                side: PanelSide::Local,
                path,
                is_dir,
            }),
            WorkModel::RemoveRemote { path, is_dir } => connected && request == (
            RequestModel::Delete { side: PanelSide::Remote, path, is_dir }),
            WorkModel::Create(CreateActionModel::CreateLocalDir { path }) => request == (
            RequestModel::Create { side: PanelSide::Local, path, is_dir: true }),
            WorkModel::Create(CreateActionModel::CreateNewLocal { path }) => request == (
            RequestModel::Create { side: PanelSide::Local, path, is_dir: false }),
            WorkModel::Create(CreateActionModel::CreateRemoteDir { path, mode }) => connected
                && mode == 0o755 && request == (RequestModel::Create {
                side: PanelSide::Remote,
                path,
                is_dir: true,
            }),
            WorkModel::Create(CreateActionModel::StatRemote { path }) => connected && request == (
            RequestModel::Create { side: PanelSide::Remote, path, is_dir: false }),
            WorkModel::Create(_) => false,
            WorkModel::Refuse => !connected,
        },
{
}

/// A request that stays on this machine is never refused, and with a
/// session none is.
pub proof fn local_work_needs_no_session(request: RequestModel, connected: bool)
    requires
        connected || match request {
            RequestModel::Ls { side, .. } => side == PanelSide::Local,
            RequestModel::ScanTree { side, .. } => side == PanelSide::Local,
            RequestModel::Rename { side, .. } => side == PanelSide::Local,
            RequestModel::Create { side, .. } => side == PanelSide::Local,
            RequestModel::Delete { side, .. } => side == PanelSide::Local,
            RequestModel::LocalCopy { .. } => true,
            RequestModel::OpenRemote { .. } => false,
        },
    ensures
        !(request.work(connected) is Refuse),
{
}

/// The directory that is listed is the one that was asked for; an empty
/// remote path is where the server says that it is, or the root.
pub proof fn the_asked_directory_is_listed(
    side: PanelSide,
    path: Seq<char>,
    resolved: Option<Seq<char>>,
    connected: bool,
)
    ensures
        path.len() > 0 || side == PanelSide::Local || !connected ==> listed_path(
            side,
            path,
            resolved,
            connected,
        ) == path,
        path.len() == 0 && side == PanelSide::Remote && connected ==> match resolved {
            Some(p) => listed_path(side, path, resolved, connected) == p,
            None => listed_path(side, path, resolved, connected) == "/"@,
        },
{
}

} // verus!

//! Bookkeeping of the file transfers between this machine and a remote
//! one: which transfers exist, how far they are, which connection each one
//! runs on, and what is announced about them.
//!
//! The manager holds plain state.  Its owner takes the queued jobs, runs
//! each on a worker, and reports back.

use crate::paths::opt;
use crate::text::{cat, same};
use std::collections::{HashMap, HashSet};
use vstd::hash_set::StringHashSet;
use vstd::prelude::*;
use vstd::string::*;

verus! {

broadcast use vstd::std_specs::hash::group_hash_axioms;

/// How many transfers may copy data at the same time, one per lane.
/// Additional transfers queue until a slot frees up so that a large
/// queue cannot starve the connection.
pub const MAX_CONCURRENT_TRANSFERS: usize = 4;

/// Events the consumer may be behind before progress updates are dropped;
/// terminal events are always delivered.
pub const EVENT_CHANNEL_CAPACITY: usize = 256;

/// Once finished, statuses are pruned when the list grows past this.
pub const MAX_RETAINED_STATUSES: usize = 64;

/// Files at or above this size transfer through multiple parallel
/// connections.
pub const PARALLEL_THRESHOLD: u64 = 16777216;

/// Total workers for a parallel transfer, including the main session.
pub const PARALLEL_WORKERS: usize = 4;

pub type TransferId = u64;

#[derive(Clone, Copy, Debug, PartialEq, Eq, Structural)]
pub enum Direction {
    Upload,
    Download,
    /// Remote to remote, e.g. pasting a copied file in the browser.
    Copy,
}

impl Direction {
    pub open spec fn mark(self) -> Seq<char> {
        match self {
            Direction::Upload => "↑"@,
            Direction::Download => "↓"@,
            Direction::Copy => "⇄"@,
        }
    }

    /// Glyph drawn next to a transfer in the UI.
    pub fn glyph(self) -> (r: &'static str)
        ensures
            r@ == self.mark(),
    {
        match self {
            Direction::Upload => "↑",
            Direction::Download => "↓",
            Direction::Copy => "⇄",
        }
    }
}

#[derive(Debug)]
pub enum TransferState {
    Queued,
    Running { bytes: u64, total: u64 },
    Done,
    Failed(String),
    Cancelled,
}

/// A transfer's state with the error as characters.
pub enum StateModel {
    Queued,
    Running { bytes: u64, total: u64 },
    Done,
    Failed(Seq<char>),
    Cancelled,
}

impl View for TransferState {
    type V = StateModel;

    open spec fn view(&self) -> StateModel {
        match *self {
            TransferState::Queued => StateModel::Queued,
            TransferState::Running { bytes, total } => StateModel::Running { bytes, total },
            TransferState::Done => StateModel::Done,
            TransferState::Failed(e) => StateModel::Failed(e@),
            TransferState::Cancelled => StateModel::Cancelled,
        }
    }
}

impl Clone for TransferState {
    fn clone(&self) -> (r: Self)
        ensures
            r == *self,
    {
        match self {
            TransferState::Queued => TransferState::Queued,
            TransferState::Running { bytes, total } => TransferState::Running {
                bytes: *bytes,
                total: *total,
            },
            TransferState::Done => TransferState::Done,
            TransferState::Failed(e) => TransferState::Failed(e.clone()),
            TransferState::Cancelled => TransferState::Cancelled,
        }
    }
}

impl StateModel {
    pub open spec fn terminal(self) -> bool {
        self is Done || self is Failed || self is Cancelled
    }
}

impl TransferState {
    pub fn is_terminal(&self) -> (r: bool)
        ensures
            r == self@.terminal(),
    {
        match self {
            TransferState::Queued => false,
            TransferState::Running { .. } => false,
            TransferState::Done => true,
            TransferState::Failed(_) => true,
            TransferState::Cancelled => true,
        }
    }
}

#[derive(Debug)]
pub struct TransferStatus {
    pub id: TransferId,
    pub direction: Direction,
    pub source: String,
    pub dest: String,
    pub state: TransferState,
}

/// A transfer's status with its texts as characters.
pub struct StatusModel {
    pub id: u64,
    pub direction: Direction,
    pub source: Seq<char>,
    pub dest: Seq<char>,
    pub state: StateModel,
}

impl View for TransferStatus {
    type V = StatusModel;

    open spec fn view(&self) -> StatusModel {
        StatusModel {
            id: self.id,
            direction: self.direction,
            source: self.source@,
            dest: self.dest@,
            state: self.state@,
        }
    }
}

impl Clone for TransferStatus {
    fn clone(&self) -> (r: Self)
        ensures
            r == *self,
    {
        TransferStatus {
            id: self.id,
            direction: self.direction,
            source: self.source.clone(),
            dest: self.dest.clone(),
            state: self.state.clone(),
        }
    }
}

/// Events emitted as transfers progress.  Progress details live in
/// [TransferManager::statuses]; `Updated` is only a wake-up signal and
/// `Finished` carries the terminal status.
#[derive(Debug)]
pub enum TransferEvent {
    Updated,
    Finished(TransferStatus),
}

/// An event with its texts as characters.
pub enum EventModel {
    Updated,
    Finished(StatusModel),
}

impl View for TransferEvent {
    type V = EventModel;

    open spec fn view(&self) -> EventModel {
        match *self {
            TransferEvent::Updated => EventModel::Updated,
            TransferEvent::Finished(s) => EventModel::Finished(s@),
        }
    }
}

impl Clone for TransferEvent {
    fn clone(&self) -> (r: Self)
        ensures
            r == *self,
    {
        match self {
            TransferEvent::Updated => TransferEvent::Updated,
            TransferEvent::Finished(s) => TransferEvent::Finished(s.clone()),
        }
    }
}

/// Why a transfer ended without its file in place.
#[derive(Debug)]
pub enum TransferError {
    Cancelled,
    /// The destination exists and this transfer was not allowed to
    /// replace it (a Finder drop onto an existing file).
    AlreadyExists(String),
    Failed(String),
}

/// A transfer error with its text as characters.
pub enum ErrorModel {
    Cancelled,
    AlreadyExists(Seq<char>),
    Failed(Seq<char>),
}

impl View for TransferError {
    type V = ErrorModel;

    open spec fn view(&self) -> ErrorModel {
        match *self {
            TransferError::Cancelled => ErrorModel::Cancelled,
            TransferError::AlreadyExists(p) => ErrorModel::AlreadyExists(p@),
            TransferError::Failed(e) => ErrorModel::Failed(e@),
        }
    }
}

impl Clone for TransferError {
    fn clone(&self) -> (r: Self)
        ensures
            r == *self,
    {
        match self {
            TransferError::Cancelled => TransferError::Cancelled,
            TransferError::AlreadyExists(p) => TransferError::AlreadyExists(p.clone()),
            TransferError::Failed(e) => TransferError::Failed(e.clone()),
        }
    }
}

impl ErrorModel {
    pub open spec fn text(self) -> Seq<char> {
        match self {
            ErrorModel::Cancelled => "cancelled"@,
            ErrorModel::AlreadyExists(p) => p
                + " already exists; drop it somewhere else or rename it"@,
            ErrorModel::Failed(e) => e,
        }
    }
}

impl TransferError {
    /// The error as the UI shows it.
    pub fn to_text(&self) -> (r: String)
        ensures
            r@ == self@.text(),
    {
        match self {
            TransferError::Cancelled => "cancelled".to_owned(),
            TransferError::AlreadyExists(p) => cat(
                p.as_str(),
                " already exists; drop it somewhere else or rename it",
            ),
            TransferError::Failed(e) => e.clone(),
        }
    }
}

/// The result of a transfer with its texts as characters.
pub open spec fn outcome(r: Result<(), TransferError>) -> Result<(), ErrorModel> {
    match r {
        Ok(()) => Ok(()),
        Err(e) => Err(e@),
    }
}

/// State a transfer ends in.
pub open spec fn end_state(r: Result<(), ErrorModel>) -> StateModel {
    match r {
        Ok(()) => StateModel::Done,
        Err(ErrorModel::Cancelled) => StateModel::Cancelled,
        Err(e) => StateModel::Failed(e.text()),
    }
}

/// State a transfer ends in.
pub fn final_state(result: &Result<(), TransferError>) -> (r: TransferState)
    ensures
        r@ == end_state(outcome(*result)),
{
    match result {
        Ok(()) => TransferState::Done,
        Err(TransferError::Cancelled) => TransferState::Cancelled,
        Err(e) => TransferState::Failed(e.to_text()),
    }
}

/// What a worker is to do.
#[derive(Debug)]
pub enum WorkerJob {
    Upload {
        local: String,
        remote: String,
        resume: bool,
        /// When false the upload refuses to replace an existing remote
        /// file.  The Finder drop paths use this so dragging a file over
        /// one that is already there can never clobber it silently.
        overwrite: bool,
    },
    /// Copy one remote file to another remote path.
    RemoteCopy { from: String, to: String },
    Download { remote: String, local: String, resume: bool },
}

/// A worker's job with its paths as characters.
pub enum JobModel {
    Upload { local: Seq<char>, remote: Seq<char>, resume: bool, overwrite: bool },
    RemoteCopy { from: Seq<char>, to: Seq<char> },
    Download { remote: Seq<char>, local: Seq<char>, resume: bool },
}

impl View for WorkerJob {
    type V = JobModel;

    open spec fn view(&self) -> JobModel {
        match *self {
            WorkerJob::Upload { local, remote, resume, overwrite } => JobModel::Upload {
                local: local@,
                remote: remote@,
                resume,
                overwrite,
            },
            WorkerJob::RemoteCopy { from, to } => JobModel::RemoteCopy { from: from@, to: to@ },
            WorkerJob::Download { remote, local, resume } => JobModel::Download {
                remote: remote@,
                local: local@,
                resume,
            },
        }
    }
}

/// Name of the worker thread of a job.
pub open spec fn worker_name_spec(job: JobModel, id: nat) -> Seq<char> {
    (match job {
        JobModel::Upload { .. } => "sftp-upload-"@,
        JobModel::Download { .. } => "sftp-download-"@,
        JobModel::RemoteCopy { .. } => "sftp-copy-"@,
    }) + crate::text::decimal(id)
}

/// Name of the worker thread of a job.
pub fn worker_name(job: &WorkerJob, id: TransferId) -> (r: String)
    ensures
        r@ == worker_name_spec(job@, id as nat),
{
    let n = crate::text::number(id);
    match job {
        WorkerJob::Upload { .. } => cat("sftp-upload-", n.as_str()),
        WorkerJob::Download { .. } => cat("sftp-download-", n.as_str()),
        WorkerJob::RemoteCopy { .. } => cat("sftp-copy-", n.as_str()),
    }
}

/// How auxiliary connections are to be had.
#[derive(Debug)]
pub enum HelperPlan {
    /// There are none and none can be had.
    Without,
    /// The pool is open.
    Pooled,
    /// Connections to this target are to be dialed.
    Dial(String),
}

/// The plan with its target as characters.
pub enum HelperModel {
    Without,
    Pooled,
    Dial(Seq<char>),
}

impl View for HelperPlan {
    type V = HelperModel;

    open spec fn view(&self) -> HelperModel {
        match *self {
            HelperPlan::Without => HelperModel::Without,
            HelperPlan::Pooled => HelperModel::Pooled,
            HelperPlan::Dial(t) => HelperModel::Dial(t@),
        }
    }
}

/// The set of in-flight and recently finished transfers.
pub struct TransferManager {
    pub next_id: u64,
    pub statuses: Vec<TransferStatus>,
    /// Transfers that may still be asked to stop, and whether they were.
    pub cancels: HashMap<u64, bool>,
    /// Remote directories already ensured, so recursive uploads do not
    /// pay a mkdir round-trip per file.
    pub created_dirs: StringHashSet,
    pub helper_target: Option<String>,
    /// Open auxiliary connections.
    pub helpers: usize,
    /// Set once auxiliary connections have failed for this target, so a
    /// password-only host does not pay a failed handshake per big file.
    pub helpers_unavailable: bool,
    /// Which lanes currently have a transfer running on them.  A lane is
    /// one ssh connection, so two transfers sharing one lane would each
    /// wait for the other's round trips.
    pub lane_busy: Vec<bool>,
    /// Jobs no worker has taken yet.
    pub jobs: Vec<(TransferId, WorkerJob)>,
    /// Transfers that a worker has taken, each in a slot of its own.
    pub running: HashSet<u64>,
    /// Events the consumer has not taken yet.
    pub queue: Vec<TransferEvent>,
}

/// What a transfer manager holds.
#[verifier::ext_equal]
pub struct ManagerModel {
    pub next_id: u64,
    pub statuses: Seq<StatusModel>,
    pub cancels: Map<u64, bool>,
    pub created_dirs: Set<Seq<char>>,
    pub helper_target: Option<Seq<char>>,
    pub helpers: int,
    pub helpers_unavailable: bool,
    pub lane_busy: Seq<bool>,
    pub jobs: Seq<(u64, JobModel)>,
    pub running: Set<u64>,
    pub queue: Seq<EventModel>,
}

/// The statuses of a list as models.
pub open spec fn status_list(v: Seq<TransferStatus>) -> Seq<StatusModel> {
    v.map_values(|s: TransferStatus| s@)
}

/// The events of a list as models.
pub open spec fn event_list(v: Seq<TransferEvent>) -> Seq<EventModel> {
    v.map_values(|e: TransferEvent| e@)
}

/// The jobs of a list as models.
pub open spec fn job_list(v: Seq<(TransferId, WorkerJob)>) -> Seq<(u64, JobModel)> {
    v.map_values(|j: (TransferId, WorkerJob)| (j.0, j.1@))
}

/// Slots in use once the first `n` jobs were taken.
pub open spec fn slots_taken(running: Set<u64>, jobs: Seq<(u64, JobModel)>, n: int) -> Set<u64>
    decreases n,
{
    if n <= 0 {
        running
    } else {
        slots_taken(running, jobs, n - 1).insert(jobs[n - 1].0)
    }
}

impl View for TransferManager {
    type V = ManagerModel;

    open spec fn view(&self) -> ManagerModel {
        ManagerModel {
            next_id: self.next_id,
            statuses: status_list(self.statuses@),
            cancels: self.cancels@,
            created_dirs: self.created_dirs@,
            helper_target: opt(self.helper_target),
            helpers: self.helpers as int,
            helpers_unavailable: self.helpers_unavailable,
            lane_busy: self.lane_busy@,
            jobs: job_list(self.jobs@),
            running: self.running@,
            queue: event_list(self.queue@),
        }
    }
}

/// Position of the first status of transfer `id`, or the list's length.
pub open spec fn position(list: Seq<StatusModel>, id: u64) -> int
    decreases list.len(),
{
    if list.len() == 0 {
        0
    } else if list[0].id == id {
        0
    } else {
        1 + position(list.skip(1), id)
    }
}

/// The statuses of transfers that have not finished.
pub open spec fn open_only(list: Seq<StatusModel>) -> Seq<StatusModel> {
    list.filter(|s: StatusModel| !s.state.terminal())
}

/// Another unfinished transfer writes `dest`.
pub open spec fn busy(list: Seq<StatusModel>, id: u64, dest: Seq<char>) -> bool {
    exists|i: int|
        0 <= i < list.len() && (#[trigger] list[i]).id != id && !list[i].state.terminal()
            && list[i].dest == dest
}

pub proof fn lemma_position(list: Seq<StatusModel>, id: u64)
    ensures
        0 <= position(list, id) <= list.len(),
        position(list, id) < list.len() ==> list[position(list, id)].id == id,
        forall|i: int| 0 <= i < position(list, id) ==> (#[trigger] list[i]).id != id,
    decreases list.len(),
{
    if list.len() > 0 && list[0].id != id {
        lemma_position(list.skip(1), id);
        assert forall|i: int| 0 <= i < position(list, id) implies (#[trigger] list[i]).id != id by {
            if i > 0 {
                assert(list.skip(1)[i - 1] == list[i]);
            }
        }
    }
}

/// Lane for a transfer: the first free one of those that exist, else the
/// one its number falls on.
pub open spec fn free_lane(busy: Seq<bool>, lanes: int, from: int) -> Option<int>
    decreases busy.len() - from,
{
    if from < 0 || from >= busy.len() || from >= lanes {
        None
    } else if !busy[from] {
        Some(from)
    } else {
        free_lane(busy, lanes, from + 1)
    }
}

impl ManagerModel {
    pub open spec fn fresh() -> ManagerModel {
        ManagerModel {
            next_id: 1,
            statuses: Seq::empty(),
            cancels: Map::empty(),
            created_dirs: Set::empty(),
            helper_target: None,
            helpers: 0,
            helpers_unavailable: false,
            lane_busy: seq![false, false, false, false],
            jobs: Seq::empty(),
            running: Set::empty(),
            queue: Seq::empty(),
        }
    }

    /// The status of transfer `id` set to `state`.
    pub open spec fn with_state(self, id: u64, state: StateModel) -> ManagerModel {
        let i = position(self.statuses, id);
        if i < self.statuses.len() {
            ManagerModel {
                statuses: self.statuses.update(i, StatusModel { state, ..self.statuses[i] }),
                ..self
            }
        } else {
            self
        }
    }

    /// The status of transfer `id` once it has `state`.
    pub open spec fn status_with(self, id: u64, state: StateModel) -> Option<StatusModel> {
        let i = position(self.statuses, id);
        if i < self.statuses.len() {
            Some(StatusModel { state, ..self.statuses[i] })
        } else {
            None
        }
    }

    /// An event announced unless the consumer is too far behind.
    pub open spec fn announced(self, event: EventModel) -> ManagerModel {
        if self.queue.len() < EVENT_CHANNEL_CAPACITY {
            ManagerModel { queue: self.queue.push(event), ..self }
        } else {
            self
        }
    }

    /// An event delivered however far behind the consumer is.
    pub open spec fn delivered(self, event: EventModel) -> ManagerModel {
        ManagerModel { queue: self.queue.push(event), ..self }
    }

    /// Transfer `id` can no longer be cancelled; a list grown too long
    /// keeps only what is still open.
    pub open spec fn closed_off(self, id: u64) -> ManagerModel {
        ManagerModel {
            cancels: self.cancels.remove(id),
            statuses: if self.statuses.len() > MAX_RETAINED_STATUSES {
                open_only(self.statuses)
            } else {
                self.statuses
            },
            ..self
        }
    }

    /// A new transfer, queued.
    pub open spec fn registered(
        self,
        direction: Direction,
        source: Seq<char>,
        dest: Seq<char>,
    ) -> ManagerModel {
        ManagerModel {
            next_id: if self.next_id == u64::MAX {
                0
            } else {
                (self.next_id + 1) as u64
            },
            statuses: self.statuses.push(
                StatusModel {
                    id: self.next_id,
                    direction,
                    source,
                    dest,
                    state: StateModel::Queued,
                },
            ),
            cancels: self.cancels.insert(self.next_id, false),
            ..self
        }
    }

    /// Transfer `id` refused for `reason` without having run.
    pub open spec fn rejected(self, id: u64, reason: Seq<char>) -> ManagerModel {
        let state = StateModel::Failed(reason);
        match self.status_with(id, state) {
            Some(status) => self.with_state(id, state).closed_off(id).delivered(
                EventModel::Finished(status),
            ),
            None => self,
        }
    }

    /// A transfer asked for: refused where its destination is being
    /// written already, else handed to a worker.
    pub open spec fn requested(
        self,
        direction: Direction,
        source: Seq<char>,
        dest: Seq<char>,
        job: JobModel,
    ) -> ManagerModel {
        let id = self.next_id;
        let m = self.registered(direction, source, dest);
        if busy(m.statuses, id, dest) {
            m.rejected(id, "this file is already being transferred"@)
        } else {
            ManagerModel { jobs: m.jobs.push((id, job)), ..m }
        }
    }

    /// Progress of transfer `id`; nothing changes once it has finished.
    pub open spec fn progressed(self, id: u64, bytes: u64, total: u64) -> ManagerModel {
        let i = position(self.statuses, id);
        if i < self.statuses.len() && !self.statuses[i].state.terminal() {
            self.with_state(id, StateModel::Running { bytes, total }).announced(EventModel::Updated)
        } else {
            self
        }
    }

    /// Jobs that a worker can take now: one for each free slot.
    pub open spec fn startable(self) -> int {
        let free = if self.running.len() < MAX_CONCURRENT_TRANSFERS {
            MAX_CONCURRENT_TRANSFERS - self.running.len()
        } else {
            0
        };
        if self.jobs.len() < free {
            self.jobs.len() as int
        } else {
            free
        }
    }

    /// The oldest `n` jobs taken, each into a slot.
    pub open spec fn taken(self, n: int) -> ManagerModel {
        ManagerModel {
            jobs: self.jobs.skip(n),
            running: slots_taken(self.running, self.jobs, n),
            ..self
        }
    }

    /// The slot of transfer `id` free again.
    pub open spec fn freed(self, id: u64) -> ManagerModel {
        ManagerModel { running: self.running.remove(id), ..self }
    }

    /// Transfer `id` ended with `state`, and its slot is free.
    pub open spec fn concluded(self, id: u64, state: StateModel) -> ManagerModel {
        let m = self.with_state(id, state).closed_off(id).freed(id);
        match self.status_with(id, state) {
            Some(status) => m.delivered(EventModel::Finished(status)),
            None => m,
        }
    }

    /// No worker could be started for transfer `id`.
    pub open spec fn unstarted(self, id: u64, err: Seq<char>) -> ManagerModel {
        let state = StateModel::Failed("failed to spawn worker thread: "@ + err);
        let m = self.with_state(id, state).closed_off(id).freed(id);
        match self.status_with(id, state) {
            Some(status) => m.delivered(EventModel::Finished(status)),
            None => m,
        }
    }

    /// Transfers that have not finished.
    pub open spec fn in_flight_spec(self) -> nat {
        open_only(self.statuses).len()
    }

    pub open spec fn helper_plan_spec(self) -> HelperModel {
        match self.helper_target {
            None => HelperModel::Without,
            Some(target) => if self.helpers > 0 {
                HelperModel::Pooled
            } else if self.helpers_unavailable {
                HelperModel::Without
            } else {
                HelperModel::Dial(target)
            },
        }
    }

    /// How a lane comes by auxiliary connections: a transfer on its own
    /// goes without.
    pub open spec fn lane_plan_spec(self) -> HelperModel {
        if self.in_flight_spec() > 1 {
            self.helper_plan_spec()
        } else {
            HelperModel::Without
        }
    }

    /// One auxiliary connection dialed: the pool grows up to its size, and
    /// a refusal while it is empty is remembered.
    pub open spec fn dialed(self, connected: bool) -> ManagerModel {
        if connected {
            ManagerModel {
                helpers: if self.helpers < PARALLEL_WORKERS - 1 {
                    self.helpers + 1
                } else {
                    self.helpers
                },
                ..self
            }
        } else {
            ManagerModel {
                helpers_unavailable: self.helpers_unavailable || self.helpers == 0,
                ..self
            }
        }
    }

    /// The pool of auxiliary connections dropped.
    pub open spec fn invalidated(self) -> ManagerModel {
        ManagerModel { helpers: 0, helpers_unavailable: false, ..self }
    }

    /// Lane of transfer `id` among `helpers` auxiliary connections and the
    /// main one.
    pub open spec fn lane(self, id: u64, helpers: int) -> int {
        match free_lane(self.lane_busy, helpers + 1, 0) {
            Some(i) => i,
            None => id as int % (helpers + 1),
        }
    }

    pub open spec fn lane_set(self, index: int, on: bool) -> ManagerModel {
        if 0 <= index < self.lane_busy.len() {
            ManagerModel { lane_busy: self.lane_busy.update(index, on), ..self }
        } else {
            self
        }
    }
}

impl TransferManager {
    pub fn new() -> (r: Self)
        ensures
            r@ == ManagerModel::fresh(),
    {
        let mut lane_busy: Vec<bool> = Vec::new();
        let mut i: usize = 0;
        while i < MAX_CONCURRENT_TRANSFERS
            invariant
                i <= MAX_CONCURRENT_TRANSFERS,
                lane_busy@ == Seq::new(i as nat, |k: int| false),
            decreases MAX_CONCURRENT_TRANSFERS - i,
        {
            lane_busy.push(false);
            i += 1;
            proof {
                assert(lane_busy@ =~= Seq::new(i as nat, |k: int| false));
            }
        }
        let r = TransferManager {
            next_id: 1,
            statuses: Vec::new(),
            cancels: HashMap::new(),
            created_dirs: StringHashSet::new(),
            helper_target: None,
            helpers: 0,
            helpers_unavailable: false,
            lane_busy,
            jobs: Vec::new(),
            running: HashSet::new(),
            queue: Vec::new(),
        };
        proof {
            assert(r@ =~= ManagerModel::fresh());
        }
        r
    }

    /// Set the connect target used to establish auxiliary helper
    /// connections for parallel range transfers.
    pub fn set_helper_target(&mut self, target: String)
        ensures
            final(self)@ == (ManagerModel { helper_target: Some(target@), ..old(self)@ }),
    {
        self.helper_target = Some(target);
    }

    /// Queue a file upload from `local` to `remote`.
    pub fn upload(&mut self, local: &str, remote: &str, resume: bool, overwrite: bool) -> (id:
        TransferId)
        ensures
            id == old(self)@.next_id,
            final(self)@ == old(self)@.requested(
                Direction::Upload,
                local@,
                remote@,
                JobModel::Upload { local: local@, remote: remote@, resume, overwrite },
            ),
    {
        self.request(
            Direction::Upload,
            local,
            remote,
            WorkerJob::Upload {
                local: local.to_owned(),
                remote: remote.to_owned(),
                resume,
                overwrite,
            },
        )
    }

    /// Queue a file download from `remote` to `local`.
    pub fn download(&mut self, remote: &str, local: &str, resume: bool) -> (id: TransferId)
        ensures
            id == old(self)@.next_id,
            final(self)@ == old(self)@.requested(
                Direction::Download,
                remote@,
                local@,
                JobModel::Download { remote: remote@, local: local@, resume },
            ),
    {
        self.request(
            Direction::Download,
            remote,
            local,
            WorkerJob::Download { remote: remote.to_owned(), local: local.to_owned(), resume },
        )
    }

    /// Copy `from` to `to`, both on the remote side.  SFTP has no
    /// server-side copy, so the bytes stream through this connection.
    pub fn copy_remote(&mut self, from: &str, to: &str) -> (id: TransferId)
        ensures
            id == old(self)@.next_id,
            final(self)@ == old(self)@.requested(
                Direction::Copy,
                from@,
                to@,
                JobModel::RemoteCopy { from: from@, to: to@ },
            ),
    {
        self.request(
            Direction::Copy,
            from,
            to,
            WorkerJob::RemoteCopy { from: from.to_owned(), to: to.to_owned() },
        )
    }

    fn request(&mut self, direction: Direction, source: &str, dest: &str, job: WorkerJob) -> (id:
        TransferId)
        ensures
            id == old(self)@.next_id,
            final(self)@ == old(self)@.requested(direction, source@, dest@, job@),
    {
        let id = self.register(direction, source, dest);
        if self.destination_busy(id, dest) {
            self.reject(id, "this file is already being transferred");
        } else {
            let ghost mid = self@;
            self.jobs.push((id, job));
            proof {
                assert(self@.jobs =~= mid.jobs.push((id, job@)));
            }
        }
        id
    }

    /// True when another unfinished transfer already writes `dest`.
    pub fn destination_busy(&self, id: TransferId, dest: &str) -> (r: bool)
        ensures
            r == busy(self@.statuses, id, dest@),
    {
        let ghost list = self@.statuses;
        let mut i: usize = 0;
        while i < self.statuses.len()
            invariant
                i <= self.statuses@.len(),
                list == status_list(self.statuses@),
                forall|j: int|
                    0 <= j < i ==> !((#[trigger] list[j]).id != id && !list[j].state.terminal()
                        && list[j].dest == dest@),
            decreases self.statuses@.len() - i,
        {
            proof {
                assert(list[i as int] == self.statuses@[i as int]@);
            }
            if self.statuses[i].id != id && !self.statuses[i].state.is_terminal() && same(
                self.statuses[i].dest.as_str(),
                dest,
            ) {
                return true;
            }
            i += 1;
        }
        false
    }

    /// Add a queued transfer under the next number.
    pub fn register(&mut self, direction: Direction, source: &str, dest: &str) -> (id: TransferId)
        ensures
            id == old(self)@.next_id,
            final(self)@ == old(self)@.registered(direction, source@, dest@),
    {
        let ghost start = self@;
        let id: u64 = self.next_id;
        self.next_id = if id == u64::MAX {
            0
        } else {
            id + 1
        };
        self.statuses.push(
            TransferStatus {
                id,
                direction,
                source: source.to_owned(),
                dest: dest.to_owned(),
                state: TransferState::Queued,
            },
        );
        self.cancels.insert(id, false);
        proof {
            let m = start.registered(direction, source@, dest@);
            assert(self@.statuses =~= m.statuses);
            assert(self@ =~= m);
        }
        id
    }

    fn find(&self, id: TransferId) -> (r: usize)
        ensures
            r == position(self@.statuses, id),
    {
        let ghost list = self@.statuses;
        let mut i: usize = 0;
        proof {
            assert(list.skip(0) =~= list);
        }
        while i < self.statuses.len() && self.statuses[i].id != id
            invariant
                i <= self.statuses@.len(),
                list == status_list(self.statuses@),
                position(list, id) == i + position(list.skip(i as int), id),
            decreases self.statuses@.len() - i,
        {
            proof {
                assert(list[i as int] == self.statuses@[i as int]@);
                assert(list.skip(i as int).skip(1) =~= list.skip(i + 1));
            }
            i += 1;
        }
        proof {
            if i < list.len() {
                assert(list[i as int] == self.statuses@[i as int]@);
            }
        }
        i
    }

    /// Update a transfer's state.  `None` means the entry is gone, which
    /// can only happen for a transfer that already finished and was pruned.
    pub fn update_status(&mut self, id: TransferId, state: TransferState) -> (r: Option<
        TransferStatus,
    >)
        ensures
            final(self)@ == old(self)@.with_state(id, state@),
            r is Some <==> old(self)@.status_with(id, state@) is Some,
            r matches Some(s) ==> old(self)@.status_with(id, state@) == Some(s@),
    {
        let ghost start = self@;
        let i = self.find(id);
        proof {
            lemma_position(start.statuses, id);
        }
        if i < self.statuses.len() {
            proof {
                assert(start.statuses[i as int] == self.statuses@[i as int]@);
            }
            let mut s = self.statuses[i].clone();
            s.state = state;
            self.statuses.set(i, s.clone());
            proof {
                assert(self@.statuses =~= start.with_state(id, state@).statuses);
                assert(self@ =~= start.with_state(id, state@));
            }
            Some(s)
        } else {
            None
        }
    }

    fn announce(&mut self, event: TransferEvent)
        ensures
            final(self)@ == old(self)@.announced(event@),
    {
        if self.queue.len() < EVENT_CHANNEL_CAPACITY {
            self.deliver(event);
        }
    }

    fn deliver(&mut self, event: TransferEvent)
        ensures
            final(self)@ == old(self)@.delivered(event@),
    {
        let ghost start = self@;
        self.queue.push(event);
        proof {
            assert(self@.queue =~= start.queue.push(event@));
            assert(self@ =~= start.delivered(event@));
        }
    }

    /// Refuse a transfer without running it: used when the same
    /// destination is already in flight, where two writers would fight
    /// over the same part file.
    pub fn reject(&mut self, id: TransferId, reason: &str)
        ensures
            final(self)@ == old(self)@.rejected(id, reason@),
    {
        match self.update_status(id, TransferState::Failed(reason.to_owned())) {
            Some(status) => {
                self.finish(id);
                self.deliver(TransferEvent::Finished(status));
            },
            None => {},
        }
    }

    /// Note how far a transfer is.  A late tick from a transfer that has
    /// finished must not turn its terminal state back to running.
    pub fn emit_progress(&mut self, id: TransferId, bytes: u64, total: u64)
        ensures
            final(self)@ == old(self)@.progressed(id, bytes, total),
    {
        let i = self.find(id);
        proof {
            lemma_position(self@.statuses, id);
        }
        if i < self.statuses.len() {
            proof {
                assert(self@.statuses[i as int] == self.statuses@[i as int]@);
            }
            if !self.statuses[i].state.is_terminal() {
                self.update_status(id, TransferState::Running { bytes, total });
                self.announce(TransferEvent::Updated);
            }
        }
    }

    /// Forget a transfer's cancel flag and prune a list grown too long.
    pub fn finish(&mut self, id: TransferId)
        ensures
            final(self)@ == old(self)@.closed_off(id),
    {
        let ghost start = self@;
        self.cancels.remove(&id);
        if self.statuses.len() > MAX_RETAINED_STATUSES {
            self.clear_finished();
        }
        proof {
            assert(self@ =~= start.closed_off(id));
        }
    }

    /// Drop finished transfers from the list (the task manager uses
    /// this to clear the history without touching anything still running).
    pub fn clear_finished(&mut self)
        ensures
            final(self)@ == (ManagerModel {
                statuses: open_only(old(self)@.statuses),
                ..old(self)@
            }),
    {
        let ghost start = self@;
        let ghost f = |s: StatusModel| !s.state.terminal();
        let mut kept: Vec<TransferStatus> = Vec::new();
        let mut i: usize = 0;
        proof {
            reveal(Seq::filter);
            assert(start.statuses.take(0).filter(f) =~= Seq::<StatusModel>::empty());
            assert(status_list(kept@) =~= Seq::<StatusModel>::empty());
        }
        while i < self.statuses.len()
            invariant
                i <= self.statuses@.len(),
                self@ == start,
                f == (|s: StatusModel| !s.state.terminal()),
                status_list(kept@) == start.statuses.take(i as int).filter(f),
            decreases self.statuses@.len() - i,
        {
            let ghost before = status_list(kept@);
            proof {
                reveal(Seq::filter);
                assert(start.statuses[i as int] == self.statuses@[i as int]@);
                assert(start.statuses.take(i + 1).drop_last() =~= start.statuses.take(i as int));
            }
            if !self.statuses[i].state.is_terminal() {
                kept.push(self.statuses[i].clone());
                proof {
                    assert(status_list(kept@) =~= before.push(start.statuses[i as int]));
                }
            }
            i += 1;
        }
        proof {
            assert(start.statuses.take(i as int) =~= start.statuses);
        }
        self.statuses = kept;
    }

    /// Ask a transfer to stop at the next chunk boundary.
    pub fn cancel(&mut self, id: TransferId)
        ensures
            final(self)@ == (ManagerModel {
                cancels: if old(self)@.cancels.contains_key(id) {
                    old(self)@.cancels.insert(id, true)
                } else {
                    old(self)@.cancels
                },
                ..old(self)@
            }),
    {
        if self.cancels.contains_key(&id) {
            self.cancels.insert(id, true);
        }
    }

    /// Whether a transfer was asked to stop.
    pub fn is_cancelled(&self, id: TransferId) -> (r: bool)
        ensures
            r == (self@.cancels.contains_key(id) && self@.cancels[id]),
    {
        match self.cancels.get(&id) {
            Some(flag) => *flag,
            None => false,
        }
    }

    /// Current snapshot of queued, running, and recently finished transfers.
    pub fn statuses(&self) -> (r: Vec<TransferStatus>)
        ensures
            r@ == self.statuses@,
    {
        let r = self.statuses.clone();
        proof {
            assert forall|i: int| 0 <= i < self.statuses@.len() implies self.statuses@[i]
                == r@[i] by {
                assert(cloned::<TransferStatus>(self.statuses[i], r[i]));
            }
            assert(r@ =~= self.statuses@);
        }
        r
    }

    /// Take the events that happened since the last call, oldest first.
    pub fn events(&mut self) -> (r: Vec<TransferEvent>)
        ensures
            event_list(r@) == old(self)@.queue,
            final(self)@ == (ManagerModel { queue: Seq::empty(), ..old(self)@ }),
    {
        let ghost start = self@;
        let mut out: Vec<TransferEvent> = Vec::new();
        core::mem::swap(&mut self.queue, &mut out);
        proof {
            assert(self@ =~= ManagerModel { queue: Seq::empty(), ..start });
        }
        out
    }

    /// Take the oldest jobs that no worker has taken yet, one for each free
    /// slot.  The others wait until a slot frees up.
    pub fn take_jobs(&mut self) -> (r: Vec<(TransferId, WorkerJob)>)
        ensures
            job_list(r@) == old(self)@.jobs.take(old(self)@.startable()),
            final(self)@ == old(self)@.taken(old(self)@.startable()),
    {
        let ghost start = self@;
        let ghost most = start.startable();
        let used: usize = self.running.len();
        let free: usize = if used < MAX_CONCURRENT_TRANSFERS {
            MAX_CONCURRENT_TRANSFERS - used
        } else {
            0
        };
        let waiting: usize = self.jobs.len();
        let n: usize = if waiting < free {
            waiting
        } else {
            free
        };
        let mut out: Vec<(TransferId, WorkerJob)> = Vec::new();
        let mut i: usize = 0;
        proof {
            assert(job_list(out@) =~= start.jobs.take(0));
            assert(self@ =~= start.taken(0));
        }
        while i < n
            invariant
                i <= n == most,
                most <= start.jobs.len(),
                job_list(out@) == start.jobs.take(i as int),
                self@ == start.taken(i as int),
            decreases n - i,
        {
            proof {
                assert(self@.jobs.len() == start.jobs.len() - i);
                assert(self@.jobs[0] == start.jobs[i as int]);
                assert(self@.jobs[0] == (self.jobs@[0].0, self.jobs@[0].1@));
            }
            let ghost left = self@.jobs;
            let ghost handed = job_list(out@);
            let job = self.jobs.remove(0);
            self.running.insert(job.0);
            out.push(job);
            proof {
                assert(self@.jobs =~= left.skip(1));
                assert(left.skip(1) =~= start.jobs.skip(i + 1));
                assert(job_list(out@) =~= handed.push(start.jobs[i as int]));
                assert(handed.push(start.jobs[i as int]) =~= start.jobs.take(i + 1));
            }
            i += 1;
            proof {
                assert(self@ =~= start.taken(i as int));
            }
        }
        out
    }

    /// Number of transfers that have not finished yet, including the
    /// one asking.
    pub fn in_flight(&self) -> (r: usize)
        ensures
            r == self@.in_flight_spec(),
    {
        let ghost list = self@.statuses;
        let ghost f = |s: StatusModel| !s.state.terminal();
        let mut n: usize = 0;
        let mut i: usize = 0;
        proof {
            reveal(Seq::filter);
            assert(list.take(0).filter(f) =~= Seq::<StatusModel>::empty());
        }
        while i < self.statuses.len()
            invariant
                n <= i <= self.statuses@.len(),
                list == status_list(self.statuses@),
                f == (|s: StatusModel| !s.state.terminal()),
                n == list.take(i as int).filter(f).len(),
            decreases self.statuses@.len() - i,
        {
            proof {
                reveal(Seq::filter);
                assert(list[i as int] == self.statuses@[i as int]@);
                assert(list.take(i + 1).drop_last() =~= list.take(i as int));
            }
            if !self.statuses[i].state.is_terminal() {
                n += 1;
            }
            i += 1;
        }
        proof {
            assert(list.take(i as int) =~= list);
        }
        n
    }

    fn free_slot(&mut self, id: TransferId)
        ensures
            final(self)@ == old(self)@.freed(id),
    {
        let ghost start = self@;
        self.running.remove(&id);
        proof {
            assert(self@ =~= start.freed(id));
        }
    }

    /// A worker's result is in.
    pub fn conclude(&mut self, id: TransferId, result: &Result<(), TransferError>)
        ensures
            final(self)@ == old(self)@.concluded(id, end_state(outcome(*result))),
    {
        let state = final_state(result);
        let status = self.update_status(id, state);
        self.finish(id);
        self.free_slot(id);
        match status {
            Some(s) => self.deliver(TransferEvent::Finished(s)),
            None => {},
        }
    }

    /// No worker thread could be started.
    pub fn spawn_failed(&mut self, id: TransferId, err: &str)
        ensures
            final(self)@ == old(self)@.unstarted(id, err@),
    {
        let state = TransferState::Failed(cat("failed to spawn worker thread: ", err));
        let status = self.update_status(id, state);
        self.finish(id);
        self.free_slot(id);
        match status {
            Some(s) => self.deliver(TransferEvent::Finished(s)),
            None => {},
        }
    }

    /// Drop the helper pool so the next parallel transfer dials fresh
    /// connections.  A helper that died mid-slice would otherwise stay in
    /// the pool and fail every later transfer until the panel restarts.
    pub fn invalidate_helpers(&mut self)
        ensures
            final(self)@ == old(self)@.invalidated(),
    {
        self.helpers = 0;
        self.helpers_unavailable = false;
    }

    /// How the auxiliary connections for parallel transfers are to be had:
    /// they are dialed once, and never again for a target that refused.
    pub fn ensure_helpers(&self) -> (r: HelperPlan)
        ensures
            r@ == self@.helper_plan_spec(),
    {
        match &self.helper_target {
            None => HelperPlan::Without,
            Some(target) => if self.helpers > 0 {
                HelperPlan::Pooled
            } else if self.helpers_unavailable {
                HelperPlan::Without
            } else {
                HelperPlan::Dial(target.clone())
            },
        }
    }

    /// How a transfer's lane comes by auxiliary connections.  They are opened
    /// only when more than one transfer is queued: a single dragged file must
    /// not pay for handshakes it cannot use.
    pub fn lane_helpers(&self) -> (r: HelperPlan)
        ensures
            r@ == self@.lane_plan_spec(),
    {
        if self.in_flight() > 1 {
            self.ensure_helpers()
        } else {
            HelperPlan::Without
        }
    }

    /// Note the outcome of one dial.  The result says whether another
    /// connection is to be dialed: the pool is filled up to its size, and
    /// the first refusal ends the attempt.
    pub fn helper_dialed(&mut self, connected: bool) -> (again: bool)
        ensures
            final(self)@ == old(self)@.dialed(connected),
            again == (connected && old(self)@.helpers + 1 < PARALLEL_WORKERS - 1),
    {
        if connected {
            if self.helpers < PARALLEL_WORKERS - 1 {
                self.helpers += 1;
                self.helpers < PARALLEL_WORKERS - 1
            } else {
                false
            }
        } else {
            if self.helpers == 0 {
                self.helpers_unavailable = true;
            }
            false
        }
    }

    /// Connection a transfer should run on, held until it is released.
    /// Every lane is its own ssh connection, so their round trips overlap
    /// instead of queueing behind one session thread; that is what makes
    /// a folder of small files several times faster.
    ///
    /// `helpers` is the number of auxiliary connections the transfer may
    /// use.
    pub fn acquire_lane(&mut self, id: TransferId, helpers: usize) -> (index: usize)
        requires
            helpers < usize::MAX,
        ensures
            index == old(self)@.lane(id, helpers as int),
            index <= helpers,
            final(self)@ == old(self)@.lane_set(index as int, true),
    {
        let ghost start = self@;
        let lanes: usize = helpers + 1;
        let mut i: usize = 0;
        let n: usize = self.lane_busy.len();
        while i < n && i < lanes && self.lane_busy[i]
            invariant
                i <= n == self.lane_busy@.len(),
                i <= lanes,
                start == self@,
                free_lane(start.lane_busy, lanes as int, 0) == free_lane(
                    start.lane_busy,
                    lanes as int,
                    i as int,
                ),
            decreases n - i,
        {
            i += 1;
        }
        let index: usize = if i < n && i < lanes {
            i
        } else {
            (id % lanes as u64) as usize
        };
        if index < n {
            self.lane_busy.set(index, true);
        }
        proof {
            assert(self@ =~= start.lane_set(index as int, true));
        }
        index
    }

    /// The transfer on lane `index` has finished its copy.
    pub fn release_lane(&mut self, index: usize)
        ensures
            final(self)@ == old(self)@.lane_set(index as int, false),
    {
        let ghost start = self@;
        if index < self.lane_busy.len() {
            self.lane_busy.set(index, false);
        }
        proof {
            assert(self@ =~= start.lane_set(index as int, false));
        }
    }
}

/// Auxiliary connection behind a lane; none for the main connection.
pub fn lane_helper(index: usize, helpers: usize) -> (r: Option<usize>)
    ensures
        r == if 1 <= index <= helpers {
            Some((index - 1) as usize)
        } else {
            None
        },
{
    if index >= 1 && index <= helpers {
        Some(index - 1)
    } else {
        None
    }
}

/// Transfers are listed in the order of their numbers, all below `next`.
pub open spec fn numbered(list: Seq<StatusModel>, next: u64) -> bool {
    &&& forall|i: int| 0 <= i < list.len() ==> (#[trigger] list[i]).id < next
    &&& forall|i: int, j: int|
        0 <= i < j < list.len() ==> (#[trigger] list[i]).id < (#[trigger] list[j]).id
}

/// No two unfinished transfers write the same destination.
pub open spec fn one_writer(list: Seq<StatusModel>) -> bool {
    forall|i: int, j: int|
        0 <= i < j < list.len() && !(#[trigger] list[i]).state.terminal()
            && !(#[trigger] list[j]).state.terminal() ==> list[i].dest != list[j].dest
}

/// What every operation of the manager keeps.
pub open spec fn sound(m: ManagerModel) -> bool {
    numbered(m.statuses, m.next_id) && one_writer(m.statuses)
}

proof fn lemma_open_only(list: Seq<StatusModel>)
    ensures
        forall|k: int|
            0 <= k < open_only(list).len() ==> !(#[trigger] open_only(list)[k]).state.terminal()
                && list.contains(open_only(list)[k]),
        forall|i: int|
            0 <= i < list.len() && !(#[trigger] list[i]).state.terminal() ==> open_only(
                list,
            ).contains(list[i]),
        open_only(open_only(list)) == open_only(list),
    decreases list.len(),
{
    reveal(Seq::filter);
    let f = |s: StatusModel| !s.state.terminal();
    assert(open_only(list) == list.filter(f));
    if list.len() > 0 {
        let rest = list.drop_last();
        lemma_open_only(rest);
        let a = open_only(rest);
        assert(a == rest.filter(f));
        let b = open_only(list);
        if f(list.last()) {
            assert(b == a.push(list.last()));
            assert(b.drop_last() =~= a);
            assert(open_only(b) == open_only(a).push(list.last()));
        } else {
            assert(b == a);
        }
        assert forall|k: int| 0 <= k < b.len() implies !(#[trigger] b[k]).state.terminal()
            && list.contains(b[k]) by {
            if k < a.len() {
                assert(a[k] == b[k]);
                let i = choose|i: int| 0 <= i < rest.len() && rest[i] == a[k];
                assert(list[i] == b[k]);
            } else {
                assert(list[list.len() - 1] == b[k]);
            }
        }
        assert forall|i: int| 0 <= i < list.len() && !(#[trigger] list[i]).state.terminal() implies
            b.contains(list[i]) by {
            if i < rest.len() {
                assert(rest[i] == list[i]);
                let k = choose|k: int| 0 <= k < a.len() && a[k] == rest[i];
                assert(b[k] == list[i]);
            } else {
                assert(b[b.len() - 1] == list[i]);
            }
        }
    }
}

proof fn lemma_prune_keeps(list: Seq<StatusModel>, next: u64)
    requires
        numbered(list, next),
        one_writer(list),
    ensures
        numbered(open_only(list), next),
        one_writer(open_only(list)),
    decreases list.len(),
{
    reveal(Seq::filter);
    let f = |s: StatusModel| !s.state.terminal();
    assert(open_only(list) == list.filter(f));
    if list.len() > 0 {
        let rest = list.drop_last();
        assert forall|i: int, j: int| 0 <= i < j < rest.len() implies (#[trigger] rest[i]).id < (
        #[trigger] rest[j]).id by {
            assert(list[i].id < list[j].id);
        }
        assert forall|i: int| 0 <= i < rest.len() implies (#[trigger] rest[i]).id < next by {
            assert(list[i].id < next);
        }
        assert forall|i: int, j: int|
            0 <= i < j < rest.len() && !(#[trigger] rest[i]).state.terminal() && !(
            #[trigger] rest[j]).state.terminal() implies rest[i].dest != rest[j].dest by {
            assert(list[i] == rest[i] && list[j] == rest[j]);
        }
        lemma_prune_keeps(rest, next);
        lemma_open_only(rest);
        let a = open_only(rest);
        assert(a == rest.filter(f));
        let b = open_only(list);
        if f(list.last()) {
            assert(b == a.push(list.last()));
            assert forall|k: int| 0 <= k < a.len() implies (#[trigger] a[k]).id < list.last().id
                && a[k].dest != list.last().dest by {
                let i = choose|i: int| 0 <= i < rest.len() && rest[i] == a[k];
                assert(list[i] == a[k]);
                assert(list[list.len() - 1] == list.last());
                assert(list[i].id < list[list.len() - 1].id);
            }
            assert forall|i: int, j: int| 0 <= i < j < b.len() implies (#[trigger] b[i]).id < (
            #[trigger] b[j]).id by {
                assert(a[i] == b[i]);
                if j < a.len() {
                    assert(a[j] == b[j]);
                }
            }
            assert forall|i: int| 0 <= i < b.len() implies (#[trigger] b[i]).id < next by {
                if i < a.len() {
                    assert(a[i] == b[i]);
                } else {
                    assert(list[list.len() - 1] == b[i]);
                }
            }
            assert forall|i: int, j: int|
                0 <= i < j < b.len() && !(#[trigger] b[i]).state.terminal() && !(
                #[trigger] b[j]).state.terminal() implies b[i].dest != b[j].dest by {
                assert(a[i] == b[i]);
                if j < a.len() {
                    assert(a[j] == b[j]);
                }
            }
        } else {
            assert(b == a);
        }
    }
}

proof fn lemma_state_keeps(m: ManagerModel, id: u64, state: StateModel)
    requires
        sound(m),
        state.terminal() || (position(m.statuses, id) < m.statuses.len() ==> !m.statuses[position(
            m.statuses,
            id,
        )].state.terminal()),
    ensures
        sound(m.with_state(id, state)),
{
    lemma_position(m.statuses, id);
    let i = position(m.statuses, id);
    if i < m.statuses.len() {
        let new = m.with_state(id, state).statuses;
        assert forall|a: int, b: int| 0 <= a < b < new.len() implies (#[trigger] new[a]).id < (
        #[trigger] new[b]).id by {
            assert(m.statuses[a].id < m.statuses[b].id);
        }
        assert forall|a: int| 0 <= a < new.len() implies (#[trigger] new[a]).id < m.next_id by {
            assert(m.statuses[a].id < m.next_id);
        }
        assert forall|a: int, b: int|
            0 <= a < b < new.len() && !(#[trigger] new[a]).state.terminal() && !(
            #[trigger] new[b]).state.terminal() implies new[a].dest != new[b].dest by {
            assert(!m.statuses[a].state.terminal());
            assert(!m.statuses[b].state.terminal());
        }
    }
}

proof fn lemma_close_keeps(m: ManagerModel, id: u64)
    requires
        sound(m),
    ensures
        sound(m.closed_off(id)),
{
    lemma_prune_keeps(m.statuses, m.next_id);
}

/// Two writers never fight over one part file: every operation keeps the
/// transfers numbered and lets no two unfinished ones share a destination.
pub proof fn one_writer_per_destination(
    m: ManagerModel,
    direction: Direction,
    source: Seq<char>,
    dest: Seq<char>,
    job: JobModel,
    id: u64,
    bytes: u64,
    total: u64,
    result: Result<(), ErrorModel>,
    err: Seq<char>,
)
    requires
        sound(m),
    ensures
        sound(ManagerModel::fresh()),
        m.next_id < u64::MAX ==> sound(m.requested(direction, source, dest, job)),
        sound(m.progressed(id, bytes, total)),
        sound(m.concluded(id, end_state(result))),
        sound(m.unstarted(id, err)),
        sound(m.rejected(id, err)),
        sound(ManagerModel { statuses: open_only(m.statuses), ..m }),
{
    if m.next_id < u64::MAX {
        let new = m.next_id;
        let r = m.registered(direction, source, dest);
        let n = m.statuses.len() as int;
        assert(r.statuses[n].id == new);
        assert forall|a: int, b: int| 0 <= a < b < r.statuses.len() implies (
        #[trigger] r.statuses[a]).id < (#[trigger] r.statuses[b]).id by {
            assert(r.statuses[a] == m.statuses[a]);
            if b < n {
                assert(r.statuses[b] == m.statuses[b]);
            }
        }
        assert(numbered(r.statuses, r.next_id)) by {
            assert forall|a: int| 0 <= a < r.statuses.len() implies (#[trigger] r.statuses[a]).id
                < r.next_id by {
                if a < n {
                    assert(r.statuses[a] == m.statuses[a]);
                }
            }
        }
        if busy(r.statuses, new, dest) {
            let state = StateModel::Failed("this file is already being transferred"@);
            lemma_position(r.statuses, new);
            let p = position(r.statuses, new);
            assert(p == n) by {
                if p < n {
                    assert(r.statuses[p] == m.statuses[p]);
                    assert(m.statuses[p].id < m.next_id);
                }
                if p > n {
                    assert(r.statuses[n].id == new);
                }
            }
            let q = r.with_state(new, state);
            assert forall|a: int, b: int|
                0 <= a < b < q.statuses.len() && !(#[trigger] q.statuses[a]).state.terminal() && !(
                #[trigger] q.statuses[b]).state.terminal() implies q.statuses[a].dest
                != q.statuses[b].dest by {
                assert(q.statuses[a] == m.statuses[a] && q.statuses[b] == m.statuses[b]);
            }
            assert forall|a: int, b: int| 0 <= a < b < q.statuses.len() implies (
            #[trigger] q.statuses[a]).id < (#[trigger] q.statuses[b]).id by {
                assert(r.statuses[a].id < r.statuses[b].id);
            }
            assert forall|a: int| 0 <= a < q.statuses.len() implies (#[trigger] q.statuses[a]).id
                < q.next_id by {
                assert(r.statuses[a].id < r.next_id);
            }
            lemma_close_keeps(q, new);
        } else {
            assert forall|a: int, b: int|
                0 <= a < b < r.statuses.len() && !(#[trigger] r.statuses[a]).state.terminal() && !(
                #[trigger] r.statuses[b]).state.terminal() implies r.statuses[a].dest
                != r.statuses[b].dest by {
                assert(r.statuses[a] == m.statuses[a]);
                if b < n {
                    assert(r.statuses[b] == m.statuses[b]);
                } else {
                    assert(r.statuses[a].id != new);
                }
            }
        }
    }
    lemma_position(m.statuses, id);
    let i = position(m.statuses, id);
    if i < m.statuses.len() && !m.statuses[i].state.terminal() {
        lemma_state_keeps(m, id, StateModel::Running { bytes, total });
    }
    lemma_state_keeps(m, id, end_state(result));
    lemma_close_keeps(m.with_state(id, end_state(result)), id);
    let failed = StateModel::Failed("failed to spawn worker thread: "@ + err);
    lemma_state_keeps(m, id, failed);
    lemma_close_keeps(m.with_state(id, failed), id);
    lemma_state_keeps(m, id, StateModel::Failed(err));
    lemma_close_keeps(m.with_state(id, StateModel::Failed(err)), id);
    lemma_prune_keeps(m.statuses, m.next_id);
}

/// Unfinished transfers are never pruned: closing off a transfer, or
/// clearing the history, leaves every unfinished one listed, so its final
/// update finds its entry.
pub proof fn unfinished_transfers_stay_listed(m: ManagerModel, id: u64, i: int)
    requires
        0 <= i < m.statuses.len(),
        !m.statuses[i].state.terminal(),
    ensures
        m.closed_off(id).statuses.contains(m.statuses[i]),
        open_only(m.statuses).contains(m.statuses[i]),
        open_only(m.closed_off(id).statuses) == open_only(m.statuses),
        position(m.closed_off(id).statuses, m.statuses[i].id) < m.closed_off(id).statuses.len(),
{
    lemma_open_only(m.statuses);
    assert(open_only(m.statuses).contains(m.statuses[i]));
    let list = m.closed_off(id).statuses;
    assert(list.contains(m.statuses[i])) by {
        if m.statuses.len() <= MAX_RETAINED_STATUSES {
            assert(list[i] == m.statuses[i]);
        }
    }
    let k = choose|k: int| 0 <= k < list.len() && list[k] == m.statuses[i];
    lemma_position(list, m.statuses[i].id);
    assert(list[k].id == m.statuses[i].id);
}

/// A finished transfer stays finished: progress that comes in late changes
/// no terminal status.
pub proof fn late_progress_changes_nothing(m: ManagerModel, id: u64, bytes: u64, total: u64, i: int)
    requires
        0 <= i < m.statuses.len(),
        m.statuses[i].state.terminal(),
    ensures
        m.progressed(id, bytes, total).statuses.len() == m.statuses.len(),
        m.progressed(id, bytes, total).statuses[i] == m.statuses[i],
{
    lemma_position(m.statuses, id);
}

proof fn lemma_slots(running: Set<u64>, jobs: Seq<(u64, JobModel)>, n: int)
    requires
        running.finite(),
        0 <= n <= jobs.len(),
    ensures
        slots_taken(running, jobs, n).finite(),
        slots_taken(running, jobs, n).len() <= running.len() + n,
        forall|k: int| 0 <= k < n ==> slots_taken(running, jobs, n).contains((#[trigger] jobs[k]).0),
    decreases n,
{
    if n > 0 {
        lemma_slots(running, jobs, n - 1);
    }
}

/// A large queue cannot starve the connection: there are never more
/// transfers with a worker than slots.  The others queue, the oldest first:
/// none is lost, none waits while a slot is free, and a transfer that ends
/// makes room for the next.
pub proof fn further_transfers_queue(
    m: ManagerModel,
    direction: Direction,
    source: Seq<char>,
    dest: Seq<char>,
    job: JobModel,
    id: u64,
    bytes: u64,
    total: u64,
    result: Result<(), ErrorModel>,
    err: Seq<char>,
)
    requires
        m.running.finite(),
        m.running.len() <= MAX_CONCURRENT_TRANSFERS,
    ensures
        ManagerModel::fresh().running.len() == 0,
        m.taken(m.startable()).running.len() <= MAX_CONCURRENT_TRANSFERS,
        m.taken(m.startable()).running.finite(),
        forall|k: int|
            0 <= k < m.startable() ==> m.taken(m.startable()).running.contains(
                (#[trigger] m.jobs[k]).0,
            ),
        m.jobs == m.jobs.take(m.startable()) + m.taken(m.startable()).jobs,
        m.jobs.len() > 0 && m.running.len() < MAX_CONCURRENT_TRANSFERS ==> m.startable() > 0,
        m.taken(m.startable()).jobs.len() > 0 ==> m.running.len() + m.startable()
            == MAX_CONCURRENT_TRANSFERS,
        m.requested(direction, source, dest, job).running == m.running,
        m.progressed(id, bytes, total).running == m.running,
        m.rejected(id, err).running == m.running,
        m.concluded(id, end_state(result)).running == m.running.remove(id),
        m.unstarted(id, err).running == m.running.remove(id),
        m.running.contains(id) && m.jobs.len() > 0 ==> m.concluded(
            id,
            end_state(result),
        ).startable() > 0 && m.unstarted(id, err).startable() > 0,
{
    lemma_slots(m.running, m.jobs, m.startable());
    assert(m.jobs =~= m.jobs.take(m.startable()) + m.jobs.skip(m.startable()));
}

/// Whatever ends a listed transfer adds exactly its terminal event to the
/// queue, however full that is; progress adds a wake-up at most, and drops
/// it once the consumer is too far behind.
pub proof fn terminal_events_are_always_delivered(
    m: ManagerModel,
    id: u64,
    result: Result<(), ErrorModel>,
    reason: Seq<char>,
    bytes: u64,
    total: u64,
    i: int,
)
    requires
        0 <= i < m.statuses.len(),
        m.statuses[i].id == id,
    ensures
        exists|status: StatusModel| #[trigger]
            finished_as(status, id, end_state(result)) && m.concluded(id, end_state(result)).queue
                == m.queue.push(EventModel::Finished(status)),
        exists|status: StatusModel| #[trigger]
            finished_as(status, id, StateModel::Failed(reason)) && m.rejected(id, reason).queue
                == m.queue.push(EventModel::Finished(status)),
        exists|status: StatusModel| #[trigger]
            finished_as(
                status,
                id,
                StateModel::Failed("failed to spawn worker thread: "@ + reason),
            ) && m.unstarted(id, reason).queue == m.queue.push(EventModel::Finished(status)),
        m.progressed(id, bytes, total).queue == m.queue || (m.queue.len()
            < EVENT_CHANNEL_CAPACITY && m.progressed(id, bytes, total).queue == m.queue.push(
            EventModel::Updated,
        )),
{
    lemma_position(m.statuses, id);
    let at = position(m.statuses, id);
    let spawn = StateModel::Failed("failed to spawn worker thread: "@ + reason);
    assert(finished_as(
        StatusModel { state: end_state(result), ..m.statuses[at] },
        id,
        end_state(result),
    ));
    assert(finished_as(
        StatusModel { state: StateModel::Failed(reason), ..m.statuses[at] },
        id,
        StateModel::Failed(reason),
    ));
    assert(finished_as(StatusModel { state: spawn, ..m.statuses[at] }, id, spawn));
}

/// `status` tells of transfer `id` having ended in `state`.
pub open spec fn finished_as(status: StatusModel, id: u64, state: StateModel) -> bool {
    status.id == id && status.state == state && state.terminal()
}

/// Auxiliary connections are dialed once: a pool that is open is used as it
/// is, a target that refused is not asked again, and only dropping the pool
/// leads to another dial.  A transfer on its own dials nothing.
pub proof fn helpers_are_dialed_once(m: ManagerModel, connected: bool)
    requires
        m.helper_target is Some,
        m.helpers >= 0,
    ensures
        m.dialed(true).helper_plan_spec() is Pooled,
        m.helpers == 0 ==> m.dialed(false).helper_plan_spec() is Without,
        m.dialed(connected).helper_plan_spec() !is Dial,
        m.dialed(connected).invalidated().helper_plan_spec() == HelperModel::Dial(
            m.helper_target->0,
        ),
        m.in_flight_spec() <= 1 ==> m.lane_plan_spec() is Without,
{
}

proof fn lemma_free_lane(busy: Seq<bool>, lanes: int, from: int, at: int)
    requires
        0 <= from <= at < busy.len(),
        at < lanes,
        !busy[at],
    ensures
        free_lane(busy, lanes, from) is Some,
        from <= free_lane(busy, lanes, from)->0 <= at,
        !busy[free_lane(busy, lanes, from)->0],
    decreases at - from,
{
    if busy[from] {
        lemma_free_lane(busy, lanes, from + 1, at);
    }
}

/// Two transfers never share a lane while another one is free: the lane
/// handed out was free, and only that lane becomes busy.
pub proof fn lanes_are_not_shared(m: ManagerModel, id: u64, helpers: int, free: int)
    requires
        helpers >= 0,
        0 <= free < m.lane_busy.len(),
        free <= helpers,
        !m.lane_busy[free],
    ensures
        0 <= m.lane(id, helpers) < m.lane_busy.len(),
        !m.lane_busy[m.lane(id, helpers)],
        m.lane_set(m.lane(id, helpers), true).lane_busy == m.lane_busy.update(
            m.lane(id, helpers),
            true,
        ),
        m.lane_set(m.lane(id, helpers), true).lane_set(m.lane(id, helpers), false) == m,
{
    lemma_free_lane(m.lane_busy, helpers + 1, 0, free);
    let l = m.lane(id, helpers);
    assert(m.lane_busy.update(l, true).update(l, false) =~= m.lane_busy);
}

/// No unfinished transfer of the list writes `dest`.
pub open spec fn unclaimed(list: Seq<StatusModel>, dest: Seq<char>) -> bool {
    forall|i: int|
        0 <= i < list.len() && !(#[trigger] list[i]).state.terminal() ==> list[i].dest != dest
}

/// A transfer asked for is listed as queued, under the next number and with
/// what it was asked for, and its job waits behind the others; nothing else
/// changes.
pub proof fn a_request_is_queued(
    m: ManagerModel,
    direction: Direction,
    source: Seq<char>,
    dest: Seq<char>,
    job: JobModel,
)
    requires
        numbered(m.statuses, m.next_id),
        m.next_id < u64::MAX,
        unclaimed(m.statuses, dest),
    ensures
        ({
            let r = m.requested(direction, source, dest, job);
            &&& r.statuses == m.statuses.push(
                StatusModel { id: m.next_id, direction, source, dest, state: StateModel::Queued },
            )
            &&& r.jobs == m.jobs.push((m.next_id, job))
            &&& r.next_id == m.next_id + 1
            &&& r.cancels == m.cancels.insert(m.next_id, false)
            &&& r.queue == m.queue
            &&& r.running == m.running
            &&& r.created_dirs == m.created_dirs
            &&& r.helper_target == m.helper_target
            &&& r.helpers == m.helpers
            &&& r.helpers_unavailable == m.helpers_unavailable
            &&& r.lane_busy == m.lane_busy
        }),
{
    let list = m.registered(direction, source, dest).statuses;
    assert forall|i: int|
        0 <= i < list.len() && (#[trigger] list[i]).id != m.next_id
            && !list[i].state.terminal() implies list[i].dest != dest by {
        assert(list[i] == m.statuses[i]);
    }
}

/// A transfer to a destination that is being written is refused: it is
/// listed as failed, the consumer is told, and no job is added for it.
pub proof fn a_second_writer_is_refused(
    m: ManagerModel,
    direction: Direction,
    source: Seq<char>,
    dest: Seq<char>,
    job: JobModel,
    i: int,
)
    requires
        numbered(m.statuses, m.next_id),
        m.statuses.len() < MAX_RETAINED_STATUSES,
        0 <= i < m.statuses.len(),
        !m.statuses[i].state.terminal(),
        m.statuses[i].dest == dest,
    ensures
        ({
            let r = m.requested(direction, source, dest, job);
            let refused = StatusModel {
                id: m.next_id,
                direction,
                source,
                dest,
                state: StateModel::Failed("this file is already being transferred"@),
            };
            &&& r.statuses == m.statuses.push(refused)
            &&& r.queue == m.queue.push(EventModel::Finished(refused))
            &&& r.jobs == m.jobs
            &&& r.running == m.running
            &&& !r.cancels.contains_key(m.next_id)
        }),
{
    let n = m.registered(direction, source, dest);
    assert(n.statuses[i] == m.statuses[i]);
    assert(busy(n.statuses, m.next_id, dest));
    lemma_position(n.statuses, m.next_id);
    let k = m.statuses.len() as int;
    assert(n.statuses[k].id == m.next_id);
    assert(position(n.statuses, m.next_id) == k) by {
        let at = position(n.statuses, m.next_id);
        if at < k {
            assert(n.statuses[at] == m.statuses[at]);
        }
    }
    let refused = StatusModel {
        id: m.next_id,
        direction,
        source,
        dest,
        state: StateModel::Failed("this file is already being transferred"@),
    };
    assert(n.statuses.update(k, refused) =~= m.statuses.push(refused));
}

/// News of one transfer changes the status of that transfer alone: progress
/// makes it running, an end makes it done, cancelled or failed with the
/// error, and the jobs that wait are not touched.
pub proof fn news_changes_one_status(
    m: ManagerModel,
    i: int,
    bytes: u64,
    total: u64,
    result: Result<(), ErrorModel>,
)
    requires
        numbered(m.statuses, m.next_id),
        m.statuses.len() <= MAX_RETAINED_STATUSES,
        0 <= i < m.statuses.len(),
    ensures
        ({
            let id = m.statuses[i].id;
            let ended = m.concluded(id, end_state(result));
            &&& !m.statuses[i].state.terminal() ==> m.progressed(id, bytes, total).statuses
                == m.statuses.update(
                i,
                StatusModel { state: StateModel::Running { bytes, total }, ..m.statuses[i] },
            )
            &&& m.progressed(id, bytes, total).jobs == m.jobs
            &&& ended.jobs == m.jobs
            &&& ended.cancels == m.cancels.remove(id)
            &&& ended.running == m.running.remove(id)
            &&& ended.statuses == m.statuses.update(
                i,
                StatusModel {
                    state: match result {
                        Ok(()) => StateModel::Done,
                        Err(ErrorModel::Cancelled) => StateModel::Cancelled,
                        Err(ErrorModel::AlreadyExists(p)) => StateModel::Failed(
                            p + " already exists; drop it somewhere else or rename it"@,
                        ),
                        Err(ErrorModel::Failed(e)) => StateModel::Failed(e),
                    },
                    ..m.statuses[i]
                },
            )
        }),
{
    let id = m.statuses[i].id;
    lemma_position(m.statuses, id);
    let at = position(m.statuses, id);
    assert(at == i) by {
        if at > i {
            assert(m.statuses[i].id != id);
        }
        if at < i {
            assert(m.statuses[at].id < m.statuses[i].id);
        }
    }
}

/// The transfers that are over are exactly those that were done, failed or
/// were cancelled, and an open one is one that queues or runs.
pub proof fn only_ends_are_terminal(state: StateModel)
    ensures
        state.terminal() <==> state is Done || state is Failed || state is Cancelled,
{
}

} // verus!

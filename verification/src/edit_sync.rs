//! Keeps remote files that were opened for editing in step with their
//! local copies: a copy is uploaded whenever it settles after a change, so
//! editing in any application round-trips to the server.

use crate::text::{cat, cat3, decimal, number};
use vstd::hash_set::StringHashSet;
use vstd::prelude::*;
use vstd::string::*;

verus! {

/// How many remote files may be watched at once.
pub const MAX_WATCHERS: usize = 8;

/// Milliseconds between two looks at a file.
pub const POLL_INTERVAL: u64 = 500;

/// After a change is detected, wait for the file to stay unchanged for
/// this many milliseconds before uploading (editors and autosave write in
/// steps).
pub const QUIET_PERIOD: u64 = 1500;

/// Milliseconds before retrying a failed upload, doubled per consecutive
/// failure so a server hiccup is ridden out without hammering the
/// connection.
pub const RETRY_BASE_DELAY: u64 = 5000;

/// Upper bound for a single retry delay.
pub const MAX_RETRY_DELAY: u64 = 60000;

/// Consecutive failed syncs before this save is given up on.  A permanent
/// failure (read-only file, revoked permission, full disk) must stop
/// instead of retrying and notifying forever; the watcher keeps running,
/// so the user's next save starts a fresh budget and a transient outage
/// still recovers on its own.
pub const MAX_SYNC_ATTEMPTS: u32 = 5;

/// Size and modification time of a local file.
#[derive(Clone, Copy, Debug, PartialEq, Eq, Structural)]
pub struct FileStamp {
    pub size: u64,
    pub mtime: u64,
}

/// What the watch loop should do after observing the current file state.
#[derive(Clone, Copy, Debug, PartialEq, Eq, Structural)]
pub enum Action {
    /// Nothing to do.
    Idle,
    /// A change was just observed; start/refresh the quiet period.
    Changed,
    /// The file changed and has been quiet; upload it now.
    Upload,
    /// The local file is gone; stop watching.
    Stop,
}

/// State machine for one watched file.
#[derive(Debug)]
pub struct SyncTracker {
    pub last_seen: Option<FileStamp>,
    pub last_synced: Option<FileStamp>,
    pub dirty: bool,
    /// Milliseconds at which the last change was seen.
    pub changed_at: Option<u64>,
    /// Failed sync attempts for the current dirty state; reset by the next
    /// local change and by a successful sync.
    pub attempts: u32,
    pub next_retry: Option<u64>,
}

/// The stamps are there and equal.
pub open spec fn seen_as(a: Option<FileStamp>, b: FileStamp) -> bool {
    a == Some(b)
}

fn is_same(a: Option<FileStamp>, b: FileStamp) -> (r: bool)
    ensures
        r == seen_as(a, b),
{
    match a {
        Some(s) => s == b,
        None => false,
    }
}

/// Milliseconds from `since` to `now`, none if it is still ahead.
pub open spec fn passed(since: u64, now: u64) -> int {
    if now < since {
        0
    } else {
        now - since
    }
}

/// Backoff before attempt `attempts` (1 = first retry): the base delay
/// doubled for every attempt after the first, up to the cap.
pub open spec fn backoff(attempts: u32) -> u64 {
    if attempts <= 1 {
        RETRY_BASE_DELAY
    } else if attempts == 2 {
        (2 * RETRY_BASE_DELAY) as u64
    } else if attempts == 3 {
        (4 * RETRY_BASE_DELAY) as u64
    } else if attempts == 4 {
        (8 * RETRY_BASE_DELAY) as u64
    } else {
        MAX_RETRY_DELAY
    }
}

/// Backoff before attempt `attempts` (1 = first retry), in milliseconds.
pub fn retry_delay(attempts: u32) -> (r: u64)
    ensures
        r == backoff(attempts),
{
    let mut shift: u32 = if attempts == 0 {
        0
    } else {
        attempts - 1
    };
    if shift > 4 {
        shift = 4;
    }
    let mut delay: u64 = RETRY_BASE_DELAY;
    let mut i: u32 = 0;
    while i < shift
        invariant
            i <= shift <= 4,
            i == 0 ==> delay == RETRY_BASE_DELAY,
            i == 1 ==> delay == 2 * RETRY_BASE_DELAY,
            i == 2 ==> delay == 4 * RETRY_BASE_DELAY,
            i == 3 ==> delay == 8 * RETRY_BASE_DELAY,
            i == 4 ==> delay == 16 * RETRY_BASE_DELAY,
        decreases shift - i,
    {
        delay = delay * 2;
        i += 1;
    }
    if delay > MAX_RETRY_DELAY {
        MAX_RETRY_DELAY
    } else {
        delay
    }
}

/// The sum of a time and a delay, held at the last time there is.
pub open spec fn later(now: u64, delay: u64) -> u64 {
    if now + delay > u64::MAX {
        u64::MAX
    } else {
        (now + delay) as u64
    }
}

impl SyncTracker {
    /// An upload is due at `now`.
    pub open spec fn due(self, now: u64) -> bool {
        &&& self.dirty
        &&& self.attempts < MAX_SYNC_ATTEMPTS
        &&& match self.changed_at {
            Some(t) => passed(t, now) >= QUIET_PERIOD,
            None => false,
        }
        &&& match self.next_retry {
            Some(t) => now >= t,
            None => true,
        }
    }

    /// The tracker and its action after a look at the file.
    pub open spec fn observed(self, current: Option<FileStamp>, now: u64) -> (SyncTracker, Action) {
        match current {
            None => (self, Action::Stop),
            Some(cur) => if !seen_as(self.last_seen, cur) {
                (
                    SyncTracker {
                        last_seen: Some(cur),
                        changed_at: Some(now),
                        dirty: !seen_as(self.last_synced, cur),
                        attempts: 0,
                        next_retry: None,
                        ..self
                    },
                    Action::Changed,
                )
            } else if self.due(now) {
                (self, Action::Upload)
            } else {
                (self, Action::Idle)
            },
        }
    }

    pub open spec fn synced(self, stat: FileStamp) -> SyncTracker {
        SyncTracker { last_synced: Some(stat), dirty: false, attempts: 0, next_retry: None, ..self }
    }

    pub open spec fn failed(self, now: u64) -> SyncTracker {
        SyncTracker {
            attempts: (self.attempts + 1) as u32,
            next_retry: Some(later(now, backoff((self.attempts + 1) as u32))),
            ..self
        }
    }

    pub fn new(initial: Option<FileStamp>) -> (r: Self)
        ensures
            r == (SyncTracker {
                last_seen: initial,
                last_synced: initial,
                dirty: false,
                changed_at: None,
                attempts: 0,
                next_retry: None,
            }),
    {
        SyncTracker {
            last_seen: initial,
            last_synced: initial,
            dirty: false,
            changed_at: None,
            attempts: 0,
            next_retry: None,
        }
    }

    /// Look at the file at `now` milliseconds.
    pub fn observe(&mut self, current: Option<FileStamp>, now: u64) -> (r: Action)
        ensures
            (*final(self), r) == old(self).observed(current, now),
    {
        match current {
            None => Action::Stop,
            Some(cur) => {
                if !is_same(self.last_seen, cur) {
                    self.last_seen = Some(cur);
                    self.changed_at = Some(now);
                    self.dirty = !is_same(self.last_synced, cur);
                    // A new save is a new intent to write: retry it from
                    // scratch.
                    self.attempts = 0;
                    self.next_retry = None;
                    return Action::Changed;
                }
                let quiet = match self.changed_at {
                    Some(t) => now >= t && now - t >= QUIET_PERIOD,
                    None => false,
                };
                let may_retry = match self.next_retry {
                    Some(t) => now >= t,
                    None => true,
                };
                if self.dirty && self.attempts < MAX_SYNC_ATTEMPTS && quiet && may_retry {
                    Action::Upload
                } else {
                    Action::Idle
                }
            },
        }
    }

    pub fn mark_synced(&mut self, stat: FileStamp)
        ensures
            *final(self) == old(self).synced(stat),
    {
        self.last_synced = Some(stat);
        self.dirty = false;
        self.attempts = 0;
        self.next_retry = None;
    }

    /// Record a failure and back off before the next attempt.  Returns
    /// whether this was the last attempt this save gets.
    pub fn mark_failed(&mut self, now: u64) -> (last: bool)
        requires
            old(self).attempts < u32::MAX,
        ensures
            *final(self) == old(self).failed(now),
            last == (old(self).attempts + 1 >= MAX_SYNC_ATTEMPTS),
    {
        self.attempts += 1;
        let delay: u64 = retry_delay(self.attempts);
        self.next_retry = Some(
            if now > u64::MAX - delay {
                u64::MAX
            } else {
                now + delay
            },
        );
        self.attempts >= MAX_SYNC_ATTEMPTS
    }
}

/// What the remote file looked like the last time this watcher synced
/// with it, used to detect a concurrent remote change before writing.
#[derive(Clone, Copy, Debug, PartialEq, Eq)]
pub struct RemoteStamp {
    pub size: Option<u64>,
    pub mtime: Option<u64>,
}

/// The stamp of a remote file whose size and modification time, as far as
/// the server tells them, are these.
pub fn stamp_from(size: Option<u64>, modified: Option<u64>) -> (r: RemoteStamp)
    ensures
        r == (RemoteStamp { size, mtime: modified }),
{
    RemoteStamp { size, mtime: modified }
}

fn same_count(a: Option<u64>, b: Option<u64>) -> (r: bool)
    ensures
        r == (a == b),
{
    match (a, b) {
        (Some(x), Some(y)) => x == y,
        (None, None) => true,
        _ => false,
    }
}

fn same_stamp(a: &RemoteStamp, b: &RemoteStamp) -> (r: bool)
    ensures
        r == (*a == *b),
{
    same_count(a.size, b.size) && same_count(a.mtime, b.mtime)
}

/// The write-back of one opened file.
#[derive(Debug)]
pub struct EditSync {
    pub source: String,
    pub tracker: SyncTracker,
    /// The remote file as this watcher left it.
    pub baseline: Option<RemoteStamp>,
    /// Set once a save is refused because the remote copy moved on; the
    /// next save then goes through, so a second save is the user's way of
    /// saying "overwrite the remote file".
    pub conflict_warned: bool,
}

/// What a write-back holds.
pub struct SyncModel {
    pub source: Seq<char>,
    pub tracker: SyncTracker,
    pub baseline: Option<RemoteStamp>,
    pub conflict_warned: bool,
}

impl View for EditSync {
    type V = SyncModel;

    open spec fn view(&self) -> SyncModel {
        SyncModel {
            source: self.source@,
            tracker: self.tracker,
            baseline: self.baseline,
            conflict_warned: self.conflict_warned,
        }
    }
}

impl SyncModel {
    /// The server's file is not the one this watcher knows, and the user
    /// has not been told yet.
    pub open spec fn conflicts(self, remote: Option<RemoteStamp>) -> bool {
        !self.conflict_warned && match (self.baseline, remote) {
            (Some(known), Some(current)) => known != current,
            _ => false,
        }
    }

    /// The local file as `stat`, or as it was last seen, counted as synced.
    pub open spec fn settled(self, stat: Option<FileStamp>) -> SyncModel {
        let seen = match stat {
            Some(s) => Some(s),
            None => self.tracker.last_seen,
        };
        match seen {
            Some(s) => SyncModel { tracker: self.tracker.synced(s), ..self },
            None => self,
        }
    }
}

impl EditSync {
    pub fn new(source: String, initial: Option<FileStamp>, baseline: Option<RemoteStamp>) -> (r:
        Self)
        ensures
            r@.source == source@,
            r@.baseline == baseline,
            !r@.conflict_warned,
            r@.tracker == (SyncTracker {
                last_seen: initial,
                last_synced: initial,
                dirty: false,
                changed_at: None,
                attempts: 0,
                next_retry: None,
            }),
    {
        EditSync { source, tracker: SyncTracker::new(initial), baseline, conflict_warned: false }
    }

    fn settle(&mut self, stat: Option<FileStamp>)
        ensures
            final(self)@ == old(self)@.settled(stat),
    {
        let seen = match stat {
            Some(s) => Some(s),
            None => self.tracker.last_seen,
        };
        if let Some(s) = seen {
            self.tracker.mark_synced(s);
        }
    }

    /// Before an upload: a save over a file that someone else changed is
    /// refused once, with the notice to show.
    pub fn check_conflict(&mut self, stat: Option<FileStamp>, remote: Option<RemoteStamp>) -> (r:
        Option<String>)
        ensures
            r is Some <==> old(self)@.conflicts(remote),
            r matches Some(t) ==> t@ == old(self)@.source
                + " changed on the server; save again to overwrite it"@,
            final(self)@ == if old(self)@.conflicts(remote) {
                (SyncModel { conflict_warned: true, ..old(self)@ }).settled(stat)
            } else {
                old(self)@
            },
    {
        let moved_on = match (&self.baseline, &remote) {
            (Some(known), Some(current)) => !same_stamp(known, current),
            _ => false,
        };
        if moved_on && !self.conflict_warned {
            self.conflict_warned = true;
            self.settle(stat);
            Some(
                cat(
                    self.source.as_str(),
                    " changed on the server; save again to overwrite it",
                ),
            )
        } else {
            None
        }
    }

    /// After an upload that succeeded: our own write becomes the new
    /// baseline.  The result is the notice to show.
    pub fn uploaded(&mut self, stat: Option<FileStamp>, bytes: u64, remote: Option<RemoteStamp>)
        -> (r: String)
        ensures
            final(self)@ == (SyncModel {
                baseline: remote,
                conflict_warned: false,
                ..old(self)@.settled(stat)
            }),
            r@ == "saved "@ + old(self)@.source + " to server ("@ + decimal(bytes as nat)
                + " bytes)"@,
    {
        self.settle(stat);
        self.baseline = remote;
        self.conflict_warned = false;
        let mut note = cat3("saved ", self.source.as_str(), " to server (");
        note.append(number(bytes).as_str());
        note.append(" bytes)");
        note
    }

    /// After an upload that failed: one notice for the first failure of a
    /// save and one when it is given up on; the retries in between are
    /// background bookkeeping.
    pub fn upload_failed(&mut self, err: &str, now: u64) -> (r: Option<String>)
        requires
            old(self)@.tracker.attempts < u32::MAX,
        ensures
            final(self)@ == (SyncModel { tracker: old(self)@.tracker.failed(now), ..old(self)@ }),
            ({
                let attempts = old(self)@.tracker.attempts + 1;
                let source = old(self)@.source;
                match r {
                    Some(t) => {
                        ||| attempts >= MAX_SYNC_ATTEMPTS && t@ == "could not save "@ + source
                            + ": "@ + err@ + " - save again to retry"@
                        ||| attempts < MAX_SYNC_ATTEMPTS && attempts == 1 && t@
                            == "failed to save "@ + source + ": "@ + err@ + " (retrying)"@
                    },
                    None => attempts < MAX_SYNC_ATTEMPTS && attempts != 1,
                }
            }),
    {
        let last = self.tracker.mark_failed(now);
        if last {
            let mut note = cat3("could not save ", self.source.as_str(), ": ");
            note.append(err);
            note.append(" - save again to retry");
            Some(note)
        } else if self.tracker.attempts == 1 {
            let mut note = cat3("failed to save ", self.source.as_str(), ": ");
            note.append(err);
            note.append(" (retrying)");
            Some(note)
        } else {
            None
        }
    }
}

/// The remote files being watched.
pub struct Watchers {
    pub sources: StringHashSet,
    /// Watchers that are running.
    pub active: usize,
}

/// Whether a watcher is to be started.
#[derive(Debug)]
pub enum WatchStart {
    /// The file is being watched already.
    Known,
    /// Too many files are being watched; the notice to show.
    Full(String),
    Start,
}

impl Watchers {
    pub fn new() -> (r: Self)
        ensures
            r.sources@ == Set::<Seq<char>>::empty(),
            r.active == 0,
    {
        Watchers { sources: StringHashSet::new(), active: 0 }
    }

    /// Ask to watch `source`.
    pub fn begin(&mut self, source: &str) -> (r: WatchStart)
        ensures
            final(self).active == old(self).active,
            final(self).sources@ == if r is Start {
                old(self).sources@.insert(source@)
            } else {
                old(self).sources@
            },
            r is Known <==> old(self).sources@.contains(source@),
            r is Full <==> !old(self).sources@.contains(source@) && old(self).active
                >= MAX_WATCHERS,
            r matches WatchStart::Full(t) ==> t@ == "too many open files; edits to "@ + source@
                + " will not auto-sync"@,
    {
        if self.sources.contains(source) {
            return WatchStart::Known;
        }
        if self.active >= MAX_WATCHERS {
            return WatchStart::Full(
                cat3("too many open files; edits to ", source, " will not auto-sync"),
            );
        }
        self.sources.insert(source.to_owned());
        WatchStart::Start
    }

    /// A watcher's thread is running.
    pub fn running(&mut self)
        requires
            old(self).active < usize::MAX,
        ensures
            final(self).active == old(self).active + 1,
            final(self).sources@ == old(self).sources@,
    {
        self.active += 1;
    }

    /// A watcher's thread has come to its end.
    pub fn ended(&mut self, source: &str)
        requires
            old(self).active > 0,
        ensures
            final(self).active == old(self).active - 1,
            final(self).sources@ == old(self).sources@.remove(source@),
    {
        self.active -= 1;
        self.sources.remove(source);
    }

    /// No thread could be started for a watcher.
    pub fn unstarted(&mut self, source: &str)
        ensures
            final(self).active == old(self).active,
            final(self).sources@ == old(self).sources@.remove(source@),
    {
        self.sources.remove(source);
    }
}

/// A save that failed for good stops retrying: once the attempts are
/// spent, however long the watcher polls, nothing is uploaded until the
/// file changes, and the next change starts a fresh budget.
pub proof fn spent_budget_waits_for_a_new_save(t: SyncTracker, cur: FileStamp, now: u64, at: u64)
    requires
        t.attempts >= MAX_SYNC_ATTEMPTS,
    ensures
        seen_as(t.last_seen, cur) ==> t.observed(Some(cur), now) == (t, Action::Idle),
        !seen_as(t.last_seen, cur) && !seen_as(t.last_synced, cur) ==> ({
            let (u, a) = t.observed(Some(cur), at);
            &&& a is Changed
            &&& u.attempts == 0
            &&& passed(at, now) >= QUIET_PERIOD ==> u.observed(Some(cur), now).1 is Upload
        }),
{
}

/// Nothing is uploaded while the file is being edited: an upload comes only
/// a quiet period after the last change that was seen.
pub proof fn upload_waits_for_quiet(t: SyncTracker, cur: FileStamp, at: u64, now: u64)
    requires
        !seen_as(t.last_seen, cur),
        passed(at, now) < QUIET_PERIOD,
    ensures
        t.observed(Some(cur), at).1 is Changed,
        t.observed(Some(cur), at).0.observed(Some(cur), now).1 is Idle,
{
}

/// A save is uploaded once: after a successful sync the same file is left
/// alone until it changes.
pub proof fn synced_file_is_left_alone(t: SyncTracker, cur: FileStamp, now: u64)
    requires
        seen_as(t.last_seen, cur),
    ensures
        t.synced(cur).observed(Some(cur), now) == (t.synced(cur), Action::Idle),
{
}

/// A refused save goes through when it is saved again: a conflict is
/// reported once, and no second time until an upload succeeded.
pub proof fn second_save_overwrites(s: SyncModel, stat: Option<FileStamp>, first: Option<RemoteStamp>, second: Option<RemoteStamp>)
    requires
        s.conflicts(first),
    ensures
        !(SyncModel { conflict_warned: true, ..s }).settled(stat).conflicts(second),
{
}

/// The pause before a retry starts at the base delay, doubles with every
/// attempt and never grows beyond the longest one.
pub proof fn retries_back_off(attempts: u32)
    requires
        1 <= attempts < u32::MAX,
    ensures
        backoff(1) == RETRY_BASE_DELAY,
        backoff((attempts + 1) as u32) == (if 2 * backoff(attempts) < MAX_RETRY_DELAY {
            (2 * backoff(attempts)) as u64
        } else {
            MAX_RETRY_DELAY
        }),
        backoff(attempts) <= MAX_RETRY_DELAY,
{
}

/// A save is uploaded once the file has been quiet, and after a failure
/// again once the pause is over and not before; a file that is gone ends
/// the watch.
pub proof fn a_save_is_uploaded_and_retried(
    t: SyncTracker,
    cur: FileStamp,
    at: u64,
    now: u64,
    again: u64,
)
    requires
        t.last_seen != Some(cur),
        t.last_synced != Some(cur),
        at + QUIET_PERIOD <= now,
        now + RETRY_BASE_DELAY <= u64::MAX,
        now <= again,
    ensures
        ({
            let (saved, what) = t.observed(Some(cur), at);
            let failed = saved.failed(now);
            &&& what is Changed
            &&& saved.observed(Some(cur), now).1 is Upload
            &&& again < now + RETRY_BASE_DELAY ==> failed.observed(Some(cur), again).1 is Idle
            &&& again >= now + RETRY_BASE_DELAY ==> failed.observed(Some(cur), again).1 is Upload
            &&& t.observed(None, now) == (t, Action::Stop)
        }),
{
}

/// A file saved back to what the server has is not uploaded.
pub proof fn an_undone_edit_is_not_uploaded(t: SyncTracker, cur: FileStamp, at: u64, now: u64)
    requires
        t.last_seen != Some(cur),
        t.last_synced == Some(cur),
    ensures
        t.observed(Some(cur), at).0.observed(Some(cur), now).1 is Idle,
{
}

/// A save conflicts exactly where the server's file is known to have
/// changed since it was fetched or saved, and where that was not reported
/// before; a reported conflict counts as dealt with until the next save.
pub proof fn a_conflict_is_a_change_on_the_server(
    s: SyncModel,
    known: RemoteStamp,
    current: RemoteStamp,
    stat: FileStamp,
    now: u64,
)
    ensures
        ({
            let fresh = SyncModel { baseline: Some(known), conflict_warned: false, ..s };
            let reported = SyncModel { conflict_warned: true, ..s };
            &&& fresh.conflicts(Some(current)) <==> known != current
            &&& !fresh.conflicts(None)
            &&& !(SyncModel { baseline: None, ..fresh }).conflicts(Some(current))
            &&& !reported.conflicts(Some(current))
            &&& s.settled(Some(stat)).tracker.last_synced == Some(stat)
            &&& !s.settled(Some(stat)).tracker.dirty
            &&& s.tracker.last_seen == Some(stat) ==> s.settled(Some(stat)).tracker.observed(
                Some(stat),
                now,
            ).1 is Idle
            &&& s.settled(Some(stat)).source == s.source
            &&& s.settled(Some(stat)).baseline == s.baseline
        }),
{
}

} // verus!

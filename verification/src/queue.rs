//! What is queued between the two panels: transfers waiting to start,
//! conflicts waiting for an answer, folders waiting for a confirmation, and
//! what was yanked.

use crate::keys::KeyCode;
use crate::panel::PanelModel;
use crate::paths::{base, base_name, join_path, path_in};
use crate::state::{
    item_list, pending_list, App, AppModel, ClipModel, Clipboard, HandModel, InputMode, ModeModel,
    OpRequest, OutModel, PanesModel, PendingModel, PendingTransfer, QueueModel, RequestModel, ScanModel, ScanRequest,
};
use crate::text::{cat, cat3, decimal, number, same};
use crate::transfer::{
    a_request_is_queued, numbered, unclaimed, Direction, JobModel, ManagerModel, StateModel,
    StatusModel, TransferId, TransferManager,
};
use crate::types::{FileEntry, PanelSide};
use vstd::prelude::*;
use vstd::string::*;

verus! {

broadcast use vstd::std_specs::hash::group_hash_axioms;

/// Which way a transfer goes between two sides.
pub open spec fn between(from: PanelSide, to: PanelSide) -> Direction {
    match (from, to) {
        (PanelSide::Local, PanelSide::Remote) => Direction::Upload,
        (PanelSide::Remote, PanelSide::Local) => Direction::Download,
        _ => Direction::Copy,
    }
}

/// Which way a transfer goes between two panels: reading local and
/// writing remote is an upload, the reverse is a download, and the same
/// side on both ends is a copy.  Local-to-local never reaches the engine.
pub fn direction_between(from: PanelSide, to: PanelSide) -> (r: Direction)
    ensures
        r == between(from, to),
{
    match (from, to) {
        (PanelSide::Local, PanelSide::Remote) => Direction::Upload,
        (PanelSide::Remote, PanelSide::Local) => Direction::Download,
        _ => Direction::Copy,
    }
}

/// Remote and local path for a queued transfer, in the order the engine
/// expects them.  `source` is the side being read and `dest` the side
/// being written, so which one is remote depends on the direction; a copy
/// has both on the remote side.
pub fn transfer_paths(item: &PendingTransfer) -> (r: (String, String))
    ensures
        item@.direction is Upload ==> r.0@ == item@.dest && r.1@ == item@.source,
        !(item@.direction is Upload) ==> r.0@ == item@.source && r.1@ == item@.dest,
{
    match item.direction {
        Direction::Upload => (item.dest.clone(), item.source.clone()),
        Direction::Download => (item.source.clone(), item.dest.clone()),
        Direction::Copy => (item.source.clone(), item.dest.clone()),
    }
}

/// The manager once a queued transfer was handed to it.
#[verifier::opaque]
pub open spec fn launched(t: ManagerModel, item: PendingModel, resume: bool) -> ManagerModel {
    let job = match item.direction {
        Direction::Upload => JobModel::Upload {
            local: item.source,
            remote: item.dest,
            resume,
            overwrite: true,
        },
        Direction::Download => JobModel::Download { remote: item.source, local: item.dest, resume },
        Direction::Copy => JobModel::RemoteCopy { from: item.source, to: item.dest },
    };
    t.requested(item.direction, item.source, item.dest, job)
}

/// Hand a queued transfer to the manager.
pub fn start_transfer(manager: &mut TransferManager, item: &PendingTransfer, resume: bool) -> (id:
    TransferId)
    ensures
        id == old(manager)@.next_id,
        final(manager)@ == launched(old(manager)@, item@, resume),
{
    proof {
        reveal(launched);
    }
    let (remote, local) = transfer_paths(item);
    match item.direction {
        Direction::Upload => manager.upload(local.as_str(), remote.as_str(), resume, true),
        Direction::Download => manager.download(remote.as_str(), local.as_str(), resume),
        Direction::Copy => manager.copy_remote(remote.as_str(), local.as_str()),
    }
}

/// Side whose file a cut removes: the local file for an upload, the remote
/// file otherwise.
pub open spec fn read_side(d: Direction) -> PanelSide {
    match d {
        Direction::Upload => PanelSide::Local,
        _ => PanelSide::Remote,
    }
}

/// A waiting transfer's name: what the prompt calls the folder.
pub open spec fn folder_name(root: Seq<char>) -> Seq<char> {
    match base(root) {
        Some(name) => name,
        None => ""@,
    }
}

/// Confirmation shown before a folder is walked recursively.
pub open spec fn folder_mode(request: ScanModel) -> ModeModel {
    ModeModel::ConfirmFolder { side: request.side, name: folder_name(request.root) }
}

/// Confirmation shown before a folder is walked recursively.
pub fn folder_prompt(request: &ScanRequest) -> (r: InputMode)
    ensures
        r@ == folder_mode(request@),
{
    let name = match base_name(request.root.as_str()) {
        Some(n) => n,
        None => "".to_owned(),
    };
    InputMode::ConfirmFolder { side: request.side, name }
}

impl QueueModel {
    /// A transfer started, and the source of a cut remembered, so a
    /// successful copy can remove it.
    pub open spec fn started(self, item: PendingModel, resume: bool) -> QueueModel {
        match self.transfers {
            None => self,
            Some(t) => QueueModel {
                transfers: Some(launched(t, item, resume)),
                cut_pending: if item.cut_source {
                    self.cut_pending.push((t.next_id, read_side(item.direction), item.source, false))
                } else {
                    self.cut_pending
                },
                ..self
            },
        }
    }

    /// The first `n` of the waiting transfers gone through, and those of
    /// them that still wait for an answer.
    pub open spec fn sifted(self, items: Seq<PendingModel>, n: int) -> (QueueModel, Seq<PendingModel>)
        decreases n,
    {
        if n <= 0 {
            (self, Seq::empty())
        } else {
            let (app, keep) = self.sifted(items, n - 1);
            let item = items[n - 1];
            if item.dest_size is None || self.overwrite_all == Some(true) {
                (app.started(item, false), keep)
            } else if self.overwrite_all == Some(false) {
                (app, keep)
            } else {
                (app, keep.push(item))
            }
        }
    }

    /// Transfers without a conflict, or with an answer for all, are out of
    /// the queue.
    pub open spec fn drained(self) -> QueueModel {
        let m = match self.transfers {
            Some(_) => {
                let (app, keep) = (QueueModel { pending: Seq::empty(), ..self }).sifted(
                    self.pending,
                    self.pending.len() as int,
                );
                QueueModel { pending: keep, ..app }
            },
            None => QueueModel { pending: Seq::empty(), ..self },
        };
        if m.pending.len() == 0 {
            QueueModel { overwrite_all: None, ..m }
        } else {
            m
        }
    }

    /// The next prompt on screen: conflicts are answered first, then
    /// folders.
    pub open spec fn prompted(self) -> QueueModel {
        if self.mode is Some {
            self
        } else if self.pending.len() > 0 {
            QueueModel { mode: Some(ModeModel::ConfirmOverwrite), ..self }
        } else if self.scan_queue.len() > 0 {
            QueueModel { mode: Some(folder_mode(self.scan_queue[0])), ..self }
        } else {
            self
        }
    }

    /// Everything started that can start, and the next prompt on screen.
    pub open spec fn readied(self) -> QueueModel {
        self.drained().prompted()
    }

    /// The front of the waiting transfers gone.
    pub open spec fn unqueued(self) -> QueueModel {
        QueueModel { pending: self.pending.remove(0), ..self }
    }

    /// Once the queue is empty the prompt is gone, and a folder that waits
    /// takes over.
    pub open spec fn answered(self) -> QueueModel {
        if self.pending.len() == 0 {
            (QueueModel { mode: None, overwrite_all: None, ..self }).readied()
        } else {
            self
        }
    }

    /// The overwrite decision `key` for the front of the queue.
    #[verifier::opaque]
    pub open spec fn decided(self, key: KeyCode) -> QueueModel {
        if self.pending.len() == 0 {
            QueueModel { mode: None, overwrite_all: None, ..self }
        } else {
            let front = self.pending[0];
            match key {
                KeyCode::Char('o') | KeyCode::Enter => self.unqueued().started(
                    front,
                    false,
                ).answered(),
                KeyCode::Char('r') => if front.can_resume() {
                    self.unqueued().started(front, true).answered()
                } else {
                    self
                },
                KeyCode::Char('s') => self.unqueued().answered(),
                KeyCode::Char('a') => (QueueModel {
                    overwrite_all: Some(true),
                    mode: None,
                    ..self
                }).readied(),
                KeyCode::Char('x') => (QueueModel {
                    overwrite_all: Some(false),
                    pending: Seq::empty(),
                    ..self
                }).answered(),
                KeyCode::Escape => (QueueModel {
                    overwrite_all: None,
                    pending: Seq::empty(),
                    ..self
                }).answered(),
                _ => self,
            }
        }
    }
}

/// `key` confirms.
pub open spec fn confirms(key: KeyCode) -> bool {
    key == KeyCode::Char('y') || key == KeyCode::Char('Y') || key == KeyCode::Enter
}

/// `key` rejects.
pub open spec fn rejects(key: KeyCode) -> bool {
    key == KeyCode::Char('n') || key == KeyCode::Char('N') || key == KeyCode::Escape
}

impl AppModel {
    /// The answer `key` to the folder confirmation.
    #[verifier::opaque]
    pub open spec fn folder_answered(self, key: KeyCode) -> AppModel {
        if !confirms(key) && !rejects(key) {
            self
        } else {
            let q = self.queue;
            let rest = QueueModel {
                scan_queue: if q.scan_queue.len() > 0 {
                    q.scan_queue.remove(0)
                } else {
                    q.scan_queue
                },
                mode: None,
                ..q
            };
            let m = self.with_queue(rest.readied());
            if confirms(key) && q.scan_queue.len() > 0 {
                let front = q.scan_queue[0];
                m.asked(
                    RequestModel::ScanTree {
                        side: front.side,
                        root: front.root,
                        dest: front.dest,
                        dest_side: front.dest_side,
                        cut_source: front.cut_source,
                    },
                )
            } else {
                m
            }
        }
    }
}

impl App {
    /// Start one queued transfer.  The queue is the caller's business: one
    /// answer consumes one entry.
    pub fn start_item(&mut self, item: &PendingTransfer, resume: bool)
        ensures
            final(self)@ == old(self)@.with_queue(old(self)@.queue.started(item@, resume)),
    {
        let ghost start = self@;
        let started = match &mut self.transfers {
            Some(manager) => Some(start_transfer(manager, item, resume)),
            None => None,
        };
        match started {
            Some(id) => {
                if item.cut_source {
                    let side = match item.direction {
                        Direction::Upload => PanelSide::Local,
                        _ => PanelSide::Remote,
                    };
                    self.cut_pending.push((id, side, item.source.clone(), false));
                    proof {
                        assert(self@.queue.cut_pending =~= start.queue.started(
                            item@,
                            resume,
                        ).cut_pending);
                    }
                }
            },
            None => {},
        }
    }

    fn drain(&mut self)
        ensures
            final(self)@ == old(self)@.with_queue(old(self)@.queue.drained()),
    {
        let ghost start = self@;
        let mut items: Vec<PendingTransfer> = Vec::new();
        core::mem::swap(&mut self.pending, &mut items);
        let ghost from = QueueModel { pending: Seq::empty(), ..start.queue };
        let ghost all = pending_list(items@);
        proof {
            assert(self@.queue.pending =~= Seq::<PendingModel>::empty());
            assert(self@ == start.with_queue(from));
        }
        if self.transfers.is_some() {
            let mut keep: Vec<PendingTransfer> = Vec::new();
            let mut i: usize = 0;
            proof {
                assert(pending_list(keep@) =~= Seq::<PendingModel>::empty());
            }
            while i < items.len()
                invariant
                    i <= items@.len(),
                    all == pending_list(items@),
                    from.overwrite_all == start.queue.overwrite_all,
                    self@ == start.with_queue(from.sifted(all, i as int).0),
                    pending_list(keep@) == from.sifted(all, i as int).1,
                    self.overwrite_all == from.overwrite_all,
                decreases items@.len() - i,
            {
                let ghost before = pending_list(keep@);
                proof {
                    assert(all[i as int] == items@[i as int]@);
                }
                if items[i].dest_size.is_none() {
                    self.start_item(&items[i], false);
                } else {
                    match self.overwrite_all {
                        Some(true) => self.start_item(&items[i], false),
                        Some(false) => {},
                        None => {
                            keep.push(items[i].clone());
                            proof {
                                assert(pending_list(keep@) =~= before.push(all[i as int]));
                            }
                        },
                    }
                }
                i += 1;
            }
            self.pending = keep;
        }
        // Without a connection nothing can start: the queue and the answer
        // go, so a stale "overwrite all" cannot silently skip the next
        // prompt.
        if self.pending.len() == 0 {
            self.overwrite_all = None;
        }
    }

    /// Move confirmed-start transfers out of the pending queue; park the
    /// conflicting ones behind a confirmation prompt.
    pub fn start_ready_transfers(&mut self)
        ensures
            final(self)@ == old(self)@.with_queue(old(self)@.queue.readied()),
    {
        self.drain();
        if self.input_mode.is_some() {
            return;
        }
        if self.pending.len() > 0 {
            self.input_mode = Some(InputMode::ConfirmOverwrite);
        } else if self.scan_queue.len() > 0 {
            proof {
                assert(self@.queue.scan_queue[0] == self.scan_queue@[0]@);
            }
            self.input_mode = Some(folder_prompt(&self.scan_queue[0]));
        }
    }

    fn unqueue(&mut self) -> (r: PendingTransfer)
        requires
            old(self)@.queue.pending.len() > 0,
        ensures
            r@ == old(self)@.queue.pending[0],
            final(self)@ == old(self)@.with_queue(old(self)@.queue.unqueued()),
    {
        let ghost start = self@;
        proof {
            assert(start.queue.pending[0] == self.pending@[0]@);
        }
        let r = self.pending.remove(0);
        proof {
            assert(self@.queue.pending =~= start.queue.pending.remove(0));
        }
        r
    }

    fn answer_done(&mut self)
        ensures
            final(self)@ == old(self)@.with_queue(old(self)@.queue.answered()),
    {
        if self.pending.len() == 0 {
            self.input_mode = None;
            self.overwrite_all = None;
            // Conflicts and folder confirmations share one queue: answering
            // the last conflict has to hand over to a folder that is still
            // waiting, or it would never be asked for.
            self.start_ready_transfers();
        }
    }

    /// Overwrite decision for the front of the pending queue.
    /// Keys: o overwrite, r resume (partial only), s skip,
    /// a overwrite-all, x skip-all, Esc cancel the whole queue.
    pub fn decide_overwrite(&mut self, key: KeyCode)
        ensures
            final(self)@ == old(self)@.with_queue(old(self)@.queue.decided(key)),
    {
        proof {
            reveal(QueueModel::decided);
        }
        let ghost start = self@;
        if self.pending.len() == 0 {
            self.input_mode = None;
            self.overwrite_all = None;
            return;
        }
        proof {
            assert(start.queue.pending[0] == self.pending@[0]@);
        }
        match key {
            KeyCode::Char('o') | KeyCode::Enter => {
                let front = self.unqueue();
                self.start_item(&front, false);
                self.answer_done();
            },
            KeyCode::Char('r') => {
                if self.pending[0].resumable() {
                    let front = self.unqueue();
                    self.start_item(&front, true);
                    self.answer_done();
                }
            },
            KeyCode::Char('s') => {
                let _front = self.unqueue();
                self.answer_done();
            },
            KeyCode::Char('a') => {
                // The front item starts now and the rest of the queue
                // follows without another prompt.
                self.overwrite_all = Some(true);
                self.input_mode = None;
                self.start_ready_transfers();
            },
            KeyCode::Char('x') => {
                self.overwrite_all = Some(false);
                self.pending = Vec::new();
                proof {
                    assert(self@.queue.pending =~= Seq::<PendingModel>::empty());
                }
                self.answer_done();
            },
            KeyCode::Escape => {
                self.pending = Vec::new();
                self.overwrite_all = None;
                proof {
                    assert(self@.queue.pending =~= Seq::<PendingModel>::empty());
                }
                self.answer_done();
            },
            _ => {},
        }
    }

    /// Folder recursive-transfer confirmation.  Keys: y/Enter scan and
    /// queue, n/Esc skip.  A confirmed walk is in flight, so the request
    /// leaves the prompt queue: otherwise the same folder would be asked
    /// for again once the scan returns.
    #[verifier::rlimit(40)]
    pub fn confirm_folder(&mut self, key: KeyCode)
        ensures
            final(self)@ == old(self)@.folder_answered(key),
    {
        proof {
            reveal(AppModel::folder_answered);
        }
        let ghost start = self@;
        let confirmed = key == KeyCode::Char('y') || key == KeyCode::Char('Y') || key
            == KeyCode::Enter;
        let rejected = key == KeyCode::Char('n') || key == KeyCode::Char('N') || key
            == KeyCode::Escape;
        if !confirmed && !rejected {
            return;
        }
        if self.scan_queue.len() > 0 {
            proof {
                assert(start.queue.scan_queue[0] == self.scan_queue@[0]@);
            }
            let front = self.scan_queue.remove(0);
            proof {
                assert(self@.queue.scan_queue =~= start.queue.scan_queue.remove(0));
            }
            if confirmed {
                self.ask(
                    OpRequest::ScanTree {
                        side: front.side,
                        root: front.root,
                        dest: front.dest,
                        dest_side: front.dest_side,
                        cut_source: front.cut_source,
                    },
                );
            }
        }
        // Whatever is queued next owns the prompt: another folder, a
        // conflict, or nothing at all.
        self.input_mode = None;
        self.start_ready_transfers();
    }
}

/// Size of the first entry called `name`.
pub open spec fn size_of(entries: Seq<FileEntry>, name: Seq<char>) -> Option<u64>
    decreases entries.len(),
{
    if entries.len() == 0 {
        None
    } else if entries[0].name@ == name {
        Some(entries[0].size)
    } else {
        size_of(entries.skip(1), name)
    }
}

/// Size of the first entry called `name`.
pub fn entry_size(entries: &Vec<FileEntry>, name: &str) -> (r: Option<u64>)
    ensures
        r == size_of(entries@, name@),
{
    let mut i: usize = 0;
    proof {
        assert(entries@.skip(0) =~= entries@);
    }
    while i < entries.len()
        invariant
            i <= entries@.len(),
            size_of(entries@, name@) == size_of(entries@.skip(i as int), name@),
        decreases entries@.len() - i,
    {
        proof {
            assert(entries@.skip(i as int)[0] == entries@[i as int]);
            assert(entries@.skip(i as int).skip(1) =~= entries@.skip(i + 1));
        }
        if same(entries[i].name.as_str(), name) {
            return Some(entries[i].size);
        }
        i += 1;
    }
    None
}

impl QueueModel {
    /// A file queued, with the size of what stands at its destination.
    pub open spec fn file_queued(
        self,
        direction: Direction,
        source: Seq<char>,
        dest: Seq<char>,
        size: u64,
        dest_size: Option<u64>,
        cut: bool,
    ) -> QueueModel {
        QueueModel {
            pending: self.pending.push(
                PendingModel { direction, source, dest, size, dest_size, cut_source: cut },
            ),
            ..self
        }
    }

    pub open spec fn folder_queued(
        self,
        side: PanelSide,
        root: Seq<char>,
        dest: Seq<char>,
        dest_side: PanelSide,
        cut: bool,
    ) -> QueueModel {
        QueueModel {
            scan_queue: self.scan_queue.push(
                ScanModel { side, root, dest, dest_side, cut_source: cut },
            ),
            ..self
        }
    }

    /// The folders among the first `n` entries of `from` queued for `to`.
    pub open spec fn folders_sent(
        self,
        panes: PanesModel,
        targets: Seq<(usize, FileEntry)>,
        n: int,
    ) -> QueueModel
        decreases n,
    {
        if n <= 0 {
            self
        } else {
            let q = self.folders_sent(panes, targets, n - 1);
            let e = targets[n - 1].1;
            let to = panes.focus.opposite();
            if e.is_dir {
                q.folder_queued(
                    panes.focus,
                    path_in(panes.focused().path, e.name@),
                    panes.panel_of(to).path,
                    to,
                    false,
                )
            } else {
                q
            }
        }
    }

    /// The files among the first `n` entries of `from` queued for `to`.
    pub open spec fn files_sent(
        self,
        panes: PanesModel,
        targets: Seq<(usize, FileEntry)>,
        n: int,
    ) -> QueueModel
        decreases n,
    {
        if n <= 0 {
            self
        } else {
            let q = self.files_sent(panes, targets, n - 1);
            let e = targets[n - 1].1;
            let to = panes.focus.opposite();
            if e.is_dir {
                q
            } else {
                q.file_queued(
                    between(panes.focus, to),
                    path_in(panes.focused().path, e.name@),
                    path_in(panes.panel_of(to).path, e.name@),
                    e.size,
                    size_of(panes.panel_of(to).entries, e.name@),
                    false,
                )
            }
        }
    }

    /// The engine told which target large files dial.
    pub open spec fn with_target(self, label: Seq<char>) -> QueueModel {
        QueueModel {
            transfers: match self.transfers {
                Some(t) => Some(ManagerModel { helper_target: Some(label), ..t }),
                None => None,
            },
            ..self
        }
    }

    /// The first `n` items queued for the directory on `to`.
    pub open spec fn pasted_across(
        self,
        items: Seq<(Seq<char>, bool, u64)>,
        from: PanelSide,
        to: PanelSide,
        dest: PanelModel,
        cut: bool,
        n: int,
    ) -> QueueModel
        decreases n,
    {
        if n <= 0 {
            self
        } else {
            let q = self.pasted_across(items, from, to, dest, cut, n - 1);
            let item = items[n - 1];
            match base(item.0) {
                Some(name) => if item.1 {
                    q.folder_queued(from, item.0, dest.path, to, cut)
                } else {
                    q.file_queued(
                        between(from, to),
                        item.0,
                        path_in(dest.path, name),
                        item.2,
                        size_of(dest.entries, name),
                        cut,
                    )
                },
                None => q,
            }
        }
    }
}

impl AppModel {
    /// The selected entries sent to the other side.
    #[verifier::opaque]
    pub open spec fn sent(self) -> AppModel {
        let q = self.queue.with_target(self.link.label);
        let panel = self.panes.focused();
        let targets = panel.targets();
        if targets.len() == 0 {
            self.with_queue(q)
        } else {
            let n = targets.len() as int;
            let m = self.with_queue(
                q.folders_sent(self.panes, targets, n).files_sent(self.panes, targets, n).readied(),
            ).with_panel(self.panes.focus, PanelModel { marked: Set::empty(), ..panel });
            if panel.marked.len() > 1 {
                m.noted(decimal(panel.marked.len()) + " files queued"@)
            } else {
                m
            }
        }
    }
}

impl App {
    fn queue_folder(
        &mut self,
        side: PanelSide,
        root: String,
        dest: &str,
        dest_side: PanelSide,
        cut: bool,
    )
        ensures
            final(self)@ == old(self)@.with_queue(
                old(self)@.queue.folder_queued(side, root@, dest@, dest_side, cut),
            ),
    {
        let ghost start = self@;
        self.scan_queue.push(
            ScanRequest { side, root, dest: dest.to_owned(), dest_side, cut_source: cut },
        );
        proof {
            let q = start.queue.folder_queued(side, root@, dest@, dest_side, cut);
            assert(self@.queue.scan_queue =~= q.scan_queue);
        }
    }

    fn queue_file(
        &mut self,
        from: PanelSide,
        to: PanelSide,
        source: String,
        dir: &str,
        name: &str,
        size: u64,
        cut: bool,
    )
        ensures
            final(self)@ == old(self)@.with_queue(
                old(self)@.queue.file_queued(
                    between(from, to),
                    source@,
                    path_in(dir@, name@),
                    size,
                    size_of(old(self)@.panel_of(to).entries, name@),
                    cut,
                ),
            ),
    {
        let ghost start = self@;
        let dest_size = entry_size(&self.panel(to).entries, name);
        self.pending.push(
            PendingTransfer {
                direction: direction_between(from, to),
                source,
                dest: join_path(dir, name),
                size,
                dest_size,
                cut_source: cut,
            },
        );
        proof {
            let q = start.queue.file_queued(
                between(from, to),
                source@,
                path_in(dir@, name@),
                size,
                size_of(start.panel_of(to).entries, name@),
                cut,
            );
            assert(self@.queue.pending =~= q.pending);
        }
    }

    /// The marks of a panel dropped; the result is how many there were.
    pub fn clear_marks(&mut self, side: PanelSide) -> (n: usize)
        ensures
            n == old(self)@.panel_of(side).marked.len(),
            final(self)@ == old(self)@.with_panel(
                side,
                PanelModel { marked: Set::empty(), ..old(self)@.panel_of(side) },
            ),
    {
        match side {
            PanelSide::Local => {
                let n: usize = self.local.marked.len();
                self.local.marked.clear();
                n
            },
            PanelSide::Remote => {
                let n: usize = self.remote.marked.len();
                self.remote.marked.clear();
                n
            },
        }
    }

    /// F5: queue transfers for the selected entries.  Files start (or
    /// wait for an overwrite decision); folders ask once and then scan
    /// recursively.  The selection is consumed by the action it was made
    /// for.
    pub fn transfer_marked(&mut self)
        ensures
            final(self)@ == old(self)@.sent(),
    {
        proof {
            reveal(AppModel::sent);
        }
        let ghost start = self@;
        // Large files travel over auxiliary connections: the engine has to
        // know the target.
        let label = self.remote_label.clone();
        if let Some(manager) = &mut self.transfers {
            manager.set_helper_target(label);
        }
        let ghost q = start.queue.with_target(start.link.label);
        proof {
            assert(self@ == start.with_queue(q));
        }
        let side = self.focus;
        let other = side.other();
        let src_dir = self.panel(side).path.clone();
        let dest_dir = self.panel(other).path.clone();
        let targets = self.panel(side).action_targets();
        let ghost ts = start.panes.focused().targets();
        if targets.len() == 0 {
            return;
        }
        let n: usize = targets.len();
        let mut i: usize = 0;
        while i < n
            invariant
                i <= n == targets@.len(),
                targets@ == ts,
                side == start.panes.focus,
                other == side.opposite(),
                src_dir@ == start.panes.focused().path,
                dest_dir@ == start.panes.panel_of(other).path,
                self@ == start.with_queue(q.folders_sent(start.panes, ts, i as int)),
            decreases n - i,
        {
            if targets[i].1.is_dir {
                let root = join_path(src_dir.as_str(), targets[i].1.name.as_str());
                self.queue_folder(side, root, dest_dir.as_str(), other, false);
            }
            i += 1;
        }
        let ghost f = q.folders_sent(start.panes, ts, n as int);
        let mut k: usize = 0;
        while k < n
            invariant
                k <= n == targets@.len(),
                targets@ == ts,
                side == start.panes.focus,
                other == side.opposite(),
                src_dir@ == start.panes.focused().path,
                dest_dir@ == start.panes.panel_of(other).path,
                self@ == start.with_queue(f.files_sent(start.panes, ts, k as int)),
            decreases n - k,
        {
            if !targets[k].1.is_dir {
                let source = join_path(src_dir.as_str(), targets[k].1.name.as_str());
                let name = targets[k].1.name.clone();
                let size: u64 = targets[k].1.size;
                self.queue_file(
                    side,
                    other,
                    source,
                    dest_dir.as_str(),
                    name.as_str(),
                    size,
                    false,
                );
            }
            k += 1;
        }
        let queues: usize = self.clear_marks(side);
        if queues > 1 {
            let text = cat(number(queues as u64).as_str(), " files queued");
            self.set_message(text.as_str());
        }
        self.start_ready_transfers();
    }
}

/// The targets as clipboard items of the directory `dir`.
pub open spec fn yanked(dir: Seq<char>, targets: Seq<(usize, FileEntry)>) -> Seq<
    (Seq<char>, bool, u64),
> {
    targets.map_values(
        |t: (usize, FileEntry)| (path_in(dir, t.1.name@), t.1.is_dir, t.1.size),
    )
}

/// How many of the first `n` items have a name, folders counted or not.
pub open spec fn counted(items: Seq<(Seq<char>, bool, u64)>, n: int, folders: bool) -> nat
    decreases n,
{
    if n <= 0 {
        0
    } else {
        counted(items, n - 1, folders) + (if base(items[n - 1].0) is Some && (folders || !items[n
            - 1].1) {
            1nat
        } else {
            0nat
        })
    }
}

impl OutModel {
    /// The first `n` items copied or moved inside the local side.
    pub open spec fn copied_locally(
        self,
        items: Seq<(Seq<char>, bool, u64)>,
        dir: Seq<char>,
        cut: bool,
        n: int,
    ) -> OutModel
        decreases n,
    {
        if n <= 0 {
            self
        } else {
            let m = self.copied_locally(items, dir, cut, n - 1);
            match base(items[n - 1].0) {
                Some(name) => m.asked(
                    RequestModel::LocalCopy { from: items[n - 1].0, to: path_in(dir, name), cut },
                ),
                None => m,
            }
        }
    }
}

impl AppModel {
    /// The selected entries remembered for a paste.
    #[verifier::opaque]
    pub open spec fn with_yank(self, cut: bool) -> AppModel {
        let panel = self.panes.focused();
        let targets = panel.targets();
        if targets.len() == 0 {
            self
        } else {
            (AppModel {
                hand: HandModel {
                    clipboard: Some(
                        ClipModel { side: self.panes.focus, items: yanked(panel.path, targets), cut },
                    ),
                    ..self.hand
                },
                ..self
            }).noted(
                (if cut {
                    "cut"@
                } else {
                    "copied"@
                }) + " "@ + decimal(targets.len()) + " item(s); p to paste"@,
            )
        }
    }

    /// The clipboard written into the focused panel's directory.
    #[verifier::opaque]
    pub open spec fn pasted(self) -> AppModel {
        match self.hand.clipboard {
            None => self.noted("nothing to paste (y copies, x cuts)"@),
            Some(clip) => {
                let to = self.panes.focus;
                let dest = self.panes.focused();
                let n = clip.items.len() as int;
                if clip.side == PanelSide::Local && to == PanelSide::Local {
                    (AppModel {
                        out: self.out.copied_locally(clip.items, dest.path, clip.cut, n),
                        ..self
                    }).noted(
                        (if clip.cut {
                            "moving"@
                        } else {
                            "copying"@
                        }) + " "@ + decimal(counted(clip.items, n, true)) + " item(s) into "@
                            + dest.path,
                    )
                } else {
                    let q = self.queue.pasted_across(clip.items, clip.side, to, dest, clip.cut, n);
                    let files = decimal(counted(clip.items, n, false));
                    self.with_queue(q.readied()).noted(
                        if q.scan_queue.len() > 0 {
                            files + " file(s) queued, "@ + decimal(q.scan_queue.len())
                                + " folder(s) to confirm"@
                        } else if clip.cut {
                            "cut "@ + files + " item(s) into "@ + dest.path
                        } else {
                            "copied "@ + files + " item(s) into "@ + dest.path
                        },
                    )
                }
            },
        }
    }
}

impl AppModel {
    /// The clipboard written into the focused panel's directory, over
    /// whatever is in the way there. The answer goes with the paste.
    #[verifier::opaque]
    pub open spec fn pasted_over(self) -> AppModel {
        let m = self.with_queue(QueueModel { overwrite_all: Some(true), ..self.queue }).pasted();
        m.with_queue(QueueModel { overwrite_all: None, ..m.queue })
    }
}

impl App {
    /// P: paste without asking per conflict.
    pub fn paste_over(&mut self)
        ensures
            final(self)@ == old(self)@.pasted_over(),
    {
        proof {
            reveal(AppModel::pasted_over);
        }
        self.answer_all(Some(true));
        self.paste_clipboard();
        self.answer_all(None);
    }

    fn answer_all(&mut self, answer: Option<bool>)
        ensures
            final(self)@ == old(self)@.with_queue(
                QueueModel { overwrite_all: answer, ..old(self)@.queue },
            ),
    {
        self.overwrite_all = answer;
    }

    /// y/x: remember the marked entries (or the cursor) for a later paste.
    pub fn yank_cursor(&mut self, cut: bool)
        ensures
            final(self)@ == old(self)@.with_yank(cut),
    {
        proof {
            reveal(AppModel::with_yank);
        }
        let ghost start = self@;
        let side = self.focus;
        let targets = self.panel(side).action_targets();
        let dir = self.panel(side).path.clone();
        let ghost ts = start.panes.focused().targets();
        if targets.len() == 0 {
            return;
        }
        let mut items: Vec<(String, bool, u64)> = Vec::new();
        let mut i: usize = 0;
        proof {
            assert(item_list(items@) =~= yanked(dir@, ts).take(0));
        }
        while i < targets.len()
            invariant
                i <= targets@.len(),
                targets@ == ts,
                item_list(items@) == yanked(dir@, ts).take(i as int),
            decreases targets@.len() - i,
        {
            let ghost before = item_list(items@);
            items.push(
                (
                    join_path(dir.as_str(), targets[i].1.name.as_str()),
                    targets[i].1.is_dir,
                    targets[i].1.size,
                ),
            );
            proof {
                assert(item_list(items@) =~= before.push(yanked(dir@, ts)[i as int]));
                assert(item_list(items@) =~= yanked(dir@, ts).take(i + 1));
            }
            i += 1;
        }
        let count: usize = items.len();
        proof {
            assert(yanked(dir@, ts).take(i as int) =~= yanked(dir@, ts));
            assert(item_list(items@).len() == ts.len());
        }
        let mut text = cat(
            if cut {
                "cut"
            } else {
                "copied"
            },
            " ",
        );
        text.append(number(count as u64).as_str());
        text.append(" item(s); p to paste");
        self.clipboard = Some(Clipboard { side, items, cut });
        self.set_message(text.as_str());
    }

    fn copy_locally(&mut self, clip: &Clipboard, dir: &str)
        ensures
            final(self)@ == (AppModel {
                out: old(self)@.out.copied_locally(
                    clip@.items,
                    dir@,
                    clip.cut,
                    clip@.items.len() as int,
                ),
                ..old(self)@
            }).noted(
                (if clip.cut {
                    "moving"@
                } else {
                    "copying"@
                }) + " "@ + decimal(counted(clip@.items, clip@.items.len() as int, true))
                    + " item(s) into "@ + dir@,
            ),
    {
        let ghost start = self@;
        let ghost items = clip@.items;
        let n: usize = clip.items.len();
        let mut queued: usize = 0;
        let mut i: usize = 0;
        while i < n
            invariant
                i <= n == clip.items@.len(),
                queued <= i,
                items == item_list(clip.items@),
                self@ == (AppModel {
                    out: start.out.copied_locally(items, dir@, clip.cut, i as int),
                    ..start
                }),
                queued == counted(items, i as int, true),
            decreases n - i,
        {
            proof {
                assert(items[i as int].0 == clip.items@[i as int].0@);
            }
            match base_name(clip.items[i].0.as_str()) {
                Some(name) => {
                    self.ask(
                        OpRequest::LocalCopy {
                            from: clip.items[i].0.clone(),
                            to: join_path(dir, name.as_str()),
                            cut: clip.cut,
                        },
                    );
                    queued += 1;
                },
                None => {},
            }
            i += 1;
        }
        let mut text = cat(
            if clip.cut {
                "moving"
            } else {
                "copying"
            },
            " ",
        );
        text.append(number(queued as u64).as_str());
        text.append(" item(s) into ");
        text.append(dir);
        self.set_message(text.as_str());
    }

    fn queue_across(&mut self, clip: &Clipboard, to: PanelSide, dir: &str) -> (files: usize)
        requires
            old(self)@.panel_of(to).path == dir@,
        ensures
            files == counted(clip@.items, clip@.items.len() as int, false),
            final(self)@ == old(self)@.with_queue(
                old(self)@.queue.pasted_across(
                    clip@.items,
                    clip.side,
                    to,
                    old(self)@.panel_of(to),
                    clip.cut,
                    clip@.items.len() as int,
                ),
            ),
    {
        let ghost start = self@;
        let ghost items = clip@.items;
        let ghost dest = start.panel_of(to);
        let n: usize = clip.items.len();
        let mut files: usize = 0;
        let mut i: usize = 0;
        while i < n
            invariant
                i <= n == clip.items@.len(),
                files <= i,
                items == item_list(clip.items@),
                dest == start.panel_of(to),
                dest.path == dir@,
                self@ == start.with_queue(
                    start.queue.pasted_across(items, clip.side, to, dest, clip.cut, i as int),
                ),
                files == counted(items, i as int, false),
            decreases n - i,
        {
            proof {
                assert(items[i as int].0 == clip.items@[i as int].0@);
                assert(items[i as int].1 == clip.items@[i as int].1);
                assert(items[i as int].2 == clip.items@[i as int].2);
            }
            match base_name(clip.items[i].0.as_str()) {
                Some(name) => {
                    if clip.items[i].1 {
                        self.queue_folder(clip.side, clip.items[i].0.clone(), dir, to, clip.cut);
                    } else {
                        self.queue_file(
                            clip.side,
                            to,
                            clip.items[i].0.clone(),
                            dir,
                            name.as_str(),
                            clip.items[i].2,
                            clip.cut,
                        );
                        files += 1;
                    }
                },
                None => {},
            }
            i += 1;
        }
        files
    }

    /// p: write the clipboard into the focused panel's directory.  Files go
    /// through the normal transfer queue, so conflicts still prompt; folders
    /// are walked by the worker like F5 does.  Inside the local panel it is
    /// a plain local copy.
    pub fn paste_clipboard(&mut self)
        ensures
            final(self)@ == old(self)@.pasted(),
    {
        proof {
            reveal(AppModel::pasted);
        }
        let ghost start = self@;
        let clip = match self.clipboard.clone() {
            None => {
                self.set_message("nothing to paste (y copies, x cuts)");
                return;
            },
            Some(c) => c,
        };
        let to = self.focus;
        let dir = self.panel(to).path.clone();
        if clip.side == PanelSide::Local && to == PanelSide::Local {
            self.copy_locally(&clip, dir.as_str());
            return;
        }
        let files: usize = self.queue_across(&clip, to, dir.as_str());
        let folders: usize = self.scan_queue.len();
        self.start_ready_transfers();
        // Folder confirmations come with a prompt of their own; a paste
        // that only queued files starts right away.
        let count = number(files as u64);
        let text = if folders > 0 {
            let mut t = cat3(count.as_str(), " file(s) queued, ", number(folders as u64).as_str());
            t.append(" folder(s) to confirm");
            t
        } else if clip.cut {
            let mut t = cat3("cut ", count.as_str(), " item(s) into ");
            t.append(dir.as_str());
            t
        } else {
            let mut t = cat3("copied ", count.as_str(), " item(s) into ");
            t.append(dir.as_str());
            t
        };
        self.set_message(text.as_str());
    }
}

/// The transfers of `items` that collide with an existing file.
pub open spec fn conflicting(items: Seq<PendingModel>, n: int) -> Seq<PendingModel>
    decreases n,
{
    if n <= 0 {
        Seq::empty()
    } else if items[n - 1].dest_size is Some {
        conflicting(items, n - 1).push(items[n - 1])
    } else {
        conflicting(items, n - 1)
    }
}

proof fn lemma_sifted(q: QueueModel, items: Seq<PendingModel>, n: int)
    ensures
        q.sifted(items, n).0.overwrite_all == q.overwrite_all,
        q.sifted(items, n).0.mode == q.mode,
        q.sifted(items, n).0.scan_queue == q.scan_queue,
        q.sifted(items, n).0.pending == q.pending,
        q.sifted(items, n).0.transfers is Some <==> q.transfers is Some,
        q.overwrite_all is Some ==> q.sifted(items, n).1.len() == 0,
        q.overwrite_all is None ==> q.sifted(items, n).1 == conflicting(items, n),
    decreases n,
{
    assert(q.overwrite_all is Some ==> q.overwrite_all == Some(true) || q.overwrite_all == Some(
        false,
    ));
    if n > 0 {
        lemma_sifted(q, items, n - 1);
    }
}

/// What waits after a start is exactly what needs an answer: with a
/// connection and no answer for all, the transfers that collide with an
/// existing file, in order; with an answer for all, or without a
/// connection, nothing.  An answer for all does not outlive the queue it was
/// given for.
pub proof fn only_conflicts_wait(q: QueueModel)
    ensures
        q.readied().pending == (if q.transfers is Some && q.overwrite_all is None {
            conflicting(q.pending, q.pending.len() as int)
        } else {
            Seq::<PendingModel>::empty()
        }),
        q.readied().pending.len() == 0 ==> q.readied().overwrite_all is None,
        q.readied().scan_queue == q.scan_queue,
{
    let from = QueueModel { pending: Seq::empty(), ..q };
    let n = q.pending.len() as int;
    lemma_sifted(from, q.pending, n);
    assert(q.overwrite_all is Some ==> from.sifted(q.pending, n).1 =~= Seq::<
        PendingModel,
    >::empty());
}

/// Nothing queued is left without a prompt: after a start there is one
/// whenever a conflict or a folder waits, and conflicts come first.
pub proof fn whatever_waits_is_asked(q: QueueModel)
    requires
        q.mode is None,
    ensures
        ({
            let r = q.readied();
            &&& r.pending.len() > 0 ==> r.mode == Some(ModeModel::ConfirmOverwrite)
            &&& r.pending.len() == 0 && r.scan_queue.len() > 0 ==> r.mode == Some(
                folder_mode(r.scan_queue[0]),
            )
            &&& r.pending.len() == 0 && r.scan_queue.len() == 0 ==> r.mode is None
        }),
{
    lemma_sifted(QueueModel { pending: Seq::empty(), ..q }, q.pending, q.pending.len() as int);
}

/// One answer consumes exactly one queued transfer: while others wait, the
/// prompt stays and the rest of the queue is untouched.
pub proof fn one_answer_consumes_one(q: QueueModel, key: KeyCode)
    requires
        q.pending.len() > 1,
        key == KeyCode::Char('o') || key == KeyCode::Enter || key == KeyCode::Char('s') || (key
            == KeyCode::Char('r') && q.pending[0].can_resume()),
    ensures
        q.decided(key).pending == q.pending.remove(0),
        q.decided(key).mode == q.mode,
        q.decided(key).scan_queue == q.scan_queue,
        q.decided(key).overwrite_all == q.overwrite_all,
{
    reveal(QueueModel::decided);
}

/// Answering the last conflict hands over to a folder that still waits for
/// its confirmation, or clears the prompt where none does; so do the
/// answers for all and giving up.
pub proof fn last_answer_hands_over(q: QueueModel, key: KeyCode)
    requires
        q.pending.len() > 0,
        key == KeyCode::Char('a') || key == KeyCode::Char('x') || key == KeyCode::Escape || (
        q.pending.len() == 1 && (key == KeyCode::Char('o') || key == KeyCode::Enter || key
            == KeyCode::Char('s'))),
    ensures
        q.decided(key).pending.len() == 0,
        q.decided(key).overwrite_all is None,
        q.decided(key).scan_queue == q.scan_queue,
        q.decided(key).mode == (if q.scan_queue.len() > 0 {
            Some(folder_mode(q.scan_queue[0]))
        } else {
            None
        }),
{
    reveal(QueueModel::decided);
    let all = QueueModel { overwrite_all: Some(true), mode: None, ..q };
    let started = QueueModel {
        mode: None,
        overwrite_all: None,
        ..q.unqueued().started(q.pending[0], false)
    };
    let skipped = QueueModel { mode: None, overwrite_all: None, ..q.unqueued() };
    let empty = QueueModel { pending: Seq::empty(), mode: None, overwrite_all: None, ..q };
    only_conflicts_wait(all);
    only_conflicts_wait(started);
    only_conflicts_wait(skipped);
    only_conflicts_wait(empty);
    whatever_waits_is_asked(all);
    whatever_waits_is_asked(started);
    whatever_waits_is_asked(skipped);
    whatever_waits_is_asked(empty);
    assert(conflicting(Seq::empty(), 0) =~= Seq::<PendingModel>::empty());
}

/// Confirming or rejecting a folder takes exactly that folder off the
/// queue, and a walk is asked for only when it was confirmed.
pub proof fn folder_answer_consumes_one(m: AppModel, key: KeyCode)
    requires
        m.queue.scan_queue.len() > 0,
        confirms(key) || rejects(key),
    ensures
        m.folder_answered(key).queue.scan_queue == m.queue.scan_queue.remove(0),
        rejects(key) && !confirms(key) ==> m.folder_answered(key).out == m.out,
        confirms(key) ==> m.folder_answered(key).out.requests.len() == m.out.requests.len() + 1,
{
    reveal(AppModel::folder_answered);
    let rest = QueueModel {
        scan_queue: m.queue.scan_queue.remove(0),
        mode: None,
        ..m.queue
    };
    only_conflicts_wait(rest);
}

/// The selection belongs to the action it was made for: once the entries
/// are queued, they are not marked any more.
pub proof fn sending_consumes_the_selection(m: AppModel)
    requires
        m.panes.focused().targets().len() > 0,
    ensures
        m.sent().panes.focused().marked == Set::<usize>::empty(),
        m.sent().panes.focused().entries == m.panes.focused().entries,
{
    reveal(AppModel::sent);
}

/// Pasting inside the local side is a local copy: no transfer is queued.
pub proof fn local_paste_queues_no_transfer(m: AppModel, clip: ClipModel)
    requires
        m.hand.clipboard == Some(clip),
        clip.side == PanelSide::Local,
        m.panes.focus == PanelSide::Local,
    ensures
        m.pasted().queue == m.queue,
        m.pasted().hand == m.hand,
{
    reveal(AppModel::pasted);
}

/// A start leaves no answer for all behind.
proof fn lemma_ready_leaves_no_answer(q: QueueModel)
    ensures
        q.readied().overwrite_all is None,
{
    let from = QueueModel { pending: Seq::empty(), ..q };
    lemma_sifted(from, q.pending, q.pending.len() as int);
}

pub(crate) proof fn lemma_paste_leaves_no_answer(m: AppModel)
    requires
        m.queue.overwrite_all is None,
    ensures
        m.pasted().queue.overwrite_all is None,
{
    reveal(AppModel::pasted);
    if let Some(clip) = m.hand.clipboard {
        lemma_ready_leaves_no_answer(
            m.queue.pasted_across(
                clip.items,
                clip.side,
                m.panes.focus,
                m.panes.focused(),
                clip.cut,
                clip.items.len() as int,
            ),
        );
    }
}

pub(crate) proof fn lemma_sending_leaves_no_answer(m: AppModel)
    requires
        m.queue.overwrite_all is None,
    ensures
        m.sent().queue.overwrite_all is None,
{
    reveal(AppModel::sent);
    let targets = m.panes.focused().targets();
    let n = targets.len() as int;
    let q = m.queue.with_target(m.link.label);
    lemma_ready_leaves_no_answer(
        q.folders_sent(m.panes, targets, n).files_sent(m.panes, targets, n),
    );
}

pub(crate) proof fn lemma_decision_leaves_no_answer(q: QueueModel, key: KeyCode)
    requires
        q.overwrite_all is None,
    ensures
        q.decided(key).overwrite_all is None,
{
    reveal(QueueModel::decided);
    if q.pending.len() > 0 {
        let front = q.pending[0];
        let rest = QueueModel { mode: None, overwrite_all: None, ..q.unqueued() };
        lemma_ready_leaves_no_answer(
            QueueModel { overwrite_all: Some(true), mode: None, ..q },
        );
        lemma_ready_leaves_no_answer(rest);
        lemma_ready_leaves_no_answer(
            QueueModel {
                mode: None,
                overwrite_all: None,
                ..q.unqueued().started(front, false)
            },
        );
        lemma_ready_leaves_no_answer(
            QueueModel { mode: None, overwrite_all: None, ..q.unqueued().started(front, true) },
        );
        lemma_ready_leaves_no_answer(
            QueueModel { mode: None, overwrite_all: None, pending: Seq::empty(), ..q },
        );
    }
}

pub(crate) proof fn lemma_folder_leaves_no_answer(m: AppModel, key: KeyCode)
    requires
        m.queue.overwrite_all is None,
    ensures
        m.folder_answered(key).queue.overwrite_all is None,
{
    reveal(AppModel::folder_answered);
    let q = m.queue;
    lemma_ready_leaves_no_answer(
        QueueModel {
            scan_queue: if q.scan_queue.len() > 0 {
                q.scan_queue.remove(0)
            } else {
                q.scan_queue
            },
            mode: None,
            ..q
        },
    );
}

/// What a started transfer is listed as.
pub open spec fn listed(item: PendingModel, id: int) -> StatusModel {
    StatusModel {
        id: id as u64,
        direction: item.direction,
        source: item.source,
        dest: item.dest,
        state: StateModel::Queued,
    }
}

/// What a worker is told to do for it: what is read is what the item names
/// as its source, and what is written what it names as its destination.
pub open spec fn does(job: JobModel, item: PendingModel, resume: bool) -> bool {
    match (item.direction, job) {
        (
            Direction::Upload,
            JobModel::Upload { local, remote, resume: again, overwrite },
        ) => local == item.source && remote == item.dest && again == resume && overwrite,
        (Direction::Download, JobModel::Download { remote, local, resume: again }) => remote
            == item.source && local == item.dest && again == resume,
        (Direction::Copy, JobModel::RemoteCopy { from, to }) => from == item.source && to
            == item.dest,
        _ => false,
    }
}

/// `u` is `t` with exactly one transfer more, that of `item`.
pub open spec fn adds_one(t: ManagerModel, u: ManagerModel, item: PendingModel, resume: bool) -> bool {
    &&& u.statuses == t.statuses.push(listed(item, t.next_id as int))
    &&& u.jobs.len() == t.jobs.len() + 1
    &&& u.jobs.take(t.jobs.len() as int) == t.jobs
    &&& u.jobs.last().0 == t.next_id
    &&& does(u.jobs.last().1, item, resume)
    &&& u.next_id == t.next_id + 1
    &&& u.queue == t.queue
    &&& u.running == t.running
}

/// The source that a started cut has to remove: the file that was read, on
/// the side it was read from.
pub open spec fn cut_of(item: PendingModel, id: int) -> (u64, PanelSide, Seq<char>, bool) {
    (
        id as u64,
        if item.direction == Direction::Upload {
            PanelSide::Local
        } else {
            PanelSide::Remote
        },
        item.source,
        false,
    )
}

/// Starting one item adds exactly the transfer of that item, and where the
/// item was cut, its source to those that wait to be removed.
pub proof fn a_start_adds_one_transfer(q: QueueModel, item: PendingModel, resume: bool)
    requires
        q.transfers is Some,
        numbered(q.transfers->0.statuses, q.transfers->0.next_id),
        q.transfers->0.next_id < u64::MAX,
        unclaimed(q.transfers->0.statuses, item.dest),
    ensures
        ({
            let t = q.transfers->0;
            let r = q.started(item, resume);
            &&& r.transfers is Some
            &&& adds_one(t, r.transfers->0, item, resume)
            &&& r.cut_pending == if item.cut_source {
                q.cut_pending.push(cut_of(item, t.next_id as int))
            } else {
                q.cut_pending
            }
            &&& r.pending == q.pending
            &&& r.scan_queue == q.scan_queue
            &&& r.mode == q.mode
            &&& r.overwrite_all == q.overwrite_all
        }),
{
    reveal(launched);
    let t = q.transfers->0;
    let job = match item.direction {
        Direction::Upload => JobModel::Upload {
            local: item.source,
            remote: item.dest,
            resume,
            overwrite: true,
        },
        Direction::Download => JobModel::Download { remote: item.source, local: item.dest, resume },
        Direction::Copy => JobModel::RemoteCopy { from: item.source, to: item.dest },
    };
    a_request_is_queued(t, item.direction, item.source, item.dest, job);
    assert(t.jobs.push((t.next_id, job)).take(t.jobs.len() as int) =~= t.jobs);
}

/// With nothing waiting, a start starts nothing.
proof fn lemma_nothing_to_start(q: QueueModel)
    requires
        q.pending.len() == 0,
    ensures
        q.readied().transfers == q.transfers,
        q.readied().cut_pending == q.cut_pending,
{
}

/// Skipping a conflict, refusing all of them or giving up starts nothing:
/// the transfers, their jobs and the cuts that wait stay as they were.
pub proof fn a_skip_starts_nothing(q: QueueModel, key: KeyCode)
    requires
        key == KeyCode::Char('s') || key == KeyCode::Char('x') || key == KeyCode::Escape,
    ensures
        q.decided(key).transfers == q.transfers,
        q.decided(key).cut_pending == q.cut_pending,
        q.decided(key).scan_queue == q.scan_queue,
{
    reveal(QueueModel::decided);
    if q.pending.len() > 0 {
        if q.pending.len() == 1 {
            lemma_nothing_to_start(QueueModel { mode: None, overwrite_all: None, ..q.unqueued() });
        }
        lemma_nothing_to_start(
            QueueModel { mode: None, overwrite_all: None, pending: Seq::empty(), ..q },
        );
    }
}

/// Agreeing to a conflict starts exactly the transfer that was asked about,
/// from the beginning, or behind what is there where a resume was asked for
/// and is possible.
pub proof fn an_answer_starts_the_front(q: QueueModel, key: KeyCode)
    requires
        q.pending.len() > 0,
        q.transfers is Some,
        numbered(q.transfers->0.statuses, q.transfers->0.next_id),
        q.transfers->0.next_id < u64::MAX,
        unclaimed(q.transfers->0.statuses, q.pending[0].dest),
        key == KeyCode::Char('o') || key == KeyCode::Enter || (key == KeyCode::Char('r')
            && q.pending[0].dest_size is Some && q.pending[0].dest_size->0 < q.pending[0].size),
    ensures
        q.decided(key).transfers is Some,
        adds_one(
            q.transfers->0,
            q.decided(key).transfers->0,
            q.pending[0],
            key == KeyCode::Char('r'),
        ),
        q.decided(key).cut_pending == (if q.pending[0].cut_source {
            q.cut_pending.push(cut_of(q.pending[0], q.transfers->0.next_id as int))
        } else {
            q.cut_pending
        }),
        q.decided(key).scan_queue == q.scan_queue,
        q.decided(key).pending == q.pending.remove(0),
{
    reveal(QueueModel::decided);
    let front = q.pending[0];
    let again = key == KeyCode::Char('r');
    a_start_adds_one_transfer(q.unqueued(), front, again);
    let s = q.unqueued().started(front, again);
    if q.pending.len() == 1 {
        lemma_nothing_to_start(QueueModel { mode: None, overwrite_all: None, ..s });
        only_conflicts_wait(QueueModel { mode: None, overwrite_all: None, ..s });
        assert(q.pending.remove(0) =~= Seq::<PendingModel>::empty());
    }
}

/// A key that answers nothing changes nothing, and so does asking for a
/// resume where what is there is not shorter than the source.
pub proof fn other_keys_answer_nothing(q: QueueModel, key: KeyCode)
    requires
        q.pending.len() > 0,
        key != KeyCode::Char('o') && key != KeyCode::Enter && key != KeyCode::Char('s') && key
            != KeyCode::Char('a') && key != KeyCode::Char('x') && key != KeyCode::Escape,
        key == KeyCode::Char('r') ==> match q.pending[0].dest_size {
            Some(d) => d >= q.pending[0].size,
            None => true,
        },
    ensures
        q.decided(key) == q,
{
    reveal(QueueModel::decided);
}

/// The transfers of the first `n` items that a start lets go: those without
/// a conflict, or all of them where that was the answer.
pub open spec fn let_go(items: Seq<PendingModel>, all: Option<bool>, n: int) -> Seq<PendingModel>
    decreases n,
{
    if n <= 0 {
        Seq::empty()
    } else if items[n - 1].dest_size is None || all == Some(true) {
        let_go(items, all, n - 1).push(items[n - 1])
    } else {
        let_go(items, all, n - 1)
    }
}

/// The sources of those items that were cut, numbered from `first` on.
pub open spec fn cuts_of(items: Seq<PendingModel>, first: int, n: int) -> Seq<
    (u64, PanelSide, Seq<char>, bool),
>
    decreases n,
{
    if n <= 0 {
        Seq::empty()
    } else if items[n - 1].cut_source {
        cuts_of(items, first, n - 1).push(cut_of(items[n - 1], first + n - 1))
    } else {
        cuts_of(items, first, n - 1)
    }
}

/// `u` is `t` with exactly the transfers of `items` more, in their order
/// and from the beginning.
pub open spec fn adds_all(t: ManagerModel, u: ManagerModel, items: Seq<PendingModel>) -> bool {
    &&& u.statuses == t.statuses + Seq::new(
        items.len(),
        |i: int| listed(items[i], t.next_id + i),
    )
    &&& u.jobs.len() == t.jobs.len() + items.len()
    &&& u.jobs.take(t.jobs.len() as int) == t.jobs
    &&& forall|i: int|
        0 <= i < items.len() ==> (#[trigger] u.jobs[t.jobs.len() + i]).0 == t.next_id + i && does(
            u.jobs[t.jobs.len() + i].1,
            items[i],
            false,
        )
    &&& u.next_id == t.next_id + items.len()
    &&& u.queue == t.queue
    &&& u.running == t.running
}

/// No two of the items have a destination in common, and no unfinished
/// transfer writes one of them.
pub open spec fn apart(t: ManagerModel, items: Seq<PendingModel>) -> bool {
    &&& forall|i: int| 0 <= i < items.len() ==> unclaimed(t.statuses, (#[trigger] items[i]).dest)
    &&& forall|i: int, j: int|
        0 <= i < j < items.len() ==> (#[trigger] items[i]).dest != (#[trigger] items[j]).dest
}

proof fn lemma_let_go_grows(items: Seq<PendingModel>, all: Option<bool>, n: int, k: int)
    requires
        0 <= k <= n,
    ensures
        let_go(items, all, k).len() <= let_go(items, all, n).len(),
        let_go(items, all, n).take(let_go(items, all, k).len() as int) == let_go(items, all, k),
    decreases n - k,
{
    let a = let_go(items, all, k);
    let b = let_go(items, all, n);
    if k < n {
        lemma_let_go_grows(items, all, n - 1, k);
        let c = let_go(items, all, n - 1);
        assert(b.take(a.len() as int) =~= c.take(a.len() as int));
    } else {
        assert(a.take(a.len() as int) =~= a);
    }
}

proof fn lemma_adds_next(t: ManagerModel, u: ManagerModel, v: ManagerModel, items: Seq<PendingModel>, item: PendingModel)
    requires
        adds_all(t, u, items),
        adds_one(u, v, item, false),
        t.next_id + items.len() < u64::MAX,
    ensures
        adds_all(t, v, items.push(item)),
{
    let more = items.push(item);
    let n = items.len() as int;
    let k = t.jobs.len() as int;
    assert(v.statuses =~= t.statuses + Seq::new(
        more.len(),
        |i: int| listed(more[i], t.next_id + i),
    ));
    assert(v.jobs.take(k) =~= t.jobs) by {
        assert forall|i: int| 0 <= i < k implies v.jobs.take(k)[i] == t.jobs[i] by {
            assert(v.jobs.take(u.jobs.len() as int)[i] == u.jobs[i]);
            assert(u.jobs.take(k)[i] == t.jobs[i]);
        }
    }
    assert forall|i: int| 0 <= i < more.len() implies (#[trigger] v.jobs[k + i]).0 == t.next_id + i
        && does(v.jobs[k + i].1, more[i], false) by {
        if i < n {
            assert(v.jobs.take(u.jobs.len() as int)[k + i] == u.jobs[k + i]);
        }
    }
}

proof fn lemma_still_apart(t: ManagerModel, u: ManagerModel, items: Seq<PendingModel>, item: PendingModel)
    requires
        adds_all(t, u, items),
        numbered(t.statuses, t.next_id),
        t.next_id + items.len() < u64::MAX,
        apart(t, items.push(item)),
    ensures
        numbered(u.statuses, u.next_id),
        unclaimed(u.statuses, item.dest),
{
    let more = items.push(item);
    let k = t.statuses.len() as int;
    let n = items.len() as int;
    assert(more[n] == item);
    assert forall|i: int|
        0 <= i < u.statuses.len() && !(#[trigger] u.statuses[i]).state.terminal() implies u.statuses[i].dest
        != item.dest by {
        if i < k {
            assert(u.statuses[i] == t.statuses[i]);
            assert(unclaimed(t.statuses, more[n].dest));
        } else {
            assert(u.statuses[i] == listed(items[i - k], t.next_id + (i - k)));
            assert(more[i - k] == items[i - k]);
        }
    }
    assert forall|i: int| 0 <= i < u.statuses.len() implies (#[trigger] u.statuses[i]).id
        < u.next_id by {
        if i < k {
            assert(u.statuses[i] == t.statuses[i]);
        } else {
            assert(u.statuses[i] == listed(items[i - k], t.next_id + (i - k)));
        }
    }
    assert forall|i: int, j: int| 0 <= i < j < u.statuses.len() implies (#[trigger] u.statuses[i]).id
        < (#[trigger] u.statuses[j]).id by {
        if j < k {
            assert(u.statuses[i] == t.statuses[i] && u.statuses[j] == t.statuses[j]);
        } else {
            assert(u.statuses[j] == listed(items[j - k], t.next_id + (j - k)));
            if i < k {
                assert(u.statuses[i] == t.statuses[i]);
            } else {
                assert(u.statuses[i] == listed(items[i - k], t.next_id + (i - k)));
            }
        }
    }
}

proof fn lemma_sifting_starts(q: QueueModel, items: Seq<PendingModel>, n: int)
    requires
        0 <= n <= items.len(),
        q.transfers is Some,
        numbered(q.transfers->0.statuses, q.transfers->0.next_id),
        q.transfers->0.next_id + let_go(items, q.overwrite_all, n).len() < u64::MAX,
        apart(q.transfers->0, let_go(items, q.overwrite_all, n)),
    ensures
        ({
            let t = q.transfers->0;
            let gone = let_go(items, q.overwrite_all, n);
            let r = q.sifted(items, n).0;
            &&& r.transfers is Some
            &&& adds_all(t, r.transfers->0, gone)
            &&& r.cut_pending == q.cut_pending + cuts_of(
                gone,
                t.next_id as int,
                gone.len() as int,
            )
        }),
    decreases n,
{
    let t = q.transfers->0;
    let gone = let_go(items, q.overwrite_all, n);
    if n <= 0 {
        assert(t.statuses =~= t.statuses + Seq::new(0, |i: int| listed(gone[i], t.next_id + i)));
        assert(t.jobs.take(t.jobs.len() as int) =~= t.jobs);
        assert(q.cut_pending =~= q.cut_pending + Seq::<(u64, PanelSide, Seq<char>, bool)>::empty());
    } else {
        let before = let_go(items, q.overwrite_all, n - 1);
        lemma_let_go_grows(items, q.overwrite_all, n, n - 1);
        assert(forall|i: int| 0 <= i < before.len() ==> before[i] == gone[i]);
        lemma_sifting_starts(q, items, n - 1);
        lemma_sifted(q, items, n - 1);
        let a = q.sifted(items, n - 1).0;
        let item = items[n - 1];
        if item.dest_size is None || q.overwrite_all == Some(true) {
            lemma_still_apart(t, a.transfers->0, before, item);
            a_start_adds_one_transfer(a, item, false);
            lemma_adds_next(t, a.transfers->0, a.started(item, false).transfers->0, before, item);
            lemma_cuts_prefix(before, item, t.next_id as int, before.len() as int);
            assert(a.started(item, false).cut_pending =~= q.cut_pending + cuts_of(
                gone,
                t.next_id as int,
                gone.len() as int,
            ));
        }
    }
}

proof fn lemma_cuts_prefix(items: Seq<PendingModel>, item: PendingModel, first: int, n: int)
    requires
        0 <= n <= items.len(),
    ensures
        cuts_of(items.push(item), first, n) == cuts_of(items, first, n),
    decreases n,
{
    if n > 0 {
        lemma_cuts_prefix(items, item, first, n - 1);
    }
}

/// A start begins exactly the transfers that need no answer, in their
/// order, each from the beginning, and remembers the sources of those that
/// were cut.
pub proof fn a_start_begins_what_needs_no_answer(q: QueueModel)
    requires
        q.transfers is Some,
        numbered(q.transfers->0.statuses, q.transfers->0.next_id),
        q.transfers->0.next_id + let_go(
            q.pending,
            q.overwrite_all,
            q.pending.len() as int,
        ).len() < u64::MAX,
        apart(q.transfers->0, let_go(q.pending, q.overwrite_all, q.pending.len() as int)),
    ensures
        ({
            let t = q.transfers->0;
            let gone = let_go(q.pending, q.overwrite_all, q.pending.len() as int);
            let r = q.readied();
            &&& r.transfers is Some
            &&& adds_all(t, r.transfers->0, gone)
            &&& r.cut_pending == q.cut_pending + cuts_of(
                gone,
                t.next_id as int,
                gone.len() as int,
            )
        }),
{
    let from = QueueModel { pending: Seq::empty(), ..q };
    lemma_sifting_starts(from, q.pending, q.pending.len() as int);
}

/// Without a connection nothing starts, and nothing waits to be removed
/// that did not before.
pub proof fn without_a_connection_nothing_starts(q: QueueModel)
    requires
        q.transfers is None,
    ensures
        q.readied().transfers is None,
        q.readied().cut_pending == q.cut_pending,
        q.readied().pending.len() == 0,
{
}

/// Agreeing to all conflicts starts every transfer that waits, in order.
pub proof fn agreeing_to_all_starts_all(q: QueueModel)
    requires
        q.pending.len() > 0,
        q.transfers is Some,
        numbered(q.transfers->0.statuses, q.transfers->0.next_id),
        q.transfers->0.next_id + q.pending.len() < u64::MAX,
        apart(q.transfers->0, q.pending),
    ensures
        ({
            let t = q.transfers->0;
            let r = q.decided(KeyCode::Char('a'));
            &&& r.transfers is Some
            &&& adds_all(t, r.transfers->0, q.pending)
            &&& r.cut_pending == q.cut_pending + cuts_of(
                q.pending,
                t.next_id as int,
                q.pending.len() as int,
            )
        }),
{
    reveal(QueueModel::decided);
    let all = QueueModel { overwrite_all: Some(true), mode: None, ..q };
    lemma_all_go(q.pending, q.pending.len() as int);
    assert(q.pending.take(q.pending.len() as int) =~= q.pending);
    a_start_begins_what_needs_no_answer(all);
}

proof fn lemma_all_go(items: Seq<PendingModel>, n: int)
    requires
        0 <= n <= items.len(),
    ensures
        let_go(items, Some(true), n) == items.take(n),
    decreases n,
{
    if n > 0 {
        lemma_all_go(items, n - 1);
        assert(items.take(n) =~= items.take(n - 1).push(items[n - 1]));
    } else {
        assert(items.take(0) =~= Seq::<PendingModel>::empty());
    }
}

/// Which way files go from one side to another.
pub open spec fn goes(from: PanelSide, to: PanelSide) -> Direction {
    if from == PanelSide::Local && to == PanelSide::Remote {
        Direction::Upload
    } else if from == PanelSide::Remote && to == PanelSide::Local {
        Direction::Download
    } else {
        Direction::Copy
    }
}

/// The file among a panel's entries as it is queued for the other panel:
/// from its own path to the same name there.
pub open spec fn crossing(from: PanelModel, side: PanelSide, to: PanelModel, e: FileEntry) -> Option<
    PendingModel,
> {
    if e.is_dir {
        None
    } else {
        Some(
            PendingModel {
                direction: if side == PanelSide::Local {
                    Direction::Upload
                } else {
                    Direction::Download
                },
                source: path_in(from.path, e.name@),
                dest: path_in(to.path, e.name@),
                size: e.size,
                dest_size: size_of(to.entries, e.name@),
                cut_source: false,
            },
        )
    }
}

/// The folder among a panel's entries as it is queued for the other panel.
pub open spec fn folder_crossing(
    from: PanelModel,
    side: PanelSide,
    to: PanelModel,
    e: FileEntry,
) -> Option<ScanModel> {
    if e.is_dir {
        Some(
            ScanModel {
                side,
                root: path_in(from.path, e.name@),
                dest: to.path,
                dest_side: if side == PanelSide::Local {
                    PanelSide::Remote
                } else {
                    PanelSide::Local
                },
                cut_source: false,
            },
        )
    } else {
        None
    }
}

/// The size in the way of a name is that of the first entry so called, and
/// there is none where no entry is.
pub proof fn a_conflict_is_an_entry_of_that_name(entries: Seq<FileEntry>, name: Seq<char>)
    ensures
        size_of(entries, name) is Some <==> exists|i: int|
            0 <= i < entries.len() && (#[trigger] entries[i]).name@ == name,
        size_of(entries, name) is Some ==> exists|i: int|
            0 <= i < entries.len() && (#[trigger] entries[i]).name@ == name && entries[i].size
                == size_of(entries, name)->0 && forall|j: int|
                0 <= j < i ==> (#[trigger] entries[j]).name@ != name,
    decreases entries.len(),
{
    if entries.len() > 0 {
        let rest = entries.skip(1);
        a_conflict_is_an_entry_of_that_name(rest, name);
        if entries[0].name@ != name {
            if size_of(entries, name) is Some {
                let i = choose|i: int|
                    0 <= i < rest.len() && (#[trigger] rest[i]).name@ == name && rest[i].size
                        == size_of(rest, name)->0 && forall|j: int|
                        0 <= j < i ==> (#[trigger] rest[j]).name@ != name;
                assert(entries[i + 1] == rest[i]);
                assert forall|j: int| 0 <= j < i + 1 implies (#[trigger] entries[j]).name@
                    != name by {
                    if j > 0 {
                        assert(entries[j] == rest[j - 1]);
                    }
                }
            } else {
                assert forall|i: int| 0 <= i < entries.len() implies (#[trigger] entries[i]).name@
                    != name by {
                    if i > 0 {
                        assert(entries[i] == rest[i - 1]);
                    }
                }
            }
        }
    }
}

proof fn lemma_folders_sent(
    q: QueueModel,
    panes: PanesModel,
    targets: Seq<(usize, FileEntry)>,
    n: int,
)
    requires
        0 <= n <= targets.len(),
    ensures
        ({
            let from = panes.focused();
            let to = panes.panel_of(panes.focus.opposite());
            q.folders_sent(panes, targets, n) == (QueueModel {
                scan_queue: q.scan_queue + targets.take(n).filter_map(
                    |t: (usize, FileEntry)| folder_crossing(from, panes.focus, to, t.1),
                ),
                ..q
            })
        }),
    decreases n,
{
    let from = panes.focused();
    let to = panes.panel_of(panes.focus.opposite());
    let f = |t: (usize, FileEntry)| folder_crossing(from, panes.focus, to, t.1);
    reveal(Seq::filter_map);
    if n <= 0 {
        assert(q.scan_queue + targets.take(0).filter_map(f) =~= q.scan_queue);
    } else {
        lemma_folders_sent(q, panes, targets, n - 1);
        assert(targets.take(n).drop_last() =~= targets.take(n - 1));
        assert(q.folders_sent(panes, targets, n).scan_queue =~= q.scan_queue + targets.take(
            n,
        ).filter_map(f));
    }
}

proof fn lemma_files_sent(
    q: QueueModel,
    panes: PanesModel,
    targets: Seq<(usize, FileEntry)>,
    n: int,
)
    requires
        0 <= n <= targets.len(),
    ensures
        ({
            let from = panes.focused();
            let to = panes.panel_of(panes.focus.opposite());
            q.files_sent(panes, targets, n) == (QueueModel {
                pending: q.pending + targets.take(n).filter_map(
                    |t: (usize, FileEntry)| crossing(from, panes.focus, to, t.1),
                ),
                ..q
            })
        }),
    decreases n,
{
    let from = panes.focused();
    let to = panes.panel_of(panes.focus.opposite());
    let f = |t: (usize, FileEntry)| crossing(from, panes.focus, to, t.1);
    reveal(Seq::filter_map);
    if n <= 0 {
        assert(q.pending + targets.take(0).filter_map(f) =~= q.pending);
    } else {
        lemma_files_sent(q, panes, targets, n - 1);
        assert(targets.take(n).drop_last() =~= targets.take(n - 1));
        assert(q.files_sent(panes, targets, n).pending =~= q.pending + targets.take(n).filter_map(
            f,
        ));
    }
}

/// Sending queues what is selected and nothing else: every selected file,
/// in order, from its path in the focused panel to the same name in the
/// other panel's directory, and every selected folder for its confirmation.
/// Large files then dial the host that is shown.
pub proof fn sending_queues_the_selection(m: AppModel)
    requires
        m.panes.focused().targets().len() > 0,
    ensures
        ({
            let side = m.panes.focus;
            let (from, to) = if side == PanelSide::Local {
                (m.panes.local, m.panes.remote)
            } else {
                (m.panes.remote, m.panes.local)
            };
            let q = QueueModel {
                transfers: match m.queue.transfers {
                    Some(t) => Some(ManagerModel { helper_target: Some(m.link.label), ..t }),
                    None => None,
                },
                pending: m.queue.pending + from.targets().filter_map(
                    |t: (usize, FileEntry)| crossing(from, side, to, t.1),
                ),
                scan_queue: m.queue.scan_queue + from.targets().filter_map(
                    |t: (usize, FileEntry)| folder_crossing(from, side, to, t.1),
                ),
                ..m.queue
            };
            &&& m.sent().queue == q.readied()
            &&& m.sent().out == m.out
            &&& m.sent().hand == m.hand
        }),
{
    reveal(AppModel::sent);
    let targets = m.panes.focused().targets();
    let n = targets.len() as int;
    let q = m.queue.with_target(m.link.label);
    lemma_folders_sent(q, m.panes, targets, n);
    lemma_files_sent(q.folders_sent(m.panes, targets, n), m.panes, targets, n);
    assert(targets.take(n) =~= targets);
}

/// A yanked file as it is queued for a directory on another side, or for
/// one on the server: from where it was yanked to its name there.
pub open spec fn pasting(
    from: PanelSide,
    to: PanelSide,
    dest: PanelModel,
    cut: bool,
    item: (Seq<char>, bool, u64),
) -> Option<PendingModel> {
    match base(item.0) {
        Some(name) => if item.1 {
            None
        } else {
            Some(
                PendingModel {
                    direction: goes(from, to),
                    source: item.0,
                    dest: path_in(dest.path, name),
                    size: item.2,
                    dest_size: size_of(dest.entries, name),
                    cut_source: cut,
                },
            )
        },
        None => None,
    }
}

/// A yanked folder as it is queued for its confirmation.
pub open spec fn folder_pasting(
    from: PanelSide,
    to: PanelSide,
    dest: PanelModel,
    cut: bool,
    item: (Seq<char>, bool, u64),
) -> Option<ScanModel> {
    if base(item.0) is Some && item.1 {
        Some(ScanModel { side: from, root: item.0, dest: dest.path, dest_side: to, cut_source: cut })
    } else {
        None
    }
}

proof fn lemma_pasted_across(
    q: QueueModel,
    items: Seq<(Seq<char>, bool, u64)>,
    from: PanelSide,
    to: PanelSide,
    dest: PanelModel,
    cut: bool,
    n: int,
)
    requires
        0 <= n <= items.len(),
    ensures
        q.pasted_across(items, from, to, dest, cut, n) == (QueueModel {
            pending: q.pending + items.take(n).filter_map(
                |i: (Seq<char>, bool, u64)| pasting(from, to, dest, cut, i),
            ),
            scan_queue: q.scan_queue + items.take(n).filter_map(
                |i: (Seq<char>, bool, u64)| folder_pasting(from, to, dest, cut, i),
            ),
            ..q
        }),
    decreases n,
{
    let f = |i: (Seq<char>, bool, u64)| pasting(from, to, dest, cut, i);
    let g = |i: (Seq<char>, bool, u64)| folder_pasting(from, to, dest, cut, i);
    reveal(Seq::filter_map);
    if n <= 0 {
        assert(q.pending + items.take(0).filter_map(f) =~= q.pending);
        assert(q.scan_queue + items.take(0).filter_map(g) =~= q.scan_queue);
    } else {
        lemma_pasted_across(q, items, from, to, dest, cut, n - 1);
        assert(items.take(n).drop_last() =~= items.take(n - 1));
        let r = q.pasted_across(items, from, to, dest, cut, n);
        assert(r.pending =~= q.pending + items.take(n).filter_map(f));
        assert(r.scan_queue =~= q.scan_queue + items.take(n).filter_map(g));
    }
}

/// Pasting across queues what was yanked and nothing else: every file, in
/// order, from where it was yanked to its own name in the focused
/// directory, and every folder for its confirmation; only a cut removes
/// its sources.
pub proof fn pasting_queues_the_clipboard(m: AppModel, clip: ClipModel)
    requires
        m.hand.clipboard == Some(clip),
        clip.side == PanelSide::Remote || m.panes.focus == PanelSide::Remote,
    ensures
        ({
            let to = m.panes.focus;
            let dest = if to == PanelSide::Local {
                m.panes.local
            } else {
                m.panes.remote
            };
            let q = QueueModel {
                pending: m.queue.pending + clip.items.filter_map(
                    |i: (Seq<char>, bool, u64)| pasting(clip.side, to, dest, clip.cut, i),
                ),
                scan_queue: m.queue.scan_queue + clip.items.filter_map(
                    |i: (Seq<char>, bool, u64)| folder_pasting(clip.side, to, dest, clip.cut, i),
                ),
                ..m.queue
            };
            let forced = (QueueModel { overwrite_all: Some(true), ..q }).readied();
            &&& m.pasted().queue == q.readied()
            &&& m.pasted().out == m.out
            &&& m.pasted().hand == m.hand
            &&& m.pasted_over().queue == (QueueModel { overwrite_all: None, ..forced })
            &&& m.pasted_over().out == m.out
        }),
{
    reveal(AppModel::pasted);
    reveal(AppModel::pasted_over);
    let dest = m.panes.focused();
    let n = clip.items.len() as int;
    assert(clip.items.take(n) =~= clip.items);
    lemma_pasted_across(m.queue, clip.items, clip.side, m.panes.focus, dest, clip.cut, n);
    let forced = QueueModel { overwrite_all: Some(true), ..m.queue };
    lemma_pasted_across(forced, clip.items, clip.side, m.panes.focus, dest, clip.cut, n);
}

/// A yanked item as it is copied or moved inside the local side.
pub open spec fn copying(dir: Seq<char>, cut: bool, item: (Seq<char>, bool, u64)) -> Option<
    RequestModel,
> {
    match base(item.0) {
        Some(name) => Some(RequestModel::LocalCopy { from: item.0, to: path_in(dir, name), cut }),
        None => None,
    }
}

proof fn lemma_copied_locally(
    out: OutModel,
    items: Seq<(Seq<char>, bool, u64)>,
    dir: Seq<char>,
    cut: bool,
    n: int,
)
    requires
        0 <= n <= items.len(),
    ensures
        out.copied_locally(items, dir, cut, n) == (OutModel {
            requests: out.requests + items.take(n).filter_map(
                |i: (Seq<char>, bool, u64)| copying(dir, cut, i),
            ),
            ..out
        }),
    decreases n,
{
    let f = |i: (Seq<char>, bool, u64)| copying(dir, cut, i);
    reveal(Seq::filter_map);
    if n <= 0 {
        assert(out.requests + items.take(0).filter_map(f) =~= out.requests);
    } else {
        lemma_copied_locally(out, items, dir, cut, n - 1);
        assert(items.take(n).drop_last() =~= items.take(n - 1));
        assert(out.copied_locally(items, dir, cut, n).requests =~= out.requests + items.take(
            n,
        ).filter_map(f));
    }
}

/// Pasting inside the local side asks for one copy of every yanked item, in
/// order, from where it was yanked to its own name in the focused
/// directory, as a move exactly where it was cut.
pub proof fn local_paste_copies_the_clipboard(m: AppModel, clip: ClipModel)
    requires
        m.hand.clipboard == Some(clip),
        clip.side == PanelSide::Local,
        m.panes.focus == PanelSide::Local,
    ensures
        m.pasted().out.requests == m.out.requests + clip.items.filter_map(
            |i: (Seq<char>, bool, u64)| copying(m.panes.local.path, clip.cut, i),
        ),
        m.pasted().out.effects == m.out.effects,
        m.pasted().panes == m.panes,
{
    reveal(AppModel::pasted);
    let n = clip.items.len() as int;
    assert(clip.items.take(n) =~= clip.items);
    lemma_copied_locally(m.out, clip.items, m.panes.local.path, clip.cut, n);
}

/// Yanking remembers the selected entries, each with its path, its kind and
/// its size, and the side they are on; nothing is queued or asked for, and
/// without a selection the clipboard stays as it was.
pub proof fn yanking_remembers_the_selection(m: AppModel, cut: bool)
    ensures
        ({
            let panel = if m.panes.focus == PanelSide::Local {
                m.panes.local
            } else {
                m.panes.remote
            };
            let targets = panel.targets();
            let r = m.with_yank(cut);
            &&& targets.len() == 0 ==> r == m
            &&& targets.len() > 0 ==> {
                &&& r.hand.clipboard is Some
                &&& r.hand.clipboard->0.side == m.panes.focus
                &&& r.hand.clipboard->0.cut == cut
                &&& r.hand.clipboard->0.items.len() == targets.len()
                &&& forall|i: int|
                    0 <= i < targets.len() ==> (#[trigger] r.hand.clipboard->0.items[i]) == (
                        path_in(panel.path, targets[i].1.name@),
                        targets[i].1.is_dir,
                        targets[i].1.size,
                    )
            }
            &&& r.queue == m.queue
            &&& r.out == m.out
            &&& r.panes == m.panes
        }),
{
    reveal(AppModel::with_yank);
}

/// Only a confirmed folder is walked: the walk that is asked for is that of
/// the folder at the front, to where it was to go, and a key that answers
/// nothing changes nothing.
pub proof fn a_confirmed_folder_is_walked(m: AppModel, key: KeyCode)
    requires
        m.queue.scan_queue.len() > 0,
    ensures
        ({
            let front = m.queue.scan_queue[0];
            let r = m.folder_answered(key);
            let yes = key == KeyCode::Char('y') || key == KeyCode::Char('Y') || key
                == KeyCode::Enter;
            let no = key == KeyCode::Char('n') || key == KeyCode::Char('N') || key
                == KeyCode::Escape;
            &&& yes ==> r.out.requests == m.out.requests.push(
                RequestModel::ScanTree {
                    side: front.side,
                    root: front.root,
                    dest: front.dest,
                    dest_side: front.dest_side,
                    cut_source: front.cut_source,
                },
            )
            &&& no ==> r.out.requests == m.out.requests
            &&& yes || no ==> r.queue == (QueueModel {
                scan_queue: m.queue.scan_queue.skip(1),
                mode: None,
                ..m.queue
            }).readied()
            &&& !yes && !no ==> r == m
        }),
{
    reveal(AppModel::folder_answered);
    assert(m.queue.scan_queue.remove(0) =~= m.queue.scan_queue.skip(1));
}

} // verus!

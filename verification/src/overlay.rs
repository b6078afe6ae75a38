//! The overlay's loop: what a finished background operation, a transfer
//! event or a lost session changes, and how long to wait for input.

use crate::edit_sync::RemoteStamp;
use crate::i18n::Table;
use crate::paths::{join_path, opt, path_in};
use crate::queue::{between, direction_between, whatever_waits_is_asked};
use crate::state::{
    cut_list, scanned_list, App, AppModel, AuthReply, Effect, EffectModel, FrameModel, HandModel,
    InputMode, LinkModel, ModeModel, OpRequest, PanesModel, PendingModel, PendingTransfer, QueueModel,
    RequestModel, ScanFile, ScanFileModel,
};
use crate::text::{cat, cat3, contains, decimal, holds, lower, number, same, to_lower};
use crate::transfer::{
    event_list, status_list, Direction, EventModel, ManagerModel, StateModel, StatusModel,
    TransferEvent, TransferManager, TransferState, TransferStatus,
};
use crate::types::{sorted, FileEntry, PanelSide, SftpPalette};
use crate::units::{bytes_text, format_bytes, TransferHistory};
use std::sync::Arc;
use vstd::prelude::*;
use vstd::string::*;

verus! {

broadcast use vstd::std_specs::hash::group_hash_axioms;

/// Everything the overlay needs to know about how to reach the remote
/// side, resolved before the overlay starts.
#[derive(Debug)]
pub struct SftpOverlayConfig {
    /// There is a live session to the remote side.
    pub session: bool,
    /// `user@host` to connect to when there is no live session.
    pub connect_target: Option<String>,
    /// Target to redial when the adopted session dies mid-session
    /// (pool and fresh-connect paths; None for domain sessions).
    pub reconnect_target: Option<String>,
    /// Display label for the remote side, e.g. `user@host`.
    pub remote_label: String,
    /// Local directory to start browsing from.
    pub local_path: String,
    /// Remote directory to start browsing from, when already known.
    pub remote_start: Option<String>,
    pub palette: SftpPalette,
    /// There is a system clipboard to write to.
    pub clipboard: bool,
}

/// The configuration with its texts as characters.
pub struct ConfigModel {
    pub session: bool,
    pub connect_target: Option<Seq<char>>,
    pub reconnect_target: Option<Seq<char>>,
    pub remote_label: Seq<char>,
    pub local_path: Seq<char>,
    pub remote_start: Option<Seq<char>>,
    pub palette: SftpPalette,
    pub clipboard: bool,
}

impl View for SftpOverlayConfig {
    type V = ConfigModel;

    open spec fn view(&self) -> ConfigModel {
        ConfigModel {
            session: self.session,
            connect_target: opt(self.connect_target),
            reconnect_target: opt(self.reconnect_target),
            remote_label: self.remote_label@,
            local_path: self.local_path@,
            remote_start: opt(self.remote_start),
            palette: self.palette,
            clipboard: self.clipboard,
        }
    }
}

/// Results of background work, delivered to the overlay loop.
#[derive(Debug)]
#[allow(inconsistent_fields)]
pub enum OpResult {
    Connected { home: String },
    ConnectFailed(String),
    /// The ssh handshake needs a password (or keyboard-interactive
    /// answer) from the user.
    NeedsAuth { username: String, prompt: String },
    /// The host is not in known_hosts; the user has to decide.
    NeedsHostVerify { message: String },
    Listed { side: PanelSide, path: String, entries: Result<Vec<FileEntry>, String> },
    Mutated { side: PanelSide, outcome: Result<(), String> },
    Opened {
        source: String,
        dest: String,
        outcome: Result<u64, String>,
        /// Remote stamp taken while downloading, so the write-back
        /// watcher can tell its own writes from someone else's.
        stamp: Option<RemoteStamp>,
    },
    Scanned {
        side: PanelSide,
        root: String,
        dest: String,
        dest_side: PanelSide,
        cut_source: bool,
        files: Result<Vec<ScanFile>, String>,
    },
}

/// What the overlay's loop remembers between its rounds.
#[derive(Debug)]
pub struct Overlay {
    /// Redial target for dead-session recovery.
    pub pool_target: Option<String>,
    pub reconnected: bool,
    pub session_died: bool,
    pub needs_queue_start: bool,
    /// The remote listing waits for the session.
    pub pending_remote_ls: bool,
}

/// What the loop remembers, with its text as characters.
pub struct OverlayModel {
    pub pool_target: Option<Seq<char>>,
    pub reconnected: bool,
    pub session_died: bool,
    pub needs_queue_start: bool,
    pub pending_remote_ls: bool,
}

impl View for Overlay {
    type V = OverlayModel;

    open spec fn view(&self) -> OverlayModel {
        OverlayModel {
            pool_target: opt(self.pool_target),
            reconnected: self.reconnected,
            session_died: self.session_died,
            needs_queue_start: self.needs_queue_start,
            pending_remote_ls: self.pending_remote_ls,
        }
    }
}

/// An error that says the session is gone.
pub open spec fn session_lost(err: Seq<char>) -> bool {
    let low = lower(err);
    holds(low, "dead"@) || holds(low, "session"@) || holds(low, "channel"@) || holds(
        low,
        "closed"@,
    )
}

/// An error that says the session is gone.
pub fn is_session_lost(err: &str) -> (r: bool)
    ensures
        r == session_lost(err@),
{
    let low = to_lower(err);
    contains(low.as_str(), "dead") || contains(low.as_str(), "session") || contains(
        low.as_str(),
        "channel",
    ) || contains(low.as_str(), "closed")
}

/// A transfer's error that says the session is gone.
pub open spec fn transfer_lost(err: Seq<char>) -> bool {
    let low = lower(err);
    holds(low, "dead"@) || holds(low, "closed channel"@) || holds(low, "session"@)
}

/// A transfer's error that says the session is gone.
pub fn is_transfer_lost(err: &str) -> (r: bool)
    ensures
        r == transfer_lost(err@),
{
    let low = to_lower(err);
    contains(low.as_str(), "dead") || contains(low.as_str(), "closed channel") || contains(
        low.as_str(),
        "session",
    )
}

impl AppModel {
    /// A session is there: the engine is new, and the registry knows.
    pub open spec fn adopted(self) -> AppModel {
        AppModel {
            link: LinkModel { session: true, ..self.link },
            queue: QueueModel { transfers: Some(ManagerModel::fresh()), ..self.queue },
            ..self
        }.caused(EffectModel::MarkConnected)
    }

    /// The browser as the overlay opens it.
    #[verifier::opaque]
    pub open spec fn opened_with(
        config: ConfigModel,
        words: Map<Seq<char>, Seq<char>>,
        cols: int,
        rows: int,
    ) -> AppModel {
        let bare = AppModel::fresh(cols, rows, config.palette, config.local_path);
        let named = AppModel {
            frame: FrameModel { words, ..bare.frame },
            link: LinkModel { label: config.remote_label, ..bare.link },
            hand: HandModel { sink: config.clipboard, ..bare.hand },
            ..bare
        };
        let placed = match config.remote_start {
            Some(start) => named.with_path(PanelSide::Remote, start),
            None => named,
        };
        let linked = if config.session {
            placed.adopted()
        } else {
            placed
        };
        let listed = linked.listing(PanelSide::Local);
        match config.connect_target {
            Some(target) => listed.with_connecting(
                Some("Connecting to "@ + target + " …"@),
            ).caused(EffectModel::Connect { target }),
            None => if config.session {
                listed.listing(PanelSide::Remote)
            } else {
                listed
            },
        }
    }
}

impl OverlayModel {
    /// The loop as the overlay opens it.
    pub open spec fn opened_with(config: ConfigModel) -> OverlayModel {
        OverlayModel {
            pool_target: config.reconnect_target,
            reconnected: false,
            session_died: false,
            needs_queue_start: false,
            pending_remote_ls: !config.session && config.connect_target is Some,
        }
    }

    pub open spec fn died(self, lost: bool) -> OverlayModel {
        OverlayModel { session_died: self.session_died || lost, ..self }
    }
}

fn adopt(app: &mut App)
    ensures
        final(app)@ == old(app)@.adopted(),
{
    app.session = true;
    app.transfers = Some(TransferManager::new());
    app.cause(Effect::MarkConnected);
}

/// Open the overlay: reuse a live session immediately, or have one dialed.
/// The local side is listed in any case. `words` are the translations of
/// this run.
pub fn open_overlay(
    config: &SftpOverlayConfig,
    words: Arc<Table>,
    cols: usize,
    rows: usize,
) -> (r: (App, Overlay))
    ensures
        r.0@ == AppModel::opened_with(config@, words@, cols as int, rows as int),
        r.1@ == OverlayModel::opened_with(config@),
{
    proof {
        reveal(AppModel::opened_with);
    }
    let mut app = App::new(cols, rows, config.palette, config.local_path.clone());
    app.words = words;
    app.remote_label = config.remote_label.clone();
    app.clipboard_sink = config.clipboard;
    if let Some(start) = &config.remote_start {
        app.set_path(PanelSide::Remote, start.clone());
    }
    if config.session {
        adopt(&mut app);
    }
    app.list_again(PanelSide::Local);
    match &config.connect_target {
        Some(target) => {
            app.connecting = Some(cat3("Connecting to ", target.as_str(), " …"));
            app.cause(Effect::Connect { target: target.clone() });
        },
        None => {
            if config.session {
                app.list_again(PanelSide::Remote);
            }
        },
    }
    let overlay = Overlay {
        pool_target: config.reconnect_target.clone(),
        reconnected: false,
        session_died: false,
        needs_queue_start: false,
        pending_remote_ls: !config.session && config.connect_target.is_some(),
    };
    proof {
        assert(overlay@.pool_target == config@.reconnect_target);
    }
    (app, overlay)
}

impl AppModel {
    /// The password prompt on screen.
    pub open spec fn auth_needed(self, username: Seq<char>, prompt: Seq<char>) -> AppModel {
        (AppModel {
            link: LinkModel {
                connecting: Some("Authenticating …"@),
                auth_reply: Some(AuthReply::Password),
                ..self.link
            },
            ..self
        }).with_mode(Some(ModeModel::Password { username, prompt })).with_line(Seq::empty())
    }

    /// The trust prompt on screen.
    pub open spec fn trust_needed(self, message: Seq<char>) -> AppModel {
        (AppModel {
            link: LinkModel {
                connecting: Some("Confirm host key …"@),
                auth_reply: Some(AuthReply::HostVerify),
                ..self.link
            },
            ..self
        }).with_mode(Some(ModeModel::ConfirmHostKey { message })).with_line(Seq::empty())
    }

    /// A fresh session at hand, with the remote panel where it landed.
    #[verifier::opaque]
    pub open spec fn connected(self, home: Seq<char>, list: bool) -> AppModel {
        let m = AppModel {
            link: LinkModel {
                connecting: None,
                home: match self.link.home {
                    Some(h) => Some(h),
                    None => Some(home),
                },
                ..self.link
            },
            ..self
        };
        let a = m.adopted().caused(EffectModel::UpdateCwd { path: home });
        let p = if self.panes.remote.path.len() == 0 {
            a.with_path(PanelSide::Remote, home)
        } else {
            a
        };
        let f = (AppModel {
            panes: PanesModel { focus: PanelSide::Remote, ..p.panes },
            ..p
        }).noted("connected"@);
        if list {
            f.listing(PanelSide::Remote)
        } else {
            f
        }
    }

    /// The remote side's directory noted; the first one listed is where the
    /// session started.
    pub open spec fn remote_seen(self, path: Seq<char>, ok: bool) -> AppModel {
        let m = self.caused(EffectModel::UpdateCwd { path });
        if m.link.home is None && ok {
            AppModel { link: LinkModel { home: Some(path), ..m.link }, ..m }
        } else {
            m
        }
    }

    /// A listing that arrived; one for a directory the panel has left since
    /// is dropped.
    #[verifier::opaque]
    pub open spec fn listed(
        self,
        side: PanelSide,
        path: Seq<char>,
        entries: Result<Seq<FileEntry>, Seq<char>>,
    ) -> AppModel {
        let m = if side == PanelSide::Remote {
            self.remote_seen(path, entries is Ok)
        } else {
            self
        };
        let panel = m.panel_of(side);
        if panel.path != path && panel.path.len() > 0 {
            m
        } else {
            let p = m.with_path(side, path);
            match entries {
                Ok(list) => p.with_panel(
                    side,
                    p.panel_of(side).with_entries(list).with_visit(path),
                ),
                Err(err) => p.failed(err),
            }
        }
    }

    /// A remote file fetched for a preview: watched while a session is
    /// there, and opened.
    pub open spec fn preview_fetched(
        self,
        source: Seq<char>,
        dest: Seq<char>,
        outcome: Result<u64, Seq<char>>,
        stamp: Option<RemoteStamp>,
    ) -> AppModel {
        match outcome {
            Ok(bytes) => (if self.link.session {
                self.caused(EffectModel::Watch { source, dest, stamp })
            } else {
                self
            }).caused(EffectModel::OpenPreview { dest, bytes }),
            Err(e) => self.failed("open failed: "@ + e),
        }
    }

    /// The panel takes the listing of `path`.
    pub open spec fn takes(self, side: PanelSide, path: Seq<char>) -> bool {
        self.panel_of(side).path == path || self.panel_of(side).path.len() == 0
    }

    /// The first `n` scanned files queued.
    pub open spec fn scans_queued(
        q: QueueModel,
        files: Seq<ScanFileModel>,
        direction: Direction,
        dest: Seq<char>,
        cut: bool,
        n: int,
    ) -> QueueModel
        decreases n,
    {
        if n <= 0 {
            q
        } else {
            AppModel::scans_queued(q, files, direction, dest, cut, n - 1).file_queued(
                direction,
                files[n - 1].abs,
                path_in(dest, files[n - 1].rel),
                files[n - 1].size,
                None,
                cut,
            )
        }
    }
}

/// A result with its texts as characters.
pub open spec fn listing_view(r: Result<Vec<FileEntry>, String>) -> Result<
    Seq<FileEntry>,
    Seq<char>,
> {
    match r {
        Ok(v) => Ok(v@),
        Err(e) => Err(e@),
    }
}

/// A byte count or an error, with the error as characters.
pub open spec fn told_bytes(r: Result<u64, String>) -> Result<u64, Seq<char>> {
    match r {
        Ok(n) => Ok(n),
        Err(e) => Err(e@),
    }
}

impl App {
    fn show_connected(&mut self, home: &str, list: bool)
        ensures
            final(self)@ == old(self)@.connected(home@, list),
    {
        proof {
            reveal(AppModel::connected);
        }
        self.connecting = None;
        if self.remote_home.is_none() {
            self.remote_home = Some(home.to_owned());
        }
        adopt(self);
        self.cause(Effect::UpdateCwd { path: home.to_owned() });
        if self.remote.path.as_str().is_empty() {
            self.set_path(PanelSide::Remote, home.to_owned());
        }
        self.focus = PanelSide::Remote;
        self.set_message("connected");
        if list {
            self.list_again(PanelSide::Remote);
        }
    }

    fn show_remote(&mut self, path: &str, ok: bool)
        ensures
            final(self)@ == old(self)@.remote_seen(path@, ok),
    {
        self.cause(Effect::UpdateCwd { path: path.to_owned() });
        if self.remote_home.is_none() && ok {
            self.remote_home = Some(path.to_owned());
        }
    }

    fn show_listing(&mut self, side: PanelSide, path: String, entries: Result<
        Vec<FileEntry>,
        String,
    >)
        ensures
            final(self)@ == old(self)@.listed(side, path@, listing_view(entries)),
    {
        proof {
            reveal(AppModel::listed);
        }
        if side == PanelSide::Remote {
            self.show_remote(path.as_str(), entries.is_ok());
        }
        let stale = !same(self.panel(side).path.as_str(), path.as_str()) && !self.panel(
            side,
        ).path.as_str().is_empty();
        if stale {
            return;
        }
        self.set_path(side, path.clone());
        match entries {
            Ok(list) => {
                let panel = self.panel_mut(side);
                panel.set_entries(list);
                panel.record_visit(path.as_str());
            },
            Err(err) => self.set_error(err.as_str()),
        }
    }

    fn queue_scanned(
        &mut self,
        files: &Vec<ScanFile>,
        direction: Direction,
        dest: &str,
        cut: bool,
    )
        ensures
            final(self)@ == old(self)@.with_queue(
                AppModel::scans_queued(
                    old(self)@.queue,
                    scanned_list(files@),
                    direction,
                    dest@,
                    cut,
                    files@.len() as int,
                ),
            ),
    {
        let ghost start = self@;
        let ghost list = scanned_list(files@);
        let mut i: usize = 0;
        while i < files.len()
            invariant
                i <= files@.len(),
                list == scanned_list(files@),
                self@ == start.with_queue(
                    AppModel::scans_queued(start.queue, list, direction, dest@, cut, i as int),
                ),
            decreases files@.len() - i,
        {
            let ghost before = self@.queue;
            proof {
                assert(list[i as int] == files@[i as int]@);
            }
            self.pending.push(
                PendingTransfer {
                    direction,
                    source: files[i].abs.clone(),
                    dest: join_path(dest, files[i].rel.as_str()),
                    size: files[i].size,
                    dest_size: None,
                    cut_source: cut,
                },
            );
            proof {
                assert(self@.queue.pending =~= before.file_queued(
                    direction,
                    list[i as int].abs,
                    path_in(dest@, list[i as int].rel),
                    list[i as int].size,
                    None,
                    cut,
                ).pending);
            }
            i += 1;
        }
    }
}

impl Overlay {
    /// The handshake asks for a password.
    pub fn needs_auth(&self, app: &mut App, username: String, prompt: String)
        ensures
            final(app)@ == old(app)@.auth_needed(username@, prompt@),
    {
        app.connecting = Some("Authenticating …".to_owned());
        app.auth_reply = Some(AuthReply::Password);
        app.input_mode = Some(InputMode::Password { username, prompt });
        app.input_line.clear();
    }

    /// The handshake asks whether to trust a host.
    pub fn needs_host_verify(&self, app: &mut App, message: String)
        ensures
            final(app)@ == old(app)@.trust_needed(message@),
    {
        app.connecting = Some("Confirm host key …".to_owned());
        app.auth_reply = Some(AuthReply::HostVerify);
        app.input_mode = Some(InputMode::ConfirmHostKey { message });
        app.input_line.clear();
    }

    /// A session is authenticated.
    pub fn connected(&mut self, app: &mut App, home: String)
        ensures
            final(app)@ == old(app)@.connected(home@, old(self)@.pending_remote_ls),
            final(self)@ == (OverlayModel { pending_remote_ls: false, ..old(self)@ }),
    {
        app.show_connected(home.as_str(), self.pending_remote_ls);
        self.pending_remote_ls = false;
    }

    /// No session could be had.
    pub fn connect_failed(&self, app: &mut App, err: &str)
        ensures
            final(app)@ == old(app)@.with_connecting(None).failed(err@),
    {
        app.connecting = None;
        app.set_error(err);
    }

    /// A directory was listed, or could not be.
    pub fn listed(&mut self, app: &mut App, side: PanelSide, path: String, entries: Result<
        Vec<FileEntry>,
        String,
    >)
        ensures
            final(app)@ == old(app)@.listed(side, path@, listing_view(entries)),
            final(self)@ == old(self)@.died(
                match entries {
                    Ok(_) => false,
                    Err(e) => side == PanelSide::Remote && session_lost(e@) && old(app)@.takes(
                        side,
                        path@,
                    ),
                },
            ),
    {
        let takes = same(app.panel(side).path.as_str(), path.as_str()) || app.panel(
            side,
        ).path.as_str().is_empty();
        let lost = match &entries {
            Ok(_) => false,
            Err(e) => side == PanelSide::Remote && takes && is_session_lost(e.as_str()),
        };
        if lost {
            self.session_died = true;
        }
        app.show_listing(side, path, entries);
    }

    /// A remote file was downloaded to be opened, or could not be.
    pub fn opened(
        &mut self,
        app: &mut App,
        source: String,
        dest: String,
        outcome: Result<u64, String>,
        stamp: Option<RemoteStamp>,
    )
        ensures
            final(app)@ == old(app)@.preview_fetched(source@, dest@, told_bytes(outcome), stamp),
            final(self)@ == old(self)@.died(
                match outcome {
                    Ok(_) => false,
                    Err(e) => session_lost(e@),
                },
            ),
    {
        match outcome {
            Ok(bytes) => {
                // Watch the preview copy so editor saves sync back to the
                // server while it is open.
                if app.session {
                    app.cause(Effect::Watch { source, dest: dest.clone(), stamp });
                }
                app.cause(Effect::OpenPreview { dest, bytes });
            },
            Err(err) => {
                if is_session_lost(err.as_str()) {
                    self.session_died = true;
                }
                let text = cat("open failed: ", err.as_str());
                app.set_error(text.as_str());
            },
        }
    }

    /// The application for a preview copy was started, or could not be.
    pub fn preview_opened(&self, app: &mut App, dest: &str, bytes: u64, failure: Option<String>)
        ensures
            final(app)@ == match failure {
                None => old(app)@.noted(
                    "opened "@ + dest@ + " ("@ + bytes_text(bytes as nat) + ") - saves sync back"@,
                ),
                Some(e) => old(app)@.failed("open failed: "@ + e@),
            },
    {
        match failure {
            None => {
                let mut text = cat3("opened ", dest, " (");
                text.append(format_bytes(bytes).as_str());
                text.append(") - saves sync back");
                app.set_message(text.as_str());
            },
            Some(e) => {
                let text = cat("open failed: ", e.as_str());
                app.set_error(text.as_str());
            },
        }
    }

    /// A folder was walked, or could not be.
    pub fn scanned(
        &mut self,
        app: &mut App,
        side: PanelSide,
        root: &str,
        dest: &str,
        dest_side: PanelSide,
        cut_source: bool,
        files: Result<Vec<ScanFile>, String>,
    )
        ensures
            final(app)@ == match files {
                Ok(list) => old(app)@.with_queue(
                    AppModel::scans_queued(
                        old(app)@.queue,
                        scanned_list(list@),
                        between(side, dest_side),
                        dest@,
                        cut_source,
                        list@.len() as int,
                    ),
                ).noted("queued "@ + decimal(list@.len()) + " files from "@ + root@),
                Err(e) => old(app)@.failed("scan failed: "@ + e@),
            },
            final(self)@ == (OverlayModel {
                needs_queue_start: old(self)@.needs_queue_start || files is Ok,
                ..old(self)@
            }),
    {
        match files {
            Ok(list) => {
                let direction = direction_between(side, dest_side);
                let count: usize = list.len();
                app.queue_scanned(&list, direction, dest, cut_source);
                let mut text = cat3("queued ", number(count as u64).as_str(), " files from ");
                text.append(root);
                app.set_message(text.as_str());
                self.needs_queue_start = true;
            },
            Err(err) => {
                let text = cat("scan failed: ", err.as_str());
                app.set_error(text.as_str());
            },
        }
    }

    /// An entry was created, renamed, moved or removed, or could not be.
    pub fn mutated(&self, app: &mut App, side: PanelSide, outcome: Result<(), String>)
        ensures
            final(app)@ == match outcome {
                Ok(()) => old(app)@.noted("done"@).listing(side),
                Err(e) => old(app)@.failed(e@),
            },
    {
        match outcome {
            Ok(()) => {
                app.set_message("done");
                app.list_again(side);
            },
            Err(err) => app.set_error(err.as_str()),
        }
    }
}

/// What the result of a background operation makes of the browser and of
/// the loop's memory.
pub open spec fn answered(app: AppModel, o: OverlayModel, result: OpResult) -> (
    AppModel,
    OverlayModel,
) {
    match result {
        OpResult::NeedsAuth { username, prompt } => (app.auth_needed(username@, prompt@), o),
        OpResult::NeedsHostVerify { message } => (app.trust_needed(message@), o),
        OpResult::Connected { home } => (
            app.connected(home@, o.pending_remote_ls),
            OverlayModel { pending_remote_ls: false, ..o },
        ),
        OpResult::ConnectFailed(err) => (app.with_connecting(None).failed(err@), o),
        OpResult::Listed { side, path, entries } => (
            app.listed(side, path@, listing_view(entries)),
            o.died(
                match entries {
                    Ok(_) => false,
                    Err(e) => side == PanelSide::Remote && session_lost(e@) && app.takes(
                        side,
                        path@,
                    ),
                },
            ),
        ),
        OpResult::Opened { source, dest, outcome, stamp } => (
            app.preview_fetched(source@, dest@, told_bytes(outcome), stamp),
            o.died(
                match outcome {
                    Ok(_) => false,
                    Err(e) => session_lost(e@),
                },
            ),
        ),
        OpResult::Scanned { side, root, dest, dest_side, cut_source, files } => (
            match files {
                Ok(list) => app.with_queue(
                    AppModel::scans_queued(
                        app.queue,
                        scanned_list(list@),
                        between(side, dest_side),
                        dest@,
                        cut_source,
                        list@.len() as int,
                    ),
                ).noted("queued "@ + decimal(list@.len()) + " files from "@ + root@),
                Err(e) => app.failed("scan failed: "@ + e@),
            },
            OverlayModel { needs_queue_start: o.needs_queue_start || files is Ok, ..o },
        ),
        OpResult::Mutated { side, outcome } => (
            match outcome {
                Ok(()) => app.noted("done"@).listing(side),
                Err(e) => app.failed(e@),
            },
            o,
        ),
    }
}

impl Overlay {
    /// Bring the result of a background operation into the browser.
    pub fn handle_result(&mut self, app: &mut App, result: OpResult)
        ensures
            (final(app)@, final(self)@) == answered(old(app)@, old(self)@, result),
    {
        match result {
            OpResult::NeedsAuth { username, prompt } => self.needs_auth(app, username, prompt),
            OpResult::NeedsHostVerify { message } => self.needs_host_verify(app, message),
            OpResult::Connected { home } => self.connected(app, home),
            OpResult::ConnectFailed(err) => self.connect_failed(app, err.as_str()),
            OpResult::Listed { side, path, entries } => self.listed(app, side, path, entries),
            OpResult::Opened { source, dest, outcome, stamp } => self.opened(
                app,
                source,
                dest,
                outcome,
                stamp,
            ),
            OpResult::Scanned { side, root, dest, dest_side, cut_source, files } => self.scanned(
                app,
                side,
                root.as_str(),
                dest.as_str(),
                dest_side,
                cut_source,
                files,
            ),
            OpResult::Mutated { side, outcome } => self.mutated(app, side, outcome),
        }
    }
}

/// Position of the first cut source that waits for transfer `id`, or the
/// list's length.
pub open spec fn cut_position(list: Seq<(u64, PanelSide, Seq<char>, bool)>, id: u64) -> int
    decreases list.len(),
{
    if list.len() == 0 || list[0].0 == id {
        0
    } else {
        1 + cut_position(list.skip(1), id)
    }
}

/// Side that a transfer writes.
pub open spec fn written_side(d: Direction) -> PanelSide {
    match d {
        Direction::Download => PanelSide::Local,
        _ => PanelSide::Remote,
    }
}

impl AppModel {
    /// The source of a cut removed once its copy landed.
    #[verifier::opaque]
    pub open spec fn cut_done(self, status: StatusModel) -> AppModel {
        let at = cut_position(self.queue.cut_pending, status.id);
        if at >= self.queue.cut_pending.len() {
            self
        } else {
            let (_, side, path, is_dir) = self.queue.cut_pending[at];
            let m = self.with_queue(
                QueueModel { cut_pending: self.queue.cut_pending.remove(at), ..self.queue },
            );
            if status.state is Done {
                m.asked(RequestModel::Delete { side, path, is_dir })
            } else {
                m
            }
        }
    }

    /// A download for the download folder revealed once it landed.
    #[verifier::opaque]
    pub open spec fn reveal_done(self, status: StatusModel) -> AppModel {
        match self.hand.reveal {
            Some((id, path)) => if id == status.id {
                let m = AppModel { hand: HandModel { reveal: None, ..self.hand }, ..self };
                match status.state {
                    StateModel::Done => m.caused(EffectModel::Reveal { path }),
                    StateModel::Failed(err) => m.failed("download failed: "@ + err),
                    _ => m,
                }
            } else {
                self
            },
            None => self,
        }
    }

    /// A finished transfer: its cut, its reveal, and the side it wrote
    /// listed again so new files appear without a manual reload.
    pub open spec fn transfer_done(self, status: StatusModel) -> AppModel {
        let m = self.cut_done(status).reveal_done(status);
        if m.link.session {
            m.listing(written_side(status.direction))
        } else {
            m
        }
    }
}

impl App {
    fn find_cut(&self, id: u64) -> (r: usize)
        ensures
            r == cut_position(self@.queue.cut_pending, id),
    {
        let ghost list = self@.queue.cut_pending;
        let mut i: usize = 0;
        proof {
            assert(list.skip(0) =~= list);
        }
        while i < self.cut_pending.len() && self.cut_pending[i].0 != id
            invariant
                i <= self.cut_pending@.len(),
                list == cut_list(self.cut_pending@),
                cut_position(list, id) == i + cut_position(list.skip(i as int), id),
            decreases self.cut_pending@.len() - i,
        {
            proof {
                assert(list[i as int].0 == self.cut_pending@[i as int].0);
                assert(list.skip(i as int).skip(1) =~= list.skip(i + 1));
            }
            i += 1;
        }
        proof {
            if i < list.len() {
                assert(list[i as int].0 == self.cut_pending@[i as int].0);
            }
        }
        i
    }

    fn finish_cut(&mut self, status: &TransferStatus)
        ensures
            final(self)@ == old(self)@.cut_done(status@),
    {
        proof {
            reveal(AppModel::cut_done);
        }
        let ghost start = self@;
        let at = self.find_cut(status.id);
        if at < self.cut_pending.len() {
            proof {
                let c = self.cut_pending@[at as int];
                assert(start.queue.cut_pending[at as int] == (c.0, c.1, c.2@, c.3));
            }
            let (_, side, path, is_dir) = self.cut_pending.remove(at);
            proof {
                assert(self@.queue.cut_pending =~= start.queue.cut_pending.remove(at as int));
            }
            if let TransferState::Done = &status.state {
                self.ask(OpRequest::Delete { side, path, is_dir });
            }
        }
    }

    fn finish_reveal(&mut self, status: &TransferStatus)
        ensures
            final(self)@ == old(self)@.reveal_done(status@),
    {
        proof {
            reveal(AppModel::reveal_done);
        }
        let mut taken: Option<(u64, String)> = None;
        let due = match &self.pending_reveal {
            Some((id, _)) => *id == status.id,
            None => false,
        };
        if !due {
            return;
        }
        core::mem::swap(&mut self.pending_reveal, &mut taken);
        if let Some((_, path)) = taken {
            match &status.state {
                TransferState::Done => self.cause(Effect::Reveal { path }),
                TransferState::Failed(err) => {
                    let text = cat("download failed: ", err.as_str());
                    self.set_error(text.as_str());
                },
                _ => {},
            }
        }
    }
}

impl Overlay {
    /// A transfer has finished.
    pub fn transfer_finished(&mut self, app: &mut App, status: &TransferStatus)
        ensures
            final(app)@ == old(app)@.transfer_done(status@),
            final(self)@ == old(self)@.died(
                match status@.state {
                    StateModel::Failed(e) => transfer_lost(e),
                    _ => false,
                },
            ),
    {
        if let TransferState::Failed(err) = &status.state {
            if is_transfer_lost(err.as_str()) {
                self.session_died = true;
            }
        }
        app.finish_cut(status);
        app.finish_reveal(status);
        if app.session {
            let side = match status.direction {
                Direction::Download => PanelSide::Local,
                _ => PanelSide::Remote,
            };
            app.list_again(side);
        }
    }
}

impl AppModel {
    /// A dead session given up and its target dialed again.
    #[verifier::opaque]
    pub open spec fn redialed(self, target: Seq<char>) -> AppModel {
        let m = if self.link.session {
            self.caused(EffectModel::Evict { target })
        } else {
            self
        };
        (AppModel {
            link: LinkModel {
                session: false,
                connecting: Some("Reconnecting to "@ + target + " ..."@),
                ..m.link
            },
            queue: QueueModel { transfers: None, ..m.queue },
            ..m
        }).caused(EffectModel::MarkDisconnected).caused(EffectModel::Connect { target })
    }

    /// Newly queued transfers started as far as they do not conflict.
    #[verifier::opaque]
    pub open spec fn queue_started(self) -> AppModel {
        let m = self.with_queue(self.queue.readied());
        if m.queue.pending.len() > 0 && m.queue.mode is None {
            m.with_mode(Some(ModeModel::ConfirmOverwrite))
        } else {
            m
        }
    }

    /// Something is under way that shows without input: a connection, or a
    /// transfer that has not finished.
    pub open spec fn busy(self) -> bool {
        self.link.connecting is Some || match self.queue.transfers {
            Some(t) => exists|i: int|
                0 <= i < t.statuses.len() && !(#[trigger] t.statuses[i]).state.terminal(),
            None => false,
        }
    }
}

impl OverlayModel {
    /// A dead session is to be dialed again: once, and only where the
    /// target is known.
    pub open spec fn redials(self) -> bool {
        self.session_died && !self.reconnected && self.pool_target is Some
    }

    /// The loop's memory before the next frame.
    pub open spec fn settled(self) -> OverlayModel {
        OverlayModel {
            needs_queue_start: false,
            reconnected: self.reconnected || self.redials(),
            session_died: self.session_died && !self.redials(),
            pending_remote_ls: self.pending_remote_ls || self.redials(),
            ..self
        }
    }
}

impl App {
    fn redial(&mut self, target: &str)
        ensures
            final(self)@ == old(self)@.redialed(target@),
    {
        proof {
            reveal(AppModel::redialed);
        }
        if self.session {
            self.cause(Effect::Evict { target: target.to_owned() });
        }
        self.session = false;
        self.transfers = None;
        self.cause(Effect::MarkDisconnected);
        self.connecting = Some(cat3("Reconnecting to ", target, " ..."));
        self.cause(Effect::Connect { target: target.to_owned() });
    }

    fn start_queue(&mut self)
        ensures
            final(self)@ == old(self)@.queue_started(),
    {
        proof {
            reveal(AppModel::queue_started);
        }
        self.start_ready_transfers();
        if self.pending.len() > 0 && self.input_mode.is_none() {
            self.input_mode = Some(InputMode::ConfirmOverwrite);
        }
    }

    /// Something is under way that shows without input.
    pub fn is_busy(&self) -> (r: bool)
        ensures
            r == self@.busy(),
    {
        if self.connecting.is_some() {
            return true;
        }
        match &self.transfers {
            None => false,
            Some(t) => {
                let ghost list = t@.statuses;
                let mut i: usize = 0;
                while i < t.statuses.len()
                    invariant
                        i <= t.statuses@.len(),
                        list == status_list(t.statuses@),
                        self@.queue.transfers matches Some(m) && m.statuses == list,
                        forall|j: int|
                            0 <= j < i ==> (#[trigger] list[j]).state.terminal(),
                    decreases t.statuses@.len() - i,
                {
                    proof {
                        assert(list[i as int] == t.statuses@[i as int]@);
                    }
                    if !t.statuses[i].state.is_terminal() {
                        return true;
                    }
                    i += 1;
                }
                false
            },
        }
    }
}

impl Overlay {
    /// Between the events and the next frame: start what was queued, and
    /// redial a dead session once instead of leaving the panel broken.
    pub fn settle(&mut self, app: &mut App)
        ensures
            final(app)@ == old(app)@.settled(old(self)@),
            final(self)@ == old(self)@.settled(),
    {
        if self.needs_queue_start {
            self.needs_queue_start = false;
            app.start_queue();
        }
        if self.session_died && !self.reconnected {
            if let Some(target) = &self.pool_target {
                app.redial(target.as_str());
                self.reconnected = true;
                self.session_died = false;
                self.pending_remote_ls = true;
            }
        }
    }
}

/// A session that died is dialed again at most once: whatever is reported
/// dead afterwards, no further dial follows.
pub proof fn a_dead_session_is_redialed_once(o: OverlayModel, lost: bool)
    requires
        o.redials(),
    ensures
        !o.settled().redials(),
        !o.settled().died(lost).redials(),
        !o.settled().died(lost).settled().redials(),
{
}

/// A listing of a directory that the panel has left since changes neither
/// panel and no message.
pub proof fn a_stale_listing_is_dropped(
    m: AppModel,
    side: PanelSide,
    path: Seq<char>,
    entries: Result<Seq<FileEntry>, Seq<char>>,
)
    requires
        !m.takes(side, path),
    ensures
        m.listed(side, path, entries).panes == m.panes,
        m.listed(side, path, entries).note == m.note,
{
    reveal(AppModel::listed);
}

/// The source of a cut is removed only once its copy has landed: after any
/// other end no request to delete follows.
pub proof fn a_cut_keeps_its_source_until_done(m: AppModel, status: StatusModel)
    requires
        status.state !is Done,
    ensures
        m.cut_done(status).out == m.out,
{
    reveal(AppModel::cut_done);
}

/// The browser and the loop's memory after the first `n` results.
pub open spec fn results_taken(
    app: AppModel,
    o: OverlayModel,
    results: Seq<OpResult>,
    n: int,
) -> (AppModel, OverlayModel)
    decreases n,
{
    if n <= 0 {
        (app, o)
    } else {
        let before = results_taken(app, o, results, n - 1);
        answered(before.0, before.1, results[n - 1])
    }
}

/// The browser and the loop's memory after the first `n` events of its
/// transfers.
pub open spec fn events_taken(
    app: AppModel,
    o: OverlayModel,
    events: Seq<EventModel>,
    n: int,
) -> (AppModel, OverlayModel)
    decreases n,
{
    if n <= 0 {
        (app, o)
    } else {
        let before = events_taken(app, o, events, n - 1);
        match events[n - 1] {
            EventModel::Updated => before,
            EventModel::Finished(status) => (
                before.0.transfer_done(status),
                before.1.died(
                    match status.state {
                        StateModel::Failed(e) => transfer_lost(e),
                        _ => false,
                    },
                ),
            ),
        }
    }
}

/// The samples that are left after the first `n` events: a finished
/// transfer's are dropped.
pub open spec fn samples_left(
    history: Map<u64, (u64, u64)>,
    events: Seq<EventModel>,
    n: int,
) -> Map<u64, (u64, u64)>
    decreases n,
{
    if n <= 0 {
        history
    } else {
        let before = samples_left(history, events, n - 1);
        match events[n - 1] {
            EventModel::Updated => before,
            EventModel::Finished(status) => before.remove(status.id),
        }
    }
}

impl AppModel {
    /// Events of the transfers that have not been looked at.
    pub open spec fn unseen(self) -> Seq<EventModel> {
        match self.queue.transfers {
            Some(t) => t.queue,
            None => Seq::empty(),
        }
    }

    /// The browser with the events of its transfers taken.
    pub open spec fn events_drained(self) -> AppModel {
        match self.queue.transfers {
            Some(t) => self.with_queue(
                QueueModel {
                    transfers: Some(ManagerModel { queue: Seq::empty(), ..t }),
                    ..self.queue
                },
            ),
            None => self,
        }
    }

    /// The browser before the next frame.
    pub open spec fn settled(self, o: OverlayModel) -> AppModel {
        let m = if o.needs_queue_start {
            self.queue_started()
        } else {
            self
        };
        if o.redials() {
            m.redialed(o.pool_target->0)
        } else {
            m
        }
    }
}

impl App {
    fn drain_events(&mut self) -> (r: Vec<TransferEvent>)
        ensures
            event_list(r@) == old(self)@.unseen(),
            final(self)@ == old(self)@.events_drained(),
    {
        match &mut self.transfers {
            Some(manager) => manager.events(),
            None => {
                let none: Vec<TransferEvent> = Vec::new();
                proof {
                    assert(event_list(none@) =~= Seq::empty());
                }
                none
            },
        }
    }
}

impl Overlay {
    /// Bring in the results of background operations, in order.
    pub fn take_results(&mut self, app: &mut App, results: Vec<OpResult>)
        ensures
            (final(app)@, final(self)@) == results_taken(
                old(app)@,
                old(self)@,
                results@,
                results@.len() as int,
            ),
    {
        let ghost all = results@;
        let ghost start = (app@, self@);
        let mut left = results;
        let ghost mut i: int = 0;
        proof {
            assert(all.skip(0) =~= all);
        }
        while left.len() > 0
            invariant
                0 <= i,
                i + left@.len() == all.len(),
                left@ == all.skip(i),
                (app@, self@) == results_taken(start.0, start.1, all, i),
            decreases left@.len(),
        {
            let result = left.remove(0);
            proof {
                assert(result == all[i]);
                assert(left@ =~= all.skip(i + 1));
            }
            self.handle_result(app, result);
            proof {
                i = i + 1;
            }
        }
    }

    /// Bring in what happened to the transfers, in order, so that new files
    /// appear without a manual reload. Tells whether anything happened.
    pub fn take_events(&mut self, app: &mut App, history: &mut TransferHistory) -> (r: bool)
        ensures
            r == (old(app)@.unseen().len() > 0),
            (final(app)@, final(self)@) == events_taken(
                old(app)@.events_drained(),
                old(self)@,
                old(app)@.unseen(),
                old(app)@.unseen().len() as int,
            ),
            final(history)@ == samples_left(
                old(history)@,
                old(app)@.unseen(),
                old(app)@.unseen().len() as int,
            ),
    {
        let events = app.drain_events();
        let ghost list = event_list(events@);
        let ghost start = (app@, self@, history@);
        let mut i: usize = 0;
        while i < events.len()
            invariant
                i <= events@.len(),
                list == event_list(events@),
                (app@, self@) == events_taken(start.0, start.1, list, i as int),
                history@ == samples_left(start.2, list, i as int),
            decreases events@.len() - i,
        {
            proof {
                assert(list[i as int] == events@[i as int]@);
            }
            if let TransferEvent::Finished(status) = &events[i] {
                history.forget(status.id);
                self.transfer_finished(app, status);
            }
            i += 1;
        }
        events.len() > 0
    }

    /// One round before the next frame: the results of background
    /// operations, then what happened to the transfers, then what follows
    /// from both. Tells whether there is anything new to draw.
    pub fn round(
        &mut self,
        app: &mut App,
        history: &mut TransferHistory,
        results: Vec<OpResult>,
    ) -> (redraw: bool)
        ensures
            ({
                let taken = results_taken(
                    old(app)@,
                    old(self)@,
                    results@,
                    results@.len() as int,
                );
                let events = taken.0.unseen();
                let seen = events_taken(
                    taken.0.events_drained(),
                    taken.1,
                    events,
                    events.len() as int,
                );
                &&& redraw == (results@.len() > 0 || events.len() > 0)
                &&& final(app)@ == seen.0.settled(seen.1)
                &&& final(self)@ == seen.1.settled()
                &&& final(history)@ == samples_left(old(history)@, events, events.len() as int)
            }),
    {
        let any = results.len() > 0;
        self.take_results(app, results);
        let news = self.take_events(app, history);
        self.settle(app);
        any || news
    }
}

/// Milliseconds to wait for input: short while something is under way.
pub fn poll_timeout(app: &App) -> (r: u64)
    ensures
        r == if app@.busy() {
            50u64
        } else {
            500
        },
{
    if app.is_busy() {
        50
    } else {
        500
    }
}

/// The first `n` unfinished transfers asked to stop.
pub open spec fn stopped(t: ManagerModel, n: int) -> Map<u64, bool>
    decreases n,
{
    if n <= 0 {
        t.cancels
    } else {
        let before = stopped(t, n - 1);
        let s = t.statuses[n - 1];
        if !s.state.terminal() && before.contains_key(s.id) {
            before.insert(s.id, true)
        } else {
            before
        }
    }
}

/// Ask every transfer that has not finished to stop, before the pane is
/// handed back.
pub fn cancel_all(manager: &mut TransferManager)
    ensures
        final(manager)@ == (ManagerModel {
            cancels: stopped(old(manager)@, old(manager)@.statuses.len() as int),
            ..old(manager)@
        }),
{
    let ghost start = manager@;
    let n: usize = manager.statuses.len();
    let mut i: usize = 0;
    while i < n
        invariant
            i <= n == manager.statuses@.len(),
            n == start.statuses.len(),
            manager@ == (ManagerModel { cancels: stopped(start, i as int), ..start }),
        decreases n - i,
    {
        proof {
            assert(start.statuses[i as int] == manager.statuses@[i as int]@);
        }
        if !manager.statuses[i].state.is_terminal() {
            let id: u64 = manager.statuses[i].id;
            manager.cancel(id);
        }
        i += 1;
    }
}

/// The overlay opens on the directories it was given: the local one is
/// listed in any case, the remote one where a session is there, and where
/// none is the target is dialed, once.
pub proof fn an_overlay_opens_as_configured(
    config: ConfigModel,
    words: Map<Seq<char>, Seq<char>>,
    cols: int,
    rows: int,
)
    ensures
        ({
            let m = AppModel::opened_with(config, words, cols, rows);
            let o = OverlayModel::opened_with(config);
            let start = match config.remote_start {
                Some(path) => path,
                None => ""@,
            };
            &&& m.panes.local.path == config.local_path
            &&& config.remote_start is Some ==> m.panes.remote.path == start
            &&& m.out.requests.len() > 0
            &&& m.out.requests[0] == (RequestModel::Ls {
                side: PanelSide::Local,
                path: config.local_path,
            })
            &&& m.link.session == config.session
            &&& m.queue.transfers is Some <==> config.session
            &&& m.link.label == config.remote_label
            &&& m.hand.sink == config.clipboard
            &&& m.frame.words == words
            &&& config.connect_target is None && config.session ==> m.out.requests == seq![
                m.out.requests[0],
                RequestModel::Ls { side: PanelSide::Remote, path: m.panes.remote.path },
            ]
            &&& config.connect_target is Some || !config.session ==> m.out.requests.len() == 1
            &&& match config.connect_target {
                Some(target) => m.out.effects.len() > 0 && m.out.effects.last() == (
                EffectModel::Connect { target }) && m.link.connecting is Some,
                None => m.link.connecting is None && m.out.effects == if config.session {
                    seq![EffectModel::MarkConnected]
                } else {
                    Seq::empty()
                },
            }
            &&& o.pool_target == config.reconnect_target
            &&& !o.reconnected && !o.session_died && !o.needs_queue_start
            &&& o.pending_remote_ls <==> !config.session && config.connect_target is Some
        }),
{
    reveal(AppModel::opened_with);
}

/// A new session is adopted with an engine of its own: the remote panel
/// goes to where the session landed unless it is somewhere already, the
/// first landing is remembered as home, and a listing that waited for the
/// session is asked for, once.
pub proof fn a_new_session_is_adopted(m: AppModel, o: OverlayModel, home: String)
    ensures
        ({
            let (r, p) = answered(m, o, OpResult::Connected { home });
            let path = if m.panes.remote.path.len() == 0 {
                home@
            } else {
                m.panes.remote.path
            };
            &&& r.link.session
            &&& r.link.connecting is None
            &&& r.link.home == Some(
                match m.link.home {
                    Some(h) => h,
                    None => home@,
                },
            )
            &&& r.queue.transfers is Some
            &&& r.queue.transfers->0.statuses.len() == 0
            &&& r.queue.transfers->0.jobs.len() == 0
            &&& r.panes.remote.path == path
            &&& r.panes.local == m.panes.local
            &&& r.panes.focus == PanelSide::Remote
            &&& r.out.requests == if o.pending_remote_ls {
                m.out.requests.push(RequestModel::Ls { side: PanelSide::Remote, path })
            } else {
                m.out.requests
            }
            &&& r.out.effects == m.out.effects + seq![
                EffectModel::MarkConnected,
                EffectModel::UpdateCwd { path: home@ },
            ]
            &&& r.queue.pending == m.queue.pending
            &&& p == (OverlayModel { pending_remote_ls: false, ..o })
        }),
{
    reveal(AppModel::connected);
    let (r, p) = answered(m, o, OpResult::Connected { home });
    assert(r.out.effects =~= m.out.effects + seq![
        EffectModel::MarkConnected,
        EffectModel::UpdateCwd { path: home@ },
    ]);
}

/// Questions of the handshake put their own prompt on screen, with an empty
/// line; a handshake that failed is told and asks nothing.
pub proof fn the_handshake_asks_its_questions(
    m: AppModel,
    o: OverlayModel,
    username: String,
    prompt: String,
    message: String,
    err: String,
)
    ensures
        ({
            let a = answered(m, o, OpResult::NeedsAuth { username, prompt });
            let b = answered(m, o, OpResult::NeedsHostVerify { message });
            let c = answered(m, o, OpResult::ConnectFailed(err));
            &&& a.0.queue == (QueueModel {
                mode: Some(ModeModel::Password { username: username@, prompt: prompt@ }),
                ..m.queue
            })
            &&& a.0.link.auth_reply == Some(AuthReply::Password)
            &&& a.0.line.len() == 0
            &&& b.0.queue == (QueueModel {
                mode: Some(ModeModel::ConfirmHostKey { message: message@ }),
                ..m.queue
            })
            &&& b.0.link.auth_reply == Some(AuthReply::HostVerify)
            &&& b.0.line.len() == 0
            &&& c.0.link.connecting is None
            &&& c.0.note.error == Some(err@)
            &&& c.0.queue == m.queue
            &&& a.0.out == m.out && b.0.out == m.out && c.0.out == m.out
            &&& a.0.panes == m.panes && b.0.panes == m.panes && c.0.panes == m.panes
            &&& a.1 == o && b.1 == o && c.1 == o
        }),
{
}

/// A listing that the panel waits for is shown in that panel and no other,
/// and its directory is remembered; one that failed is told and leaves the
/// entries as they were.
pub proof fn a_listing_is_shown_in_its_panel(
    m: AppModel,
    o: OverlayModel,
    side: PanelSide,
    path: String,
    entries: Result<Vec<FileEntry>, String>,
)
    requires
        m.panes.panel_of(side).path == path@ || m.panes.panel_of(side).path.len() == 0,
    ensures
        ({
            let (r, p) = answered(m, o, OpResult::Listed { side, path, entries });
            let (before, after, other) = if side == PanelSide::Local {
                (m.panes.local, r.panes.local, r.panes.remote == m.panes.remote)
            } else {
                (m.panes.remote, r.panes.remote, r.panes.local == m.panes.local)
            };
            &&& other
            &&& r.panes.focus == m.panes.focus
            &&& after.path == path@
            &&& match entries {
                Ok(list) => after.all_entries == sorted(
                    if before.show_hidden {
                        list@
                    } else {
                        list@.filter(
                            |e: FileEntry| !(e.name@.len() > 0 && e.name@[0] == '.'),
                        )
                    },
                ) && after.marked.is_empty() && after.cursor == 0 && after.show_hidden
                    == before.show_hidden && after.filter == before.filter && (
                before.filter is None ==> after.entries == after.all_entries),
                Err(e) => after.entries == before.entries && after.marked == before.marked
                    && after.visited == before.visited && r.note.error == Some(e@),
            }
            &&& r.out.requests == m.out.requests
            &&& r.out.effects == if side == PanelSide::Remote {
                m.out.effects.push(EffectModel::UpdateCwd { path: path@ })
            } else {
                m.out.effects
            }
            &&& r.link.home == if side == PanelSide::Remote && entries is Ok && m.link.home is None {
                Some(path@)
            } else {
                m.link.home
            }
            &&& p.session_died == (o.session_died || (side == PanelSide::Remote && match entries {
                Ok(_) => false,
                Err(e) => session_lost(e@),
            }))
            &&& r.queue == m.queue
        }),
{
    reveal(AppModel::listed);
}

/// A fetched preview is opened from where it was fetched to, and while a
/// session is there its own source is watched for it; one that could not be
/// fetched is told and opens nothing.
pub proof fn a_fetched_preview_is_opened(
    m: AppModel,
    o: OverlayModel,
    source: String,
    dest: String,
    outcome: Result<u64, String>,
    stamp: Option<RemoteStamp>,
)
    ensures
        ({
            let (r, p) = answered(m, o, OpResult::Opened { source, dest, outcome, stamp });
            &&& match outcome {
                Ok(bytes) => r.out.effects == (if m.link.session {
                    m.out.effects.push(
                        EffectModel::Watch { source: source@, dest: dest@, stamp },
                    )
                } else {
                    m.out.effects
                }).push(EffectModel::OpenPreview { dest: dest@, bytes }) && p == o,
                Err(e) => r.out.effects == m.out.effects && r.note.error == Some(
                    "open failed: "@ + e@,
                ) && p.session_died == (o.session_died || session_lost(e@)),
            }
            &&& r.out.requests == m.out.requests
            &&& r.queue == m.queue
            &&& r.panes == m.panes
        }),
{
}

/// A walked folder as it is queued: every file from where it is to its own
/// place below the folder at the destination.
pub open spec fn walked_file(
    side: PanelSide,
    dest_side: PanelSide,
    dest: Seq<char>,
    cut: bool,
    f: ScanFileModel,
) -> PendingModel {
    PendingModel {
        direction: if side == PanelSide::Local && dest_side == PanelSide::Remote {
            Direction::Upload
        } else if side == PanelSide::Remote && dest_side == PanelSide::Local {
            Direction::Download
        } else {
            Direction::Copy
        },
        source: f.abs,
        dest: path_in(dest, f.rel),
        size: f.size,
        dest_size: None,
        cut_source: cut,
    }
}

proof fn lemma_scans_queued(
    q: QueueModel,
    files: Seq<ScanFileModel>,
    side: PanelSide,
    dest_side: PanelSide,
    dest: Seq<char>,
    cut: bool,
    n: int,
)
    requires
        0 <= n <= files.len(),
    ensures
        AppModel::scans_queued(q, files, between(side, dest_side), dest, cut, n) == (QueueModel {
            pending: q.pending + Seq::new(
                n as nat,
                |i: int| walked_file(side, dest_side, dest, cut, files[i]),
            ),
            ..q
        }),
    decreases n,
{
    let f = |i: int| walked_file(side, dest_side, dest, cut, files[i]);
    let r = AppModel::scans_queued(q, files, between(side, dest_side), dest, cut, n);
    if n > 0 {
        lemma_scans_queued(q, files, side, dest_side, dest, cut, n - 1);
    }
    assert(r.pending =~= q.pending + Seq::new(n as nat, f));
}

/// A walked folder queues one transfer of every file that was found, in
/// order, and has the queue started; a walk that failed queues nothing.
pub proof fn a_walked_folder_is_queued(
    m: AppModel,
    o: OverlayModel,
    side: PanelSide,
    root: String,
    dest: String,
    dest_side: PanelSide,
    cut_source: bool,
    files: Result<Vec<ScanFile>, String>,
)
    ensures
        ({
            let (r, p) = answered(
                m,
                o,
                OpResult::Scanned { side, root, dest, dest_side, cut_source, files },
            );
            &&& match files {
                Ok(list) => r.queue == (QueueModel {
                    pending: m.queue.pending + Seq::new(
                        list@.len(),
                        |i: int| walked_file(side, dest_side, dest@, cut_source, list@[i]@),
                    ),
                    ..m.queue
                }) && p == (OverlayModel { needs_queue_start: true, ..o }),
                Err(e) => r.queue == m.queue && p == o && r.note.error == Some(
                    "scan failed: "@ + e@,
                ),
            }
            &&& r.out == m.out
            &&& r.panes == m.panes
        }),
{
    if let Ok(list) = files {
        let all = scanned_list(list@);
        let n = list@.len() as int;
        lemma_scans_queued(m.queue, all, side, dest_side, dest@, cut_source, n);
        assert(Seq::new(
            list@.len(),
            |i: int| walked_file(side, dest_side, dest@, cut_source, list@[i]@),
        ) =~= Seq::new(
            n as nat,
            |i: int| walked_file(side, dest_side, dest@, cut_source, all[i]),
        ));
    }
}

/// After a change on one side that side is listed again; after one that
/// failed nothing is, and the error is told.
pub proof fn a_change_is_listed_again(
    m: AppModel,
    o: OverlayModel,
    side: PanelSide,
    outcome: Result<(), String>,
)
    ensures
        ({
            let (r, p) = answered(m, o, OpResult::Mutated { side, outcome });
            &&& match outcome {
                Ok(()) => r.out.requests == m.out.requests.push(
                    RequestModel::Ls {
                        side,
                        path: if side == PanelSide::Local {
                            m.panes.local.path
                        } else {
                            m.panes.remote.path
                        },
                    },
                ),
                Err(e) => r.out.requests == m.out.requests && r.note.error == Some(e@),
            }
            &&& r.panes == m.panes
            &&& r.queue == m.queue
            &&& p == o
        }),
{
}

proof fn lemma_cut_position(list: Seq<(u64, PanelSide, Seq<char>, bool)>, id: u64)
    ensures
        0 <= cut_position(list, id) <= list.len(),
        cut_position(list, id) < list.len() ==> list[cut_position(list, id)].0 == id,
        forall|i: int| 0 <= i < cut_position(list, id) ==> (#[trigger] list[i]).0 != id,
    decreases list.len(),
{
    if list.len() > 0 && list[0].0 != id {
        lemma_cut_position(list.skip(1), id);
        assert forall|i: int| 0 <= i < cut_position(list, id) implies (#[trigger] list[i]).0
            != id by {
            if i > 0 {
                assert(list.skip(1)[i - 1] == list[i]);
            }
        }
    }
}

/// A cut whose copy landed removes exactly its own source, on the side it
/// was read from; the cuts that wait for other transfers go on waiting, and
/// a transfer that was no cut removes nothing.
pub proof fn a_landed_cut_removes_its_own_source(m: AppModel, status: StatusModel, i: int)
    requires
        0 <= i < m.queue.cut_pending.len(),
        m.queue.cut_pending[i].0 == status.id,
        forall|j: int| 0 <= j < i ==> (#[trigger] m.queue.cut_pending[j]).0 != status.id,
    ensures
        ({
            let r = m.cut_done(status);
            let (id, side, path, is_dir) = m.queue.cut_pending[i];
            &&& status.state is Done ==> r.out.requests == m.out.requests.push(
                RequestModel::Delete { side, path, is_dir },
            )
            &&& status.state !is Done ==> r.out.requests == m.out.requests
            &&& r.queue == (QueueModel { cut_pending: m.queue.cut_pending.remove(i), ..m.queue })
            &&& r.panes == m.panes
            &&& r.out.effects == m.out.effects
        }),
{
    reveal(AppModel::cut_done);
    lemma_cut_position(m.queue.cut_pending, status.id);
    let at = cut_position(m.queue.cut_pending, status.id);
    assert(at == i) by {
        if at > i {
            assert(m.queue.cut_pending[i].0 != status.id);
        }
        if at < i {
            assert(m.queue.cut_pending[at].0 == status.id);
        }
    }
}

/// A transfer that no cut waits for removes nothing.
pub proof fn a_copy_removes_nothing(m: AppModel, status: StatusModel)
    requires
        forall|j: int|
            0 <= j < m.queue.cut_pending.len() ==> (#[trigger] m.queue.cut_pending[j]).0
                != status.id,
    ensures
        m.cut_done(status) == m,
{
    reveal(AppModel::cut_done);
    lemma_cut_position(m.queue.cut_pending, status.id);
}

/// A finished transfer has the side that it wrote listed again, while a
/// session is there: the local side after a download, the remote side after
/// anything else.  A download that was to be shown is shown once it landed,
/// at its own path.
pub proof fn a_finished_transfer_is_seen(m: AppModel, status: StatusModel)
    requires
        forall|j: int|
            0 <= j < m.queue.cut_pending.len() ==> (#[trigger] m.queue.cut_pending[j]).0
                != status.id,
    ensures
        ({
            let r = m.transfer_done(status);
            &&& r.out.requests == if m.link.session {
                m.out.requests.push(
                    if status.direction is Download {
                        RequestModel::Ls { side: PanelSide::Local, path: m.panes.local.path }
                    } else {
                        RequestModel::Ls { side: PanelSide::Remote, path: m.panes.remote.path }
                    },
                )
            } else {
                m.out.requests
            }
            &&& match m.hand.reveal {
                Some((id, path)) => if id == status.id {
                    &&& r.hand.reveal is None
                    &&& r.out.effects == if status.state is Done {
                        m.out.effects.push(EffectModel::Reveal { path })
                    } else {
                        m.out.effects
                    }
                } else {
                    r.hand == m.hand && r.out.effects == m.out.effects
                },
                None => r.hand == m.hand && r.out.effects == m.out.effects,
            }
            &&& r.queue == m.queue
            &&& r.panes == m.panes
        }),
{
    a_copy_removes_nothing(m, status);
    reveal(AppModel::reveal_done);
}

/// A dead session is given up before its target is dialed again: it is
/// evicted, its engine is gone, and the dial goes to the target that it was
/// reached at.
pub proof fn a_redial_gives_the_dead_session_up(m: AppModel, o: OverlayModel)
    requires
        o.session_died,
        !o.reconnected,
        o.pool_target is Some,
        !o.needs_queue_start,
    ensures
        ({
            let r = m.settled(o);
            let target = o.pool_target->0;
            &&& r.out.effects == (if m.link.session {
                m.out.effects.push(EffectModel::Evict { target })
            } else {
                m.out.effects
            }).push(EffectModel::MarkDisconnected).push(EffectModel::Connect { target })
            &&& !r.link.session
            &&& r.link.connecting is Some
            &&& r.queue.transfers is None
            &&& r.panes == m.panes
            &&& r.out.requests == m.out.requests
            &&& o.settled().reconnected
            &&& o.settled().pending_remote_ls
            &&& !o.settled().session_died
        }),
{
    reveal(AppModel::redialed);
}

/// Without a death, without a known target or after one redial nothing is
/// dialed; what was queued is started where that was asked for.
pub proof fn a_quiet_round_only_starts_the_queue(m: AppModel, o: OverlayModel)
    requires
        !o.session_died || o.reconnected || o.pool_target is None,
    ensures
        m.settled(o).out == m.out,
        m.settled(o).link == m.link,
        o.needs_queue_start ==> m.settled(o).queue.transfers == m.queue.readied().transfers
            && m.settled(o).queue.pending == m.queue.readied().pending
            && m.settled(o).queue.cut_pending == m.queue.readied().cut_pending,
        o.needs_queue_start && m.queue.mode is None && m.queue.readied().pending.len() > 0
            ==> m.settled(o).queue.mode == Some(ModeModel::ConfirmOverwrite),
        !o.needs_queue_start ==> m.settled(o) == m,
        !o.settled().needs_queue_start,
        o.settled().reconnected == o.reconnected,
        o.settled().pool_target == o.pool_target,
{
    reveal(AppModel::queue_started);
    if m.queue.mode is None {
        whatever_waits_is_asked(m.queue);
    }
}

/// Results are taken one after the other: one more is that answer to what
/// the others made of the browser, and none leaves it as it was.
pub proof fn results_are_taken_in_order(
    m: AppModel,
    o: OverlayModel,
    results: Seq<OpResult>,
    r: OpResult,
)
    ensures
        results_taken(m, o, Seq::empty(), 0) == (m, o),
        ({
            let n = results.len() as int;
            let before = results_taken(m, o, results, n);
            results_taken(m, o, results.push(r), n + 1) == answered(before.0, before.1, r)
        }),
{
    let n = results.len() as int;
    lemma_results_prefix(m, o, results, r, n);
    assert(results.push(r)[n] == r);
}

proof fn lemma_results_prefix(
    m: AppModel,
    o: OverlayModel,
    results: Seq<OpResult>,
    r: OpResult,
    n: int,
)
    requires
        0 <= n <= results.len(),
    ensures
        results_taken(m, o, results.push(r), n) == results_taken(m, o, results, n),
    decreases n,
{
    if n > 0 {
        lemma_results_prefix(m, o, results, r, n - 1);
        assert(results.push(r)[n - 1] == results[n - 1]);
    }
}

/// Every finished transfer among the events is dealt with, in order, and
/// wake-ups change nothing; the samples of exactly the finished ones go.
pub proof fn events_are_taken_in_order(
    m: AppModel,
    o: OverlayModel,
    events: Seq<EventModel>,
    samples: Map<u64, (u64, u64)>,
    status: StatusModel,
)
    ensures
        ({
            let n = events.len() as int;
            let before = events_taken(m, o, events, n);
            let more = events.push(EventModel::Finished(status));
            let woken = events.push(EventModel::Updated);
            let after = events_taken(m, o, more, n + 1);
            &&& events_taken(m, o, Seq::empty(), 0) == (m, o)
            &&& after.0 == before.0.transfer_done(status)
            &&& after.1.session_died == (before.1.session_died || match status.state {
                StateModel::Failed(e) => transfer_lost(e),
                _ => false,
            })
            &&& events_taken(m, o, woken, n + 1) == before
            &&& samples_left(samples, more, n + 1) == samples_left(samples, events, n).remove(
                status.id,
            )
            &&& samples_left(samples, woken, n + 1) == samples_left(samples, events, n)
        }),
{
    let n = events.len() as int;
    lemma_events_prefix(m, o, events, EventModel::Finished(status), samples, n);
    lemma_events_prefix(m, o, events, EventModel::Updated, samples, n);
}

proof fn lemma_events_prefix(
    m: AppModel,
    o: OverlayModel,
    events: Seq<EventModel>,
    e: EventModel,
    samples: Map<u64, (u64, u64)>,
    n: int,
)
    requires
        0 <= n <= events.len(),
    ensures
        events_taken(m, o, events.push(e), n) == events_taken(m, o, events, n),
        samples_left(samples, events.push(e), n) == samples_left(samples, events, n),
    decreases n,
{
    if n > 0 {
        lemma_events_prefix(m, o, events, e, samples, n - 1);
        assert(events.push(e)[n - 1] == events[n - 1]);
    }
}

/// Before the pane is handed back every transfer that has not finished is
/// asked to stop, and no other flag changes.
pub proof fn every_open_transfer_is_stopped(t: ManagerModel, n: int, id: u64)
    requires
        0 <= n <= t.statuses.len(),
    ensures
        stopped(t, n).dom() == t.cancels.dom(),
        t.cancels.contains_key(id) && (exists|i: int|
            0 <= i < n && (#[trigger] t.statuses[i]).id == id && !t.statuses[i].state.terminal())
            ==> stopped(t, n)[id],
        t.cancels.contains_key(id) && !(exists|i: int|
            0 <= i < n && (#[trigger] t.statuses[i]).id == id && !t.statuses[i].state.terminal())
            ==> stopped(t, n)[id] == t.cancels[id],
    decreases n,
{
    if n > 0 {
        every_open_transfer_is_stopped(t, n - 1, id);
        let s = t.statuses[n - 1];
        assert(stopped(t, n).dom() =~= t.cancels.dom());
        if s.id == id && !s.state.terminal() && t.cancels.contains_key(id) {
            assert(stopped(t, n - 1).contains_key(id));
        }
    }
}

} // verus!

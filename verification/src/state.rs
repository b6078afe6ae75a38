//! State of the dual-pane browser: both panels, what is queued, and the
//! background work it has asked for.

use crate::edit_sync::RemoteStamp;
use crate::i18n::Table;
use crate::panel::{larger, Panel, PanelModel};
use crate::paths::opt;
use crate::text::texts;
use crate::transfer::{Direction, ManagerModel, TransferManager};
use crate::types::{PanelSide, SftpPalette};
use std::sync::Arc;
use vstd::prelude::*;
use vstd::string::*;

verus! {

/// One file discovered by a recursive tree scan.
#[derive(Debug)]
pub struct ScanFile {
    /// Absolute path on its side (local path or remote path).
    pub abs: String,
    /// Path relative to the scan root.
    pub rel: String,
    pub size: u64,
}

/// A scanned file with its paths as characters.
pub struct ScanFileModel {
    pub abs: Seq<char>,
    pub rel: Seq<char>,
    pub size: u64,
}

impl View for ScanFile {
    type V = ScanFileModel;

    open spec fn view(&self) -> ScanFileModel {
        ScanFileModel { abs: self.abs@, rel: self.rel@, size: self.size }
    }
}

impl Clone for ScanFile {
    fn clone(&self) -> (r: Self)
        ensures
            r == *self,
    {
        ScanFile { abs: self.abs.clone(), rel: self.rel.clone(), size: self.size }
    }
}

/// A folder waiting for the recursive-transfer confirmation.
#[derive(Debug)]
pub struct ScanRequest {
    /// Side holding the folder.
    pub side: PanelSide,
    /// Absolute path of the folder being copied.
    pub root: String,
    /// Directory the contents land in.
    pub dest: String,
    /// Side holding that directory.
    pub dest_side: PanelSide,
    /// Remove the source tree once the copy lands (a cut).
    pub cut_source: bool,
}

/// A folder request with its paths as characters.
pub struct ScanModel {
    pub side: PanelSide,
    pub root: Seq<char>,
    pub dest: Seq<char>,
    pub dest_side: PanelSide,
    pub cut_source: bool,
}

impl View for ScanRequest {
    type V = ScanModel;

    open spec fn view(&self) -> ScanModel {
        ScanModel {
            side: self.side,
            root: self.root@,
            dest: self.dest@,
            dest_side: self.dest_side,
            cut_source: self.cut_source,
        }
    }
}

impl Clone for ScanRequest {
    fn clone(&self) -> (r: Self)
        ensures
            r == *self,
    {
        ScanRequest {
            side: self.side,
            root: self.root.clone(),
            dest: self.dest.clone(),
            dest_side: self.dest_side,
            cut_source: self.cut_source,
        }
    }
}

/// A background job request handed to the worker thread.
#[derive(Debug)]
pub enum OpRequest {
    Ls { side: PanelSide, path: String },
    /// Recursively enumerate files under `root` on `side`, to be written
    /// under `dest` on `dest_side` (the two sides differ for F5, and are
    /// the same for pasting a copied folder).
    ScanTree {
        side: PanelSide,
        root: String,
        dest: String,
        dest_side: PanelSide,
        cut_source: bool,
    },
    /// Download a remote file to `dest`, a path below the preview cache,
    /// using the worker's current session, so opening a file never rides a
    /// stale transfer channel.
    OpenRemote { source: String, dest: String },
    Rename { side: PanelSide, from: String, to: String },
    /// Create an empty file or a directory.
    Create { side: PanelSide, path: String, is_dir: bool },
    /// Copy or move a local file or tree to a local path.
    LocalCopy { from: String, to: String, cut: bool },
    Delete { side: PanelSide, path: String, is_dir: bool },
}

/// A request with its paths as characters.
pub enum RequestModel {
    Ls { side: PanelSide, path: Seq<char> },
    ScanTree {
        side: PanelSide,
        root: Seq<char>,
        dest: Seq<char>,
        dest_side: PanelSide,
        cut_source: bool,
    },
    OpenRemote { source: Seq<char>, dest: Seq<char> },
    Rename { side: PanelSide, from: Seq<char>, to: Seq<char> },
    Create { side: PanelSide, path: Seq<char>, is_dir: bool },
    LocalCopy { from: Seq<char>, to: Seq<char>, cut: bool },
    Delete { side: PanelSide, path: Seq<char>, is_dir: bool },
}

impl View for OpRequest {
    type V = RequestModel;

    open spec fn view(&self) -> RequestModel {
        match *self {
            OpRequest::Ls { side, path } => RequestModel::Ls { side, path: path@ },
            OpRequest::ScanTree { side, root, dest, dest_side, cut_source } =>
                RequestModel::ScanTree {
                side,
                root: root@,
                dest: dest@,
                dest_side,
                cut_source,
            },
            OpRequest::OpenRemote { source, dest } => RequestModel::OpenRemote {
                source: source@,
                dest: dest@,
            },
            OpRequest::Rename { side, from, to } => RequestModel::Rename {
                side,
                from: from@,
                to: to@,
            },
            OpRequest::Create { side, path, is_dir } => RequestModel::Create {
                side,
                path: path@,
                is_dir,
            },
            OpRequest::LocalCopy { from, to, cut } => RequestModel::LocalCopy {
                from: from@,
                to: to@,
                cut,
            },
            OpRequest::Delete { side, path, is_dir } => RequestModel::Delete {
                side,
                path: path@,
                is_dir,
            },
        }
    }
}

/// What the browser wants done besides background requests.
#[derive(Debug)]
pub enum Effect {
    /// Open a local file with its default application.
    OpenLocal { path: String },
    /// Put a text on the system clipboard.
    CopyText { text: String },
    /// Answer the handshake's password prompt.
    AnswerPassword { password: Option<String> },
    /// Answer the handshake's trust prompt.
    AnswerHostKey { trust: bool },
    /// Find a free name in the download folder for this remote file.
    ResolveDownload { source: String, name: String },
    /// Show a downloaded file in its folder.
    Reveal { path: String },
    /// Keep an opened remote file in step with its local copy.
    Watch { source: String, dest: String, stamp: Option<RemoteStamp> },
    /// Open a preview copy with its default application.
    OpenPreview { dest: String, bytes: u64 },
    /// Drop the pooled session to this target.
    Evict { target: String },
    /// Dial this target.
    Connect { target: String },
    /// The overlay's remote side is online.
    MarkConnected,
    /// The overlay's remote side is gone.
    MarkDisconnected,
    /// The overlay's remote side shows this directory.
    UpdateCwd { path: String },
}

/// An effect with its texts as characters.
pub enum EffectModel {
    OpenLocal { path: Seq<char> },
    CopyText { text: Seq<char> },
    AnswerPassword { password: Option<Seq<char>> },
    AnswerHostKey { trust: bool },
    ResolveDownload { source: Seq<char>, name: Seq<char> },
    Reveal { path: Seq<char> },
    Watch { source: Seq<char>, dest: Seq<char>, stamp: Option<RemoteStamp> },
    OpenPreview { dest: Seq<char>, bytes: u64 },
    Evict { target: Seq<char> },
    Connect { target: Seq<char> },
    MarkConnected,
    MarkDisconnected,
    UpdateCwd { path: Seq<char> },
}

impl View for Effect {
    type V = EffectModel;

    open spec fn view(&self) -> EffectModel {
        match *self {
            Effect::OpenLocal { path } => EffectModel::OpenLocal { path: path@ },
            Effect::CopyText { text } => EffectModel::CopyText { text: text@ },
            Effect::AnswerPassword { password } => EffectModel::AnswerPassword {
                password: opt(password),
            },
            Effect::AnswerHostKey { trust } => EffectModel::AnswerHostKey { trust },
            Effect::ResolveDownload { source, name } => EffectModel::ResolveDownload {
                source: source@,
                name: name@,
            },
            Effect::Reveal { path } => EffectModel::Reveal { path: path@ },
            Effect::Watch { source, dest, stamp } => EffectModel::Watch {
                source: source@,
                dest: dest@,
                stamp,
            },
            Effect::OpenPreview { dest, bytes } => EffectModel::OpenPreview { dest: dest@, bytes },
            Effect::Evict { target } => EffectModel::Evict { target: target@ },
            Effect::Connect { target } => EffectModel::Connect { target: target@ },
            Effect::MarkConnected => EffectModel::MarkConnected,
            Effect::MarkDisconnected => EffectModel::MarkDisconnected,
            Effect::UpdateCwd { path } => EffectModel::UpdateCwd { path: path@ },
        }
    }
}

/// Which prompt of the handshake is waiting for an answer.
#[derive(Clone, Copy, Debug, PartialEq, Eq, Structural)]
pub enum AuthReply {
    Password,
    HostVerify,
}

/// Input-line modes overlaying the status row.
#[derive(Debug)]
pub enum InputMode {
    /// A new entry: a directory, or a file unless a slash says otherwise.
    Create { directory: bool },
    Rename { original: String },
    ConfirmDelete { names: Vec<String> },
    /// Masked password entry for the ssh handshake.
    Password { username: String, prompt: String },
    /// Unknown-host trust decision with the fingerprint message.
    ConfirmHostKey { message: String },
    /// A queued transfer hits an existing destination; the user picks
    /// overwrite / skip / resume, or applies a decision to all.
    ConfirmOverwrite,
    /// Recursive folder transfer confirmation before scanning.
    ConfirmFolder { side: PanelSide, name: String },
    /// Live substring filter over the current listing.
    Filter,
    /// Type a path to jump to.
    JumpTo,
    /// The next key names the first character to jump to.
    JumpToChar,
}

/// A mode with its texts as characters.
pub enum ModeModel {
    Create { directory: bool },
    Rename { original: Seq<char> },
    ConfirmDelete { names: Seq<Seq<char>> },
    Password { username: Seq<char>, prompt: Seq<char> },
    ConfirmHostKey { message: Seq<char> },
    ConfirmOverwrite,
    ConfirmFolder { side: PanelSide, name: Seq<char> },
    Filter,
    JumpTo,
    JumpToChar,
}

impl View for InputMode {
    type V = ModeModel;

    open spec fn view(&self) -> ModeModel {
        match *self {
            InputMode::Create { directory } => ModeModel::Create { directory },
            InputMode::Rename { original } => ModeModel::Rename { original: original@ },
            InputMode::ConfirmDelete { names } => ModeModel::ConfirmDelete {
                names: texts(names@),
            },
            InputMode::Password { username, prompt } => ModeModel::Password {
                username: username@,
                prompt: prompt@,
            },
            InputMode::ConfirmHostKey { message } => ModeModel::ConfirmHostKey {
                message: message@,
            },
            InputMode::ConfirmOverwrite => ModeModel::ConfirmOverwrite,
            InputMode::ConfirmFolder { side, name } => ModeModel::ConfirmFolder {
                side,
                name: name@,
            },
            InputMode::Filter => ModeModel::Filter,
            InputMode::JumpTo => ModeModel::JumpTo,
            InputMode::JumpToChar => ModeModel::JumpToChar,
        }
    }
}

/// Paths copied or cut in the browser, waiting for a paste.
#[derive(Debug)]
pub struct Clipboard {
    pub side: PanelSide,
    /// (absolute path, is directory, size)
    pub items: Vec<(String, bool, u64)>,
    pub cut: bool,
}

/// A clipboard with its paths as characters.
#[verifier::ext_equal]
pub struct ClipModel {
    pub side: PanelSide,
    pub items: Seq<(Seq<char>, bool, u64)>,
    pub cut: bool,
}

/// The items of a clipboard with their paths as characters.
pub open spec fn item_list(v: Seq<(String, bool, u64)>) -> Seq<(Seq<char>, bool, u64)> {
    v.map_values(|i: (String, bool, u64)| (i.0@, i.1, i.2))
}

impl View for Clipboard {
    type V = ClipModel;

    open spec fn view(&self) -> ClipModel {
        ClipModel { side: self.side, items: item_list(self.items@), cut: self.cut }
    }
}

impl Clone for Clipboard {
    fn clone(&self) -> (r: Self)
        ensures
            r@ == self@,
            r.cut == self.cut,
            r.side == self.side,
    {
        let mut items: Vec<(String, bool, u64)> = Vec::new();
        let mut i: usize = 0;
        proof {
            assert(item_list(items@) =~= self@.items.take(0));
        }
        while i < self.items.len()
            invariant
                i <= self.items@.len(),
                item_list(items@) == self@.items.take(i as int),
            decreases self.items@.len() - i,
        {
            let ghost before = item_list(items@);
            items.push((self.items[i].0.clone(), self.items[i].1, self.items[i].2));
            proof {
                assert(item_list(items@) =~= before.push(self@.items[i as int]));
                assert(item_list(items@) =~= self@.items.take(i + 1));
            }
            i += 1;
        }
        proof {
            assert(self@.items.take(i as int) =~= self@.items);
        }
        Clipboard { side: self.side, items, cut: self.cut }
    }
}

/// A transfer waiting for an overwrite decision.
#[derive(Debug)]
pub struct PendingTransfer {
    pub direction: Direction,
    pub source: String,
    pub dest: String,
    /// Size of the source file.
    pub size: u64,
    /// Size of the existing destination file, if any.
    pub dest_size: Option<u64>,
    /// The source is removed once this transfer lands (a cut).
    pub cut_source: bool,
}

/// A waiting transfer with its paths as characters.
pub struct PendingModel {
    pub direction: Direction,
    pub source: Seq<char>,
    pub dest: Seq<char>,
    pub size: u64,
    pub dest_size: Option<u64>,
    pub cut_source: bool,
}

impl View for PendingTransfer {
    type V = PendingModel;

    open spec fn view(&self) -> PendingModel {
        PendingModel {
            direction: self.direction,
            source: self.source@,
            dest: self.dest@,
            size: self.size,
            dest_size: self.dest_size,
            cut_source: self.cut_source,
        }
    }
}

impl Clone for PendingTransfer {
    fn clone(&self) -> (r: Self)
        ensures
            r == *self,
    {
        PendingTransfer {
            direction: self.direction,
            source: self.source.clone(),
            dest: self.dest.clone(),
            size: self.size,
            dest_size: self.dest_size,
            cut_source: self.cut_source,
        }
    }
}

impl PendingModel {
    pub open spec fn can_resume(self) -> bool {
        match self.dest_size {
            Some(d) => d < self.size,
            None => false,
        }
    }
}

impl PendingTransfer {
    /// A partial destination can be completed instead of restarted.
    pub fn resumable(&self) -> (r: bool)
        ensures
            r == self@.can_resume(),
    {
        match self.dest_size {
            Some(d) => d < self.size,
            None => false,
        }
    }
}

/// The browser.
pub struct App {
    pub cols: usize,
    pub rows: usize,
    pub palette: SftpPalette,
    /// The translations of this run.
    pub words: Arc<Table>,
    pub local: Panel,
    pub remote: Panel,
    pub focus: PanelSide,
    /// There is a session to the remote side.
    pub session: bool,
    pub transfers: Option<TransferManager>,
    /// Human-readable remote target, e.g. `user@host`.
    pub remote_label: String,
    /// Directory the remote session started in.
    pub remote_home: Option<String>,
    pub connecting: Option<String>,
    pub message: Option<String>,
    pub error: Option<String>,
    pub input_mode: Option<InputMode>,
    pub input_line: String,
    /// The auth/host-verify prompt that is waiting for an answer.
    pub auth_reply: Option<AuthReply>,
    /// Last mouse click (side, entry index, milliseconds) for double-click
    /// detection.
    pub last_click: Option<(PanelSide, usize, u64)>,
    /// Transfers waiting for an overwrite decision.
    pub pending: Vec<PendingTransfer>,
    /// Folders awaiting a recursive-transfer confirmation.
    pub scan_queue: Vec<ScanRequest>,
    /// Applied-to-all overwrite decision: Some(true) = overwrite every
    /// remaining conflict, Some(false) = skip them all.
    pub overwrite_all: Option<bool>,
    /// Whether the left mouse button was held by the previous mouse event.
    /// A click is the false-to-true edge of this, so a drag (press, moves,
    /// release) counts once and the release never counts.
    pub mouse_left_down: bool,
    /// A download to the user's download folder: reveal it when the
    /// transfer with this id finishes.
    pub pending_reveal: Option<(u64, String)>,
    /// The key reference is on screen.
    pub help: bool,
    /// Paths yanked with `y`/`x`, waiting for `p`.
    pub clipboard: Option<Clipboard>,
    /// There is a system clipboard to write to.
    pub clipboard_sink: bool,
    /// Transfers that should remove their source once they land (a cut).
    /// (transfer id, side, path, is_dir)
    pub cut_pending: Vec<(u64, PanelSide, String, bool)>,
    pub quit: bool,
    pub pending_g: bool,
    pub pending_c: bool,
    /// Requests the worker has not been handed yet.
    pub requests: Vec<OpRequest>,
    /// Effects that have not taken place yet.
    pub effects: Vec<Effect>,
}

/// The screen.
pub struct FrameModel {
    pub cols: int,
    pub rows: int,
    pub palette: SftpPalette,
    /// Translations by their English text.
    pub words: Map<Seq<char>, Seq<char>>,
}

/// Both panels.
pub struct PanesModel {
    pub local: PanelModel,
    pub remote: PanelModel,
    pub focus: PanelSide,
}

/// The connection to the remote side.
pub struct LinkModel {
    pub session: bool,
    pub label: Seq<char>,
    pub home: Option<Seq<char>>,
    pub connecting: Option<Seq<char>>,
    pub auth_reply: Option<AuthReply>,
}

/// What is queued, and the prompt on screen.
pub struct QueueModel {
    pub transfers: Option<ManagerModel>,
    pub pending: Seq<PendingModel>,
    pub scan_queue: Seq<ScanModel>,
    pub overwrite_all: Option<bool>,
    pub cut_pending: Seq<(u64, PanelSide, Seq<char>, bool)>,
    pub mode: Option<ModeModel>,
}

/// What the status row says.
pub struct NoteModel {
    pub message: Option<Seq<char>>,
    pub error: Option<Seq<char>>,
}

/// What was yanked, and what is to be revealed.
pub struct HandModel {
    pub clipboard: Option<ClipModel>,
    pub sink: bool,
    pub reveal: Option<(u64, Seq<char>)>,
}

/// Keys and clicks that are half way.
pub struct FlagModel {
    pub help: bool,
    pub quit: bool,
    pub pending_g: bool,
    pub pending_c: bool,
    pub left_down: bool,
    pub last_click: Option<(PanelSide, int, u64)>,
}

/// What the browser has asked for.
pub struct OutModel {
    pub requests: Seq<RequestModel>,
    pub effects: Seq<EffectModel>,
}

/// What the browser holds.
pub struct AppModel {
    pub frame: FrameModel,
    pub panes: PanesModel,
    pub link: LinkModel,
    pub queue: QueueModel,
    pub note: NoteModel,
    pub line: Seq<char>,
    pub hand: HandModel,
    pub flags: FlagModel,
    pub out: OutModel,
}

/// Waiting transfers as models.
pub open spec fn pending_list(v: Seq<PendingTransfer>) -> Seq<PendingModel> {
    v.map_values(|p: PendingTransfer| p@)
}

/// Waiting folders as models.
pub open spec fn scan_list(v: Seq<ScanRequest>) -> Seq<ScanModel> {
    v.map_values(|r: ScanRequest| r@)
}

/// Requests as models.
pub open spec fn request_list(v: Seq<OpRequest>) -> Seq<RequestModel> {
    v.map_values(|r: OpRequest| r@)
}

/// Effects as models.
pub open spec fn effect_list(v: Seq<Effect>) -> Seq<EffectModel> {
    v.map_values(|e: Effect| e@)
}

/// Scanned files as models.
pub open spec fn scanned_list(v: Seq<ScanFile>) -> Seq<ScanFileModel> {
    v.map_values(|f: ScanFile| f@)
}

/// Cut sources with their paths as characters.
pub open spec fn cut_list(v: Seq<(u64, PanelSide, String, bool)>) -> Seq<
    (u64, PanelSide, Seq<char>, bool),
> {
    v.map_values(|c: (u64, PanelSide, String, bool)| (c.0, c.1, c.2@, c.3))
}

/// A transfer manager that may be missing.
pub open spec fn manager_view(m: Option<TransferManager>) -> Option<ManagerModel> {
    match m {
        Some(t) => Some(t@),
        None => None,
    }
}

/// A mode that may be missing.
pub open spec fn mode_view(m: Option<InputMode>) -> Option<ModeModel> {
    match m {
        Some(t) => Some(t@),
        None => None,
    }
}

/// A clipboard that may be missing.
pub open spec fn clip_view(m: Option<Clipboard>) -> Option<ClipModel> {
    match m {
        Some(t) => Some(t@),
        None => None,
    }
}

impl View for App {
    type V = AppModel;

    open spec fn view(&self) -> AppModel {
        AppModel {
            frame: FrameModel {
                cols: self.cols as int,
                rows: self.rows as int,
                palette: self.palette,
                words: self.words@,
            },
            panes: PanesModel { local: self.local@, remote: self.remote@, focus: self.focus },
            link: LinkModel {
                session: self.session,
                label: self.remote_label@,
                home: opt(self.remote_home),
                connecting: opt(self.connecting),
                auth_reply: self.auth_reply,
            },
            queue: QueueModel {
                transfers: manager_view(self.transfers),
                pending: pending_list(self.pending@),
                scan_queue: scan_list(self.scan_queue@),
                overwrite_all: self.overwrite_all,
                cut_pending: cut_list(self.cut_pending@),
                mode: mode_view(self.input_mode),
            },
            note: NoteModel { message: opt(self.message), error: opt(self.error) },
            line: self.input_line@,
            hand: HandModel {
                clipboard: clip_view(self.clipboard),
                sink: self.clipboard_sink,
                reveal: match self.pending_reveal {
                    Some((id, path)) => Some((id, path@)),
                    None => None,
                },
            },
            flags: FlagModel {
                help: self.help,
                quit: self.quit,
                pending_g: self.pending_g,
                pending_c: self.pending_c,
                left_down: self.mouse_left_down,
                last_click: match self.last_click {
                    Some((s, i, t)) => Some((s, i as int, t)),
                    None => None,
                },
            },
            out: OutModel {
                requests: request_list(self.requests@),
                effects: effect_list(self.effects@),
            },
        }
    }
}

impl PanesModel {
    pub open spec fn panel_of(self, side: PanelSide) -> PanelModel {
        match side {
            PanelSide::Local => self.local,
            PanelSide::Remote => self.remote,
        }
    }

    pub open spec fn with_panel(self, side: PanelSide, panel: PanelModel) -> PanesModel {
        match side {
            PanelSide::Local => PanesModel { local: panel, ..self },
            PanelSide::Remote => PanesModel { remote: panel, ..self },
        }
    }

    /// The panel with the focus.
    pub open spec fn focused(self) -> PanelModel {
        self.panel_of(self.focus)
    }
}

impl OutModel {
    pub open spec fn asked(self, request: RequestModel) -> OutModel {
        OutModel { requests: self.requests.push(request), ..self }
    }

    pub open spec fn caused(self, effect: EffectModel) -> OutModel {
        OutModel { effects: self.effects.push(effect), ..self }
    }
}

impl AppModel {
    pub open spec fn fresh(cols: int, rows: int, palette: SftpPalette, local_path: Seq<char>) -> AppModel {
        AppModel {
            frame: FrameModel { cols, rows, palette, words: Map::empty() },
            panes: PanesModel {
                local: PanelModel::fresh(local_path),
                remote: PanelModel::fresh(Seq::empty()),
                focus: PanelSide::Local,
            },
            link: LinkModel {
                session: false,
                label: Seq::empty(),
                home: None,
                connecting: None,
                auth_reply: None,
            },
            queue: QueueModel {
                transfers: None,
                pending: Seq::empty(),
                scan_queue: Seq::empty(),
                overwrite_all: None,
                cut_pending: Seq::empty(),
                mode: None,
            },
            note: NoteModel { message: None, error: None },
            line: Seq::empty(),
            hand: HandModel { clipboard: None, sink: false, reveal: None },
            flags: FlagModel {
                help: false,
                quit: false,
                pending_g: false,
                pending_c: false,
                left_down: false,
                last_click: None,
            },
            out: OutModel { requests: Seq::empty(), effects: Seq::empty() },
        }
    }

    pub open spec fn panel_of(self, side: PanelSide) -> PanelModel {
        self.panes.panel_of(side)
    }

    pub open spec fn with_panel(self, side: PanelSide, panel: PanelModel) -> AppModel {
        AppModel { panes: self.panes.with_panel(side, panel), ..self }
    }

    /// The panel of `side` showing another path.
    pub open spec fn with_path(self, side: PanelSide, path: Seq<char>) -> AppModel {
        self.with_panel(side, PanelModel { path, ..self.panel_of(side) })
    }

    /// Rows of a listing: without the borders, the titles and the three
    /// rows at the bottom, and never none.
    pub open spec fn visible(self) -> int {
        larger(self.frame.rows - 5, 1)
    }

    pub open spec fn noted(self, msg: Seq<char>) -> AppModel {
        AppModel { note: NoteModel { error: None, message: Some(msg) }, ..self }
    }

    pub open spec fn failed(self, msg: Seq<char>) -> AppModel {
        AppModel { note: NoteModel { message: None, error: Some(msg) }, ..self }
    }

    pub open spec fn asked(self, request: RequestModel) -> AppModel {
        AppModel { out: self.out.asked(request), ..self }
    }

    pub open spec fn caused(self, effect: EffectModel) -> AppModel {
        AppModel { out: self.out.caused(effect), ..self }
    }

    /// The directory shown on `side` listed again.
    pub open spec fn listing(self, side: PanelSide) -> AppModel {
        self.asked(RequestModel::Ls { side, path: self.panel_of(side).path })
    }

    pub open spec fn with_mode(self, mode: Option<ModeModel>) -> AppModel {
        AppModel { queue: QueueModel { mode, ..self.queue }, ..self }
    }

    pub open spec fn with_line(self, line: Seq<char>) -> AppModel {
        AppModel { line, ..self }
    }

    pub open spec fn with_queue(self, queue: QueueModel) -> AppModel {
        AppModel { queue, ..self }
    }

    pub open spec fn with_connecting(self, text: Option<Seq<char>>) -> AppModel {
        AppModel { link: LinkModel { connecting: text, ..self.link }, ..self }
    }
}

impl App {
    pub fn new(cols: usize, rows: usize, palette: SftpPalette, local_path: String) -> (r: Self)
        ensures
            r@ == AppModel::fresh(cols as int, rows as int, palette, local_path@),
    {
        let r = App {
            cols,
            rows,
            palette,
            words: Arc::new(Table::new()),
            local: Panel::new(local_path),
            // Empty path: the first remote listing resolves it to the
            // remote home directory.
            remote: Panel::new(String::new()),
            focus: PanelSide::Local,
            session: false,
            transfers: None,
            remote_label: String::new(),
            remote_home: None,
            connecting: None,
            message: None,
            error: None,
            input_mode: None,
            input_line: String::new(),
            auth_reply: None,
            last_click: None,
            pending: Vec::new(),
            scan_queue: Vec::new(),
            overwrite_all: None,
            mouse_left_down: false,
            pending_reveal: None,
            help: false,
            clipboard: None,
            clipboard_sink: false,
            cut_pending: Vec::new(),
            quit: false,
            pending_g: false,
            pending_c: false,
            requests: Vec::new(),
            effects: Vec::new(),
        };
        proof {
            assert(r.input_line@ =~= Seq::<char>::empty());
            assert(r@.queue.pending =~= Seq::<PendingModel>::empty());
            assert(r@.queue.scan_queue =~= Seq::<ScanModel>::empty());
            assert(r@.queue.cut_pending =~= Seq::<(u64, PanelSide, Seq<char>, bool)>::empty());
            assert(r@.out.requests =~= Seq::<RequestModel>::empty());
            assert(r@.out.effects =~= Seq::<EffectModel>::empty());
            assert(r@ == AppModel::fresh(cols as int, rows as int, palette, local_path@));
        }
        r
    }

    pub fn panel(&self, side: PanelSide) -> (r: &Panel)
        ensures
            r@ == self@.panel_of(side),
            *r == match side {
                PanelSide::Local => self.local,
                PanelSide::Remote => self.remote,
            },
    {
        match side {
            PanelSide::Local => &self.local,
            PanelSide::Remote => &self.remote,
        }
    }

    pub fn panel_mut(&mut self, side: PanelSide) -> (r: &mut Panel)
        ensures
            (*r)@ == old(self)@.panel_of(side),
            final(self)@ == old(self)@.with_panel(side, (*final(r))@),
    {
        match side {
            PanelSide::Local => &mut self.local,
            PanelSide::Remote => &mut self.remote,
        }
    }

    /// Rows of a listing.
    pub fn visible_rows(&self) -> (r: usize)
        ensures
            r == self@.visible(),
    {
        if self.rows <= 6 {
            1
        } else {
            self.rows - 5
        }
    }

    pub fn set_message(&mut self, msg: &str)
        ensures
            final(self)@ == old(self)@.noted(msg@),
    {
        self.error = None;
        self.message = Some(msg.to_owned());
    }

    pub fn set_error(&mut self, msg: &str)
        ensures
            final(self)@ == old(self)@.failed(msg@),
    {
        self.message = None;
        self.error = Some(msg.to_owned());
    }

    /// Hand a request to the worker.
    pub fn ask(&mut self, request: OpRequest)
        ensures
            final(self)@ == old(self)@.asked(request@),
    {
        let ghost start = self@;
        self.requests.push(request);
        proof {
            assert(self@.out.requests =~= start.out.requests.push(request@));
            assert(self@ == start.asked(request@));
        }
    }

    /// Have an effect take place.
    pub fn cause(&mut self, effect: Effect)
        ensures
            final(self)@ == old(self)@.caused(effect@),
    {
        let ghost start = self@;
        self.effects.push(effect);
        proof {
            assert(self@.out.effects =~= start.out.effects.push(effect@));
            assert(self@ == start.caused(effect@));
        }
    }

    /// List the directory shown on `side` again.
    pub fn list_again(&mut self, side: PanelSide)
        ensures
            final(self)@ == old(self)@.listing(side),
    {
        let path = self.panel(side).path.clone();
        self.ask(OpRequest::Ls { side, path });
    }

    /// Show `path` on `side` and list it.
    pub fn go_to(&mut self, side: PanelSide, path: String)
        ensures
            final(self)@ == old(self)@.with_path(side, path@).listing(side),
    {
        self.set_path(side, path);
        self.list_again(side);
    }

    /// Show `path` on `side`.
    pub fn set_path(&mut self, side: PanelSide, path: String)
        ensures
            final(self)@ == old(self)@.with_path(side, path@),
    {
        match side {
            PanelSide::Local => {
                self.local.path = path;
            },
            PanelSide::Remote => {
                self.remote.path = path;
            },
        }
    }

    /// Take the requests nobody was handed yet, oldest first.
    pub fn take_requests(&mut self) -> (r: Vec<OpRequest>)
        ensures
            request_list(r@) == old(self)@.out.requests,
            final(self)@ == (AppModel {
                out: OutModel { requests: Seq::empty(), ..old(self)@.out },
                ..old(self)@
            }),
    {
        let ghost start = self@;
        let mut out: Vec<OpRequest> = Vec::new();
        core::mem::swap(&mut self.requests, &mut out);
        proof {
            assert(self@.out.requests =~= Seq::<RequestModel>::empty());
        }
        out
    }

    /// Take the effects that have not taken place yet, oldest first.
    pub fn take_effects(&mut self) -> (r: Vec<Effect>)
        ensures
            effect_list(r@) == old(self)@.out.effects,
            final(self)@ == (AppModel {
                out: OutModel { effects: Seq::empty(), ..old(self)@.out },
                ..old(self)@
            }),
    {
        let ghost start = self@;
        let mut out: Vec<Effect> = Vec::new();
        core::mem::swap(&mut self.effects, &mut out);
        proof {
            assert(self@.out.effects =~= Seq::<EffectModel>::empty());
        }
        out
    }
}

} // verus!

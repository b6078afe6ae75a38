//! Keyboard and mouse handling.  Yazi-style bindings with mc-style function
//! keys for file operations.

use crate::cache::{cache_path, open_cache_path};
use crate::keys::{
    KeyCode, KeyEvent, MOD_CTRL, MOD_NONE, MOD_SHIFT,
};
use crate::panel::PanelModel;
use crate::paths::{above, home_dir, join_path, jump, jump_target_from, opt, parent_path, path_in};
use crate::queue::{
    lemma_decision_leaves_no_answer, lemma_folder_leaves_no_answer, lemma_paste_leaves_no_answer,
    lemma_sending_leaves_no_answer,
};
use crate::state::{
    App, AppModel, AuthReply, Effect, EffectModel, FlagModel, HandModel, InputMode, LinkModel,
    ModeModel, OpRequest, OutModel, PanesModel, QueueModel, RequestModel,
};
use crate::text::{
    alike, ascii_low, ascii_lower, cat, cat3, chars_of, decimal, ends_in, ends_with, join, joined,
    number, same, same_ignoring_case, texts, trim, trim_end, trimmed, trimmed_end,
};
use crate::transfer::{Direction, JobModel};
use crate::types::{FileEntry, PanelSide};
use std::collections::HashSet;
use vstd::prelude::*;
use vstd::string::*;

verus! {

broadcast use vstd::std_specs::hash::group_hash_axioms;

/// What became of a key that was of use.
#[derive(Clone, Copy, Debug, PartialEq, Eq, Structural)]
pub enum Handled {
    Consumed,
    Quit,
}

/// Rows of a page as a step of the cursor.
pub open spec fn page(visible: int) -> int {
    if visible > i32::MAX {
        i32::MAX as int
    } else {
        visible
    }
}

fn page_rows(visible: usize) -> (r: i32)
    requires
        visible >= 1,
    ensures
        r == page(visible as int),
        r >= 1,
{
    if visible > i32::MAX as usize {
        i32::MAX
    } else {
        visible as i32
    }
}

/// Rows of half a page, never none.
pub open spec fn half(visible: int) -> int {
    if page(visible) / 2 < 1 {
        1
    } else {
        page(visible) / 2
    }
}

fn half_rows(visible: usize) -> (r: i32)
    requires
        visible >= 1,
    ensures
        r == half(visible as int),
        r >= 1,
{
    let h: i32 = page_rows(visible) / 2;
    if h < 1 {
        1
    } else {
        h
    }
}

/// The positions of a listing of `len` entries that are not in `marked`.
pub open spec fn unmarked(marked: Set<usize>, len: int) -> Set<usize> {
    Set::new(|i: usize| i < len && !marked.contains(i))
}

/// The lines that are copied for the targets: their names, or their paths.
pub open spec fn target_lines(
    dir: Seq<char>,
    targets: Seq<(usize, FileEntry)>,
    names_only: bool,
) -> Seq<Seq<char>> {
    targets.map_values(
        |t: (usize, FileEntry)|
            if names_only {
                t.1.name@
            } else {
                path_in(dir, t.1.name@)
            },
    )
}

/// The names of the targets.
pub open spec fn target_names(targets: Seq<(usize, FileEntry)>) -> Seq<Seq<char>> {
    targets.map_values(|t: (usize, FileEntry)| t.1.name@)
}

/// A text without its last character.
pub open spec fn shorter(s: Seq<char>) -> Seq<char> {
    if s.len() == 0 {
        s
    } else {
        s.drop_last()
    }
}

/// The entry's name starts with `c`, without regard to case.
pub open spec fn starts_with(e: FileEntry, c: char) -> bool {
    e.name@.len() > 0 && ascii_low(e.name@[0]) == c
}

/// The first entry from position `from` on, `step` places further and then
/// around, whose name starts with `c`.
pub open spec fn next_start(entries: Seq<FileEntry>, c: char, from: int, step: int) -> Option<int>
    decreases entries.len() - step,
{
    if step < 0 || step >= entries.len() {
        None
    } else if starts_with(entries[(from + step) % entries.len() as int], c) {
        Some((from + step) % entries.len() as int)
    } else {
        next_start(entries, c, from, step + 1)
    }
}

/// Whether the first entry called `name` is a directory.
pub open spec fn dir_named(entries: Seq<FileEntry>, name: Seq<char>) -> Option<bool>
    decreases entries.len(),
{
    if entries.len() == 0 {
        None
    } else if entries[0].name@ == name {
        Some(entries[0].is_dir)
    } else {
        dir_named(entries.skip(1), name)
    }
}

/// Whether the first entry called `name` is a directory.
fn is_dir_named(entries: &Vec<FileEntry>, name: &str) -> (r: Option<bool>)
    ensures
        r == dir_named(entries@, name@),
{
    let mut i: usize = 0;
    proof {
        assert(entries@.skip(0) =~= entries@);
    }
    while i < entries.len()
        invariant
            i <= entries@.len(),
            dir_named(entries@, name@) == dir_named(entries@.skip(i as int), name@),
        decreases entries@.len() - i,
    {
        proof {
            assert(entries@.skip(i as int)[0] == entries@[i as int]);
            assert(entries@.skip(i as int).skip(1) =~= entries@.skip(i + 1));
        }
        if same(entries[i].name.as_str(), name) {
            return Some(entries[i].is_dir);
        }
        i += 1;
    }
    None
}

impl OutModel {
    /// The first `n` names deleted, as far as the listing has them.
    pub open spec fn deleted(
        self,
        side: PanelSide,
        panel: PanelModel,
        names: Seq<Seq<char>>,
        n: int,
    ) -> OutModel
        decreases n,
    {
        if n <= 0 {
            self
        } else {
            let m = self.deleted(side, panel, names, n - 1);
            match dir_named(panel.entries, names[n - 1]) {
                Some(is_dir) => m.asked(
                    RequestModel::Delete { side, path: path_in(panel.path, names[n - 1]), is_dir },
                ),
                None => m,
            }
        }
    }
}

/// The key completes the chord that `g` begins.
pub open spec fn completes_g(key: KeyCode) -> bool {
    key == KeyCode::Char('g')
}

/// The key completes a chord that `c` begins.
pub open spec fn completes_c(key: KeyCode) -> bool {
    key == KeyCode::Char('c') || key == KeyCode::Char('f')
}

impl AppModel {
    /// The cursor of the focused panel moved.
    #[verifier::opaque]
    pub open spec fn cursor_moved(self, by: int) -> AppModel {
        self.with_panel(self.panes.focus, self.panes.focused().moved(by, self.visible()))
    }

    /// The cursor of the focused panel put somewhere.
    #[verifier::opaque]
    pub open spec fn cursor_put(self, idx: int) -> AppModel {
        self.with_panel(self.panes.focus, self.panes.focused().jumped(idx, self.visible()))
    }

    /// The focused panel in another directory, which is being listed.
    pub open spec fn gone_to(self, path: Seq<char>) -> AppModel {
        self.with_path(self.panes.focus, path).listing(self.panes.focus)
    }

    pub open spec fn with_flags(self, flags: FlagModel) -> AppModel {
        AppModel { flags, ..self }
    }

    /// No chord is half typed.
    pub open spec fn chordless(self) -> AppModel {
        self.with_flags(FlagModel { pending_g: false, pending_c: false, ..self.flags })
    }

    pub open spec fn without_g(self) -> AppModel {
        self.with_flags(FlagModel { pending_g: false, ..self.flags })
    }

    pub open spec fn without_c(self) -> AppModel {
        self.with_flags(FlagModel { pending_c: false, ..self.flags })
    }

    /// The selection of the focused panel inverted.
    #[verifier::opaque]
    pub open spec fn inverted(self) -> AppModel {
        let panel = self.panes.focused();
        let marked = unmarked(panel.marked, panel.entries.len() as int);
        self.with_panel(self.panes.focus, PanelModel { marked, ..panel }).noted(
            decimal(marked.len()) + " selected"@,
        )
    }

    /// Paths or names of the targets on the system clipboard, one per line.
    #[verifier::opaque]
    pub open spec fn lines_copied(self, names_only: bool) -> AppModel {
        let panel = self.panes.focused();
        let lines = target_lines(panel.path, panel.targets(), names_only);
        if lines.len() == 0 {
            self.noted("nothing to copy"@)
        } else if self.hand.sink {
            self.caused(EffectModel::CopyText { text: joined(lines, "\n"@) }).noted(
                "copied "@ + decimal(lines.len()) + " path(s)"@,
            )
        } else {
            self.noted("clipboard unavailable"@)
        }
    }

    /// The file under the cursor opened; nothing for a directory.
    #[verifier::opaque]
    pub open spec fn file_opened(self) -> AppModel {
        let panel = self.panes.focused();
        match panel.current() {
            None => self,
            Some(e) => if e.is_dir {
                self
            } else {
                let path = path_in(panel.path, e.name@);
                match self.panes.focus {
                    PanelSide::Local => self.caused(EffectModel::OpenLocal { path }).noted(
                        "opened "@ + e.name@,
                    ),
                    PanelSide::Remote => self.asked(
                        RequestModel::OpenRemote {
                            source: path,
                            dest: cache_path(self.link.label, path),
                        },
                    ).noted("opening "@ + e.name@ + " ..."@),
                }
            },
        }
    }

    /// The directory under the cursor entered, or the file opened.
    #[verifier::opaque]
    pub open spec fn entered(self) -> AppModel {
        match self.panes.focused().current() {
            None => self,
            Some(e) => if e.is_dir {
                self.gone_to(path_in(self.panes.focused().path, e.name@))
            } else {
                self.file_opened()
            },
        }
    }

    /// A free name in the download folder asked for, for the file under
    /// the cursor.
    #[verifier::opaque]
    pub open spec fn download_asked(self) -> AppModel {
        if self.panes.focus != PanelSide::Remote {
            self.noted("downloads go from the remote panel (Tab switches)"@)
        } else if self.queue.transfers is None {
            self.failed("not connected"@)
        } else {
            match self.panes.remote.current() {
                None => self,
                Some(e) => if e.is_dir {
                    self.noted("folders use F5 to download recursively"@)
                } else {
                    self.caused(
                        EffectModel::ResolveDownload {
                            source: path_in(self.panes.remote.path, e.name@),
                            name: e.name@,
                        },
                    )
                },
            }
        }
    }

    /// The download of `source` started under the name that was found.
    #[verifier::opaque]
    pub open spec fn download_started(
        self,
        source: Seq<char>,
        name: Seq<char>,
        found: Result<Seq<char>, Seq<char>>,
    ) -> AppModel {
        match self.queue.transfers {
            None => self.failed("not connected"@),
            Some(t) => match found {
                Err(e) => self.failed("no free name in the download folder: "@ + e),
                Ok(dest) => (AppModel {
                    queue: QueueModel {
                        transfers: Some(
                            t.requested(
                                Direction::Download,
                                source,
                                dest,
                                JobModel::Download { remote: source, local: dest, resume: false },
                            ),
                        ),
                        ..self.queue
                    },
                    hand: HandModel { reveal: Some((t.next_id, dest)), ..self.hand },
                    ..self
                }).noted("downloading "@ + name + " to "@ + dest),
            },
        }
    }

    /// A step along the history of the focused panel.
    #[verifier::opaque]
    pub open spec fn walked(self, forward: bool) -> AppModel {
        let panel = self.panes.focused();
        let can = if forward {
            panel.can_go_forward()
        } else {
            panel.can_go_back()
        };
        let pos = if forward {
            panel.visited_pos + 1
        } else {
            panel.visited_pos - 1
        };
        let none = if forward {
            "no later directory"@
        } else {
            "no earlier directory"@
        };
        if !can {
            self.noted(none)
        } else {
            let m = self.with_panel(self.panes.focus, PanelModel { visited_pos: pos, ..panel });
            match panel.visit_at(pos) {
                Some(path) => m.gone_to(path),
                None => m.noted(none),
            }
        }
    }

    /// The remote panel back where its session started.
    #[verifier::opaque]
    pub open spec fn sent_home(self) -> AppModel {
        match self.link.home {
            None => self.noted("remote home not known yet"@),
            Some(home) => (AppModel {
                panes: PanesModel { focus: PanelSide::Remote, ..self.panes },
                ..self
            }).gone_to(home),
        }
    }

    /// The mark under the cursor toggled and the cursor one down.
    #[verifier::opaque]
    pub open spec fn mark_toggled(self) -> AppModel {
        let panel = self.panes.focused();
        if panel.entries.len() == 0 {
            self
        } else {
            let at = panel.cursor as usize;
            let marked = if panel.marked.contains(at) {
                panel.marked.remove(at)
            } else {
                panel.marked.insert(at)
            };
            self.with_panel(
                self.panes.focus,
                (PanelModel { marked, ..panel }).moved(1, self.visible()),
            )
        }
    }

    /// The selection dropped.
    #[verifier::opaque]
    pub open spec fn marks_cleared(self) -> AppModel {
        let panel = self.panes.focused();
        self.with_panel(self.panes.focus, PanelModel { marked: Set::empty(), ..panel }).noted(
            if panel.marked.len() == 0 {
                "nothing selected"@
            } else {
                "selection cleared ("@ + decimal(panel.marked.len()) + ")"@
            },
        )
    }

    /// The yank state dropped.
    #[verifier::opaque]
    pub open spec fn unyanked(self) -> AppModel {
        (AppModel { hand: HandModel { clipboard: None, ..self.hand }, ..self }).noted(
            if self.hand.clipboard is Some {
                "yank cancelled"@
            } else {
                "nothing to cancel"@
            },
        )
    }

    /// The deletion of the targets to be confirmed.
    #[verifier::opaque]
    pub open spec fn deletion_asked(self) -> AppModel {
        let targets = self.panes.focused().targets();
        if targets.len() == 0 {
            self
        } else {
            self.with_mode(
                Some(ModeModel::ConfirmDelete { names: target_names(targets) }),
            ).with_line(Seq::empty())
        }
    }

    /// The filter of the focused panel to be edited.
    #[verifier::opaque]
    pub open spec fn filter_asked(self) -> AppModel {
        self.with_mode(Some(ModeModel::Filter)).with_line(
            match self.panes.focused().filter {
                Some(f) => f,
                None => Seq::empty(),
            },
        )
    }

    /// The entry under the cursor to be renamed.
    #[verifier::opaque]
    pub open spec fn rename_asked(self) -> AppModel {
        match self.panes.focused().current() {
            None => self,
            Some(e) => self.with_mode(Some(ModeModel::Rename { original: e.name@ })).with_line(
                e.name@,
            ),
        }
    }

    /// An input line begun empty.
    pub open spec fn line_begun(self, mode: ModeModel) -> AppModel {
        self.with_mode(Some(mode)).with_line(Seq::empty())
    }

    /// The first half of the path-copying chord, or the whole of it.
    #[verifier::opaque]
    pub open spec fn c_pressed(self) -> AppModel {
        if self.flags.pending_c {
            let m = self.lines_copied(false);
            m.with_flags(FlagModel { pending_c: false, ..m.flags })
        } else {
            self.with_flags(FlagModel { pending_c: true, ..self.flags }).noted(
                "c c copy path · c f copy name"@,
            )
        }
    }

    /// The rest of the chord that copies names, or a jump to be typed.
    #[verifier::opaque]
    pub open spec fn f_pressed(self) -> AppModel {
        if self.flags.pending_c {
            let m = self.lines_copied(true);
            m.with_flags(FlagModel { pending_c: false, ..m.flags })
        } else {
            self.line_begun(ModeModel::JumpToChar)
        }
    }

    /// The first half of the chord that jumps to the top, or the whole.
    #[verifier::opaque]
    pub open spec fn g_pressed(self) -> AppModel {
        if self.flags.pending_g {
            self.cursor_put(0).without_g()
        } else {
            self.with_flags(FlagModel { pending_g: true, ..self.flags })
        }
    }

    /// The cursor one step further.
    #[verifier::opaque]
    pub open spec fn stepped(self, by: int) -> AppModel {
        self.cursor_moved(by).without_g()
    }

    /// The focused panel one directory up.
    #[verifier::opaque]
    pub open spec fn risen(self) -> AppModel {
        self.gone_to(above(self.panes.focused().path)).without_g()
    }

    /// The other panel focused.
    #[verifier::opaque]
    pub open spec fn switched(self) -> AppModel {
        (AppModel {
            panes: PanesModel { focus: self.panes.focus.opposite(), ..self.panes },
            ..self
        }).without_g()
    }

    /// A key that moves about; none where it does not.
    pub open spec fn moved_by(self, key: KeyCode) -> Option<AppModel> {
        let panel = self.panes.focused();
        let step = page(self.visible());
        match key {
            KeyCode::UpArrow | KeyCode::Char('k') => Some(self.stepped(-1)),
            KeyCode::DownArrow | KeyCode::Char('j') => Some(self.stepped(1)),
            KeyCode::LeftArrow | KeyCode::Char('h') => Some(self.risen()),
            KeyCode::RightArrow | KeyCode::Char('l') | KeyCode::Enter => Some(self.entered()),
            KeyCode::Char('H') => Some(self.walked(false)),
            KeyCode::Char('L') => Some(self.walked(true)),
            KeyCode::Char('Z') => Some(self.sent_home()),
            KeyCode::Char('g') => Some(self.g_pressed()),
            KeyCode::Char('G') | KeyCode::End => Some(
                self.cursor_put(panel.entries.len() as int),
            ),
            KeyCode::Home => Some(self.cursor_put(0)),
            KeyCode::Tab => Some(self.switched()),
            KeyCode::PageUp => Some(self.cursor_moved(-step)),
            KeyCode::PageDown => Some(self.cursor_moved(step)),
            _ => None,
        }
    }

    /// A key that selects, yanks or sends; none where it does not.
    pub open spec fn acted_by(self, key: KeyCode) -> Option<AppModel> {
        let panel = self.panes.focused();
        match key {
            KeyCode::Char('o') => Some(self.file_opened()),
            KeyCode::Char('D') => Some(self.download_asked()),
            KeyCode::Char('y') => Some(self.with_yank(false)),
            KeyCode::Char('x') => Some(self.with_yank(true)),
            KeyCode::Char('p') => Some(self.pasted()),
            KeyCode::Char('P') => Some(self.pasted_over()),
            KeyCode::Char('Y') | KeyCode::Char('X') => Some(self.unyanked()),
            KeyCode::Char(' ') => Some(self.mark_toggled()),
            KeyCode::Char('u') => Some(self.marks_cleared()),
            KeyCode::Char('.') => Some(
                self.with_panel(
                    self.panes.focus,
                    PanelModel { show_hidden: !panel.show_hidden, ..panel },
                ).listing(self.panes.focus),
            ),
            KeyCode::Function(5) => Some(self.sent()),
            _ => None,
        }
    }

    /// A key that asks for something to be typed or read; none where it
    /// does not.
    pub open spec fn asked_by(self, key: KeyCode, shifted: bool) -> Option<AppModel> {
        match key {
            KeyCode::Char('z') => Some(self.line_begun(ModeModel::JumpTo)),
            KeyCode::Char('c') => Some(self.c_pressed()),
            KeyCode::Char('f') => Some(self.f_pressed()),
            KeyCode::Char('/') => Some(
                if shifted {
                    self.with_flags(FlagModel { help: true, ..self.flags })
                } else {
                    self.filter_asked()
                },
            ),
            KeyCode::Char('F') => Some(self.filter_asked()),
            KeyCode::Function(1) | KeyCode::Char('?') => Some(
                self.with_flags(FlagModel { help: true, ..self.flags }),
            ),
            KeyCode::Function(2) | KeyCode::Char('r') => Some(self.rename_asked()),
            KeyCode::Char('a') => Some(self.line_begun(ModeModel::Create { directory: false })),
            KeyCode::Function(7) => Some(self.line_begun(ModeModel::Create { directory: true })),
            KeyCode::Function(8) | KeyCode::Char('d') => Some(self.deletion_asked()),
            _ => None,
        }
    }

    /// A key that browses; none where the key has no use.
    pub open spec fn browsed(self, key: KeyEvent) -> Option<AppModel> {
        if self.moved_by(key.key) is Some {
            self.moved_by(key.key)
        } else if self.acted_by(key.key) is Some {
            self.acted_by(key.key)
        } else {
            self.asked_by(key.key, key.modifiers == MOD_SHIFT)
        }
    }
}

impl App {
    pub(crate) fn move_cursor(&mut self, by: i32)
        ensures
            final(self)@ == old(self)@.cursor_moved(by as int),
    {
        proof {
            reveal(AppModel::cursor_moved);
        }
        let visible: usize = self.visible_rows();
        let side = self.focus;
        self.panel_mut(side).move_cursor(by, visible);
    }

    fn put_cursor(&mut self, idx: usize)
        ensures
            final(self)@ == old(self)@.cursor_put(idx as int),
    {
        proof {
            reveal(AppModel::cursor_put);
        }
        let visible: usize = self.visible_rows();
        let side = self.focus;
        self.panel_mut(side).jump_to(idx, visible);
    }

    /// Invert the selection over the listing, like yazi's Ctrl+r.
    pub fn toggle_all(&mut self)
        ensures
            final(self)@ == old(self)@.inverted(),
    {
        proof {
            reveal(AppModel::inverted);
        }
        let ghost start = self@;
        let side = self.focus;
        let len: usize = self.panel(side).entries.len();
        let mut marked: HashSet<usize> = HashSet::new();
        let mut i: usize = 0;
        let ghost was = start.panes.focused().marked;
        proof {
            assert(marked@ =~= unmarked(was, 0));
        }
        while i < len
            invariant
                i <= len,
                self@ == start,
                side == start.panes.focus,
                was == start.panes.focused().marked,
                marked@ == unmarked(was, i as int),
            decreases len - i,
        {
            let ghost before = marked@;
            if !self.panel(side).marked.contains(&i) {
                marked.insert(i);
            }
            proof {
                assert(marked@ =~= unmarked(was, i + 1));
            }
            i += 1;
        }
        let count: usize = marked.len();
        match side {
            PanelSide::Local => {
                self.local.marked = marked;
            },
            PanelSide::Remote => {
                self.remote.marked = marked;
            },
        }
        let text = cat(number(count as u64).as_str(), " selected");
        self.set_message(text.as_str());
    }

    /// Put the marked paths or names (or those of the cursor entry) on the
    /// clipboard, one per line.
    pub fn copy_paths_to_clipboard(&mut self, names_only: bool)
        ensures
            final(self)@ == old(self)@.lines_copied(names_only),
    {
        proof {
            reveal(AppModel::lines_copied);
        }
        let ghost start = self@;
        let side = self.focus;
        let dir = self.panel(side).path.clone();
        let targets = self.panel(side).action_targets();
        let ghost ts = start.panes.focused().targets();
        let ghost all = target_lines(dir@, ts, names_only);
        if targets.len() == 0 {
            self.set_message("nothing to copy");
            return;
        }
        let mut lines: Vec<String> = Vec::new();
        let mut i: usize = 0;
        proof {
            assert(texts(lines@) =~= all.take(0));
        }
        while i < targets.len()
            invariant
                i <= targets@.len(),
                targets@ == ts,
                all == target_lines(dir@, ts, names_only),
                texts(lines@) == all.take(i as int),
            decreases targets@.len() - i,
        {
            let ghost before = texts(lines@);
            let line = if names_only {
                targets[i].1.name.clone()
            } else {
                join_path(dir.as_str(), targets[i].1.name.as_str())
            };
            lines.push(line);
            proof {
                assert(texts(lines@) =~= before.push(all[i as int]));
                assert(texts(lines@) =~= all.take(i + 1));
            }
            i += 1;
        }
        proof {
            assert(all.take(i as int) =~= all);
            assert(texts(lines@).len() == lines@.len());
        }
        if self.clipboard_sink {
            let text = join(&lines, "\n");
            self.cause(Effect::CopyText { text });
            let n: usize = lines.len();
            let note = cat3("copied ", number(n as u64).as_str(), " path(s)");
            self.set_message(note.as_str());
        } else {
            self.set_message("clipboard unavailable");
        }
    }

    /// Open the file under the cursor: local files launch with their
    /// default application; remote files download to the preview cache
    /// first and open when the transfer lands.
    pub fn open_cursor_file(&mut self)
        ensures
            final(self)@ == old(self)@.file_opened(),
    {
        proof {
            reveal(AppModel::file_opened);
        }
        let side = self.focus;
        let entry = match self.panel(side).current_entry() {
            Some(e) => e.clone(),
            None => {
                return;
            },
        };
        if entry.is_dir {
            return;
        }
        let path = join_path(self.panel(side).path.as_str(), entry.name.as_str());
        match side {
            PanelSide::Local => {
                self.cause(Effect::OpenLocal { path });
                let note = cat("opened ", entry.name.as_str());
                self.set_message(note.as_str());
            },
            PanelSide::Remote => {
                let dest = open_cache_path(self.remote_label.as_str(), path.as_str());
                self.ask(OpRequest::OpenRemote { source: path, dest });
                let note = cat3("opening ", entry.name.as_str(), " ...");
                self.set_message(note.as_str());
            },
        }
    }

    /// Enter the directory under the cursor, or open the file.
    pub fn enter_cursor_entry(&mut self)
        ensures
            final(self)@ == old(self)@.entered(),
    {
        proof {
            reveal(AppModel::entered);
        }
        let side = self.focus;
        let entry = match self.panel(side).current_entry() {
            Some(e) => e.clone(),
            None => {
                return;
            },
        };
        if !entry.is_dir {
            self.open_cursor_file();
            return;
        }
        let path = join_path(self.panel(side).path.as_str(), entry.name.as_str());
        self.go_to(side, path);
    }

    /// Ask for a free name in the user's download folder for the file under
    /// the cursor.  Folders keep using F5, which recurses.
    pub fn download_cursor_to_downloads(&mut self)
        ensures
            final(self)@ == old(self)@.download_asked(),
    {
        proof {
            reveal(AppModel::download_asked);
        }
        if self.focus != PanelSide::Remote {
            self.set_message("downloads go from the remote panel (Tab switches)");
            return;
        }
        if self.transfers.is_none() {
            self.set_error("not connected");
            return;
        }
        let entry = match self.panel(PanelSide::Remote).current_entry() {
            Some(e) => e.clone(),
            None => {
                return;
            },
        };
        if entry.is_dir {
            self.set_message("folders use F5 to download recursively");
            return;
        }
        let source = join_path(self.remote.path.as_str(), entry.name.as_str());
        self.cause(Effect::ResolveDownload { source, name: entry.name });
    }

    /// Download `source` to the name that was found for it, and reveal it
    /// when it lands.
    pub fn start_download(&mut self, source: &str, name: &str, found: &Result<String, String>)
        ensures
            final(self)@ == old(self)@.download_started(
                source@,
                name@,
                match *found {
                    Ok(d) => Ok(d@),
                    Err(e) => Err(e@),
                },
            ),
    {
        proof {
            reveal(AppModel::download_started);
        }
        let ghost start = self@;
        if self.transfers.is_none() {
            self.set_error("not connected");
            return;
        }
        match found {
            Err(e) => {
                let text = cat("no free name in the download folder: ", e.as_str());
                self.set_error(text.as_str());
            },
            Ok(dest) => {
                let mut id: u64 = 0;
                if let Some(manager) = &mut self.transfers {
                    id = manager.download(source, dest.as_str(), false);
                }
                self.pending_reveal = Some((id, dest.clone()));
                let mut text = cat3("downloading ", name, " to ");
                text.append(dest.as_str());
                self.set_message(text.as_str());
            },
        }
    }

    fn walk_history(&mut self, forward: bool)
        ensures
            final(self)@ == old(self)@.walked(forward),
    {
        proof {
            reveal(AppModel::walked);
        }
        let ghost start = self@;
        let side = self.focus;
        let found = if forward {
            self.panel_mut(side).forward()
        } else {
            self.panel_mut(side).back()
        };
        match found {
            Some(path) => self.go_to(side, path),
            None => {
                if forward {
                    self.set_message("no later directory");
                } else {
                    self.set_message("no earlier directory");
                }
                proof {
                    assert(start.with_panel(start.panes.focus, start.panes.focused()).panes
                        == start.panes);
                }
            },
        }
    }

    fn send_home(&mut self)
        ensures
            final(self)@ == old(self)@.sent_home(),
    {
        proof {
            reveal(AppModel::sent_home);
        }
        match self.remote_home.clone() {
            Some(home) => {
                self.focus = PanelSide::Remote;
                self.go_to(PanelSide::Remote, home);
            },
            None => self.set_message("remote home not known yet"),
        }
    }

    fn toggle_mark(&mut self)
        ensures
            final(self)@ == old(self)@.mark_toggled(),
    {
        proof {
            reveal(AppModel::mark_toggled);
        }
        let visible: usize = self.visible_rows();
        let side = self.focus;
        let panel = self.panel_mut(side);
        if panel.entries.len() == 0 {
            return;
        }
        if panel.marked.contains(&panel.cursor) {
            panel.marked.remove(&panel.cursor);
        } else {
            panel.marked.insert(panel.cursor);
        }
        panel.move_cursor(1, visible);
    }

    fn drop_marks(&mut self)
        ensures
            final(self)@ == old(self)@.marks_cleared(),
    {
        proof {
            reveal(AppModel::marks_cleared);
        }
        let side = self.focus;
        let cleared: usize = self.clear_marks(side);
        if cleared == 0 {
            self.set_message("nothing selected");
        } else {
            let text = cat3("selection cleared (", number(cleared as u64).as_str(), ")");
            self.set_message(text.as_str());
        }
    }

    fn drop_yank(&mut self)
        ensures
            final(self)@ == old(self)@.unyanked(),
    {
        proof {
            reveal(AppModel::unyanked);
        }
        if self.clipboard.is_some() {
            self.clipboard = None;
            self.set_message("yank cancelled");
        } else {
            self.set_message("nothing to cancel");
        }
    }

    fn ask_deletion(&mut self)
        ensures
            final(self)@ == old(self)@.deletion_asked(),
    {
        proof {
            reveal(AppModel::deletion_asked);
        }
        let ghost start = self@;
        let side = self.focus;
        let targets = self.panel(side).action_targets();
        let ghost ts = start.panes.focused().targets();
        let ghost all = target_names(ts);
        if targets.len() == 0 {
            return;
        }
        let mut names: Vec<String> = Vec::new();
        let mut i: usize = 0;
        proof {
            assert(texts(names@) =~= all.take(0));
        }
        while i < targets.len()
            invariant
                i <= targets@.len(),
                targets@ == ts,
                all == target_names(ts),
                texts(names@) == all.take(i as int),
            decreases targets@.len() - i,
        {
            let ghost before = texts(names@);
            names.push(targets[i].1.name.clone());
            proof {
                assert(texts(names@) =~= before.push(all[i as int]));
                assert(texts(names@) =~= all.take(i + 1));
            }
            i += 1;
        }
        proof {
            assert(all.take(i as int) =~= all);
        }
        self.input_mode = Some(InputMode::ConfirmDelete { names });
        self.input_line.clear();
    }

    fn ask_filter(&mut self)
        ensures
            final(self)@ == old(self)@.filter_asked(),
    {
        proof {
            reveal(AppModel::filter_asked);
        }
        let side = self.focus;
        let line = match &self.panel(side).filter {
            Some(f) => f.clone(),
            None => String::new(),
        };
        proof {
            assert(self@.panes.focused().filter is None ==> line@ =~= Seq::<char>::empty());
        }
        self.input_mode = Some(InputMode::Filter);
        self.input_line = line;
    }

    /// Rename the entry under the cursor.
    pub fn start_rename(&mut self)
        ensures
            final(self)@ == old(self)@.rename_asked(),
    {
        proof {
            reveal(AppModel::rename_asked);
        }
        let side = self.focus;
        let original = match self.panel(side).current_entry() {
            Some(e) => e.name.clone(),
            None => {
                return;
            },
        };
        self.input_mode = Some(InputMode::Rename { original: original.clone() });
        self.input_line = original;
    }

    fn begin_line(&mut self, mode: InputMode)
        ensures
            final(self)@ == old(self)@.line_begun(mode@),
    {
        self.input_mode = Some(mode);
        self.input_line.clear();
    }

    fn press_c(&mut self)
        ensures
            final(self)@ == old(self)@.c_pressed(),
    {
        proof {
            reveal(AppModel::c_pressed);
        }
        if self.pending_c {
            self.copy_paths_to_clipboard(false);
            self.pending_c = false;
        } else {
            self.pending_c = true;
            self.set_message("c c copy path · c f copy name");
        }
    }

    fn press_f(&mut self)
        ensures
            final(self)@ == old(self)@.f_pressed(),
    {
        proof {
            reveal(AppModel::f_pressed);
        }
        if self.pending_c {
            self.copy_paths_to_clipboard(true);
            self.pending_c = false;
        } else {
            self.begin_line(InputMode::JumpToChar);
        }
    }

    fn press_g(&mut self)
        ensures
            final(self)@ == old(self)@.g_pressed(),
    {
        proof {
            reveal(AppModel::g_pressed);
        }
        if self.pending_g {
            self.put_cursor(0);
            self.pending_g = false;
        } else {
            self.pending_g = true;
        }
    }

    fn go_up(&mut self)
        ensures
            final(self)@ == old(self)@.risen(),
    {
        proof {
            reveal(AppModel::risen);
        }
        let side = self.focus;
        let parent = parent_path(self.panel(side).path.as_str());
        self.go_to(side, parent);
        self.pending_g = false;
    }

    fn step(&mut self, by: i32)
        ensures
            final(self)@ == old(self)@.stepped(by as int),
    {
        proof {
            reveal(AppModel::stepped);
        }
        self.move_cursor(by);
        self.pending_g = false;
    }

    fn switch_pane(&mut self)
        ensures
            final(self)@ == old(self)@.switched(),
    {
        proof {
            reveal(AppModel::switched);
        }
        self.focus = self.focus.other();
        self.pending_g = false;
    }

    fn put_cursor_last(&mut self)
        ensures
            final(self)@ == old(self)@.cursor_put(old(self)@.panes.focused().entries.len() as int),
    {
        let side = self.focus;
        let len: usize = self.panel(side).entries.len();
        self.put_cursor(len);
    }

    fn turn_page(&mut self, forward: bool)
        ensures
            final(self)@ == old(self)@.cursor_moved(
                if forward {
                    page(old(self)@.visible())
                } else {
                    -page(old(self)@.visible())
                },
            ),
    {
        let step: i32 = page_rows(self.visible_rows());
        if forward {
            self.move_cursor(step);
        } else {
            self.move_cursor(-step);
        }
    }

    fn toggle_hidden(&mut self)
        ensures
            ({
                let m = old(self)@;
                let panel = m.panes.focused();
                final(self)@ == m.with_panel(
                    m.panes.focus,
                    PanelModel { show_hidden: !panel.show_hidden, ..panel },
                ).listing(m.panes.focus)
            }),
    {
        let side = self.focus;
        self.panel_mut(side).toggle_hidden();
        self.list_again(side);
    }

    /// A key that moves about.  The result says whether it was one.
    fn move_key(&mut self, key: KeyCode) -> (r: bool)
        ensures
            r <==> old(self)@.moved_by(key) is Some,
            r ==> Some(final(self)@) == old(self)@.moved_by(key),
            !r ==> final(self)@ == old(self)@,
    {
        match key {
            KeyCode::UpArrow | KeyCode::Char('k') => self.step(-1),
            KeyCode::DownArrow | KeyCode::Char('j') => self.step(1),
            KeyCode::LeftArrow | KeyCode::Char('h') => self.go_up(),
            KeyCode::RightArrow | KeyCode::Char('l') | KeyCode::Enter => self.enter_cursor_entry(),
            KeyCode::Char('H') => self.walk_history(false),
            KeyCode::Char('L') => self.walk_history(true),
            KeyCode::Char('Z') => self.send_home(),
            KeyCode::Char('g') => self.press_g(),
            KeyCode::Char('G') | KeyCode::End => self.put_cursor_last(),
            KeyCode::Home => self.put_cursor(0),
            KeyCode::Tab => self.switch_pane(),
            KeyCode::PageUp => self.turn_page(false),
            KeyCode::PageDown => self.turn_page(true),
            _ => {
                return false;
            },
        }
        true
    }

    /// A key that selects, yanks or sends.  The result says whether it was
    /// one.
    fn act_key(&mut self, key: KeyCode) -> (r: bool)
        ensures
            r <==> old(self)@.acted_by(key) is Some,
            r ==> Some(final(self)@) == old(self)@.acted_by(key),
            !r ==> final(self)@ == old(self)@,
    {
        match key {
            KeyCode::Char('o') => self.open_cursor_file(),
            KeyCode::Char('D') => self.download_cursor_to_downloads(),
            KeyCode::Char('y') => self.yank_cursor(false),
            KeyCode::Char('x') => self.yank_cursor(true),
            KeyCode::Char('p') => self.paste_clipboard(),
            KeyCode::Char('P') => {
                // Paste and overwrite whatever is in the way, instead of
                // asking per conflict.
                self.paste_over();
            },
            KeyCode::Char('Y') | KeyCode::Char('X') => self.drop_yank(),
            KeyCode::Char(' ') => self.toggle_mark(),
            KeyCode::Char('u') => self.drop_marks(),
            KeyCode::Char('.') => self.toggle_hidden(),
            KeyCode::Function(5) => self.transfer_marked(),
            _ => {
                return false;
            },
        }
        true
    }

    /// A key that asks for something to be typed or read.  The result says
    /// whether it was one.
    fn ask_key(&mut self, key: KeyCode, shifted: bool) -> (r: bool)
        ensures
            r <==> old(self)@.asked_by(key, shifted) is Some,
            r ==> Some(final(self)@) == old(self)@.asked_by(key, shifted),
            !r ==> final(self)@ == old(self)@,
    {
        match key {
            KeyCode::Char('z') => self.begin_line(InputMode::JumpTo),
            KeyCode::Char('c') => self.press_c(),
            KeyCode::Char('f') => self.press_f(),
            KeyCode::Char('/') => {
                // A shifted `/` is how some layouts and IMEs deliver `?`.
                if shifted {
                    self.help = true;
                } else {
                    self.ask_filter();
                }
            },
            KeyCode::Char('F') => self.ask_filter(),
            KeyCode::Function(1) | KeyCode::Char('?') => {
                self.help = true;
            },
            KeyCode::Function(2) | KeyCode::Char('r') => self.start_rename(),
            KeyCode::Char('a') => self.begin_line(InputMode::Create { directory: false }),
            KeyCode::Function(7) => self.begin_line(InputMode::Create { directory: true }),
            KeyCode::Function(8) | KeyCode::Char('d') => self.ask_deletion(),
            _ => {
                return false;
            },
        }
        true
    }
}

impl AppModel {
    /// A key with the control key held; none where it has no use.
    pub open spec fn controlled(self, key: KeyCode) -> Option<AppModel> {
        let visible = self.visible();
        match key {
            KeyCode::Char('u') => Some(self.cursor_moved(-half(visible))),
            KeyCode::Char('d') => Some(self.cursor_moved(half(visible))),
            KeyCode::Char('b') => Some(self.cursor_moved(-page(visible))),
            KeyCode::Char('f') => Some(self.cursor_moved(page(visible))),
            KeyCode::Char('r') => Some(self.inverted()),
            _ => None,
        }
    }

    /// The listing narrowed to what the line says.
    #[verifier::opaque]
    pub open spec fn filtered_by(self, line: Seq<char>) -> AppModel {
        self.with_line(line).with_panel(
            self.panes.focus,
            self.panes.focused().with_filter(Some(line)),
        )
    }

    /// The filter left as it is.
    #[verifier::opaque]
    pub open spec fn filter_kept(self) -> AppModel {
        self.with_mode(None).noted(
            decimal(self.panes.focused().entries.len()) + " matching entr(y/ies)"@,
        )
    }

    /// The filter gone.
    #[verifier::opaque]
    pub open spec fn filter_dropped(self) -> AppModel {
        self.with_mode(None).with_line(Seq::empty()).with_panel(
            self.panes.focus,
            self.panes.focused().with_filter(None),
        )
    }

    /// A key while the filter is typed; none where it has no use.
    #[verifier::opaque]
    pub open spec fn filter_key_spec(self, key: KeyCode) -> Option<AppModel> {
        match key {
            KeyCode::Enter => Some(self.filter_kept()),
            KeyCode::Escape => Some(self.filter_dropped()),
            KeyCode::Backspace => Some(self.filtered_by(shorter(self.line))),
            KeyCode::Char(c) => Some(self.filtered_by(self.line.push(c))),
            _ => None,
        }
    }

    /// A key while a directory to jump to is typed; none where it has no
    /// use.
    #[verifier::opaque]
    pub open spec fn jump_key_spec(self, key: KeyCode, home: Option<Seq<char>>) -> Option<AppModel> {
        match key {
            KeyCode::Enter => {
                let m = self.with_mode(None).with_line(Seq::empty());
                Some(
                    match jump(home, self.panes.focused().path, self.line) {
                        Some(path) => m.gone_to(path),
                        None => m.failed("no directory given"@),
                    },
                )
            },
            KeyCode::Escape => Some(self.with_mode(None).with_line(Seq::empty())),
            KeyCode::Backspace => Some(self.with_line(shorter(self.line))),
            KeyCode::Char(c) => Some(self.with_line(self.line.push(c))),
            _ => None,
        }
    }

    /// The cursor on the next entry that starts with the key's character.
    #[verifier::opaque]
    pub open spec fn jumped_to_char(self, key: KeyCode) -> AppModel {
        let m = self.with_mode(None);
        let panel = self.panes.focused();
        let len = panel.entries.len() as int;
        match key {
            KeyCode::Char(c) => if len == 0 {
                m
            } else {
                match next_start(panel.entries, ascii_low(c), (panel.cursor + 1) % len, 0) {
                    Some(idx) => m.cursor_put(idx),
                    None => m.noted("no entry starts with "@.push(ascii_low(c))),
                }
            },
            _ => m,
        }
    }

    /// The password prompt answered.
    #[verifier::opaque]
    pub open spec fn password_given(self, password: Option<Seq<char>>, text: Seq<char>) -> AppModel {
        let m = AppModel {
            link: LinkModel { auth_reply: None, connecting: Some(text), ..self.link },
            ..self.with_mode(None).with_line(Seq::empty())
        };
        if self.link.auth_reply == Some(AuthReply::Password) {
            m.caused(EffectModel::AnswerPassword { password })
        } else {
            m
        }
    }

    /// A key while a password is typed; none where it has no use.
    #[verifier::opaque]
    pub open spec fn password_key_spec(self, key: KeyCode) -> Option<AppModel> {
        match key {
            KeyCode::Enter => Some(
                self.password_given(Some(self.line), "Authenticating ..."@),
            ),
            KeyCode::Escape => Some(self.password_given(None, "Cancelling ..."@)),
            KeyCode::Backspace => Some(self.with_line(shorter(self.line))),
            KeyCode::Char(c) => Some(self.with_line(self.line.push(c))),
            _ => None,
        }
    }

    /// A key at the trust prompt; none where it has no use.
    #[verifier::opaque]
    pub open spec fn host_key_spec(self, key: KeyCode) -> Option<AppModel> {
        let yes = key == KeyCode::Char('y') || key == KeyCode::Char('Y');
        let no = key == KeyCode::Escape || key == KeyCode::Char('n') || key == KeyCode::Char('N');
        if !yes && !no {
            None
        } else {
            let m = AppModel {
                link: LinkModel {
                    auth_reply: None,
                    connecting: Some("Connecting ..."@),
                    ..self.link
                },
                ..self.with_mode(None).with_line(Seq::empty())
            };
            Some(
                if self.link.auth_reply == Some(AuthReply::HostVerify) {
                    m.caused(EffectModel::AnswerHostKey { trust: yes })
                } else {
                    m
                },
            )
        }
    }

    /// An entered line done with, in the mode it was typed for.
    #[verifier::opaque]
    pub open spec fn line_entered(self) -> AppModel {
        let m = self.with_mode(None).with_line(Seq::empty());
        let side = self.panes.focus;
        let panel = self.panes.focused();
        match self.queue.mode {
            Some(ModeModel::Create { directory }) => {
                let name = trim_end(self.line, '/');
                if name.len() == 0 {
                    m.failed("name is empty"@)
                } else {
                    m.asked(
                        RequestModel::Create {
                            side,
                            path: path_in(panel.path, name),
                            is_dir: directory || ends_in(self.line, '/'),
                        },
                    )
                }
            },
            Some(ModeModel::Rename { original }) => if self.line.len() == 0 || self.line
                == original {
                m.noted("rename cancelled"@)
            } else {
                m.asked(
                    RequestModel::Rename {
                        side,
                        from: path_in(panel.path, original),
                        to: path_in(panel.path, self.line),
                    },
                )
            },
            Some(ModeModel::ConfirmDelete { names }) => if alike(trim(self.line), "y"@) || alike(
                trim(self.line),
                "yes"@,
            ) {
                AppModel { out: m.out.deleted(side, panel, names, names.len() as int), ..m }
            } else {
                m.noted("delete cancelled"@)
            },
            _ => m,
        }
    }

    /// A key while a name or an answer is typed; none where it has no use.
    #[verifier::opaque]
    pub open spec fn plain_key_spec(self, key: KeyCode) -> Option<AppModel> {
        match key {
            KeyCode::Enter => Some(self.line_entered()),
            KeyCode::Escape => Some(self.with_mode(None).with_line(Seq::empty())),
            KeyCode::Backspace => Some(self.with_line(shorter(self.line))),
            KeyCode::Char(c) => Some(self.with_line(self.line.push(c))),
            _ => None,
        }
    }

    /// A key while there is an input line; none where it has no use.
    pub open spec fn lined(self, key: KeyCode, home: Option<Seq<char>>) -> Option<AppModel> {
        match self.queue.mode {
            Some(ModeModel::Password { .. }) => self.password_key_spec(key),
            Some(ModeModel::ConfirmHostKey { .. }) => self.host_key_spec(key),
            Some(ModeModel::ConfirmOverwrite) => Some(self.with_queue(self.queue.decided(key))),
            Some(ModeModel::ConfirmFolder { .. }) => Some(self.folder_answered(key)),
            Some(ModeModel::JumpTo) => self.jump_key_spec(key, home),
            Some(ModeModel::JumpToChar) => Some(self.jumped_to_char(key)),
            Some(ModeModel::Filter) => self.filter_key_spec(key),
            _ => self.plain_key_spec(key),
        }
    }

    /// The key goes on with a chord that is half typed.
    pub open spec fn completes(self, key: KeyCode) -> bool {
        (self.flags.pending_g && completes_g(key)) || (self.flags.pending_c && completes_c(key))
    }

    /// Half-typed chords that the key does not go on with are abandoned.
    pub open spec fn with_chords_for(self, key: KeyCode) -> AppModel {
        self.with_flags(
            FlagModel {
                pending_g: self.flags.pending_g && completes_g(key),
                pending_c: self.flags.pending_c && completes_c(key),
                ..self.flags
            },
        )
    }

    /// The browser after a key, and what became of the key.
    #[verifier::opaque]
    pub open spec fn after_key(self, key: KeyEvent, home: Option<Seq<char>>) -> (
        AppModel,
        Result<Handled, bool>,
    ) {
        if key.modifiers != MOD_NONE && key.modifiers != MOD_SHIFT {
            if key.modifiers == MOD_CTRL && key.key == KeyCode::Char('c') {
                (self, Ok(Handled::Quit))
            } else if key.modifiers == MOD_CTRL && self.controlled(key.key) is Some {
                (self.controlled(key.key)->0, Ok(Handled::Consumed))
            } else {
                (self, Err(false))
            }
        } else {
            let m = self.with_chords_for(key.key);
            if m.flags.help {
                (
                    m.with_flags(FlagModel { help: false, ..m.flags }),
                    Ok(Handled::Consumed),
                )
            } else if m.queue.mode is Some {
                match m.lined(key.key, home) {
                    Some(n) => (n, Ok(Handled::Consumed)),
                    None => (m, Err(false)),
                }
            } else if key.key == KeyCode::Char('q') || key.key == KeyCode::Escape {
                (m, Ok(Handled::Quit))
            } else {
                match m.browsed(key) {
                    Some(n) => (n, Ok(Handled::Consumed)),
                    None => (m, Err(false)),
                }
            }
        }
    }
}

impl App {
    /// A key with the control key held: half and full pages, and the
    /// selection inverted.  The result says whether it was one.
    fn control_key(&mut self, key: KeyCode) -> (r: bool)
        ensures
            r <==> old(self)@.controlled(key) is Some,
            r ==> Some(final(self)@) == old(self)@.controlled(key),
            !r ==> final(self)@ == old(self)@,
    {
        let visible: usize = self.visible_rows();
        match key {
            KeyCode::Char('u') => self.move_cursor(-half_rows(visible)),
            KeyCode::Char('d') => self.move_cursor(half_rows(visible)),
            KeyCode::Char('b') => self.move_cursor(-page_rows(visible)),
            KeyCode::Char('f') => self.move_cursor(page_rows(visible)),
            KeyCode::Char('r') => self.toggle_all(),
            _ => {
                return false;
            },
        }
        true
    }

    fn pop_line(&mut self)
        ensures
            final(self)@ == old(self)@.with_line(shorter(old(self)@.line)),
    {
        self.input_line.pop();
    }

    fn take_line(&mut self) -> (r: String)
        ensures
            r@ == old(self)@.line,
            final(self)@ == old(self)@.with_line(Seq::empty()),
    {
        let mut line = String::new();
        core::mem::swap(&mut self.input_line, &mut line);
        proof {
            assert(self@.line =~= Seq::<char>::empty());
        }
        line
    }

    fn filter_by(&mut self, line: String)
        ensures
            final(self)@ == old(self)@.filtered_by(line@),
    {
        proof {
            reveal(AppModel::filtered_by);
        }
        let side = self.focus;
        let needle = line.clone();
        self.input_line = line;
        self.panel_mut(side).set_filter(Some(needle));
    }

    fn keep_filter(&mut self)
        ensures
            final(self)@ == old(self)@.filter_kept(),
    {
        proof {
            reveal(AppModel::filter_kept);
        }
        let side = self.focus;
        self.input_mode = None;
        let kept: usize = self.panel(side).entries.len();
        let text = cat(number(kept as u64).as_str(), " matching entr(y/ies)");
        self.set_message(text.as_str());
    }

    fn drop_filter(&mut self)
        ensures
            final(self)@ == old(self)@.filter_dropped(),
    {
        proof {
            reveal(AppModel::filter_dropped);
        }
        let side = self.focus;
        self.leave_line();
        self.panel_mut(side).set_filter(None);
    }

    fn leave_line(&mut self)
        ensures
            final(self)@ == old(self)@.with_mode(None).with_line(Seq::empty()),
    {
        self.input_mode = None;
        self.input_line.clear();
    }

    fn push_line(&mut self, c: char)
        ensures
            final(self)@ == old(self)@.with_line(old(self)@.line.push(c)),
    {
        self.input_line.push(c);
    }

    /// Narrow the listing as the filter is typed.  The result says whether
    /// the key had a use.
    pub fn handle_filter_line(&mut self, key: KeyCode) -> (r: bool)
        ensures
            r <==> old(self)@.filter_key_spec(key) is Some,
            r ==> Some(final(self)@) == old(self)@.filter_key_spec(key),
            !r ==> final(self)@ == old(self)@,
    {
        proof {
            reveal(AppModel::filter_key_spec);
        }
        match key {
            KeyCode::Enter => self.keep_filter(),
            KeyCode::Escape => self.drop_filter(),
            KeyCode::Backspace => {
                let mut line = self.input_line.clone();
                line.pop();
                self.filter_by(line);
            },
            KeyCode::Char(c) => {
                let mut line = self.input_line.clone();
                line.push(c);
                self.filter_by(line);
            },
            _ => {
                return false;
            },
        }
        true
    }

    /// Type a directory to jump to, absolute or relative to the pane.  The
    /// result says whether the key had a use.
    pub fn handle_jump_line(&mut self, key: KeyCode, home: &Option<String>) -> (r: bool)
        ensures
            r <==> old(self)@.jump_key_spec(key, opt(*home)) is Some,
            r ==> Some(final(self)@) == old(self)@.jump_key_spec(key, opt(*home)),
            !r ==> final(self)@ == old(self)@,
    {
        proof {
            reveal(AppModel::jump_key_spec);
        }
        let side = self.focus;
        match key {
            KeyCode::Enter => {
                self.input_mode = None;
                let line = self.take_line();
                let base = self.panel(side).path.clone();
                let at_home = home.clone();
                proof {
                    assert(opt(at_home) == opt(*home));
                }
                match jump_target_from(at_home, base.as_str(), line.as_str()) {
                    Some(path) => self.go_to(side, path),
                    None => self.set_error("no directory given"),
                }
            },
            KeyCode::Escape => self.leave_line(),
            KeyCode::Backspace => self.pop_line(),
            KeyCode::Char(c) => self.push_line(c),
            _ => {
                return false;
            },
        }
        true
    }

    /// Move the cursor to the next entry whose name starts with the typed
    /// character, wrapping around the listing.
    pub fn handle_jump_to_char(&mut self, key: KeyCode)
        ensures
            final(self)@ == old(self)@.jumped_to_char(key),
    {
        proof {
            reveal(AppModel::jumped_to_char);
        }
        self.input_mode = None;
        let c = match key {
            KeyCode::Char(c) => ascii_lower(c),
            _ => {
                return;
            },
        };
        let side = self.focus;
        let len: usize = self.panel(side).entries.len();
        if len == 0 {
            return;
        }
        let from: usize = ((self.panel(side).cursor as u128 + 1) % len as u128) as usize;
        match find_start(&self.panel(side).entries, c, from) {
            Some(idx) => self.put_cursor(idx),
            None => {
                let mut text = "no entry starts with ".to_owned();
                text.push(c);
                self.set_message(text.as_str());
            },
        }
    }

    fn give_password(&mut self, password: Option<String>, text: &str)
        ensures
            final(self)@ == old(self)@.password_given(opt(password), text@),
    {
        proof {
            reveal(AppModel::password_given);
        }
        self.leave_line();
        let waiting = match &self.auth_reply {
            Some(AuthReply::Password) => true,
            _ => false,
        };
        self.auth_reply = None;
        self.connecting = Some(text.to_owned());
        if waiting {
            self.cause(Effect::AnswerPassword { password });
        }
    }

    /// Masked password entry during the ssh handshake.  Enter sends the
    /// typed password to the handshake, Escape cancels authentication.  The
    /// result says whether the key had a use.
    pub fn handle_password_line(&mut self, key: KeyCode) -> (r: bool)
        ensures
            r <==> old(self)@.password_key_spec(key) is Some,
            r ==> Some(final(self)@) == old(self)@.password_key_spec(key),
            !r ==> final(self)@ == old(self)@,
    {
        proof {
            reveal(AppModel::password_key_spec);
        }
        match key {
            KeyCode::Enter => {
                let password = self.input_line.clone();
                self.give_password(Some(password), "Authenticating ...");
            },
            KeyCode::Escape => self.give_password(None, "Cancelling ..."),
            KeyCode::Backspace => self.pop_line(),
            KeyCode::Char(c) => self.push_line(c),
            _ => {
                return false;
            },
        }
        true
    }

    /// Unknown-host trust decision: y trusts the key, n or Escape rejects.
    /// The result says whether the key had a use.
    pub fn handle_host_key_line(&mut self, key: KeyCode) -> (r: bool)
        ensures
            r <==> old(self)@.host_key_spec(key) is Some,
            r ==> Some(final(self)@) == old(self)@.host_key_spec(key),
            !r ==> final(self)@ == old(self)@,
    {
        proof {
            reveal(AppModel::host_key_spec);
        }
        let trust = key == KeyCode::Char('y') || key == KeyCode::Char('Y');
        let reject = key == KeyCode::Escape || key == KeyCode::Char('n') || key == KeyCode::Char(
            'N',
        );
        if !trust && !reject {
            return false;
        }
        self.input_mode = None;
        self.input_line.clear();
        let waiting = match &self.auth_reply {
            Some(AuthReply::HostVerify) => true,
            _ => false,
        };
        self.auth_reply = None;
        self.connecting = Some("Connecting ...".to_owned());
        if waiting {
            self.cause(Effect::AnswerHostKey { trust });
        }
        true
    }

    fn delete_names(&mut self, names: &Vec<String>)
        ensures
            final(self)@ == (AppModel {
                out: old(self)@.out.deleted(
                    old(self)@.panes.focus,
                    old(self)@.panes.focused(),
                    texts(names@),
                    names@.len() as int,
                ),
                ..old(self)@
            }),
    {
        let ghost start = self@;
        let side = self.focus;
        let mut i: usize = 0;
        while i < names.len()
            invariant
                i <= names@.len(),
                side == start.panes.focus,
                self@ == (AppModel {
                    out: start.out.deleted(
                        side,
                        start.panes.focused(),
                        texts(names@),
                        i as int,
                    ),
                    ..start
                }),
            decreases names@.len() - i,
        {
            proof {
                assert(texts(names@)[i as int] == names@[i as int]@);
            }
            match is_dir_named(&self.panel(side).entries, names[i].as_str()) {
                Some(is_dir) => {
                    let path = join_path(self.panel(side).path.as_str(), names[i].as_str());
                    self.ask(OpRequest::Delete { side, path, is_dir });
                },
                None => {},
            }
            i += 1;
        }
    }

    fn enter_line(&mut self)
        ensures
            final(self)@ == old(self)@.line_entered(),
    {
        proof {
            reveal(AppModel::line_entered);
        }
        let ghost start = self@;
        let mut mode: Option<InputMode> = None;
        core::mem::swap(&mut self.input_mode, &mut mode);
        let line = self.take_line();
        let side = self.focus;
        let path = self.panel(side).path.clone();
        match mode {
            Some(InputMode::Create { directory }) => {
                // A trailing `/` asks for a directory; F7 always does.
                let is_dir = directory || draws_directory(line.as_str());
                let name = trimmed_end(line.as_str(), '/');
                if name.as_str().is_empty() {
                    self.set_error("name is empty");
                } else {
                    let target = join_path(path.as_str(), name.as_str());
                    self.ask(OpRequest::Create { side, path: target, is_dir });
                }
            },
            Some(InputMode::Rename { original }) => {
                if line.as_str().is_empty() || same(line.as_str(), original.as_str()) {
                    self.set_message("rename cancelled");
                } else {
                    let from = join_path(path.as_str(), original.as_str());
                    let to = join_path(path.as_str(), line.as_str());
                    self.ask(OpRequest::Rename { side, from, to });
                }
            },
            Some(InputMode::ConfirmDelete { names }) => {
                let answer = trimmed(line.as_str());
                if same_ignoring_case(answer.as_str(), "y") || same_ignoring_case(
                    answer.as_str(),
                    "yes",
                ) {
                    self.delete_names(&names);
                } else {
                    self.set_message("delete cancelled");
                }
            },
            _ => {},
        }
    }

    fn plain_line(&mut self, key: KeyCode) -> (r: bool)
        ensures
            r <==> old(self)@.plain_key_spec(key) is Some,
            r ==> Some(final(self)@) == old(self)@.plain_key_spec(key),
            !r ==> final(self)@ == old(self)@,
    {
        proof {
            reveal(AppModel::plain_key_spec);
        }
        match key {
            KeyCode::Enter => self.enter_line(),
            KeyCode::Escape => self.leave_line(),
            KeyCode::Backspace => self.pop_line(),
            KeyCode::Char(c) => self.push_line(c),
            _ => {
                return false;
            },
        }
        true
    }

    /// A key while there is an input line.  The result says whether the key
    /// had a use.
    pub fn handle_input_line(&mut self, key: KeyCode, home: &Option<String>) -> (r: bool)
        ensures
            r <==> old(self)@.lined(key, opt(*home)) is Some,
            r ==> Some(final(self)@) == old(self)@.lined(key, opt(*home)),
            !r ==> final(self)@ == old(self)@,
    {
        match &self.input_mode {
            Some(InputMode::Password { .. }) => self.handle_password_line(key),
            Some(InputMode::ConfirmHostKey { .. }) => self.handle_host_key_line(key),
            Some(InputMode::ConfirmOverwrite) => {
                self.decide_overwrite(key);
                true
            },
            Some(InputMode::ConfirmFolder { .. }) => {
                self.confirm_folder(key);
                true
            },
            Some(InputMode::JumpTo) => self.handle_jump_line(key, home),
            Some(InputMode::JumpToChar) => {
                self.handle_jump_to_char(key);
                true
            },
            Some(InputMode::Filter) => self.handle_filter_line(key),
            _ => self.plain_line(key),
        }
    }

    fn browse_key(&mut self, key: KeyEvent) -> (r: bool)
        ensures
            r <==> old(self)@.browsed(key) is Some,
            r ==> Some(final(self)@) == old(self)@.browsed(key),
            !r ==> final(self)@ == old(self)@,
    {
        if self.move_key(key.key) {
            true
        } else if self.act_key(key.key) {
            true
        } else {
            self.ask_key(key.key, key.modifiers == MOD_SHIFT)
        }
    }

    fn drop_chords(&mut self, key: KeyCode)
        ensures
            final(self)@ == old(self)@.with_chords_for(key),
    {
        if key != KeyCode::Char('g') {
            self.pending_g = false;
        }
        if key != KeyCode::Char('c') && key != KeyCode::Char('f') {
            self.pending_c = false;
        }
    }

    /// Handle one key, in the account whose home directory is `home`.
    pub fn handle_key_from(&mut self, key: KeyEvent, home: &Option<String>) -> (r: Result<
        Handled,
        bool,
    >)
        ensures
            (final(self)@, r) == old(self)@.after_key(key, opt(*home)),
    {
        proof {
            reveal(AppModel::after_key);
        }
        if key.modifiers != MOD_NONE && key.modifiers != MOD_SHIFT {
            if key.modifiers == MOD_CTRL {
                if key.key == KeyCode::Char('c') {
                    return Ok(Handled::Quit);
                }
                if self.control_key(key.key) {
                    return Ok(Handled::Consumed);
                }
            }
            return Err(false);
        }
        // A half-typed chord is abandoned by any unrelated key, so it cannot
        // swallow the next keystroke.
        self.drop_chords(key.key);
        // The key reference is modal: any key dismisses it.
        if self.help {
            self.help = false;
            return Ok(Handled::Consumed);
        }
        // Input-line modes capture plain keys first.
        if self.input_mode.is_some() {
            return if self.handle_input_line(key.key, home) {
                Ok(Handled::Consumed)
            } else {
                Err(false)
            };
        }
        if key.key == KeyCode::Char('q') || key.key == KeyCode::Escape {
            return Ok(Handled::Quit);
        }
        if self.browse_key(key) {
            Ok(Handled::Consumed)
        } else {
            Err(false)
        }
    }

    /// Handle one key, with the home directory of the running account.
    pub fn handle_key(&mut self, key: KeyEvent) -> (r: Result<Handled, bool>)
        ensures
            exists|home: Option<Seq<char>>|
                (final(self)@, r) == #[trigger] old(self)@.after_key(key, home),
    {
        let home = home_dir();
        let ghost before = self@;
        let r = self.handle_key_from(key, &home);
        proof {
            assert((self@, r) == before.after_key(key, opt(home)));
        }
        r
    }
}

/// A trailing separator in the typed name means "directory".
fn draws_directory(typed: &str) -> (r: bool)
    ensures
        r == ends_in(typed@, '/'),
{
    ends_with(typed, '/')
}

/// The first entry from `from` on, around the listing, whose name starts
/// with `c`.
fn find_start(entries: &Vec<FileEntry>, c: char, from: usize) -> (r: Option<usize>)
    requires
        from < entries@.len(),
    ensures
        match r {
            Some(i) => next_start(entries@, c, from as int, 0) == Some(i as int),
            None => next_start(entries@, c, from as int, 0) is None,
        },
{
    let len: usize = entries.len();
    let mut step: usize = 0;
    while step < len
        invariant
            step <= len == entries@.len(),
            from < len,
            next_start(entries@, c, from as int, 0) == next_start(
                entries@,
                c,
                from as int,
                step as int,
            ),
        decreases len - step,
    {
        let left: usize = len - from;
        let idx: usize = if step < left {
            from + step
        } else {
            step - left
        };
        proof {
            lemma_around(from as int, step as int, len as int, idx as int);
        }
        let name = chars_of(entries[idx].name.as_str());
        if name.len() > 0 && ascii_lower(name[0]) == c {
            return Some(idx);
        }
        step += 1;
    }
    None
}

proof fn lemma_around(from: int, step: int, len: int, idx: int)
    requires
        0 <= from < len,
        0 <= step < len,
        idx == if from + step < len {
            from + step
        } else {
            from + step - len
        },
    ensures
        (from + step) % len == idx,
{
    if from + step < len {
        vstd::arithmetic::div_mod::lemma_small_mod((from + step) as nat, len as nat);
    } else {
        vstd::arithmetic::div_mod::lemma_mod_add_multiples_vanish(idx, len);
        vstd::arithmetic::div_mod::lemma_small_mod(idx as nat, len as nat);
    }
}

/// No chord is half typed in `n` that was not in `m`.
spec fn begins_no_chord(m: AppModel, n: Option<AppModel>) -> bool {
    n is Some ==> (n->0.flags.pending_c ==> m.flags.pending_c) && (n->0.flags.pending_g
        ==> m.flags.pending_g)
}

proof fn lemma_moves_begin_no_chord(m: AppModel, key: KeyCode)
    requires
        !completes_g(key),
    ensures
        begins_no_chord(m, m.moved_by(key)),
{
    reveal(AppModel::stepped);
    reveal(AppModel::risen);
    reveal(AppModel::switched);
    reveal(AppModel::entered);
    reveal(AppModel::file_opened);
    reveal(AppModel::walked);
    reveal(AppModel::sent_home);
    reveal(AppModel::cursor_put);
    reveal(AppModel::cursor_moved);
}

proof fn lemma_acts_begin_no_chord(m: AppModel, key: KeyCode)
    ensures
        begins_no_chord(m, m.acted_by(key)),
{
    reveal(AppModel::file_opened);
    reveal(AppModel::download_asked);
    reveal(AppModel::with_yank);
    reveal(AppModel::pasted);
    reveal(AppModel::pasted_over);
    reveal(AppModel::unyanked);
    reveal(AppModel::mark_toggled);
    reveal(AppModel::marks_cleared);
    reveal(AppModel::sent);
}

proof fn lemma_prompts_begin_no_chord(m: AppModel, key: KeyCode, shifted: bool)
    requires
        key != KeyCode::Char('c'),
    ensures
        begins_no_chord(m, m.asked_by(key, shifted)),
{
    reveal(AppModel::f_pressed);
    reveal(AppModel::lines_copied);
    reveal(AppModel::filter_asked);
    reveal(AppModel::rename_asked);
    reveal(AppModel::deletion_asked);
}

proof fn lemma_lines_begin_no_chord(m: AppModel, key: KeyCode, home: Option<Seq<char>>)
    ensures
        begins_no_chord(m, m.lined(key, home)),
{
    reveal(AppModel::filtered_by);
    reveal(AppModel::filter_kept);
    reveal(AppModel::filter_dropped);
    reveal(AppModel::filter_key_spec);
    reveal(AppModel::jump_key_spec);
    reveal(AppModel::jumped_to_char);
    reveal(AppModel::cursor_put);
    reveal(AppModel::password_given);
    reveal(AppModel::password_key_spec);
    reveal(AppModel::host_key_spec);
    reveal(AppModel::line_entered);
    reveal(AppModel::plain_key_spec);
    reveal(AppModel::folder_answered);
}

proof fn lemma_g_leaves_c(m: AppModel)
    requires
        !m.flags.pending_c,
    ensures
        !m.g_pressed().flags.pending_c,
{
    reveal(AppModel::g_pressed);
    reveal(AppModel::cursor_put);
}

proof fn lemma_c_leaves_g(m: AppModel)
    requires
        !m.flags.pending_g,
    ensures
        !m.c_pressed().flags.pending_g,
{
    reveal(AppModel::c_pressed);
    reveal(AppModel::lines_copied);
}

proof fn lemma_browsing_chords(m: AppModel, key: KeyEvent)
    ensures
        m.browsed(key) is Some ==> {
            &&& !completes_g(key.key) && !m.flags.pending_g ==> !m.browsed(
                key,
            )->0.flags.pending_g
            &&& !completes_c(key.key) && !m.flags.pending_c ==> !m.browsed(
                key,
            )->0.flags.pending_c
        },
{
    if completes_g(key.key) {
        if !m.flags.pending_c {
            lemma_g_leaves_c(m);
        }
    } else if key.key == KeyCode::Char('c') {
        if !m.flags.pending_g {
            lemma_c_leaves_g(m);
        }
    } else {
        lemma_moves_begin_no_chord(m, key.key);
        lemma_acts_begin_no_chord(m, key.key);
        lemma_prompts_begin_no_chord(m, key.key, key.modifiers == MOD_SHIFT);
    }
}

/// A half-typed chord does not swallow the next keystroke: a plain key that
/// does not complete it does what it does without it.
pub proof fn a_half_typed_chord_swallows_nothing(
    m: AppModel,
    key: KeyEvent,
    home: Option<Seq<char>>,
)
    requires
        key.modifiers == MOD_NONE || key.modifiers == MOD_SHIFT,
    ensures
        !m.completes(key.key) ==> m.after_key(key, home) == m.chordless().after_key(key, home),
        !completes_g(key.key) ==> m.after_key(key, home) == m.without_g().after_key(key, home),
        !completes_c(key.key) ==> m.after_key(key, home) == m.without_c().after_key(key, home),
{
    reveal(AppModel::after_key);
    let k = key.key;
    assert(!m.completes(k) ==> m.with_chords_for(k) == m.chordless().with_chords_for(k));
    assert(!completes_g(k) ==> m.with_chords_for(k) == m.without_g().with_chords_for(k));
    assert(!completes_c(k) ==> m.with_chords_for(k) == m.without_c().with_chords_for(k));
}

/// Any unrelated plain key abandons a half-typed chord: after a key other
/// than `g` the chord of `g` is gone, and after one other than `c` and `f`
/// that of `c`.
pub proof fn an_unrelated_key_abandons_the_chord(
    m: AppModel,
    key: KeyEvent,
    home: Option<Seq<char>>,
)
    requires
        key.modifiers == MOD_NONE || key.modifiers == MOD_SHIFT,
    ensures
        !completes_g(key.key) ==> !m.after_key(key, home).0.flags.pending_g,
        !completes_c(key.key) ==> !m.after_key(key, home).0.flags.pending_c,
{
    reveal(AppModel::after_key);
    let d = m.with_chords_for(key.key);
    lemma_lines_begin_no_chord(d, key.key, home);
    lemma_browsing_chords(d, key);
}

/// No answer for all is left in `n` where none was in `m`.
spec fn leaves_no_answer(m: AppModel, n: Option<AppModel>) -> bool {
    n is Some && m.queue.overwrite_all is None ==> n->0.queue.overwrite_all is None
}

proof fn lemma_moves_leave_no_answer(m: AppModel, key: KeyCode)
    ensures
        leaves_no_answer(m, m.moved_by(key)),
{
    reveal(AppModel::stepped);
    reveal(AppModel::risen);
    reveal(AppModel::switched);
    reveal(AppModel::entered);
    reveal(AppModel::file_opened);
    reveal(AppModel::walked);
    reveal(AppModel::sent_home);
    reveal(AppModel::cursor_put);
    reveal(AppModel::cursor_moved);
    reveal(AppModel::g_pressed);
}

proof fn lemma_acts_leave_no_answer(m: AppModel, key: KeyCode)
    ensures
        leaves_no_answer(m, m.acted_by(key)),
{
    reveal(AppModel::file_opened);
    reveal(AppModel::download_asked);
    reveal(AppModel::with_yank);
    reveal(AppModel::pasted_over);
    reveal(AppModel::unyanked);
    reveal(AppModel::mark_toggled);
    reveal(AppModel::marks_cleared);
    if m.queue.overwrite_all is None {
        lemma_paste_leaves_no_answer(m);
        lemma_sending_leaves_no_answer(m);
    }
}

proof fn lemma_prompts_leave_no_answer(m: AppModel, key: KeyCode, shifted: bool)
    ensures
        leaves_no_answer(m, m.asked_by(key, shifted)),
{
    reveal(AppModel::c_pressed);
    reveal(AppModel::f_pressed);
    reveal(AppModel::lines_copied);
    reveal(AppModel::filter_asked);
    reveal(AppModel::rename_asked);
    reveal(AppModel::deletion_asked);
}

proof fn lemma_lines_leave_no_answer(m: AppModel, key: KeyCode, home: Option<Seq<char>>)
    ensures
        leaves_no_answer(m, m.lined(key, home)),
{
    reveal(AppModel::filtered_by);
    reveal(AppModel::filter_kept);
    reveal(AppModel::filter_dropped);
    reveal(AppModel::filter_key_spec);
    reveal(AppModel::jump_key_spec);
    reveal(AppModel::jumped_to_char);
    reveal(AppModel::cursor_put);
    reveal(AppModel::password_given);
    reveal(AppModel::password_key_spec);
    reveal(AppModel::host_key_spec);
    reveal(AppModel::line_entered);
    reveal(AppModel::plain_key_spec);
    if m.queue.overwrite_all is None {
        lemma_decision_leaves_no_answer(m.queue, key);
        lemma_folder_leaves_no_answer(m, key);
    }
}

/// An answer for all holds for the queue it was given for and no other: no
/// key leaves one behind, so a stale answer cannot skip the next prompt.
pub proof fn no_key_leaves_an_answer_behind(
    m: AppModel,
    key: KeyEvent,
    home: Option<Seq<char>>,
)
    requires
        m.queue.overwrite_all is None,
    ensures
        m.after_key(key, home).0.queue.overwrite_all is None,
{
    reveal(AppModel::after_key);
    reveal(AppModel::cursor_moved);
    reveal(AppModel::inverted);
    let d = m.with_chords_for(key.key);
    lemma_lines_leave_no_answer(d, key.key, home);
    lemma_moves_leave_no_answer(d, key.key);
    lemma_acts_leave_no_answer(d, key.key);
    lemma_prompts_leave_no_answer(d, key.key, key.modifiers == MOD_SHIFT);
}

} // verus!

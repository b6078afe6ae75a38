//! Input events of the overlay: keys, pasted text, the mouse and resizes.

use crate::edit_sync::passed;
use crate::input::Handled;
use crate::keys::{keys_only, parse_keys, parsed, InputEvent, InputModel, KeyEvent, MouseEvent};
use crate::panel::PanelModel;
use crate::paths::{home_dir, opt, path_in};
use crate::state::{
    App, AppModel, EffectModel, FlagModel, FrameModel, InputMode, ModeModel, PanesModel, QueueModel,
    RequestModel,
};
use crate::text::{printable, without_controls};
use crate::types::PanelSide;
use vstd::prelude::*;
use vstd::string::*;

verus! {

/// Milliseconds within which a second click on an entry opens it.
pub const DOUBLE_CLICK: u64 = 400;

/// Rows the wheel moves the cursor by.
pub const WHEEL_ROWS: i32 = 3;

impl QueueModel {
    /// The overwrite decisions of the first `n` keys.
    pub open spec fn decided_all(self, keys: Seq<KeyEvent>, n: int) -> QueueModel
        decreases n,
    {
        if n <= 0 {
            self
        } else {
            self.decided_all(keys, n - 1).decided(keys[n - 1].key)
        }
    }
}

impl AppModel {
    pub open spec fn with_quit(self) -> AppModel {
        AppModel { flags: FlagModel { quit: true, ..self.flags }, ..self }
    }

    /// The first `n` keys handled one after the other, and whether that
    /// calls for a redraw.
    pub open spec fn after_keys(self, keys: Seq<KeyEvent>, home: Option<Seq<char>>, n: int) -> (
        AppModel,
        bool,
    )
        decreases n,
    {
        if n <= 0 {
            (self, false)
        } else {
            let (m, redraw) = self.after_keys(keys, home, n - 1);
            let (app, what) = m.after_key(keys[n - 1], home);
            match what {
                Ok(Handled::Consumed) => (app, true),
                Ok(Handled::Quit) => (app.with_quit(), redraw),
                Err(ignored) => (app, redraw || ignored),
            }
        }
    }

    /// The panel under the mouse focused and its cursor on the row.
    pub open spec fn clicked_on(self, x: int, y: int) -> AppModel {
        let side = if x < self.frame.cols / 2 {
            PanelSide::Local
        } else {
            PanelSide::Remote
        };
        let panel = self.panel_of(side);
        (AppModel { panes: PanesModel { focus: side, ..self.panes }, ..self }).with_panel(
            side,
            panel.jumped(panel.offset + y - 1, self.visible()),
        )
    }

    /// A click remembered, for a second one to be told.
    pub open spec fn click_noted(self, now: u64) -> AppModel {
        AppModel {
            flags: FlagModel {
                last_click: Some((self.panes.focus, self.panes.focused().cursor, now)),
                ..self.flags
            },
            ..self
        }
    }

    /// The last click was on the same entry, a moment ago.
    pub open spec fn clicked_twice(self, now: u64) -> bool {
        match self.flags.last_click {
            Some((side, idx, at)) => side == self.panes.focus && idx
                == self.panes.focused().cursor && passed(at, now) < DOUBLE_CLICK,
            None => false,
        }
    }

    /// The browser after a mouse report, and whether to redraw.  A click is
    /// a press that was not held before, so dragging counts once.
    #[verifier::opaque]
    pub open spec fn after_mouse(self, mouse: MouseEvent, now: u64) -> (AppModel, bool) {
        if mouse.vert_wheel {
            (
                self.cursor_moved(
                    if mouse.wheel_positive {
                        -(WHEEL_ROWS as int)
                    } else {
                        WHEEL_ROWS as int
                    },
                ),
                true,
            )
        } else {
            let clicked = mouse.left && !self.flags.left_down;
            let m = AppModel { flags: FlagModel { left_down: mouse.left, ..self.flags }, ..self };
            if !clicked || mouse.y == 0 || mouse.y > self.visible() {
                (m, false)
            } else {
                let c = m.clicked_on(mouse.x as int, mouse.y as int);
                let n = c.click_noted(now);
                (
                    if c.clicked_twice(now) {
                        n.entered()
                    } else {
                        n
                    },
                    true,
                )
            }
        }
    }

    /// The browser after a pasted text, and whether to redraw.  In an input
    /// line it is text to insert; otherwise it is keystrokes.
    #[verifier::opaque]
    pub open spec fn after_paste(self, text: Seq<char>, home: Option<Seq<char>>) -> (AppModel, bool) {
        let keys = keys_only(parsed(text));
        match self.queue.mode {
            Some(ModeModel::ConfirmOverwrite) => (
                self.with_queue(self.queue.decided_all(keys, keys.len() as int)),
                keys.len() > 0,
            ),
            Some(_) => (self.with_line(self.line + printable(text)), true),
            None => self.after_keys(keys, home, keys.len() as int),
        }
    }

    /// The browser after an input event, and whether to redraw.
    pub open spec fn after_input(self, event: InputModel, home: Option<Seq<char>>, now: u64) -> (
        AppModel,
        bool,
    ) {
        match event {
            InputModel::Key(key) => {
                let (app, what) = self.after_key(key, home);
                match what {
                    Ok(Handled::Consumed) => (app, true),
                    Ok(Handled::Quit) => (app.with_quit(), true),
                    Err(ignored) => (app, ignored),
                }
            },
            InputModel::Mouse(mouse) => self.after_mouse(mouse, now),
            InputModel::Resized { cols, rows } => (
                AppModel { frame: FrameModel { cols, rows, ..self.frame }, ..self },
                true,
            ),
            InputModel::Paste(text) => self.after_paste(text, home),
            InputModel::Other => (self, false),
        }
    }
}

impl App {
    /// The keystrokes of a pasted text that answer the overwrite prompt.
    pub fn decide_all(&mut self, keys: &Vec<KeyEvent>) -> (redraw: bool)
        ensures
            final(self)@ == old(self)@.with_queue(
                old(self)@.queue.decided_all(keys@, keys@.len() as int),
            ),
            redraw == (keys@.len() > 0),
    {
        let ghost start = self@;
        let mut redraw = false;
        let mut i: usize = 0;
        while i < keys.len()
            invariant
                i <= keys@.len(),
                self@ == start.with_queue(start.queue.decided_all(keys@, i as int)),
                redraw == (i > 0),
            decreases keys@.len() - i,
        {
            self.decide_overwrite(keys[i].key);
            redraw = true;
            i += 1;
        }
        redraw
    }

    /// Keystrokes handled one after the other: every one of them counts.
    pub fn handle_keys(&mut self, keys: &Vec<KeyEvent>, home: &Option<String>) -> (redraw: bool)
        ensures
            (final(self)@, redraw) == old(self)@.after_keys(keys@, opt(*home), keys@.len() as int),
    {
        let ghost start = self@;
        let mut redraw = false;
        let mut i: usize = 0;
        while i < keys.len()
            invariant
                i <= keys@.len(),
                (self@, redraw) == start.after_keys(keys@, opt(*home), i as int),
            decreases keys@.len() - i,
        {
            match self.handle_key_from(keys[i], home) {
                Ok(Handled::Consumed) => {
                    redraw = true;
                },
                Ok(Handled::Quit) => {
                    self.quit = true;
                },
                Err(ignored) => {
                    redraw = redraw || ignored;
                },
            }
            i += 1;
        }
        redraw
    }

    fn click_on(&mut self, x: usize, y: usize)
        requires
            y > 0,
        ensures
            final(self)@ == old(self)@.clicked_on(x as int, y as int),
    {
        let side = if x < self.cols / 2 {
            PanelSide::Local
        } else {
            PanelSide::Remote
        };
        self.focus = side;
        let visible: usize = self.visible_rows();
        let panel = self.panel_mut(side);
        let down: usize = y - 1;
        let len: usize = panel.entries.len();
        let idx: usize = if panel.offset > len || down > len - panel.offset {
            len
        } else {
            panel.offset + down
        };
        panel.jump_to(idx, visible);
    }

    fn note_click(&mut self, now: u64) -> (twice: bool)
        ensures
            twice == old(self)@.clicked_twice(now),
            final(self)@ == old(self)@.click_noted(now),
    {
        let side = self.focus;
        let idx: usize = self.panel(side).cursor;
        let twice = match self.last_click {
            Some((s, i, at)) => s == side && i == idx && (now < at || now - at < DOUBLE_CLICK),
            None => false,
        };
        self.last_click = Some((side, idx, now));
        twice
    }

    /// Mouse support: click focuses a panel and moves the cursor, a
    /// second click on the same entry within [DOUBLE_CLICK] opens it (like
    /// double-click in a GUI file manager), wheel scrolls.
    pub fn handle_mouse(&mut self, mouse: MouseEvent, now: u64) -> (redraw: bool)
        ensures
            (final(self)@, redraw) == old(self)@.after_mouse(mouse, now),
    {
        proof {
            reveal(AppModel::after_mouse);
        }
        if mouse.vert_wheel {
            let step: i32 = if mouse.wheel_positive {
                -WHEEL_ROWS
            } else {
                WHEEL_ROWS
            };
            self.move_cursor(step);
            return true;
        }
        let clicked = mouse.left && !self.mouse_left_down;
        self.mouse_left_down = mouse.left;
        if !clicked || mouse.y == 0 || mouse.y as usize > self.visible_rows() {
            return false;
        }
        self.click_on(mouse.x as usize, mouse.y as usize);
        if self.note_click(now) {
            self.enter_cursor_entry();
        }
        true
    }

    /// Bytes written to the overlay pane arrive as pasted text.  In an
    /// input line that is text to insert (passwords from a manager, long
    /// names); in browse mode it is keystrokes.  Overwrite decisions are
    /// single-key answers that must work even when an IME turns the
    /// keypress into composed text.
    pub fn handle_paste(&mut self, text: &str, home: &Option<String>) -> (redraw: bool)
        ensures
            (final(self)@, redraw) == old(self)@.after_paste(text@, opt(*home)),
    {
        proof {
            reveal(AppModel::after_paste);
        }
        match &self.input_mode {
            Some(InputMode::ConfirmOverwrite) => {
                let keys = parse_keys(text);
                self.decide_all(&keys)
            },
            Some(_) => {
                let clean = without_controls(text);
                self.input_line.append(clean.as_str());
                true
            },
            None => {
                let keys = parse_keys(text);
                self.handle_keys(&keys, home)
            },
        }
    }

    /// Handle one input event at `now` milliseconds, in the account whose
    /// home directory is `home`.  The result says whether to redraw.
    pub fn handle_input_from(&mut self, event: &InputEvent, home: &Option<String>, now: u64) -> (
    redraw: bool)
        ensures
            (final(self)@, redraw) == old(self)@.after_input(event@, opt(*home), now),
    {
        match event {
            InputEvent::Key(key) => match self.handle_key_from(*key, home) {
                Ok(Handled::Consumed) => true,
                Ok(Handled::Quit) => {
                    self.quit = true;
                    true
                },
                Err(ignored) => ignored,
            },
            InputEvent::Mouse(mouse) => self.handle_mouse(*mouse, now),
            InputEvent::Resized { cols, rows } => {
                self.cols = *cols;
                self.rows = *rows;
                true
            },
            InputEvent::Paste(text) => self.handle_paste(text.as_str(), home),
            InputEvent::Other => false,
        }
    }

    /// Handle one input event, with the home directory of the running
    /// account.  The result says whether to redraw.
    pub fn handle_input(&mut self, event: &InputEvent, now: u64) -> (redraw: bool)
        ensures
            exists|home: Option<Seq<char>>|
                (final(self)@, redraw) == #[trigger] old(self)@.after_input(event@, home, now),
    {
        let home = home_dir();
        let ghost before = self@;
        let r = self.handle_input_from(event, &home, now);
        proof {
            assert((self@, r) == before.after_input(event@, opt(home), now));
        }
        r
    }
}

/// A drag counts once: while the button was held before, a report of it
/// changes nothing but the button's state, and asks for nothing.
pub proof fn dragging_opens_nothing(m: AppModel, mouse: MouseEvent, now: u64)
    requires
        !mouse.vert_wheel,
        !mouse.left || m.flags.left_down,
    ensures
        m.after_mouse(mouse, now).0 == (AppModel {
            flags: FlagModel { left_down: mouse.left, ..m.flags },
            ..m
        }),
        !m.after_mouse(mouse, now).1,
{
    reveal(AppModel::after_mouse);
}

/// A single click selects and opens nothing; only a second press on the
/// same entry within the double-click time opens it.
pub proof fn one_click_selects(m: AppModel, mouse: MouseEvent, now: u64)
    requires
        !mouse.vert_wheel,
        match m.flags.last_click {
            Some((_, _, at)) => passed(at, now) >= DOUBLE_CLICK,
            None => true,
        },
    ensures
        m.after_mouse(mouse, now).0.out == m.out,
{
    reveal(AppModel::after_mouse);
}

/// The key reference is modal: any plain key closes it and does nothing
/// else that could be seen.
pub proof fn any_key_closes_the_help(m: AppModel, key: KeyEvent, home: Option<Seq<char>>)
    requires
        m.flags.help,
        key.modifiers == crate::keys::MOD_NONE || key.modifiers == crate::keys::MOD_SHIFT,
    ensures
        ({
            let (app, what) = m.after_key(key, home);
            &&& what == Ok::<Handled, bool>(Handled::Consumed)
            &&& !app.flags.help
            &&& app == (AppModel { flags: app.flags, ..m })
        }),
{
    reveal(AppModel::after_key);
}

/// A click puts the focus on the panel under the mouse and its cursor on
/// the row that was clicked, as far as there are entries; the other panel
/// and the listing stay as they are.
pub proof fn a_click_selects_the_row(m: AppModel, mouse: MouseEvent, now: u64)
    requires
        !mouse.vert_wheel,
        mouse.left,
        !m.flags.left_down,
        1 <= mouse.y <= m.visible(),
        m.flags.last_click is None,
        m.panes.local.offset >= 0,
        m.panes.remote.offset >= 0,
    ensures
        ({
            let r = m.after_mouse(mouse, now).0;
            let left = mouse.x < m.frame.cols / 2;
            let (p, q) = if left {
                (m.panes.local, r.panes.local)
            } else {
                (m.panes.remote, r.panes.remote)
            };
            let row = p.offset + mouse.y - 1;
            &&& r.panes.focus == if left {
                PanelSide::Local
            } else {
                PanelSide::Remote
            }
            &&& q.cursor == if row < p.entries.len() {
                row
            } else if p.entries.len() > 0 {
                p.entries.len() - 1
            } else {
                0
            }
            &&& q == (PanelModel { cursor: q.cursor, offset: q.offset, ..p })
            &&& left ==> r.panes.remote == m.panes.remote
            &&& !left ==> r.panes.local == m.panes.local
            &&& r.queue == m.queue
            &&& r.out == m.out
            &&& r.flags.left_down
            &&& r.flags.last_click == Some((r.panes.focus, q.cursor, now))
        }),
{
    reveal(AppModel::after_mouse);
}

/// A second click on the same row within the double-click time enters the
/// entry there, like the Enter key.
pub proof fn two_clicks_enter(m: AppModel, mouse: MouseEvent, at: u64, now: u64)
    requires
        !mouse.vert_wheel,
        mouse.left,
        !m.flags.left_down,
        1 <= mouse.y <= m.visible(),
        m.flags.last_click == Some((m.panes.focus, m.panes.focused().cursor, at)),
        at <= now < at + DOUBLE_CLICK,
        m.panes.focus == (if mouse.x < m.frame.cols / 2 {
            PanelSide::Local
        } else {
            PanelSide::Remote
        }),
        0 <= m.panes.focused().offset,
        m.panes.focused().offset + mouse.y - 1 == m.panes.focused().cursor,
        m.panes.focused().cursor < m.panes.focused().entries.len(),
    ensures
        ({
            let r = m.after_mouse(mouse, now).0;
            let p = m.panes.focused();
            let e = p.entries[p.cursor];
            &&& e.is_dir ==> r.out.requests == m.out.requests.push(
                RequestModel::Ls { side: m.panes.focus, path: path_in(p.path, e.name@) },
            )
            &&& !e.is_dir && m.panes.focus == PanelSide::Local ==> r.out.effects
                == m.out.effects.push(EffectModel::OpenLocal { path: path_in(p.path, e.name@) })
            &&& !e.is_dir && m.panes.focus == PanelSide::Remote ==> match r.out.requests.last() {
                RequestModel::OpenRemote { source, .. } => source == path_in(p.path, e.name@)
                    && r.out.requests.len() == m.out.requests.len() + 1,
                _ => false,
            }
            &&& r.queue == m.queue
        }),
{
    reveal(AppModel::after_mouse);
    reveal(AppModel::entered);
    reveal(AppModel::file_opened);
}

/// The wheel moves the cursor of the focused panel three rows and does
/// nothing else.
pub proof fn the_wheel_moves_the_cursor(m: AppModel, mouse: MouseEvent, now: u64)
    requires
        mouse.vert_wheel,
        m.panes.focused().entries.len() > 0,
    ensures
        ({
            let r = m.after_mouse(mouse, now).0;
            let p = m.panes.focused();
            let to = if mouse.wheel_positive {
                p.cursor - 3
            } else {
                p.cursor + 3
            };
            &&& r.panes.focused().cursor == if to < 0 {
                0
            } else if to >= p.entries.len() {
                p.entries.len() - 1
            } else {
                to
            }
            &&& r.panes.focus == m.panes.focus
            &&& r.queue == m.queue
            &&& r.out == m.out
            &&& r.flags == m.flags
        }),
{
    reveal(AppModel::after_mouse);
    reveal(AppModel::cursor_moved);
}

/// Keys are handled one after the other, every one of them: one more is
/// that key after the others, and leaving is remembered.
pub proof fn keys_are_handled_in_order(
    m: AppModel,
    keys: Seq<KeyEvent>,
    key: KeyEvent,
    home: Option<Seq<char>>,
    n: int,
)
    requires
        0 <= n <= keys.len(),
    ensures
        m.after_keys(keys.push(key), home, n) == m.after_keys(keys, home, n),
        m.after_keys(keys, home, 0) == (m, false),
        n == keys.len() ==> {
            let before = m.after_keys(keys, home, n).0;
            let after = m.after_keys(keys.push(key), home, n + 1).0;
            let (app, what) = before.after_key(key, home);
            after == if what == Ok::<Handled, bool>(Handled::Quit) {
                AppModel { flags: FlagModel { quit: true, ..app.flags }, ..app }
            } else {
                app
            }
        },
    decreases n,
{
    if n > 0 {
        keys_are_handled_in_order(m, keys, key, home, n - 1);
        assert(keys.push(key)[n - 1] == keys[n - 1]);
    }
    assert(keys.push(key)[keys.len() as int] == key);
}

/// A key, a resize and a text pasted into a line do what they say: the key
/// what that key does, the resize the new size and nothing else, the paste
/// its printable characters at the end of the line and nothing else.
pub proof fn input_goes_where_it_belongs(
    m: AppModel,
    key: KeyEvent,
    cols: int,
    rows: int,
    text: Seq<char>,
    home: Option<Seq<char>>,
    now: u64,
)
    ensures
        ({
            let (app, what) = m.after_key(key, home);
            let k = m.after_input(InputModel::Key(key), home, now).0;
            k == if what == Ok::<Handled, bool>(Handled::Quit) {
                AppModel { flags: FlagModel { quit: true, ..app.flags }, ..app }
            } else {
                app
            }
        }),
        ({
            let r = m.after_input(InputModel::Resized { cols, rows }, home, now).0;
            &&& r.frame.cols == cols
            &&& r.frame.rows == rows
            &&& r == (AppModel { frame: r.frame, ..m })
            &&& r.frame.palette == m.frame.palette
            &&& r.frame.words == m.frame.words
        }),
        m.queue.mode is Some && m.queue.mode != Some(ModeModel::ConfirmOverwrite) ==> m.after_input(
            InputModel::Paste(text),
            home,
            now,
        ).0 == (AppModel { line: m.line + printable(text), ..m }),
        m.after_input(InputModel::Other, home, now) == (m, false),
{
    reveal(AppModel::after_paste);
}

/// Keys pasted at the overwrite prompt answer it one after the other: one
/// more is that answer after the others.
pub proof fn pasted_answers_are_given_in_order(
    q: QueueModel,
    keys: Seq<KeyEvent>,
    key: KeyEvent,
    n: int,
)
    requires
        0 <= n <= keys.len(),
    ensures
        q.decided_all(keys.push(key), n) == q.decided_all(keys, n),
        q.decided_all(keys, 0) == q,
        n == keys.len() ==> q.decided_all(keys.push(key), n + 1) == q.decided_all(keys, n).decided(
            key.key,
        ),
    decreases n,
{
    if n > 0 {
        pasted_answers_are_given_in_order(q, keys, key, n - 1);
        assert(keys.push(key)[n - 1] == keys[n - 1]);
    }
    assert(keys.push(key)[keys.len() as int] == key);
}

/// A pasted text is keys where no line is being typed: at the overwrite
/// prompt they answer it, and without a prompt they do what they do.
pub proof fn a_pasted_text_is_typed(m: AppModel, text: Seq<char>, home: Option<Seq<char>>, now: u64)
    ensures
        ({
            let keys = keys_only(parsed(text));
            let n = keys.len() as int;
            let r = m.after_input(InputModel::Paste(text), home, now).0;
            &&& m.queue.mode is None ==> r == m.after_keys(keys, home, n).0
            &&& m.queue.mode == Some(ModeModel::ConfirmOverwrite) ==> r == (AppModel {
                queue: m.queue.decided_all(keys, n),
                ..m
            })
        }),
{
    reveal(AppModel::after_paste);
}

} // verus!

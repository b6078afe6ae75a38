//! A whole frame of the overlay.

use crate::display::{border, border_row, less};
use crate::paths::home_dir;
use crate::render::{
    bordered_at, draw, draw_status, drawn, focus_line, gauge_list, line_at, line_of_focus, pane,
    pane_label, pane_row, pane_rows, prompt_text, push_bordered_line, push_line, render_panel,
    render_transfer_line, status_changes, statuses_of, transfer_line, Change, ChangeModel, Gauge,
    GaugeModel,
};
use crate::state::{App, AppModel};
use crate::text::{cat, chars_of, fill, filled, text_of, texts};
use crate::types::{cell, PanelSide};
use vstd::prelude::*;
use vstd::string::*;

verus! {

/// The key reference, one line each.
pub open spec fn help_rows() -> Seq<Seq<char>> {
    seq![
        "j/k ↑/↓ move            Tab   switch panel"@,
        "h/l ←/→ parent / open   Enter open, Space mark"@,
        "u clear selection       Ctrl+r invert selection"@,
        "Ctrl+d/u half page      Ctrl+f/b full page"@,
        "gg/G top / bottom       o open with default app"@,
        "y copy  x cut  p paste  P paste (overwrite)"@,
        "Y / X cancel the yank   D download to ~/Downloads"@,
        "a new (name/ = folder)  r rename   d delete"@,
        "/  or F  filter listing  f jump to a name, z jump to a path"@,
        "c c copy path  c f copy name    Z remote home"@,
        "H / L    back / forward  . show hidden files"@,
        "F5 transfer (folders recurse)   F2 rename"@,
        "F7 new folder                   F8 delete"@,
        "mouse: click selects, double click opens"@,
        "q quit   ? or F1 close this help"@,
    ]
}

fn help_lines() -> (r: Vec<String>)
    ensures
        texts(r@) == help_rows(),
        r@.len() == 15,
{
    let mut v: Vec<String> = Vec::new();
    v.push("j/k ↑/↓ move            Tab   switch panel".to_owned());
    v.push("h/l ←/→ parent / open   Enter open, Space mark".to_owned());
    v.push("u clear selection       Ctrl+r invert selection".to_owned());
    v.push("Ctrl+d/u half page      Ctrl+f/b full page".to_owned());
    v.push("gg/G top / bottom       o open with default app".to_owned());
    v.push("y copy  x cut  p paste  P paste (overwrite)".to_owned());
    v.push("Y / X cancel the yank   D download to ~/Downloads".to_owned());
    v.push("a new (name/ = folder)  r rename   d delete".to_owned());
    v.push("/  or F  filter listing  f jump to a name, z jump to a path".to_owned());
    v.push("c c copy path  c f copy name    Z remote home".to_owned());
    v.push("H / L    back / forward  . show hidden files".to_owned());
    v.push("F5 transfer (folders recurse)   F2 rename".to_owned());
    v.push("F7 new folder                   F8 delete".to_owned());
    v.push("mouse: click selects, double click opens".to_owned());
    v.push("q quit   ? or F1 close this help".to_owned());
    proof {
        assert(texts(v@) =~= help_rows());
    }
    v
}

/// Bytes of a character in UTF-8.
pub open spec fn byte_len(c: char) -> int {
    if (c as u32) < 0x80 {
        1
    } else if (c as u32) < 0x800 {
        2
    } else if (c as u32) < 0x10000 {
        3
    } else {
        4
    }
}

fn bytes_of(c: char) -> (r: usize)
    ensures
        r == byte_len(c),
{
    if (c as u32) < 0x80 {
        1
    } else if (c as u32) < 0x800 {
        2
    } else if (c as u32) < 0x10000 {
        3
    } else {
        4
    }
}

/// How many characters, from the first `from` on, `room` bytes hold.
pub open spec fn byte_fitting(text: Seq<char>, room: int, from: int) -> int
    decreases text.len() - from,
{
    if from < 0 || from >= text.len() || byte_len(text[from]) > room {
        from
    } else {
        byte_fitting(text, room - byte_len(text[from]), from + 1)
    }
}

/// A line of the key reference: padded to `inner` characters, and as much
/// of that as `inner` bytes hold.
pub open spec fn help_body(line: Seq<char>, inner: int) -> Seq<char> {
    let padded = line + fill(' ', less(inner, line.len() as int) as nat);
    padded.take(byte_fitting(padded, inner, 0))
}

fn body_of_help(line: &str, inner: usize) -> (r: String)
    ensures
        r@ == help_body(line@, inner as int),
{
    let n: usize = chars_of(line).len();
    let pad: usize = if inner < n {
        0
    } else {
        inner - n
    };
    let padded = cat(line, filled(' ', pad).as_str());
    let v = chars_of(padded.as_str());
    let mut room: usize = inner;
    let mut i: usize = 0;
    while i < v.len()
        invariant
            i <= v@.len(),
            byte_fitting(v@, inner as int, 0) == byte_fitting(v@, room as int, i as int),
        ensures
            i <= v@.len(),
            i == byte_fitting(v@, inner as int, 0),
        decreases v@.len() - i,
    {
        let size: usize = bytes_of(v[i]);
        if size > room {
            break;
        }
        room = room - size;
        i += 1;
    }
    let r = text_of(&v, 0, i);
    proof {
        assert(r@ =~= help_body(line@, inner as int));
    }
    r
}

/// The first `n` lines of the key reference.
pub open spec fn help_body_rows(m: AppModel, inner: int, n: int) -> Seq<ChangeModel>
    decreases n,
{
    if n <= 0 {
        Seq::empty()
    } else {
        let pal = m.frame.palette;
        help_body_rows(m, inner, n - 1) + bordered_at(
            n,
            0,
            help_body(help_rows()[n - 1], inner),
            cell(pal.fg, pal.bg, false),
            cell(pal.accent, pal.bg, true),
        )
    }
}

/// The key reference.
#[verifier::opaque]
pub open spec fn help_changes(m: AppModel, width: int) -> Seq<ChangeModel> {
    let pal = m.frame.palette;
    let edge = cell(pal.accent, pal.bg, true);
    line_at(0, 0, border('┌', '┐', '─', " Kaku SFTP keys "@, width), edge) + help_body_rows(
        m,
        less(width, 2),
        15,
    ) + line_at(16, 0, border('└', '┘', '─', ""@, width), edge)
}

/// F1: the full key reference, replaced by the panels while it is open.
pub fn render_help(changes: &mut Vec<Change>, app: &App, width: usize)
    ensures
        drawn(final(changes)@) == drawn(old(changes)@) + help_changes(app@, width as int),
{
    proof {
        reveal(help_changes);
    }
    let ghost before = drawn(changes@);
    let pal = app.palette;
    let edge = pal.focused_border_cell();
    let inner: usize = if width < 2 {
        0
    } else {
        width - 2
    };
    let lines = help_lines();
    let top = border_row('┌', '┐', '─', " Kaku SFTP keys ", width);
    push_line(changes, 0, 0, top.as_str(), edge);
    let ghost head = drawn(changes@);
    let mut row: usize = 0;
    proof {
        assert(head =~= head + help_body_rows(app@, inner as int, 0));
    }
    while row < lines.len()
        invariant
            row <= lines@.len() == 15,
            texts(lines@) == help_rows(),
            pal == app@.frame.palette,
            edge == cell(pal.accent, pal.bg, true),
            drawn(changes@) == head + help_body_rows(app@, inner as int, row as int),
        decreases lines@.len() - row,
    {
        proof {
            assert(help_rows()[row as int] == lines@[row as int]@);
        }
        let body = body_of_help(lines[row].as_str(), inner);
        push_bordered_line(changes, row + 1, 0, body.as_str(), pal.plain_cell(), edge);
        proof {
            assert(drawn(changes@) =~= head + help_body_rows(app@, inner as int, row + 1));
        }
        row += 1;
    }
    let bottom = border_row('└', '┘', '─', "", width);
    push_line(changes, 16, 0, bottom.as_str(), edge);
    proof {
        assert(drawn(changes@) =~= before + help_changes(app@, width as int));
    }
}

/// Columns of a frame, never fewer than 20.
pub open spec fn frame_cols(m: AppModel) -> int {
    if m.frame.cols < 20 {
        20
    } else {
        m.frame.cols
    }
}

/// How a frame begins: with a synchronized update and an empty screen.
pub open spec fn frame_head() -> Seq<ChangeModel> {
    seq![ChangeModel::Text("\x1b[?2026h"@), ChangeModel::ClearScreen]
}

/// How a frame ends: with the end of the synchronized update.
pub open spec fn frame_tail() -> Seq<ChangeModel> {
    seq![ChangeModel::HideCursor, ChangeModel::Text("\x1b[?2026l"@)]
}

/// The transfer row, the status row and the focus hints.
#[verifier::opaque]
pub open spec fn bottom_rows(m: AppModel, gauges: Seq<GaugeModel>) -> Seq<ChangeModel> {
    let cols = frame_cols(m);
    let pal = m.frame.palette;
    line_at(
        m.visible() + 2,
        0,
        transfer_line(statuses_of(m), gauges, cols),
        cell(pal.accent, pal.bg, false),
    ) + seq![ChangeModel::CursorPosition { x: 0, y: m.visible() + 3 }] + status_changes(m, cols)
        + line_at(
        m.visible() + 4,
        0,
        focus_line(m, cols),
        if m.link.session {
            cell(pal.header, pal.bg, true)
        } else {
            cell(pal.border, pal.bg, false)
        },
    )
}

/// Everything one frame draws, in the account whose home directory is
/// `home`.
pub open spec fn frame(m: AppModel, home: Seq<char>, gauges: Seq<GaugeModel>) -> Seq<ChangeModel> {
    let cols = frame_cols(m);
    frame_head() + (if m.flags.help {
        help_changes(m, cols)
    } else {
        pane(m, PanelSide::Local, home, 0, cols / 2) + pane(
            m,
            PanelSide::Remote,
            home,
            cols / 2,
            cols - cols / 2,
        ) + bottom_rows(m, gauges)
    }) + frame_tail()
}

fn draw_bottom(changes: &mut Vec<Change>, app: &App, gauges: &Vec<Gauge>, cols: usize)
    requires
        cols == frame_cols(app@),
    ensures
        drawn(final(changes)@) == drawn(old(changes)@) + bottom_rows(app@, gauge_list(gauges@)),
{
    proof {
        reveal(bottom_rows);
    }
    let ghost before = drawn(changes@);
    let visible: usize = app.visible_rows();
    let pal = app.palette;
    let transfers = render_transfer_line(app, gauges, cols);
    push_line(changes, visible + 2, 0, transfers.as_str(), pal.transfer_cell());
    draw(changes, Change::CursorPosition { x: 0, y: visible + 3 });
    draw_status(changes, app, cols);
    let line = line_of_focus(app, cols);
    let attrs = if app.session {
        pal.title_cell()
    } else {
        pal.dim_cell()
    };
    push_line(changes, visible + 4, 0, line.as_str(), attrs);
    proof {
        assert(drawn(changes@) =~= before + bottom_rows(app@, gauge_list(gauges@)));
    }
}

/// Everything one frame draws, including both ends of the synchronized
/// update: an unclosed one would leave the screen frozen on the previous
/// frame.
pub fn frame_changes_from(app: &App, home: &str, gauges: &Vec<Gauge>) -> (r: Vec<Change>)
    ensures
        drawn(r@) == frame(app@, home@, gauge_list(gauges@)),
{
    let mut changes: Vec<Change> = Vec::new();
    proof {
        assert(drawn(changes@) =~= Seq::<ChangeModel>::empty());
    }
    // Atomic frame so partial updates never flicker.
    draw(&mut changes, Change::Text("\x1b[?2026h".to_owned()));
    draw(&mut changes, Change::ClearScreen);
    proof {
        assert(drawn(changes@) =~= frame_head());
    }
    let cols: usize = if app.cols < 20 {
        20
    } else {
        app.cols
    };
    if app.help {
        render_help(&mut changes, app, cols);
    } else {
        let left: usize = cols / 2;
        render_panel(&mut changes, app, PanelSide::Local, home, 0, left);
        render_panel(&mut changes, app, PanelSide::Remote, home, left, cols - left);
        draw_bottom(&mut changes, app, gauges, cols);
    }
    draw(&mut changes, Change::HideCursor);
    draw(&mut changes, Change::Text("\x1b[?2026l".to_owned()));
    proof {
        assert(drawn(changes@) =~= frame(app@, home@, gauge_list(gauges@)));
    }
    changes
}

/// Everything one frame draws, with the home directory of the running
/// account.
pub fn frame_changes(app: &App, gauges: &Vec<Gauge>) -> (r: Vec<Change>)
    ensures
        exists|home: Seq<char>|
            drawn(r@) == #[trigger] frame(app@, home, gauge_list(gauges@)),
{
    let home = match home_dir() {
        Some(h) => h,
        None => String::new(),
    };
    frame_changes_from(app, home.as_str(), gauges)
}

/// Every frame closes the synchronized update that it opens, whatever is
/// on screen.
pub proof fn every_frame_is_closed(m: AppModel, home: Seq<char>, gauges: Seq<GaugeModel>)
    ensures
        ({
            let f = frame(m, home, gauges);
            &&& f.len() >= 4
            &&& f[0] == ChangeModel::Text("\x1b[?2026h"@)
            &&& f[1] == ChangeModel::ClearScreen
            &&& f[f.len() - 2] == ChangeModel::HideCursor
            &&& f[f.len() - 1] == ChangeModel::Text("\x1b[?2026l"@)
        }),
{
}

proof fn lemma_rows_without_line(
    m: AppModel,
    line: Seq<char>,
    side: PanelSide,
    x: int,
    width: int,
    n: int,
)
    ensures
        pane_rows(m.with_line(line), side, x, width, n) == pane_rows(m, side, x, width, n),
    decreases n,
{
    if n > 0 {
        lemma_rows_without_line(m, line, side, x, width, n - 1);
        reveal(pane_row);
    }
}

proof fn lemma_pane_without_line(
    m: AppModel,
    line: Seq<char>,
    side: PanelSide,
    home: Seq<char>,
    x: int,
    width: int,
)
    ensures
        pane(m.with_line(line), side, home, x, width) == pane(m, side, home, x, width),
{
    reveal(pane);
    reveal(pane_label);
    lemma_rows_without_line(m, line, side, x, width, m.visible());
}

proof fn lemma_help_without_line(m: AppModel, line: Seq<char>, inner: int, n: int)
    ensures
        help_body_rows(m.with_line(line), inner, n) == help_body_rows(m, inner, n),
    decreases n,
{
    if n > 0 {
        lemma_help_without_line(m, line, inner, n - 1);
    }
}

/// A typed password is never drawn: while its prompt is on screen, a frame
/// tells no two typed lines of the same length apart.
pub proof fn a_password_is_never_drawn(
    m: AppModel,
    line: Seq<char>,
    home: Seq<char>,
    gauges: Seq<GaugeModel>,
)
    requires
        m.queue.mode is Some,
        m.queue.mode->0 is Password,
        line.len() == m.line.len(),
    ensures
        frame(m.with_line(line), home, gauges) == frame(m, home, gauges),
{
    let cols = frame_cols(m);
    reveal(bottom_rows);
    reveal(status_changes);
    reveal(prompt_text);
    reveal(help_changes);
    reveal(focus_line);
    lemma_help_without_line(m, line, less(cols, 2), 15);
    lemma_pane_without_line(m, line, PanelSide::Local, home, 0, cols / 2);
    lemma_pane_without_line(m, line, PanelSide::Remote, home, cols / 2, cols - cols / 2);
}

} // verus!

//! What one frame of the overlay draws: both panels, the transfer row, the
//! status row and the focus hints, or the key reference in their place.

use crate::display::{
    border, border_row, entry_line, format_entry_line, less, truncate_visible, truncated,
};
use crate::i18n::{tr, translated};
use crate::paths::{base, base_name, opt, shorten_path_from, shortened};
use crate::state::{App, AppModel, InputMode, ModeModel};
use crate::text::{
    cat, cat3, chars_of, decimal, fill, filled, join, joined, number, text_of, texts, to_upper,
    trim_white_end, trimmed_white_end, upper,
};
use crate::transfer::{
    open_only, status_list, StateModel, StatusModel, TransferState, TransferStatus,
};
use crate::types::{cell, CellAttributes, FileEntry, PanelSide};
use crate::units::{bytes_text, format_bytes};
use vstd::prelude::*;
use vstd::string::*;

verus! {

broadcast use vstd::std_specs::hash::group_hash_axioms;

/// One step of drawing.
#[derive(Debug)]
pub enum Change {
    Text(String),
    ClearScreen,
    CursorPosition { x: usize, y: usize },
    AllAttributes(CellAttributes),
    HideCursor,
    /// Swap the colors of what follows.
    Reverse,
    Bold,
    /// Back to the terminal's own attributes.
    DefaultAttributes,
}

/// A step of drawing with its text as characters.
pub enum ChangeModel {
    Text(Seq<char>),
    ClearScreen,
    CursorPosition { x: int, y: int },
    AllAttributes(CellAttributes),
    HideCursor,
    /// Swap the colors of what follows.
    Reverse,
    Bold,
    /// Back to the terminal's own attributes.
    DefaultAttributes,
}

impl View for Change {
    type V = ChangeModel;

    open spec fn view(&self) -> ChangeModel {
        match *self {
            Change::Text(t) => ChangeModel::Text(t@),
            Change::ClearScreen => ChangeModel::ClearScreen,
            Change::CursorPosition { x, y } => ChangeModel::CursorPosition {
                x: x as int,
                y: y as int,
            },
            Change::AllAttributes(a) => ChangeModel::AllAttributes(a),
            Change::HideCursor => ChangeModel::HideCursor,
            Change::Reverse => ChangeModel::Reverse,
            Change::Bold => ChangeModel::Bold,
            Change::DefaultAttributes => ChangeModel::DefaultAttributes,
        }
    }
}

/// Steps of drawing as models.
pub open spec fn drawn(v: Seq<Change>) -> Seq<ChangeModel> {
    v.map_values(|c: Change| c@)
}

/// Percentage and speed of a running transfer, as they are shown.
#[derive(Debug)]
pub struct Gauge {
    pub percent: u64,
    pub speed: Option<String>,
}

/// A gauge with its text as characters.
pub struct GaugeModel {
    pub percent: u64,
    pub speed: Option<Seq<char>>,
}

impl View for Gauge {
    type V = GaugeModel;

    open spec fn view(&self) -> GaugeModel {
        GaugeModel { percent: self.percent, speed: opt(self.speed) }
    }
}

/// Gauges as models.
pub open spec fn gauge_list(v: Seq<Gauge>) -> Seq<GaugeModel> {
    v.map_values(|g: Gauge| g@)
}

pub(crate) fn draw(changes: &mut Vec<Change>, change: Change)
    ensures
        drawn(final(changes)@) == drawn(old(changes)@).push(change@),
{
    let ghost before = drawn(changes@);
    changes.push(change);
    proof {
        assert(drawn(changes@) =~= before.push(change@));
    }
}

/// A line drawn at a place.
pub open spec fn line_at(y: int, x: int, text: Seq<char>, attrs: CellAttributes) -> Seq<ChangeModel> {
    seq![
        ChangeModel::CursorPosition { x, y },
        ChangeModel::AllAttributes(attrs),
        ChangeModel::Text(text),
    ]
}

pub(crate) fn push_line(changes: &mut Vec<Change>, y: usize, x: usize, text: &str, attrs: CellAttributes)
    ensures
        drawn(final(changes)@) == drawn(old(changes)@) + line_at(y as int, x as int, text@, attrs),
{
    let ghost before = drawn(changes@);
    draw(changes, Change::CursorPosition { x, y });
    draw(changes, Change::AllAttributes(attrs));
    draw(changes, Change::Text(text.to_owned()));
    proof {
        assert(drawn(changes@) =~= before + line_at(y as int, x as int, text@, attrs));
    }
}

/// A line drawn between the borders of a pane.
pub open spec fn bordered_at(
    y: int,
    x: int,
    body: Seq<char>,
    attrs: CellAttributes,
    edge: CellAttributes,
) -> Seq<ChangeModel> {
    seq![
        ChangeModel::CursorPosition { x, y },
        ChangeModel::AllAttributes(edge),
        ChangeModel::Text("│"@),
        ChangeModel::AllAttributes(attrs),
        ChangeModel::Text(body),
        ChangeModel::AllAttributes(edge),
        ChangeModel::Text("│"@),
    ]
}

pub(crate) fn push_bordered_line(
    changes: &mut Vec<Change>,
    y: usize,
    x: usize,
    body: &str,
    attrs: CellAttributes,
    edge: CellAttributes,
)
    ensures
        drawn(final(changes)@) == drawn(old(changes)@) + bordered_at(
            y as int,
            x as int,
            body@,
            attrs,
            edge,
        ),
{
    let ghost before = drawn(changes@);
    draw(changes, Change::CursorPosition { x, y });
    draw(changes, Change::AllAttributes(edge));
    draw(changes, Change::Text("│".to_owned()));
    draw(changes, Change::AllAttributes(attrs));
    draw(changes, Change::Text(body.to_owned()));
    draw(changes, Change::AllAttributes(edge));
    draw(changes, Change::Text("│".to_owned()));
    proof {
        assert(drawn(changes@) =~= before + bordered_at(y as int, x as int, body@, attrs, edge));
    }
}

/// What a text of the panel reads in the language of this run.
pub open spec fn said(m: AppModel, text: Seq<char>) -> Seq<char> {
    translated(m.frame.words, text)
}

fn say(app: &App, text: &str) -> (r: String)
    ensures
        r@ == said(app@, text@),
{
    tr(&*app.words, text)
}

/// What the top border of a pane says: where it is, or what it waits for,
/// and the filter.
#[verifier::opaque]
pub open spec fn pane_label(m: AppModel, side: PanelSide, home: Seq<char>) -> Seq<char> {
    let panel = m.panel_of(side);
    let title = shortened(panel.path, home, 30);
    let label = if side == PanelSide::Remote {
        if m.link.session && m.link.label.len() > 0 {
            " "@ + m.link.label + ":"@ + title + " "@
        } else if m.link.session {
            " remote:"@ + title + " "@
        } else {
            match m.link.connecting {
                Some(state) => " "@ + said(m, state) + " "@,
                None => " "@ + said(m, "remote: not connected"@) + " "@,
            }
        }
    } else {
        " "@ + title + " "@
    };
    match panel.filter {
        Some(needle) => label + "/"@ + needle + " "@,
        None => label,
    }
}

fn label_of(app: &App, side: PanelSide, home: &str) -> (r: String)
    ensures
        r@ == pane_label(app@, side, home@),
{
    proof {
        reveal(pane_label);
    }
    let panel = app.panel(side);
    let title = shorten_path_from(home, panel.path.as_str(), 30);
    proof {
        assert(30usize as nat == 30nat);
    }
    let label = if side == PanelSide::Remote {
        if app.session && !app.remote_label.as_str().is_empty() {
            let mut t = cat3(" ", app.remote_label.as_str(), ":");
            t.append(title.as_str());
            t.append(" ");
            t
        } else if app.session {
            cat3(" remote:", title.as_str(), " ")
        } else {
            // No session yet: say what the panel is waiting for instead of
            // leaving a blank half with no explanation.
            match &app.connecting {
                Some(state) => cat3(" ", say(app, state.as_str()).as_str(), " "),
                None => cat3(" ", say(app, "remote: not connected").as_str(), " "),
            }
        }
    } else {
        cat3(" ", title.as_str(), " ")
    };
    match &panel.filter {
        Some(needle) => {
            let mut t = cat3(label.as_str(), "/", needle.as_str());
            t.append(" ");
            t
        },
        None => label,
    }
}

/// Attributes of the border of a pane.
pub open spec fn edge_cell(m: AppModel, side: PanelSide) -> CellAttributes {
    let pal = m.frame.palette;
    if m.panes.focus == side {
        cell(pal.accent, pal.bg, true)
    } else {
        cell(pal.border, pal.bg, false)
    }
}

/// The entry on a row of a pane.
pub open spec fn entry_at(m: AppModel, side: PanelSide, idx: int) -> Option<FileEntry> {
    if 0 <= idx < m.panel_of(side).entries.len() {
        Some(m.panel_of(side).entries[idx])
    } else {
        None
    }
}

/// The entry with this position is marked.
pub open spec fn marked_at(m: AppModel, side: PanelSide, idx: int) -> bool {
    0 <= idx <= usize::MAX && m.panel_of(side).marked.contains(idx as usize)
}

/// Attributes of a row of a pane: the cursor first, then directories, then
/// marks.
pub open spec fn row_cell(m: AppModel, side: PanelSide, idx: int) -> CellAttributes {
    let pal = m.frame.palette;
    let is_dir = match entry_at(m, side, idx) {
        Some(e) => e.is_dir,
        None => false,
    };
    if idx == m.panel_of(side).cursor && m.panes.focus == side {
        cell(pal.bg, pal.accent, true)
    } else if is_dir {
        cell(pal.dir, pal.bg, true)
    } else if marked_at(m, side, idx) {
        cell(pal.accent, pal.bg, true)
    } else {
        cell(pal.fg, pal.bg, false)
    }
}

/// Text of a row of a pane.
pub open spec fn row_text(m: AppModel, side: PanelSide, idx: int, width: int) -> Seq<char> {
    match entry_at(m, side, idx) {
        Some(e) => entry_line(e, marked_at(m, side, idx), less(width, 2)),
        None => fill(' ', less(width, 2) as nat),
    }
}

/// One row of a pane.
#[verifier::opaque]
pub open spec fn pane_row(m: AppModel, side: PanelSide, x: int, width: int, row: int) -> Seq<
    ChangeModel,
> {
    let idx = m.panel_of(side).offset + row;
    bordered_at(
        row + 1,
        x,
        row_text(m, side, idx, width),
        row_cell(m, side, idx),
        edge_cell(m, side),
    )
}

/// The first `n` rows of a pane.
pub open spec fn pane_rows(m: AppModel, side: PanelSide, x: int, width: int, n: int) -> Seq<
    ChangeModel,
>
    decreases n,
{
    if n <= 0 {
        Seq::empty()
    } else {
        pane_rows(m, side, x, width, n - 1) + pane_row(m, side, x, width, n - 1)
    }
}

/// A whole pane.
#[verifier::opaque]
pub open spec fn pane(m: AppModel, side: PanelSide, home: Seq<char>, x: int, width: int) -> Seq<
    ChangeModel,
> {
    let edge = edge_cell(m, side);
    line_at(0, x, border('┌', '┐', '─', pane_label(m, side, home), width), edge) + pane_rows(
        m,
        side,
        x,
        width,
        m.visible(),
    ) + line_at(m.visible() + 1, x, border('└', '┘', '─', ""@, width), edge)
}

fn edge_of(app: &App, side: PanelSide) -> (r: CellAttributes)
    ensures
        r == edge_cell(app@, side),
{
    if app.focus == side {
        app.palette.focused_border_cell()
    } else {
        app.palette.border_cell()
    }
}

fn draw_row(changes: &mut Vec<Change>, app: &App, side: PanelSide, x: usize, width: usize, row: usize)
    requires
        row < usize::MAX,
    ensures
        drawn(final(changes)@) == drawn(old(changes)@) + pane_row(
            app@,
            side,
            x as int,
            width as int,
            row as int,
        ),
{
    proof {
        reveal(pane_row);
    }
    let panel = app.panel(side);
    let edge = edge_of(app, side);
    let inner: usize = if width < 2 {
        0
    } else {
        width - 2
    };
    let len: usize = panel.entries.len();
    if panel.offset > usize::MAX - row {
        let body = filled(' ', inner);
        push_bordered_line(changes, row + 1, x, body.as_str(), app.palette.plain_cell(), edge);
        return;
    }
    let idx: usize = panel.offset + row;
    let is_marked = panel.marked.contains(&idx);
    let is_dir = idx < len && panel.entries[idx].is_dir;
    let attrs = if idx == panel.cursor && app.focus == side {
        app.palette.cursor_cell()
    } else if is_dir {
        app.palette.dir_cell()
    } else if is_marked {
        app.palette.marked_cell()
    } else {
        app.palette.plain_cell()
    };
    let body = if idx < len {
        format_entry_line(&panel.entries[idx], is_marked, inner)
    } else {
        filled(' ', inner)
    };
    push_bordered_line(changes, row + 1, x, body.as_str(), attrs, edge);
}

/// Draw one pane, `width` columns from column `x` on.
pub fn render_panel(
    changes: &mut Vec<Change>,
    app: &App,
    side: PanelSide,
    home: &str,
    x: usize,
    width: usize,
)
    ensures
        drawn(final(changes)@) == drawn(old(changes)@) + pane(
            app@,
            side,
            home@,
            x as int,
            width as int,
        ),
{
    proof {
        reveal(pane);
    }
    let ghost before = drawn(changes@);
    let visible: usize = app.visible_rows();
    let edge = edge_of(app, side);
    let label = label_of(app, side, home);
    let top = border_row('┌', '┐', '─', label.as_str(), width);
    push_line(changes, 0, x, top.as_str(), edge);
    let ghost head = drawn(changes@);
    let mut row: usize = 0;
    proof {
        assert(head =~= head + pane_rows(app@, side, x as int, width as int, 0));
    }
    while row < visible
        invariant
            row <= visible,
            visible == app@.visible(),
            drawn(changes@) == head + pane_rows(app@, side, x as int, width as int, row as int),
        decreases visible - row,
    {
        let ghost so_far = drawn(changes@);
        draw_row(changes, app, side, x, width, row);
        proof {
            assert(drawn(changes@) =~= head + pane_rows(
                app@,
                side,
                x as int,
                width as int,
                row + 1,
            ));
        }
        row += 1;
    }
    let bottom = border_row('└', '┘', '─', "", width);
    push_line(changes, visible + 1, x, bottom.as_str(), edge);
    proof {
        assert(drawn(changes@) =~= before + pane(app@, side, home@, x as int, width as int));
    }
}

/// Transfers shown while they run: the first three that have not finished.
pub open spec fn shown_transfers(list: Seq<StatusModel>) -> Seq<StatusModel> {
    if open_only(list).len() > 3 {
        open_only(list).take(3)
    } else {
        open_only(list)
    }
}

/// One running or waiting transfer.
pub open spec fn running_text(s: StatusModel, gauges: Seq<GaugeModel>, i: int) -> Seq<char> {
    match s.state {
        StateModel::Running { .. } => s.direction.mark() + " "@ + s.source + " "@ + decimal(
            if i < gauges.len() {
                gauges[i].percent as nat
            } else {
                0
            },
        ) + "% "@ + (if i < gauges.len() {
            match gauges[i].speed {
                Some(speed) => " "@ + speed,
                None => Seq::empty(),
            }
        } else {
            Seq::empty()
        }),
        _ => s.direction.mark() + " "@ + s.source + " queued"@,
    }
}

/// The first `n` of the running transfers.
pub open spec fn running_texts(list: Seq<StatusModel>, gauges: Seq<GaugeModel>) -> Seq<Seq<char>> {
    Seq::new(list.len(), |i: int| running_text(list[i], gauges, i))
}

/// How the last transfer ended.
pub open spec fn ended_text(s: StatusModel) -> Seq<char> {
    s.direction.mark() + " "@ + s.source + " "@ + (match s.state {
        StateModel::Done => "done · "@ + s.dest,
        StateModel::Failed(err) => "failed · "@ + err,
        StateModel::Cancelled => "cancelled"@,
        _ => Seq::empty(),
    })
}

/// The transfer row: what runs, else how the last transfer ended, else
/// nothing.
#[verifier::opaque]
pub open spec fn transfer_line(list: Seq<StatusModel>, gauges: Seq<GaugeModel>, cols: int) -> Seq<
    char,
> {
    let shown = shown_transfers(list);
    if shown.len() > 0 {
        truncated(joined(running_texts(shown, gauges), "  ·  "@), cols)
    } else if list.len() > 0 {
        truncated(ended_text(list.last()), cols)
    } else {
        fill(' ', cols as nat)
    }
}

/// The statuses of the browser's transfers.
pub open spec fn statuses_of(m: AppModel) -> Seq<StatusModel> {
    match m.queue.transfers {
        Some(t) => t.statuses,
        None => Seq::empty(),
    }
}

fn statuses_in(app: &App) -> (r: Vec<TransferStatus>)
    ensures
        status_list(r@) == statuses_of(app@),
{
    match &app.transfers {
        Some(t) => t.statuses(),
        None => {
            let none: Vec<TransferStatus> = Vec::new();
            proof {
                assert(status_list(none@) =~= Seq::<StatusModel>::empty());
            }
            none
        },
    }
}

/// Transfers that are shown while they run, for their gauges to be read.
pub fn active_transfers(app: &App) -> (r: Vec<TransferStatus>)
    ensures
        status_list(r@) == shown_transfers(statuses_of(app@)),
{
    let all = statuses_in(app);
    first_open(&all)
}

fn first_open(all: &Vec<TransferStatus>) -> (r: Vec<TransferStatus>)
    ensures
        status_list(r@) == shown_transfers(status_list(all@)),
{
    let ghost list = status_list(all@);
    let ghost f = |s: StatusModel| !s.state.terminal();
    let mut out: Vec<TransferStatus> = Vec::new();
    let mut i: usize = 0;
    proof {
        reveal(Seq::filter);
        assert(list.take(0).filter(f) =~= Seq::<StatusModel>::empty());
        assert(status_list(out@) =~= Seq::<StatusModel>::empty());
    }
    while i < all.len()
        invariant
            i <= all@.len(),
            list == status_list(all@),
            f == (|s: StatusModel| !s.state.terminal()),
            status_list(out@) == shown_transfers(list.take(i as int)),
        decreases all@.len() - i,
    {
        let ghost before = status_list(out@);
        let ghost seen = list.take(i as int).filter(f);
        proof {
            reveal(Seq::filter);
            assert(list[i as int] == all@[i as int]@);
            assert(list.take(i + 1).drop_last() =~= list.take(i as int));
        }
        if !all[i].state.is_terminal() {
            if out.len() < 3 {
                out.push(all[i].clone());
                proof {
                    assert(status_list(out@) =~= before.push(list[i as int]));
                    assert(seen =~= before);
                }
            }
            proof {
                assert(list.take(i + 1).filter(f) == seen.push(list[i as int]));
                assert(status_list(out@) =~= shown_transfers(list.take(i + 1)));
            }
        }
        i += 1;
    }
    proof {
        assert(list.take(i as int) =~= list);
    }
    out
}

fn text_of_running(s: &TransferStatus, gauges: &Vec<Gauge>, i: usize) -> (r: String)
    ensures
        r@ == running_text(s@, gauge_list(gauges@), i as int),
{
    proof {
        if i < gauges@.len() {
            assert(gauge_list(gauges@)[i as int] == gauges@[i as int]@);
        }
    }
    let mut out = cat3(s.direction.glyph(), " ", s.source.as_str());
    match s.state {
        TransferState::Running { .. } => {
            out.append(" ");
            let percent: u64 = if i < gauges.len() {
                gauges[i].percent
            } else {
                0
            };
            out.append(number(percent).as_str());
            out.append("% ");
            let ghost so_far = out@;
            if i < gauges.len() {
                if let Some(speed) = &gauges[i].speed {
                    let tail = cat(" ", speed.as_str());
                    out.append(tail.as_str());
                }
            }
            proof {
                assert(so_far + Seq::<char>::empty() =~= so_far);
            }
        },
        _ => {
            out.append(" queued");
        },
    }
    out
}

fn text_of_ended(s: &TransferStatus) -> (r: String)
    ensures
        r@ == ended_text(s@),
{
    let mut out = cat3(s.direction.glyph(), " ", s.source.as_str());
    out.append(" ");
    let ghost so_far = out@;
    match &s.state {
        TransferState::Done => {
            let tail = cat("done · ", s.dest.as_str());
            out.append(tail.as_str());
        },
        TransferState::Failed(err) => {
            let tail = cat("failed · ", err.as_str());
            out.append(tail.as_str());
        },
        TransferState::Cancelled => {
            out.append("cancelled");
        },
        _ => {
            proof {
                assert(so_far + Seq::<char>::empty() =~= so_far);
            }
        },
    }
    out
}

/// The transfer row.
pub fn render_transfer_line(app: &App, gauges: &Vec<Gauge>, cols: usize) -> (r: String)
    ensures
        r@ == transfer_line(statuses_of(app@), gauge_list(gauges@), cols as int),
{
    proof {
        reveal(transfer_line);
    }
    let all = statuses_in(app);
    let active = first_open(&all);
    let ghost list = status_list(all@);
    let ghost shown = shown_transfers(list);
    let ghost gs = gauge_list(gauges@);
    if active.len() == 0 {
        if all.len() > 0 {
            let last: usize = all.len() - 1;
            proof {
                assert(list.last() == all@[last as int]@);
                assert(shown.len() == 0);
            }
            let text = text_of_ended(&all[last]);
            return truncate_visible(text.as_str(), cols);
        }
        return filled(' ', cols);
    }
    let mut parts: Vec<String> = Vec::new();
    let mut i: usize = 0;
    proof {
        assert(texts(parts@) =~= running_texts(shown, gs).take(0));
    }
    while i < active.len()
        invariant
            i <= active@.len(),
            shown == status_list(active@),
            gs == gauge_list(gauges@),
            texts(parts@) == running_texts(shown, gs).take(i as int),
        decreases active@.len() - i,
    {
        let ghost before = texts(parts@);
        proof {
            assert(shown[i as int] == active@[i as int]@);
        }
        parts.push(text_of_running(&active[i], gauges, i));
        proof {
            assert(texts(parts@) =~= before.push(running_texts(shown, gs)[i as int]));
            assert(texts(parts@) =~= running_texts(shown, gs).take(i + 1));
        }
        i += 1;
    }
    proof {
        assert(running_texts(shown, gs).take(i as int) =~= running_texts(shown, gs));
    }
    let text = join(&parts, "  ·  ");
    truncate_visible(text.as_str(), cols)
}

/// A prompt with its first letter capitalized.
pub open spec fn titled(prompt: Seq<char>) -> Seq<char> {
    if prompt.len() == 0 {
        prompt
    } else {
        upper(prompt[0]) + prompt.skip(1)
    }
}

/// Capitalize the first letter of an auth prompt for display.
pub fn prompt_title(prompt: &str) -> (r: String)
    ensures
        r@ == titled(prompt@),
{
    let v = chars_of(prompt);
    let n: usize = v.len();
    if n == 0 {
        return prompt.to_owned();
    }
    let rest = text_of(&v, 1, n);
    proof {
        assert(rest@ =~= prompt@.skip(1));
    }
    cat(to_upper(v[0]).as_str(), rest.as_str())
}

/// The prompt for the front of the queue of conflicts.
pub open spec fn conflict_text(m: AppModel) -> Seq<char> {
    let front = m.queue.pending[0];
    front.dest + said(m, " exists ("@) + bytes_text(front.size as nat) + said(
        m,
        ") - [o]verwrite"@,
    ) + (if front.can_resume() {
        said(m, " [r]esume"@)
    } else {
        ""@
    }) + said(m, " [s]kip [a]ll-ow [x]skip-all ("@) + decimal(m.queue.pending.len()) + said(
        m,
        " left): "@,
    )
}

/// The input line of a mode, with its fixed parts in the language of this
/// run.  A typed secret is never drawn: one bullet per character.
#[verifier::opaque]
pub open spec fn prompt_text(m: AppModel, mode: ModeModel) -> Seq<char> {
    match mode {
        ModeModel::Password { username, prompt } => said(m, titled(prompt)) + said(m, " for "@)
            + username + ": "@ + fill('●', m.line.len()) + "_"@,
        ModeModel::ConfirmHostKey { message } => said(m, trim_white_end(message)) + " (y/n): "@,
        ModeModel::ConfirmOverwrite => conflict_text(m),
        ModeModel::ConfirmFolder { side, name } => said(m, "Transfer folder \""@) + (match base(
            name,
        ) {
            Some(short) => short,
            None => name,
        }) + said(m, "\" to "@) + said(m, side.opposite().label_spec()) + said(
            m,
            " recursively (overwrite same names)? y/n: "@,
        ),
        ModeModel::Create { directory } => said(
            m,
            if directory {
                "New directory: "@
            } else {
                "New file (end with / for a directory): "@
            },
        ) + m.line + "_ "@,
        ModeModel::Rename { original } => said(m, "Rename "@) + original + said(m, " to: "@)
            + m.line + "_ "@,
        ModeModel::ConfirmDelete { names } => said(m, "Delete "@) + (if names.len() == 1 {
            names[0] + said(m, "? (y/n): "@)
        } else {
            decimal(names.len()) + said(m, " items? (y/n): "@)
        }) + m.line + "_ "@,
        ModeModel::Filter => "/"@ + m.line + "_ "@,
        ModeModel::JumpTo => said(m, "jump to path: "@) + m.line + "_ "@,
        ModeModel::JumpToChar => said(m, "f jump to a name starting with: "@) + "_ "@,
    }
}

/// The input line of a mode in `cols` columns; nothing for a conflict
/// prompt whose queue is empty.
pub open spec fn input_line(m: AppModel, mode: ModeModel, cols: int) -> Seq<char> {
    if mode is ConfirmOverwrite && m.queue.pending.len() == 0 {
        Seq::empty()
    } else {
        truncated(prompt_text(m, mode), cols)
    }
}

fn text_of_conflict(app: &App) -> (r: String)
    requires
        app@.queue.pending.len() > 0,
    ensures
        r@ == conflict_text(app@),
{
    proof {
        assert(app@.queue.pending[0] == app.pending@[0]@);
    }
    let front = &app.pending[0];
    let n: usize = app.pending.len();
    let mut t = cat3(
        front.dest.as_str(),
        say(app, " exists (").as_str(),
        format_bytes(front.size).as_str(),
    );
    t.append(say(app, ") - [o]verwrite").as_str());
    if front.resumable() {
        t.append(say(app, " [r]esume").as_str());
    } else {
        t.append("");
    }
    t.append(say(app, " [s]kip [a]ll-ow [x]skip-all (").as_str());
    t.append(number(n as u64).as_str());
    t.append(say(app, " left): ").as_str());
    t
}

fn text_of_prompt(app: &App, mode: &InputMode) -> (r: String)
    requires
        mode@ is ConfirmOverwrite ==> app@.queue.pending.len() > 0,
    ensures
        r@ == prompt_text(app@, mode@),
{
    proof {
        reveal(prompt_text);
    }
    let line = app.input_line.as_str();
    match mode {
        InputMode::Password { username, prompt } => {
            let typed = chars_of(line);
            let n: usize = typed.len();
            let title = say(app, prompt_title(prompt.as_str()).as_str());
            let mut t = cat3(title.as_str(), say(app, " for ").as_str(), username.as_str());
            t.append(": ");
            t.append(filled('●', n).as_str());
            t.append("_");
            t
        },
        InputMode::ConfirmHostKey { message } => cat(
            say(app, trimmed_white_end(message.as_str()).as_str()).as_str(),
            " (y/n): ",
        ),
        InputMode::ConfirmOverwrite => text_of_conflict(app),
        InputMode::ConfirmFolder { side, name } => {
            let short = match base_name(name.as_str()) {
                Some(s) => s,
                None => name.clone(),
            };
            let mut t = cat3(
                say(app, "Transfer folder \"").as_str(),
                short.as_str(),
                say(app, "\" to ").as_str(),
            );
            t.append(say(app, (*side).other().label()).as_str());
            t.append(say(app, " recursively (overwrite same names)? y/n: ").as_str());
            t
        },
        InputMode::Create { directory } => cat3(
            say(
                app,
                if *directory {
                    "New directory: "
                } else {
                    "New file (end with / for a directory): "
                },
            ).as_str(),
            line,
            "_ ",
        ),
        InputMode::Rename { original } => {
            let mut t = cat3(
                say(app, "Rename ").as_str(),
                original.as_str(),
                say(app, " to: ").as_str(),
            );
            t.append(line);
            t.append("_ ");
            t
        },
        InputMode::ConfirmDelete { names } => {
            let n: usize = names.len();
            let what = if n == 1 {
                proof {
                    assert(texts(names@)[0] == names@[0]@);
                }
                cat(names[0].as_str(), say(app, "? (y/n): ").as_str())
            } else {
                cat(number(n as u64).as_str(), say(app, " items? (y/n): ").as_str())
            };
            let prompt = cat(say(app, "Delete ").as_str(), what.as_str());
            cat3(prompt.as_str(), line, "_ ")
        },
        InputMode::Filter => cat3("/", line, "_ "),
        InputMode::JumpTo => cat3(say(app, "jump to path: ").as_str(), line, "_ "),
        InputMode::JumpToChar => cat(say(app, "f jump to a name starting with: ").as_str(), "_ "),
    }
}

/// The input line of a mode in `cols` columns.
pub fn render_input_line(app: &App, mode: &InputMode, cols: usize) -> (r: String)
    ensures
        r@ == input_line(app@, mode@, cols as int),
{
    if let InputMode::ConfirmOverwrite = mode {
        if app.pending.len() == 0 {
            let none = String::new();
            proof {
                assert(none@ =~= Seq::<char>::empty());
            }
            return none;
        }
    }
    let text = text_of_prompt(app, mode);
    truncate_visible(text.as_str(), cols)
}

/// What the status row is showing: the active prompt wins, then what a
/// connection is doing, then the last error, the last message, and
/// finally the key hints.
#[derive(Debug)]
pub enum StatusLine {
    Input,
    Connecting(String),
    Error(String),
    Message(String),
    Help(String),
}

/// The status row with its texts as characters.
pub enum StatusLineModel {
    Input,
    Connecting(Seq<char>),
    Error(Seq<char>),
    Message(Seq<char>),
    Help(Seq<char>),
}

impl View for StatusLine {
    type V = StatusLineModel;

    open spec fn view(&self) -> StatusLineModel {
        match *self {
            StatusLine::Input => StatusLineModel::Input,
            StatusLine::Connecting(t) => StatusLineModel::Connecting(t@),
            StatusLine::Error(t) => StatusLineModel::Error(t@),
            StatusLine::Message(t) => StatusLineModel::Message(t@),
            StatusLine::Help(t) => StatusLineModel::Help(t@),
        }
    }
}

/// The key hints, in the language of this run.
#[verifier::opaque]
pub open spec fn hints(m: AppModel) -> Seq<char> {
    let marks = m.panes.focused().marked.len();
    if !m.link.session {
        said(m, "Not connected · j/k move · Tab switch · q quit"@)
    } else {
        said(
            m,
            "j/k move · y/x/p copy-cut-paste · a new · r rename · d delete · Space mark · / filter · f jump · F5 transfer · ? help"@,
        ) + (if marks == 0 {
            Seq::empty()
        } else {
            " · "@ + decimal(marks) + said(m, " marked (u clear)"@)
        }) + (match m.hand.clipboard {
            Some(clip) => said(
                m,
                if clip.cut {
                    " · CUT ready (p paste)"@
                } else {
                    " · copied (p paste)"@
                },
            ),
            None => ""@,
        })
    }
}

/// The key hints: how many marks there are and what was yanked, so neither
/// looks like it persists by accident.
pub fn help_line(app: &App) -> (r: String)
    ensures
        r@ == hints(app@),
{
    proof {
        reveal(hints);
    }
    if !app.session {
        return say(app, "Not connected · j/k move · Tab switch · q quit");
    }
    let side = app.focus;
    let n: usize = app.panel(side).marked.len();
    let mut out = say(
        app,
        "j/k move · y/x/p copy-cut-paste · a new · r rename · d delete · Space mark · / filter · f jump · F5 transfer · ? help",
    );
    if n > 0 {
        let marks = cat3(
            " · ",
            number(n as u64).as_str(),
            say(app, " marked (u clear)").as_str(),
        );
        out.append(marks.as_str());
    } else {
        proof {
            assert(out@ + Seq::<char>::empty() =~= out@);
        }
    }
    match &app.clipboard {
        Some(clip) => {
            let ready = say(
                app,
                if clip.cut {
                    " · CUT ready (p paste)"
                } else {
                    " · copied (p paste)"
                },
            );
            out.append(ready.as_str());
        },
        None => out.append(""),
    }
    out
}

/// What the status row is showing, in the language of this run.
pub open spec fn status(m: AppModel) -> StatusLineModel {
    if m.queue.mode is Some {
        StatusLineModel::Input
    } else {
        match (m.link.connecting, m.note.error, m.note.message) {
            (Some(state), _, _) => StatusLineModel::Connecting(said(m, state)),
            (None, Some(err), _) => StatusLineModel::Error(said(m, err)),
            (None, None, Some(msg)) => StatusLineModel::Message(said(m, msg)),
            (None, None, None) => StatusLineModel::Help(hints(m)),
        }
    }
}

/// What the status row is showing.
pub fn status_line(app: &App) -> (r: StatusLine)
    ensures
        r@ == status(app@),
{
    if app.input_mode.is_some() {
        return StatusLine::Input;
    }
    if let Some(state) = &app.connecting {
        return StatusLine::Connecting(say(app, state.as_str()));
    }
    if let Some(err) = &app.error {
        return StatusLine::Error(say(app, err.as_str()));
    }
    if let Some(msg) = &app.message {
        return StatusLine::Message(say(app, msg.as_str()));
    }
    StatusLine::Help(help_line(app))
}

/// Attributes and text of the status row.
#[verifier::opaque]
pub open spec fn status_changes(m: AppModel, cols: int) -> Seq<ChangeModel> {
    let pal = m.frame.palette;
    match status(m) {
        StatusLineModel::Input => seq![
            ChangeModel::AllAttributes(cell(pal.header, pal.bg, true)),
            ChangeModel::Text(input_line(m, m.queue.mode->0, cols)),
        ],
        StatusLineModel::Connecting(t) => seq![
            ChangeModel::AllAttributes(cell(pal.header, pal.bg, true)),
            ChangeModel::Text(truncated(t, cols)),
        ],
        StatusLineModel::Error(t) => seq![
            ChangeModel::AllAttributes(cell(pal.header, pal.bg, true)),
            ChangeModel::Text(truncated(t, cols)),
        ],
        StatusLineModel::Message(t) => seq![
            ChangeModel::AllAttributes(cell(pal.fg, pal.bg, false)),
            ChangeModel::Text(truncated(t, cols)),
        ],
        StatusLineModel::Help(t) => seq![
            ChangeModel::AllAttributes(cell(pal.border, pal.bg, false)),
            ChangeModel::Text(truncated(t, cols)),
        ],
    }
}

pub(crate) fn draw_status(changes: &mut Vec<Change>, app: &App, cols: usize)
    ensures
        drawn(final(changes)@) == drawn(old(changes)@) + status_changes(app@, cols as int),
{
    proof {
        reveal(status_changes);
    }
    let ghost before = drawn(changes@);
    let pal = app.palette;
    let (attrs, text) = match status_line(app) {
        StatusLine::Input => {
            let text = match &app.input_mode {
                Some(mode) => render_input_line(app, mode, cols),
                None => String::new(),
            };
            (pal.title_cell(), text)
        },
        StatusLine::Connecting(t) => (pal.title_cell(), truncate_visible(t.as_str(), cols)),
        StatusLine::Error(t) => (pal.error_cell(), truncate_visible(t.as_str(), cols)),
        StatusLine::Message(t) => (pal.plain_cell(), truncate_visible(t.as_str(), cols)),
        StatusLine::Help(t) => (pal.dim_cell(), truncate_visible(t.as_str(), cols)),
    };
    draw(changes, Change::AllAttributes(attrs));
    draw(changes, Change::Text(text));
    proof {
        assert(drawn(changes@) =~= before + status_changes(app@, cols as int));
    }
}

/// A side's name with a dot that tells whether it has the focus.
pub open spec fn focus_label(m: AppModel, side: PanelSide) -> Seq<char> {
    " "@ + (if m.panes.focus == side {
        "●"@
    } else {
        "○"@
    }) + " "@ + side.label_spec() + " "@
}

/// The focus hints at both ends of the bottom row.
#[verifier::opaque]
pub open spec fn focus_line(m: AppModel, cols: int) -> Seq<char> {
    let left = focus_label(m, PanelSide::Local);
    let right = focus_label(m, PanelSide::Remote);
    left + fill(' ', less(cols, (left.len() + right.len()) as int) as nat) + right
}

fn label_of_focus(app: &App, side: PanelSide) -> (r: String)
    ensures
        r@ == focus_label(app@, side),
{
    let mut t = cat3(
        " ",
        if app.focus == side {
            "●"
        } else {
            "○"
        },
        " ",
    );
    t.append(side.label());
    t.append(" ");
    t
}

pub(crate) fn line_of_focus(app: &App, cols: usize) -> (r: String)
    ensures
        r@ == focus_line(app@, cols as int),
{
    proof {
        reveal(focus_line);
    }
    let left = label_of_focus(app, PanelSide::Local);
    let right = label_of_focus(app, PanelSide::Remote);
    let a: usize = chars_of(left.as_str()).len();
    let b: usize = chars_of(right.as_str()).len();
    let filler: usize = if cols < a || cols - a < b {
        0
    } else {
        cols - a - b
    };
    cat3(left.as_str(), filled(' ', filler).as_str(), right.as_str())
}

/// `part` stands in `text`, with these texts around it.
pub open spec fn around(text: Seq<char>, part: Seq<char>, before: Seq<char>, after: Seq<char>) -> bool {
    text == before + part + after
}

/// `part` stands in `text`.
pub open spec fn mentions(text: Seq<char>, part: Seq<char>) -> bool {
    exists|before: Seq<char>, after: Seq<char>| #[trigger] around(text, part, before, after)
}

/// Every prompt names what it asks about: a deletion the entry, or how many
/// there are, a rename the entry's old name, a conflict the file in the way,
/// a folder its name, the trust prompt the message of the session.
pub proof fn prompts_name_what_they_ask_about(m: AppModel, mode: ModeModel)
    ensures
        match mode {
            ModeModel::ConfirmDelete { names } => mentions(
                prompt_text(m, mode),
                if names.len() == 1 {
                    names[0]
                } else {
                    decimal(names.len())
                },
            ) && mentions(prompt_text(m, mode), m.line),
            ModeModel::Rename { original } => mentions(prompt_text(m, mode), original) && mentions(
                prompt_text(m, mode),
                m.line,
            ),
            ModeModel::ConfirmOverwrite => mentions(
                prompt_text(m, mode),
                m.queue.pending[0].dest,
            ) && mentions(prompt_text(m, mode), decimal(m.queue.pending.len())),
            ModeModel::ConfirmFolder { side, name } => mentions(
                prompt_text(m, mode),
                match base(name) {
                    Some(short) => short,
                    None => name,
                },
            ),
            ModeModel::ConfirmHostKey { message } => mentions(
                prompt_text(m, mode),
                said(m, trim_white_end(message)),
            ),
            ModeModel::Password { username, .. } => mentions(prompt_text(m, mode), username),
            ModeModel::Create { .. } => mentions(prompt_text(m, mode), m.line),
            ModeModel::Filter => mentions(prompt_text(m, mode), m.line),
            ModeModel::JumpTo => mentions(prompt_text(m, mode), m.line),
            ModeModel::JumpToChar => true,
        },
{
    reveal(prompt_text);
    let text = prompt_text(m, mode);
    let none = Seq::<char>::empty();
    match mode {
        ModeModel::ConfirmDelete { names } => {
            let head = said(m, "Delete "@);
            let (part, tail) = if names.len() == 1 {
                (names[0], said(m, "? (y/n): "@))
            } else {
                (decimal(names.len()), said(m, " items? (y/n): "@))
            };
            assert(text =~= head + part + (tail + m.line + "_ "@));
            assert(around(text, part, head, tail + m.line + "_ "@));
            assert(text =~= (head + (part + tail)) + m.line + "_ "@);
            assert(around(text, m.line, head + (part + tail), "_ "@));
        },
        ModeModel::Rename { original } => {
            let head = said(m, "Rename "@);
            let to = said(m, " to: "@);
            assert(text =~= head + original + (to + m.line + "_ "@));
            assert(around(text, original, head, to + m.line + "_ "@));
            assert(around(text, m.line, head + original + to, "_ "@));
        },
        ModeModel::ConfirmOverwrite => {
            let front = m.queue.pending[0];
            let mid = said(m, " exists ("@) + bytes_text(front.size as nat) + said(
                m,
                ") - [o]verwrite"@,
            ) + (if front.can_resume() {
                said(m, " [r]esume"@)
            } else {
                ""@
            }) + said(m, " [s]kip [a]ll-ow [x]skip-all ("@);
            let count = decimal(m.queue.pending.len());
            let tail = said(m, " left): "@);
            assert(text =~= none + front.dest + (mid + count + tail));
            assert(around(text, front.dest, none, mid + count + tail));
            assert(text =~= (front.dest + mid) + count + tail);
            assert(around(text, count, front.dest + mid, tail));
        },
        ModeModel::ConfirmFolder { side, name } => {
            let head = said(m, "Transfer folder \""@);
            let short = match base(name) {
                Some(short) => short,
                None => name,
            };
            let tail = said(m, "\" to "@) + said(m, side.opposite().label_spec()) + said(
                m,
                " recursively (overwrite same names)? y/n: "@,
            );
            assert(text =~= head + short + tail);
            assert(around(text, short, head, tail));
        },
        ModeModel::ConfirmHostKey { message } => {
            let part = said(m, trim_white_end(message));
            assert(text =~= none + part + " (y/n): "@);
            assert(around(text, part, none, " (y/n): "@));
        },
        ModeModel::Password { username, prompt } => {
            let head = said(m, titled(prompt)) + said(m, " for "@);
            let tail = ": "@ + fill('●', m.line.len()) + "_"@;
            assert(text =~= head + username + tail);
            assert(around(text, username, head, tail));
        },
        ModeModel::Create { directory } => {
            let head = said(
                m,
                if directory {
                    "New directory: "@
                } else {
                    "New file (end with / for a directory): "@
                },
            );
            assert(around(text, m.line, head, "_ "@));
        },
        ModeModel::Filter => {
            assert(around(text, m.line, "/"@, "_ "@));
        },
        ModeModel::JumpTo => {
            assert(around(text, m.line, said(m, "jump to path: "@), "_ "@));
        },
        ModeModel::JumpToChar => {},
    }
}

/// A row of a pane shows the entry at its place in that side's listing,
/// with its mark, and stands out exactly where the cursor of the focused
/// panel is; a row below the listing is blank.
pub proof fn a_row_shows_its_own_entry(m: AppModel, side: PanelSide, idx: int, width: int)
    requires
        0 <= idx <= usize::MAX,
    ensures
        ({
            let p = if side == PanelSide::Local {
                m.panes.local
            } else {
                m.panes.remote
            };
            let pal = m.frame.palette;
            &&& idx < p.entries.len() ==> row_text(m, side, idx, width) == entry_line(
                p.entries[idx],
                p.marked.contains(idx as usize),
                less(width, 2),
            )
            &&& idx >= p.entries.len() ==> row_text(m, side, idx, width) == fill(
                ' ',
                less(width, 2) as nat,
            )
            &&& m.panes.focus == side && idx == p.cursor ==> row_cell(m, side, idx) == cell(
                pal.bg,
                pal.accent,
                true,
            )
            &&& !(m.panes.focus == side && idx == p.cursor) && idx < p.entries.len() && !p.entries[
                idx].is_dir && !p.marked.contains(idx as usize) ==> row_cell(m, side, idx) == cell(
                pal.fg,
                pal.bg,
                false,
            )
        }),
{
}

/// The status row shows the most pressing thing: a prompt before anything
/// else, then the connection, then an error, then a message, and the key
/// hints only where there is none of these.
pub proof fn the_status_row_shows_the_most_pressing(m: AppModel)
    ensures
        m.queue.mode is Some <==> status(m) is Input,
        m.queue.mode is None ==> match m.link.connecting {
            Some(state) => status(m) == StatusLineModel::Connecting(
                translated(m.frame.words, state),
            ),
            None => match m.note.error {
                Some(e) => status(m) == StatusLineModel::Error(translated(m.frame.words, e)),
                None => match m.note.message {
                    Some(t) => status(m) == StatusLineModel::Message(
                        translated(m.frame.words, t),
                    ),
                    None => status(m) is Help,
                },
            },
        },
{
}

/// A running or waiting transfer is told by its source, and an ended one by
/// its source and how it ended: with its destination or its error.
pub proof fn transfers_are_told_by_their_files(s: StatusModel, gauges: Seq<GaugeModel>, i: int)
    requires
        i >= 0,
    ensures
        mentions(running_text(s, gauges, i), s.source),
        mentions(ended_text(s), s.source),
        s.state is Done ==> mentions(ended_text(s), s.dest),
        s.state matches StateModel::Failed(e) ==> mentions(ended_text(s), e),
        s.state matches StateModel::Running { .. } && i < gauges.len() ==> mentions(
            running_text(s, gauges, i),
            decimal(gauges[i].percent as nat),
        ),
{
    let none = Seq::<char>::empty();
    let head = s.direction.mark() + " "@;
    let text = running_text(s, gauges, i);
    let ended = ended_text(s);
    match s.state {
        StateModel::Running { .. } => {
            let percent = decimal(
                if i < gauges.len() {
                    gauges[i].percent as nat
                } else {
                    0
                },
            );
            let tail = if i < gauges.len() {
                match gauges[i].speed {
                    Some(speed) => " "@ + speed,
                    None => Seq::empty(),
                }
            } else {
                Seq::empty()
            };
            assert(text =~= head + s.source + (" "@ + percent + "% "@ + tail));
            assert(around(text, s.source, head, " "@ + percent + "% "@ + tail));
            assert(text =~= (head + s.source + " "@) + percent + ("% "@ + tail));
            assert(around(text, percent, head + s.source + " "@, "% "@ + tail));
        },
        _ => {
            assert(around(text, s.source, head, " queued"@));
        },
    }
    let how = match s.state {
        StateModel::Done => "done · "@ + s.dest,
        StateModel::Failed(err) => "failed · "@ + err,
        StateModel::Cancelled => "cancelled"@,
        _ => Seq::empty(),
    };
    assert(ended =~= head + s.source + (" "@ + how));
    assert(around(ended, s.source, head, " "@ + how));
    match s.state {
        StateModel::Done => {
            assert(ended =~= (head + s.source + " "@ + "done · "@) + s.dest + none);
            assert(around(ended, s.dest, head + s.source + " "@ + "done · "@, none));
        },
        StateModel::Failed(err) => {
            assert(ended =~= (head + s.source + " "@ + "failed · "@) + err + none);
            assert(around(ended, err, head + s.source + " "@ + "failed · "@, none));
        },
        _ => {},
    }
}

/// A pane's border says where that side is: a path that is short enough as
/// it stands, with the host in front of a remote one, and the filter that is
/// set.
pub proof fn a_border_says_where_the_side_is(m: AppModel, side: PanelSide, home: Seq<char>)
    ensures
        ({
            let p = if side == PanelSide::Local {
                m.panes.local
            } else {
                m.panes.remote
            };
            let text = pane_label(m, side, home);
            &&& p.path.len() <= 30 && (side == PanelSide::Local || m.link.session) ==> mentions(
                text,
                p.path,
            )
            &&& side == PanelSide::Remote && m.link.session ==> mentions(text, m.link.label)
            &&& p.filter matches Some(needle) ==> mentions(text, needle)
        }),
{
    reveal(pane_label);
    let p = m.panel_of(side);
    let text = pane_label(m, side, home);
    let title = shortened(p.path, home, 30);
    let none = Seq::<char>::empty();
    let tail = match p.filter {
        Some(needle) => "/"@ + needle + " "@,
        None => none,
    };
    let label = if side == PanelSide::Remote {
        if m.link.session && m.link.label.len() > 0 {
            " "@ + m.link.label + ":"@ + title + " "@
        } else if m.link.session {
            " remote:"@ + title + " "@
        } else {
            match m.link.connecting {
                Some(state) => " "@ + said(m, state) + " "@,
                None => " "@ + said(m, "remote: not connected"@) + " "@,
            }
        }
    } else {
        " "@ + title + " "@
    };
    assert(text =~= label + tail);
    if let Some(needle) = p.filter {
        assert(text =~= (label + "/"@) + needle + " "@);
        assert(around(text, needle, label + "/"@, " "@));
    }
    if side == PanelSide::Local {
        assert(text =~= " "@ + title + (" "@ + tail));
        assert(around(text, title, " "@, " "@ + tail));
    } else if m.link.session && m.link.label.len() > 0 {
        assert(text =~= " "@ + m.link.label + (":"@ + title + " "@ + tail));
        assert(around(text, m.link.label, " "@, ":"@ + title + " "@ + tail));
        assert(text =~= (" "@ + m.link.label + ":"@) + title + (" "@ + tail));
        assert(around(text, title, " "@ + m.link.label + ":"@, " "@ + tail));
    } else if m.link.session {
        assert(text =~= none + m.link.label + text);
        assert(around(text, m.link.label, none, text));
        assert(text =~= " remote:"@ + title + (" "@ + tail));
        assert(around(text, title, " remote:"@, " "@ + tail));
    }
}

} // verus!

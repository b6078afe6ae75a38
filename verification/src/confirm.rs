//! A yes-or-no dialog in the middle of the screen.

use crate::display::{column_width, less, text_width};
use crate::i18n::{tr, translated, Table};
use crate::keys::KeyCode;
use crate::paths::opt;
use crate::render::{draw, drawn, Change, ChangeModel};
use crate::text::{chars_of, fill, filled, lemma_pieces_some, pieces, split, text_of, texts};
use vstd::prelude::*;
use vstd::string::*;

verus! {

/// The rows that `textwrap::wrap` makes of a line for a width, without
/// breaking words.
pub uninterp spec fn wrapped_rows(line: Seq<char>, width: nat) -> Seq<Seq<char>>;

/// `textwrap::wrap` with `Options::new(width).break_words(false)`: the rows
/// of a line for a width. Where the rows end is decided by the crate's
/// tables and costs, which depend on the line and the width alone.
#[verifier::external_body]
fn wrap_line(line: &str, width: usize) -> (r: Vec<String>)
    ensures
        texts(r@) == wrapped_rows(line@, width as nat),
{
    let options = textwrap::Options::new(width).break_words(false);
    textwrap::wrap(line, &options).into_iter().map(|row| row.into_owned()).collect()
}

/// A line without a carriage return at its end.
pub open spec fn bare(line: Seq<char>) -> Seq<char> {
    if line.len() > 0 && line.last() == '\r' {
        line.drop_last()
    } else {
        line
    }
}

/// The first `n` lines of a text: each ends at a line feed, with or without
/// a carriage return before it.
pub open spec fn ended_lines(parts: Seq<Seq<char>>, n: int) -> Seq<Seq<char>> {
    parts.take(n).map_values(|l: Seq<char>| bare(l))
}

/// The lines of a text; a text that ends in a line feed has no line behind
/// it.
pub open spec fn lines_of(text: Seq<char>) -> Seq<Seq<char>> {
    let parts = pieces(text, '\n');
    let front = ended_lines(parts, parts.len() - 1);
    if parts.last().len() == 0 {
        front
    } else {
        front.push(parts.last())
    }
}

fn bare_line(line: &str) -> (r: String)
    ensures
        r@ == bare(line@),
{
    let v = chars_of(line);
    let n: usize = v.len();
    if n > 0 && v[n - 1] == '\r' {
        let r = text_of(&v, 0, n - 1);
        proof {
            assert(r@ =~= line@.drop_last());
        }
        r
    } else {
        line.to_owned()
    }
}

/// The lines of a text.
pub fn lines(text: &str) -> (r: Vec<String>)
    ensures
        texts(r@) == lines_of(text@),
{
    let parts = split(text, '\n');
    let ghost all = pieces(text@, '\n');
    proof {
        lemma_pieces_some(text@, '\n');
        assert(texts(parts@).len() == parts@.len());
    }
    let n: usize = parts.len();
    let mut out: Vec<String> = Vec::new();
    let mut i: usize = 0;
    proof {
        assert(texts(out@) =~= ended_lines(all, 0));
    }
    while i < n - 1
        invariant
            0 < n == parts@.len(),
            i <= n - 1,
            all == texts(parts@),
            texts(out@) == ended_lines(all, i as int),
        decreases n - i,
    {
        let ghost before = texts(out@);
        out.push(bare_line(parts[i].as_str()));
        proof {
            assert(all[i as int] == parts@[i as int]@);
            assert(texts(out@) =~= before.push(bare(all[i as int])));
            assert(ended_lines(all, i + 1) =~= ended_lines(all, i as int).push(
                bare(all[i as int]),
            ));
        }
        i += 1;
    }
    proof {
        assert(all.last() == parts@[n - 1]@);
    }
    if !parts[n - 1].as_str().is_empty() {
        let ghost before = texts(out@);
        out.push(parts[n - 1].clone());
        proof {
            assert(texts(out@) =~= before.push(all.last()));
        }
    }
    out
}

/// Columns that the message may take.
pub open spec fn wrap_width_spec(cols: int) -> int {
    let dialog = if less(cols, 6) < 4 {
        4
    } else {
        less(cols, 6)
    };
    let content = if less(less(dialog, 4), 2) < 1 {
        1
    } else {
        less(less(dialog, 4), 2)
    };
    if content > 52 {
        52
    } else {
        content
    }
}

/// The rows of the first `n` lines; an empty line is an empty row.
pub open spec fn rows_of(list: Seq<Seq<char>>, width: nat, n: int) -> Seq<Seq<char>>
    decreases n,
{
    if n <= 0 {
        Seq::empty()
    } else {
        let before = rows_of(list, width, n - 1);
        if list[n - 1].len() == 0 {
            before.push(Seq::empty())
        } else {
            before + wrapped_rows(list[n - 1], width)
        }
    }
}

/// The rows of a message; there is always one.
pub open spec fn message_rows(message: Seq<char>, width: nat) -> Seq<Seq<char>> {
    let list = lines_of(message);
    let rows = rows_of(list, width, list.len() as int);
    if rows.len() == 0 {
        seq![Seq::<char>::empty()]
    } else {
        rows
    }
}

fn minus(a: usize, b: usize) -> (r: usize)
    ensures
        r == less(a as int, b as int),
{
    if a < b {
        0
    } else {
        a - b
    }
}

/// Columns that the message may take on a screen.
pub fn wrap_width(cols: usize) -> (r: usize)
    ensures
        r == wrap_width_spec(cols as int),
        r > 0,
{
    let mut dialog: usize = minus(cols, 6);
    if dialog < 4 {
        dialog = 4;
    }
    let mut content: usize = minus(minus(dialog, 4), 2);
    if content < 1 {
        content = 1;
    }
    if content > 52 {
        52
    } else {
        content
    }
}

/// The rows of a message for a width.
pub fn wrap_message(message: &str, width: usize) -> (r: Vec<String>)
    ensures
        texts(r@) == message_rows(message@, width as nat),
        r@.len() > 0,
{
    let list = lines(message);
    let ghost all = lines_of(message@);
    let n: usize = list.len();
    let mut out: Vec<String> = Vec::new();
    let mut i: usize = 0;
    proof {
        assert(texts(out@) =~= Seq::empty());
    }
    while i < n
        invariant
            i <= n == list@.len(),
            all == texts(list@),
            texts(out@) == rows_of(all, width as nat, i as int),
        decreases n - i,
    {
        let ghost before = texts(out@);
        proof {
            assert(all[i as int] == list@[i as int]@);
        }
        if list[i].as_str().is_empty() {
            let none = String::new();
            proof {
                assert(none@ =~= Seq::empty());
            }
            out.push(none);
            proof {
                assert(texts(out@) =~= before.push(Seq::empty()));
            }
        } else {
            let mut rows = wrap_line(list[i].as_str(), width);
            let ghost more = texts(rows@);
            out.append(&mut rows);
            proof {
                assert(texts(out@) =~= before + more);
            }
        }
        i += 1;
    }
    if out.len() == 0 {
        let none = String::new();
        proof {
            assert(none@ =~= Seq::empty());
        }
        out.push(none);
        proof {
            assert(texts(out@) =~= seq![Seq::<char>::empty()]);
        }
    }
    proof {
        assert(texts(out@).len() == out@.len());
    }
    out
}

/// The largest width of the first `n` rows.
pub open spec fn widest(rows: Seq<Seq<char>>, n: int) -> nat
    decreases n,
{
    if n <= 0 {
        0
    } else if column_width(rows[n - 1]) > widest(rows, n - 1) {
        column_width(rows[n - 1])
    } else {
        widest(rows, n - 1)
    }
}

fn widest_row(rows: &Vec<String>) -> (r: usize)
    ensures
        r == widest(texts(rows@), rows@.len() as int),
{
    let mut w: usize = 0;
    let mut i: usize = 0;
    while i < rows.len()
        invariant
            i <= rows@.len(),
            w == widest(texts(rows@), i as int),
        decreases rows@.len() - i,
    {
        proof {
            assert(texts(rows@)[i as int] == rows@[i as int]@);
        }
        let one: usize = text_width(rows[i].as_str());
        if one > w {
            w = one;
        }
        i += 1;
    }
    w
}

/// A sum, held at the largest number a screen position can be.
pub open spec fn held(n: int) -> int {
    if n > usize::MAX {
        usize::MAX as int
    } else {
        n
    }
}

/// Where the parts of the dialog stand.
#[derive(Clone, Copy, Debug)]
pub struct Layout {
    pub x: usize,
    pub top: usize,
    pub width: usize,
    pub height: usize,
    /// Columns between the paddings.
    pub area: usize,
    pub button_row: usize,
    pub no_x: usize,
    pub no_width: usize,
    pub yes_x: usize,
    pub yes_width: usize,
}

/// Where the parts of the dialog stand, for a screen, the widths of the
/// message and of the labels, and the number of rows.
pub open spec fn layout_spec(
    cols: int,
    rows: int,
    message: int,
    no_width: int,
    yes_width: int,
    count: int,
) -> LayoutModel {
    let group = held(held(no_width + 3) + yes_width);
    let desired = if message > group {
        message
    } else {
        group
    };
    let most = if cols < 4 {
        4
    } else {
        cols
    };
    let width = if held(desired + 6) > most {
        most
    } else {
        held(desired + 6)
    };
    let area = less(less(width, 2), 4);
    let x = less(cols, width) / 2;
    let height = held(count + 5);
    let top = less(rows, height) / 2;
    let no_x = held(held(x + 3) + less(area, group) / 2);
    LayoutModel {
        x,
        top,
        width,
        height,
        area,
        button_row: held(held(top + count) + 3),
        no_x,
        no_width,
        yes_x: held(held(no_x + no_width) + 3),
        yes_width,
    }
}

/// The layout in numbers.
pub struct LayoutModel {
    pub x: int,
    pub top: int,
    pub width: int,
    pub height: int,
    pub area: int,
    pub button_row: int,
    pub no_x: int,
    pub no_width: int,
    pub yes_x: int,
    pub yes_width: int,
}

impl View for Layout {
    type V = LayoutModel;

    open spec fn view(&self) -> LayoutModel {
        LayoutModel {
            x: self.x as int,
            top: self.top as int,
            width: self.width as int,
            height: self.height as int,
            area: self.area as int,
            button_row: self.button_row as int,
            no_x: self.no_x as int,
            no_width: self.no_width as int,
            yes_x: self.yes_x as int,
            yes_width: self.yes_width as int,
        }
    }
}

/// Where the parts of the dialog stand.
pub fn layout(
    cols: usize,
    rows: usize,
    message: usize,
    no_width: usize,
    yes_width: usize,
    count: usize,
) -> (r: Layout)
    ensures
        r@ == layout_spec(
            cols as int,
            rows as int,
            message as int,
            no_width as int,
            yes_width as int,
            count as int,
        ),
{
    let group: usize = no_width.saturating_add(3).saturating_add(yes_width);
    let desired: usize = if message > group {
        message
    } else {
        group
    };
    let most: usize = if cols < 4 {
        4
    } else {
        cols
    };
    let padded: usize = desired.saturating_add(6);
    let width: usize = if padded > most {
        most
    } else {
        padded
    };
    let area: usize = minus(minus(width, 2), 4);
    let x: usize = minus(cols, width) / 2;
    let height: usize = count.saturating_add(5);
    let top: usize = minus(rows, height) / 2;
    let no_x: usize = x.saturating_add(3).saturating_add(minus(area, group) / 2);
    Layout {
        x,
        top,
        width,
        height,
        area,
        button_row: top.saturating_add(count).saturating_add(3),
        no_x,
        no_width,
        yes_x: no_x.saturating_add(no_width).saturating_add(3),
        yes_width,
    }
}

/// The button under the mouse.
#[derive(Clone, Copy, Debug, PartialEq, Eq, Structural)]
pub enum ActiveButton {
    Neither,
    Yes,
    No,
}

/// A text drawn at a place.
pub open spec fn text_at(x: int, y: int, text: Seq<char>) -> Seq<ChangeModel> {
    seq![ChangeModel::CursorPosition { x, y }, ChangeModel::Text(text)]
}

/// A row of the dialog's box.
pub open spec fn box_row(left: char, mid: char, right: char, width: int) -> Seq<char> {
    seq![left] + fill(mid, less(width, 2) as nat) + seq![right]
}

/// The left and right edges of the first `n` inner rows.
pub open spec fn edges(l: LayoutModel, n: int) -> Seq<ChangeModel>
    decreases n,
{
    if n <= 0 {
        Seq::empty()
    } else {
        edges(l, n - 1) + text_at(l.x, held(l.top + n), box_row('│', ' ', '│', l.width))
    }
}

/// The first `n` rows of the message, each in the middle.
pub open spec fn message_at(l: LayoutModel, rows: Seq<Seq<char>>, n: int) -> Seq<ChangeModel>
    decreases n,
{
    if n <= 0 {
        Seq::empty()
    } else {
        let row = rows[n - 1];
        message_at(l, rows, n - 1) + text_at(
            held(held(l.x + 3) + less(l.area, column_width(row) as int) / 2),
            held(held(l.top + 2) + (n - 1)),
            row,
        )
    }
}

/// A button, highlighted while the mouse is over it.
pub open spec fn button_at(x: int, y: int, label: Seq<char>, active: bool) -> Seq<ChangeModel> {
    if active {
        seq![
            ChangeModel::CursorPosition { x, y },
            ChangeModel::Reverse,
            ChangeModel::Bold,
            ChangeModel::Text(label),
            ChangeModel::DefaultAttributes,
        ]
    } else {
        text_at(x, y, label)
    }
}

/// The dialog.
pub open spec fn dialog(
    l: LayoutModel,
    rows: Seq<Seq<char>>,
    no_label: Seq<char>,
    yes_label: Seq<char>,
    active: ActiveButton,
) -> Seq<ChangeModel> {
    seq![ChangeModel::ClearScreen, ChangeModel::HideCursor] + text_at(
        l.x,
        l.top,
        box_row('╭', '─', '╮', l.width),
    ) + edges(l, less(l.height, 1) - 1) + text_at(
        l.x,
        held(l.top + less(l.height, 1)),
        box_row('╰', '─', '╯', l.width),
    ) + message_at(l, rows, rows.len() as int) + button_at(
        l.no_x,
        l.button_row,
        no_label,
        active == ActiveButton::No,
    ) + button_at(l.yes_x, l.button_row, yes_label, active == ActiveButton::Yes)
}

fn draw_text(changes: &mut Vec<Change>, x: usize, y: usize, text: &str)
    ensures
        drawn(final(changes)@) == drawn(old(changes)@) + text_at(x as int, y as int, text@),
{
    let ghost before = drawn(changes@);
    draw(changes, Change::CursorPosition { x, y });
    draw(changes, Change::Text(text.to_owned()));
    proof {
        assert(drawn(changes@) =~= before + text_at(x as int, y as int, text@));
    }
}

fn draw_button(changes: &mut Vec<Change>, x: usize, y: usize, label: &str, active: bool)
    ensures
        drawn(final(changes)@) == drawn(old(changes)@) + button_at(
            x as int,
            y as int,
            label@,
            active,
        ),
{
    let ghost before = drawn(changes@);
    draw(changes, Change::CursorPosition { x, y });
    if active {
        draw(changes, Change::Reverse);
        draw(changes, Change::Bold);
    }
    draw(changes, Change::Text(label.to_owned()));
    if active {
        draw(changes, Change::DefaultAttributes);
    }
    proof {
        assert(drawn(changes@) =~= before + button_at(x as int, y as int, label@, active));
    }
}

fn box_text(left: char, mid: char, right: char, width: usize) -> (r: String)
    ensures
        r@ == box_row(left, mid, right, width as int),
{
    let mut text = String::new();
    text.push(left);
    text.append(filled(mid, minus(width, 2)).as_str());
    text.push(right);
    proof {
        assert(text@ =~= box_row(left, mid, right, width as int));
    }
    text
}

fn draw_edges(changes: &mut Vec<Change>, l: &Layout)
    ensures
        drawn(final(changes)@) == drawn(old(changes)@) + edges(
            l@,
            less(l.height as int, 1) - 1,
        ),
{
    let ghost before = drawn(changes@);
    let last: usize = minus(l.height, 1);
    let row = box_text('│', ' ', '│', l.width);
    let mut y: usize = 1;
    proof {
        assert(before + edges(l@, 0) =~= before);
    }
    while y < last
        invariant
            1 <= y,
            last > 0 ==> y <= last,
            last == 0 ==> y == 1,
            row@ == box_row('│', ' ', '│', l.width as int),
            drawn(changes@) == before + edges(l@, y - 1),
        decreases last - y,
    {
        let ghost sofar = drawn(changes@);
        draw_text(changes, l.x, l.top.saturating_add(y), row.as_str());
        proof {
            let piece = text_at(l@.x, held(l@.top + y), row@);
            assert(sofar + piece =~= before + (edges(l@, y - 1) + piece));
        }
        y += 1;
    }
    proof {
        assert(edges(l@, 0) == edges(l@, -1));
    }
}

fn draw_message(changes: &mut Vec<Change>, l: &Layout, rows: &Vec<String>)
    ensures
        drawn(final(changes)@) == drawn(old(changes)@) + message_at(
            l@,
            texts(rows@),
            rows@.len() as int,
        ),
{
    let ghost before = drawn(changes@);
    let mut i: usize = 0;
    proof {
        assert(before + message_at(l@, texts(rows@), 0) =~= before);
    }
    while i < rows.len()
        invariant
            i <= rows@.len(),
            drawn(changes@) == before + message_at(l@, texts(rows@), i as int),
        decreases rows@.len() - i,
    {
        let ghost sofar = drawn(changes@);
        proof {
            assert(texts(rows@)[i as int] == rows@[i as int]@);
        }
        let gap: usize = minus(l.area, text_width(rows[i].as_str())) / 2;
        let x: usize = l.x.saturating_add(3).saturating_add(gap);
        let y: usize = l.top.saturating_add(2).saturating_add(i);
        draw_text(changes, x, y, rows[i].as_str());
        proof {
            let piece = text_at(x as int, y as int, rows@[i as int]@);
            assert(sofar + piece =~= before + (message_at(l@, texts(rows@), i as int) + piece));
        }
        i += 1;
    }
}

/// What the dialog draws.
pub fn render_dialog(
    l: &Layout,
    rows: &Vec<String>,
    no_label: &str,
    yes_label: &str,
    active: ActiveButton,
) -> (r: Vec<Change>)
    ensures
        drawn(r@) == dialog(l@, texts(rows@), no_label@, yes_label@, active),
{
    let mut changes: Vec<Change> = Vec::new();
    proof {
        assert(drawn(changes@) =~= Seq::empty());
    }
    draw(&mut changes, Change::ClearScreen);
    draw(&mut changes, Change::HideCursor);
    proof {
        assert(drawn(changes@) =~= seq![ChangeModel::ClearScreen, ChangeModel::HideCursor]);
    }
    let top = box_text('╭', '─', '╮', l.width);
    draw_text(&mut changes, l.x, l.top, top.as_str());
    draw_edges(&mut changes, l);
    let foot = box_text('╰', '─', '╯', l.width);
    draw_text(&mut changes, l.x, l.top.saturating_add(minus(l.height, 1)), foot.as_str());
    draw_message(&mut changes, l, rows);
    draw_button(&mut changes, l.no_x, l.button_row, no_label, active == ActiveButton::No);
    draw_button(&mut changes, l.yes_x, l.button_row, yes_label, active == ActiveButton::Yes);
    changes
}

/// An open dialog.
#[derive(Debug)]
pub struct Confirmation {
    pub rows: Vec<String>,
    pub no_label: String,
    pub yes_label: String,
    pub layout: Layout,
    pub active: ActiveButton,
}

/// A dialog, with its texts as characters.
pub struct ConfirmModel {
    pub rows: Seq<Seq<char>>,
    pub no_label: Seq<char>,
    pub yes_label: Seq<char>,
    pub layout: LayoutModel,
    pub active: ActiveButton,
}

impl View for Confirmation {
    type V = ConfirmModel;

    open spec fn view(&self) -> ConfirmModel {
        ConfirmModel {
            rows: texts(self.rows@),
            no_label: self.no_label@,
            yes_label: self.yes_label@,
            layout: self.layout@,
            active: self.active,
        }
    }
}

/// Input to a dialog.
#[derive(Clone, Copy, Debug)]
pub enum ConfirmInput {
    Key(KeyCode),
    /// The mouse at a cell: with the left button alone down, and with any
    /// button down.
    Mouse { x: u16, y: u16, left: bool, any: bool },
    /// There is no more input.
    Ended,
    Other,
}

impl LayoutModel {
    /// The button at a cell.
    pub open spec fn button(self, x: int, y: int) -> ActiveButton {
        if y == self.button_row && self.yes_x <= x < held(self.yes_x + self.yes_width) {
            ActiveButton::Yes
        } else if y == self.button_row && self.no_x <= x < held(self.no_x + self.no_width) {
            ActiveButton::No
        } else {
            ActiveButton::Neither
        }
    }
}

impl ConfirmModel {
    /// The dialog for a message on a screen.
    pub open spec fn fresh(
        rows: Seq<Seq<char>>,
        no_label: Seq<char>,
        yes_label: Seq<char>,
        cols: int,
        height: int,
    ) -> ConfirmModel {
        ConfirmModel {
            rows,
            no_label,
            yes_label,
            layout: layout_spec(
                cols,
                height,
                widest(rows, rows.len() as int) as int,
                column_width(no_label) as int,
                column_width(yes_label) as int,
                rows.len() as int,
            ),
            active: ActiveButton::Neither,
        }
    }

    /// The answer that an input gives, if it gives one. A click beside the
    /// buttons, or with another button, cancels, and so does the end of the
    /// input.
    pub open spec fn answer(self, input: ConfirmInput) -> Option<bool> {
        match input {
            ConfirmInput::Key(KeyCode::Char(c)) => if c == 'y' || c == 'Y' {
                Some(true)
            } else if c == 'n' || c == 'N' {
                Some(false)
            } else {
                None
            },
            ConfirmInput::Key(KeyCode::Enter) => Some(true),
            ConfirmInput::Key(KeyCode::Escape) => Some(false),
            ConfirmInput::Mouse { x, y, left, any } => if left && self.layout.button(
                x as int,
                y as int,
            ) == ActiveButton::Yes {
                Some(true)
            } else if any || (left && self.layout.button(x as int, y as int) == ActiveButton::No) {
                Some(false)
            } else {
                None
            },
            ConfirmInput::Ended => Some(false),
            _ => None,
        }
    }

    /// The dialog after an input.
    pub open spec fn after(self, input: ConfirmInput) -> ConfirmModel {
        match input {
            ConfirmInput::Mouse { x, y, .. } => ConfirmModel {
                active: self.layout.button(x as int, y as int),
                ..self
            },
            _ => self,
        }
    }
}

impl Layout {
    /// The button at a cell.
    pub fn button(&self, x: usize, y: usize) -> (r: ActiveButton)
        ensures
            r == self@.button(x as int, y as int),
    {
        if y == self.button_row && self.yes_x <= x && x < self.yes_x.saturating_add(
            self.yes_width,
        ) {
            ActiveButton::Yes
        } else if y == self.button_row && self.no_x <= x && x < self.no_x.saturating_add(
            self.no_width,
        ) {
            ActiveButton::No
        } else {
            ActiveButton::Neither
        }
    }
}

impl Confirmation {
    /// Lay out a dialog for rows and labels.
    pub fn lay_out(
        rows: Vec<String>,
        no_label: String,
        yes_label: String,
        cols: usize,
        height: usize,
    ) -> (r: Self)
        ensures
            r@ == ConfirmModel::fresh(
                texts(rows@),
                no_label@,
                yes_label@,
                cols as int,
                height as int,
            ),
    {
        let count: usize = rows.len();
        let place = layout(
            cols,
            height,
            widest_row(&rows),
            text_width(no_label.as_str()),
            text_width(yes_label.as_str()),
            count,
        );
        proof {
            assert(texts(rows@).len() == count);
        }
        Confirmation { rows, no_label, yes_label, layout: place, active: ActiveButton::Neither }
    }

    /// Open a dialog for a message, in the current language.
    pub fn open(
        table: &Table,
        message: &str,
        cols: usize,
        height: usize,
    ) -> (r: Self)
        ensures
            r@ == ConfirmModel::fresh(
                message_rows(
                    translated(table@, message@),
                    wrap_width_spec(cols as int) as nat,
                ),
                translated(table@, "[N] Cancel"@),
                translated(table@, "[Y] Confirm"@),
                cols as int,
                height as int,
            ),
    {
        let text = tr(table, message);
        let yes_label = tr(table, "[Y] Confirm");
        let no_label = tr(table, "[N] Cancel");
        let rows = wrap_message(text.as_str(), wrap_width(cols));
        Self::lay_out(rows, no_label, yes_label, cols, height)
    }

    /// What the dialog draws.
    pub fn render(&self) -> (r: Vec<Change>)
        ensures
            drawn(r@) == dialog(
                self@.layout,
                self@.rows,
                self@.no_label,
                self@.yes_label,
                self@.active,
            ),
    {
        render_dialog(
            &self.layout,
            &self.rows,
            self.no_label.as_str(),
            self.yes_label.as_str(),
            self.active,
        )
    }

    /// Take an input; the dialog is over once there is an answer.
    pub fn feed(&mut self, input: ConfirmInput) -> (r: Option<bool>)
        ensures
            r == old(self)@.answer(input),
            final(self)@ == old(self)@.after(input),
    {
        match input {
            ConfirmInput::Key(KeyCode::Char(c)) => {
                if c == 'y' || c == 'Y' {
                    Some(true)
                } else if c == 'n' || c == 'N' {
                    Some(false)
                } else {
                    None
                }
            },
            ConfirmInput::Key(KeyCode::Enter) => Some(true),
            ConfirmInput::Key(KeyCode::Escape) => Some(false),
            ConfirmInput::Mouse { x, y, left, any } => {
                let over = self.layout.button(x as usize, y as usize);
                self.active = over;
                if left && over == ActiveButton::Yes {
                    Some(true)
                } else if any || (left && over == ActiveButton::No) {
                    Some(false)
                } else {
                    None
                }
            },
            ConfirmInput::Ended => Some(false),
            _ => None,
        }
    }
}

/// The event that a confirmed action stands for; an action that stands for
/// none is refused before anything is asked.
pub fn confirmed_event(action: Option<String>) -> (r: Result<String, String>)
    ensures
        match (action, r) {
            (Some(id), Ok(name)) => name == id,
            (None, Err(e)) => e@
                == "Confirmation requires action to be defined by action_callback"@,
            _ => false,
        },
{
    match action {
        Some(id) => Ok(id),
        None => Err(
            "Confirmation requires action to be defined by action_callback".to_owned(),
        ),
    }
}

/// The event to emit after the dialog: the action's where it was confirmed,
/// that for a cancel where there is one. A dialog that could not be shown
/// emits nothing.
pub fn event_after(name: String, cancel: Option<String>, answer: Option<bool>) -> (r: Option<
    String,
>)
    ensures
        opt(r) == match answer {
            Some(true) => Some(name@),
            Some(false) => opt(cancel),
            None => None,
        },
{
    match answer {
        Some(true) => Some(name),
        Some(false) => cancel,
        None => None,
    }
}

/// The answer of a dialog that is given these inputs in order: that of the
/// first one that gives an answer.
pub open spec fn first_answer(m: ConfirmModel, inputs: Seq<ConfirmInput>) -> Option<bool>
    decreases inputs.len(),
{
    if inputs.len() == 0 {
        None
    } else {
        match m.answer(inputs[0]) {
            Some(yes) => Some(yes),
            None => first_answer(m.after(inputs[0]), inputs.skip(1)),
        }
    }
}

/// Input that ends undecided means no: whatever was fed before, the end of
/// the input leaves the dialog answered, with the first answer that was
/// given, or with no where none was.
pub proof fn undecided_input_means_no(m: ConfirmModel, inputs: Seq<ConfirmInput>)
    ensures
        first_answer(m, inputs.push(ConfirmInput::Ended)) == Some(
            first_answer(m, inputs) == Some(true),
        ),
    decreases inputs.len(),
{
    let all = inputs.push(ConfirmInput::Ended);
    if inputs.len() > 0 {
        undecided_input_means_no(m.after(inputs[0]), inputs.skip(1));
        assert(all.skip(1) =~= inputs.skip(1).push(ConfirmInput::Ended));
    }
}

/// A click says yes only on the button that says yes.
pub proof fn a_stray_click_cancels(m: ConfirmModel, x: u16, y: u16, left: bool)
    requires
        m.layout.button(x as int, y as int) != ActiveButton::Yes,
    ensures
        m.answer(ConfirmInput::Mouse { x, y, left, any: true }) == Some(false),
{
}

/// The keys of the dialog answer as they read: `y` and Enter yes, `n` and
/// Escape no, and any other key nothing.
pub proof fn keys_answer_as_they_read(m: ConfirmModel, code: KeyCode)
    ensures
        m.answer(ConfirmInput::Key(code)) == if code == KeyCode::Char('y') || code == KeyCode::Char(
            'Y',
        ) || code == KeyCode::Enter {
            Some(true)
        } else if code == KeyCode::Char('n') || code == KeyCode::Char('N') || code
            == KeyCode::Escape {
            Some(false)
        } else {
            None
        },
        m.after(ConfirmInput::Key(code)) == m,
{
}

/// A click on the yes button says yes and one on the no button says no; the
/// mouse alone answers nothing and only lights the button below it.
pub proof fn buttons_answer_as_they_read(m: ConfirmModel, x: u16, y: u16, any: bool)
    requires
        0 <= m.layout.yes_x,
        0 <= m.layout.no_x,
        m.layout.yes_x + m.layout.yes_width <= usize::MAX,
        m.layout.no_x + m.layout.no_width <= usize::MAX,
        m.layout.no_x + m.layout.no_width <= m.layout.yes_x,
    ensures
        ({
            let on_yes = y == m.layout.button_row && m.layout.yes_x <= x < m.layout.yes_x
                + m.layout.yes_width;
            let on_no = y == m.layout.button_row && m.layout.no_x <= x < m.layout.no_x
                + m.layout.no_width;
            let click = ConfirmInput::Mouse { x, y, left: true, any };
            let hover = ConfirmInput::Mouse { x, y, left: false, any: false };
            &&& on_yes ==> m.answer(click) == Some(true)
            &&& on_no ==> m.answer(click) == Some(false)
            &&& m.answer(hover) is None
            &&& m.after(hover).active == if on_yes {
                ActiveButton::Yes
            } else if on_no {
                ActiveButton::No
            } else {
                ActiveButton::Neither
            }
        }),
{
}

/// The dialog stands inside the screen where that is wide enough, with the
/// message above the buttons and the no button left of the yes button, in
/// one row and apart.
pub proof fn the_dialog_fits_its_screen(
    cols: int,
    rows: int,
    message: int,
    no_width: int,
    yes_width: int,
    count: int,
)
    requires
        0 <= message <= 1000000,
        0 <= no_width <= 1000000,
        0 <= yes_width <= 1000000,
        0 <= count <= 1000000,
        message + 6 <= cols <= 10000000,
        no_width + yes_width + 9 <= cols,
        count + 5 <= rows <= 10000000,
    ensures
        ({
            let l = layout_spec(cols, rows, message, no_width, yes_width, count);
            &&& 0 <= l.x
            &&& l.x + l.width <= cols
            &&& 0 <= l.top
            &&& l.top + l.height <= rows
            &&& l.top + count < l.button_row < l.top + l.height - 1
            &&& l.x < l.no_x
            &&& l.no_x + l.no_width < l.yes_x
            &&& l.yes_x + l.yes_width < l.x + l.width
            &&& l.no_width == no_width && l.yes_width == yes_width
            &&& l.area >= message
        }),
{
}

} // verus!

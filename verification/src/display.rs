//! Lines of the overlay: their widths, borders and entries.

use crate::text::{cat, chars_of, filled, fill, text_of};
use crate::types::{permission_string, permissions, FileEntry};
use crate::units::{bytes_text, format_bytes};
use vstd::prelude::*;
use vstd::string::*;

verus! {

/// Columns that a text takes on the screen, as
/// `termwiz::cell::unicode_column_width` counts them for the latest
/// version of Unicode it knows.
pub uninterp spec fn column_width(text: Seq<char>) -> nat;

/// `termwiz::cell::unicode_column_width`: the columns that a text takes on
/// the screen.  The widths come from tables that are part of the crate, so
/// the result depends on the text alone.
#[verifier::external_body]
pub(crate) fn text_width(text: &str) -> (r: usize)
    ensures
        r == column_width(text@),
{
    termwiz::cell::unicode_column_width(text, None)
}

/// How many characters of `text` fit into `limit` columns, counted from
/// the first `from` on: each one is taken while it fits behind those
/// before it.
pub open spec fn fitting(text: Seq<char>, limit: int, from: int) -> int
    decreases text.len() - from,
{
    if from < 0 || from >= text.len() {
        from
    } else if column_width(text.take(from)) + column_width(seq![text[from]]) > limit {
        from
    } else {
        fitting(text, limit, from + 1)
    }
}

/// `a - b`, or nothing where `b` is larger.
pub open spec fn less(a: int, b: int) -> int {
    if a < b {
        0
    } else {
        a - b
    }
}

/// A text in at most `width` columns, an ellipsis marking what was cut.
pub open spec fn truncated(text: Seq<char>, width: int) -> Seq<char> {
    if column_width(text) <= width {
        text
    } else {
        text.take(fitting(text, less(width, 1), 0)).push('…')
    }
}

fn minus(a: usize, b: usize) -> (r: usize)
    ensures
        r == less(a as int, b as int),
{
    if a < b {
        0
    } else {
        a - b
    }
}

/// Truncate to `width` display columns with an ellipsis marker.
pub fn truncate_visible(text: &str, width: usize) -> (r: String)
    ensures
        r@ == truncated(text@, width as int),
{
    if text_width(text) <= width {
        return text.to_owned();
    }
    let v = chars_of(text);
    let limit: usize = minus(width, 1);
    let mut out = String::new();
    let mut i: usize = 0;
    proof {
        assert(out@ =~= text@.take(0));
    }
    while i < v.len()
        invariant
            i <= v@.len(),
            v@ == text@,
            out@ == text@.take(i as int),
            fitting(text@, limit as int, 0) == fitting(text@, limit as int, i as int),
        ensures
            out@ == text@.take(fitting(text@, limit as int, 0)),
        decreases v@.len() - i,
    {
        let one = text_of(&v, i, i + 1);
        proof {
            assert(one@ =~= seq![text@[i as int]]);
        }
        let cw: usize = text_width(one.as_str());
        let w: usize = text_width(out.as_str());
        if w > limit || cw > limit - w {
            break;
        }
        let ghost before = out@;
        out.push(v[i]);
        proof {
            assert(out@ =~= text@.take(i + 1));
        }
        i += 1;
    }
    out.push('…');
    out
}

/// A border of `width` columns with a label in the middle; a label that
/// does not fit is left out.
pub open spec fn border(left: char, right: char, mid: char, label: Seq<char>, width: int) -> Seq<
    char,
> {
    let inner = less(width, 2);
    let shown = if column_width(label) > inner {
        Seq::empty()
    } else {
        label
    };
    let taken = if shown.len() == 0 {
        0
    } else {
        column_width(label) as int
    };
    let fills = less(inner, taken);
    seq![left] + fill(mid, (fills / 2) as nat) + shown + fill(mid, (fills - fills / 2) as nat)
        + seq![right]
}

/// A border of `width` columns with a label in the middle.
pub fn border_row(left: char, right: char, mid: char, label: &str, width: usize) -> (r: String)
    ensures
        r@ == border(left, right, mid, label@, width as int),
{
    let label_width: usize = text_width(label);
    let inner: usize = minus(width, 2);
    let shown = if label_width > inner {
        ""
    } else {
        label
    };
    proof {
        reveal_strlit("");
    }
    let shown_width: usize = if shown.is_empty() {
        0
    } else {
        label_width
    };
    let fills: usize = minus(inner, shown_width);
    let left_pad: usize = fills / 2;
    let right_pad: usize = fills - left_pad;
    let mut out = String::new();
    out.push(left);
    out.append(filled(mid, left_pad).as_str());
    out.append(shown);
    out.append(filled(mid, right_pad).as_str());
    out.push(right);
    proof {
        let shown_spec: Seq<char> = if column_width(label@) > inner {
            Seq::empty()
        } else {
            label@
        };
        assert(shown@ =~= shown_spec);
        assert(out@ =~= border(left, right, mid, label@, width as int));
    }
    out
}

/// Permissions shown for an entry: none in a pane narrower than 26 columns.
pub open spec fn shown_perms(e: FileEntry, width: int) -> Seq<char> {
    match e.mode {
        Some(m) => if width >= 26 {
            permissions(m, e.is_dir, e.is_symlink)
        } else {
            Seq::empty()
        },
        None => Seq::empty(),
    }
}

/// Size shown for an entry.
pub open spec fn shown_size(e: FileEntry) -> Seq<char> {
    if e.is_dir {
        "<DIR>"@
    } else {
        bytes_text(e.size as nat)
    }
}

/// Columns left for the name of an entry, never none.
pub open spec fn name_columns(e: FileEntry, width: int) -> int {
    let n = less(
        width,
        column_width(shown_size(e)) + 3 + column_width(shown_perms(e, width)) as int,
    );
    if n < 1 {
        1
    } else {
        n
    }
}

/// Name shown for an entry, a link marked where there is room.
pub open spec fn shown_name(e: FileEntry, width: int) -> Seq<char> {
    let columns = name_columns(e, width);
    let name = truncated(e.name@, columns);
    if e.is_symlink && column_width(name) < columns {
        name.push('@')
    } else {
        name
    }
}

/// `[perms] mark name…  size` in `width` columns.
pub open spec fn entry_line(e: FileEntry, is_marked: bool, width: int) -> Seq<char> {
    let name = shown_name(e, width);
    shown_perms(e, width) + (if is_marked {
        "●"@
    } else {
        " "@
    }) + name + fill(' ', less(name_columns(e, width), column_width(name) as int) as nat) + "  "@
        + shown_size(e)
}

/// `[perms] mark name…  size` in `width` columns.  The permission column
/// appears only once the pane is wide enough.
pub fn format_entry_line(entry: &FileEntry, is_marked: bool, width: usize) -> (r: String)
    ensures
        r@ == entry_line(*entry, is_marked, width as int),
{
    let mark = if is_marked {
        "●"
    } else {
        " "
    };
    let size = if entry.is_dir {
        "<DIR>".to_owned()
    } else {
        format_bytes(entry.size)
    };
    let perms = match entry.mode {
        Some(m) => if width >= 26 {
            permission_string(m, entry.is_dir, entry.is_symlink)
        } else {
            String::new()
        },
        None => String::new(),
    };
    proof {
        assert(perms@ =~= shown_perms(*entry, width as int));
    }
    let size_w: usize = text_width(size.as_str());
    let perms_w: usize = text_width(perms.as_str());
    let rest: usize = minus(minus(minus(width, size_w), 3), perms_w);
    let name_w: usize = if rest < 1 {
        1
    } else {
        rest
    };
    let mut name = truncate_visible(entry.name.as_str(), name_w);
    if entry.is_symlink && text_width(name.as_str()) < name_w {
        name.push('@');
    }
    let pad: usize = minus(name_w, text_width(name.as_str()));
    let mut out = cat(perms.as_str(), mark);
    out.append(name.as_str());
    out.append(filled(' ', pad).as_str());
    out.append("  ");
    out.append(size.as_str());
    out
}

/// A line of a listing shows its entry: a name that fits in full, the size
/// of a file and not that of a directory, and the mark exactly where the
/// entry is marked.
pub proof fn a_line_shows_its_entry(e: FileEntry, is_marked: bool, width: int)
    ensures
        ({
            let perms = shown_perms(e, width);
            let line = entry_line(e, is_marked, width);
            let rest = line.skip(perms.len() as int + 1);
            let mark = if is_marked {
                '●'
            } else {
                ' '
            };
            &&& line.take(perms.len() as int) == perms
            &&& line.len() > perms.len()
            &&& line[perms.len() as int] == mark
            &&& column_width(e.name@) <= name_columns(e, width) ==> rest.len() >= e.name@.len()
                && rest.take(e.name@.len() as int) == e.name@
            &&& e.is_dir ==> line.skip(line.len() - 5) == "<DIR>"@
            &&& !e.is_dir ==> line.skip(line.len() - bytes_text(e.size as nat).len()) == bytes_text(
                e.size as nat,
            )
        }),
{
    reveal_strlit("●");
    reveal_strlit(" ");
    reveal_strlit("<DIR>");
    let perms = shown_perms(e, width);
    let line = entry_line(e, is_marked, width);
    let mark = if is_marked {
        "●"@
    } else {
        " "@
    };
    let name = shown_name(e, width);
    let pad = fill(' ', less(name_columns(e, width), column_width(name) as int) as nat);
    let n = perms.len() as int;
    let tail = pad + "  "@ + shown_size(e);
    assert(line =~= perms + mark + name + tail);
    assert(line.take(n) =~= perms);
    assert(line[n] == mark[0]);
    assert(line.skip(n + 1) =~= name + tail);
    if column_width(e.name@) <= name_columns(e, width) {
        assert((name + tail).take(e.name@.len() as int) =~= e.name@);
    }
    let k = shown_size(e).len() as int;
    assert(line.skip(line.len() - k) =~= shown_size(e));
}

} // verus!

//! What the keys promise: which files an answer touches, where a key leads,
//! and what it leaves alone.

use crate::cache::cache_path;
use crate::input::{dir_named, next_start, starts_with, target_lines, Handled};
use crate::keys::{KeyCode, KeyEvent, MOD_CTRL, MOD_NONE, MOD_SHIFT};
use crate::panel::PanelModel;
use crate::paths::{above, jump, parent_undoes_join, path_in};
use crate::state::{
    AppModel, AuthReply, EffectModel, ModeModel, OutModel, QueueModel, RequestModel,
};
use crate::text::{alike, ascii_low, ends_in, holds, joined, lower, trim, trim_end};
use crate::transfer::{
    a_request_is_queued, numbered, unclaimed, Direction, JobModel, ManagerModel, StateModel,
    StatusModel,
};
use crate::types::{FileEntry, PanelSide};
use vstd::prelude::*;
use vstd::string::*;

verus! {

/// A key without modifiers.
pub open spec fn bare(key: KeyCode) -> KeyEvent {
    KeyEvent { key, modifiers: MOD_NONE }
}

/// A key with the control key held.
pub open spec fn held(key: KeyCode) -> KeyEvent {
    KeyEvent { key, modifiers: MOD_CTRL }
}

/// No prompt and no help is on screen.
pub open spec fn quiet(m: AppModel) -> bool {
    m.queue.mode is None && !m.flags.help
}

/// The panel with the focus.
pub open spec fn here(m: AppModel) -> PanelModel {
    if m.panes.focus == PanelSide::Local {
        m.panes.local
    } else {
        m.panes.remote
    }
}

/// The panel without the focus.
pub open spec fn there(m: AppModel) -> PanelModel {
    if m.panes.focus == PanelSide::Local {
        m.panes.remote
    } else {
        m.panes.local
    }
}

/// The first entry called `name` decides what is deleted under that name,
/// and under a name that no entry has nothing is.
pub proof fn a_deletion_is_of_an_entry(entries: Seq<FileEntry>, name: Seq<char>)
    ensures
        dir_named(entries, name) is Some <==> exists|i: int|
            0 <= i < entries.len() && (#[trigger] entries[i]).name@ == name,
        dir_named(entries, name) is Some ==> exists|i: int|
            0 <= i < entries.len() && (#[trigger] entries[i]).name@ == name && entries[i].is_dir
                == dir_named(entries, name)->0 && forall|j: int|
                0 <= j < i ==> (#[trigger] entries[j]).name@ != name,
    decreases entries.len(),
{
    if entries.len() > 0 {
        let rest = entries.skip(1);
        a_deletion_is_of_an_entry(rest, name);
        if entries[0].name@ != name {
            if dir_named(entries, name) is Some {
                let i = choose|i: int|
                    0 <= i < rest.len() && (#[trigger] rest[i]).name@ == name && rest[i].is_dir
                        == dir_named(rest, name)->0 && forall|j: int|
                        0 <= j < i ==> (#[trigger] rest[j]).name@ != name;
                assert(entries[i + 1] == rest[i]);
                assert forall|j: int| 0 <= j < i + 1 implies (#[trigger] entries[j]).name@
                    != name by {
                    if j > 0 {
                        assert(entries[j] == rest[j - 1]);
                    }
                }
            } else {
                assert forall|i: int| 0 <= i < entries.len() implies (#[trigger] entries[i]).name@
                    != name by {
                    if i > 0 {
                        assert(entries[i] == rest[i - 1]);
                    }
                }
            }
        }
    }
}

/// The deletion of the entry called `name` in a panel, if there is one.
pub open spec fn deletion(panel: PanelModel, side: PanelSide, name: Seq<char>) -> Option<
    RequestModel,
> {
    match dir_named(panel.entries, name) {
        Some(is_dir) => Some(
            RequestModel::Delete { side, path: path_in(panel.path, name), is_dir },
        ),
        None => None,
    }
}

proof fn lemma_deleted(
    out: OutModel,
    side: PanelSide,
    panel: PanelModel,
    names: Seq<Seq<char>>,
    n: int,
)
    requires
        0 <= n <= names.len(),
    ensures
        out.deleted(side, panel, names, n) == (OutModel {
            requests: out.requests + names.take(n).filter_map(
                |name: Seq<char>| deletion(panel, side, name),
            ),
            ..out
        }),
    decreases n,
{
    let f = |name: Seq<char>| deletion(panel, side, name);
    reveal(Seq::filter_map);
    if n <= 0 {
        assert(out.requests + names.take(0).filter_map(f) =~= out.requests);
    } else {
        lemma_deleted(out, side, panel, names, n - 1);
        assert(names.take(n).drop_last() =~= names.take(n - 1));
        assert(out.deleted(side, panel, names, n).requests =~= out.requests + names.take(
            n,
        ).filter_map(f));
    }
}

/// The answer typed at a deletion prompt agrees to it.
pub open spec fn agrees(line: Seq<char>) -> bool {
    alike(trim(line), "y"@) || alike(trim(line), "yes"@)
}

/// A confirmed deletion asks for one deletion of every confirmed name that
/// the listing has, in their order, each under its path in the panel's
/// directory and as the kind of that entry, and for nothing else.  Any other
/// answer asks for nothing.
pub proof fn a_confirmed_deletion_deletes_the_named_entries(
    m: AppModel,
    names: Seq<Seq<char>>,
    home: Option<Seq<char>>,
)
    requires
        m.queue.mode == Some(ModeModel::ConfirmDelete { names }),
        !m.flags.help,
    ensures
        ({
            let r = m.after_key(bare(KeyCode::Enter), home).0;
            &&& r.out.requests == m.out.requests + (if agrees(m.line) {
                names.filter_map(|name: Seq<char>| deletion(here(m), m.panes.focus, name))
            } else {
                Seq::empty()
            })
            &&& r.out.effects == m.out.effects
            &&& r.panes == m.panes
            &&& r.queue == (QueueModel { mode: None, ..m.queue })
            &&& r.line.len() == 0
        }),
{
    reveal(AppModel::after_key);
    reveal(AppModel::plain_key_spec);
    reveal(AppModel::line_entered);
    let n = names.len() as int;
    assert(names.take(n) =~= names);
    lemma_deleted(m.out, m.panes.focus, here(m), names, n);
    assert(m.out.requests + Seq::<RequestModel>::empty() =~= m.out.requests);
}

/// Asking for a deletion deletes nothing yet: the prompt names the selected
/// entries, in order.
pub proof fn a_deletion_is_asked_about_first(m: AppModel, code: KeyCode, home: Option<Seq<char>>)
    requires
        quiet(m),
        code == KeyCode::Char('d') || code == KeyCode::Function(8),
    ensures
        ({
            let r = m.after_key(bare(code), home).0;
            let targets = here(m).targets();
            &&& r.out == m.out
            &&& r.panes == m.panes
            &&& targets.len() == 0 ==> r.queue == m.queue
            &&& targets.len() > 0 ==> match r.queue.mode {
                Some(ModeModel::ConfirmDelete { names }) => names == Seq::new(
                    targets.len(),
                    |i: int| targets[i].1.name@,
                ) && r.line.len() == 0,
                _ => false,
            }
        }),
{
    reveal(AppModel::after_key);
    reveal(AppModel::deletion_asked);
}

/// A new file or folder is made under the name that was typed, in the
/// focused directory: a folder where one was asked for or the name ends in
/// a slash.
pub proof fn a_typed_name_is_created(
    m: AppModel,
    directory: bool,
    name: Seq<char>,
    home: Option<Seq<char>>,
)
    requires
        m.queue.mode == Some(ModeModel::Create { directory }),
        !m.flags.help,
        name.len() > 0,
        name.last() != '/',
    ensures
        m.line == name ==> m.after_key(bare(KeyCode::Enter), home).0.out.requests
            == m.out.requests.push(
            RequestModel::Create {
                side: m.panes.focus,
                path: path_in(here(m).path, name),
                is_dir: directory,
            },
        ),
        m.line == name.push('/') ==> m.after_key(bare(KeyCode::Enter), home).0.out.requests
            == m.out.requests.push(
            RequestModel::Create {
                side: m.panes.focus,
                path: path_in(here(m).path, name),
                is_dir: true,
            },
        ),
        m.line.len() == 0 || m.line == seq!['/'] ==> m.after_key(
            bare(KeyCode::Enter),
            home,
        ).0.out.requests == m.out.requests && m.after_key(
            bare(KeyCode::Enter),
            home,
        ).0.note.error is Some,
        m.after_key(bare(KeyCode::Enter), home).0.queue == (QueueModel { mode: None, ..m.queue }),
{
    reveal(AppModel::after_key);
    reveal(AppModel::plain_key_spec);
    reveal(AppModel::line_entered);
    assert(name.push('/').drop_last() =~= name);
    assert(trim_end(name, '/') == name);
    assert(trim_end(name.push('/'), '/') == trim_end(name, '/'));
    assert(seq!['/'].drop_last() =~= Seq::<char>::empty());
    assert(trim_end(Seq::<char>::empty(), '/') =~= Seq::<char>::empty());
    assert(trim_end(seq!['/'], '/') == trim_end(Seq::<char>::empty(), '/'));
}

/// A rename moves the entry that was asked about to the name that was
/// typed, inside the focused directory; an empty name or the old one
/// renames nothing.
pub proof fn a_typed_name_renames_the_entry(
    m: AppModel,
    original: Seq<char>,
    home: Option<Seq<char>>,
)
    requires
        m.queue.mode == Some(ModeModel::Rename { original }),
        !m.flags.help,
    ensures
        ({
            let r = m.after_key(bare(KeyCode::Enter), home).0;
            &&& r.out.requests == if m.line.len() == 0 || m.line == original {
                m.out.requests
            } else {
                m.out.requests.push(
                    RequestModel::Rename {
                        side: m.panes.focus,
                        from: path_in(here(m).path, original),
                        to: path_in(here(m).path, m.line),
                    },
                )
            }
            &&& r.queue == (QueueModel { mode: None, ..m.queue })
        }),
{
    reveal(AppModel::after_key);
    reveal(AppModel::plain_key_spec);
    reveal(AppModel::line_entered);
}

/// A rename is asked about the entry under the cursor, with its name to
/// start from; creating starts from an empty line.
pub proof fn prompts_start_from_the_entry(m: AppModel, home: Option<Seq<char>>)
    requires
        quiet(m),
    ensures
        0 <= here(m).cursor < here(m).entries.len() ==> {
            let name = here(m).entries[here(m).cursor].name@;
            let a = m.after_key(bare(KeyCode::Char('r')), home).0;
            let b = m.after_key(bare(KeyCode::Function(2)), home).0;
            &&& a.queue.mode == Some(ModeModel::Rename { original: name })
            &&& b.queue.mode == Some(ModeModel::Rename { original: name })
            &&& a.line == name && b.line == name
            &&& a.out == m.out && b.out == m.out
        },
        ({
            let a = m.after_key(bare(KeyCode::Char('a')), home).0;
            let b = m.after_key(bare(KeyCode::Function(7)), home).0;
            &&& a.queue.mode == Some(ModeModel::Create { directory: false })
            &&& b.queue.mode == Some(ModeModel::Create { directory: true })
            &&& a.line.len() == 0 && b.line.len() == 0
            &&& a.out == m.out && b.out == m.out
        }),
{
    reveal(AppModel::after_key);
    reveal(AppModel::rename_asked);
}

/// Typing at a prompt for a name or an answer edits the line and asks for
/// nothing, and giving up leaves everything but the prompt as it was.
pub proof fn typing_edits_the_line(m: AppModel, c: char, home: Option<Seq<char>>)
    requires
        !m.flags.help,
        match m.queue.mode {
            Some(ModeModel::Create { .. }) => true,
            Some(ModeModel::Rename { .. }) => true,
            Some(ModeModel::ConfirmDelete { .. }) => true,
            Some(ModeModel::JumpTo) => true,
            Some(ModeModel::Password { .. }) => true,
            _ => false,
        },
    ensures
        ({
            let typed = m.after_key(bare(KeyCode::Char(c)), home).0;
            let back = typed.after_key(bare(KeyCode::Backspace), home).0;
            let given_up = m.after_key(bare(KeyCode::Escape), home).0;
            &&& typed.line == m.line.push(c)
            &&& back.line == m.line
            &&& typed.out == m.out && back.out == m.out
            &&& typed.queue == m.queue && back.queue == m.queue
            &&& typed.panes == m.panes
            &&& given_up.queue == (QueueModel { mode: None, ..m.queue })
            &&& given_up.out.requests == m.out.requests
            &&& given_up.panes == m.panes
            &&& given_up.line.len() == 0
        }),
{
    reveal(AppModel::after_key);
    reveal(AppModel::plain_key_spec);
    reveal(AppModel::jump_key_spec);
    reveal(AppModel::password_key_spec);
    reveal(AppModel::password_given);
    assert(m.line.push(c).drop_last() =~= m.line);
}

/// Entering a directory shows the path of that entry and has it listed;
/// entering a file opens that file: a local one where it is, a remote one
/// as its own copy in the cache.
pub proof fn entering_follows_the_cursor(m: AppModel, code: KeyCode, home: Option<Seq<char>>)
    requires
        quiet(m),
        code == KeyCode::Enter || code == KeyCode::RightArrow || code == KeyCode::Char('l'),
        0 <= here(m).cursor < here(m).entries.len(),
    ensures
        ({
            let r = m.after_key(bare(code), home).0;
            let e = here(m).entries[here(m).cursor];
            let path = path_in(here(m).path, e.name@);
            &&& e.is_dir ==> here(r).path == path && r.out.requests == m.out.requests.push(
                RequestModel::Ls { side: m.panes.focus, path },
            ) && r.out.effects == m.out.effects
            &&& !e.is_dir ==> here(r) == here(m) && opens(m, r, path)
            &&& there(r) == there(m)
            &&& r.panes.focus == m.panes.focus
            &&& r.queue == m.queue
        }),
{
    reveal(AppModel::after_key);
    reveal(AppModel::entered);
    reveal(AppModel::file_opened);
}

/// What opening the file at `path` asks for.
pub open spec fn opens(m: AppModel, r: AppModel, path: Seq<char>) -> bool {
    if m.panes.focus == PanelSide::Local {
        r.out.effects == m.out.effects.push(EffectModel::OpenLocal { path }) && r.out.requests
            == m.out.requests
    } else {
        r.out.requests == m.out.requests.push(
            RequestModel::OpenRemote { source: path, dest: cache_path(m.link.label, path) },
        ) && r.out.effects == m.out.effects
    }
}

/// `o` opens the file under the cursor and leaves a directory alone.
pub proof fn opening_opens_the_file_under_the_cursor(m: AppModel, home: Option<Seq<char>>)
    requires
        quiet(m),
        0 <= here(m).cursor < here(m).entries.len(),
    ensures
        ({
            let r = m.after_key(bare(KeyCode::Char('o')), home).0;
            let e = here(m).entries[here(m).cursor];
            &&& e.is_dir ==> r.out == m.out
            &&& !e.is_dir ==> opens(m, r, path_in(here(m).path, e.name@))
            &&& r.panes == m.panes
            &&& r.queue == m.queue
        }),
{
    reveal(AppModel::after_key);
    reveal(AppModel::file_opened);
}

/// Going up shows the directory above and has it listed.
pub proof fn going_up_lists_the_directory_above(m: AppModel, code: KeyCode, home: Option<Seq<char>>)
    requires
        quiet(m),
        code == KeyCode::Char('h') || code == KeyCode::LeftArrow,
    ensures
        ({
            let r = m.after_key(bare(code), home).0;
            &&& here(r).path == above(here(m).path)
            &&& r.out.requests == m.out.requests.push(
                RequestModel::Ls { side: m.panes.focus, path: above(here(m).path) },
            )
            &&& r.out.effects == m.out.effects
            &&& there(r) == there(m)
            &&& r.panes.focus == m.panes.focus
            &&& r.queue == m.queue
        }),
{
    reveal(AppModel::after_key);
    reveal(AppModel::risen);
}

/// Going up undoes entering a directory.
pub proof fn going_up_undoes_entering(m: AppModel, home: Option<Seq<char>>)
    requires
        quiet(m),
        0 <= here(m).cursor < here(m).entries.len(),
        here(m).entries[here(m).cursor].is_dir,
        here(m).path == "/"@ || (here(m).path.len() > 0 && !ends_in(here(m).path, '/')),
        here(m).entries[here(m).cursor].name@.len() > 0,
        forall|i: int|
            0 <= i < here(m).entries[here(m).cursor].name@.len()
                ==> here(m).entries[here(m).cursor].name@[i] != '/',
    ensures
        ({
            let down = m.after_key(bare(KeyCode::Char('l')), home).0;
            let up = down.after_key(bare(KeyCode::Char('h')), home).0;
            here(up).path == here(m).path
        }),
{
    reveal(AppModel::after_key);
    reveal(AppModel::entered);
    reveal(AppModel::risen);
    parent_undoes_join(here(m).path, here(m).entries[here(m).cursor].name@);
}

/// The history is walked one directory at a time: back shows the one
/// visited before, forward the one after, each is listed, and at either end
/// nothing is.  Walking forward undoes walking back.
pub proof fn the_history_is_walked(m: AppModel, home: Option<Seq<char>>)
    requires
        quiet(m),
        0 <= here(m).visited_pos < here(m).visited.len(),
    ensures
        ({
            let p = here(m);
            let back = m.after_key(bare(KeyCode::Char('H')), home).0;
            let on = m.after_key(bare(KeyCode::Char('L')), home).0;
            let again = back.after_key(bare(KeyCode::Char('L')), home).0;
            &&& p.visited_pos > 0 ==> {
                &&& here(back).path == p.visited[p.visited_pos - 1]
                &&& here(back).visited_pos == p.visited_pos - 1
                &&& here(back).visited == p.visited
                &&& back.out.requests == m.out.requests.push(
                    RequestModel::Ls { side: m.panes.focus, path: p.visited[p.visited_pos - 1] },
                )
                &&& here(again).visited_pos == p.visited_pos
                &&& here(again).path == p.visited[p.visited_pos]
            }
            &&& p.visited_pos == 0 ==> back.panes == m.panes && back.out == m.out
            &&& p.visited_pos + 1 < p.visited.len() ==> {
                &&& here(on).path == p.visited[p.visited_pos + 1]
                &&& here(on).visited_pos == p.visited_pos + 1
                &&& on.out.requests == m.out.requests.push(
                    RequestModel::Ls { side: m.panes.focus, path: p.visited[p.visited_pos + 1] },
                )
            }
            &&& p.visited_pos + 1 == p.visited.len() ==> on.panes == m.panes && on.out == m.out
            &&& there(back) == there(m) && there(on) == there(m)
        }),
{
    reveal(AppModel::after_key);
    reveal(AppModel::walked);
}

/// `Z` goes to the remote panel and to where its session started, once that
/// is known.
pub proof fn home_is_where_the_session_started(m: AppModel, home: Option<Seq<char>>)
    requires
        quiet(m),
    ensures
        ({
            let r = m.after_key(bare(KeyCode::Char('Z')), home).0;
            match m.link.home {
                Some(path) => r.panes.focus == PanelSide::Remote && r.panes.remote.path == path
                    && r.panes.local == m.panes.local && r.out.requests == m.out.requests.push(
                    RequestModel::Ls { side: PanelSide::Remote, path },
                ),
                None => r.panes == m.panes && r.out == m.out,
            }
        }),
{
    reveal(AppModel::after_key);
    reveal(AppModel::sent_home);
}

/// Tab moves the focus to the other panel and changes nothing else of
/// them, and a second one brings it back.
pub proof fn tab_switches_the_focus(m: AppModel, home: Option<Seq<char>>)
    requires
        quiet(m),
    ensures
        ({
            let r = m.after_key(bare(KeyCode::Tab), home).0;
            &&& r.panes.focus != m.panes.focus
            &&& r.panes.local == m.panes.local
            &&& r.panes.remote == m.panes.remote
            &&& r.after_key(bare(KeyCode::Tab), home).0.panes == m.panes
            &&& r.out == m.out
            &&& r.queue == m.queue
        }),
{
    reveal(AppModel::after_key);
    reveal(AppModel::switched);
}

/// The space key flips the mark under the cursor and no other, and goes
/// one entry down; nothing is queued or asked for.
pub proof fn space_marks_the_entry_under_the_cursor(m: AppModel, home: Option<Seq<char>>)
    requires
        quiet(m),
        0 <= here(m).cursor < here(m).entries.len() <= usize::MAX,
    ensures
        ({
            let p = here(m);
            let r = m.after_key(bare(KeyCode::Char(' ')), home).0;
            &&& forall|i: usize|
                #![auto]
                here(r).marked.contains(i) <==> (if i == p.cursor {
                    !p.marked.contains(i)
                } else {
                    p.marked.contains(i)
                })
            &&& here(r).cursor == if p.cursor + 1 < p.entries.len() {
                p.cursor + 1
            } else {
                p.cursor
            }
            &&& here(r).entries == p.entries
            &&& here(r).path == p.path
            &&& there(r) == there(m)
            &&& r.queue == m.queue
            &&& r.out == m.out
        }),
{
    reveal(AppModel::after_key);
    reveal(AppModel::mark_toggled);
}

/// `u` drops every mark of the focused panel, and control-r flips every one
/// of them; neither moves the cursor or touches the other panel.
pub proof fn marks_are_dropped_and_inverted(m: AppModel, home: Option<Seq<char>>)
    requires
        quiet(m),
        here(m).entries.len() <= usize::MAX,
    ensures
        ({
            let p = here(m);
            let dropped = m.after_key(bare(KeyCode::Char('u')), home).0;
            let flipped = m.after_key(held(KeyCode::Char('r')), home).0;
            &&& here(dropped) == (PanelModel { marked: Set::empty(), ..p })
            &&& forall|i: usize|
                #![auto]
                here(flipped).marked.contains(i) <==> i < p.entries.len() && !p.marked.contains(i)
            &&& here(flipped) == (PanelModel { marked: here(flipped).marked, ..p })
            &&& there(dropped) == there(m) && there(flipped) == there(m)
            &&& dropped.queue == m.queue && flipped.queue == m.queue
            &&& dropped.out == m.out && flipped.out == m.out
        }),
{
    reveal(AppModel::after_key);
    reveal(AppModel::marks_cleared);
    reveal(AppModel::inverted);
}

/// `n` entries further down, or up, as far as there are entries.
pub open spec fn steps_to(p: PanelModel, n: int) -> int {
    if p.cursor + n < 0 {
        0
    } else if p.cursor + n >= p.entries.len() {
        p.entries.len() - 1
    } else {
        p.cursor + n
    }
}

/// The panel with its cursor elsewhere, and in view.
pub open spec fn only_cursor(p: PanelModel, q: PanelModel, cursor: int) -> bool {
    &&& q.cursor == cursor
    &&& q == (PanelModel { cursor, offset: q.offset, ..p })
}

/// The arrows and their letters move the cursor of the focused panel one
/// entry, and the page keys a page or half of one, never off the listing.
pub proof fn the_cursor_moves_by_steps_and_pages(m: AppModel, home: Option<Seq<char>>)
    requires
        quiet(m),
        0 <= here(m).cursor < here(m).entries.len(),
        6 <= m.frame.rows <= i32::MAX,
    ensures
        ({
            let p = here(m);
            let rows = m.frame.rows - 5;
            let some = if rows / 2 < 1 {
                1
            } else {
                rows / 2
            };
            let to = |e: KeyEvent| here(m.after_key(e, home).0);
            &&& only_cursor(p, to(bare(KeyCode::DownArrow)), steps_to(p, 1))
            &&& only_cursor(p, to(bare(KeyCode::Char('j'))), steps_to(p, 1))
            &&& only_cursor(p, to(bare(KeyCode::UpArrow)), steps_to(p, -1))
            &&& only_cursor(p, to(bare(KeyCode::Char('k'))), steps_to(p, -1))
            &&& only_cursor(p, to(bare(KeyCode::PageDown)), steps_to(p, rows))
            &&& only_cursor(p, to(bare(KeyCode::PageUp)), steps_to(p, -rows))
            &&& only_cursor(p, to(held(KeyCode::Char('f'))), steps_to(p, rows))
            &&& only_cursor(p, to(held(KeyCode::Char('b'))), steps_to(p, -rows))
            &&& only_cursor(p, to(held(KeyCode::Char('d'))), steps_to(p, some))
            &&& only_cursor(p, to(held(KeyCode::Char('u'))), steps_to(p, -some))
        }),
{
    reveal(AppModel::after_key);
    reveal(AppModel::stepped);
    reveal(AppModel::cursor_moved);
}

/// Home, and `g` twice, put the cursor on the first entry; End and `G` on
/// the last.
pub proof fn the_cursor_goes_to_both_ends(m: AppModel, home: Option<Seq<char>>)
    requires
        quiet(m),
        here(m).entries.len() > 0,
        !m.flags.pending_g,
    ensures
        ({
            let p = here(m);
            let to = |e: KeyEvent| here(m.after_key(e, home).0);
            let g = m.after_key(bare(KeyCode::Char('g')), home).0;
            &&& only_cursor(p, to(bare(KeyCode::Home)), 0)
            &&& only_cursor(p, to(bare(KeyCode::End)), p.entries.len() - 1)
            &&& only_cursor(p, to(bare(KeyCode::Char('G'))), p.entries.len() - 1)
            &&& here(g) == p
            &&& only_cursor(p, here(g.after_key(bare(KeyCode::Char('g')), home).0), 0)
        }),
{
    reveal(AppModel::after_key);
    reveal(AppModel::cursor_put);
    reveal(AppModel::g_pressed);
}

/// `.` shows the hidden entries or hides them again, and has the focused
/// directory listed for it.
pub proof fn hidden_entries_are_toggled(m: AppModel, home: Option<Seq<char>>)
    requires
        quiet(m),
    ensures
        ({
            let r = m.after_key(bare(KeyCode::Char('.')), home).0;
            &&& here(r) == (PanelModel { show_hidden: !here(m).show_hidden, ..here(m) })
            &&& there(r) == there(m)
            &&& r.out.requests == m.out.requests.push(
                RequestModel::Ls { side: m.panes.focus, path: here(m).path },
            )
            &&& r.queue == m.queue
        }),
{
    reveal(AppModel::after_key);
}

/// `c c` puts the paths of the selected entries on the system clipboard and
/// `c f` their names, one per line; the first key of the two copies
/// nothing.
pub proof fn paths_and_names_are_copied(m: AppModel, home: Option<Seq<char>>)
    requires
        quiet(m),
        m.hand.sink,
        !m.flags.pending_c,
        here(m).targets().len() > 0,
    ensures
        ({
            let p = here(m);
            let targets = p.targets();
            let half = m.after_key(bare(KeyCode::Char('c')), home).0;
            let paths = half.after_key(bare(KeyCode::Char('c')), home).0;
            let names = half.after_key(bare(KeyCode::Char('f')), home).0;
            &&& half.out == m.out
            &&& paths.out.requests == m.out.requests
            &&& paths.out.effects == m.out.effects.push(
                EffectModel::CopyText {
                    text: joined(
                        Seq::new(
                            targets.len(),
                            |i: int| path_in(p.path, targets[i].1.name@),
                        ),
                        "\n"@,
                    ),
                },
            )
            &&& names.out.requests == m.out.requests
            &&& names.out.effects == m.out.effects.push(
                EffectModel::CopyText {
                    text: joined(
                        Seq::new(targets.len(), |i: int| targets[i].1.name@),
                        "\n"@,
                    ),
                },
            )
            &&& paths.panes == m.panes && names.panes == m.panes
        }),
{
    reveal(AppModel::after_key);
    reveal(AppModel::c_pressed);
    reveal(AppModel::f_pressed);
    reveal(AppModel::lines_copied);
    let p = here(m);
    let targets = p.targets();
    assert(target_lines(p.path, targets, false) =~= Seq::new(
        targets.len(),
        |i: int| path_in(p.path, targets[i].1.name@),
    ));
    assert(target_lines(p.path, targets, true) =~= Seq::new(
        targets.len(),
        |i: int| targets[i].1.name@,
    ));
}

/// `D` asks for a free name for the remote file under the cursor; from the
/// local panel, for a folder or without a connection it asks for nothing.
pub proof fn a_download_is_of_the_remote_file_under_the_cursor(
    m: AppModel,
    home: Option<Seq<char>>,
)
    requires
        quiet(m),
        0 <= m.panes.remote.cursor < m.panes.remote.entries.len(),
    ensures
        ({
            let r = m.after_key(bare(KeyCode::Char('D')), home).0;
            let e = m.panes.remote.entries[m.panes.remote.cursor];
            &&& r.out == if m.panes.focus == PanelSide::Remote && m.queue.transfers is Some
                && !e.is_dir {
                OutModel {
                    effects: m.out.effects.push(
                        EffectModel::ResolveDownload {
                            source: path_in(m.panes.remote.path, e.name@),
                            name: e.name@,
                        },
                    ),
                    ..m.out
                }
            } else {
                m.out
            }
            &&& r.panes == m.panes
            &&& r.queue == m.queue
        }),
{
    reveal(AppModel::after_key);
    reveal(AppModel::download_asked);
}

/// Once a name is found, exactly the download of that file to that name is
/// started, from the beginning, and its file is to be shown when it ends;
/// without a name nothing starts.
pub proof fn a_found_name_starts_the_download(
    m: AppModel,
    t: ManagerModel,
    source: Seq<char>,
    name: Seq<char>,
    found: Result<Seq<char>, Seq<char>>,
)
    requires
        m.queue.transfers == Some(t),
        numbered(t.statuses, t.next_id),
        t.next_id < u64::MAX,
        found matches Ok(dest) ==> unclaimed(t.statuses, dest),
    ensures
        ({
            let r = m.download_started(source, name, found);
            match found {
                Ok(dest) => {
                    &&& r.queue.transfers is Some
                    &&& r.queue.transfers->0.statuses == t.statuses.push(
                        StatusModel {
                            id: t.next_id,
                            direction: Direction::Download,
                            source,
                            dest,
                            state: StateModel::Queued,
                        },
                    )
                    &&& r.queue.transfers->0.jobs == t.jobs.push(
                        (
                            t.next_id,
                            JobModel::Download { remote: source, local: dest, resume: false },
                        ),
                    )
                    &&& r.hand.reveal == Some((t.next_id, dest))
                    &&& r.queue.cut_pending == m.queue.cut_pending
                    &&& r.queue.pending == m.queue.pending
                },
                Err(_) => r.queue == m.queue && r.hand == m.hand && r.note.error is Some,
            }
        }),
{
    reveal(AppModel::download_started);
    if let Ok(dest) = found {
        a_request_is_queued(
            t,
            Direction::Download,
            source,
            dest,
            JobModel::Download { remote: source, local: dest, resume: false },
        );
    }
}

/// While a filter is typed the focused panel shows the entries whose name
/// holds what was typed, without regard to case; giving up shows them all
/// again, and so does an empty filter; Enter keeps what is shown.
pub proof fn a_filter_narrows_the_listing(m: AppModel, c: char, home: Option<Seq<char>>)
    requires
        m.queue.mode == Some(ModeModel::Filter),
        !m.flags.help,
    ensures
        ({
            let p = here(m);
            let typed = m.after_key(bare(KeyCode::Char(c)), home).0;
            let back = m.after_key(bare(KeyCode::Backspace), home).0;
            let kept = m.after_key(bare(KeyCode::Enter), home).0;
            let given_up = m.after_key(bare(KeyCode::Escape), home).0;
            let shorter = m.line.drop_last();
            &&& typed.line == m.line.push(c)
            &&& here(typed).entries == p.all_entries.filter(
                |e: FileEntry| holds(lower(e.name@), lower(m.line.push(c))),
            )
            &&& m.line.len() > 1 ==> here(back).entries == p.all_entries.filter(
                |e: FileEntry| holds(lower(e.name@), lower(shorter)),
            )
            &&& m.line.len() <= 1 ==> here(back).entries == p.all_entries
            &&& kept.panes == m.panes
            &&& kept.queue.mode is None
            &&& here(given_up).entries == p.all_entries
            &&& given_up.queue.mode is None
            &&& here(typed).all_entries == p.all_entries
            &&& here(typed).path == p.path
            &&& typed.out == m.out && back.out == m.out && kept.out == m.out && given_up.out
                == m.out
            &&& there(typed) == there(m) && there(given_up) == there(m)
        }),
{
    reveal(AppModel::after_key);
    reveal(AppModel::filter_key_spec);
    reveal(AppModel::filtered_by);
    reveal(AppModel::filter_kept);
    reveal(AppModel::filter_dropped);
}

/// A typed directory is gone to in the focused panel and listed there; a
/// line that names none goes nowhere.
pub proof fn a_typed_directory_is_gone_to(m: AppModel, home: Option<Seq<char>>)
    requires
        m.queue.mode == Some(ModeModel::JumpTo),
        !m.flags.help,
    ensures
        ({
            let r = m.after_key(bare(KeyCode::Enter), home).0;
            &&& match jump(home, here(m).path, m.line) {
                Some(path) => here(r).path == path && r.out.requests == m.out.requests.push(
                    RequestModel::Ls { side: m.panes.focus, path },
                ),
                None => r.panes == m.panes && r.out == m.out && r.note.error is Some,
            }
            &&& there(r) == there(m)
            &&& r.panes.focus == m.panes.focus
            &&& r.queue == (QueueModel { mode: None, ..m.queue })
        }),
{
    reveal(AppModel::after_key);
    reveal(AppModel::jump_key_spec);
}

/// A typed letter puts the cursor on the next entry whose name starts with
/// it, without regard to case and around the end; where there is none the
/// panel stays as it is.
pub proof fn a_typed_letter_finds_the_next_entry(m: AppModel, c: char, home: Option<Seq<char>>)
    requires
        m.queue.mode == Some(ModeModel::JumpToChar),
        !m.flags.help,
        0 <= here(m).cursor < here(m).entries.len(),
    ensures
        ({
            let p = here(m);
            let n = p.entries.len() as int;
            let q = here(m.after_key(bare(KeyCode::Char(c)), home).0);
            let first = |i: int| p.entries[(p.cursor + i) % n].name@;
            let hit = |i: int| first(i).len() > 0 && ascii_low(first(i)[0]) == ascii_low(c);
            &&& (forall|i: int| 1 <= i <= n ==> !#[trigger] hit(i)) ==> q == p
            &&& forall|k: int|
                1 <= k <= n && #[trigger] hit(k) && (forall|i: int|
                    1 <= i < k ==> !#[trigger] hit(i)) ==> only_cursor(p, q, (p.cursor + k) % n)
        }),
{
    reveal(AppModel::after_key);
    reveal(AppModel::jumped_to_char);
    reveal(AppModel::cursor_put);
    let p = here(m);
    let n = p.entries.len() as int;
    let low = ascii_low(c);
    let first = |i: int| p.entries[(p.cursor + i) % n].name@;
    let hit = |i: int| first(i).len() > 0 && ascii_low(first(i)[0]) == ascii_low(c);
    let from = (p.cursor + 1) % n;
    assert forall|i: int| 1 <= i <= n implies #[trigger] hit(i) == starts_with(
        p.entries[(from + (i - 1)) % n],
        low,
    ) by {
        lemma_around(p.cursor + 1, i - 1, n);
    }
    if forall|i: int| 1 <= i <= n ==> !#[trigger] hit(i) {
        assert forall|s: int| 0 <= s < n implies !starts_with(
            #[trigger] p.entries[(from + s) % n],
            low,
        ) by {
            assert(!hit(s + 1));
        }
        lemma_none_starts(p.entries, low, from, 0);
    }
    assert forall|k: int|
        1 <= k <= n && #[trigger] hit(k) && (forall|i: int|
            1 <= i < k ==> !#[trigger] hit(i)) implies only_cursor(
        p,
        here(m.after_key(bare(KeyCode::Char(c)), home).0),
        (p.cursor + k) % n,
    ) by {
        assert forall|s: int| 0 <= s < k - 1 implies !starts_with(
            #[trigger] p.entries[(from + s) % n],
            low,
        ) by {
            assert(!hit(s + 1));
        }
        lemma_first_starts(p.entries, low, from, 0, k - 1);
        lemma_around(p.cursor + 1, k - 1, n);
        assert(0 <= (p.cursor + k) % n < n) by (nonlinear_arith)
            requires
                n > 0,
        ;
    }
}

/// Going round in two steps or in one leads to the same place.
proof fn lemma_around(a: int, b: int, n: int)
    requires
        n > 0,
    ensures
        (a % n + b) % n == (a + b) % n,
{
    vstd::arithmetic::div_mod::lemma_add_mod_noop_right(b, a, n);
}

proof fn lemma_none_starts(entries: Seq<FileEntry>, c: char, from: int, step: int)
    requires
        0 <= step <= entries.len(),
        forall|s: int|
            0 <= s < entries.len() ==> !starts_with(
                #[trigger] entries[(from + s) % entries.len() as int],
                c,
            ),
    ensures
        next_start(entries, c, from, step) is None,
    decreases entries.len() - step,
{
    if step < entries.len() {
        lemma_none_starts(entries, c, from, step + 1);
    }
}

proof fn lemma_first_starts(entries: Seq<FileEntry>, c: char, from: int, step: int, at: int)
    requires
        0 <= step <= at < entries.len(),
        starts_with(entries[(from + at) % entries.len() as int], c),
        forall|s: int|
            0 <= s < at ==> !starts_with(
                #[trigger] entries[(from + s) % entries.len() as int],
                c,
            ),
    ensures
        next_start(entries, c, from, step) == Some((from + at) % entries.len() as int),
    decreases at - step,
{
    if step < at {
        lemma_first_starts(entries, c, from, step + 1, at);
    }
}

/// A typed password is handed over once, as it was typed, and giving up
/// hands over none; either way nothing of it stays on the line.
pub proof fn a_typed_password_is_handed_over(
    m: AppModel,
    prompt: ModeModel,
    home: Option<Seq<char>>,
)
    requires
        m.queue.mode == Some(prompt),
        prompt is Password,
        m.link.auth_reply == Some(AuthReply::Password),
        !m.flags.help,
    ensures
        ({
            let given = m.after_key(bare(KeyCode::Enter), home).0;
            let refused = m.after_key(bare(KeyCode::Escape), home).0;
            &&& given.out.effects == m.out.effects.push(
                EffectModel::AnswerPassword { password: Some(m.line) },
            )
            &&& refused.out.effects == m.out.effects.push(
                EffectModel::AnswerPassword { password: None },
            )
            &&& given.line.len() == 0 && refused.line.len() == 0
            &&& given.link.auth_reply is None && refused.link.auth_reply is None
            &&& given.queue.mode is None && refused.queue.mode is None
            &&& given.out.requests == m.out.requests && refused.out.requests == m.out.requests
        }),
{
    reveal(AppModel::after_key);
    reveal(AppModel::password_key_spec);
    reveal(AppModel::password_given);
}

/// A host is trusted only by `y`: `n` and Escape answer no, and any other
/// key answers nothing and leaves the question on screen.
pub proof fn a_host_is_trusted_only_by_yes(
    m: AppModel,
    prompt: ModeModel,
    code: KeyCode,
    home: Option<Seq<char>>,
)
    requires
        m.queue.mode == Some(prompt),
        prompt is ConfirmHostKey,
        m.link.auth_reply == Some(AuthReply::HostVerify),
        !m.flags.help,
    ensures
        ({
            let r = m.after_key(bare(code), home).0;
            if code == KeyCode::Char('y') || code == KeyCode::Char('Y') {
                &&& r.out.effects == m.out.effects.push(EffectModel::AnswerHostKey { trust: true })
                &&& r.queue.mode is None
                &&& r.link.auth_reply is None
            } else if code == KeyCode::Char('n') || code == KeyCode::Char('N') || code
                == KeyCode::Escape {
                &&& r.out.effects == m.out.effects.push(EffectModel::AnswerHostKey { trust: false })
                &&& r.queue.mode is None
                &&& r.link.auth_reply is None
            } else {
                &&& r.out == m.out
                &&& r.queue == m.queue
                &&& r.link == m.link
            }
        }),
{
    reveal(AppModel::after_key);
    reveal(AppModel::host_key_spec);
}

/// `y` and `x` remember the selection, one to be copied and one to be
/// moved; `Y` and `X` forget it, and nothing is queued by any of them.
pub proof fn yanking_keys_fill_the_clipboard(m: AppModel, home: Option<Seq<char>>)
    requires
        quiet(m),
        here(m).targets().len() > 0,
    ensures
        ({
            let copy = m.after_key(bare(KeyCode::Char('y')), home).0;
            let cut = m.after_key(bare(KeyCode::Char('x')), home).0;
            let a = m.after_key(bare(KeyCode::Char('Y')), home).0;
            let b = m.after_key(bare(KeyCode::Char('X')), home).0;
            &&& copy.hand.clipboard is Some && cut.hand.clipboard is Some
            &&& !copy.hand.clipboard->0.cut
            &&& cut.hand.clipboard->0.cut
            &&& copy.hand.clipboard->0.items == cut.hand.clipboard->0.items
            &&& copy.hand.clipboard->0.side == m.panes.focus
            &&& cut.hand.clipboard->0.side == m.panes.focus
            &&& a.hand.clipboard is None && b.hand.clipboard is None
            &&& copy.queue == m.queue && cut.queue == m.queue && a.queue == m.queue && b.queue
                == m.queue
            &&& copy.out == m.out && cut.out == m.out && a.out == m.out && b.out == m.out
            &&& copy.panes == m.panes && cut.panes == m.panes
        }),
{
    reveal(AppModel::after_key);
    reveal(AppModel::with_yank);
    reveal(AppModel::unyanked);
}

/// `F5` sends, `p` pastes and `P` pastes over what is in the way, each as
/// if no chord were half typed.
pub proof fn sending_and_pasting_have_their_keys(m: AppModel, home: Option<Seq<char>>)
    requires
        quiet(m),
    ensures
        ({
            let d = m.chordless();
            &&& m.after_key(bare(KeyCode::Function(5)), home).0 == d.sent()
            &&& m.after_key(bare(KeyCode::Char('p')), home).0 == d.pasted()
            &&& m.after_key(bare(KeyCode::Char('P')), home).0 == d.pasted_over()
            &&& d.queue == m.queue && d.panes == m.panes && d.hand == m.hand && d.out == m.out
        }),
{
    reveal(AppModel::after_key);
    assert(m.with_chords_for(KeyCode::Function(5)) == m.chordless());
    assert(m.with_chords_for(KeyCode::Char('p')) == m.chordless());
    assert(m.with_chords_for(KeyCode::Char('P')) == m.chordless());
}

/// Keys at the two queue prompts answer those prompts and nothing else.
pub proof fn answers_go_to_the_prompt_on_screen(
    m: AppModel,
    code: KeyCode,
    home: Option<Seq<char>>,
)
    requires
        !m.flags.help,
    ensures
        m.queue.mode == Some(ModeModel::ConfirmOverwrite) ==> {
            let r = m.after_key(bare(code), home).0;
            &&& r.queue == m.queue.decided(code)
            &&& r.panes == m.panes
            &&& r.out == m.out
            &&& r.hand == m.hand
        },
        m.queue.mode matches Some(ModeModel::ConfirmFolder { .. }) ==> {
            let r = m.after_key(bare(code), home).0;
            &&& r.queue == m.folder_answered(code).queue
            &&& r.out == m.folder_answered(code).out
            &&& r.panes == m.panes
            &&& r.hand == m.hand
        },
{
    reveal(AppModel::after_key);
    reveal(AppModel::folder_answered);
}

/// `q`, Escape and control-c leave the browser; `q` and Escape only where
/// no prompt and no help is on screen.
pub proof fn quitting_keys_quit(m: AppModel, home: Option<Seq<char>>)
    ensures
        quiet(m) ==> m.after_key(bare(KeyCode::Char('q')), home).1 == Ok::<Handled, bool>(
            Handled::Quit,
        ),
        quiet(m) ==> m.after_key(bare(KeyCode::Escape), home).1 == Ok::<Handled, bool>(
            Handled::Quit,
        ),
        m.after_key(held(KeyCode::Char('c')), home).1 == Ok::<Handled, bool>(Handled::Quit),
        !quiet(m) ==> m.after_key(bare(KeyCode::Char('q')), home).1 != Ok::<Handled, bool>(
            Handled::Quit,
        ),
        !quiet(m) ==> m.after_key(bare(KeyCode::Escape), home).1 != Ok::<Handled, bool>(
            Handled::Quit,
        ),
        m.after_key(held(KeyCode::Char('c')), home).0 == m,
{
    reveal(AppModel::after_key);
}

/// A key that opens a prompt opens that one, with an empty line or with the
/// filter that is set, and asks for nothing else.
pub proof fn prompts_have_their_keys(m: AppModel, code: KeyCode, home: Option<Seq<char>>)
    requires
        quiet(m),
        !m.flags.pending_c,
        code == KeyCode::Char('z') || code == KeyCode::Char('f') || code == KeyCode::Char('/')
            || code == KeyCode::Char('F'),
    ensures
        ({
            let r = m.after_key(bare(code), home).0;
            &&& r.queue == (QueueModel {
                mode: Some(
                    if code == KeyCode::Char('z') {
                        ModeModel::JumpTo
                    } else if code == KeyCode::Char('f') {
                        ModeModel::JumpToChar
                    } else {
                        ModeModel::Filter
                    },
                ),
                ..m.queue
            })
            &&& r.line == match here(m).filter {
                Some(f) => if code == KeyCode::Char('z') || code == KeyCode::Char('f') {
                    Seq::<char>::empty()
                } else {
                    f
                },
                None => Seq::<char>::empty(),
            }
            &&& r.out == m.out
            &&& r.panes == m.panes
        }),
{
    reveal(AppModel::after_key);
    reveal(AppModel::f_pressed);
    reveal(AppModel::filter_asked);
}

/// `?`, F1 and a shifted slash show the help and change nothing else.
pub proof fn help_has_its_keys(m: AppModel, key: KeyEvent, home: Option<Seq<char>>)
    requires
        quiet(m),
        key == bare(KeyCode::Char('?')) || key == bare(KeyCode::Function(1)) || key == (KeyEvent {
            key: KeyCode::Char('/'),
            modifiers: MOD_SHIFT,
        }),
    ensures
        m.after_key(key, home).0.flags.help,
        m.after_key(key, home).0.queue == m.queue,
        m.after_key(key, home).0.panes == m.panes,
        m.after_key(key, home).0.out == m.out,
{
    reveal(AppModel::after_key);
}

/// What was asked for before is still asked for, and what was added is no
/// deletion.
pub open spec fn adds_no_deletion(a: OutModel, b: OutModel) -> bool {
    &&& a.requests.len() <= b.requests.len()
    &&& forall|i: int| 0 <= i < a.requests.len() ==> #[trigger] b.requests[i] == a.requests[i]
    &&& forall|i: int|
        a.requests.len() <= i < b.requests.len() ==> !((#[trigger] b.requests[i]) is Delete)
}

spec fn deletes_nothing(m: AppModel, n: Option<AppModel>) -> bool {
    n is Some ==> adds_no_deletion(m.out, n->0.out)
}

proof fn lemma_copies_delete_nothing(
    out: OutModel,
    items: Seq<(Seq<char>, bool, u64)>,
    dir: Seq<char>,
    cut: bool,
    n: int,
)
    ensures
        adds_no_deletion(out, out.copied_locally(items, dir, cut, n)),
    decreases n,
{
    if n > 0 {
        lemma_copies_delete_nothing(out, items, dir, cut, n - 1);
    }
}

proof fn lemma_moves_delete_nothing(m: AppModel, key: KeyCode)
    ensures
        deletes_nothing(m, m.moved_by(key)),
{
    reveal(AppModel::stepped);
    reveal(AppModel::risen);
    reveal(AppModel::switched);
    reveal(AppModel::entered);
    reveal(AppModel::file_opened);
    reveal(AppModel::walked);
    reveal(AppModel::sent_home);
    reveal(AppModel::cursor_put);
    reveal(AppModel::cursor_moved);
    reveal(AppModel::g_pressed);
}

proof fn lemma_pasting_deletes_nothing(m: AppModel)
    ensures
        adds_no_deletion(m.out, m.pasted().out),
{
    reveal(AppModel::pasted);
    if let Some(clip) = m.hand.clipboard {
        lemma_copies_delete_nothing(
            m.out,
            clip.items,
            m.panes.focused().path,
            clip.cut,
            clip.items.len() as int,
        );
    }
}

proof fn lemma_acts_delete_nothing(m: AppModel, key: KeyCode)
    ensures
        deletes_nothing(m, m.acted_by(key)),
{
    reveal(AppModel::file_opened);
    reveal(AppModel::download_asked);
    reveal(AppModel::with_yank);
    reveal(AppModel::pasted_over);
    reveal(AppModel::unyanked);
    reveal(AppModel::mark_toggled);
    reveal(AppModel::marks_cleared);
    reveal(AppModel::sent);
    lemma_pasting_deletes_nothing(m);
    let forced = m.with_queue(QueueModel { overwrite_all: Some(true), ..m.queue });
    lemma_pasting_deletes_nothing(forced);
}

proof fn lemma_prompts_delete_nothing(m: AppModel, key: KeyCode, shifted: bool)
    ensures
        deletes_nothing(m, m.asked_by(key, shifted)),
{
    reveal(AppModel::c_pressed);
    reveal(AppModel::f_pressed);
    reveal(AppModel::lines_copied);
    reveal(AppModel::filter_asked);
    reveal(AppModel::rename_asked);
    reveal(AppModel::deletion_asked);
}

proof fn lemma_lines_delete_nothing(m: AppModel, key: KeyCode, home: Option<Seq<char>>)
    requires
        key == KeyCode::Enter ==> match m.queue.mode {
            Some(ModeModel::ConfirmDelete { .. }) => false,
            _ => true,
        },
    ensures
        deletes_nothing(m, m.lined(key, home)),
{
    reveal(AppModel::filtered_by);
    reveal(AppModel::filter_kept);
    reveal(AppModel::filter_dropped);
    reveal(AppModel::filter_key_spec);
    reveal(AppModel::jump_key_spec);
    reveal(AppModel::jumped_to_char);
    reveal(AppModel::cursor_put);
    reveal(AppModel::password_given);
    reveal(AppModel::password_key_spec);
    reveal(AppModel::host_key_spec);
    reveal(AppModel::line_entered);
    reveal(AppModel::plain_key_spec);
    reveal(AppModel::folder_answered);
}

/// Nothing is deleted that was not confirmed: whatever key is pressed and
/// whatever is on screen, no deletion is asked for unless the key is Enter
/// at the prompt that names what is to be deleted.
pub proof fn only_a_confirmation_deletes(m: AppModel, key: KeyEvent, home: Option<Seq<char>>)
    requires
        key.key == KeyCode::Enter ==> match m.queue.mode {
            Some(ModeModel::ConfirmDelete { .. }) => false,
            _ => true,
        },
    ensures
        adds_no_deletion(m.out, m.after_key(key, home).0.out),
{
    reveal(AppModel::after_key);
    reveal(AppModel::cursor_moved);
    reveal(AppModel::inverted);
    let d = m.with_chords_for(key.key);
    lemma_lines_delete_nothing(d, key.key, home);
    lemma_moves_delete_nothing(d, key.key);
    lemma_acts_delete_nothing(d, key.key);
    lemma_prompts_delete_nothing(d, key.key, key.modifiers == MOD_SHIFT);
}

} // verus!

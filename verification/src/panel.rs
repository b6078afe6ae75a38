//! One half of the dual pane: a listing, its filter, the cursor, the marks
//! and the directories visited.

use crate::paths::{opt, shorten_path, shortened};
use crate::text::{contains, holds, lower, same, starts_char, texts, to_lower};
use crate::types::{clone_entries, sort_entries, sorted, FileEntry};
use std::collections::HashSet;
use vstd::prelude::*;
use vstd::string::*;

verus! {

broadcast use vstd::std_specs::hash::group_hash_axioms;

/// A mutable directory view for one half of the dual pane.
pub struct Panel {
    /// Absolute path currently listed.
    pub path: String,
    pub entries: Vec<FileEntry>,
    /// The last listing, before the text filter narrowed it.
    pub all_entries: Vec<FileEntry>,
    /// Case-insensitive substring filter over the listing.
    pub filter: Option<String>,
    /// Directories this panel has landed in, for back/forward movement.
    pub visited: Vec<String>,
    pub visited_pos: usize,
    /// Cursor index into `entries`.
    pub cursor: usize,
    /// First visible row index into `entries`.
    pub offset: usize,
    /// Indices into `entries` selected for bulk transfer.
    pub marked: HashSet<usize>,
    pub show_hidden: bool,
}

/// What a panel holds.
#[verifier::ext_equal]
pub struct PanelModel {
    pub path: Seq<char>,
    pub entries: Seq<FileEntry>,
    pub all_entries: Seq<FileEntry>,
    pub filter: Option<Seq<char>>,
    pub visited: Seq<Seq<char>>,
    pub visited_pos: int,
    pub cursor: int,
    pub offset: int,
    pub marked: Set<usize>,
    pub show_hidden: bool,
}

impl View for Panel {
    type V = PanelModel;

    open spec fn view(&self) -> PanelModel {
        PanelModel {
            path: self.path@,
            entries: self.entries@,
            all_entries: self.all_entries@,
            filter: opt(self.filter),
            visited: texts(self.visited@),
            visited_pos: self.visited_pos as int,
            cursor: self.cursor as int,
            offset: self.offset as int,
            marked: self.marked@,
            show_hidden: self.show_hidden,
        }
    }
}

/// The entries of `s` whose name does not begin with a dot.
pub open spec fn shown(s: Seq<FileEntry>) -> Seq<FileEntry> {
    s.filter(|e: FileEntry| !(e.name@.len() > 0 && e.name@[0] == '.'))
}

/// The entries of `s` whose name contains `needle` without regard to case.
pub open spec fn matching(s: Seq<FileEntry>, needle: Seq<char>) -> Seq<FileEntry> {
    s.filter(|e: FileEntry| holds(lower(e.name@), lower(needle)))
}

/// The entries `marked` among the first `n` of `s`, with their positions.
pub open spec fn picked(s: Seq<FileEntry>, marked: Set<usize>, n: int) -> Seq<(usize, FileEntry)>
    decreases n,
{
    if n <= 0 {
        Seq::empty()
    } else {
        let before = picked(s, marked, n - 1);
        if marked.contains((n - 1) as usize) {
            before.push(((n - 1) as usize, s[n - 1]))
        } else {
            before
        }
    }
}

/// `n` brought into `lo..=hi`.
pub open spec fn clamped(n: int, lo: int, hi: int) -> int {
    if n < lo {
        lo
    } else if n > hi {
        hi
    } else {
        n
    }
}

/// The larger of two numbers.
pub open spec fn larger(a: int, b: int) -> int {
    if a < b {
        b
    } else {
        a
    }
}

impl PanelModel {
    pub open spec fn fresh(path: Seq<char>) -> PanelModel {
        PanelModel {
            path,
            entries: Seq::empty(),
            all_entries: Seq::empty(),
            filter: None,
            visited: Seq::empty(),
            visited_pos: 0,
            cursor: 0,
            offset: 0,
            marked: Set::empty(),
            show_hidden: false,
        }
    }

    /// The part of the listing that the filter lets through.
    pub open spec fn filtered(self) -> PanelModel {
        PanelModel {
            entries: match self.filter {
                Some(needle) => matching(self.all_entries, needle),
                None => self.all_entries,
            },
            ..self
        }
    }

    pub open spec fn with_entries(self, all: Seq<FileEntry>) -> PanelModel {
        let kept = if self.show_hidden {
            all
        } else {
            shown(all)
        };
        PanelModel {
            marked: Set::empty(),
            cursor: 0,
            offset: 0,
            ..(PanelModel { all_entries: sorted(kept), ..self }).filtered()
        }
    }

    pub open spec fn with_filter(self, filter: Option<Seq<char>>) -> PanelModel {
        let kept = match filter {
            Some(f) => if f.len() == 0 {
                None
            } else {
                Some(f)
            },
            None => None,
        };
        PanelModel {
            cursor: 0,
            offset: 0,
            ..(PanelModel { filter: kept, ..self }).filtered()
        }
    }

    /// Directories up to the current one, then `path`; nothing changes
    /// where `path` is the current one.
    pub open spec fn with_visit(self, path: Seq<char>) -> PanelModel {
        if self.visited_pos < self.visited.len() && self.visited[self.visited_pos] == path {
            self
        } else {
            let kept = if self.visited_pos < self.visited.len() {
                self.visited.take(self.visited_pos + 1)
            } else {
                self.visited
            };
            PanelModel { visited: kept.push(path), visited_pos: kept.len() as int, ..self }
        }
    }

    pub open spec fn visit_at(self, pos: int) -> Option<Seq<char>> {
        if 0 <= pos < self.visited.len() {
            Some(self.visited[pos])
        } else {
            None
        }
    }

    pub open spec fn can_go_back(self) -> bool {
        self.visited_pos > 0
    }

    pub open spec fn can_go_forward(self) -> bool {
        self.visited_pos + 1 < self.visited.len()
    }

    /// The offset follows the cursor so that it stays in the window.
    pub open spec fn scrolled(self, visible_rows: int) -> PanelModel {
        let rows = larger(visible_rows, 1);
        PanelModel {
            offset: if self.cursor < self.offset {
                self.cursor
            } else if self.cursor >= self.offset + rows {
                self.cursor + 1 - rows
            } else {
                self.offset
            },
            ..self
        }
    }

    pub open spec fn moved(self, delta: int, visible_rows: int) -> PanelModel {
        if self.entries.len() == 0 {
            self
        } else {
            (PanelModel {
                cursor: clamped(self.cursor + delta, 0, self.entries.len() - 1),
                ..self
            }).scrolled(visible_rows)
        }
    }

    pub open spec fn jumped(self, idx: int, visible_rows: int) -> PanelModel {
        let last = larger(self.entries.len() - 1, 0);
        (PanelModel {
            cursor: if idx < last {
                idx
            } else {
                last
            },
            ..self
        }).scrolled(visible_rows)
    }

    /// The entry under the cursor.
    pub open spec fn current(self) -> Option<FileEntry> {
        if 0 <= self.cursor < self.entries.len() {
            Some(self.entries[self.cursor])
        } else {
            None
        }
    }

    /// The marked entries, or the one under the cursor while none is marked.
    pub open spec fn targets(self) -> Seq<(usize, FileEntry)> {
        if self.marked.is_empty() {
            match self.current() {
                Some(e) => seq![(self.cursor as usize, e)],
                None => Seq::empty(),
            }
        } else {
            picked(self.entries, self.marked, self.entries.len() as int)
        }
    }

    /// The history position stands on a visited directory, once there is one.
    pub open spec fn on_history(self) -> bool {
        0 <= self.visited_pos && (self.visited_pos < self.visited.len() || (self.visited_pos == 0
            && self.visited.len() == 0))
    }
}

impl Panel {
    pub fn new(path: String) -> (r: Self)
        ensures
            r@ == PanelModel::fresh(path@),
    {
        let r = Panel {
            path,
            entries: Vec::new(),
            all_entries: Vec::new(),
            filter: None,
            visited: Vec::new(),
            visited_pos: 0,
            cursor: 0,
            offset: 0,
            marked: HashSet::new(),
            show_hidden: false,
        };
        proof {
            assert(r@ =~= PanelModel::fresh(path@));
        }
        r
    }

    /// The path as the pane's title shows it, shortened with the home
    /// directory of the running account.
    pub fn title(&self) -> (r: String)
        ensures
            exists|home: Seq<char>| r@ == #[trigger] shortened(self@.path, home, 30),
    {
        let r = shorten_path(self.path.as_str(), 30);
        proof {
            let home = choose|home: Seq<char>|
                r@ == #[trigger] shortened(self.path@, home, 30usize as nat);
            assert(r@ == shortened(self@.path, home, 30));
        }
        r
    }

    /// Show a fresh listing: hidden entries dropped unless they are wanted,
    /// sorted and filtered, marks and cursor reset.
    pub fn set_entries(&mut self, all_entries: Vec<FileEntry>)
        ensures
            final(self)@ == old(self)@.with_entries(all_entries@),
    {
        let ghost start = self@;
        let mut kept = if self.show_hidden {
            all_entries
        } else {
            without_hidden(&all_entries)
        };
        sort_entries(&mut kept);
        self.all_entries = kept;
        let ghost middle = self@;
        self.apply_filter();
        self.marked.clear();
        self.cursor = 0;
        self.offset = 0;
        proof {
            assert(self@ =~= start.with_entries(all_entries@));
        }
    }

    /// Narrow the listing to entries whose name contains `filter`.
    pub fn set_filter(&mut self, filter: Option<String>)
        ensures
            final(self)@ == old(self)@.with_filter(opt(filter)),
    {
        let ghost start = self@;
        self.filter = match filter {
            Some(f) => if f.as_str().is_empty() {
                None
            } else {
                Some(f)
            },
            None => None,
        };
        self.apply_filter();
        self.cursor = 0;
        self.offset = 0;
        proof {
            assert(self@ =~= start.with_filter(opt(filter)));
        }
    }

    /// Recompute `entries` from `all_entries` and the active filter.
    pub fn apply_filter(&mut self)
        ensures
            final(self)@ == old(self)@.filtered(),
    {
        let ghost start = self@;
        self.entries = match &self.filter {
            Some(f) => containing(&self.all_entries, f.as_str()),
            None => clone_entries(&self.all_entries),
        };
        proof {
            assert(self@ =~= start.filtered());
        }
    }

    /// Remember a directory the panel actually landed in.
    pub fn record_visit(&mut self, path: &str)
        ensures
            final(self)@ == old(self)@.with_visit(path@),
    {
        let ghost start = self@;
        let n: usize = self.visited.len();
        if self.visited_pos < n {
            proof {
                assert(start.visited[start.visited_pos] == self.visited@[self.visited_pos as int]@);
            }
            if same(self.visited[self.visited_pos].as_str(), path) {
                return;
            }
            self.visited.truncate(self.visited_pos + 1);
            proof {
                assert(texts(self.visited@) =~= start.visited.take(start.visited_pos + 1));
            }
        }
        let ghost kept = texts(self.visited@);
        self.visited_pos = self.visited.len();
        self.visited.push(path.to_owned());
        proof {
            assert(texts(self.visited@) =~= kept.push(path@));
            assert(self@ =~= start.with_visit(path@));
        }
    }

    /// Directory to return to; None at the start of the history.
    pub fn back(&mut self) -> (r: Option<String>)
        ensures
            !old(self)@.can_go_back() ==> r is None && final(self)@ == old(self)@,
            old(self)@.can_go_back() ==> {
                let pos = old(self)@.visited_pos - 1;
                final(self)@ == (PanelModel { visited_pos: pos, ..old(self)@ }) && opt(r) == old(
                    self,
                )@.visit_at(pos)
            },
    {
        let ghost start = self@;
        if self.visited_pos == 0 {
            return None;
        }
        self.visited_pos -= 1;
        proof {
            assert(self@ =~= PanelModel { visited_pos: start.visited_pos - 1, ..start });
        }
        self.visit()
    }

    /// Directory to move on to; None at the end of the history.
    pub fn forward(&mut self) -> (r: Option<String>)
        ensures
            !old(self)@.can_go_forward() ==> r is None && final(self)@ == old(self)@,
            old(self)@.can_go_forward() ==> {
                let pos = old(self)@.visited_pos + 1;
                final(self)@ == (PanelModel { visited_pos: pos, ..old(self)@ }) && opt(r) == old(
                    self,
                )@.visit_at(pos)
            },
    {
        let ghost start = self@;
        let n: usize = self.visited.len();
        if self.visited_pos >= n || self.visited_pos + 1 >= n {
            return None;
        }
        self.visited_pos += 1;
        proof {
            assert(self@ =~= PanelModel { visited_pos: start.visited_pos + 1, ..start });
        }
        self.visit()
    }

    fn visit(&self) -> (r: Option<String>)
        ensures
            opt(r) == self@.visit_at(self@.visited_pos),
    {
        if self.visited_pos < self.visited.len() {
            Some(self.visited[self.visited_pos].clone())
        } else {
            None
        }
    }

    /// Toggle hidden files.  The caller refetches the listing so the
    /// filter applies to fresh data.
    pub fn toggle_hidden(&mut self)
        ensures
            final(self)@ == (PanelModel { show_hidden: !old(self)@.show_hidden, ..old(self)@ }),
    {
        self.show_hidden = !self.show_hidden;
    }

    /// Move the cursor by `delta` rows, stopping at either end.
    pub fn move_cursor(&mut self, delta: i32, visible_rows: usize)
        ensures
            final(self)@ == old(self)@.moved(delta as int, visible_rows as int),
    {
        let len: usize = self.entries.len();
        if len == 0 {
            return;
        }
        let next: i128 = self.cursor as i128 + delta as i128;
        self.cursor = if next < 0 {
            0
        } else if next > len as i128 - 1 {
            len - 1
        } else {
            next as usize
        };
        self.clamp_offset(visible_rows);
    }

    /// Put the cursor on `idx`, or on the last entry.
    pub fn jump_to(&mut self, idx: usize, visible_rows: usize)
        ensures
            final(self)@ == old(self)@.jumped(idx as int, visible_rows as int),
    {
        let len: usize = self.entries.len();
        let last: usize = if len == 0 {
            0
        } else {
            len - 1
        };
        self.cursor = if idx < last {
            idx
        } else {
            last
        };
        self.clamp_offset(visible_rows);
    }

    /// Scroll offset follows the cursor the way list views do: the
    /// cursor never leaves the window while scrolling stays stable.
    pub fn clamp_offset(&mut self, visible_rows: usize)
        ensures
            final(self)@ == old(self)@.scrolled(visible_rows as int),
    {
        let rows: usize = if visible_rows == 0 {
            1
        } else {
            visible_rows
        };
        if self.cursor < self.offset {
            self.offset = self.cursor;
        } else if self.cursor - self.offset >= rows {
            self.offset = self.cursor - (rows - 1);
        }
    }

    pub fn current_entry(&self) -> (r: Option<&FileEntry>)
        ensures
            r is Some <==> self@.current() is Some,
            r matches Some(e) ==> self@.current() == Some(*e),
    {
        if self.cursor < self.entries.len() {
            Some(&self.entries[self.cursor])
        } else {
            None
        }
    }

    /// Entries covered by an action: the marked set when non-empty,
    /// otherwise the entry under the cursor.
    pub fn action_targets(&self) -> (r: Vec<(usize, FileEntry)>)
        ensures
            r@ == self@.targets(),
    {
        let mut out: Vec<(usize, FileEntry)> = Vec::new();
        if self.marked.is_empty() {
            if self.cursor < self.entries.len() {
                out.push((self.cursor, self.entries[self.cursor].clone()));
            }
            proof {
                assert(out@ =~= self@.targets());
            }
            return out;
        }
        let mut i: usize = 0;
        while i < self.entries.len()
            invariant
                i <= self.entries@.len(),
                out@ == picked(self.entries@, self.marked@, i as int),
            decreases self.entries@.len() - i,
        {
            if self.marked.contains(&i) {
                out.push((i, self.entries[i].clone()));
            }
            i += 1;
        }
        out
    }
}

/// The entries whose name does not begin with a dot.
fn without_hidden(all: &Vec<FileEntry>) -> (r: Vec<FileEntry>)
    ensures
        r@ == shown(all@),
{
    let ghost f = |e: FileEntry| !(e.name@.len() > 0 && e.name@[0] == '.');
    let mut out: Vec<FileEntry> = Vec::new();
    let mut i: usize = 0;
    proof {
        reveal(Seq::filter);
        assert(all@.take(0).filter(f) =~= Seq::<FileEntry>::empty());
    }
    while i < all.len()
        invariant
            i <= all@.len(),
            f == (|e: FileEntry| !(e.name@.len() > 0 && e.name@[0] == '.')),
            out@ == all@.take(i as int).filter(f),
        decreases all@.len() - i,
    {
        proof {
            reveal(Seq::filter);
            assert(all@.take(i + 1).drop_last() =~= all@.take(i as int));
        }
        if !starts_char(all[i].name.as_str(), '.') {
            out.push(all[i].clone());
        }
        i += 1;
    }
    proof {
        assert(all@.take(i as int) =~= all@);
    }
    out
}

/// The entries whose name contains `needle` without regard to case.
fn containing(all: &Vec<FileEntry>, needle: &str) -> (r: Vec<FileEntry>)
    ensures
        r@ == matching(all@, needle@),
{
    let ghost f = |e: FileEntry| holds(lower(e.name@), lower(needle@));
    let low = to_lower(needle);
    let mut out: Vec<FileEntry> = Vec::new();
    let mut i: usize = 0;
    proof {
        reveal(Seq::filter);
        assert(all@.take(0).filter(f) =~= Seq::<FileEntry>::empty());
    }
    while i < all.len()
        invariant
            i <= all@.len(),
            low@ == lower(needle@),
            f == (|e: FileEntry| holds(lower(e.name@), lower(needle@))),
            out@ == all@.take(i as int).filter(f),
        decreases all@.len() - i,
    {
        proof {
            reveal(Seq::filter);
            assert(all@.take(i + 1).drop_last() =~= all@.take(i as int));
        }
        let name = to_lower(all[i].name.as_str());
        if contains(name.as_str(), low.as_str()) {
            out.push(all[i].clone());
        }
        i += 1;
    }
    proof {
        assert(all@.take(i as int) =~= all@);
    }
    out
}

/// Filtering never loses entries: whatever filters were set before, a
/// cleared filter shows the whole listing again, and a new filter narrows
/// the whole listing.
pub proof fn filter_restores_the_listing(p: PanelModel, first: Option<Seq<char>>, needle: Seq<char>)
    ensures
        p.with_filter(first).with_filter(None).entries == p.all_entries,
        p.with_filter(first).all_entries == p.all_entries,
        needle.len() > 0 ==> p.with_filter(first).with_filter(Some(needle)).entries == matching(
            p.all_entries,
            needle,
        ),
{
}

/// Wherever the cursor and the offset stood, after scrolling the cursor is
/// inside the window; a cursor that was inside leaves the window in place.
pub proof fn cursor_stays_in_window(p: PanelModel, visible_rows: int)
    ensures
        ({
            let q = p.scrolled(visible_rows);
            &&& q.offset <= q.cursor < q.offset + larger(visible_rows, 1)
            &&& q.cursor == p.cursor
            &&& p.offset <= p.cursor < p.offset + larger(visible_rows, 1) ==> q == p
        }),
{
}

/// Moving and jumping keep the cursor on an entry, while there is one.
pub proof fn cursor_stays_on_an_entry(p: PanelModel, by: int, idx: int, visible_rows: int)
    requires
        p.entries.len() > 0,
        idx >= 0,
    ensures
        0 <= p.moved(by, visible_rows).cursor < p.entries.len(),
        0 <= p.jumped(idx, visible_rows).cursor < p.entries.len(),
{
}

/// Recording visits keeps the history position on a directory, the one
/// visited last, and going back from a new directory leads to where the
/// panel was.
pub proof fn visits_are_remembered(p: PanelModel, path: Seq<char>)
    requires
        p.on_history(),
    ensures
        ({
            let q = p.with_visit(path);
            &&& q.on_history()
            &&& q.visit_at(q.visited_pos) == Some(path)
            &&& (p.visited.len() > 0 && p.visited[p.visited_pos] != path) ==> q.can_go_back()
                && q.visit_at(q.visited_pos - 1) == p.visit_at(p.visited_pos)
            &&& (p.visited.len() > 0 && p.visited[p.visited_pos] != path) ==> !q.can_go_forward()
        }),
{
}

/// What is marked is what an action is for: with marks, the marked entries
/// in the order of the listing, each once and no other; without, the entry
/// under the cursor.
pub proof fn targets_are_the_marked_entries(p: PanelModel)
    requires
        p.entries.len() <= usize::MAX,
        0 <= p.cursor <= usize::MAX,
    ensures
        p.marked.is_empty() && p.cursor < p.entries.len() ==> p.targets() == seq![
            (p.cursor as usize, p.entries[p.cursor]),
        ],
        p.marked.is_empty() && p.cursor >= p.entries.len() ==> p.targets().len() == 0,
        !p.marked.is_empty() ==> {
            &&& forall|k: int|
                0 <= k < p.targets().len() ==> p.marked.contains((#[trigger] p.targets()[k]).0)
                    && p.targets()[k].0 < p.entries.len() && p.targets()[k].1
                    == p.entries[p.targets()[k].0 as int]
            &&& forall|j: int, k: int|
                0 <= j < k < p.targets().len() ==> (#[trigger] p.targets()[j]).0 < (
                #[trigger] p.targets()[k]).0
            &&& forall|i: usize|
                i < p.entries.len() && #[trigger] p.marked.contains(i) ==> p.targets().contains(
                    (i, p.entries[i as int]),
                )
        },
{
    lemma_picked(p.entries, p.marked, p.entries.len() as int);
}

proof fn lemma_picked(s: Seq<FileEntry>, marked: Set<usize>, n: int)
    requires
        0 <= n <= s.len() <= usize::MAX,
    ensures
        ({
            let r = picked(s, marked, n);
            &&& forall|k: int|
                0 <= k < r.len() ==> marked.contains((#[trigger] r[k]).0) && r[k].0 < n && r[k].1
                    == s[r[k].0 as int]
            &&& forall|j: int, k: int|
                0 <= j < k < r.len() ==> (#[trigger] r[j]).0 < (#[trigger] r[k]).0
            &&& forall|i: usize|
                i < n && #[trigger] marked.contains(i) ==> r.contains((i, s[i as int]))
        }),
    decreases n,
{
    if n > 0 {
        lemma_picked(s, marked, n - 1);
        let before = picked(s, marked, n - 1);
        let r = picked(s, marked, n);
        assert forall|i: usize| i < n && #[trigger] marked.contains(i) implies r.contains(
            (i, s[i as int]),
        ) by {
            if i == n - 1 {
                assert(r.last() == (i, s[i as int]));
            } else {
                let k = choose|k: int| 0 <= k < before.len() && before[k] == (i, s[i as int]);
                assert(r[k] == (i, s[i as int]));
            }
        }
    }
}

} // verus!

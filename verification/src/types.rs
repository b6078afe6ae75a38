//! Shared types of the dual-pane browser: sides, directory entries, colors.

use crate::text::{chars_of, lower, to_lower};
use vstd::prelude::*;

verus! {

/// A color as the bit patterns of its red, green, blue and alpha shares.
#[derive(Clone, Copy, Debug, PartialEq, Eq, Structural)]
pub struct SrgbaTuple(pub u32, pub u32, pub u32, pub u32);

/// The terminal's color scheme.
#[derive(Clone, Copy)]
pub struct ColorPalette {
    pub colors: [SrgbaTuple; 256],
    pub foreground: SrgbaTuple,
    pub background: SrgbaTuple,
}

/// How one cell is drawn.
#[derive(Clone, Copy, Debug, PartialEq, Eq, Structural)]
pub struct CellAttributes {
    pub foreground: SrgbaTuple,
    pub background: SrgbaTuple,
    pub bold: bool,
}

/// Colors sampled from the active theme.
#[derive(Clone, Copy, Debug, PartialEq, Eq, Structural)]
pub struct SftpPalette {
    pub bg: SrgbaTuple,
    pub fg: SrgbaTuple,
    pub accent: SrgbaTuple,
    pub border: SrgbaTuple,
    pub header: SrgbaTuple,
    pub dir: SrgbaTuple,
}

/// Attributes of a cell drawn in `fg` on `bg`.
pub open spec fn cell(fg: SrgbaTuple, bg: SrgbaTuple, bold: bool) -> CellAttributes {
    CellAttributes { foreground: fg, background: bg, bold }
}

impl SftpPalette {
    fn make_attrs(&self, fg: SrgbaTuple, bg: SrgbaTuple) -> (r: CellAttributes)
        ensures
            r == cell(fg, bg, false),
    {
        CellAttributes { foreground: fg, background: bg, bold: false }
    }

    fn make_attrs_bold(&self, fg: SrgbaTuple, bg: SrgbaTuple) -> (r: CellAttributes)
        ensures
            r == cell(fg, bg, true),
    {
        let mut a = self.make_attrs(fg, bg);
        a.bold = true;
        a
    }

    pub fn plain_cell(&self) -> (r: CellAttributes)
        ensures
            r == cell(self.fg, self.bg, false),
    {
        self.make_attrs(self.fg, self.bg)
    }

    pub fn dim_cell(&self) -> (r: CellAttributes)
        ensures
            r == cell(self.border, self.bg, false),
    {
        self.make_attrs(self.border, self.bg)
    }

    pub fn border_cell(&self) -> (r: CellAttributes)
        ensures
            r == cell(self.border, self.bg, false),
    {
        self.make_attrs(self.border, self.bg)
    }

    pub fn focused_border_cell(&self) -> (r: CellAttributes)
        ensures
            r == cell(self.accent, self.bg, true),
    {
        self.make_attrs_bold(self.accent, self.bg)
    }

    pub fn title_cell(&self) -> (r: CellAttributes)
        ensures
            r == cell(self.header, self.bg, true),
    {
        self.make_attrs_bold(self.header, self.bg)
    }

    pub fn dir_cell(&self) -> (r: CellAttributes)
        ensures
            r == cell(self.dir, self.bg, true),
    {
        self.make_attrs_bold(self.dir, self.bg)
    }

    /// Accent background with a contrasting foreground.
    pub fn cursor_cell(&self) -> (r: CellAttributes)
        ensures
            r == cell(self.bg, self.accent, true),
    {
        self.make_attrs_bold(self.bg, self.accent)
    }

    pub fn marked_cell(&self) -> (r: CellAttributes)
        ensures
            r == cell(self.accent, self.bg, true),
    {
        self.make_attrs_bold(self.accent, self.bg)
    }

    pub fn error_cell(&self) -> (r: CellAttributes)
        ensures
            r == cell(self.header, self.bg, true),
    {
        self.make_attrs_bold(self.header, self.bg)
    }

    pub fn transfer_cell(&self) -> (r: CellAttributes)
        ensures
            r == cell(self.accent, self.bg, false),
    {
        self.make_attrs(self.accent, self.bg)
    }
}

/// Build the overlay palette from the terminal's color scheme: accent is
/// bright cyan (14), border bright black (8), header bright yellow (11),
/// directories bright blue (12).
pub fn sftp_palette(pal: &ColorPalette) -> (r: SftpPalette)
    ensures
        r == (SftpPalette {
            bg: pal.background,
            fg: pal.foreground,
            accent: pal.colors@[14],
            border: pal.colors@[8],
            header: pal.colors@[11],
            dir: pal.colors@[12],
        }),
{
    SftpPalette {
        bg: pal.background,
        fg: pal.foreground,
        accent: pal.colors[14],
        border: pal.colors[8],
        header: pal.colors[11],
        dir: pal.colors[12],
    }
}

/// Which half of the dual-pane view is meant.
#[derive(Clone, Copy, Debug, PartialEq, Eq, Structural)]
pub enum PanelSide {
    Local,
    Remote,
}

impl PanelSide {
    pub open spec fn label_spec(self) -> Seq<char> {
        match self {
            PanelSide::Local => "Local"@,
            PanelSide::Remote => "Remote"@,
        }
    }

    pub fn label(self) -> (r: &'static str)
        ensures
            r@ == self.label_spec(),
    {
        match self {
            PanelSide::Local => "Local",
            PanelSide::Remote => "Remote",
        }
    }

    pub open spec fn opposite(self) -> PanelSide {
        match self {
            PanelSide::Local => PanelSide::Remote,
            PanelSide::Remote => PanelSide::Local,
        }
    }

    pub fn other(self) -> (r: PanelSide)
        ensures
            r == self.opposite(),
    {
        match self {
            PanelSide::Local => PanelSide::Remote,
            PanelSide::Remote => PanelSide::Local,
        }
    }
}

/// One directory entry, normalized across local fs and sftp.
#[derive(Debug)]
pub struct FileEntry {
    pub name: String,
    pub is_dir: bool,
    pub is_symlink: bool,
    pub size: u64,
    /// Unix permission bits (0o777), when known.
    pub mode: Option<u32>,
}

impl Clone for FileEntry {
    fn clone(&self) -> (r: Self)
        ensures
            r == *self,
    {
        FileEntry {
            name: self.name.clone(),
            is_dir: self.is_dir,
            is_symlink: self.is_symlink,
            size: self.size,
            mode: self.mode,
        }
    }
}

/// A copy of a listing.
pub fn clone_entries(v: &Vec<FileEntry>) -> (r: Vec<FileEntry>)
    ensures
        r@ == v@,
{
    let r = v.clone();
    proof {
        assert forall|i: int| 0 <= i < v@.len() implies v@[i] == r@[i] by {
            assert(cloned::<FileEntry>(v[i], r[i]));
        }
        assert(r@ =~= v@);
    }
    r
}

/// `a` comes before `b` in the order of code points.
pub open spec fn text_before(a: Seq<char>, b: Seq<char>) -> bool
    decreases a.len(),
{
    if b.len() == 0 {
        false
    } else if a.len() == 0 {
        true
    } else if a[0] != b[0] {
        a[0] < b[0]
    } else {
        text_before(a.skip(1), b.skip(1))
    }
}

/// `a` belongs strictly before `b` in a listing: directories first, then
/// names without regard to case.
pub open spec fn entry_before(a: FileEntry, b: FileEntry) -> bool {
    if a.is_dir != b.is_dir {
        a.is_dir
    } else {
        text_before(lower(a.name@), lower(b.name@))
    }
}

/// A sorted listing with `e` put behind everything that need not follow it.
pub open spec fn placed(s: Seq<FileEntry>, e: FileEntry) -> Seq<FileEntry>
    decreases s.len(),
{
    if s.len() > 0 && entry_before(e, s.last()) {
        placed(s.drop_last(), e).push(s.last())
    } else {
        s.push(e)
    }
}

/// The listing in order, equal entries in the order they came in.
pub open spec fn sorted(s: Seq<FileEntry>) -> Seq<FileEntry>
    decreases s.len(),
{
    if s.len() == 0 {
        s
    } else {
        placed(sorted(s.drop_last()), s.last())
    }
}

/// Whether `a` comes before `b` in the order of code points.
fn before(a: &Vec<char>, b: &Vec<char>) -> (r: bool)
    ensures
        r == text_before(a@, b@),
{
    let mut i: usize = 0;
    proof {
        assert(a@.skip(0) =~= a@);
        assert(b@.skip(0) =~= b@);
    }
    while i < a.len() && i < b.len() && a[i] == b[i]
        invariant
            i <= a@.len(),
            i <= b@.len(),
            text_before(a@, b@) == text_before(a@.skip(i as int), b@.skip(i as int)),
        decreases a@.len() - i,
    {
        proof {
            assert(a@.skip(i as int).skip(1) =~= a@.skip(i + 1));
            assert(b@.skip(i as int).skip(1) =~= b@.skip(i + 1));
        }
        i += 1;
    }
    if i >= b.len() {
        false
    } else if i >= a.len() {
        true
    } else {
        a[i] < b[i]
    }
}

/// Whether `a` belongs strictly before `b`, given their lowercase names.
fn goes_before(a: &FileEntry, a_key: &Vec<char>, b: &FileEntry, b_key: &Vec<char>) -> (r: bool)
    requires
        a_key@ == lower(a.name@),
        b_key@ == lower(b.name@),
    ensures
        r == entry_before(*a, *b),
{
    if a.is_dir != b.is_dir {
        a.is_dir
    } else {
        before(a_key, b_key)
    }
}

/// Names of a listing in lower case, as characters.
spec fn keyed(keys: Seq<Vec<char>>, s: Seq<FileEntry>) -> bool {
    &&& keys.len() == s.len()
    &&& forall|i: int| 0 <= i < s.len() ==> (#[trigger] keys[i])@ == lower(s[i].name@)
}

/// Sort entries: directories first, then names case-insensitively.
pub fn sort_entries(entries: &mut Vec<FileEntry>)
    ensures
        final(entries)@ == sorted(old(entries)@),
{
    let ghost all = entries@;
    let mut out: Vec<FileEntry> = Vec::new();
    let mut keys: Vec<Vec<char>> = Vec::new();
    let mut k: usize = 0;
    proof {
        assert(all.take(0) =~= Seq::<FileEntry>::empty());
    }
    while k < entries.len()
        invariant
            k <= entries@.len(),
            entries@ == all,
            out@ == sorted(all.take(k as int)),
            keyed(keys@, out@),
        decreases entries@.len() - k,
    {
        let e = entries[k].clone();
        let low = to_lower(e.name.as_str());
        let key = chars_of(low.as_str());
        let ghost base = out@;
        let n: usize = out.len();
        let mut j: usize = n;
        proof {
            assert(all.take(k + 1).drop_last() =~= all.take(k as int));
            assert(base.take(n as int) =~= base);
            assert(base.subrange(n as int, n as int) =~= Seq::<FileEntry>::empty());
            assert(placed(base, e) =~= placed(base.take(j as int), e) + base.skip(j as int));
        }
        while j > 0 && goes_before(&e, &key, &out[j - 1], &keys[j - 1])
            invariant
                j <= n == out@.len(),
                out@ == base,
                keyed(keys@, out@),
                key@ == lower(e.name@),
                placed(base, e) == placed(base.take(j as int), e) + base.skip(j as int),
            decreases j,
        {
            proof {
                let head = base.take(j as int);
                assert(head.drop_last() =~= base.take(j - 1));
                assert(head.last() == base[j - 1]);
                assert(placed(base, e) =~= placed(base.take(j - 1), e) + base.skip(j - 1)) by {
                    assert(base.skip(j - 1) =~= seq![base[j - 1]] + base.skip(j as int));
                }
            }
            j -= 1;
        }
        proof {
            let head = base.take(j as int);
            if j > 0 {
                assert(head.last() == base[j - 1]);
            }
            assert(placed(base, e) =~= base.insert(j as int, e));
        }
        let ghost old_keys = keys@;
        let ghost kv = key;
        out.insert(j, e);
        keys.insert(j, key);
        proof {
            assert forall|i: int| 0 <= i < out@.len() implies (#[trigger] keys@[i])@ == lower(
                out@[i].name@,
            ) by {
                if i < j {
                    assert(old_keys[i]@ == lower(base[i].name@));
                } else if i > j {
                    assert(old_keys[i - 1]@ == lower(base[i - 1].name@));
                }
            }
        }
        k += 1;
    }
    proof {
        assert(all.take(all.len() as int) =~= all);
    }
    *entries = out;
}

/// Code-point order is transitive, also over texts that are not after each
/// other.
proof fn lemma_not_before_transitive(a: Seq<char>, b: Seq<char>, c: Seq<char>)
    requires
        !text_before(b, a),
        !text_before(c, b),
    ensures
        !text_before(c, a),
    decreases a.len(),
{
    if a.len() > 0 && b.len() > 0 && c.len() > 0 {
        if a[0] == b[0] && b[0] == c[0] {
            lemma_not_before_transitive(a.skip(1), b.skip(1), c.skip(1));
        }
    }
}

/// No entry of the listing has to stand before an earlier one.
pub open spec fn in_order(s: Seq<FileEntry>) -> bool {
    forall|i: int, j: int| 0 <= i < j < s.len() ==> !entry_before(#[trigger] s[j], #[trigger] s[i])
}

proof fn lemma_entry_transitive(a: FileEntry, b: FileEntry, c: FileEntry)
    requires
        !entry_before(b, a),
        !entry_before(c, b),
    ensures
        !entry_before(c, a),
{
    if a.is_dir == b.is_dir && b.is_dir == c.is_dir {
        lemma_not_before_transitive(lower(a.name@), lower(b.name@), lower(c.name@));
    }
}

proof fn lemma_entry_asymmetric(a: FileEntry, b: FileEntry)
    requires
        entry_before(a, b),
    ensures
        !entry_before(b, a),
{
    if a.is_dir == b.is_dir {
        let x = lower(a.name@);
        let y = lower(b.name@);
        if text_before(y, x) {
            lemma_text_asymmetric(x, y);
        }
    }
}

proof fn lemma_text_asymmetric(a: Seq<char>, b: Seq<char>)
    requires
        text_before(a, b),
    ensures
        !text_before(b, a),
    decreases a.len(),
{
    if a.len() > 0 && b.len() > 0 && a[0] == b[0] {
        lemma_text_asymmetric(a.skip(1), b.skip(1));
    }
}

proof fn lemma_placed(s: Seq<FileEntry>, e: FileEntry)
    ensures
        placed(s, e).to_multiset() == s.to_multiset().insert(e),
        placed(s, e).len() == s.len() + 1,
        in_order(s) ==> in_order(placed(s, e)),
        forall|i: int|
            0 <= i < placed(s, e).len() ==> #[trigger] placed(s, e)[i] == e || s.contains(
                placed(s, e)[i],
            ),
    decreases s.len(),
{
    broadcast use vstd::seq_lib::group_to_multiset_ensures;

    let r = placed(s, e);
    if s.len() > 0 && entry_before(e, s.last()) {
        let front = s.drop_last();
        lemma_placed(front, e);
        let p = placed(front, e);
        assert(r == p.push(s.last()));
        assert(front.push(s.last()) =~= s);
        assert(r.to_multiset() =~= s.to_multiset().insert(e));
        assert forall|i: int| 0 <= i < r.len() implies #[trigger] r[i] == e || s.contains(r[i]) by {
            if i < p.len() {
                assert(p[i] == e || front.contains(p[i]));
                if front.contains(p[i]) {
                    let k = choose|k: int| 0 <= k < front.len() && front[k] == p[i];
                    assert(s[k] == p[i]);
                }
            } else {
                assert(s[s.len() - 1] == r[i]);
            }
        }
        if in_order(s) {
            assert(in_order(front));
            assert forall|i: int, j: int| 0 <= i < j < r.len() implies !entry_before(
                #[trigger] r[j],
                #[trigger] r[i],
            ) by {
                if j == r.len() - 1 {
                    assert(p[i] == e || front.contains(p[i]));
                    if front.contains(p[i]) {
                        let k = choose|k: int| 0 <= k < front.len() && front[k] == p[i];
                        assert(s[k] == r[i]);
                        assert(s[s.len() - 1] == r[j]);
                    } else {
                        lemma_entry_asymmetric(e, s.last());
                    }
                } else {
                    assert(p[i] == r[i] && p[j] == r[j]);
                }
            }
        }
    } else {
        assert(r == s.push(e));
        assert forall|i: int| 0 <= i < r.len() implies #[trigger] r[i] == e || s.contains(r[i]) by {
            if i < s.len() {
                assert(s[i] == r[i]);
            }
        }
        if in_order(s) {
            assert forall|i: int, j: int| 0 <= i < j < r.len() implies !entry_before(
                #[trigger] r[j],
                #[trigger] r[i],
            ) by {
                if j == s.len() {
                    if i < s.len() - 1 {
                        assert(!entry_before(s[s.len() - 1], s[i]));
                        lemma_entry_transitive(s[i], s.last(), e);
                    }
                } else {
                    assert(s[i] == r[i] && s[j] == r[j]);
                }
            }
        }
    }
}

/// Sorting keeps every entry exactly as often as it came in, and leaves
/// directories before files and names in order without regard to case.
pub proof fn sorting_orders_the_same_entries(s: Seq<FileEntry>)
    ensures
        in_order(sorted(s)),
        sorted(s).to_multiset() == s.to_multiset(),
        sorted(s).len() == s.len(),
    decreases s.len(),
{
    broadcast use vstd::seq_lib::group_to_multiset_ensures;

    if s.len() > 0 {
        sorting_orders_the_same_entries(s.drop_last());
        lemma_placed(sorted(s.drop_last()), s.last());
        assert(s.drop_last().push(s.last()) =~= s);
    }
}

/// Entries of a listing that neither has to precede `e` nor has to follow it.
pub open spec fn peers(s: Seq<FileEntry>, e: FileEntry) -> Seq<FileEntry> {
    s.filter(|x: FileEntry| !entry_before(x, e) && !entry_before(e, x))
}

proof fn lemma_placed_peers(s: Seq<FileEntry>, x: FileEntry, e: FileEntry)
    requires
        in_order(s),
    ensures
        peers(placed(s, x), e) == peers(s.push(x), e),
    decreases s.len(),
{
    reveal(Seq::filter);
    let f = |y: FileEntry| !entry_before(y, e) && !entry_before(e, y);
    assert(forall|t: Seq<FileEntry>| #[trigger] peers(t, e) == t.filter(f));
    if s.len() > 0 && entry_before(x, s.last()) {
        let front = s.drop_last();
        assert(in_order(front));
        lemma_placed_peers(front, x, e);
        let p = placed(front, x);
        assert(p.push(s.last()).drop_last() =~= p);
        assert(s.push(x).drop_last() =~= s);
        assert(front.push(x).drop_last() =~= front);
        if f(x) && f(s.last()) {
            lemma_entry_transitive(s.last(), e, x);
        }
        assert(s.push(x).filter(f) == if f(x) { s.filter(f).push(x) } else { s.filter(f) });
        assert(s.filter(f) == if f(s.last()) {
            front.filter(f).push(s.last())
        } else {
            front.filter(f)
        });
        assert(front.push(x).filter(f) == if f(x) {
            front.filter(f).push(x)
        } else {
            front.filter(f)
        });
    }
}

/// Sorting is stable: entries that share a place in the order keep the
/// order in which they came in.
pub proof fn sorting_is_stable(s: Seq<FileEntry>, e: FileEntry)
    ensures
        peers(sorted(s), e) == peers(s, e),
    decreases s.len(),
{
    reveal(Seq::filter);
    if s.len() > 0 {
        let front = s.drop_last();
        sorting_is_stable(front, e);
        sorting_orders_the_same_entries(front);
        lemma_placed_peers(sorted(front), s.last(), e);
        assert(sorted(front).push(s.last()).drop_last() =~= sorted(front));
    }
}

/// Letter shown for permission bit `8 - i`, counted from the owner's read
/// bit.
pub open spec fn permission_letter(mode: u32, i: int) -> char {
    if mode & (1u32 << ((8 - i) as u32)) == 0 {
        '-'
    } else if i % 3 == 0 {
        'r'
    } else if i % 3 == 1 {
        'w'
    } else {
        'x'
    }
}

/// File type letter of a permission string.
pub open spec fn type_letter(is_dir: bool, is_symlink: bool) -> char {
    if is_symlink {
        'l'
    } else if is_dir {
        'd'
    } else {
        '-'
    }
}

/// "drwxr-xr-x"-style text: the type letter and nine permission letters.
pub open spec fn permissions(mode: u32, is_dir: bool, is_symlink: bool) -> Seq<char> {
    seq![type_letter(is_dir, is_symlink)] + Seq::new(9, |i: int| permission_letter(mode, i))
}

/// Short "drwxr-xr-x"-style permission string for the details column.
pub fn permission_string(mode: u32, is_dir: bool, is_symlink: bool) -> (r: String)
    ensures
        r@ == permissions(mode, is_dir, is_symlink),
{
    let mut s = String::new();
    s.push(if is_symlink {
        'l'
    } else if is_dir {
        'd'
    } else {
        '-'
    });
    let mut i: u32 = 0;
    proof {
        assert(s@ =~= seq![type_letter(is_dir, is_symlink)] + Seq::new(
            0,
            |i: int| permission_letter(mode, i),
        ));
    }
    while i < 9
        invariant
            i <= 9,
            s@ == seq![type_letter(is_dir, is_symlink)] + Seq::new(
                i as nat,
                |i: int| permission_letter(mode, i),
            ),
        decreases 9 - i,
    {
        let bit: u32 = 1u32 << (8 - i);
        let letter: char = if mode & bit == 0 {
            '-'
        } else if i % 3 == 0 {
            'r'
        } else if i % 3 == 1 {
            'w'
        } else {
            'x'
        };
        let ghost before = s@;
        s.push(letter);
        proof {
            assert(s@ =~= seq![type_letter(is_dir, is_symlink)] + Seq::new(
                (i + 1) as nat,
                |i: int| permission_letter(mode, i),
            ));
        }
        i += 1;
    }
    s
}

/// In a sorted listing every directory stands before every file, and among
/// entries of one kind no name stands before one that it follows without
/// regard to case.
pub proof fn directories_come_first(s: Seq<FileEntry>, i: int, j: int)
    requires
        0 <= i < j < s.len(),
    ensures
        sorted(s).len() == s.len(),
        sorted(s)[j].is_dir ==> sorted(s)[i].is_dir,
        sorted(s)[i].is_dir == sorted(s)[j].is_dir ==> !text_before(
            lower(sorted(s)[j].name@),
            lower(sorted(s)[i].name@),
        ),
{
    sorting_orders_the_same_entries(s);
    let r = sorted(s);
    assert(!entry_before(r[j], r[i]));
}

/// Texts are ordered by their first difference: by the smaller character
/// there, or by ending there.
pub proof fn texts_are_ordered_by_their_first_difference(
    head: Seq<char>,
    a: Seq<char>,
    b: Seq<char>,
)
    requires
        b.len() > 0,
        a.len() > 0 ==> a[0] < b[0],
    ensures
        text_before(head + a, head + b),
        !text_before(head + b, head + a),
        !text_before(head, head),
    decreases head.len(),
{
    if head.len() > 0 {
        texts_are_ordered_by_their_first_difference(head.skip(1), a, b);
        assert((head + a).skip(1) =~= head.skip(1) + a);
        assert((head + b).skip(1) =~= head.skip(1) + b);
    } else {
        assert(head + a =~= a);
        assert(head + b =~= b);
    }
}

} // verus!

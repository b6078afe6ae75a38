//! Walking a folder for a recursive transfer.
//!
//! The walk is a machine: it names the next directory to read and takes
//! what reading it gave. Files come out in the order in which a
//! depth-first walk meets them.

use crate::paths::{opt, path_in};
use crate::state::{scanned_list, ScanFile, ScanFileModel};
use crate::text::{begins, begins_with, cat, cat3, chars_of, ends_in, ends_with, text_of};
use vstd::prelude::*;
use vstd::string::*;

verus! {

/// Files after which a walk stops.
pub const SCAN_MAX_FILES: usize = 5000;

/// Levels below the folder that a remote walk enters.
pub const SCAN_MAX_DEPTH: usize = 12;

/// What the `Debug` output of a path is.
pub uninterp spec fn path_debug(path: Seq<char>) -> Seq<char>;

/// `Debug` of `std::path::Path`: the path in quotes, special characters
/// escaped. The exact escapes are left to the name.
#[verifier::external_body]
pub(crate) fn debug_path(path: &str) -> (r: String)
    ensures
        r@ == path_debug(path@),
{
    format!("{:?}", std::path::Path::new(path))
}

/// One thing found while reading a directory.
#[derive(Debug)]
pub struct DirItem {
    /// Its full path.
    pub path: String,
    /// Its name in the directory.
    pub name: String,
    pub is_dir: bool,
    pub is_symlink: bool,
    pub size: u64,
}

/// A found thing, with its texts as characters.
pub struct ItemModel {
    pub path: Seq<char>,
    pub name: Seq<char>,
    pub is_dir: bool,
    pub is_symlink: bool,
    pub size: u64,
}

impl View for DirItem {
    type V = ItemModel;

    open spec fn view(&self) -> ItemModel {
        ItemModel {
            path: self.path@,
            name: self.name@,
            is_dir: self.is_dir,
            is_symlink: self.is_symlink,
            size: self.size,
        }
    }
}

impl Clone for DirItem {
    fn clone(&self) -> (r: Self)
        ensures
            r == *self,
    {
        DirItem {
            path: self.path.clone(),
            name: self.name.clone(),
            is_dir: self.is_dir,
            is_symlink: self.is_symlink,
            size: self.size,
        }
    }
}

pub open spec fn found_list(v: Seq<DirItem>) -> Seq<ItemModel> {
    v.map_values(|i: DirItem| i@)
}

/// A directory that is being gone through.
#[derive(Debug)]
pub struct ScanFrame {
    pub items: Vec<DirItem>,
    /// Items gone through.
    pub at: usize,
    /// The directory relative to the folder.
    pub rel: String,
    /// Levels below the folder, counted on the remote side.
    pub depth: usize,
}

/// A directory with what is left to go through.
#[verifier::ext_equal]
pub struct FrameModel {
    pub items: Seq<ItemModel>,
    pub rel: Seq<char>,
    pub depth: nat,
}

impl View for ScanFrame {
    type V = FrameModel;

    open spec fn view(&self) -> FrameModel {
        FrameModel {
            items: found_list(self.items@).skip(self.at as int),
            rel: self.rel@,
            depth: self.depth as nat,
        }
    }
}

pub open spec fn frame_list(v: Seq<ScanFrame>) -> Seq<FrameModel> {
    v.map_values(|f: ScanFrame| f@)
}

/// A directory that is to be read next.
#[derive(Debug)]
pub struct ScanDir {
    pub path: String,
    pub rel: String,
    pub depth: usize,
}

/// A directory to read, with its texts as characters.
pub struct DirModel {
    pub path: Seq<char>,
    pub rel: Seq<char>,
    pub depth: nat,
}

impl View for ScanDir {
    type V = DirModel;

    open spec fn view(&self) -> DirModel {
        DirModel { path: self.path@, rel: self.rel@, depth: self.depth as nat }
    }
}

/// A walk under way.
#[derive(Debug)]
pub struct TreeScan {
    pub remote: bool,
    pub root: String,
    pub out: Vec<ScanFile>,
    pub frames: Vec<ScanFrame>,
    pub next: Option<ScanDir>,
    pub error: Option<String>,
}

/// A walk, with its texts as characters.
#[verifier::ext_equal]
pub struct WalkModel {
    pub remote: bool,
    pub root: Seq<char>,
    pub out: Seq<ScanFileModel>,
    pub frames: Seq<FrameModel>,
    pub next: Option<DirModel>,
    pub error: Option<Seq<char>>,
}

pub open spec fn dir_view(d: Option<ScanDir>) -> Option<DirModel> {
    match d {
        Some(d) => Some(d@),
        None => None,
    }
}

impl View for TreeScan {
    type V = WalkModel;

    open spec fn view(&self) -> WalkModel {
        WalkModel {
            remote: self.remote,
            root: self.root@,
            out: scanned_list(self.out@),
            frames: frame_list(self.frames@),
            next: dir_view(self.next),
            error: opt(self.error),
        }
    }
}

impl TreeScan {
    /// Every position lies within its directory.
    pub open spec fn sound(self) -> bool {
        forall|i: int|
            0 <= i < self.frames@.len() ==> (#[trigger] self.frames@[i]).at
                <= self.frames@[i].items@.len()
    }
}

/// A remote path relative to the folder being walked.
pub open spec fn relative(root: Seq<char>, full: Seq<char>) -> Seq<char> {
    let prefix = if ends_in(root, '/') {
        root
    } else {
        root + "/"@
    };
    if begins(full, prefix) {
        full.skip(prefix.len() as int)
    } else {
        full
    }
}

/// A remote path relative to the folder being walked.
pub fn relative_to(root: &str, full: &str) -> (r: String)
    ensures
        r@ == relative(root@, full@),
{
    let prefix = if ends_with(root, '/') {
        root.to_owned()
    } else {
        cat(root, "/")
    };
    if begins_with(full, prefix.as_str()) {
        let v = chars_of(full);
        let p = chars_of(prefix.as_str());
        let n: usize = v.len();
        let k: usize = p.len();
        let r = text_of(&v, k, n);
        proof {
            assert(r@ =~= full@.skip(k as int));
        }
        r
    } else {
        full.to_owned()
    }
}

/// Work that is left: directories and their items.
pub open spec fn weight(frames: Seq<FrameModel>) -> nat
    decreases frames.len(),
{
    if frames.len() == 0 {
        0
    } else {
        weight(frames.drop_last()) + 1 + frames.last().items.len()
    }
}

impl WalkModel {
    pub open spec fn fresh(remote: bool, root: Seq<char>) -> WalkModel {
        WalkModel {
            remote,
            root,
            out: Seq::empty(),
            frames: Seq::empty(),
            next: Some(DirModel { path: root, rel: Seq::empty(), depth: 0 }),
            error: None,
        }
    }

    /// Path of an item relative to the folder.
    pub open spec fn rel_of(self, dir: Seq<char>, item: ItemModel) -> Seq<char> {
        if self.remote {
            relative(self.root, item.path)
        } else if dir.len() == 0 {
            item.name
        } else {
            dir + "/"@ + item.name
        }
    }

    /// There is nothing to do before the next directory is read.
    pub open spec fn rests(self) -> bool {
        self.next is Some || self.frames.len() == 0
    }

    /// Go past one item, out of a directory, or stop at the limit.
    pub open spec fn step(self) -> WalkModel {
        let top = self.frames.last();
        if self.out.len() >= SCAN_MAX_FILES {
            WalkModel { frames: Seq::empty(), ..self }
        } else if top.items.len() == 0 {
            WalkModel { frames: self.frames.drop_last(), ..self }
        } else {
            let item = top.items[0];
            let m = WalkModel {
                frames: self.frames.drop_last().push(
                    FrameModel { items: top.items.skip(1), ..top },
                ),
                ..self
            };
            let rel = self.rel_of(top.rel, item);
            // Directory links stay unexplored to avoid loops; they count
            // as files.
            if item.is_dir && !item.is_symlink {
                if self.remote && top.depth >= SCAN_MAX_DEPTH {
                    m
                } else {
                    WalkModel {
                        next: Some(
                            DirModel {
                                path: item.path,
                                rel,
                                depth: if self.remote {
                                    top.depth + 1
                                } else {
                                    0
                                },
                            },
                        ),
                        ..m
                    }
                }
            } else {
                WalkModel {
                    out: self.out.push(ScanFileModel { abs: item.path, rel, size: item.size }),
                    ..m
                }
            }
        }
    }

    /// On to the next directory that has to be read, or to the end.
    pub open spec fn advanced(self) -> WalkModel
        decreases weight(self.frames),
    {
        if self.rests() {
            self
        } else {
            proof {
                lemma_step_shrinks(self);
            }
            self.step().advanced()
        }
    }

    /// The walk after the next directory was read, or could not be.
    pub open spec fn after(self, read: Result<Seq<ItemModel>, Seq<char>>) -> WalkModel {
        match self.next {
            None => self,
            Some(dir) => match read {
                Ok(items) => (WalkModel {
                    frames: self.frames.push(FrameModel { items, rel: dir.rel, depth: dir.depth }),
                    next: None,
                    ..self
                }).advanced(),
                Err(e) => WalkModel {
                    frames: Seq::empty(),
                    next: None,
                    error: Some(
                        (if self.remote {
                            dir.path
                        } else {
                            path_debug(dir.path)
                        }) + ": "@ + e,
                    ),
                    ..self
                },
            },
        }
    }
}

/// Every step leaves less work.
pub proof fn lemma_step_shrinks(m: WalkModel)
    requires
        !m.rests(),
    ensures
        weight(m.step().frames) < weight(m.frames),
{
    let f = m.step().frames;
    let top = m.frames.last();
    if m.out.len() >= SCAN_MAX_FILES {
        assert(weight(Seq::<FrameModel>::empty()) == 0);
    } else if top.items.len() > 0 {
        assert(f.drop_last() =~= m.frames.drop_last());
        assert(f.last().items.len() == top.items.len() - 1);
    }
}

impl TreeScan {
    /// Begin at a folder.
    pub fn new(remote: bool, root: String) -> (r: Self)
        ensures
            r@ == WalkModel::fresh(remote, root@),
            r.sound(),
    {
        let out: Vec<ScanFile> = Vec::new();
        let frames: Vec<ScanFrame> = Vec::new();
        let rel = text_of(&Vec::new(), 0, 0);
        let path = root.clone();
        let r = TreeScan {
            remote,
            root,
            out,
            frames,
            next: Some(ScanDir { path, rel, depth: 0 }),
            error: None,
        };
        proof {
            assert(scanned_list(r.out@) =~= Seq::empty());
            assert(frame_list(r.frames@) =~= Seq::empty());
            assert(rel@ =~= Seq::empty());
        }
        r
    }

    fn rel_of(&self, dir: &str, item: &DirItem) -> (r: String)
        ensures
            r@ == self@.rel_of(dir@, item@),
    {
        if self.remote {
            relative_to(self.root.as_str(), item.path.as_str())
        } else if dir.is_empty() {
            item.name.clone()
        } else {
            cat3(dir, "/", item.name.as_str())
        }
    }

    fn step(&mut self)
        requires
            old(self).sound(),
            !old(self)@.rests(),
        ensures
            final(self).sound(),
            final(self)@ == old(self)@.step(),
    {
        let ghost start = self@;
        let n: usize = self.frames.len();
        proof {
            assert(start.frames.last() == self.frames@[n - 1]@);
        }
        if self.out.len() >= SCAN_MAX_FILES {
            self.frames = Vec::new();
            proof {
                assert(frame_list(self.frames@) =~= Seq::empty());
            }
            return;
        }
        let mut top = match self.frames.pop() {
            Some(top) => top,
            None => return,
        };
        let ghost before = top@;
        proof {
            assert(frame_list(self.frames@) =~= start.frames.drop_last());
        }
        if top.at >= top.items.len() {
            proof {
                assert(before.items.len() == 0);
            }
            return;
        }
        let item = top.items[top.at].clone();
        proof {
            assert(before.items[0] == item@);
        }
        top.at = top.at + 1;
        let rel = self.rel_of(top.rel.as_str(), &item);
        let depth: usize = top.depth;
        proof {
            assert(top@.items =~= before.items.skip(1));
        }
        let ghost lower = frame_list(self.frames@);
        self.frames.push(top);
        proof {
            assert(frame_list(self.frames@) =~= lower.push(top@));
        }
        if item.is_dir && !item.is_symlink {
            if self.remote && depth >= SCAN_MAX_DEPTH {
                return;
            }
            let below: usize = if self.remote {
                depth + 1
            } else {
                0
            };
            self.next = Some(ScanDir { path: item.path, rel, depth: below });
        } else {
            let ghost files = scanned_list(self.out@);
            let file = ScanFile { abs: item.path, rel, size: item.size };
            let ghost seen = file@;
            self.out.push(file);
            proof {
                assert(scanned_list(self.out@) =~= files.push(seen));
            }
        }
    }

    /// The directory to read next, if the walk is not over.
    pub fn next_dir(&self) -> (r: Option<&str>)
        ensures
            match (r, self@.next) {
                (Some(p), Some(d)) => p@ == d.path,
                (None, None) => true,
                _ => false,
            },
    {
        match &self.next {
            Some(d) => Some(d.path.as_str()),
            None => None,
        }
    }

    /// Take what reading the next directory gave.
    pub fn feed(&mut self, read: Result<Vec<DirItem>, String>)
        requires
            old(self).sound(),
        ensures
            final(self).sound(),
            final(self)@ == old(self)@.after(
                match read {
                    Ok(v) => Ok(found_list(v@)),
                    Err(e) => Err(e@),
                },
            ),
    {
        let ghost start = self@;
        let mut next: Option<ScanDir> = None;
        core::mem::swap(&mut self.next, &mut next);
        let dir = match next {
            Some(dir) => dir,
            None => return,
        };
        match read {
            Ok(items) => {
                let frame = ScanFrame { items, at: 0, rel: dir.rel, depth: dir.depth };
                let ghost added = frame@;
                proof {
                    assert(added.items =~= found_list(items@));
                }
                self.frames.push(frame);
                proof {
                    assert(frame_list(self.frames@) =~= start.frames.push(added));
                }
                let ghost begun = self@;
                while self.next.is_none() && self.frames.len() > 0
                    invariant
                        self.sound(),
                        self@.advanced() == begun.advanced(),
                    decreases weight(self@.frames),
                {
                    proof {
                        lemma_step_shrinks(self@);
                    }
                    self.step();
                }
            },
            Err(e) => {
                let shown = if self.remote {
                    dir.path
                } else {
                    debug_path(dir.path.as_str())
                };
                self.error = Some(cat3(shown.as_str(), ": ", e.as_str()));
                self.frames = Vec::new();
                proof {
                    assert(frame_list(self.frames@) =~= Seq::empty());
                }
            },
        }
    }

    /// What came of a walk that is over.
    pub fn finish(self) -> (r: Result<Vec<ScanFile>, String>)
        ensures
            match (r, self@.error) {
                (Ok(files), None) => scanned_list(files@) == self@.out,
                (Err(e), Some(text)) => e@ == text,
                _ => false,
            },
    {
        match self.error {
            Some(e) => Err(e),
            None => Ok(self.out),
        }
    }
}

/// No walk gives more files than the limit, and a remote walk enters no
/// directory below the deepest level.
pub proof fn a_walk_is_bounded(m: WalkModel, read: Result<Seq<ItemModel>, Seq<char>>)
    requires
        m.bounded(),
    ensures
        WalkModel::fresh(m.remote, m.root).bounded(),
        m.after(read).bounded(),
{
    match (m.next, read) {
        (Some(dir), Ok(items)) => {
            let frames = m.frames.push(FrameModel { items, rel: dir.rel, depth: dir.depth });
            lemma_advanced_bounded(WalkModel { frames, next: None, ..m });
        },
        _ => {},
    }
}

impl WalkModel {
    /// Within the limits on files and, on the remote side, on levels.
    pub open spec fn bounded(self) -> bool {
        &&& self.out.len() <= SCAN_MAX_FILES
        &&& self.remote ==> match self.next {
            Some(d) => d.depth <= SCAN_MAX_DEPTH,
            None => true,
        }
        &&& self.remote ==> forall|i: int|
            0 <= i < self.frames.len() ==> (#[trigger] self.frames[i]).depth <= SCAN_MAX_DEPTH
    }
}

proof fn lemma_advanced_bounded(m: WalkModel)
    requires
        m.bounded(),
    ensures
        m.advanced().bounded(),
    decreases weight(m.frames),
{
    if !m.rests() {
        lemma_step_shrinks(m);
        assert(m.frames.last() == m.frames[m.frames.len() - 1]);
        assert(m.step().bounded());
        lemma_advanced_bounded(m.step());
    }
}

/// A file below the walked folder is found again under its relative path.
pub proof fn relative_paths_lead_back(root: Seq<char>, name: Seq<char>)
    ensures
        relative(root, path_in(root, name)) == name,
{
    let full = path_in(root, name);
    let prefix = if ends_in(root, '/') {
        root
    } else {
        root + "/"@
    };
    assert(full =~= prefix + name);
    assert(full.take(prefix.len() as int) =~= prefix);
    assert(full.skip(prefix.len() as int) =~= name);
}

/// The item is walked into: a directory that is no link.
pub open spec fn entered(item: ItemModel) -> bool {
    item.is_dir && !item.is_symlink
}

/// A folder that is met is entered next, under its own path, and below the
/// directory it was met in; no deeper than the limit on the remote side.
pub proof fn a_folder_is_entered(m: WalkModel, dir: DirModel, items: Seq<ItemModel>)
    requires
        m.next == Some(dir),
        items.len() > 0,
        entered(items[0]),
        m.out.len() < SCAN_MAX_FILES,
        m.remote ==> dir.depth < SCAN_MAX_DEPTH,
    ensures
        ({
            let r = m.after(Ok(items));
            &&& r.out == m.out
            &&& match r.next {
                Some(d) => d.path == items[0].path && (m.remote ==> d.depth == dir.depth + 1)
                    && (!m.remote ==> d.rel == (if dir.rel.len() == 0 {
                    items[0].name
                } else {
                    dir.rel + "/"@ + items[0].name
                })) && (m.remote ==> d.rel == relative(m.root, items[0].path)),
                None => false,
            }
        }),
{
    let frame = FrameModel { items, rel: dir.rel, depth: dir.depth };
    let a = WalkModel { frames: m.frames.push(frame), next: None, ..m };
    lemma_step_shrinks(a);
    assert(a.frames.last() == frame);
    assert(a.advanced() == a.step().advanced());
}

/// The file that an item without a directory stands for.
pub open spec fn found_file(m: WalkModel, rel: Seq<char>, item: ItemModel) -> ScanFileModel {
    ScanFileModel {
        abs: item.path,
        rel: if m.remote {
            relative(m.root, item.path)
        } else if rel.len() == 0 {
            item.name
        } else {
            rel + "/"@ + item.name
        },
        size: item.size,
    }
}

proof fn lemma_files_found(m: WalkModel, items: Seq<ItemModel>, rel: Seq<char>, depth: nat)
    requires
        m.next is None,
        m.frames.len() == 0,
        forall|i: int| 0 <= i < items.len() ==> !entered(#[trigger] items[i]),
        m.out.len() + items.len() < SCAN_MAX_FILES,
    ensures
        ({
            let a = WalkModel { frames: seq![FrameModel { items, rel, depth }], ..m };
            &&& a.advanced().out == m.out + Seq::new(
                items.len(),
                |i: int| found_file(m, rel, items[i]),
            )
            &&& a.advanced().next is None
            &&& a.advanced().frames.len() == 0
            &&& a.advanced().error == m.error
        }),
    decreases items.len(),
{
    let frame = FrameModel { items, rel, depth };
    let a = WalkModel { frames: seq![frame], ..m };
    lemma_step_shrinks(a);
    assert(a.frames.last() == frame);
    assert(a.advanced() == a.step().advanced());
    if items.len() == 0 {
        assert(a.step().frames =~= Seq::empty());
        assert(a.step().advanced() == a.step());
        assert(a.step().out =~= m.out + Seq::new(
            items.len(),
            |i: int| found_file(m, rel, items[i]),
        ));
    } else {
        let rest = items.skip(1);
        let one = WalkModel { out: m.out.push(found_file(m, rel, items[0])), ..m };
        assert(!entered(items[0]));
        assert(forall|i: int| 0 <= i < rest.len() ==> rest[i] == items[i + 1]);
        assert(a.step() =~= (WalkModel {
            frames: seq![FrameModel { items: rest, rel, depth }],
            ..one
        })) by {
            assert(a.step().frames =~= seq![FrameModel { items: rest, rel, depth }]);
        }
        lemma_files_found(one, rest, rel, depth);
        assert(m.out + Seq::new(items.len(), |i: int| found_file(m, rel, items[i]))
            =~= one.out + Seq::new(rest.len(), |i: int| found_file(one, rel, rest[i])));
    }
}

/// Every file of a directory is found, in order, once and under its own
/// path, with its place below the walked folder and its size; links to
/// directories count as files.
pub proof fn every_file_of_a_directory_is_found(
    m: WalkModel,
    dir: DirModel,
    items: Seq<ItemModel>,
)
    requires
        m.next == Some(dir),
        m.frames.len() == 0,
        forall|i: int| 0 <= i < items.len() ==> !entered(#[trigger] items[i]),
        m.out.len() + items.len() < SCAN_MAX_FILES,
    ensures
        ({
            let r = m.after(Ok(items));
            &&& r.out == m.out + Seq::new(items.len(), |i: int| found_file(m, dir.rel, items[i]))
            &&& r.next is None
            &&& r.error == m.error
        }),
{
    let a = WalkModel { next: None, ..m };
    lemma_files_found(a, items, dir.rel, dir.depth);
    let frame = FrameModel { items, rel: dir.rel, depth: dir.depth };
    assert(m.frames.push(frame) =~= seq![frame]);
    assert(Seq::new(items.len(), |i: int| found_file(m, dir.rel, items[i])) =~= Seq::new(
        items.len(),
        |i: int| found_file(a, dir.rel, items[i]),
    ));
}

/// A walk after several directories were read.
pub open spec fn walk_ran(m: WalkModel, reads: Seq<Result<Seq<ItemModel>, Seq<char>>>) -> WalkModel
    decreases reads.len(),
{
    if reads.len() == 0 {
        m
    } else {
        walk_ran(m, reads.drop_last()).after(reads.last())
    }
}

/// The file at `path` was found, or is in a directory that is still being
/// gone through.
pub open spec fn accounted(m: WalkModel, path: Seq<char>) -> bool {
    ||| exists|j: int| 0 <= j < m.out.len() && (#[trigger] m.out[j]).abs == path
    ||| exists|f: int, k: int|
        0 <= f < m.frames.len() && 0 <= k < m.frames[f].items.len() && !entered(
            #[trigger] m.frames[f].items[k],
        ) && m.frames[f].items[k].path == path
}

proof fn lemma_step_accounts(m: WalkModel, path: Seq<char>)
    requires
        m.frames.len() > 0,
        m.out.len() < SCAN_MAX_FILES,
        accounted(m, path),
    ensures
        accounted(m.step(), path),
        m.out.len() <= m.step().out.len(),
{
    let s = m.step();
    let last = m.frames.len() - 1;
    let top = m.frames.last();
    if exists|j: int| 0 <= j < m.out.len() && (#[trigger] m.out[j]).abs == path {
        let j = choose|j: int| 0 <= j < m.out.len() && (#[trigger] m.out[j]).abs == path;
        assert(s.out[j] == m.out[j]);
    } else {
        let (f, k) = choose|f: int, k: int|
            0 <= f < m.frames.len() && 0 <= k < m.frames[f].items.len() && !entered(
                #[trigger] m.frames[f].items[k],
            ) && m.frames[f].items[k].path == path;
        if f < last {
            assert(s.frames[f] == m.frames[f]);
            assert(!entered(s.frames[f].items[k]));
        } else if k > 0 {
            assert(s.frames[last].items == top.items.skip(1));
            assert(s.frames[last].items[k - 1] == m.frames[f].items[k]);
            assert(!entered(s.frames[last].items[k - 1]));
        } else {
            assert(s.out.last().abs == path);
        }
    }
}

proof fn lemma_advance_accounts(m: WalkModel, path: Seq<char>)
    requires
        accounted(m, path),
        m.advanced().out.len() < SCAN_MAX_FILES,
    ensures
        accounted(m.advanced(), path),
        m.out.len() <= m.advanced().out.len(),
    decreases weight(m.frames),
{
    lemma_advance_grows(m);
    if !m.rests() {
        lemma_step_shrinks(m);
        lemma_step_accounts(m, path);
        lemma_advance_accounts(m.step(), path);
    }
}

proof fn lemma_advance_grows(m: WalkModel)
    ensures
        m.out.len() <= m.advanced().out.len(),
        m.advanced().rests(),
        m.advanced().error == m.error,
    decreases weight(m.frames),
{
    if !m.rests() {
        lemma_step_shrinks(m);
        lemma_advance_grows(m.step());
    }
}

proof fn lemma_walk_accounts(
    m: WalkModel,
    reads: Seq<Result<Seq<ItemModel>, Seq<char>>>,
    path: Seq<char>,
)
    requires
        accounted(m, path),
        walk_ran(m, reads).error is None,
        walk_ran(m, reads).out.len() < SCAN_MAX_FILES,
        m.error is None,
    ensures
        accounted(walk_ran(m, reads), path),
        m.out.len() <= walk_ran(m, reads).out.len(),
    decreases reads.len(),
{
    if reads.len() > 0 {
        let before = walk_ran(m, reads.drop_last());
        let after = walk_ran(m, reads);
        match (before.next, reads.last()) {
            (Some(dir), Ok(items)) => {
                let frame = FrameModel { items, rel: dir.rel, depth: dir.depth };
                let a = WalkModel { frames: before.frames.push(frame), next: None, ..before };
                lemma_advance_grows(a);
                lemma_walk_accounts(m, reads.drop_last(), path);
                if exists|j: int|
                    0 <= j < before.out.len() && (#[trigger] before.out[j]).abs == path {
                    let j = choose|j: int|
                        0 <= j < before.out.len() && (#[trigger] before.out[j]).abs == path;
                    assert(a.out[j].abs == path);
                } else {
                    let (f, k) = choose|f: int, k: int|
                        0 <= f < before.frames.len() && 0 <= k < before.frames[f].items.len()
                            && !entered(#[trigger] before.frames[f].items[k])
                            && before.frames[f].items[k].path == path;
                    assert(a.frames[f] == before.frames[f]);
                    assert(!entered(a.frames[f].items[k]));
                }
                lemma_advance_accounts(a, path);
            },
            (None, _) => {
                lemma_walk_accounts(m, reads.drop_last(), path);
            },
            (Some(dir), Err(e)) => {},
        }
    }
}

/// No file is lost: over a whole walk that stayed below the limit and hit
/// no error, every file that any directory listed is among the files found.
pub proof fn a_walk_finds_every_file(
    m: WalkModel,
    dir: DirModel,
    items: Seq<ItemModel>,
    k: int,
    reads: Seq<Result<Seq<ItemModel>, Seq<char>>>,
)
    requires
        m.next == Some(dir),
        m.error is None,
        0 <= k < items.len(),
        !entered(items[k]),
        walk_ran(m.after(Ok(items)), reads).error is None,
        walk_ran(m.after(Ok(items)), reads).next is None,
        walk_ran(m.after(Ok(items)), reads).frames.len() == 0,
        walk_ran(m.after(Ok(items)), reads).out.len() < SCAN_MAX_FILES,
    ensures
        exists|j: int|
            0 <= j < walk_ran(m.after(Ok(items)), reads).out.len() && (#[trigger] walk_ran(
                m.after(Ok(items)),
                reads,
            ).out[j]).abs == items[k].path,
{
    let path = items[k].path;
    let frame = FrameModel { items, rel: dir.rel, depth: dir.depth };
    let a = WalkModel { frames: m.frames.push(frame), next: None, ..m };
    let n = m.frames.len() as int;
    assert(a.frames[n].items[k] == items[k]);
    assert(accounted(a, path)) by {
        assert(!entered(a.frames[n].items[k]));
    }
    lemma_advance_grows(a);
    lemma_walk_grows(a.advanced(), reads);
    lemma_advance_accounts(a, path);
    lemma_walk_accounts(a.advanced(), reads, path);
}

proof fn lemma_walk_grows(m: WalkModel, reads: Seq<Result<Seq<ItemModel>, Seq<char>>>)
    ensures
        m.out.len() <= walk_ran(m, reads).out.len(),
    decreases reads.len(),
{
    if reads.len() > 0 {
        let before = walk_ran(m, reads.drop_last());
        lemma_walk_grows(m, reads.drop_last());
        match (before.next, reads.last()) {
            (Some(dir), Ok(items)) => {
                let frame = FrameModel { items, rel: dir.rel, depth: dir.depth };
                lemma_advance_grows(
                    WalkModel { frames: before.frames.push(frame), next: None, ..before },
                );
            },
            _ => {},
        }
    }
}

/// A directory that cannot be read ends the walk with an error that names
/// it, and the walk begins at the folder it was asked for.
pub proof fn an_unreadable_directory_ends_the_walk(
    m: WalkModel,
    dir: DirModel,
    e: Seq<char>,
    root: Seq<char>,
)
    requires
        m.next == Some(dir),
    ensures
        m.remote ==> m.after(Err(e)).error == Some(dir.path + ": "@ + e),
        m.after(Err(e)).error is Some,
        m.after(Err(e)).next is None,
        WalkModel::fresh(m.remote, root).next matches Some(d) && d.path == root && d.rel.len() == 0,
        WalkModel::fresh(m.remote, root).out.len() == 0,
{
}

} // verus!

//! Path texts of both sides: joining, splitting, shortening, and the names
//! that are derived from a destination.

use crate::text::{
    begins, begins_with, cat, cat3, chars_of, ends_in, ends_with, find_last, last_of,
    lemma_last_of, pieces, same, split, starts_char, text_of, trim, trim_end,
    trimmed, trimmed_end,
};
use vstd::prelude::*;
use vstd::string::*;

verus! {

/// `dirs_next::home_dir`: the user's home directory as text.  What comes
/// back depends on the environment and the user database, so nothing is
/// claimed of it.
#[verifier::external_body]
pub(crate) fn home_dir() -> (r: Option<String>) {
    match dirs_next::home_dir() {
        Some(h) => Some(h.to_string_lossy().to_string()),
        None => None,
    }
}

/// `dirs_next::cache_dir`: the user's cache directory as text.  What comes
/// back depends on the environment, so nothing is claimed of it.
#[verifier::external_body]
pub(crate) fn cache_dir() -> (r: Option<String>) {
    match dirs_next::cache_dir() {
        Some(d) => Some(d.to_string_lossy().to_string()),
        None => None,
    }
}

/// `name` inside the directory `dir`, without doubling a slash.
pub open spec fn path_in(dir: Seq<char>, name: Seq<char>) -> Seq<char> {
    if ends_in(dir, '/') {
        dir + name
    } else {
        dir + "/"@ + name
    }
}

/// Join a directory path and a name without duplicating slashes.
pub fn join_path(dir: &str, name: &str) -> (r: String)
    ensures
        r@ == path_in(dir@, name@),
{
    if ends_with(dir, '/') {
        cat(dir, name)
    } else {
        cat3(dir, "/", name)
    }
}

/// Directory above `path`, `/` for the root itself.
pub open spec fn above(path: Seq<char>) -> Seq<char> {
    let t = trim_end(path, '/');
    if last_of(t, '/') <= 0 {
        "/"@
    } else {
        t.take(last_of(t, '/'))
    }
}

/// Parent of a path, `/` for the root itself.
pub fn parent_path(path: &str) -> (r: String)
    ensures
        r@ == above(path@),
{
    let t = trimmed_end(path, '/');
    let v = chars_of(t.as_str());
    let n: usize = v.len();
    proof {
        assert(v@.take(n as int) =~= v@);
    }
    match find_last(&v, n, '/') {
        Some(i) => {
            if i == 0 {
                "/".to_owned()
            } else {
                proof {
                    assert(t@.take(i as int) =~= v@.subrange(0, i as int));
                }
                text_of(&v, 0, i)
            }
        },
        None => "/".to_owned(),
    }
}

/// Going up from an entry of a directory leads back to that directory, for
/// the root and for every directory written without a slash at its end.
pub proof fn parent_undoes_join(dir: Seq<char>, name: Seq<char>)
    requires
        dir == "/"@ || (dir.len() > 0 && !ends_in(dir, '/')),
        name.len() > 0,
        forall|i: int| 0 <= i < name.len() ==> name[i] != '/',
    ensures
        above(path_in(dir, name)) == dir,
{
    reveal_strlit("/");
    let p = path_in(dir, name);
    assert(p.last() == name.last());
    assert(trim_end(p, '/') == p);
    lemma_last_of(p, '/');
    if dir == "/"@ {
        assert(p =~= "/"@ + name);
        assert(p[0] == '/');
        assert forall|i: int| 0 < i < p.len() implies p[i] != '/' by {
            assert(p[i] == name[i - 1]);
        }
        assert(last_of(p, '/') == 0);
    } else {
        assert(p[dir.len() as int] == '/');
        assert forall|i: int| dir.len() < i < p.len() implies p[i] != '/' by {
            assert(p[i] == name[i - dir.len() - 1]);
        }
        assert(last_of(p, '/') == dir.len());
        assert(p.take(dir.len() as int) =~= dir);
    }
}

/// Last part of a path that is not empty; none for a path of slashes.
pub open spec fn base(path: Seq<char>) -> Option<Seq<char>> {
    let t = trim_end(path, '/');
    if t.len() == 0 {
        None
    } else {
        Some(t.skip(last_of(t, '/') + 1))
    }
}

/// Last part of a path that is not empty.
pub fn base_name(path: &str) -> (r: Option<String>)
    ensures
        r is Some <==> base(path@) is Some,
        r matches Some(name) ==> base(path@) == Some(name@),
{
    let t = trimmed_end(path, '/');
    let v = chars_of(t.as_str());
    let n: usize = v.len();
    if n == 0 {
        return None;
    }
    proof {
        assert(v@.take(n as int) =~= v@);
        lemma_last_of(t@, '/');
    }
    let from: usize = match find_last(&v, n, '/') {
        Some(i) => i + 1,
        None => 0,
    };
    proof {
        assert(t@.skip(from as int) =~= v@.subrange(from as int, n as int));
    }
    Some(text_of(&v, from, n))
}

/// The base name of an entry of a directory is the entry's name.
pub proof fn base_of_join(dir: Seq<char>, name: Seq<char>)
    requires
        name.len() > 0,
        forall|i: int| 0 <= i < name.len() ==> name[i] != '/',
    ensures
        base(path_in(dir, name)) == Some(name),
{
    reveal_strlit("/");
    let p = path_in(dir, name);
    let k = p.len() - name.len();
    assert(p.last() == name.last());
    lemma_last_of(p, '/');
    assert forall|i: int| k <= i < p.len() implies p[i] != '/' by {
        assert(p[i] == name[i - k]);
    }
    assert(p[k - 1] == '/');
    assert(last_of(p, '/') == k - 1);
    assert(p.skip(k) =~= name);
}

/// What a path is shortened to for a title of `width` characters, in the
/// account whose home directory is `home`.
pub open spec fn shortened(path: Seq<char>, home: Seq<char>, width: nat) -> Seq<char> {
    let display = if home.len() > 0 && begins(path, home) {
        "~"@ + path.skip(home.len() as int)
    } else {
        path
    };
    let parts = pieces(display, '/');
    let n = parts.len() as int;
    let head = parts[0] + "/…"@;
    let tail = parts[n - 3] + "/"@ + parts[n - 2] + "/"@ + parts[n - 1];
    if path.len() <= width {
        path
    } else if display.len() <= width || n <= 4 {
        display
    } else if head.len() + tail.len() < width {
        head + "/"@ + tail
    } else {
        head
    }
}

/// Compact a path for a pane title: the home directory becomes a tilde, and
/// the first component and the last three are kept when the middle would
/// overflow `max_width`.
pub fn shorten_path_from(home: &str, path: &str, max_width: usize) -> (r: String)
    ensures
        r@ == shortened(path@, home@, max_width as nat),
{
    let v = chars_of(path);
    if v.len() <= max_width {
        return path.to_owned();
    }
    let h = chars_of(home);
    let n: usize = v.len();
    let display = if h.len() > 0 && begins_with(path, home) {
        let rest = text_of(&v, h.len(), n);
        proof {
            assert(path@.skip(home@.len() as int) =~= v@.subrange(home@.len() as int, n as int));
        }
        cat("~", rest.as_str())
    } else {
        path.to_owned()
    };
    let shown = chars_of(display.as_str());
    if shown.len() <= max_width {
        return display;
    }
    let parts = split(display.as_str(), '/');
    let k: usize = parts.len();
    let ghost ps = pieces(display@, '/');
    proof {
        assert(ps.len() == k);
        assert(forall|i: int| 0 <= i < k ==> ps[i] == parts@[i]@);
    }
    if k <= 4 {
        return display;
    }
    let mut tail = cat3(parts[k - 3].as_str(), "/", parts[k - 2].as_str());
    tail.append("/");
    tail.append(parts[k - 1].as_str());
    let head = cat(parts[0].as_str(), "/…");
    let a = chars_of(head.as_str());
    let b = chars_of(tail.as_str());
    if a.len() < max_width && b.len() < max_width - a.len() {
        cat3(head.as_str(), "/", tail.as_str())
    } else {
        head
    }
}

/// [shorten_path_from] with the home directory of the running account.
pub fn shorten_path(path: &str, max_width: usize) -> (r: String)
    ensures
        exists|home: Seq<char>| r@ == #[trigger] shortened(path@, home, max_width as nat),
        path@.len() <= max_width ==> r@ == path@,
{
    let home = match home_dir() {
        Some(h) => h,
        None => String::new(),
    };
    shorten_path_from(home.as_str(), path, max_width)
}

/// Directory that typing `typed` in `cwd` leads to; none for empty input,
/// and none for a tilde while the home directory is unknown.
pub open spec fn jump(home: Option<Seq<char>>, cwd: Seq<char>, typed: Seq<char>) -> Option<
    Seq<char>,
> {
    let t = trim(typed);
    if t.len() == 0 {
        None
    } else if t == "~"@ || begins(t, "~/"@) {
        match home {
            Some(h) => Some(h + t.skip(1)),
            None => None,
        }
    } else if t[0] == '/' {
        Some(t)
    } else if t == "."@ {
        Some(cwd)
    } else if t == ".."@ {
        Some(above(cwd))
    } else {
        Some(path_in(cwd, t))
    }
}

/// A typed directory is understood as a shell would: an absolute path as it
/// is, a tilde as the home directory, dots as the directory shown and the
/// one above, anything else below the directory shown; nothing typed leads
/// nowhere.
pub proof fn typed_directories_are_understood(
    home: Option<Seq<char>>,
    cwd: Seq<char>,
    typed: Seq<char>,
)
    ensures
        ({
            let t = trim(typed);
            let r = jump(home, cwd, typed);
            &&& t.len() == 0 ==> r is None
            &&& t.len() > 0 && t[0] == '/' ==> r == Some(t)
            &&& t == seq!['.'] ==> r == Some(cwd)
            &&& t == seq!['.', '.'] ==> r == Some(above(cwd))
            &&& t == seq!['~'] ==> r == home
            &&& t.len() > 1 && t[0] == '~' && t[1] == '/' ==> match home {
                Some(h) => r is Some && r->0 == h + t.skip(1),
                None => r is None,
            }
            &&& t.len() > 0 && t[0] != '/' && t[0] != '.' && t[0] != '~' ==> r == Some(
                path_in(cwd, t),
            )
        }),
{
    reveal_strlit("~");
    reveal_strlit("~/");
    reveal_strlit(".");
    reveal_strlit("..");
    let t = trim(typed);
    assert("~"@ =~= seq!['~']);
    assert("."@ =~= seq!['.']);
    assert(".."@ =~= seq!['.', '.']);
    if begins(t, "~/"@) {
        assert(t.take(2)[0] == t[0] && t.take(2)[1] == t[1]);
    }
    if t.len() > 1 && t[0] == '~' && t[1] == '/' {
        assert(t.take(2) =~= "~/"@);
    }
    if t == seq!['~'] && home is Some {
        assert(home->0 + t.skip(1) =~= home->0);
    }
}

/// The characters of a text that may be missing.
pub open spec fn opt(s: Option<String>) -> Option<Seq<char>> {
    match s {
        Some(t) => Some(t@),
        None => None,
    }
}

/// Directory a typed jump lands in, or None for empty input.  Supports
/// absolute paths, `~`, `.`/`..` and plain relative names.
pub fn jump_target_from(home: Option<String>, cwd: &str, typed: &str) -> (r: Option<String>)
    ensures
        opt(r) == jump(opt(home), cwd@, typed@),
{
    let t = trimmed(typed);
    let v = chars_of(t.as_str());
    let n: usize = v.len();
    if n == 0 {
        return None;
    }
    if same(t.as_str(), "~") || begins_with(t.as_str(), "~/") {
        proof {
            reveal_strlit("~");
            reveal_strlit("~/");
            assert(t@.skip(1) =~= v@.subrange(1, n as int));
        }
        let rest = text_of(&v, 1, n);
        return match home {
            Some(h) => Some(cat(h.as_str(), rest.as_str())),
            None => None,
        };
    }
    if v[0] == '/' {
        return Some(t);
    }
    if same(t.as_str(), ".") {
        return Some(cwd.to_owned());
    }
    if same(t.as_str(), "..") {
        return Some(parent_path(cwd));
    }
    Some(join_path(cwd, t.as_str()))
}

/// [jump_target_from] with the home directory of the running account.
pub fn jump_target(cwd: &str, typed: &str) -> (r: Option<String>)
    ensures
        exists|home: Option<Seq<char>>| opt(r) == #[trigger] jump(home, cwd@, typed@),
{
    let home = home_dir();
    let ghost h = opt(home);
    let r = jump_target_from(home, cwd, typed);
    proof {
        assert(opt(r) == jump(h, cwd@, typed@));
    }
    r
}

/// Characters before the first component that can be taken off: the root
/// slash, or a `.` that stands alone or before a slash.
pub open spec fn anchor(p: Seq<char>) -> int {
    if p.len() > 0 && p[0] == '/' {
        1
    } else if p.len() > 0 && p[0] == '.' && (p.len() == 1 || p[1] == '/') {
        1
    } else {
        0
    }
}

/// Start of the last component of `p[..n]`.
pub open spec fn segment(p: Seq<char>, n: int) -> int {
    let i = last_of(p.take(n), '/');
    if i < anchor(p) {
        anchor(p)
    } else {
        i + 1
    }
}

/// The last component of `p[..n]` is empty or a lone dot.
pub open spec fn hollow(p: Seq<char>, n: int) -> bool {
    let s = p.subrange(segment(p, n), n);
    s.len() == 0 || s == "."@
}

/// Where `p[..n]` ends without its last component and the slash before it.
pub open spec fn cut(p: Seq<char>, n: int) -> int {
    let i = last_of(p.take(n), '/');
    if i < anchor(p) {
        anchor(p)
    } else {
        i
    }
}

proof fn lemma_cut(p: Seq<char>, n: int)
    requires
        anchor(p) < n <= p.len(),
    ensures
        anchor(p) <= cut(p, n) < n,
        cut(p, n) <= segment(p, n) <= n,
        forall|i: int| segment(p, n) <= i < n ==> p[i] != '/',
{
    lemma_last_of(p.take(n), '/');
    assert forall|i: int| segment(p, n) <= i < n implies p[i] != '/' by {
        assert(p.take(n)[i] != '/');
    }
}

/// Length of `p[..n]` without hollow components at its end.
pub open spec fn solid(p: Seq<char>, n: int) -> int
    decreases n,
{
    if anchor(p) < n <= p.len() && cut(p, n) < n && cut(p, n) >= 0 && hollow(p, n) {
        solid(p, cut(p, n))
    } else {
        n
    }
}

/// Last component of a path, unless that is the root, a lone `.` or `..`.
pub open spec fn file_name_of(p: Seq<char>) -> Option<Seq<char>> {
    let n = solid(p, p.len() as int);
    let s = p.subrange(segment(p, n), n);
    if n <= anchor(p) || s == ".."@ {
        None
    } else {
        Some(s)
    }
}

/// A path without its last component.
pub open spec fn dir_of(p: Seq<char>) -> Seq<char> {
    let n = solid(p, p.len() as int);
    p.take(solid(p, cut(p, n)))
}

proof fn lemma_solid(p: Seq<char>, n: int)
    requires
        anchor(p) <= n <= p.len(),
    ensures
        anchor(p) <= solid(p, n) <= n,
        solid(p, n) == anchor(p) || !hollow(p, solid(p, n)),
    decreases n,
{
    if anchor(p) < n {
        lemma_cut(p, n);
        if hollow(p, n) {
            lemma_solid(p, cut(p, n));
        }
    }
}

fn anchor_len(v: &Vec<char>) -> (r: usize)
    ensures
        r == anchor(v@),
        r <= v@.len(),
{
    if v.len() > 0 && v[0] == '/' {
        1
    } else if v.len() > 0 && v[0] == '.' && (v.len() == 1 || v[1] == '/') {
        1
    } else {
        0
    }
}

fn segment_start(v: &Vec<char>, n: usize) -> (r: usize)
    requires
        anchor(v@) < n <= v@.len(),
    ensures
        r == segment(v@, n as int),
        r <= n,
{
    proof {
        lemma_cut(v@, n as int);
    }
    let a = anchor_len(v);
    match find_last(v, n, '/') {
        Some(i) => if i < a {
            a
        } else {
            i + 1
        },
        None => a,
    }
}

fn cut_len(v: &Vec<char>, n: usize) -> (r: usize)
    requires
        anchor(v@) < n <= v@.len(),
    ensures
        r == cut(v@, n as int),
        anchor(v@) <= r < n,
{
    proof {
        lemma_cut(v@, n as int);
    }
    let a = anchor_len(v);
    match find_last(v, n, '/') {
        Some(i) => if i < a {
            a
        } else {
            i
        },
        None => a,
    }
}

fn solid_len(v: &Vec<char>, from: usize) -> (r: usize)
    requires
        anchor(v@) <= from <= v@.len(),
    ensures
        r == solid(v@, from as int),
        anchor(v@) <= r <= from,
{
    let a = anchor_len(v);
    let mut n: usize = from;
    while n > a
        invariant
            a == anchor(v@),
            a <= n <= from <= v@.len(),
            solid(v@, from as int) == solid(v@, n as int),
        ensures
            n == solid(v@, from as int),
            a <= n <= from,
        decreases n,
    {
        let s = segment_start(v, n);
        let ghost part = v@.subrange(s as int, n as int);
        proof {
            reveal_strlit(".");
            lemma_cut(v@, n as int);
            if part.len() == 1 && part[0] == '.' {
                assert(part =~= "."@);
            }
        }
        if s == n || (n - s == 1 && v[s] == '.') {
            n = cut_len(v, n);
        } else {
            break;
        }
    }
    n
}

/// Last component of a path, unless that is the root, a lone `.` or `..`.
pub fn file_name(path: &str) -> (r: Option<String>)
    ensures
        opt(r) == file_name_of(path@),
{
    let v = chars_of(path);
    let len: usize = v.len();
    let a = anchor_len(&v);
    let n = solid_len(&v, len);
    if n <= a {
        return None;
    }
    let s = segment_start(&v, n);
    let name = text_of(&v, s, n);
    if same(name.as_str(), "..") {
        return None;
    }
    Some(name)
}

/// Directory that holds a path: the root and the empty path have none.
pub open spec fn parent_of(p: Seq<char>) -> Option<Seq<char>> {
    if solid(p, p.len() as int) > anchor(p) {
        Some(dir_of(p))
    } else if p.len() == 0 || p[0] == '/' {
        None
    } else {
        Some(Seq::empty())
    }
}

/// Directory that holds a path: the root and the empty path have none.
pub fn parent_dir(path: &str) -> (r: Option<String>)
    ensures
        opt(r) == parent_of(path@),
{
    let v = chars_of(path);
    let len: usize = v.len();
    let a = anchor_len(&v);
    let n = solid_len(&v, len);
    if n > a {
        let c = cut_len(&v, n);
        let m = solid_len(&v, c);
        let dir = text_of(&v, 0, m);
        proof {
            assert(path@.take(m as int) =~= v@.subrange(0, m as int));
        }
        Some(dir)
    } else if len == 0 || v[0] == '/' {
        None
    } else {
        let dir = text_of(&v, 0, 0);
        proof {
            assert(dir@ =~= Seq::empty());
        }
        Some(dir)
    }
}

/// `name` appended to a path the way path buffers do: an absolute name
/// replaces the path, and an empty path takes no slash.
pub open spec fn pushed(dir: Seq<char>, name: Seq<char>) -> Seq<char> {
    if name.len() > 0 && name[0] == '/' {
        name
    } else if dir.len() == 0 || dir.last() == '/' {
        dir + name
    } else {
        dir + "/"@ + name
    }
}

/// `name` appended to a path the way path buffers do.
pub fn push_path(dir: &str, name: &str) -> (r: String)
    ensures
        r@ == pushed(dir@, name@),
{
    if starts_char(name, '/') {
        name.to_owned()
    } else if dir.is_empty() || ends_with(dir, '/') {
        cat(dir, name)
    } else {
        cat3(dir, "/", name)
    }
}

/// Name of the in-progress file for a file called `name`.
pub open spec fn part_name(name: Seq<char>) -> Seq<char> {
    ".kaku-part."@ + name
}

/// The part file next to `dest`, if `dest` names a file.
pub open spec fn sibling_part(dest: Seq<char>) -> Option<Seq<char>> {
    match file_name_of(dest) {
        Some(name) => Some(pushed(dir_of(dest), part_name(name))),
        None => None,
    }
}

/// The part file next to `dest`, if `dest` names a file.
fn part_beside(dest: &str) -> (r: Option<String>)
    ensures
        opt(r) == sibling_part(dest@),
{
    let v = chars_of(dest);
    let len: usize = v.len();
    let a = anchor_len(&v);
    let n = solid_len(&v, len);
    if n <= a {
        return None;
    }
    let s = segment_start(&v, n);
    let name = text_of(&v, s, n);
    if same(name.as_str(), "..") {
        return None;
    }
    let c = cut_len(&v, n);
    let m = solid_len(&v, c);
    let dir = text_of(&v, 0, m);
    proof {
        assert(dest@.take(m as int) =~= v@.subrange(0, m as int));
    }
    let part = cat(".kaku-part.", name.as_str());
    Some(push_path(dir.as_str(), part.as_str()))
}

/// Remote part file for `dest`.
pub open spec fn remote_part_spec(dest: Seq<char>) -> Seq<char> {
    match sibling_part(dest) {
        Some(p) => p,
        None => part_name(dest),
    }
}

/// Remote part file for `dest`, next to it so a rename is a real rename.
/// Transfers write here and publish onto the destination only once every
/// byte is in place; the leading dot keeps part files out of listings.
pub fn remote_part(dest: &str) -> (r: String)
    ensures
        r@ == remote_part_spec(dest@),
{
    match part_beside(dest) {
        Some(p) => p,
        None => cat(".kaku-part.", dest),
    }
}

/// Local part file for `dest`; a path that names no file stands for itself.
pub open spec fn local_part_spec(dest: Seq<char>) -> Seq<char> {
    match sibling_part(dest) {
        Some(p) => p,
        None => dest,
    }
}

/// Local part file for `dest`.
pub fn local_part(dest: &str) -> (r: String)
    ensures
        r@ == local_part_spec(dest@),
{
    match part_beside(dest) {
        Some(p) => p,
        None => dest.to_owned(),
    }
}

/// Cutting a component off only looks at the characters before it.
proof fn lemma_cut_local(p: Seq<char>, q: Seq<char>, n: int)
    requires
        anchor(p) == anchor(q),
        anchor(p) < n <= p.len(),
        n <= q.len(),
        p.take(n) == q.take(n),
    ensures
        cut(p, n) == cut(q, n),
        segment(p, n) == segment(q, n),
        hollow(p, n) == hollow(q, n),
{
    lemma_cut(p, n);
    assert(p.subrange(segment(p, n), n) =~= p.take(n).subrange(segment(p, n), n));
    assert(q.subrange(segment(p, n), n) =~= q.take(n).subrange(segment(p, n), n));
}

proof fn lemma_solid_local(p: Seq<char>, q: Seq<char>, n: int)
    requires
        anchor(p) == anchor(q),
        anchor(p) <= n <= p.len(),
        n <= q.len(),
        p.take(n) == q.take(n),
    ensures
        solid(p, n) == solid(q, n),
    decreases n,
{
    if anchor(p) < n {
        lemma_cut(p, n);
        lemma_cut(q, n);
        lemma_cut_local(p, q, n);
        if hollow(p, n) {
            let c = cut(p, n);
            assert(p.take(c) =~= p.take(n).take(c));
            assert(q.take(c) =~= q.take(n).take(c));
            lemma_solid_local(p, q, c);
        }
    }
}

/// A part file sits next to its destination: it has the destination's
/// directory and the destination's name behind the part prefix.
pub proof fn part_sits_beside_destination(dest: Seq<char>)
    requires
        file_name_of(dest) is Some,
    ensures
        file_name_of(remote_part_spec(dest)) == Some(part_name(file_name_of(dest)->0)),
        file_name_of(remote_part_spec(dest)) == Some(".kaku-part."@ + file_name_of(dest)->0),
        dir_of(remote_part_spec(dest)) == dir_of(dest),
        local_part_spec(dest) == remote_part_spec(dest),
        remote_part_spec(dest) != dest,
{
    reveal_strlit(".kaku-part.");
    reveal_strlit("/");
    reveal_strlit(".");
    reveal_strlit("..");
    let len = dest.len() as int;
    lemma_solid(dest, len);
    let n = solid(dest, len);
    lemma_cut(dest, n);
    let c = cut(dest, n);
    lemma_solid(dest, c);
    let m = solid(dest, c);
    let d = dest.take(m);
    let name = dest.subrange(segment(dest, n), n);
    let pn = part_name(name);
    let q = pushed(d, pn);
    assert(q == remote_part_spec(dest));
    assert(pn[0] == '.');
    assert(pn[1] == 'k');
    assert forall|i: int| 0 <= i < pn.len() implies pn[i] != '/' by {
        if i >= 11 {
            assert(pn[i] == name[i - 11]);
            assert(name[i - 11] == dest[segment(dest, n) + i - 11]);
        }
    }
    let k = q.len() - pn.len();
    assert(forall|i: int| 0 <= i < pn.len() ==> q[k + i] == pn[i]);
    assert(q.take(m) =~= d);
    // The anchor survives.
    if m == 0 {
        assert(anchor(dest) == 0);
        assert(q =~= pn);
        assert(anchor(q) == 0);
    } else {
        assert(q[0] == dest[0]);
        if m == 1 {
            if dest[0] == '/' {
                assert(d.last() == '/');
                assert(anchor(q) == 1);
            } else {
                assert(d.last() == dest[0]);
                assert(q[1] == '/');
                if dest[0] == '.' {
                    if anchor(dest) == 0 {
                        // A lone dot before the anchor cannot survive.
                        lemma_cut(dest, 1);
                        assert(dest.take(1) =~= seq![dest[0]]);
                        lemma_last_of(dest.take(1), '/');
                        assert(segment(dest, 1) == 0);
                        assert(dest.subrange(0, 1) =~= "."@);
                        assert(hollow(dest, 1));
                    }
                }
            }
        } else {
            assert(q[1] == dest[1]);
        }
        assert(anchor(q) == anchor(dest));
    }
    let a = anchor(q);
    let end = q.len() as int;
    lemma_last_of(q.take(end), '/');
    assert(q.take(end) =~= q);
    assert(a <= k);
    // The last slash of the part path stands right before the part name.
    assert forall|i: int| k <= i < end implies q[i] != '/' by {
        assert(q[i] == pn[i - k]);
    }
    if k > 0 {
        assert(q[k - 1] == '/');
        assert(last_of(q, '/') == k - 1);
    } else {
        assert(last_of(q, '/') == -1);
    }
    assert(segment(q, end) == k);
    assert(q.subrange(k, end) =~= pn);
    assert(!hollow(q, end));
    assert(solid(q, end) == end);
    assert(pn != ".."@);
    assert(file_name_of(q) == Some(pn));
    // Cutting the part name off leads to the directory again.
    let c2 = cut(q, end);
    lemma_cut(q, end);
    assert(c2 == m || (c2 == m - 1 && d.last() == '/'));
    assert(d.take(m) =~= d);
    assert(dest.take(m) =~= q.take(m));
    if m > a {
        assert(!hollow(dest, m));
        lemma_cut(dest, m);
        if d.last() == '/' {
            lemma_last_of(dest.take(m), '/');
            assert(dest.take(m).last() == '/');
            assert(segment(dest, m) == m);
        }
        assert(c2 == m);
        lemma_solid_local(dest, q, m);
    } else {
        assert(c2 == m);
    }
    assert(solid(q, c2) == m);
    assert(dir_of(q) =~= d);
    if q == dest {
        assert(pn.len() == name.len() + 11);
    }
}

} // verus!

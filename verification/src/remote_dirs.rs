//! Directories that have to exist before a remote file can be written.

use crate::text::{ends_in, ends_with, pieces, same, split, starts_char, texts};
use crate::transfer::{ManagerModel, TransferManager};
use vstd::prelude::*;
use vstd::string::*;

verus! {

/// A path segment that names something: neither empty nor a lone dot.
pub open spec fn named(s: Seq<char>) -> bool {
    s.len() > 0 && s != "."@
}

/// The components of a path: the root or a leading dot, then every named
/// segment.
pub open spec fn components(path: Seq<char>) -> Seq<Seq<char>> {
    let rest = pieces(path, '/').filter(|s: Seq<char>| named(s));
    if path.len() > 0 && path[0] == '/' {
        seq!["/"@] + rest
    } else if pieces(path, '/')[0] == "."@ {
        seq!["."@] + rest
    } else {
        rest
    }
}

/// The components of a path.
pub fn split_components(path: &str) -> (r: Vec<String>)
    ensures
        texts(r@) == components(path@),
{
    let ghost f = |s: Seq<char>| named(s);
    let parts = split(path, '/');
    let ghost all = pieces(path@, '/');
    let mut out: Vec<String> = Vec::new();
    proof {
        assert(texts(parts@)[0] == parts@[0]@);
    }
    if starts_char(path, '/') {
        out.push("/".to_owned());
    } else if same(parts[0].as_str(), ".") {
        out.push(".".to_owned());
    }
    let ghost lead = texts(out@);
    let mut i: usize = 0;
    proof {
        reveal(Seq::filter);
        assert(all.take(0).filter(f) =~= Seq::<Seq<char>>::empty());
        assert(texts(out@) =~= lead + all.take(0).filter(f));
    }
    while i < parts.len()
        invariant
            i <= parts@.len(),
            texts(parts@) == all,
            f == (|s: Seq<char>| named(s)),
            texts(out@) == lead + all.take(i as int).filter(f),
        decreases parts@.len() - i,
    {
        let ghost before = texts(out@);
        proof {
            reveal(Seq::filter);
            assert(all[i as int] == parts@[i as int]@);
            assert(all.take(i + 1).drop_last() =~= all.take(i as int));
        }
        if !parts[i].as_str().is_empty() && !same(parts[i].as_str(), ".") {
            out.push(parts[i].clone());
            proof {
                assert(texts(out@) =~= before.push(all[i as int]));
                assert(texts(out@) =~= lead + all.take(i + 1).filter(f));
            }
        }
        i += 1;
    }
    proof {
        assert(all.take(i as int) =~= all);
        if path@.len() > 0 && path@[0] == '/' {
            assert(lead =~= seq!["/"@]);
        } else if all[0] == "."@ {
            assert(lead =~= seq!["."@]);
        } else {
            assert(lead =~= Seq::<Seq<char>>::empty());
            assert(lead + all.filter(f) =~= all.filter(f));
        }
    }
    out
}

/// A path prefix with one more component; a relative path stays relative.
pub open spec fn grown(prefix: Seq<char>, comp: Seq<char>) -> Seq<char> {
    if prefix.len() == 0 || ends_in(prefix, '/') {
        prefix + comp
    } else {
        prefix.push('/') + comp
    }
}

/// The path of the first `n` components.
pub open spec fn path_to(comps: Seq<Seq<char>>, n: int) -> Seq<char>
    decreases n,
{
    if n <= 0 {
        Seq::empty()
    } else {
        grown(path_to(comps, n - 1), comps[n - 1])
    }
}

/// A component that is always there: the root, or the directory that
/// relative paths start from.
pub open spec fn given(comp: Seq<char>) -> bool {
    comp == "/"@ || comp == "."@
}

/// What the walk down a path has come to: the directories known to exist,
/// and those to be made, in order.
pub struct Walk {
    pub known: Set<Seq<char>>,
    pub make: Seq<Seq<char>>,
}

/// The walk past the directory `prefix`, whose last component is `comp`.
pub open spec fn stepped(w: Walk, prefix: Seq<char>, comp: Seq<char>) -> Walk {
    if given(comp) || w.known.contains(prefix) {
        w
    } else {
        Walk { known: w.known.insert(prefix), make: w.make.push(prefix) }
    }
}

/// The walk down the first `n` components.
pub open spec fn walked(known: Set<Seq<char>>, comps: Seq<Seq<char>>, n: int) -> Walk
    decreases n,
{
    if n <= 0 {
        Walk { known, make: Seq::empty() }
    } else {
        stepped(walked(known, comps, n - 1), path_to(comps, n), comps[n - 1])
    }
}

/// The walk down to the directory of `remote`: the last component is the
/// file itself.
pub open spec fn walk(known: Set<Seq<char>>, remote: Seq<char>) -> Walk {
    walked(known, components(remote), components(remote).len() - 1)
}

impl TransferManager {
    /// Directories to create before `remote` can be written, outermost
    /// first.  The final component is the file itself, created by the
    /// writer; only ancestors get directories.  What was handed out once is
    /// remembered, so recursive uploads do not pay a round-trip per file.
    pub fn missing_parents(&mut self, remote: &str) -> (r: Vec<String>)
        ensures
            texts(r@) == walk(old(self)@.created_dirs, remote@).make,
            final(self)@ == (ManagerModel {
                created_dirs: walk(old(self)@.created_dirs, remote@).known,
                ..old(self)@
            }),
    {
        let ghost start = self@;
        let comps = split_components(remote);
        let ghost cs = components(remote@);
        let mut prefix = String::new();
        let mut make: Vec<String> = Vec::new();
        let mut i: usize = 0;
        let n: usize = comps.len();
        proof {
            assert(texts(make@) =~= Seq::<Seq<char>>::empty());
            assert(prefix@ =~= Seq::<char>::empty());
        }
        while i < n && i + 1 < n
            invariant
                n == comps@.len(),
                i <= n,
                n > 0 ==> i <= n - 1,
                texts(comps@) == cs,
                self@ == (ManagerModel { created_dirs: self.created_dirs@, ..start }),
                prefix@ == path_to(cs, i as int),
                (Walk { known: self.created_dirs@, make: texts(make@) }) == walked(
                    start.created_dirs,
                    cs,
                    i as int,
                ),
            decreases n - i,
        {
            let ghost w = walked(start.created_dirs, cs, i as int);
            proof {
                assert(cs[i as int] == comps@[i as int]@);
            }
            if !prefix.as_str().is_empty() && !ends_with(prefix.as_str(), '/') {
                prefix.push('/');
            }
            prefix.append(comps[i].as_str());
            proof {
                assert(prefix@ =~= path_to(cs, i + 1));
            }
            let comp = comps[i].as_str();
            if !same(comp, "/") && !same(comp, ".") && !self.created_dirs.contains(
                prefix.as_str(),
            ) {
                make.push(prefix.clone());
                proof {
                    assert(texts(make@) =~= w.make.push(prefix@));
                }
                self.created_dirs.insert(prefix.clone());
            }
            i += 1;
        }
        proof {
            if n == 0 {
                assert(walked(start.created_dirs, cs, -1) == walked(start.created_dirs, cs, 0));
            }
        }
        make
    }
}

proof fn lemma_walked(known: Set<Seq<char>>, comps: Seq<Seq<char>>, n: int, k: int)
    requires
        0 <= k <= n <= comps.len(),
    ensures
        known.subset_of(walked(known, comps, n).known),
        walked(known, comps, k).known.subset_of(walked(known, comps, n).known),
        walked(known, comps, k).make.len() <= walked(known, comps, n).make.len(),
        walked(known, comps, k).make == walked(known, comps, n).make.take(
            walked(known, comps, k).make.len() as int,
        ),
    decreases n,
{
    if n > 0 {
        if k < n {
            lemma_walked(known, comps, n - 1, k);
        } else {
            lemma_walked(known, comps, n - 1, n - 1);
        }
        let a = walked(known, comps, k).make;
        assert(a =~= walked(known, comps, n).make.take(a.len() as int));
    } else {
        let a = walked(known, comps, 0).make;
        assert(a =~= a.take(a.len() as int));
    }
}

/// Every ancestor of a remote file exists once the directories handed out
/// were made: each directory on the way is then known, and one that was not
/// known before was handed out.
pub proof fn every_parent_is_made(known: Set<Seq<char>>, remote: Seq<char>, k: int)
    requires
        0 < k < components(remote).len(),
        !given(components(remote)[k - 1]),
    ensures
        ({
            let dir = path_to(components(remote), k);
            &&& walk(known, remote).known.contains(dir)
            &&& known.contains(dir) || walk(known, remote).make.contains(dir)
        }),
{
    let comps = components(remote);
    let n = comps.len() - 1;
    let dir = path_to(comps, k);
    lemma_walked(known, comps, n, k);
    let now = walked(known, comps, k);
    assert(now == stepped(walked(known, comps, k - 1), dir, comps[k - 1]));
    assert(now.known.contains(dir));
    lemma_known_or_made(known, comps, k);
    let m = walk(known, remote).make;
    if now.make.contains(dir) {
        let i = choose|i: int| 0 <= i < now.make.len() && now.make[i] == dir;
        assert(m[i] == m.take(now.make.len() as int)[i]);
        assert(m.contains(dir));
    }
}

/// What the walk has come to know was known before or was handed out.
proof fn lemma_known_or_made(known: Set<Seq<char>>, comps: Seq<Seq<char>>, n: int)
    requires
        0 <= n <= comps.len(),
    ensures
        forall|p: Seq<char>| #[trigger]
            walked(known, comps, n).known.contains(p) ==> known.contains(p) || walked(
                known,
                comps,
                n,
            ).make.contains(p),
    decreases n,
{
    if n > 0 {
        lemma_known_or_made(known, comps, n - 1);
        let a = walked(known, comps, n - 1);
        let b = walked(known, comps, n);
        assert forall|p: Seq<char>| #[trigger] b.known.contains(p) implies known.contains(p)
            || b.make.contains(p) by {
            if a.known.contains(p) {
                if a.make.contains(p) {
                    let i = choose|i: int| 0 <= i < a.make.len() && a.make[i] == p;
                    assert(b.make[i] == p);
                }
            } else {
                assert(b.make[b.make.len() - 1] == p);
            }
        }
    }
}

proof fn lemma_path_grows(comps: Seq<Seq<char>>, k: int, n: int)
    requires
        0 <= k < n <= comps.len(),
        forall|i: int| 0 <= i < comps.len() ==> (#[trigger] comps[i]).len() > 0,
    ensures
        path_to(comps, k).len() < path_to(comps, n).len(),
    decreases n,
{
    assert(comps[n - 1].len() > 0);
    if k < n - 1 {
        lemma_path_grows(comps, k, n - 1);
    }
}

proof fn lemma_components_named(remote: Seq<char>)
    ensures
        forall|i: int|
            0 <= i < components(remote).len() ==> (#[trigger] components(remote)[i]).len() > 0,
{
    let f = |s: Seq<char>| named(s);
    let rest = pieces(remote, '/').filter(f);
    reveal_strlit("/");
    reveal_strlit(".");
    assert forall|i: int| 0 <= i < components(remote).len() implies (#[trigger] components(
        remote,
    )[i]).len() > 0 by {
        let lead = components(remote).len() - rest.len();
        if i >= lead {
            assert(components(remote)[i] == rest[i - lead]);
            pieces(remote, '/').lemma_filter_pred(f, i - lead);
        }
    }
}

proof fn lemma_made_on_the_way(known: Set<Seq<char>>, comps: Seq<Seq<char>>, n: int, i: int)
    requires
        0 <= n <= comps.len(),
        0 <= i < walked(known, comps, n).make.len(),
    ensures
        exists|k: int|
            0 < k <= n && walked(known, comps, n).make[i] == #[trigger] path_to(comps, k)
                && !given(comps[k - 1]),
    decreases n,
{
    let a = walked(known, comps, n - 1).make;
    if i < a.len() {
        lemma_made_on_the_way(known, comps, n - 1, i);
        assert(walked(known, comps, n).make[i] == a[i]);
        let k = choose|k: int|
            0 < k <= n - 1 && a[i] == #[trigger] path_to(comps, k) && !given(comps[k - 1]);
        assert(walked(known, comps, n).make[i] == path_to(comps, k));
    } else {
        assert(walked(known, comps, n).make[i] == path_to(comps, n));
    }
}

/// Only ancestors get directories: whatever is handed out is a directory on
/// the way to the file, and never the file itself.
pub proof fn only_ancestors_are_made(known: Set<Seq<char>>, remote: Seq<char>, i: int)
    requires
        0 <= i < walk(known, remote).make.len(),
    ensures
        ({
            let comps = components(remote);
            let dir = walk(known, remote).make[i];
            &&& exists|k: int|
                0 < k < comps.len() && dir == #[trigger] path_to(comps, k) && !given(comps[k - 1])
            &&& dir != path_to(comps, comps.len() as int)
        }),
{
    let comps = components(remote);
    let n = comps.len() - 1;
    if n < 0 {
        assert(walked(known, comps, n).make.len() == 0);
    }
    lemma_made_on_the_way(known, comps, n, i);
    lemma_components_named(remote);
    let k = choose|k: int|
        0 < k <= n && walk(known, remote).make[i] == #[trigger] path_to(comps, k) && !given(
            comps[k - 1],
        );
    lemma_path_grows(comps, k, comps.len() as int);
}

proof fn lemma_nothing_new(known: Set<Seq<char>>, remote: Seq<char>, n: int)
    requires
        0 <= n < components(remote).len(),
    ensures
        walked(walk(known, remote).known, components(remote), n).make.len() == 0,
        walked(walk(known, remote).known, components(remote), n).known == walk(
            known,
            remote,
        ).known,
    decreases n,
{
    if n > 0 {
        lemma_nothing_new(known, remote, n - 1);
        if !given(components(remote)[n - 1]) {
            every_parent_is_made(known, remote, n);
        }
    }
}

/// Nothing is made twice: once a file's directories were handed out, the
/// next file at the same path needs none.
pub proof fn parents_are_made_once(known: Set<Seq<char>>, remote: Seq<char>)
    ensures
        walk(walk(known, remote).known, remote).make.len() == 0,
        walk(walk(known, remote).known, remote).known == walk(known, remote).known,
{
    if components(remote).len() > 0 {
        lemma_nothing_new(known, remote, components(remote).len() - 1);
    }
}

} // verus!

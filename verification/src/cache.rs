//! Where remote files are kept while they are open on this machine.

use crate::paths::{cache_dir, opt, push_path, pushed};
use crate::text::{chars_of, find_last, last_of, lemma_last_of, text_of};
use vstd::prelude::*;
use vstd::string::*;

verus! {

/// How one character is written: inside a single component the slash is
/// spelled out, and inside a directory part each component gets a mark in
/// front, so that none is empty or a dot.
pub open spec fn code(c: char, single: bool) -> Seq<char> {
    if single && c == '%' {
        seq!['%', '2', '5']
    } else if single && c == '/' {
        seq!['%', '2', 'F']
    } else if !single && c == '/' {
        seq!['/', '_']
    } else {
        seq![c]
    }
}

/// A text with each character written as [code] says.
pub open spec fn coded(s: Seq<char>, single: bool) -> Seq<char>
    decreases s.len(),
{
    if s.len() == 0 {
        Seq::empty()
    } else {
        coded(s.drop_last(), single) + code(s.last(), single)
    }
}

fn encode(v: &Vec<char>, to: usize, single: bool) -> (r: String)
    requires
        to <= v@.len(),
    ensures
        r@ == coded(v@.take(to as int), single),
{
    let mut out = String::new();
    let mut i: usize = 0;
    proof {
        assert(out@ =~= coded(v@.take(0), single));
    }
    while i < to
        invariant
            i <= to <= v@.len(),
            out@ == coded(v@.take(i as int), single),
        decreases to - i,
    {
        let ghost before = out@;
        proof {
            assert(v@.take(i + 1).drop_last() =~= v@.take(i as int));
        }
        if single && v[i] == '%' {
            out.push('%');
            out.push('2');
            out.push('5');
        } else if single && v[i] == '/' {
            out.push('%');
            out.push('2');
            out.push('F');
        } else if !single && v[i] == '/' {
            out.push('/');
            out.push('_');
        } else {
            out.push(v[i]);
        }
        proof {
            assert(out@ =~= before + code(v@[i as int], single));
        }
        i += 1;
    }
    out
}

/// The remote directory of `source` below a host's cache directory, marked;
/// nothing for a bare name.
pub open spec fn dir_under_host(source: Seq<char>) -> Seq<char> {
    let i = last_of(source, '/');
    if i < 0 {
        Seq::empty()
    } else {
        seq!['_'] + coded(source.take(i), false) + seq!['/']
    }
}

/// Path below a host's cache directory for the remote file `source`: its
/// directory, then its name in a directory of its own kind, so that no file
/// stands where the directory of another has to be.
pub open spec fn under_host(source: Seq<char>) -> Seq<char> {
    dir_under_host(source) + seq!['-', '/'] + source.skip(last_of(source, '/') + 1)
}

/// Path below the cache for a remote file of the host `label`.
pub open spec fn cache_path(label: Seq<char>, source: Seq<char>) -> Seq<char> {
    seq!['_'] + coded(label, true) + seq!['/'] + under_host(source)
}

/// Path, below the cache, of the local copy of the remote file `source` on
/// the host `label`.  Two files with the same name in different remote
/// directories must not share one local file: editing it would write back
/// to both.
pub fn open_cache_path(label: &str, source: &str) -> (r: String)
    ensures
        r@ == cache_path(label@, source@),
{
    let l = chars_of(label);
    let host = encode(&l, l.len(), true);
    let v = chars_of(source);
    let n: usize = v.len();
    let mut out = String::new();
    out.push('_');
    out.append(host.as_str());
    out.push('/');
    proof {
        assert(l@.take(l@.len() as int) =~= l@);
        assert(out@ =~= seq!['_'] + coded(label@, true) + seq!['/']);
        assert(v@.take(n as int) =~= v@);
        lemma_last_of(source@, '/');
    }
    let ghost head = out@;
    let mut from: usize = 0;
    if let Some(i) = find_last(&v, n, '/') {
        let dir = encode(&v, i, false);
        out.push('_');
        out.append(dir.as_str());
        out.push('/');
        from = i + 1;
    }
    proof {
        assert(out@ =~= head + dir_under_host(source@));
    }
    let name = text_of(&v, from, n);
    out.push('-');
    out.push('/');
    out.append(name.as_str());
    proof {
        assert(name@ =~= source@.skip(last_of(source@, '/') + 1));
        assert(out@ =~= head + under_host(source@));
    }
    out
}

/// Cache directory below `base`.
pub open spec fn cache_below(base: Seq<char>) -> Seq<char> {
    pushed(pushed(base, "kaku"@), "sftp-open"@)
}

/// Cache directory below `base`.
pub fn open_cache_dir_in(base: &str) -> (r: String)
    ensures
        r@ == cache_below(base@),
{
    let kaku = push_path(base, "kaku");
    push_path(kaku.as_str(), "sftp-open")
}

/// Cache directory below the account's, or below `temp` where it has none.
pub open spec fn cache_or_temp(dir: Option<Seq<char>>, temp: Seq<char>) -> Seq<char> {
    cache_below(
        match dir {
            Some(d) => d,
            None => temp,
        },
    )
}

/// Directory where remote files are downloaded before being opened: below
/// `dir`, the account's cache directory, or below `temp` where there is
/// none.
pub fn open_cache_dir_from(dir: Option<String>, temp: &str) -> (r: String)
    ensures
        r@ == cache_or_temp(opt(dir), temp@),
{
    match dir {
        Some(d) => open_cache_dir_in(d.as_str()),
        None => open_cache_dir_in(temp),
    }
}

/// [open_cache_dir_from] with the cache directory of the running account.
pub fn open_cache_dir(temp: &str) -> (r: String)
    ensures
        exists|dir: Option<Seq<char>>| r@ == #[trigger] cache_or_temp(dir, temp@),
{
    let dir = cache_dir();
    let ghost d = opt(dir);
    let r = open_cache_dir_from(dir, temp);
    proof {
        assert(r@ == cache_or_temp(d, temp@));
    }
    r
}

proof fn lemma_coded_front(s: Seq<char>, single: bool)
    requires
        s.len() > 0,
    ensures
        coded(s, single) == code(s[0], single) + coded(s.skip(1), single),
    decreases s.len(),
{
    if s.len() == 1 {
        assert(s.drop_last() =~= Seq::<char>::empty());
        assert(s.skip(1) =~= Seq::<char>::empty());
        assert(coded(s, single) =~= code(s[0], single) + coded(s.skip(1), single));
    } else {
        lemma_coded_front(s.drop_last(), single);
        assert(s.drop_last().skip(1) =~= s.skip(1).drop_last());
        assert(coded(s, single) =~= code(s[0], single) + coded(s.skip(1), single));
    }
}

/// No character is written like the beginning of another one.
proof fn lemma_code_prefix(a: char, ra: Seq<char>, b: char, rb: Seq<char>, single: bool)
    requires
        code(a, single) + ra == code(b, single) + rb,
    ensures
        a == b,
        ra == rb,
{
    let ca = code(a, single);
    let cb = code(b, single);
    let x = ca + ra;
    assert(x[0] == ca[0]);
    assert((cb + rb)[0] == cb[0]);
    if single && (a == '%' || a == '/') {
        assert(ca.len() == 3 && x[2] == ca[2]);
        assert(ca[0] == '%');
        assert(b == '%' || b == '/');
        assert(cb.len() == 3 && (cb + rb)[2] == cb[2]);
    }
    assert(a == b);
    assert(ra =~= x.skip(ca.len() as int));
    assert(rb =~= x.skip(ca.len() as int));
}

/// Writing a text that way loses nothing.
proof fn lemma_coded_injective(a: Seq<char>, b: Seq<char>, single: bool)
    requires
        coded(a, single) == coded(b, single),
    ensures
        a == b,
    decreases a.len() + b.len(),
{
    if a.len() == 0 && b.len() == 0 {
        assert(a =~= b);
    } else if a.len() == 0 {
        lemma_coded_front(b, single);
        assert(coded(b, single).len() > 0);
    } else if b.len() == 0 {
        lemma_coded_front(a, single);
        assert(coded(a, single).len() > 0);
    } else {
        lemma_coded_front(a, single);
        lemma_coded_front(b, single);
        lemma_code_prefix(a[0], coded(a.skip(1), single), b[0], coded(b.skip(1), single), single);
        lemma_coded_injective(a.skip(1), b.skip(1), single);
        assert(a =~= seq![a[0]] + a.skip(1));
        assert(b =~= seq![b[0]] + b.skip(1));
    }
}

proof fn lemma_coded_single(s: Seq<char>)
    ensures
        forall|i: int| 0 <= i < coded(s, true).len() ==> coded(s, true)[i] != '/',
    decreases s.len(),
{
    if s.len() > 0 {
        lemma_coded_single(s.drop_last());
        let head = coded(s.drop_last(), true);
        let tail = code(s.last(), true);
        assert forall|i: int| 0 <= i < coded(s, true).len() implies coded(s, true)[i] != '/' by {
            if i < head.len() {
                assert(coded(s, true)[i] == head[i]);
            } else {
                assert(coded(s, true)[i] == tail[i - head.len()]);
            }
        }
    }
}

/// Two texts that are equal and cut at a first slash each are equal on
/// both sides of it.
proof fn lemma_split(a: Seq<char>, ra: Seq<char>, b: Seq<char>, rb: Seq<char>)
    requires
        forall|i: int| 0 <= i < a.len() ==> a[i] != '/',
        forall|i: int| 0 <= i < b.len() ==> b[i] != '/',
        a + seq!['/'] + ra == b + seq!['/'] + rb,
    ensures
        a == b,
        ra == rb,
{
    let x = a + seq!['/'] + ra;
    assert(x[a.len() as int] == '/');
    assert(x[b.len() as int] == '/');
    assert(a.len() == b.len()) by {
        if a.len() < b.len() {
            assert((b + seq!['/'] + rb)[a.len() as int] == b[a.len() as int]);
        }
        if b.len() < a.len() {
            assert(x[b.len() as int] == a[b.len() as int]);
        }
    }
    assert(a =~= x.take(a.len() as int));
    assert(b =~= x.take(a.len() as int));
    assert(ra =~= x.skip(a.len() as int + 1));
    assert(rb =~= x.skip(a.len() as int + 1));
}

/// After a slash inside the directory part comes its mark.
proof fn lemma_coded_marks(s: Seq<char>)
    ensures
        forall|i: int|
            #![trigger coded(s, false)[i]]
            0 <= i < coded(s, false).len() && coded(s, false)[i] == '/' ==> i + 1 < coded(
                s,
                false,
            ).len() && coded(s, false)[i + 1] == '_',
    decreases s.len(),
{
    if s.len() > 0 {
        lemma_coded_marks(s.drop_last());
        let head = coded(s.drop_last(), false);
        let tail = code(s.last(), false);
        let all = coded(s, false);
        assert forall|i: int| 0 <= i < all.len() && (#[trigger] all[i]) == '/' implies i + 1
            < all.len() && all[i + 1] == '_' by {
            if i < head.len() {
                assert(all[i] == head[i]);
                assert(all[i + 1] == head[i + 1]);
            } else {
                assert(all[i] == tail[i - head.len()]);
                assert(tail.len() == 2);
                assert(all[i + 1] == tail[1]);
            }
        }
    }
}

/// The last part of the directory below a host.
proof fn lemma_dir_marks(source: Seq<char>)
    ensures
        ({
            let d = dir_under_host(source);
            &&& d.len() > 0 ==> d.len() > 1 && d[0] == '_' && d.last() == '/'
            &&& forall|i: int|
                #![trigger d[i]]
                0 <= i < d.len() - 1 && d[i] == '/' ==> d[i + 1] == '_'
        }),
{
    lemma_last_of(source, '/');
    let i = last_of(source, '/');
    if i >= 0 {
        let c = coded(source.take(i), false);
        let d = dir_under_host(source);
        lemma_coded_marks(source.take(i));
        assert forall|k: int| 0 <= k < d.len() - 1 && (#[trigger] d[k]) == '/' implies d[k + 1]
            == '_' by {
            assert(k >= 1);
            assert(d[k] == c[k - 1]);
            assert(d[k + 1] == c[k]);
        }
    }
}

/// The directory parts of two files are equal where one path goes on from
/// the other.
proof fn lemma_same_dir(source: Seq<char>, other: Seq<char>, rest: Seq<char>)
    requires
        under_host(source) + rest == under_host(other),
    ensures
        dir_under_host(source) == dir_under_host(other),
        source.skip(last_of(source, '/') + 1) + rest == other.skip(last_of(other, '/') + 1),
{
    let da = dir_under_host(source);
    let db = dir_under_host(other);
    let na = source.skip(last_of(source, '/') + 1);
    let nb = other.skip(last_of(other, '/') + 1);
    let x = under_host(source) + rest;
    lemma_dir_marks(source);
    lemma_dir_marks(other);
    assert(x =~= da + seq!['-', '/'] + na + rest);
    assert(x[da.len() as int] == '-');
    assert(under_host(other)[db.len() as int] == '-');
    assert(da.len() == db.len()) by {
        if da.len() < db.len() {
            assert(x[da.len() as int] == db[da.len() as int]);
            if da.len() > 0 {
                assert(x[da.len() - 1] == da[da.len() - 1]);
                assert(x[da.len() - 1] == db[da.len() - 1]);
            }
        }
        if db.len() < da.len() {
            assert(x[db.len() as int] == da[db.len() as int]);
            if db.len() > 0 {
                assert(x[db.len() - 1] == da[db.len() - 1]);
                assert(x[db.len() - 1] == db[db.len() - 1]);
            }
        }
    }
    assert(da =~= x.take(da.len() as int));
    assert(db =~= x.take(da.len() as int));
    assert(na + rest =~= x.skip(da.len() as int + 2));
    assert(nb =~= x.skip(da.len() as int + 2));
}

/// The host parts of two files are equal where one path goes on from the
/// other.
proof fn lemma_same_host(
    label: Seq<char>,
    source: Seq<char>,
    other_label: Seq<char>,
    other: Seq<char>,
    rest: Seq<char>,
)
    requires
        cache_path(label, source) + rest == cache_path(other_label, other),
    ensures
        label == other_label,
        under_host(source) + rest == under_host(other),
{
    let x = cache_path(other_label, other);
    let a = coded(label, true);
    let b = coded(other_label, true);
    lemma_coded_single(label);
    lemma_coded_single(other_label);
    assert(a + seq!['/'] + (under_host(source) + rest) =~= x.skip(1));
    assert(b + seq!['/'] + under_host(other) =~= x.skip(1));
    lemma_split(a, under_host(source) + rest, b, under_host(other));
    lemma_coded_injective(label, other_label, true);
}

/// No two remote files share a local copy: the paths of two files are equal
/// only if the hosts and the remote paths are.
pub proof fn cache_paths_are_distinct(
    label: Seq<char>,
    source: Seq<char>,
    other_label: Seq<char>,
    other: Seq<char>,
)
    requires
        cache_path(label, source) == cache_path(other_label, other),
    ensures
        label == other_label,
        source == other,
{
    let none = Seq::<char>::empty();
    assert(cache_path(label, source) + none =~= cache_path(label, source));
    lemma_same_host(label, source, other_label, other, none);
    lemma_same_dir(source, other, none);
    lemma_last_of(source, '/');
    lemma_last_of(other, '/');
    let i = last_of(source, '/');
    let j = last_of(other, '/');
    let na = source.skip(i + 1);
    let nb = other.skip(j + 1);
    assert(na + none =~= na);
    if i >= 0 && j >= 0 {
        let d = dir_under_host(source);
        assert(coded(source.take(i), false) =~= d.subrange(1, d.len() - 1));
        assert(coded(other.take(j), false) =~= d.subrange(1, d.len() - 1));
        lemma_coded_injective(source.take(i), other.take(j), false);
        assert(source =~= source.take(i) + seq!['/'] + na);
        assert(other =~= other.take(j) + seq!['/'] + nb);
    } else {
        lemma_dir_marks(source);
        lemma_dir_marks(other);
        assert(i < 0 && j < 0);
        assert(source =~= na);
        assert(other =~= nb);
    }
}

/// Any two remote files can be open at once: no local copy stands where the
/// directory of another has to be.
pub proof fn no_cache_path_is_a_directory_of_another(
    label: Seq<char>,
    source: Seq<char>,
    other_label: Seq<char>,
    other: Seq<char>,
    rest: Seq<char>,
)
    ensures
        cache_path(label, source) + seq!['/'] + rest != cache_path(other_label, other),
{
    if cache_path(label, source) + seq!['/'] + rest == cache_path(other_label, other) {
        let tail = seq!['/'] + rest;
        assert(cache_path(label, source) + tail =~= cache_path(label, source) + seq!['/'] + rest);
        lemma_same_host(label, source, other_label, other, tail);
        lemma_same_dir(source, other, tail);
        lemma_last_of(other, '/');
        let na = source.skip(last_of(source, '/') + 1);
        let j = last_of(other, '/');
        let nb = other.skip(j + 1);
        assert(nb == na + tail);
        assert(nb[na.len() as int] == '/');
        assert(other[j + 1 + na.len()] == '/');
    }
}

} // verus!

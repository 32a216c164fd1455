//! Unix path arithmetic on strings: the final component of a path, its stem and its
//! extension, by the rules of `std::path::Path` on Unix.
use vstd::prelude::*;
use crate::text::{chars_of, string_from_chars};

verus! {

/// `p` without the trailing separators and `.` components that `Path::components` skips
/// at its end; a lone `.` (the current directory) leaves nothing either.
pub open spec fn strip_tail(p: Seq<char>) -> Seq<char>
    decreases p.len(),
{
    if p.len() > 0 && p.last() == '/' {
        strip_tail(p.drop_last())
    } else if p == seq!['.'] {
        Seq::empty()
    } else if p.len() >= 2 && p.last() == '.' && p[p.len() - 2] == '/' {
        strip_tail(p.drop_last())
    } else {
        p
    }
}

/// The index just after the last `/` of `q`, or 0 when `q` holds none.
pub open spec fn segment_start(q: Seq<char>) -> int
    decreases q.len(),
{
    if q.len() == 0 {
        0
    } else if q.last() == '/' {
        q.len() as int
    } else {
        segment_start(q.drop_last())
    }
}

/// The final component of `p` when it is a normal one, as `Path::file_name` gives it:
/// nothing for an empty path, the root, the current directory or a path ending in `..`.
pub open spec fn file_name_of(p: Seq<char>) -> Option<Seq<char>> {
    let q = strip_tail(p);
    let name = q.skip(segment_start(q));
    if name.len() == 0 || name == seq!['.', '.'] {
        None
    } else {
        Some(name)
    }
}

/// The index of the last `.` of `f`, or -1 when it holds none.
pub open spec fn last_dot(f: Seq<char>) -> int
    decreases f.len(),
{
    if f.len() == 0 {
        -1
    } else if f.last() == '.' {
        f.len() - 1
    } else {
        last_dot(f.drop_last())
    }
}

/// Whether a file name has an extension: a `.` that is not its first character.
pub open spec fn has_extension(f: Seq<char>) -> bool {
    last_dot(f) > 0
}

/// The stem of a file name: before its last `.`, or the whole name when it has no extension.
pub open spec fn stem_of_name(f: Seq<char>) -> Seq<char> {
    if has_extension(f) {
        f.take(last_dot(f))
    } else {
        f
    }
}

/// The extension of the final component of `p`, as `Path::extension` gives it.
pub open spec fn extension_of(p: Seq<char>) -> Option<Seq<char>> {
    match file_name_of(p) {
        Some(f) => if has_extension(f) {
            Some(f.skip(last_dot(f) + 1))
        } else {
            None
        },
        None => None,
    }
}

/// The stem of the final component of `p`, as `Path::file_stem` gives it.
pub open spec fn file_stem_of(p: Seq<char>) -> Option<Seq<char>> {
    match file_name_of(p) {
        Some(f) => Some(stem_of_name(f)),
        None => None,
    }
}

/// `p` cut right after the stem of its final component, as `Path::with_extension("")`
/// gives it; `p` itself when it has no final component.
pub open spec fn without_extension_of(p: Seq<char>) -> Seq<char> {
    match file_name_of(p) {
        Some(f) => p.take(segment_start(strip_tail(p)) + stem_of_name(f).len()),
        None => p,
    }
}

proof fn lemma_strip_tail_prefix(p: Seq<char>)
    ensures
        strip_tail(p).len() <= p.len(),
        strip_tail(p) == p.take(strip_tail(p).len() as int),
    decreases p.len(),
{
    if p.len() > 0 && p.last() == '/' {
        lemma_strip_tail_prefix(p.drop_last());
        assert(p.drop_last().take(strip_tail(p).len() as int) =~= p.take(strip_tail(p).len() as int));
    } else if p == seq!['.'] {
        assert(p.take(0) =~= Seq::<char>::empty());
    } else if p.len() >= 2 && p.last() == '.' && p[p.len() - 2] == '/' {
        lemma_strip_tail_prefix(p.drop_last());
        assert(p.drop_last().take(strip_tail(p).len() as int) =~= p.take(strip_tail(p).len() as int));
    } else {
        assert(p.take(p.len() as int) =~= p);
    }
}

proof fn lemma_segment_start_bounds(q: Seq<char>)
    ensures
        0 <= segment_start(q) <= q.len(),
        forall|j: int| segment_start(q) <= j < q.len() ==> q[j] != '/',
    decreases q.len(),
{
    if q.len() > 0 && q.last() != '/' {
        lemma_segment_start_bounds(q.drop_last());
        assert forall|j: int| segment_start(q) <= j < q.len() implies q[j] != '/' by {
            if j < q.len() - 1 {
                assert(q.drop_last()[j] == q[j]);
            }
        }
    }
}

proof fn lemma_last_dot_bounds(f: Seq<char>)
    ensures
        -1 <= last_dot(f) < f.len(),
        last_dot(f) >= 0 ==> f[last_dot(f)] == '.',
    decreases f.len(),
{
    if f.len() > 0 && f.last() != '.' {
        lemma_last_dot_bounds(f.drop_last());
    }
}

/// The length of `strip_tail` of the characters `v`.
fn tail_len(v: &Vec<char>) -> (k: usize)
    ensures
        k <= v.len(),
        v@.take(k as int) == strip_tail(v@),
{
    let mut k: usize = v.len();
    assert(v@.take(k as int) =~= v@);
    loop
        invariant
            k <= v.len(),
            strip_tail(v@) == strip_tail(v@.take(k as int)),
        decreases k,
    {
        let ghost t = v@.take(k as int);
        if k > 0 && v[k - 1] == '/' {
            assert(t.drop_last() =~= v@.take(k - 1));
            k = k - 1;
        } else if k == 1 && v[0] == '.' {
            assert(t =~= seq!['.']);
            assert(strip_tail(v@.take(0)) =~= Seq::<char>::empty()) by {
                assert(v@.take(0) =~= Seq::<char>::empty());
            }
            k = 0;
        } else if k >= 2 && v[k - 1] == '.' && v[k - 2] == '/' {
            assert(t.drop_last() =~= v@.take(k - 1));
            k = k - 1;
        } else {
            assert(t != seq!['.']) by {
                if t == seq!['.'] {
                    assert(t.len() == 1);
                    assert(t[0] == v@[0]);
                }
            }
            return k;
        }
    }
}

/// The index just after the last `/` among the first `k` characters of `v`.
fn segment_start_in(v: &Vec<char>, k: usize) -> (s: usize)
    requires
        k <= v.len(),
    ensures
        s as int == segment_start(v@.take(k as int)),
        s <= k,
{
    let mut i: usize = k;
    loop
        invariant
            i <= k <= v.len(),
            segment_start(v@.take(k as int)) == segment_start(v@.take(i as int)),
        decreases i,
    {
        let ghost t = v@.take(i as int);
        if i == 0 {
            return 0;
        }
        if v[i - 1] == '/' {
            return i;
        }
        assert(t.drop_last() =~= v@.take(i - 1));
        i = i - 1;
    }
}

/// The index of the last `.` among the characters `f`, when there is one.
fn last_dot_in(f: &Vec<char>) -> (d: Option<usize>)
    ensures
        d matches Some(i) ==> i as int == last_dot(f@),
        d is None ==> last_dot(f@) == -1,
{
    let mut i: usize = f.len();
    assert(f@.take(i as int) =~= f@);
    loop
        invariant
            i <= f.len(),
            last_dot(f@) == last_dot(f@.take(i as int)),
        decreases i,
    {
        let ghost t = f@.take(i as int);
        if i == 0 {
            return None;
        }
        if f[i - 1] == '.' {
            return Some(i - 1);
        }
        assert(t.drop_last() =~= f@.take(i - 1));
        i = i - 1;
    }
}

/// Copies the characters `v[from..to]` into a new string.
fn slice_string(v: &Vec<char>, from: usize, to: usize) -> (s: String)
    requires
        from <= to <= v.len(),
    ensures
        s@ == v@.subrange(from as int, to as int),
{
    let out = slice_chars(v, from, to);
    string_from_chars(&out)
}

/// Copies the characters `v[from..to]`.
fn slice_chars(v: &Vec<char>, from: usize, to: usize) -> (out: Vec<char>)
    requires
        from <= to <= v.len(),
    ensures
        out@ == v@.subrange(from as int, to as int),
{
    let mut out: Vec<char> = Vec::new();
    let mut j: usize = from;
    while j < to
        invariant
            from <= j <= to <= v.len(),
            out@ == v@.subrange(from as int, j as int),
        decreases to - j,
    {
        out.push(v[j]);
        j = j + 1;
    }
    out
}

/// Where the final component of the path `v` lies: its start and end, when it is a
/// normal component.
fn file_name_bounds(v: &Vec<char>) -> (r: Option<(usize, usize)>)
    ensures
        match r {
            Some((s, e)) => s <= e <= v.len() && file_name_of(v@) == Some(v@.subrange(s as int, e as int))
                && s as int == segment_start(strip_tail(v@)),
            None => file_name_of(v@) is None,
        },
{
    let k = tail_len(v);
    let s = segment_start_in(v, k);
    let ghost q = strip_tail(v@);
    proof {
        lemma_strip_tail_prefix(v@);
        assert(q.skip(s as int) =~= v@.subrange(s as int, k as int));
    }
    if s == k {
        return None;
    }
    if k - s == 2 && v[s] == '.' && v[s + 1] == '.' {
        assert(q.skip(s as int) =~= seq!['.', '.']);
        return None;
    }
    assert(q.skip(s as int) != seq!['.', '.']) by {
        if q.skip(s as int) == seq!['.', '.'] {
            assert(q.skip(s as int)[0] == v@[s as int]);
            assert(q.skip(s as int)[1] == v@[s + 1]);
        }
    }
    Some((s, k))
}

/// The final component of `path`, when it is a normal one.
pub fn file_name(path: &str) -> (r: Option<String>)
    ensures
        match r {
            Some(n) => file_name_of(path@) == Some(n@),
            None => file_name_of(path@) is None,
        },
{
    let v = chars_of(path);
    match file_name_bounds(&v) {
        Some((s, e)) => Some(slice_string(&v, s, e)),
        None => None,
    }
}

/// The extension of the final component of `path`.
pub fn extension(path: &str) -> (r: Option<String>)
    ensures
        match r {
            Some(e) => extension_of(path@) == Some(e@),
            None => extension_of(path@) is None,
        },
{
    let v = chars_of(path);
    match file_name_bounds(&v) {
        Some((s, e)) => {
            let name = slice_chars(&v, s, e);
            proof {
                lemma_last_dot_bounds(name@);
            }
            match last_dot_in(&name) {
                Some(d) => {
                    if d == 0 {
                        None
                    } else {
                        Some(slice_string(&name, d + 1, name.len()))
                    }
                },
                None => None,
            }
        },
        None => None,
    }
}

/// The length of the stem of the file name `name`.
fn stem_len(name: &Vec<char>) -> (n: usize)
    ensures
        n as int == stem_of_name(name@).len(),
        n <= name.len(),
{
    proof {
        lemma_last_dot_bounds(name@);
    }
    match last_dot_in(name) {
        Some(d) => {
            if d == 0 {
                name.len()
            } else {
                d
            }
        },
        None => name.len(),
    }
}

/// The stem of the final component of `path`.
pub fn file_stem(path: &str) -> (r: Option<String>)
    ensures
        match r {
            Some(e) => file_stem_of(path@) == Some(e@),
            None => file_stem_of(path@) is None,
        },
{
    let v = chars_of(path);
    match file_name_bounds(&v) {
        Some((s, e)) => {
            let name = slice_chars(&v, s, e);
            let n = stem_len(&name);
            proof {
                lemma_last_dot_bounds(name@);
            }
            assert(stem_of_name(name@) =~= name@.take(n as int));
            Some(slice_string(&name, 0, n))
        },
        None => None,
    }
}

/// `path` cut right after the stem of its final component.
pub fn without_extension(path: &str) -> (r: String)
    ensures
        r@ == without_extension_of(path@),
{
    let v = chars_of(path);
    match file_name_bounds(&v) {
        Some((s, e)) => {
            let name = slice_chars(&v, s, e);
            let n = stem_len(&name);
            assert(v@.subrange(0, s + n) =~= v@.take(s + n));
            slice_string(&v, 0, s + n)
        },
        None => {
            assert(v@.subrange(0, v.len() as int) =~= v@);
            slice_string(&v, 0, v.len())
        },
    }
}

/// The stem, a dot and the extension of a path put its final component back together.
pub proof fn law_stem_and_extension_rebuild_the_name(p: Seq<char>)
    requires
        extension_of(p) is Some,
    ensures
        file_name_of(p) == Some(file_stem_of(p)->Some_0 + "."@ + extension_of(p)->Some_0),
{
    reveal_strlit(".");
    let f = file_name_of(p)->Some_0;
    lemma_last_dot_bounds(f);
    let d = last_dot(f);
    assert(f =~= f.take(d) + "."@ + f.skip(d + 1));
}

/// `base` extended by the relative or absolute path `rel`, as `Path::join` gives it on Unix:
/// an absolute `rel` replaces `base`; otherwise a `/` separates them unless `base` is empty
/// or already ends with one.
pub open spec fn joined(base: Seq<char>, rel: Seq<char>) -> Seq<char> {
    if rel.len() > 0 && rel[0] == '/' {
        rel
    } else if base.len() > 0 && base.last() != '/' {
        base + seq!['/'] + rel
    } else {
        base + rel
    }
}

/// The path `base` joined with `rel`.
pub fn join(base: &str, rel: &str) -> (r: String)
    ensures
        r@ == joined(base@, rel@),
{
    let b = chars_of(base);
    let x = chars_of(rel);
    let mut out: Vec<char> = Vec::new();
    if !(x.len() > 0 && x[0] == '/') {
        out = b.clone();
        if b.len() > 0 && b[b.len() - 1] != '/' {
            out.push('/');
        }
    }
    let ghost start = out@;
    let mut i: usize = 0;
    while i < x.len()
        invariant
            x@ == rel@,
            i <= x.len(),
            out@ == start + x@.take(i as int),
        decreases x.len() - i,
    {
        out.push(x[i]);
        assert(x@.take(i + 1) =~= x@.take(i as int).push(x@[i as int]));
        i = i + 1;
    }
    assert(x@.take(x.len() as int) =~= x@);
    assert(b@ == base@);
    if x.len() > 0 && x[0] == '/' {
        assert(out@ =~= rel@);
    } else if b.len() > 0 && b[b.len() - 1] != '/' {
        assert(out@ =~= base@ + seq!['/'] + rel@);
    } else {
        assert(out@ =~= base@ + rel@);
    }
    string_from_chars(&out)
}

} // verus!

//! A model of `/`-separated file system paths, following the documented
//! behaviour of std's `Path` on Unix: components are separated by one or
//! more `/`, `.` components after the start are ignored, a leading `/` is
//! the root and a leading `.` is the current directory.
//!
//! Paths are handled as sequences of characters.

use vstd::prelude::*;
use crate::text::{push_all, slice_chars};

verus! {

/// The path starts at the root.
pub open spec fn has_root(s: Seq<char>) -> bool {
    s.len() > 0 && s[0] == '/'
}

/// The path starts with a `.` component (and has no root).
pub open spec fn starts_with_cur_dir(s: Seq<char>) -> bool {
    !has_root(s) && s.len() > 0 && s[0] == '.' && (s.len() == 1 || s[1] == '/')
}

/// Where the body of the path (its components after the root or the
/// leading `.`) starts.
pub open spec fn body_start(s: Seq<char>) -> int {
    if has_root(s) || starts_with_cur_dir(s) {
        1
    } else {
        0
    }
}

/// The end of `s[..e]` once trailing separators and `.` components are cut
/// off, never going below `lo`.
pub open spec fn trim_end(s: Seq<char>, lo: int, e: int) -> int
    decreases e - lo,
{
    if e <= lo {
        e
    } else if s[e - 1] == '/' {
        trim_end(s, lo, e - 1)
    } else if s[e - 1] == '.' && (e - 1 == lo || s[e - 2] == '/') {
        trim_end(s, lo, e - 1)
    } else {
        e
    }
}

/// The start of the component that ends at `e`: just after the last
/// separator before `e`, or `lo`.
pub open spec fn segment_start(s: Seq<char>, lo: int, e: int) -> int
    decreases e - lo,
{
    if e <= lo {
        e
    } else if s[e - 1] == '/' {
        e
    } else {
        segment_start(s, lo, e - 1)
    }
}

/// The end of the last component of the body.
pub open spec fn body_end(s: Seq<char>) -> int {
    trim_end(s, body_start(s), s.len() as int)
}

/// The start of the last component of the body.
pub open spec fn last_start(s: Seq<char>) -> int {
    segment_start(s, body_start(s), body_end(s))
}

/// The parent-directory component `..`.
pub open spec fn dot_dot() -> Seq<char> {
    seq!['.', '.']
}

/// The final component of the path, unless it is `..`, the root, the current
/// directory or absent (std's `Path::file_name`).
pub open spec fn file_name(s: Seq<char>) -> Option<Seq<char>> {
    if body_end(s) <= body_start(s) {
        None
    } else {
        let seg = s.subrange(last_start(s), body_end(s));
        if seg == dot_dot() {
            None
        } else {
            Some(seg)
        }
    }
}

/// The path without its final component; none for the root and the empty
/// path (std's `Path::parent`).
pub open spec fn parent(s: Seq<char>) -> Option<Seq<char>> {
    if body_end(s) <= body_start(s) {
        if starts_with_cur_dir(s) {
            Some(Seq::empty())
        } else {
            None
        }
    } else {
        Some(s.subrange(0, trim_end(s, body_start(s), last_start(s))))
    }
}

/// `base` extended with `p` (std's `PathBuf::push`): a rooted `p` replaces
/// `base`; otherwise a separator is put between them when `base` is not
/// empty and does not already end with one.
pub open spec fn join(base: Seq<char>, p: Seq<char>) -> Seq<char> {
    if has_root(p) {
        p
    } else if base.len() > 0 && base.last() != '/' {
        base.push('/') + p
    } else {
        base + p
    }
}

/// Position of the last `.` in `n[..i]`, or -1.
pub open spec fn last_dot(n: Seq<char>, i: int) -> int
    decreases i,
{
    if i <= 0 {
        -1
    } else if n[i - 1] == '.' {
        i - 1
    } else {
        last_dot(n, i - 1)
    }
}

/// The stem of a file name: the part before its last `.`, or the whole name
/// when it has no `.` after its first character.
pub open spec fn stem_of(n: Seq<char>) -> Seq<char> {
    let j = last_dot(n, n.len() as int);
    if n == dot_dot() || j <= 0 {
        n
    } else {
        n.subrange(0, j)
    }
}

/// The extension of a file name: the part after its last `.`, if that `.`
/// is not its first character.
pub open spec fn ext_of(n: Seq<char>) -> Option<Seq<char>> {
    let j = last_dot(n, n.len() as int);
    if n == dot_dot() || j <= 0 {
        None
    } else {
        Some(n.subrange(j + 1, n.len() as int))
    }
}

/// std's `Path::file_stem`.
pub open spec fn file_stem(s: Seq<char>) -> Option<Seq<char>> {
    match file_name(s) {
        Some(n) => Some(stem_of(n)),
        None => None,
    }
}

/// std's `Path::extension`.
pub open spec fn extension(s: Seq<char>) -> Option<Seq<char>> {
    match file_name(s) {
        Some(n) => ext_of(n),
        None => None,
    }
}

// ---------------------------------------------------------------------
// Facts about the model
// ---------------------------------------------------------------------

proof fn lemma_trim_end_bounds(s: Seq<char>, lo: int, e: int)
    requires
        0 <= lo <= e <= s.len(),
    ensures
        lo <= trim_end(s, lo, e) <= e,
    decreases e - lo,
{
    if e > lo {
        if s[e - 1] == '/' || (s[e - 1] == '.' && (e - 1 == lo || s[e - 2] == '/')) {
            lemma_trim_end_bounds(s, lo, e - 1);
        }
    }
}

proof fn lemma_segment_start_bounds(s: Seq<char>, lo: int, e: int)
    requires
        0 <= lo <= e <= s.len(),
    ensures
        lo <= segment_start(s, lo, e) <= e,
        forall|i: int| segment_start(s, lo, e) <= i < e ==> s[i] != '/',
    decreases e - lo,
{
    if e > lo && s[e - 1] != '/' {
        lemma_segment_start_bounds(s, lo, e - 1);
    }
}

/// The positions the model computes lie inside the path, in order.
pub proof fn lemma_positions(s: Seq<char>)
    ensures
        0 <= body_start(s) <= body_end(s) <= s.len(),
        body_start(s) <= last_start(s) <= body_end(s),
        body_start(s) <= trim_end(s, body_start(s), last_start(s)) <= last_start(s),
        forall|i: int| last_start(s) <= i < body_end(s) ==> s[i] != '/',
{
    lemma_trim_end_bounds(s, body_start(s), s.len() as int);
    lemma_segment_start_bounds(s, body_start(s), body_end(s));
    lemma_trim_end_bounds(s, body_start(s), last_start(s));
}

proof fn lemma_segment_start_at(s: Seq<char>, lo: int, k: int, e: int)
    requires
        0 <= lo <= k <= e <= s.len(),
        k == lo || s[k - 1] == '/',
        forall|i: int| k <= i < e ==> s[i] != '/',
    ensures
        segment_start(s, lo, e) == k,
    decreases e - k,
{
    if e > k {
        lemma_segment_start_at(s, lo, k, e - 1);
    }
}

/// A file name holds no separator.
pub proof fn lemma_file_name_has_no_separator(s: Seq<char>)
    ensures
        file_name(s) matches Some(n) ==> forall|i: int| 0 <= i < n.len() ==> n[i] != '/',
{
    lemma_positions(s);
    if let Some(n) = file_name(s) {
        assert forall|i: int| 0 <= i < n.len() implies n[i] != '/' by {
            assert(n[i] == s[last_start(s) + i]);
        }
    }
}

/// The stem of a name is a non-empty prefix of it when the name is not
/// empty.
pub proof fn lemma_stem_prefix(n: Seq<char>)
    ensures
        stem_of(n).len() <= n.len(),
        n.len() > 0 ==> stem_of(n).len() > 0,
        forall|i: int| 0 <= i < stem_of(n).len() ==> stem_of(n)[i] == n[i],
{
    lemma_last_dot_bounds(n, n.len() as int);
}

/// A plain name: a single component that is neither `.` nor `..`.
pub open spec fn is_plain_name(n: Seq<char>) -> bool {
    &&& n.len() > 0
    &&& forall|i: int| 0 <= i < n.len() ==> n[i] != '/'
    &&& n != seq!['.']
    &&& n != dot_dot()
}

/// Joining a plain name onto any path gives a path whose file name is that
/// name.
pub proof fn lemma_join_plain_file_name(base: Seq<char>, n: Seq<char>)
    requires
        is_plain_name(n),
    ensures
        file_name(join(base, n)) == Some(n),
        last_start(join(base, n)) == join(base, n).len() - n.len(),
        body_end(join(base, n)) == join(base, n).len(),
{
    let s = join(base, n);
    let k = s.len() - n.len();
    assert(s.subrange(k, s.len() as int) =~= n);
    assert forall|i: int| k <= i < s.len() implies s[i] != '/' by {
        assert(s[i] == n[i - k]);
    }
    // the name is the last component and is not trimmed
    assert(s[s.len() - 1] == n[n.len() - 1]);
    if n.len() == 1 {
        assert(n[0] != '.') by {
            if n[0] == '.' {
                assert(n =~= seq!['.']);
            }
        }
    }
    let lo = body_start(s);
    assert(k == 0 || s[k - 1] == '/');
    if k == 0 {
        assert(s =~= n);
        assert(lo == 0) by {
            if starts_with_cur_dir(s) {
                if n.len() == 1 {
                    assert(n =~= seq!['.']);
                }
            }
        }
    } else {
        assert(lo <= 1);
    }
    assert(s[s.len() - 1] != '/');
    if s[s.len() - 1] == '.' {
        assert(n.len() >= 2);
        assert(s[s.len() - 2] == n[n.len() - 2]);
    }
    assert(trim_end(s, lo, s.len() as int) == s.len());
    lemma_segment_start_at(s, lo, k, s.len() as int);
}

/// Where `trim_end` stops: at `lo` or below, or after a character that is
/// neither a separator nor a lone `.` component.
pub proof fn lemma_trim_end_result(s: Seq<char>, lo: int, e: int)
    requires
        0 <= lo <= e <= s.len(),
    ensures
        ({
            let r = trim_end(s, lo, e);
            r <= lo || (s[r - 1] != '/' && !(s[r - 1] == '.' && (r - 1 == lo || s[r - 2] == '/')))
        }),
    decreases e - lo,
{
    if e > lo {
        if s[e - 1] == '/' || (s[e - 1] == '.' && (e - 1 == lo || s[e - 2] == '/')) {
            lemma_trim_end_result(s, lo, e - 1);
        }
    }
}

/// No `.` lies after the last one.
pub proof fn lemma_last_dot_is_last(n: Seq<char>, i: int)
    requires
        0 <= i <= n.len(),
    ensures
        forall|k: int| last_dot(n, i) < k < i ==> n[k] != '.',
    decreases i,
{
    if i > 0 && n[i - 1] != '.' {
        lemma_last_dot_is_last(n, i - 1);
    }
}

/// A `.` at `j` with none after it before `i` is the last one.
pub proof fn lemma_last_dot_at(n: Seq<char>, j: int, i: int)
    requires
        0 <= j < i <= n.len(),
        n[j] == '.',
        forall|k: int| j < k < i ==> n[k] != '.',
    ensures
        last_dot(n, i) == j,
    decreases i,
{
    if i - 1 > j {
        lemma_last_dot_at(n, j, i - 1);
    }
}

/// Characters other than `.` between `m` and `i` do not move the last `.`.
pub proof fn lemma_last_dot_skip(n: Seq<char>, m: int, i: int)
    requires
        0 <= m <= i <= n.len(),
        forall|k: int| m <= k < i ==> n[k] != '.',
    ensures
        last_dot(n, i) == last_dot(n, m),
    decreases i,
{
    if i > m {
        lemma_last_dot_skip(n, m, i - 1);
    }
}

/// The last `.` before `m` depends only on the first `m` characters.
pub proof fn lemma_last_dot_prefix(n: Seq<char>, b: Seq<char>, m: int)
    requires
        0 <= m <= n.len(),
        m <= b.len(),
        forall|k: int| 0 <= k < m ==> n[k] == b[k],
    ensures
        last_dot(n, m) == last_dot(b, m),
    decreases m,
{
    if m > 0 {
        lemma_last_dot_prefix(n, b, m - 1);
    }
}

/// Joining a plain name onto the parent of a path gives a path with the
/// same parent.
pub proof fn lemma_parent_join(s: Seq<char>, n: Seq<char>)
    requires
        is_plain_name(n),
        parent(s) is Some,
    ensures
        parent(join(parent(s)->0, n)) == parent(s),
{
    lemma_positions(s);
    let p = parent(s)->0;
    let j = join(p, n);
    lemma_join_plain_file_name(p, n);
    assert(!has_root(n));
    assert(!starts_with_cur_dir(n)) by {
        if n.len() == 1 && n[0] == '.' {
            assert(n =~= seq!['.']);
        }
    }
    let lo = body_start(s);
    if body_end(s) <= body_start(s) || trim_end(s, lo, last_start(s)) == 0 {
        assert(p.len() == 0);
        assert(j =~= n);
        assert(body_start(j) == 0);
        assert(trim_end(j, 0, 0) == 0);
        assert(j.subrange(0, 0) =~= p);
    } else {
        let e = trim_end(s, lo, last_start(s));
        lemma_trim_end_result(s, lo, last_start(s));
        assert(p =~= s.subrange(0, e));
        if e <= lo {
            assert(e == 1 && lo == 1);
            if has_root(s) {
                assert(p =~= seq!['/']);
                assert(j =~= p + n);
                assert(has_root(j));
                assert(body_start(j) == 1);
                assert(last_start(j) == 1);
                assert(trim_end(j, 1, 1) == 1);
                assert(j.subrange(0, 1) =~= p);
            } else {
                assert(p =~= seq!['.']);
                assert(j =~= p.push('/') + n);
                assert(j[0] == '.' && j[1] == '/');
                assert(body_start(j) == 1);
                assert(last_start(j) == 2);
                assert(trim_end(j, 1, 1) == 1);
                assert(trim_end(j, 1, 2) == 1);
                assert(j.subrange(0, 1) =~= p);
            }
        } else {
            assert(p.last() == s[e - 1]);
            assert(j =~= p.push('/') + n);
            assert forall|k: int| 0 <= k < e implies j[k] == s[k] by {}
            assert(j[e] == '/');
            assert(body_start(j) == lo) by {
                if e == 1 {
                    assert(lo == 0);
                    assert(s[0] != '/');
                    assert(s[0] != '.');
                    assert(j[0] == s[0]);
                } else {
                    assert(j[0] == s[0] && j[1] == s[1]);
                }
            }
            assert(last_start(j) == e + 1);
            assert(trim_end(j, lo, e) == e);
            assert(trim_end(j, lo, e + 1) == trim_end(j, lo, e));
            assert(j.subrange(0, e) =~= p);
        }
    }
}

// ---------------------------------------------------------------------
// Executable counterparts
// ---------------------------------------------------------------------

fn body_start_of(s: &Vec<char>) -> (r: usize)
    ensures
        r == body_start(s@),
{
    if s.len() > 0 && s[0] == '/' {
        1
    } else if s.len() > 0 && s[0] == '.' && (s.len() == 1 || s[1] == '/') {
        1
    } else {
        0
    }
}

fn trim_end_of(s: &Vec<char>, lo: usize, e0: usize) -> (r: usize)
    requires
        lo <= e0 <= s.len(),
    ensures
        r == trim_end(s@, lo as int, e0 as int),
{
    let mut e = e0;
    loop
        invariant
            lo <= e <= e0 <= s.len(),
            trim_end(s@, lo as int, e as int) == trim_end(s@, lo as int, e0 as int),
        decreases e,
    {
        if e <= lo {
            return e;
        }
        if s[e - 1] == '/' {
            e = e - 1;
        } else if s[e - 1] == '.' && (e - 1 == lo || s[e - 2] == '/') {
            e = e - 1;
        } else {
            return e;
        }
    }
}

fn segment_start_of(s: &Vec<char>, lo: usize, e0: usize) -> (r: usize)
    requires
        lo <= e0 <= s.len(),
    ensures
        r == segment_start(s@, lo as int, e0 as int),
{
    let mut e = e0;
    loop
        invariant
            lo <= e <= e0 <= s.len(),
            segment_start(s@, lo as int, e as int) == segment_start(s@, lo as int, e0 as int),
        decreases e,
    {
        if e <= lo {
            return e;
        }
        if s[e - 1] == '/' {
            return e;
        }
        e = e - 1;
    }
}

fn is_dot_dot(s: &Vec<char>, from: usize, to: usize) -> (r: bool)
    requires
        from <= to <= s.len(),
    ensures
        r == (s@.subrange(from as int, to as int) == dot_dot()),
{
    if to - from == 2 && s[from] == '.' && s[from + 1] == '.' {
        assert(s@.subrange(from as int, to as int) =~= dot_dot());
        true
    } else {
        assert(dot_dot().len() == 2 && dot_dot()[0] == '.' && dot_dot()[1] == '.');
        if to - from == 2 {
            assert(s@.subrange(from as int, to as int)[0] == s@[from as int]);
            assert(s@.subrange(from as int, to as int)[1] == s@[from + 1]);
        }
        false
    }
}

/// The last component of the body of `s`, when the body is not empty.
pub fn last_component_chars(s: &Vec<char>) -> (r: Option<Vec<char>>)
    ensures
        match r {
            Some(v) => body_end(s@) > body_start(s@) && v@ == s@.subrange(
                last_start(s@),
                body_end(s@),
            ),
            None => body_end(s@) <= body_start(s@),
        },
{
    proof {
        lemma_positions(s@);
    }
    let lo = body_start_of(s);
    let e = trim_end_of(s, lo, s.len());
    if e <= lo {
        return None;
    }
    let k = segment_start_of(s, lo, e);
    Some(slice_chars(s, k, e))
}

/// The file name of the path `s`, as characters.
pub fn file_name_chars(s: &Vec<char>) -> (r: Option<Vec<char>>)
    ensures
        match r {
            Some(v) => file_name(s@) == Some(v@),
            None => file_name(s@) is None,
        },
{
    proof {
        lemma_positions(s@);
    }
    let lo = body_start_of(s);
    let e = trim_end_of(s, lo, s.len());
    if e <= lo {
        return None;
    }
    let k = segment_start_of(s, lo, e);
    if is_dot_dot(s, k, e) {
        None
    } else {
        Some(slice_chars(s, k, e))
    }
}

/// The parent of the path `s`, as characters.
pub fn parent_chars(s: &Vec<char>) -> (r: Option<Vec<char>>)
    ensures
        match r {
            Some(v) => parent(s@) == Some(v@),
            None => parent(s@) is None,
        },
{
    proof {
        lemma_positions(s@);
    }
    let lo = body_start_of(s);
    let e = trim_end_of(s, lo, s.len());
    if e <= lo {
        if s.len() > 0 && s[0] == '.' && (s.len() == 1 || s[1] == '/') {
            let v: Vec<char> = Vec::new();
            assert(v@ =~= Seq::<char>::empty());
            return Some(v);
        }
        return None;
    }
    let k = segment_start_of(s, lo, e);
    let t = trim_end_of(s, lo, k);
    Some(slice_chars(s, 0, t))
}

/// `base` joined with `p`, as characters.
pub fn join_chars(base: &Vec<char>, p: &Vec<char>) -> (r: Vec<char>)
    ensures
        r@ == join(base@, p@),
{
    proof {
        assert(p@.subrange(0, p.len() as int) == p@);
    }
    if p.len() > 0 && p[0] == '/' {
        slice_chars(p, 0, p.len())
    } else {
        let mut r = slice_chars(base, 0, base.len());
        if base.len() > 0 && base[base.len() - 1] != '/' {
            r.push('/');
        }
        push_all(&mut r, p);
        proof {
            assert(base@.subrange(0, base.len() as int) == base@);
        }
        r
    }
}

fn last_dot_of(n: &Vec<char>) -> (r: Option<usize>)
    ensures
        match r {
            Some(j) => last_dot(n@, n.len() as int) == j as int,
            None => last_dot(n@, n.len() as int) == -1,
        },
{
    let mut i: usize = n.len();
    loop
        invariant
            i <= n.len(),
            last_dot(n@, i as int) == last_dot(n@, n.len() as int),
        decreases i,
    {
        if i == 0 {
            return None;
        }
        if n[i - 1] == '.' {
            return Some(i - 1);
        }
        i = i - 1;
    }
}

/// The length of the stem of the file name `n`.
fn stem_len(n: &Vec<char>) -> (r: usize)
    ensures
        r == stem_of(n@).len(),
        r <= n.len(),
{
    let j = last_dot_of(n);
    proof {
        assert(n@.subrange(0, n.len() as int) == n@);
        lemma_last_dot_bounds(n@, n.len() as int);
    }
    match j {
        Some(j) if j > 0 && !is_dot_dot(n, 0, n.len()) => j,
        _ => n.len(),
    }
}

pub proof fn lemma_last_dot_bounds(n: Seq<char>, i: int)
    requires
        0 <= i <= n.len(),
    ensures
        -1 <= last_dot(n, i) < i,
        last_dot(n, i) >= 0 ==> n[last_dot(n, i)] == '.',
    decreases i,
{
    if i > 0 && n[i - 1] != '.' {
        lemma_last_dot_bounds(n, i - 1);
    }
}

/// The stem of the file name `n`, as characters.
pub fn stem_chars(n: &Vec<char>) -> (r: Vec<char>)
    ensures
        r@ == stem_of(n@),
{
    let l = stem_len(n);
    let r = slice_chars(n, 0, l);
    proof {
        let j = last_dot(n@, n.len() as int);
        lemma_last_dot_bounds(n@, n.len() as int);
        if !(n@ == dot_dot() || j <= 0) {
            assert(r@ =~= stem_of(n@));
        } else {
            assert(r@ =~= n@);
        }
    }
    r
}

/// The extension of the file name `n`, as characters.
pub fn ext_chars(n: &Vec<char>) -> (r: Option<Vec<char>>)
    ensures
        match r {
            Some(v) => ext_of(n@) == Some(v@),
            None => ext_of(n@) is None,
        },
{
    let j = last_dot_of(n);
    proof {
        lemma_last_dot_bounds(n@, n.len() as int);
        assert(n@.subrange(0, n.len() as int) == n@);
    }
    match j {
        Some(j) if j > 0 && !is_dot_dot(n, 0, n.len()) => Some(slice_chars(n, j + 1, n.len())),
        _ => None,
    }
}

} // verus!

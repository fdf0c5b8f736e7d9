//! Where a directory's archive is rooted when sent, and where each entry of
//! a received archive is unpacked.

use vstd::prelude::*;
use crate::paths::{dot_dot, file_name, file_name_chars, is_plain_name, join, join_chars};
use crate::text::{chars_of, slice_chars, string_of};

verus! {

/// The name of the top entry of the archive made of the directory at
/// `source_path`: the directory's own name, or the whole path when it has
/// none.
pub fn archive_name(source_path: &str) -> (n: String)
    ensures
        match file_name(source_path@) {
            Some(f) => n@ == f,
            None => n@ == source_path@,
        },
{
    let s = chars_of(source_path);
    match file_name_chars(&s) {
        Some(f) => string_of(&f),
        None => string_of(&s),
    }
}

/// `ps` with the finished piece `cur` added, unless it is empty or `.`.
pub open spec fn close_piece(ps: Seq<Seq<char>>, cur: Seq<char>) -> Seq<Seq<char>> {
    if cur.len() == 0 || cur == seq!['.'] {
        ps
    } else {
        ps.push(cur)
    }
}

/// Reading `e` from the left: the pieces finished so far and the piece
/// under way, pieces being separated by `/`.
pub open spec fn scan_pieces(e: Seq<char>) -> (Seq<Seq<char>>, Seq<char>)
    decreases e.len(),
{
    if e.len() == 0 {
        (Seq::empty(), Seq::empty())
    } else {
        let (ps, cur) = scan_pieces(e.drop_last());
        if e.last() == '/' {
            (close_piece(ps, cur), Seq::empty())
        } else {
            (ps, cur.push(e.last()))
        }
    }
}

/// The components of an archive entry's path: the pieces between
/// separators, without empty ones and without `.`.
pub open spec fn entry_components(e: Seq<char>) -> Seq<Seq<char>> {
    close_piece(scan_pieces(e).0, scan_pieces(e).1)
}

/// `base` extended with each of `cs` in turn.
pub open spec fn joined_under(base: Seq<char>, cs: Seq<Seq<char>>) -> Seq<char>
    decreases cs.len(),
{
    if cs.len() == 0 {
        base
    } else {
        join(joined_under(base, cs.drop_last()), cs.last())
    }
}

/// Where the archive entry `e` goes when the archive's top entry is
/// received as `target`: its first component is replaced by `target`.
/// An entry without components, or with a `..` component, goes nowhere.
pub open spec fn unpack_destination(target: Seq<char>, e: Seq<char>) -> Option<Seq<char>> {
    let cs = entry_components(e);
    if cs.len() == 0 || cs.contains(dot_dot()) {
        None
    } else {
        Some(joined_under(target, cs.drop_first()))
    }
}

/// Where a received entry goes so far: `dest` is meaningful once some
/// component has been seen.
spec fn unpack_state(
    target: Seq<char>,
    ps: Seq<Seq<char>>,
    dest: Seq<char>,
    seen: bool,
    bad: bool,
) -> bool {
    &&& seen == (ps.len() > 0)
    &&& bad == ps.contains(dot_dot())
    &&& ps.len() > 0 ==> dest == joined_under(target, ps.drop_first())
}

fn close_step(
    target: &Vec<char>,
    dest: &mut Vec<char>,
    seen: &mut bool,
    bad: &mut bool,
    cur: &Vec<char>,
    Ghost(ps): Ghost<Seq<Seq<char>>>,
)
    requires
        unpack_state(target@, ps, old(dest)@, *old(seen), *old(bad)),
    ensures
        unpack_state(target@, close_piece(ps, cur@), final(dest)@, *final(seen), *final(bad)),
{
    let is_dot = cur.len() == 1 && cur[0] == '.';
    if cur.len() == 0 || is_dot {
        proof {
            if is_dot {
                assert(cur@ == seq!['.']);
            }
        }
        return;
    }
    assert(cur@ != seq!['.']);
    let is_dot_dot = cur.len() == 2 && cur[0] == '.' && cur[1] == '.';
    let ghost nps = ps.push(cur@);
    proof {
        if is_dot_dot {
            assert(cur@ == dot_dot());
        } else {
            assert(cur@ != dot_dot());
        }
        assert(nps.last() == cur@);
        assert forall|x: Seq<char>| nps.contains(x) <==> (ps.contains(x) || x == cur@) by {
            if ps.contains(x) {
                let j = choose|j: int| 0 <= j < ps.len() && ps[j] == x;
                assert(nps[j] == x);
            }
            if nps.contains(x) {
                let j = choose|j: int| 0 <= j < nps.len() && nps[j] == x;
                if j < ps.len() {
                    assert(ps[j] == x);
                }
            }
        }
    }
    if *seen {
        let nd = join_chars(dest, cur);
        *dest = nd;
        proof {
            assert(nps.drop_first().drop_last() == ps.drop_first());
            assert(nps.drop_first().last() == cur@);
        }
    } else {
        *dest = slice_chars(target, 0, target.len());
        proof {
            assert(target@.subrange(0, target@.len() as int) == target@);
            assert(nps.drop_first().len() == 0);
        }
    }
    *seen = true;
    *bad = *bad || is_dot_dot;
}

/// The path at which the archive entry named `entry` is written when the
/// archive's top entry is received as `target`; none where the entry is
/// to be skipped.
pub fn entry_destination(target: &str, entry: &str) -> (r: Option<String>)
    ensures
        match unpack_destination(target@, entry@) {
            Some(d) => r is Some && r->0@ == d,
            None => r is None,
        },
{
    let t = chars_of(target);
    let e = chars_of(entry);
    let mut dest: Vec<char> = Vec::new();
    let mut seen = false;
    let mut bad = false;
    let mut cur: Vec<char> = Vec::new();
    let ghost mut ps: Seq<Seq<char>> = Seq::empty();
    let mut i: usize = 0;
    while i < e.len()
        invariant
            i <= e.len(),
            e@ == entry@,
            t@ == target@,
            scan_pieces(e@.take(i as int)) == (ps, cur@),
            unpack_state(t@, ps, dest@, seen, bad),
        decreases e.len() - i,
    {
        let c = e[i];
        assert(e@.take(i + 1).drop_last() == e@.take(i as int));
        assert(e@.take(i + 1).last() == c);
        if c == '/' {
            close_step(&t, &mut dest, &mut seen, &mut bad, &cur, Ghost(ps));
            proof {
                ps = close_piece(ps, cur@);
            }
            cur = Vec::new();
        } else {
            cur.push(c);
        }
        i = i + 1;
    }
    assert(e@.take(e.len() as int) == e@);
    close_step(&t, &mut dest, &mut seen, &mut bad, &cur, Ghost(ps));
    if !seen || bad {
        None
    } else {
        Some(string_of(&dest))
    }
}

proof fn lemma_scan_plain_tail(x: Seq<char>, p: Seq<char>)
    requires
        forall|i: int| 0 <= i < p.len() ==> p[i] != '/',
    ensures
        scan_pieces(x + p) == (scan_pieces(x).0, scan_pieces(x).1 + p),
    decreases p.len(),
{
    if p.len() == 0 {
        assert(x + p =~= x);
        assert(scan_pieces(x).1 + p =~= scan_pieces(x).1);
    } else {
        let q = p.drop_last();
        lemma_scan_plain_tail(x, q);
        assert((x + p).drop_last() =~= x + q);
        assert((x + p).last() == p.last());
        assert((scan_pieces(x).1 + q).push(p.last()) =~= scan_pieces(x).1 + p);
    }
}

proof fn lemma_plain_entry(a: Seq<char>)
    requires
        is_plain_name(a),
    ensures
        scan_pieces(a) == (Seq::<Seq<char>>::empty(), a),
{
    lemma_scan_plain_tail(Seq::empty(), a);
    assert(Seq::<char>::empty() + a =~= a);
    assert(Seq::<char>::empty() + a =~= a);
}

/// Every entry that has components and no `..` among them is unpacked, at
/// the target joined with its components after the first, whatever
/// characters the components hold.
pub proof fn law_every_safe_entry_is_unpacked(target: Seq<char>, e: Seq<char>)
    requires
        entry_components(e).len() > 0,
        !entry_components(e).contains(dot_dot()),
    ensures
        unpack_destination(target, e) == Some(joined_under(target, entry_components(e).drop_first())),
{
}

/// The archive's top entry, whatever its name, is unpacked at the target
/// itself.
pub proof fn law_top_entry_is_the_target(target: Seq<char>, top: Seq<char>)
    requires
        is_plain_name(top),
    ensures
        unpack_destination(target, top) == Some(target),
        unpack_destination(target, top.push('/')) == Some(target),
{
    lemma_plain_entry(top);
    assert(seq![top].drop_first() =~= Seq::<Seq<char>>::empty());
    assert(!seq![top].contains(dot_dot())) by {
        if seq![top].contains(dot_dot()) {
            let j = choose|j: int| 0 <= j < 1 && seq![top][j] == dot_dot();
            assert(seq![top][j] == top);
        }
    }
    assert(Seq::<Seq<char>>::empty().push(top) =~= seq![top]);
    assert(top.push('/').drop_last() =~= top);
    assert(scan_pieces(Seq::<char>::empty()) == (
        Seq::<Seq<char>>::empty(),
        Seq::<char>::empty(),
    ));
}

/// An entry directly inside the archive's top entry is unpacked at the
/// target joined with the entry's own name, whatever characters either
/// name holds (a leading `.` included).
pub proof fn law_child_entry_goes_under_target(
    target: Seq<char>,
    top: Seq<char>,
    child: Seq<char>,
)
    requires
        is_plain_name(top),
        is_plain_name(child),
    ensures
        unpack_destination(target, top + seq!['/'] + child) == Some(join(target, child)),
{
    let x = top.push('/');
    assert(top + seq!['/'] + child =~= x + child);
    lemma_plain_entry(top);
    assert(x.drop_last() =~= top);
    assert(scan_pieces(x) == (seq![top], Seq::<char>::empty())) by {
        assert(Seq::<Seq<char>>::empty().push(top) =~= seq![top]);
    }
    lemma_scan_plain_tail(x, child);
    assert(Seq::<char>::empty() + child =~= child);
    let cs = seq![top].push(child);
    assert(entry_components(x + child) == cs);
    assert(!cs.contains(dot_dot())) by {
        if cs.contains(dot_dot()) {
            let j = choose|j: int| 0 <= j < cs.len() && cs[j] == dot_dot();
            assert(cs[j] == top || cs[j] == child);
        }
    }
    assert(cs.drop_first() =~= seq![child]);
    assert(seq![child].drop_last() =~= Seq::<Seq<char>>::empty());
    assert(joined_under(target, Seq::<Seq<char>>::empty()) == target);
    assert(joined_under(target, seq![child]) == join(target, child));
    assert(unpack_destination(target, x + child) == Some(join(target, child)));
}

} // verus!

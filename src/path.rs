//! Lexical normalization of absolute paths: empty and `.` segments vanish,
//! and `..` removes the segment before it (never going above the root).

use vstd::prelude::*;

verus! {

pub open spec fn is_absolute(p: Seq<char>) -> bool {
    p.len() > 0 && p[0] == '/'
}

/// A segment that names an entry: neither empty, nor `.`, nor `..`.
pub open spec fn is_clean_segment(seg: Seq<char>) -> bool {
    seg.len() > 0 && seg != seq!['.'] && seg != seq!['.', '.'] && !seg.contains('/')
}

/// The segments after one more segment of the path is read.
pub open spec fn push_segment(stack: Seq<Seq<char>>, seg: Seq<char>) -> Seq<Seq<char>> {
    if seg.len() == 0 || seg == seq!['.'] {
        stack
    } else if seg == seq!['.', '.'] {
        if stack.len() > 0 {
            stack.drop_last()
        } else {
            stack
        }
    } else {
        stack.push(seg)
    }
}

/// The segments left after reading `p`, with `stack` read before it and
/// `cur` the segment in progress.
pub open spec fn scan_path(p: Seq<char>, stack: Seq<Seq<char>>, cur: Seq<char>) -> Seq<Seq<char>>
    decreases p.len(),
{
    if p.len() == 0 {
        push_segment(stack, cur)
    } else if p[0] == '/' {
        scan_path(p.drop_first(), push_segment(stack, cur), Seq::empty())
    } else {
        scan_path(p.drop_first(), stack, cur.push(p[0]))
    }
}

pub open spec fn join_segments(segs: Seq<Seq<char>>) -> Seq<char>
    decreases segs.len(),
{
    if segs.len() == 0 {
        Seq::empty()
    } else {
        join_segments(segs.drop_last()) + seq!['/'] + segs.last()
    }
}

/// The normal form of a path: `/` followed by its remaining segments
/// joined with `/`.
pub open spec fn normalize_path(p: Seq<char>) -> Seq<char> {
    let segs = scan_path(p, Seq::empty(), Seq::empty());
    if segs.len() == 0 {
        seq!['/']
    } else {
        join_segments(segs)
    }
}

pub open spec fn segs_of(p: Seq<char>, ranges: Seq<(usize, usize)>) -> Seq<Seq<char>> {
    ranges.map_values(|r: (usize, usize)| p.subrange(r.0 as int, r.1 as int))
}

pub open spec fn ranges_valid(p: Seq<char>, ranges: Seq<(usize, usize)>) -> bool {
    forall|i: int| 0 <= i < ranges.len() ==> (#[trigger] ranges[i]).0 <= ranges[i].1 <= p.len()
}

fn push_seg(stack: &mut Vec<(usize, usize)>, p: &str, a: usize, b: usize)
    requires
        a <= b <= p@.len(),
        ranges_valid(p@, old(stack)@),
    ensures
        ranges_valid(p@, final(stack)@),
        segs_of(p@, final(stack)@) == push_segment(segs_of(p@, old(stack)@), p@.subrange(a as int, b as int)),
{
    let ghost seg = p@.subrange(a as int, b as int);
    let len = b - a;
    if len == 0 {
        return;
    }
    let c0 = p.get_char(a);
    assert(seg[0] == c0);
    if len == 1 && c0 == '.' {
        assert(seg =~= seq!['.']);
        return;
    }
    if len == 2 {
        let c1 = p.get_char(a + 1);
        assert(seg[1] == c1);
        if c0 == '.' && c1 == '.' {
            assert(seg =~= seq!['.', '.']);
            if stack.len() > 0 {
                stack.pop();
                assert(segs_of(p@, stack@) =~= segs_of(p@, old(stack)@).drop_last());
            }
            return;
        }
        assert(seg != seq!['.', '.']) by {
            if seg == seq!['.', '.'] {
                assert(seq!['.', '.'][0] == '.' && seq!['.', '.'][1] == '.');
            }
        }
    } else {
        assert(seg != seq!['.', '.']) by {
            if seg == seq!['.', '.'] {
                assert(seq!['.', '.'].len() == 2);
            }
        }
    }
    assert(seg != seq!['.']) by {
        if seg == seq!['.'] {
            assert(seq!['.'].len() == 1);
            assert(seq!['.'][0] == '.');
        }
    }
    stack.push((a, b));
    assert(segs_of(p@, stack@) =~= segs_of(p@, old(stack)@).push(seg));
}

/// The normal form of the path `p`.
pub fn normalize(p: &str) -> (r: String)
    ensures
        r@ == normalize_path(p@),
{
    let n = p.unicode_len();
    let mut stack: Vec<(usize, usize)> = Vec::new();
    let mut start: usize = 0;
    let mut i: usize = 0;
    assert(p@.skip(0) =~= p@);
    assert(p@.subrange(0, 0) =~= Seq::<char>::empty());
    assert(segs_of(p@, stack@) =~= Seq::<Seq<char>>::empty());
    while i < n
        invariant
            n == p@.len(),
            start <= i <= n,
            ranges_valid(p@, stack@),
            scan_path(p@, Seq::empty(), Seq::empty()) == scan_path(
                p@.skip(i as int),
                segs_of(p@, stack@),
                p@.subrange(start as int, i as int),
            ),
        decreases n - i,
    {
        let c = p.get_char(i);
        assert(p@.skip(i as int)[0] == c);
        assert(p@.skip(i as int).drop_first() =~= p@.skip(i + 1));
        if c == '/' {
            push_seg(&mut stack, p, start, i);
            start = i + 1;
            assert(p@.subrange(start as int, start as int) =~= Seq::<char>::empty());
        } else {
            assert(p@.subrange(start as int, i as int).push(c) =~= p@.subrange(start as int, i + 1));
        }
        i = i + 1;
    }
    push_seg(&mut stack, p, start, n);
    let ghost segs = segs_of(p@, stack@);
    assert(segs == scan_path(p@, Seq::empty(), Seq::empty()));
    let mut out = String::new();
    if stack.len() == 0 {
        proof {
            reveal_strlit("/");
        }
        out.append("/");
        assert(out@ =~= seq!['/']);
        return out;
    }
    let mut k: usize = 0;
    assert(segs.take(0) =~= Seq::<Seq<char>>::empty());
    while k < stack.len()
        invariant
            k <= stack@.len(),
            ranges_valid(p@, stack@),
            segs == segs_of(p@, stack@),
            out@ == join_segments(segs.take(k as int)),
        decreases stack@.len() - k,
    {
        let (a, b) = stack[k];
        proof {
            reveal_strlit("/");
        }
        out.append("/");
        out.append(p.substring_char(a, b));
        assert(segs.take(k + 1).drop_last() =~= segs.take(k as int));
        assert(segs.take(k + 1).last() == segs[k as int]);
        assert(out@ =~= join_segments(segs.take(k + 1)));
        k = k + 1;
    }
    assert(segs.take(k as int) =~= segs);
    out
}

proof fn lemma_scan_clean(p: Seq<char>, stack: Seq<Seq<char>>, cur: Seq<char>)
    requires
        forall|i: int| 0 <= i < stack.len() ==> is_clean_segment(#[trigger] stack[i]),
        !cur.contains('/'),
    ensures
        forall|i: int|
            0 <= i < scan_path(p, stack, cur).len() ==> is_clean_segment(
                #[trigger] scan_path(p, stack, cur)[i],
            ),
    decreases p.len(),
{
    let next = push_segment(stack, cur);
    assert forall|i: int| 0 <= i < next.len() implies is_clean_segment(#[trigger] next[i]) by {
        if cur.len() == 0 || cur == seq!['.'] {
        } else if cur == seq!['.', '.'] {
            if stack.len() > 0 {
                assert(next[i] == stack[i]);
            }
        } else {
            if i < stack.len() {
                assert(next[i] == stack[i]);
            }
        }
    }
    if p.len() == 0 {
        assert(scan_path(p, stack, cur) == next);
    } else {
        if p[0] == '/' {
            assert(scan_path(p, stack, cur) == scan_path(p.drop_first(), next, Seq::empty()));
            assert(!Seq::<char>::empty().contains('/'));
            lemma_scan_clean(p.drop_first(), next, Seq::empty());
        } else {
            assert(!cur.push(p[0]).contains('/')) by {
                if cur.push(p[0]).contains('/') {
                    let j = choose|j: int| 0 <= j < cur.push(p[0]).len() && cur.push(p[0])[j] == '/';
                    if j < cur.len() {
                        assert(cur[j] == '/');
                    }
                }
            }
            assert(scan_path(p, stack, cur) == scan_path(p.drop_first(), stack, cur.push(p[0])));
            lemma_scan_clean(p.drop_first(), stack, cur.push(p[0]));
        }
    }
}

/// Law: a normalized path is absolute and names each entry by a clean
/// segment, with no empty, `.` or `..` segment left in it.
pub proof fn lemma_normalized_is_clean(p: Seq<char>)
    ensures
        is_absolute(normalize_path(p)),
        forall|i: int|
            0 <= i < scan_path(p, Seq::empty(), Seq::empty()).len() ==> is_clean_segment(
                #[trigger] scan_path(p, Seq::empty(), Seq::empty())[i],
            ),
        scan_path(p, Seq::empty(), Seq::empty()).len() > 0 ==> normalize_path(p) == join_segments(
            scan_path(p, Seq::empty(), Seq::empty()),
        ),
{
    lemma_scan_clean(p, Seq::empty(), Seq::empty());
    let segs = scan_path(p, Seq::empty(), Seq::empty());
    if segs.len() > 0 {
        lemma_join_starts_with_slash(segs);
    }
}

proof fn lemma_join_starts_with_slash(segs: Seq<Seq<char>>)
    requires
        segs.len() > 0,
    ensures
        is_absolute(join_segments(segs)),
    decreases segs.len(),
{
    if segs.len() > 1 {
        lemma_join_starts_with_slash(segs.drop_last());
    } else {
        assert(join_segments(segs.drop_last()) == Seq::<char>::empty());
        assert((Seq::<char>::empty() + seq!['/'] + segs.last())[0] == '/');
    }
}

} // verus!

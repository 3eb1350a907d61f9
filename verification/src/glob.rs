//! The path / host glob used by the capability satisfies-relation.
//!
//! A pattern and a candidate are split on `/`. `**` matches zero or more
//! segments, `*` matches exactly one segment, `*.suffix` matches one
//! segment that ends with `.suffix` and is strictly longer than it, and
//! any other segment matches only itself.

use vstd::prelude::*;

use crate::text::chars_of;

verus! {

/// The segments of `s` between `/` separators, as `str::split('/')`
/// yields them: one more segment than there are separators.
pub open spec fn split_slash(s: Seq<char>) -> Seq<Seq<char>>
    decreases s.len(),
{
    if s.len() == 0 {
        seq![Seq::<char>::empty()]
    } else {
        let init = split_slash(s.drop_last());
        if s.last() == '/' {
            init.push(Seq::<char>::empty())
        } else {
            init.update(init.len() - 1, init.last().push(s.last()))
        }
    }
}

/// `split_slash` always yields at least one segment.
pub proof fn lemma_split_slash_nonempty(s: Seq<char>)
    ensures
        split_slash(s).len() >= 1,
    decreases s.len(),
{
    if s.len() > 0 {
        lemma_split_slash_nonempty(s.drop_last());
    }
}

/// The segment `**`.
pub open spec fn double_star() -> Seq<char> {
    seq!['*', '*']
}

/// Single-segment match: `*`, host-style `*.suffix`, or exact equality.
pub open spec fn segment_match(p: Seq<char>, c: Seq<char>) -> bool {
    if p == seq!['*'] {
        true
    } else if p.len() >= 2 && p[0] == '*' && p[1] == '.' {
        let dotted = p.subrange(1, p.len() as int);
        &&& p.len() > 2
        &&& c.len() > dotted.len()
        &&& c.subrange(c.len() - dotted.len(), c.len() as int) == dotted
    } else {
        p == c
    }
}

/// Segment-sequence match. `**` tries every suffix of the candidate.
pub open spec fn segs_match(p: Seq<Seq<char>>, c: Seq<Seq<char>>) -> bool
    decreases p.len(), 1int, 0int,
{
    if p.len() == 0 {
        c.len() == 0
    } else if p[0] == double_star() {
        star_upto(p, c, c.len() as int + 1)
    } else if c.len() == 0 {
        false
    } else {
        segment_match(p[0], c[0]) && segs_match(p.drop_first(), c.drop_first())
    }
}

/// Some `i < k` lets the rest of the pattern (after a leading `**`) match
/// the candidate suffix starting at segment `i`.
pub open spec fn star_upto(p: Seq<Seq<char>>, c: Seq<Seq<char>>, k: int) -> bool
    decreases p.len(), 0int, k,
{
    if p.len() == 0 || k <= 0 {
        false
    } else {
        star_upto(p, c, k - 1) || segs_match(p.drop_first(), c.subrange(k - 1, c.len() as int))
    }
}

/// `star_upto` is an existential over the split point.
pub proof fn lemma_star_upto(p: Seq<Seq<char>>, c: Seq<Seq<char>>, k: int)
    requires
        p.len() > 0,
        0 <= k <= c.len() + 1,
    ensures
        star_upto(p, c, k) <==> exists|i: int|
            0 <= i < k && #[trigger] segs_match(p.drop_first(), c.subrange(i, c.len() as int)),
    decreases k,
{
    if k > 0 {
        lemma_star_upto(p, c, k - 1);
        if star_upto(p, c, k) {
            if !star_upto(p, c, k - 1) {
                assert(segs_match(p.drop_first(), c.subrange(k - 1, c.len() as int)));
            }
        }
    }
}

/// Whole-string glob match.
pub open spec fn pattern_matches(pattern: Seq<char>, candidate: Seq<char>) -> bool {
    segs_match(split_slash(pattern), split_slash(candidate))
}

/// The character views of a sequence of character vectors.
pub open spec fn segs_view(v: Seq<Vec<char>>) -> Seq<Seq<char>> {
    v.map_values(|x: Vec<char>| x@)
}

/// Splits `s` on `/` into its segments.
pub fn split_slash_exec(s: &str) -> (r: Vec<Vec<char>>)
    ensures
        segs_view(r@) == split_slash(s@),
{
    let cs = chars_of(s);
    let mut out: Vec<Vec<char>> = Vec::new();
    let mut cur: Vec<char> = Vec::new();
    let mut i: usize = 0;
    while i < cs.len()
        invariant
            cs@ == s@,
            i <= cs@.len(),
            segs_view(out@).push(cur@) == split_slash(cs@.subrange(0, i as int)),
        decreases cs@.len() - i,
    {
        let c = cs[i];
        let ghost pre = cs@.subrange(0, i as int);
        let ghost next = cs@.subrange(0, i + 1);
        assert(next.drop_last() =~= pre);
        assert(next.last() == c);
        proof { lemma_split_slash_nonempty(pre); }
        if c == '/' {
            let ghost old_out = out@;
            let ghost old_cur = cur;
            out.push(cur);
            cur = Vec::new();
            assert(segs_view(out@) =~= segs_view(old_out).push(old_cur@)) by {
                assert(out@ == old_out.push(old_cur));
            };
            assert(segs_view(out@).push(cur@) =~= split_slash(next));
        } else {
            let ghost old_cur = cur@;
            cur.push(c);
            assert(segs_view(out@).push(cur@) =~= split_slash(next));
        }
        i = i + 1;
    }
    assert(cs@.subrange(0, cs@.len() as int) =~= cs@);
    let ghost before = out@;
    out.push(cur);
    assert(segs_view(out@) =~= segs_view(before).push(cur@));
    out
}

/// Whether `c` starts with `p` at position `at`.
fn chars_match_at(c: &Vec<char>, at: usize, p: &Vec<char>, from: usize) -> (r: bool)
    requires
        at + (p@.len() - from) == c@.len(),
        from <= p@.len(),
    ensures
        r == (c@.subrange(at as int, c@.len() as int) == p@.subrange(from as int, p@.len() as int)),
{
    let n = p.len() - from;
    let _ = c.len();
    let mut k: usize = 0;
    while k < n
        invariant
            n == p@.len() - from,
            at + n == c@.len(),
            c@.len() <= usize::MAX,
            p@.len() <= usize::MAX,
            from <= p@.len(),
            k <= n,
            c@.subrange(at as int, at + k) == p@.subrange(from as int, from + k),
        decreases n - k,
    {
        if c[at + k] != p[from + k] {
            assert(c@.subrange(at as int, c@.len() as int)[k as int] != p@.subrange(
                from as int,
                p@.len() as int,
            )[k as int]);
            return false;
        }
        assert(c@.subrange(at as int, at + k + 1) =~= c@.subrange(at as int, at + k).push(c@[at + k]));
        assert(p@.subrange(from as int, from + k + 1) =~= p@.subrange(from as int, from + k).push(p@[from + k]));
        k = k + 1;
    }
    true
}

/// Whether two character vectors are equal.
fn chars_eq(a: &Vec<char>, b: &Vec<char>) -> (r: bool)
    ensures
        r == (a@ == b@),
{
    if a.len() != b.len() {
        return false;
    }
    let r = chars_match_at(a, 0, b, 0);
    assert(a@.subrange(0, a@.len() as int) =~= a@);
    assert(b@.subrange(0, b@.len() as int) =~= b@);
    r
}

/// Single-segment match over character vectors.
pub fn segment_matches(p: &Vec<char>, c: &Vec<char>) -> (r: bool)
    ensures
        r == segment_match(p@, c@),
{
    if p.len() == 1 && p[0] == '*' {
        assert(p@ =~= seq!['*']);
        return true;
    }
    assert(p@ != seq!['*']) by {
        if p@ == seq!['*'] {
            assert(p@.len() == 1 && p@[0] == '*');
        }
    };
    if p.len() >= 2 && p[0] == '*' && p[1] == '.' {
        if p.len() == 2 {
            return false;
        }
        let dlen = p.len() - 1;
        if c.len() <= dlen {
            return false;
        }
        let at = c.len() - dlen;
        return chars_match_at(c, at, p, 1);
    }
    chars_eq(p, c)
}

/// Segment-sequence match from positions `pi` / `ci`.
pub fn glob_segs(p: &Vec<Vec<char>>, pi: usize, c: &Vec<Vec<char>>, ci: usize) -> (r: bool)
    requires
        pi <= p@.len(),
        ci <= c@.len(),
    ensures
        r == segs_match(
            segs_view(p@).subrange(pi as int, p@.len() as int),
            segs_view(c@).subrange(ci as int, c@.len() as int),
        ),
    decreases p@.len() - pi,
{
    let ghost ps = segs_view(p@).subrange(pi as int, p@.len() as int);
    let ghost cs = segs_view(c@).subrange(ci as int, c@.len() as int);
    if pi == p.len() {
        return ci == c.len();
    }
    let _ = p.len();
    assert(ps[0] == p@[pi as int]@);
    assert(ps.drop_first() =~= segs_view(p@).subrange(pi + 1, p@.len() as int));
    let is_star = p[pi].len() == 2 && p[pi][0] == '*' && p[pi][1] == '*';
    assert(is_star == (ps[0] == double_star())) by {
        if ps[0] == double_star() {
            assert(ps[0].len() == 2 && ps[0][0] == '*' && ps[0][1] == '*');
        }
        if is_star {
            assert(ps[0] =~= double_star());
        }
    };
    if is_star {
        let n = c.len() - ci;
        assert(cs.len() == n);
        let mut i: usize = 0;
        loop
            invariant
                ci + n == c@.len(),
                pi < p@.len(),
                p@.len() <= usize::MAX,
                c@.len() <= usize::MAX,
                ps == segs_view(p@).subrange(pi as int, p@.len() as int),
                cs == segs_view(c@).subrange(ci as int, c@.len() as int),
                ps.len() > 0,
                ps[0] == double_star(),
                i <= n,
                !star_upto(ps, cs, i as int),
            decreases n - i,
        {
            let m = glob_segs(p, pi + 1, c, ci + i);
            assert(cs.subrange(i as int, cs.len() as int) =~= segs_view(c@).subrange(
                (ci + i) as int,
                c@.len() as int,
            ));
            assert(ps.drop_first() =~= segs_view(p@).subrange(pi + 1, p@.len() as int));
            if m {
                assert(star_upto(ps, cs, i + 1));
                assert(cs.len() + 1 == n + 1);
                proof {
                    lemma_star_upto(ps, cs, cs.len() as int + 1);
                    lemma_star_upto(ps, cs, i + 1);
                    assert(segs_match(ps.drop_first(), cs.subrange(i as int, cs.len() as int)));
                    assert(star_upto(ps, cs, cs.len() as int + 1));
                    assert(segs_match(ps, cs));
                }
                return true;
            }
            if i == n {
                assert(!star_upto(ps, cs, i + 1));
                assert(cs.len() + 1 == i + 1);
                return false;
            }
            i = i + 1;
        }
    }
    if ci == c.len() {
        return false;
    }
    assert(cs[0] == c@[ci as int]@);
    assert(cs.drop_first() =~= segs_view(c@).subrange(ci + 1, c@.len() as int));
    if !segment_matches(&p[pi], &c[ci]) {
        return false;
    }
    glob_segs(p, pi + 1, c, ci + 1)
}

/// Whole-string glob match: split both on `/`, then match segment-wise.
pub fn glob_matches(pattern: &str, candidate: &str) -> (r: bool)
    ensures
        r == pattern_matches(pattern@, candidate@),
{
    let p = split_slash_exec(pattern);
    let c = split_slash_exec(candidate);
    let r = glob_segs(&p, 0, &c, 0);
    assert(segs_view(p@).subrange(0, p@.len() as int) =~= segs_view(p@));
    assert(segs_view(c@).subrange(0, c@.len() as int) =~= segs_view(c@));
    r
}

} // verus!

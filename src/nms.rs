//! Greedy non-maximum suppression over candidate boxes.
use vstd::prelude::*;
use crate::fixed::FIXED_ONE;
use crate::tensor::RawCandidate;

verus! {

/// The overlap of the spans `[2c1 - e1, 2c1 + e1]` and `[2c2 - e2, 2c2 + e2]`
/// (a box side given by its center `c` and extent `e`, in half units).
pub open spec fn span_overlap(c1: int, e1: int, c2: int, e2: int) -> int {
    let lo = if 2 * c1 - e1 >= 2 * c2 - e2 { 2 * c1 - e1 } else { 2 * c2 - e2 };
    let hi = if 2 * c1 + e1 <= 2 * c2 + e2 { 2 * c1 + e1 } else { 2 * c2 + e2 };
    if hi > lo { hi - lo } else { 0 }
}

/// The area shared by two candidate boxes, in square half units.
pub open spec fn intersection(a: RawCandidate, b: RawCandidate) -> int {
    span_overlap(a.center_x as int, a.width as int, b.center_x as int, b.width as int)
        * span_overlap(a.center_y as int, a.height as int, b.center_y as int, b.height as int)
}

/// The area of a candidate box, in square half units.
pub open spec fn area(a: RawCandidate) -> int {
    (2 * a.width) * (2 * a.height)
}

/// The area of the union of two candidate boxes, in square half units.
pub open spec fn union_area(a: RawCandidate, b: RawCandidate) -> int {
    area(a) + area(b) - intersection(a, b)
}

/// Whether the intersection over union of `a` and `b` exceeds the
/// fixed-point threshold `t`: boxes that do not meet never do.
#[verifier::opaque]
pub open spec fn overlaps(a: RawCandidate, b: RawCandidate, t: i32) -> bool {
    intersection(a, b) > 0 && intersection(a, b) * FIXED_ONE > t * union_area(a, b)
}

/// Candidate `i` comes before candidate `j` in suppression order: higher
/// confidence first, the lower index first among equal confidences.
pub open spec fn precedes(s: Seq<RawCandidate>, i: int, j: int) -> bool {
    s[i].confidence > s[j].confidence || (s[i].confidence == s[j].confidence && i < j)
}

/// Candidate `i` passes the confidence threshold.
pub open spec fn eligible(s: Seq<RawCandidate>, i: int, conf: i32) -> bool {
    s[i].confidence > conf
}

/// Candidate `i` is overlapped by a kept candidate that comes before it.
pub open spec fn covered(s: Seq<RawCandidate>, t: i32, keep: Seq<usize>, i: int) -> bool {
    exists|k: int|
        0 <= k < keep.len() && #[trigger] precedes(s, keep[k] as int, i) && overlaps(s[keep[k] as int], s[i], t)
}

/// `keep` lists distinct eligible candidates in suppression order, no two
/// of which overlap.
pub open spec fn kept_well(s: Seq<RawCandidate>, conf: i32, t: i32, keep: Seq<usize>) -> bool {
    &&& keep.no_duplicates()
    &&& forall|k: int| 0 <= k < keep.len() ==> keep[k] < s.len() && eligible(s, keep[k] as int, conf)
    &&& forall|a: int, b: int| 0 <= a < b < keep.len() ==> precedes(s, keep[a] as int, keep[b] as int)
    &&& forall|a: int, b: int|
        0 <= a < keep.len() && 0 <= b < keep.len() && a != b
            ==> !overlaps(s[keep[a] as int], s[keep[b] as int], t)
}

/// `keep` is the outcome of greedy suppression of `s`: walking the eligible
/// candidates in suppression order, a candidate is kept exactly when it
/// overlaps no candidate kept before it. `keep` lists the kept indices in
/// that order.
pub open spec fn is_greedy_selection(s: Seq<RawCandidate>, conf: i32, t: i32, keep: Seq<usize>) -> bool {
    &&& kept_well(s, conf, t, keep)
    &&& forall|i: int|
        0 <= i < s.len() && eligible(s, i, conf) && !keep.contains(i as usize) ==> covered(s, t, keep, i)
}

/// Suppression never keeps more candidates than it is given, and no two
/// kept candidates have an intersection over union above the threshold.
pub proof fn lemma_suppress_sound(s: Seq<RawCandidate>, conf: i32, t: i32, keep: Seq<usize>)
    requires
        is_greedy_selection(s, conf, t, keep),
    ensures
        keep.len() <= s.len(),
        forall|a: int, b: int|
            0 <= a < keep.len() && 0 <= b < keep.len() && a != b
                ==> !overlaps(s[keep[a] as int], s[keep[b] as int], t),
{
    lemma_distinct_below(keep, s.len() as int);
}

/// A measure that drops when moving to a candidate that comes before.
spec fn rank(s: Seq<RawCandidate>, i: int) -> int {
    (0x8000_0000 - s[i].confidence) * (s.len() + 1) + i
}

/// Some candidate satisfying `p` has none satisfying `p` before it.
proof fn lemma_first_in_order(s: Seq<RawCandidate>, p: spec_fn(int) -> bool, i: int) -> (m: int)
    requires
        0 <= i < s.len(),
        p(i),
    ensures
        0 <= m < s.len(),
        p(m),
        forall|j: int| 0 <= j < s.len() && p(j) ==> !precedes(s, j, m),
    decreases rank(s, i),
{
    if exists|j: int| 0 <= j < s.len() && p(j) && precedes(s, j, i) {
        let j = choose|j: int| 0 <= j < s.len() && p(j) && precedes(s, j, i);
        let n = s.len() as int;
        let ai = 0x8000_0000 - s[i].confidence;
        let aj = 0x8000_0000 - s[j].confidence;
        assert(aj >= 1 && ai >= 1);
        if s[j].confidence > s[i].confidence {
            assert(aj * (n + 1) + j < ai * (n + 1) + i) by (nonlinear_arith)
                requires aj + 1 <= ai, 0 <= j < n, 0 <= i, n >= 0;
        }
        assert(rank(s, j) < rank(s, i));
        assert(rank(s, j) >= 0) by (nonlinear_arith)
            requires rank(s, j) == aj * (n + 1) + j, aj >= 1, n >= 0, j >= 0;
        lemma_first_in_order(s, p, j)
    } else {
        i
    }
}

proof fn lemma_no_first_difference(s: Seq<RawCandidate>, conf: i32, t: i32, ka: Seq<usize>, kb: Seq<usize>, m: int)
    requires
        is_greedy_selection(s, conf, t, ka),
        is_greedy_selection(s, conf, t, kb),
        s.len() <= usize::MAX,
        0 <= m < s.len(),
        ka.contains(m as usize),
        forall|j: int| 0 <= j < s.len() && precedes(s, j, m) ==> ka.contains(j as usize) == kb.contains(j as usize),
    ensures
        kb.contains(m as usize),
{
    if !kb.contains(m as usize) {
        let b = choose|b: int| 0 <= b < ka.len() && ka[b] == m as usize;
        assert(eligible(s, m, conf));
        assert(covered(s, t, kb, m));
        let k = choose|k: int|
            0 <= k < kb.len() && #[trigger] precedes(s, kb[k] as int, m) && overlaps(s[kb[k] as int], s[m], t);
        let j = kb[k] as int;
        assert(kb.contains(j as usize));
        assert(ka.contains(j as usize));
        let a = choose|a: int| 0 <= a < ka.len() && ka[a] == j as usize;
        assert(a != b);
        assert(!overlaps(s[ka[a] as int], s[ka[b] as int], t));
    }
}

proof fn lemma_same_members(s: Seq<RawCandidate>, conf: i32, t: i32, k1: Seq<usize>, k2: Seq<usize>)
    requires
        s.len() <= usize::MAX,
        is_greedy_selection(s, conf, t, k1),
        is_greedy_selection(s, conf, t, k2),
    ensures
        forall|x: usize| k1.contains(x) <==> k2.contains(x),
{
    assert forall|x: usize| k1.contains(x) <==> k2.contains(x) by {
        if k1.contains(x) != k2.contains(x) {
            let p = |j: int| 0 <= j < s.len() && k1.contains(j as usize) != k2.contains(j as usize);
            let i = if k1.contains(x) {
                let a = choose|a: int| 0 <= a < k1.len() && k1[a] == x;
                x as int
            } else {
                let a = choose|a: int| 0 <= a < k2.len() && k2[a] == x;
                x as int
            };
            assert(p(i));
            let m = lemma_first_in_order(s, p, i);
            assert forall|j: int| 0 <= j < s.len() && precedes(s, j, m) implies k1.contains(j as usize) == k2.contains(j as usize) by {
                assert(!p(j));
            }
            if k1.contains(m as usize) {
                lemma_no_first_difference(s, conf, t, k1, k2, m);
            } else {
                lemma_no_first_difference(s, conf, t, k2, k1, m);
            }
        }
    }
}

proof fn lemma_ordered_same_members(s: Seq<RawCandidate>, k1: Seq<usize>, k2: Seq<usize>)
    requires
        k1.no_duplicates(),
        k2.no_duplicates(),
        forall|k: int| 0 <= k < k1.len() ==> k1[k] < s.len(),
        forall|k: int| 0 <= k < k2.len() ==> k2[k] < s.len(),
        forall|a: int, b: int| 0 <= a < b < k1.len() ==> precedes(s, k1[a] as int, k1[b] as int),
        forall|a: int, b: int| 0 <= a < b < k2.len() ==> precedes(s, k2[a] as int, k2[b] as int),
        forall|x: usize| k1.contains(x) <==> k2.contains(x),
    ensures
        k1 == k2,
    decreases k1.len(),
{
    if k1.len() == 0 {
        if k2.len() > 0 {
            assert(k2.contains(k2[0]));
        }
        assert(k1 =~= k2);
    } else {
        assert(k1.contains(k1[0]));
        assert(k2.len() > 0);
        assert(k2.contains(k2[0]));
        if k1[0] != k2[0] {
            let p = choose|p: int| 0 <= p < k2.len() && k2[p] == k1[0];
            let q = choose|q: int| 0 <= q < k1.len() && k1[q] == k2[0];
            assert(p > 0 && q > 0);
            assert(precedes(s, k2[0] as int, k2[p] as int));
            assert(precedes(s, k1[0] as int, k1[q] as int));
        }
        let r1 = k1.drop_first();
        let r2 = k2.drop_first();
        assert forall|x: usize| r1.contains(x) <==> r2.contains(x) by {
            if r1.contains(x) {
                let a = choose|a: int| 0 <= a < r1.len() && r1[a] == x;
                assert(k1[a + 1] == x);
                assert(x != k1[0]);
                assert(k1.contains(x));
                let b = choose|b: int| 0 <= b < k2.len() && k2[b] == x;
                assert(b != 0);
                assert(r2[b - 1] == x);
            }
            if r2.contains(x) {
                let a = choose|a: int| 0 <= a < r2.len() && r2[a] == x;
                assert(k2[a + 1] == x);
                assert(x != k2[0]);
                assert(k2.contains(x));
                let b = choose|b: int| 0 <= b < k1.len() && k1[b] == x;
                assert(b != 0);
                assert(r1[b - 1] == x);
            }
        }
        assert forall|a: int, b: int| 0 <= a < b < r1.len() implies precedes(s, r1[a] as int, r1[b] as int) by {
            assert(r1[a] == k1[a + 1] && r1[b] == k1[b + 1]);
        }
        assert forall|a: int, b: int| 0 <= a < b < r2.len() implies precedes(s, r2[a] as int, r2[b] as int) by {
            assert(r2[a] == k2[a + 1] && r2[b] == k2[b + 1]);
        }
        lemma_ordered_same_members(s, r1, r2);
        assert(k1 =~= k2) by {
            assert forall|i: int| 0 <= i < k1.len() implies k1[i] == k2[i] by {
                if i > 0 {
                    assert(k1[i] == r1[i - 1] && k2[i] == r2[i - 1]);
                }
            }
        }
    }
}

/// Greedy suppression has one outcome: two selections of the same
/// candidates at the same thresholds are equal.
pub proof fn lemma_greedy_selection_unique(s: Seq<RawCandidate>, conf: i32, t: i32, k1: Seq<usize>, k2: Seq<usize>)
    requires
        s.len() <= usize::MAX,
        is_greedy_selection(s, conf, t, k1),
        is_greedy_selection(s, conf, t, k2),
    ensures
        k1 == k2,
{
    lemma_same_members(s, conf, t, k1, k2);
    lemma_ordered_same_members(s, k1, k2);
}

/// A sequence of distinct indices below `n` is no longer than `n`.
pub proof fn lemma_distinct_below(s: Seq<usize>, n: int)
    requires
        0 <= n,
        s.no_duplicates(),
        forall|i: int| 0 <= i < s.len() ==> s[i] < n,
    ensures
        s.len() <= n,
    decreases s.len(),
{
    if s.len() > 0 {
        let x = s.last();
        let t = s.drop_last();
        let u = t.map_values(|y: usize| if y > x { (y - 1) as usize } else { y });
        assert forall|i: int, j: int| 0 <= i < u.len() && 0 <= j < u.len() && i != j implies u[i] != u[j] by {
            assert(t[i] == s[i] && t[j] == s[j]);
            assert(s[i] != s[j]);
            assert(s[i] != x && s[j] != x) by {
                assert(s[s.len() - 1] == x);
            }
        }
        assert forall|i: int| 0 <= i < u.len() implies u[i] < n - 1 by {
            assert(t[i] == s[i]);
            assert(s[i] != x) by {
                assert(s[s.len() - 1] == x);
            }
        }
        assert(x < n) by {
            assert(s[s.len() - 1] == x);
        }
        assert(u.no_duplicates());
        lemma_distinct_below(u, n - 1);
    }
}

proof fn lemma_mul_bound(p: int, q: int, x: int, y: int)
    requires
        -x <= p <= x,
        -y <= q <= y,
    ensures
        -(x * y) <= p * q <= x * y,
{
    if p >= 0 && q >= 0 {
        assert(p * q <= x * y) by (nonlinear_arith)
            requires 0 <= p <= x, 0 <= q <= y;
        assert(0 <= p * q) by (nonlinear_arith)
            requires 0 <= p, 0 <= q;
    } else if p >= 0 {
        assert(p * (-q) <= x * y) by (nonlinear_arith)
            requires 0 <= p <= x, 0 <= -q <= y;
        assert(0 <= p * (-q)) by (nonlinear_arith)
            requires 0 <= p, 0 <= -q;
        assert(p * q == -(p * (-q))) by (nonlinear_arith);
    } else if q >= 0 {
        assert((-p) * q <= x * y) by (nonlinear_arith)
            requires 0 <= -p <= x, 0 <= q <= y;
        assert(0 <= (-p) * q) by (nonlinear_arith)
            requires 0 <= -p, 0 <= q;
        assert(p * q == -((-p) * q)) by (nonlinear_arith);
    } else {
        assert((-p) * (-q) <= x * y) by (nonlinear_arith)
            requires 0 <= -p <= x, 0 <= -q <= y;
        assert(0 <= (-p) * (-q)) by (nonlinear_arith)
            requires 0 <= -p, 0 <= -q;
        assert(p * q == (-p) * (-q)) by (nonlinear_arith);
    }
}

fn span_overlap_exec(c1: i32, e1: i32, c2: i32, e2: i32) -> (r: i128)
    ensures
        r == span_overlap(c1 as int, e1 as int, c2 as int, e2 as int),
        0 <= r <= 0x4_0000_0000,
{
    let l1 = 2 * (c1 as i128) - e1 as i128;
    let l2 = 2 * (c2 as i128) - e2 as i128;
    let h1 = 2 * (c1 as i128) + e1 as i128;
    let h2 = 2 * (c2 as i128) + e2 as i128;
    let lo = if l1 >= l2 { l1 } else { l2 };
    let hi = if h1 <= h2 { h1 } else { h2 };
    if hi > lo { hi - lo } else { 0 }
}

/// Whether the intersection over union of `a` and `b` exceeds `t`.
pub fn overlap_exceeds(a: &RawCandidate, b: &RawCandidate, t: i32) -> (r: bool)
    ensures
        r == overlaps(*a, *b, t),
{
    reveal(overlaps);
    let iw = span_overlap_exec(a.center_x, a.width, b.center_x, b.width);
    let ih = span_overlap_exec(a.center_y, a.height, b.center_y, b.height);
    proof {
        lemma_mul_bound(iw as int, ih as int, 0x4_0000_0000, 0x4_0000_0000);
        lemma_mul_bound(2 * a.width, 2 * a.height, 0x1_0000_0000, 0x1_0000_0000);
        lemma_mul_bound(2 * b.width, 2 * b.height, 0x1_0000_0000, 0x1_0000_0000);
    }
    let inter = iw * ih;
    let area_a = (2 * a.width as i128) * (2 * a.height as i128);
    let area_b = (2 * b.width as i128) * (2 * b.height as i128);
    let uni = area_a + area_b - inter;
    proof {
        lemma_mul_bound(inter as int, FIXED_ONE as int, 0x10_0000_0000_0000_0000, FIXED_ONE as int);
        lemma_mul_bound(t as int, uni as int, 0x8000_0000, 0x40_0000_0000_0000_0000);
    }
    inter > 0 && inter * (FIXED_ONE as i128) > (t as i128) * uni
}

proof fn lemma_covered_extends(s: Seq<RawCandidate>, t: i32, keep: Seq<usize>, x: usize, i: int)
    requires
        covered(s, t, keep, i),
    ensures
        covered(s, t, keep.push(x), i),
{
    let k = choose|k: int|
        0 <= k < keep.len() && #[trigger] precedes(s, keep[k] as int, i) && overlaps(s[keep[k] as int], s[i], t);
    assert(keep.push(x)[k] == keep[k]);
}

proof fn lemma_overlaps_symmetric(a: RawCandidate, b: RawCandidate, t: i32)
    ensures
        overlaps(a, b, t) == overlaps(b, a, t),
{
    reveal(overlaps);
    assert(intersection(a, b) == intersection(b, a));
}

/// Greedy non-maximum suppression: among the candidates whose confidence
/// exceeds `conf_thresh`, repeatedly keeps the first remaining one in
/// suppression order and drops every remaining one whose intersection over
/// union with it exceeds `overlap_thresh`, regardless of class. Returns the
/// kept indices in the order they were kept.
pub fn suppress(cands: &Vec<RawCandidate>, conf_thresh: i32, overlap_thresh: i32) -> (keep: Vec<usize>)
    ensures
        is_greedy_selection(cands@, conf_thresh, overlap_thresh, keep@),
{
    let n = cands.len();
    let ghost s = cands@;
    let mut done: Vec<bool> = Vec::new();
    let mut i: usize = 0;
    while i < n
        invariant
            i <= n,
            n == s.len(),
            s == cands@,
            done@.len() == i,
            forall|j: int| 0 <= j < i ==> done@[j] == !eligible(s, j, conf_thresh),
        decreases n - i,
    {
        done.push(cands[i].confidence <= conf_thresh);
        i = i + 1;
    }
    let mut keep: Vec<usize> = Vec::new();
    loop
        invariant
            n == s.len(),
            s == cands@,
            done@.len() == n,
            keep@.len() <= n,
            kept_well(s, conf_thresh, overlap_thresh, keep@),
            forall|k: int| 0 <= k < keep@.len() ==> done@[keep@[k] as int],
            forall|j: int, k: int|
                #![trigger done@[j], keep@[k]]
                0 <= j < n && !done@[j] && 0 <= k < keep@.len() ==> precedes(s, keep@[k] as int, j)
                    && !overlaps(s[keep@[k] as int], s[j], overlap_thresh),
            forall|j: int| 0 <= j < n && !done@[j] ==> eligible(s, j, conf_thresh),
            forall|j: int|
                0 <= j < n && done@[j] && eligible(s, j, conf_thresh) && !keep@.contains(j as usize)
                    ==> covered(s, overlap_thresh, keep@, j),
        ensures
            is_greedy_selection(s, conf_thresh, overlap_thresh, keep@),
        decreases n - keep@.len(),
    {
        let mut best: usize = n;
        let mut j: usize = 0;
        while j < n
            invariant
                n == s.len(),
                s == cands@,
                done@.len() == n,
                j <= n,
                best == n || (best < j && !done@[best as int]),
                best == n ==> forall|k: int| 0 <= k < j ==> done@[k],
                best < n ==> forall|k: int| 0 <= k < j && !done@[k] ==> k == best || precedes(s, best as int, k),
            decreases n - j,
        {
            if !done[j] && (best == n || cands[j].confidence > cands[best].confidence) {
                best = j;
            }
            j = j + 1;
        }
        if best == n {
            break;
        }
        let ghost prev = keep@;
        proof {
            assert forall|k: int| 0 <= k < prev.len() implies prev[k] != best by {
                assert(done@[prev[k] as int]);
            }
            lemma_distinct_below(prev.push(best), n as int);
            assert forall|k: int| 0 <= k < prev.len() implies !overlaps(s[best as int], s[prev[k] as int], overlap_thresh) by {
                assert(!done@[best as int]);
                assert(keep@[k] == prev[k]);
                assert(!overlaps(s[prev[k] as int], s[best as int], overlap_thresh));
                lemma_overlaps_symmetric(s[best as int], s[prev[k] as int], overlap_thresh);
            }
        }
        let ghost old_done = done@;
        keep.push(best);
        done.set(best, true);
        proof {
            assert forall|j: int|
                0 <= j < n && done@[j] && eligible(s, j, conf_thresh) && !keep@.contains(j as usize)
                implies covered(s, overlap_thresh, keep@, j) by {
                if j != best {
                    assert(old_done[j]);
                    assert(!prev.contains(j as usize)) by {
                        if prev.contains(j as usize) {
                            let k = choose|k: int| 0 <= k < prev.len() && prev[k] == j as usize;
                            assert(keep@[k] == j as usize);
                        }
                    }
                    lemma_covered_extends(s, overlap_thresh, prev, best, j);
                } else {
                    assert(keep@[prev.len() as int] == best);
                }
            }
            assert forall|i: int, k: int|
                0 <= i < n && !done@[i] && 0 <= k < prev.len() implies !overlaps(s[prev[k] as int], s[i], overlap_thresh) by {
                assert(!old_done[i]);
                assert(prev[k] == prev[k]);
            }
        }
        let mut j: usize = 0;
        while j < n
            invariant
                n == s.len(),
                s == cands@,
                done@.len() == n,
                j <= n,
                best < n,
                keep@ == prev.push(best),
                keep@.len() <= n,
                kept_well(s, conf_thresh, overlap_thresh, keep@),
                forall|k: int| 0 <= k < keep@.len() ==> done@[keep@[k] as int],
                forall|i: int, k: int|
                    0 <= i < n && !done@[i] && 0 <= k < keep@.len() ==> precedes(s, keep@[k] as int, i),
                forall|i: int, k: int|
                    #![trigger done@[i], prev[k]]
                    0 <= i < n && !done@[i] && 0 <= k < prev.len() ==> !overlaps(s[prev[k] as int], s[i], overlap_thresh),
                forall|i: int| 0 <= i < j && !done@[i] ==> !overlaps(s[best as int], s[i], overlap_thresh),
                forall|i: int| 0 <= i < n && !done@[i] ==> eligible(s, i, conf_thresh),
                forall|i: int|
                    0 <= i < n && done@[i] && eligible(s, i, conf_thresh) && !keep@.contains(i as usize)
                        ==> covered(s, overlap_thresh, keep@, i),
            decreases n - j,
        {
            if !done[j] && overlap_exceeds(&cands[best], &cands[j], overlap_thresh) {
                proof {
                    let last = (keep@.len() - 1) as int;
                    assert(keep@[last] == best);
                    assert(precedes(s, keep@[last] as int, j as int));
                }
                done.set(j, true);
            }
            j = j + 1;
        }
        proof {
            assert forall|i: int, k: int|
                0 <= i < n && !done@[i] && 0 <= k < keep@.len() implies !overlaps(s[keep@[k] as int], s[i], overlap_thresh) by {
                if k < prev.len() {
                    assert(keep@[k] == prev[k]);
                }
            }
        }
    }
    keep
}

} // verus!

//! Ranking of candidate words by their similarity to a target word.
//!
//! Similarity is the Ratcliff/Obershelp measure: the longest common block of
//! the two words is matched first, then the parts on its left and on its
//! right are matched in the same way; the similarity is twice the number of
//! matched characters over the total number of characters.
use vstd::prelude::*;
use crate::text::chars_of;

verus! {

/// `a[i..i+k]` equals `b[j..j+k]`.
pub open spec fn is_block(a: Seq<char>, b: Seq<char>, i: int, j: int, k: int) -> bool {
    forall|t: int| i <= t < i + k ==> #[trigger] a[t] == b[t + (j - i)]
}

/// The block `(i, j, k)` lies within `a[alo..ahi]` and `b[blo..bhi]`.
pub open spec fn in_window(
    alo: int,
    ahi: int,
    blo: int,
    bhi: int,
    i: int,
    j: int,
    k: int,
) -> bool {
    alo <= i && 0 <= k && i + k <= ahi && blo <= j && j + k <= bhi
}

/// `(i, j, k)` is a longest common block within the window, and of those the
/// one that starts first in `a`, then first in `b`.
pub open spec fn is_longest(
    a: Seq<char>,
    b: Seq<char>,
    alo: int,
    ahi: int,
    blo: int,
    bhi: int,
    i: int,
    j: int,
    k: int,
) -> bool {
    &&& in_window(alo, ahi, blo, bhi, i, j, k)
    &&& is_block(a, b, i, j, k)
    &&& forall|i2: int, j2: int, k2: int|
        in_window(alo, ahi, blo, bhi, i2, j2, k2) && #[trigger] is_block(a, b, i2, j2, k2) && k2
            > 0 ==> k2 <= k && (k2 == k ==> (i < i2 || (i == i2 && j <= j2)))
}

/// The number of characters matched between `a[alo..ahi]` and `b[blo..bhi]`.
pub open spec fn matched(a: Seq<char>, b: Seq<char>, alo: int, ahi: int, blo: int, bhi: int) -> nat
    decreases (ahi - alo) + (bhi - blo),
{
    if alo <= ahi && blo <= bhi && exists|i: int, j: int, k: int|
        is_longest(a, b, alo, ahi, blo, bhi, i, j, k) && k > 0 {
        let (i, j, k) = choose|i: int, j: int, k: int|
            is_longest(a, b, alo, ahi, blo, bhi, i, j, k) && k > 0;
        (k + matched(a, b, alo, i, blo, j) + matched(a, b, i + k, ahi, j + k, bhi)) as nat
    } else {
        0
    }
}

/// The number of characters matched between the whole of `a` and of `b`.
pub open spec fn match_count(a: Seq<char>, b: Seq<char>) -> nat {
    matched(a, b, 0, a.len() as int, 0, b.len() as int)
}

/// The similarity of `a` and `b` is `2 * sim_num(a, b) / sim_den(a, b)`;
/// two empty words are fully similar.
pub open spec fn sim_num(a: Seq<char>, b: Seq<char>) -> int {
    if a.len() + b.len() == 0 {
        1
    } else {
        match_count(a, b) as int
    }
}

pub open spec fn sim_den(a: Seq<char>, b: Seq<char>) -> int {
    if a.len() + b.len() == 0 {
        2
    } else {
        (a.len() + b.len()) as int
    }
}

/// `x` is at least as similar to `w` as `y` is.
pub open spec fn as_similar(w: Seq<char>, x: Seq<char>, y: Seq<char>) -> bool {
    sim_num(w, x) * sim_den(w, y) >= sim_num(w, y) * sim_den(w, x)
}

/// The similarity of `w` and `x` is at least `percent` / 100.
pub open spec fn meets_cutoff(w: Seq<char>, x: Seq<char>, percent: int) -> bool {
    200 * sim_num(w, x) >= percent * sim_den(w, x)
}

/// `x` placed into the ranking `r`: after every entry at least as similar to
/// `w`, before the first that is less similar.
pub open spec fn insert_ranked(w: Seq<char>, r: Seq<Seq<char>>, x: Seq<char>) -> Seq<Seq<char>>
    decreases r.len(),
{
    if r.len() == 0 {
        seq![x]
    } else if as_similar(w, r[0], x) {
        seq![r[0]] + insert_ranked(w, r.drop_first(), x)
    } else {
        seq![x] + r
    }
}

/// The candidates that meet the cutoff, most similar first; candidates of
/// equal similarity keep their order.
pub open spec fn ranked(w: Seq<char>, cands: Seq<Seq<char>>, percent: int) -> Seq<Seq<char>>
    decreases cands.len(),
{
    if cands.len() == 0 {
        seq![]
    } else {
        let r = ranked(w, cands.drop_last(), percent);
        if meets_cutoff(w, cands.last(), percent) {
            insert_ranked(w, r, cands.last())
        } else {
            r
        }
    }
}

/// At most `n` of the best-ranked candidates.
pub open spec fn close_matches(w: Seq<char>, cands: Seq<Seq<char>>, n: nat, percent: int) -> Seq<
    Seq<char>,
> {
    let r = ranked(w, cands, percent);
    if r.len() <= n {
        r
    } else {
        r.take(n as int)
    }
}

proof fn lemma_longest_unique(
    a: Seq<char>,
    b: Seq<char>,
    alo: int,
    ahi: int,
    blo: int,
    bhi: int,
    i: int,
    j: int,
    k: int,
    i2: int,
    j2: int,
    k2: int,
)
    requires
        is_longest(a, b, alo, ahi, blo, bhi, i, j, k),
        is_longest(a, b, alo, ahi, blo, bhi, i2, j2, k2),
        k > 0,
        k2 > 0,
    ensures
        i == i2 && j == j2 && k == k2,
{
}

/// The longest common block within the window, earliest in `a` then in `b`;
/// a block of length 0 when the window holds none.
fn find_longest(
    a: &Vec<char>,
    b: &Vec<char>,
    alo: usize,
    ahi: usize,
    blo: usize,
    bhi: usize,
) -> (r: (usize, usize, usize))
    requires
        alo <= ahi <= a@.len(),
        blo <= bhi <= b@.len(),
    ensures
        in_window(alo as int, ahi as int, blo as int, bhi as int, r.0 as int, r.1 as int, r.2 as int),
        r.2 > 0 ==> is_longest(
            a@,
            b@,
            alo as int,
            ahi as int,
            blo as int,
            bhi as int,
            r.0 as int,
            r.1 as int,
            r.2 as int,
        ),
        r.2 == 0 ==> forall|i2: int, j2: int, k2: int|
            in_window(alo as int, ahi as int, blo as int, bhi as int, i2, j2, k2)
                && #[trigger] is_block(a@, b@, i2, j2, k2) ==> k2 == 0,
{
    let mut bi = alo;
    let mut bj = blo;
    let mut bk: usize = 0;
    let mut i = alo;
    while i < ahi
        invariant
            alo <= i <= ahi <= a@.len(),
            blo <= bhi <= b@.len(),
            in_window(alo as int, ahi as int, blo as int, bhi as int, bi as int, bj as int, bk as int),
            is_block(a@, b@, bi as int, bj as int, bk as int),
            bk > 0 ==> bi < i,
            forall|i2: int, j2: int, k2: int|
                in_window(alo as int, ahi as int, blo as int, bhi as int, i2, j2, k2)
                    && #[trigger] is_block(a@, b@, i2, j2, k2) && k2 > 0 && i2 < i ==> k2 <= bk
                    && (k2 == bk ==> (bi < i2 || (bi == i2 && bj <= j2))),
        decreases ahi - i,
    {
        let mut j = blo;
        while j < bhi
            invariant
                alo <= i < ahi <= a@.len(),
                blo <= j <= bhi <= b@.len(),
                in_window(
                    alo as int,
                    ahi as int,
                    blo as int,
                    bhi as int,
                    bi as int,
                    bj as int,
                    bk as int,
                ),
                is_block(a@, b@, bi as int, bj as int, bk as int),
                bk > 0 ==> (bi < i || (bi == i && bj < j)),
                forall|i2: int, j2: int, k2: int|
                    in_window(alo as int, ahi as int, blo as int, bhi as int, i2, j2, k2)
                        && #[trigger] is_block(a@, b@, i2, j2, k2) && k2 > 0 && (i2 < i || (i2
                        == i && j2 < j)) ==> k2 <= bk && (k2 == bk ==> (bi < i2 || (bi == i2 && bj
                        <= j2))),
            decreases bhi - j,
        {
            let mut l: usize = 0;
            while i + l < ahi && j + l < bhi && a[i + l] == b[j + l]
                invariant
                    alo <= i < ahi <= a@.len(),
                    blo <= j < bhi <= b@.len(),
                    i + l <= ahi,
                    j + l <= bhi,
                    is_block(a@, b@, i as int, j as int, l as int),
                decreases ahi - i - l,
            {
                l += 1;
            }
            assert forall|k2: int|
                in_window(alo as int, ahi as int, blo as int, bhi as int, i as int, j as int, k2)
                    && #[trigger] is_block(a@, b@, i as int, j as int, k2) implies k2 <= l by {
                if k2 > l {
                    assert(a@[i + l] == b@[j + l]);
                }
            }
            if l > bk {
                bi = i;
                bj = j;
                bk = l;
            }
            j += 1;
        }
        i += 1;
    }
    (bi, bj, bk)
}

/// The number of characters matched between `a[alo..ahi]` and `b[blo..bhi]`.
fn count_matches(a: &Vec<char>, b: &Vec<char>, alo: usize, ahi: usize, blo: usize, bhi: usize) -> (m:
    usize)
    requires
        alo <= ahi <= a@.len(),
        blo <= bhi <= b@.len(),
    ensures
        m == matched(a@, b@, alo as int, ahi as int, blo as int, bhi as int),
        m <= ahi - alo,
        m <= bhi - blo,
    decreases (ahi - alo) + (bhi - blo),
{
    let (i, j, k) = find_longest(a, b, alo, ahi, blo, bhi);
    if k == 0 {
        assert(!exists|x: int, y: int, z: int|
            is_longest(a@, b@, alo as int, ahi as int, blo as int, bhi as int, x, y, z) && z > 0);
        return 0;
    }
    proof {
        let c = choose|x: int, y: int, z: int|
            is_longest(a@, b@, alo as int, ahi as int, blo as int, bhi as int, x, y, z) && z > 0;
        assert(is_longest(
            a@,
            b@,
            alo as int,
            ahi as int,
            blo as int,
            bhi as int,
            i as int,
            j as int,
            k as int,
        ));
        lemma_longest_unique(
            a@,
            b@,
            alo as int,
            ahi as int,
            blo as int,
            bhi as int,
            c.0,
            c.1,
            c.2,
            i as int,
            j as int,
            k as int,
        );
    }
    let left = count_matches(a, b, alo, i, blo, j);
    let right = count_matches(a, b, i + k, ahi, j + k, bhi);
    k + left + right
}

/// Whether `n1 / d1 >= n2 / d2`, computed without overflow.
fn fraction_ge(n1: u128, d1: u128, n2: u128, d2: u128) -> (r: bool)
    requires
        n1 < 0x1_0000_0000_0000_0000,
        n2 < 0x1_0000_0000_0000_0000,
        d1 < 0x2_0000_0000_0000_0000,
        d2 < 0x2_0000_0000_0000_0000,
    ensures
        r == (n1 * d2 >= n2 * d1),
{
    // n1 * d2 == 2 * x1 + q1 and n2 * d1 == 2 * x2 + q2
    let h2 = d2 / 2;
    let h1 = d1 / 2;
    assert(h1 < 0x1_0000_0000_0000_0000 && h2 < 0x1_0000_0000_0000_0000);
    assert(n1 * h2 < 0x1_0000_0000_0000_0000 * 0x1_0000_0000_0000_0000) by (nonlinear_arith)
        requires
            n1 < 0x1_0000_0000_0000_0000,
            h2 < 0x1_0000_0000_0000_0000,
    ;
    assert(n2 * h1 < 0x1_0000_0000_0000_0000 * 0x1_0000_0000_0000_0000) by (nonlinear_arith)
        requires
            n2 < 0x1_0000_0000_0000_0000,
            h1 < 0x1_0000_0000_0000_0000,
    ;
    let x1 = n1 * h2;
    let x2 = n2 * h1;
    let q1 = if d2 % 2 == 1 {
        n1
    } else {
        0
    };
    let q2 = if d1 % 2 == 1 {
        n2
    } else {
        0
    };
    assert(n1 * d2 == 2 * x1 + q1) by (nonlinear_arith)
        requires
            h2 == d2 / 2,
            x1 == n1 * h2,
            q1 == n1 * (d2 % 2),
    ;
    assert(n2 * d1 == 2 * x2 + q2) by (nonlinear_arith)
        requires
            h1 == d1 / 2,
            x2 == n2 * h1,
            q2 == n2 * (d1 % 2),
    ;
    assert(q1 <= n1 && q2 <= n2) by (nonlinear_arith)
        requires
            q1 == n1 * (d2 % 2),
            q2 == n2 * (d1 % 2),
            0 <= d2 % 2 <= 1,
            0 <= d1 % 2 <= 1,
            n1 >= 0,
            n2 >= 0,
    ;
    if x1 >= x2 {
        let d = x1 - x2;
        if d >= 0x1_0000_0000_0000_0000 {
            true
        } else {
            2 * d + q1 >= q2
        }
    } else {
        let d = x2 - x1;
        if d >= 0x1_0000_0000_0000_0000 {
            false
        } else {
            q1 >= 2 * d + q2
        }
    }
}

/// The similarity of a candidate as the pair `(sim_num, sim_den)`.
fn similarity(w: &Vec<char>, x: &Vec<char>) -> (r: (u128, u128))
    ensures
        r.0 == sim_num(w@, x@),
        r.1 == sim_den(w@, x@),
        r.0 < 0x1_0000_0000_0000_0000,
        r.1 < 0x2_0000_0000_0000_0000,
        r.1 > 0,
{
    let wl = w.len();
    let xl = x.len();
    if wl == 0 && xl == 0 {
        return (1, 2);
    }
    let m = count_matches(w, x, 0, wl, 0, xl);
    (m as u128, wl as u128 + xl as u128)
}

proof fn lemma_insert_at(w: Seq<char>, r: Seq<Seq<char>>, x: Seq<char>, p: int)
    requires
        0 <= p <= r.len(),
        forall|k: int| 0 <= k < p ==> as_similar(w, #[trigger] r[k], x),
        p < r.len() ==> !as_similar(w, r[p], x),
    ensures
        insert_ranked(w, r, x) == r.take(p) + seq![x] + r.skip(p),
    decreases p,
{
    if p == 0 {
        if r.len() == 0 {
            assert(r.take(0) + seq![x] + r.skip(0) =~= seq![x]);
        } else {
            assert(r.take(0) + seq![x] + r.skip(0) =~= seq![x] + r);
        }
    } else {
        let rest = r.drop_first();
        assert forall|k: int| 0 <= k < p - 1 implies as_similar(w, #[trigger] rest[k], x) by {
            assert(rest[k] == r[k + 1]);
        }
        lemma_insert_at(w, rest, x, p - 1);
        assert(as_similar(w, r[0], x));
        assert(seq![r[0]] + (rest.take(p - 1) + seq![x] + rest.skip(p - 1)) =~= r.take(p) + seq![x]
            + r.skip(p));
    }
}

/// The candidates whose similarity to `word` is at least `cutoff` percent
/// (60 when not given), most similar first, at most `n` of them (3 when not
/// given). Candidates of equal similarity keep their order.
pub fn get_close_matches(
    word: &str,
    possibilities: &Vec<String>,
    n: Option<usize>,
    cutoff: Option<u32>,
) -> (r: Vec<String>)
    ensures
        r@.map_values(|s: String| s@) == close_matches(
            word@,
            possibilities@.map_values(|s: String| s@),
            match n {
                Some(v) => v as nat,
                None => 3,
            },
            match cutoff {
                Some(c) => c as int,
                None => 60,
            },
        ),
{
    let limit: usize = match n {
        Some(v) => v,
        None => 3,
    };
    let percent: u32 = match cutoff {
        Some(c) => c,
        None => 60,
    };
    let ghost cands = possibilities@.map_values(|s: String| s@);
    let wc = chars_of(word);
    let mut best: Vec<String> = Vec::new();
    let mut scores: Vec<(u128, u128)> = Vec::new();
    let mut idx: usize = 0;
    while idx < possibilities.len()
        invariant
            wc@ == word@,
            cands == possibilities@.map_values(|s: String| s@),
            idx <= possibilities@.len(),
            best@.map_values(|s: String| s@) == ranked(word@, cands.take(idx as int), percent as int),
            scores@.len() == best@.len(),
            forall|k: int|
                0 <= k < best@.len() ==> (#[trigger] scores@[k]).0 == sim_num(word@, best@[k]@)
                    && scores@[k].1 == sim_den(word@, best@[k]@) && scores@[k].0
                    < 0x1_0000_0000_0000_0000 && scores@[k].1 < 0x2_0000_0000_0000_0000,
        decreases possibilities@.len() - idx,
    {
        let c = &possibilities[idx];
        let cc = chars_of(c.as_str());
        let (num, den) = similarity(&wc, &cc);
        assert(cands.take(idx + 1).drop_last() =~= cands.take(idx as int));
        assert(cands.take(idx + 1).last() == c@);
        assert((percent as u128) * den <= 0x1_0000_0000 * 0x2_0000_0000_0000_0000) by (nonlinear_arith)
            requires
                percent < 0x1_0000_0000,
                den < 0x2_0000_0000_0000_0000,
        ;
        if 200 * num >= (percent as u128) * den {
            let ghost old_view = best@.map_values(|s: String| s@);
            let mut p: usize = 0;
            while p < best.len() && fraction_ge(scores[p].0, scores[p].1, num, den)
                invariant
                    p <= best@.len(),
                    scores@.len() == best@.len(),
                    num == sim_num(word@, c@),
                    den == sim_den(word@, c@),
                    num < 0x1_0000_0000_0000_0000,
                    den < 0x2_0000_0000_0000_0000,
                    old_view == best@.map_values(|s: String| s@),
                    forall|k: int|
                        0 <= k < best@.len() ==> (#[trigger] scores@[k]).0 == sim_num(
                            word@,
                            best@[k]@,
                        ) && scores@[k].1 == sim_den(word@, best@[k]@) && scores@[k].0
                            < 0x1_0000_0000_0000_0000 && scores@[k].1 < 0x2_0000_0000_0000_0000,
                    forall|k: int| 0 <= k < p ==> as_similar(word@, #[trigger] old_view[k], c@),
                decreases best@.len() - p,
            {
                p += 1;
            }
            proof {
                lemma_insert_at(word@, old_view, c@, p as int);
            }
            let ghost old_best = best@;
            let ghost old_scores = scores@;
            best.insert(p, c.clone());
            scores.insert(p, (num, den));
            assert(best@.map_values(|s: String| s@) =~= old_view.take(p as int) + seq![c@]
                + old_view.skip(p as int));
            assert forall|k: int| 0 <= k < best@.len() implies (#[trigger] scores@[k]).0 == sim_num(
                word@,
                best@[k]@,
            ) && scores@[k].1 == sim_den(word@, best@[k]@) && scores@[k].0
                < 0x1_0000_0000_0000_0000 && scores@[k].1 < 0x2_0000_0000_0000_0000 by {
                if k < p {
                    assert(scores@[k] == old_scores[k] && best@[k] == old_best[k]);
                } else if k > p {
                    assert(scores@[k] == old_scores[k - 1] && best@[k] == old_best[k - 1]);
                }
            }
        }
        idx += 1;
    }
    assert(cands.take(possibilities@.len() as int) =~= cands);
    if best.len() > limit {
        best.truncate(limit);
        assert(best@.map_values(|s: String| s@) =~= ranked(word@, cands, percent as int).take(
            limit as int,
        ));
    }
    best
}

} // verus!

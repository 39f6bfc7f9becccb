//! SimilarityCalculator: exact cosine similarity of two count vectors,
//! on a fixed scale of hundredths.
//!
//! For count vectors `x` and `y` the cosine similarity is
//! `dot(x, y) / (norm(x) * norm(y))`. The score is that value times 100,
//! rounded to the nearest integer with halves rounded away from zero, so it
//! ranges from 0 to 100. All arithmetic is exact: `k` is the rounded score
//! exactly when `(2k - 1) * norm(x) * norm(y) <= 200 * dot(x, y)`, and both
//! sides stay comparable after squaring, so no square root and no floating
//! point is needed. If either vector is zero — a document with no tokens,
//! whose direction is undefined — the score is 0 rather than a division by
//! zero.
//!
//! The entry and dimension caps `MAX_ENTRY` and `MAX_DIM` keep every
//! intermediate product inside `u128`.

use vstd::prelude::*;

verus! {

/// Largest count-vector entry the calculator accepts.
pub const MAX_ENTRY: usize = 0x40000;

/// Largest count-vector dimension the calculator accepts.
pub const MAX_DIM: usize = 0x80000;

/// The dot product of two equally long vectors.
pub open spec fn vsum_prod(x: Seq<usize>, y: Seq<usize>) -> nat
    decreases x.len(),
{
    if x.len() == 0 || y.len() == 0 {
        0
    } else {
        (x[0] as nat) * (y[0] as nat) + vsum_prod(x.drop_first(), y.drop_first())
    }
}

/// The largest `j <= k` such that the cosine value `d / sqrt(den)` rounds
/// to at least `j` hundredths: `j` qualifies when
/// `(2j - 1) * sqrt(den) <= 200 * d`, compared with both sides squared.
pub open spec fn score_round(d: nat, den: nat, k: nat) -> nat
    decreases k,
{
    if k == 0 {
        0
    } else if (2 * k - 1) * (2 * k - 1) * den <= 40000 * d * d {
        k
    } else {
        score_round(d, den, (k - 1) as nat)
    }
}

/// The score never exceeds where the search started.
pub proof fn lemma_score_round_le(d: nat, den: nat, k: nat)
    ensures
        score_round(d, den, k) <= k,
    decreases k,
{
    if k > 0 {
        lemma_score_round_le(d, den, (k - 1) as nat);
    }
}

/// The similarity score of two count vectors, in hundredths: cosine
/// similarity rounded half away from zero, and 0 when either vector is
/// zero.
pub open spec fn vec_score(x: Seq<usize>, y: Seq<usize>) -> nat {
    let den = vsum_prod(x, x) * vsum_prod(y, y);
    if den == 0 {
        0
    } else {
        score_round(vsum_prod(x, y), den, 100)
    }
}

/// A dot product of entry-bounded vectors is bounded by the dimension
/// times the square of the entry bound.
pub proof fn lemma_vsum_prod_bound(x: Seq<usize>, y: Seq<usize>, m: nat)
    requires
        x.len() == y.len(),
        forall|j: int| 0 <= j < x.len() ==> #[trigger] x[j] <= m && y[j] <= m,
    ensures
        vsum_prod(x, y) <= x.len() * m * m,
    decreases x.len(),
{
    if x.len() > 0 {
        assert(forall|j: int|
            0 <= j < x.drop_first().len() ==> #[trigger] x.drop_first()[j] == x[j + 1]
                && y.drop_first()[j] == y[j + 1]);
        lemma_vsum_prod_bound(x.drop_first(), y.drop_first(), m);
        let a = x[0] as nat;
        let b = y[0] as nat;
        let n = x.len() as nat;
        assert(a * b <= m * m) by (nonlinear_arith)
            requires
                a <= m,
                b <= m,
        ;
        assert(m * m + (n - 1) * m * m == n * m * m) by (nonlinear_arith);
    }
}

/// The exec dot product matches the model sum over the vocabulary: if two
/// vectors hold, entry by entry, the counts of two token lists over a
/// vocabulary, their dot product is the vocabulary sum of count products.
pub proof fn lemma_vsum_prod_counts(
    x: Seq<usize>,
    y: Seq<usize>,
    v: Seq<Seq<char>>,
    a: Seq<Seq<char>>,
    b: Seq<Seq<char>>,
)
    requires
        x.len() == v.len(),
        y.len() == v.len(),
        forall|j: int| 0 <= j < v.len() ==> x[j] == crate::counts::count_in(a, #[trigger] v[j]),
        forall|j: int| 0 <= j < v.len() ==> y[j] == crate::counts::count_in(b, #[trigger] v[j]),
    ensures
        vsum_prod(x, y) == crate::counts::sum_prod(v, a, b),
    decreases v.len(),
{
    if v.len() > 0 {
        assert(forall|j: int|
            0 <= j < v.drop_first().len() ==> #[trigger] v.drop_first()[j] == v[j + 1]);
        assert(forall|j: int|
            0 <= j < x.drop_first().len() ==> #[trigger] x.drop_first()[j] == x[j + 1]);
        assert(forall|j: int|
            0 <= j < y.drop_first().len() ==> #[trigger] y.drop_first()[j] == y[j + 1]);
        lemma_vsum_prod_counts(x.drop_first(), y.drop_first(), v.drop_first(), a, b);
    }
}

/// Computes the similarity score of two count vectors in hundredths.
///
/// The caps on dimension and entries keep the exact arithmetic inside
/// `u128`; they are far above what the engine ever produces.
pub fn cosine_score(v1: &Vec<usize>, v2: &Vec<usize>) -> (score: u64)
    requires
        v1@.len() == v2@.len(),
        v1@.len() <= MAX_DIM,
        forall|j: int| 0 <= j < v1@.len() ==> #[trigger] v1@[j] <= MAX_ENTRY && v2@[j] <= MAX_ENTRY,
    ensures
        score == vec_score(v1@, v2@),
        score <= 100,
{
    let ghost gd = vsum_prod(v1@, v2@);
    let ghost ga = vsum_prod(v1@, v1@);
    let ghost gb = vsum_prod(v2@, v2@);
    proof {
        assert forall|j: int| 0 <= j < v2@.len() implies #[trigger] v2@[j] <= MAX_ENTRY by {
            assert(v1@[j] <= MAX_ENTRY && v2@[j] <= MAX_ENTRY);
        }
        lemma_vsum_prod_bound(v1@, v2@, MAX_ENTRY as nat);
        lemma_vsum_prod_bound(v1@, v1@, MAX_ENTRY as nat);
        lemma_vsum_prod_bound(v2@, v2@, MAX_ENTRY as nat);
        assert(v1@.len() * (MAX_ENTRY as nat) * (MAX_ENTRY as nat) <= (MAX_DIM as nat) * (
        MAX_ENTRY as nat) * (MAX_ENTRY as nat)) by (nonlinear_arith)
            requires
                v1@.len() <= MAX_DIM as nat,
        ;
    }
    let n = v1.len();
    let mut d: u64 = 0;
    let mut sa: u64 = 0;
    let mut sb: u64 = 0;
    let mut j: usize = 0;
    proof {
        assert(v1@.skip(0) =~= v1@);
        assert(v2@.skip(0) =~= v2@);
    }
    while j < n
        invariant
            n == v1@.len(),
            v1@.len() == v2@.len(),
            j <= n,
            forall|k: int|
                0 <= k < v1@.len() ==> #[trigger] v1@[k] <= MAX_ENTRY && v2@[k] <= MAX_ENTRY,
            gd == vsum_prod(v1@, v2@),
            ga == vsum_prod(v1@, v1@),
            gb == vsum_prod(v2@, v2@),
            gd <= 0x80_0000_0000_0000,
            ga <= 0x80_0000_0000_0000,
            gb <= 0x80_0000_0000_0000,
            d + vsum_prod(v1@.skip(j as int), v2@.skip(j as int)) == gd,
            sa + vsum_prod(v1@.skip(j as int), v1@.skip(j as int)) == ga,
            sb + vsum_prod(v2@.skip(j as int), v2@.skip(j as int)) == gb,
        decreases n - j,
    {
        proof {
            assert(v1@.skip(j as int)[0] == v1@[j as int]);
            assert(v2@.skip(j as int)[0] == v2@[j as int]);
            assert(v1@.skip(j as int).drop_first() =~= v1@.skip(j as int + 1));
            assert(v2@.skip(j as int).drop_first() =~= v2@.skip(j as int + 1));
            assert((v1@[j as int] as nat) * (v2@[j as int] as nat) <= 0x10_0000_0000) by (
            nonlinear_arith)
                requires
                    v1@[j as int] <= 0x40000,
                    v2@[j as int] <= 0x40000,
            ;
            assert((v1@[j as int] as nat) * (v1@[j as int] as nat) <= 0x10_0000_0000) by (
            nonlinear_arith)
                requires
                    v1@[j as int] <= 0x40000,
            ;
            assert((v2@[j as int] as nat) * (v2@[j as int] as nat) <= 0x10_0000_0000) by (
            nonlinear_arith)
                requires
                    v2@[j as int] <= 0x40000,
            ;
        }
        let e1 = v1[j] as u64;
        let e2 = v2[j] as u64;
        d = d + e1 * e2;
        sa = sa + e1 * e1;
        sb = sb + e2 * e2;
        j = j + 1;
    }
    proof {
        assert(v1@.skip(n as int) =~= Seq::<usize>::empty());
        assert(v2@.skip(n as int) =~= Seq::<usize>::empty());
        assert((sa as nat) * (sb as nat) <= 0x4000_0000_0000_0000_0000_0000_0000) by (
        nonlinear_arith)
            requires
                sa <= 0x80_0000_0000_0000,
                sb <= 0x80_0000_0000_0000,
        ;
        assert((d as nat) * (d as nat) <= 0x4000_0000_0000_0000_0000_0000_0000) by (
        nonlinear_arith)
            requires
                d <= 0x80_0000_0000_0000,
        ;
    }
    let dd: u128 = (d as u128) * (d as u128);
    let den: u128 = (sa as u128) * (sb as u128);
    if den == 0 {
        return 0;
    }
    proof {
        assert(40000 * (gd * gd) == 40000 * gd * gd) by (nonlinear_arith);
    }
    let lhs: u128 = 40000 * dd;
    let mut k: u64 = 100;
    while k > 0
        invariant
            k <= 100,
            gd == vsum_prod(v1@, v2@),
            ga == vsum_prod(v1@, v1@),
            gb == vsum_prod(v2@, v2@),
            den == ga * gb,
            ga * gb != 0,
            den <= 0x4000_0000_0000_0000_0000_0000_0000,
            dd == gd * gd,
            lhs == 40000 * gd * gd,
            score_round(gd, ga * gb, 100) == score_round(gd, ga * gb, k as nat),
        decreases k,
    {
        let q: u128 = 2 * (k as u128) - 1;
        proof {
            assert(q * q <= 39601) by (nonlinear_arith)
                requires
                    q <= 199,
            ;
            assert((q * q) * den <= 40000 * 0x4000_0000_0000_0000_0000_0000_0000) by (
            nonlinear_arith)
                requires
                    q <= 199,
                    den <= 0x4000_0000_0000_0000_0000_0000_0000,
            ;
        }
        if q * q * den <= lhs {
            proof {
                assert((2 * (k as nat) - 1) * (2 * (k as nat) - 1) * (ga * gb) <= 40000 * gd * gd);
            }
            return k;
        }
        k = k - 1;
    }
    0
}

} // verus!

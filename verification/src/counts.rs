//! The mathematical model of bag-of-words scoring.
//!
//! A document is modelled by its token list. `count_in` counts a token's
//! occurrences; `dot_of` is the dot product of the count vectors of two
//! token lists, written as a sum over the positions of the first list;
//! `sum_prod` is the same dot product written as a sum over a vocabulary.
//! The lemmas here connect the two forms and prove the dot product
//! symmetric.

use vstd::prelude::*;

verus! {

/// How many entries of `ts` equal the token `t`.
pub open spec fn count_in(ts: Seq<Seq<char>>, t: Seq<char>) -> nat
    decreases ts.len(),
{
    if ts.len() == 0 {
        0
    } else {
        (if ts[0] == t {
            1nat
        } else {
            0nat
        }) + count_in(ts.drop_first(), t)
    }
}

/// The dot product of the count vectors of `a` and `b`: each position of
/// `a` contributes the number of occurrences of its token in `b`. Summed
/// over the distinct tokens `t`, this equals the familiar form
/// `sum of count(a, t) * count(b, t)` (see `lemma_sum_prod_dot`).
pub open spec fn dot_of(a: Seq<Seq<char>>, b: Seq<Seq<char>>) -> nat
    decreases a.len(),
{
    if a.len() == 0 {
        0
    } else {
        count_in(b, a[0]) + dot_of(a.drop_first(), b)
    }
}

/// The dot product written over a vocabulary `v`: the sum over the entries
/// of `v` of the product of their counts in `a` and in `b`.
pub open spec fn sum_prod(v: Seq<Seq<char>>, a: Seq<Seq<char>>, b: Seq<Seq<char>>) -> nat
    decreases v.len(),
{
    if v.len() == 0 {
        0
    } else {
        count_in(a, v[0]) * count_in(b, v[0]) + sum_prod(v.drop_first(), a, b)
    }
}

/// A token occurs at most as often as the list is long.
pub proof fn lemma_count_le_len(ts: Seq<Seq<char>>, t: Seq<char>)
    ensures
        count_in(ts, t) <= ts.len(),
    decreases ts.len(),
{
    if ts.len() > 0 {
        lemma_count_le_len(ts.drop_first(), t);
    }
}

/// The entry at a position is counted at least once.
pub proof fn lemma_count_index_pos(ts: Seq<Seq<char>>, j: int)
    requires
        0 <= j < ts.len(),
    ensures
        count_in(ts, ts[j]) >= 1,
    decreases j,
{
    if j > 0 {
        lemma_count_index_pos(ts.drop_first(), j - 1);
        assert(ts.drop_first()[j - 1] == ts[j]);
    }
}

/// A token counted at least once equals some entry.
pub proof fn lemma_count_pos_index(ts: Seq<Seq<char>>, t: Seq<char>)
    requires
        count_in(ts, t) > 0,
    ensures
        exists|j: int| 0 <= j < ts.len() && ts[j] == t,
    decreases ts.len(),
{
    if ts[0] == t {
        assert(ts[0] == t);
    } else {
        lemma_count_pos_index(ts.drop_first(), t);
        let j = choose|j: int| 0 <= j < ts.drop_first().len() && ts.drop_first()[j] == t;
        assert(ts[j + 1] == t);
    }
}

/// A token that equals no entry is counted zero times.
pub proof fn lemma_count_absent(ts: Seq<Seq<char>>, t: Seq<char>)
    requires
        forall|j: int| 0 <= j < ts.len() ==> ts[j] != t,
    ensures
        count_in(ts, t) == 0,
    decreases ts.len(),
{
    if ts.len() > 0 {
        assert(forall|j: int|
            0 <= j < ts.drop_first().len() ==> ts.drop_first()[j] == ts[j + 1]);
        lemma_count_absent(ts.drop_first(), t);
    }
}

/// Appending an entry raises exactly that token's count by one.
pub proof fn lemma_count_push(ts: Seq<Seq<char>>, x: Seq<char>, t: Seq<char>)
    ensures
        count_in(ts.push(x), t) == count_in(ts, t) + (if x == t {
            1nat
        } else {
            0nat
        }),
    decreases ts.len(),
{
    if ts.len() == 0 {
        assert(ts.push(x)[0] == x);
        assert(ts.push(x).drop_first() =~= Seq::<Seq<char>>::empty());
        assert(count_in(Seq::<Seq<char>>::empty(), t) == 0);
    } else {
        assert(ts.push(x)[0] == ts[0]);
        assert(ts.push(x).drop_first() =~= ts.drop_first().push(x));
        lemma_count_push(ts.drop_first(), x, t);
    }
}

/// Over an empty token list every count is zero, so the vocabulary sum is
/// zero.
pub proof fn lemma_sum_prod_empty(v: Seq<Seq<char>>, b: Seq<Seq<char>>)
    ensures
        sum_prod(v, Seq::<Seq<char>>::empty(), b) == 0,
    decreases v.len(),
{
    if v.len() > 0 {
        assert(count_in(Seq::<Seq<char>>::empty(), v[0]) == 0);
        lemma_sum_prod_empty(v.drop_first(), b);
    }
}

/// Dropping the first token of `a` does not change the vocabulary sum when
/// that token is absent from the vocabulary.
pub proof fn lemma_sum_prod_uncounted(v: Seq<Seq<char>>, a: Seq<Seq<char>>, b: Seq<Seq<char>>)
    requires
        a.len() > 0,
        count_in(v, a[0]) == 0,
    ensures
        sum_prod(v, a, b) == sum_prod(v, a.drop_first(), b),
    decreases v.len(),
{
    if v.len() > 0 {
        assert(v[0] != a[0]);
        lemma_sum_prod_uncounted(v.drop_first(), a, b);
    }
}

/// Dropping the first token of `a` lowers the vocabulary sum by the count
/// of that token in `b`, when the vocabulary is duplicate-free and holds
/// the token once.
pub proof fn lemma_sum_prod_drop(v: Seq<Seq<char>>, a: Seq<Seq<char>>, b: Seq<Seq<char>>)
    requires
        a.len() > 0,
        forall|t: Seq<char>| #[trigger] count_in(v, t) <= 1,
        count_in(v, a[0]) == 1,
    ensures
        sum_prod(v, a, b) == sum_prod(v, a.drop_first(), b) + count_in(b, a[0]),
    decreases v.len(),
{
    let a2 = a.drop_first();
    if v.len() > 0 {
        assert(forall|t: Seq<char>| #[trigger] count_in(v.drop_first(), t) <= count_in(v, t));
        if v[0] == a[0] {
            assert(count_in(v.drop_first(), a[0]) == 0);
            lemma_sum_prod_uncounted(v.drop_first(), a, b);
            let c = count_in(a2, v[0]);
            let q = count_in(b, v[0]);
            assert(count_in(a, v[0]) == c + 1);
            assert((c + 1) * q == c * q + q) by (nonlinear_arith);
        } else {
            assert(count_in(a, v[0]) == count_in(a2, v[0]));
            lemma_sum_prod_drop(v.drop_first(), a, b);
        }
    }
}

/// The vocabulary sum equals the positional dot product when the
/// vocabulary is duplicate-free and holds every token of `a` exactly once.
pub proof fn lemma_sum_prod_dot(v: Seq<Seq<char>>, a: Seq<Seq<char>>, b: Seq<Seq<char>>)
    requires
        forall|t: Seq<char>| #[trigger] count_in(v, t) <= 1,
        forall|i: int| 0 <= i < a.len() ==> count_in(v, #[trigger] a[i]) == 1,
    ensures
        sum_prod(v, a, b) == dot_of(a, b),
    decreases a.len(),
{
    if a.len() == 0 {
        assert(a =~= Seq::<Seq<char>>::empty());
        lemma_sum_prod_empty(v, b);
    } else {
        lemma_sum_prod_drop(v, a, b);
        assert(forall|i: int|
            0 <= i < a.drop_first().len() ==> a.drop_first()[i] == a[i + 1]);
        lemma_sum_prod_dot(v, a.drop_first(), b);
    }
}

/// Counting over an empty second list gives a zero dot product.
pub proof fn lemma_dot_empty(b: Seq<Seq<char>>)
    ensures
        dot_of(b, Seq::<Seq<char>>::empty()) == 0,
    decreases b.len(),
{
    if b.len() > 0 {
        lemma_dot_empty(b.drop_first());
    }
}

/// Dropping the first token of the second list lowers the dot product by
/// that token's count in the first list.
pub proof fn lemma_dot_drop(b: Seq<Seq<char>>, a: Seq<Seq<char>>)
    requires
        a.len() > 0,
    ensures
        dot_of(b, a) == dot_of(b, a.drop_first()) + count_in(b, a[0]),
    decreases b.len(),
{
    if b.len() > 0 {
        lemma_dot_drop(b.drop_first(), a);
    }
}

/// The dot product of two count vectors is symmetric in the two documents.
pub proof fn lemma_dot_sym(a: Seq<Seq<char>>, b: Seq<Seq<char>>)
    ensures
        dot_of(a, b) == dot_of(b, a),
    decreases a.len(),
{
    if a.len() == 0 {
        assert(a =~= Seq::<Seq<char>>::empty());
        lemma_dot_empty(b);
    } else {
        lemma_dot_sym(a.drop_first(), b);
        lemma_dot_drop(b, a);
    }
}

} // verus!

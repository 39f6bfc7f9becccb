//! Laws of the similarity score.

use vstd::prelude::*;
use crate::counts::count_in;
use crate::counts::dot_of;
use crate::counts::lemma_count_index_pos;
use crate::counts::lemma_dot_sym;
use crate::engine::spec_similarity;
use crate::tokenizer::lower_of;
use crate::tokenizer::tokens_of;

verus! {

/// Symmetry: the similarity score of a document pair does not depend on
/// the order of the two documents.
pub proof fn lemma_similarity_symmetric(s1: Seq<char>, s2: Seq<char>)
    ensures
        spec_similarity(s1, s2) == spec_similarity(s2, s1),
{
    let a = tokens_of(lower_of(s1));
    let b = tokens_of(lower_of(s2));
    lemma_dot_sym(a, b);
}

/// Identity: a document scored against itself gets the maximum score of
/// the scale, 100, provided it has at least one token; a document with no
/// tokens — empty, or without any alphanumeric character — scores 0
/// against itself.
pub proof fn lemma_similarity_identity(s: Seq<char>)
    ensures
        tokens_of(lower_of(s)).len() > 0 ==> spec_similarity(s, s) == 100,
        tokens_of(lower_of(s)).len() == 0 ==> spec_similarity(s, s) == 0,
{
    let a = tokens_of(lower_of(s));
    if a.len() > 0 {
        lemma_count_index_pos(a, 0);
        let m = dot_of(a, a);
        assert(m >= count_in(a, a[0]));
        assert(m * m >= 1) by (nonlinear_arith)
            requires
                m >= 1,
        ;
        assert(39601 * (m * m) <= 40000 * m * m) by (nonlinear_arith)
            requires
                m >= 0,
        ;
        assert((2 * 100nat - 1) * (2 * 100nat - 1) * (m * m) == 39601 * (m * m)) by (
        nonlinear_arith);
        assert(crate::calculator::score_round(m, m * m, 100) == 100);
    }
}

} // verus!

//! The engine: per-pair similarity and the ordered, parallel batch
//! operation.
//!
//! A pair of documents is scored by lowercasing both, tokenizing, building
//! the pair's joint vocabulary, vectorizing both documents against it, and
//! taking the exact rounded cosine similarity of the two count vectors, in
//! hundredths (0 to 100). The batch operation scores two aligned columns
//! of documents in parallel and returns the scores in input order; columns
//! of unequal length are rejected up front, and a document whose lowercase
//! form exceeds the engine's capacity aborts the batch with that pair's
//! index rather than yielding a made-up score.

use vstd::prelude::*;
use rayon::iter::IndexedParallelIterator;
use rayon::iter::IntoParallelRefIterator;
use rayon::iter::ParallelIterator;
use crate::calculator::MAX_ENTRY;
use crate::calculator::cosine_score;
use crate::calculator::lemma_score_round_le;
use crate::calculator::lemma_vsum_prod_counts;
use crate::calculator::score_round;
use crate::counts::dot_of;
use crate::counts::lemma_count_le_len;
use crate::counts::lemma_sum_prod_dot;
use crate::tokenizer::lower_chars;
use crate::tokenizer::lower_of;
use crate::tokenizer::tokenize;
use crate::tokenizer::tokens_of;
use crate::tokenizer::views_of;
use crate::vectorizer::build_vocabulary;
use crate::vectorizer::vectorize;

verus! {

/// Longest lowercased document, in characters, that the engine scores.
/// Together with the calculator's caps it keeps the exact arithmetic in
/// range.
pub const MAX_DOC_CHARS: usize = 0x40000;

/// The similarity score of two token lists, in hundredths: the rounded
/// cosine similarity of their count vectors, and 0 when either list is
/// empty of tokens.
pub open spec fn tokens_score(a: Seq<Seq<char>>, b: Seq<Seq<char>>) -> nat {
    let den = dot_of(a, a) * dot_of(b, b);
    if den == 0 {
        0
    } else {
        score_round(dot_of(a, b), den, 100)
    }
}

/// The similarity score of two lowercased character sequences.
pub open spec fn chars_similarity(s1: Seq<char>, s2: Seq<char>) -> nat {
    tokens_score(tokens_of(s1), tokens_of(s2))
}

/// The similarity score of two documents: their lowercase forms are
/// tokenized and the token lists scored.
pub open spec fn spec_similarity(d1: Seq<char>, d2: Seq<char>) -> nat {
    chars_similarity(lower_of(d1), lower_of(d2))
}

/// What scoring a pair yields: the score, unless either document's
/// lowercase form exceeds the engine's capacity.
pub open spec fn spec_try_similarity(d1: Seq<char>, d2: Seq<char>) -> Option<u64> {
    if lower_of(d1).len() <= MAX_DOC_CHARS && lower_of(d2).len() <= MAX_DOC_CHARS {
        Some(spec_similarity(d1, d2) as u64)
    } else {
        None
    }
}

/// Scores never leave the fixed scale of 0 to 100 hundredths.
pub proof fn lemma_spec_similarity_le(d1: Seq<char>, d2: Seq<char>)
    ensures
        spec_similarity(d1, d2) <= 100,
{
    let a = tokens_of(lower_of(d1));
    let b = tokens_of(lower_of(d2));
    if dot_of(a, a) * dot_of(b, b) != 0 {
        lemma_score_round_le(dot_of(a, b), dot_of(a, a) * dot_of(b, b), 100);
    }
}

/// Scores a pair already lowercased into character vectors.
pub fn similarity_chars(c1: &Vec<char>, c2: &Vec<char>) -> (score: u64)
    requires
        c1@.len() <= MAX_DOC_CHARS,
        c2@.len() <= MAX_DOC_CHARS,
    ensures
        score == chars_similarity(c1@, c2@),
        score <= 100,
{
    let t1 = tokenize(c1);
    let t2 = tokenize(c2);
    let vocab = build_vocabulary(&t1, &t2);
    let v1 = vectorize(&t1, &vocab);
    let v2 = vectorize(&t2, &vocab);
    proof {
        let t1v = views_of(t1@);
        let t2v = views_of(t2@);
        let vv = views_of(vocab@);
        assert forall|j: int|
            0 <= j < v1@.len() implies #[trigger] v1@[j] <= MAX_ENTRY && v2@[j] <= MAX_ENTRY by {
            lemma_count_le_len(t1v, vv[j]);
            lemma_count_le_len(t2v, vv[j]);
        }
        lemma_vsum_prod_counts(v1@, v2@, vv, t1v, t2v);
        lemma_vsum_prod_counts(v1@, v1@, vv, t1v, t1v);
        lemma_vsum_prod_counts(v2@, v2@, vv, t2v, t2v);
        lemma_sum_prod_dot(vv, t1v, t2v);
        lemma_sum_prod_dot(vv, t1v, t1v);
        lemma_sum_prod_dot(vv, t2v, t2v);
    }
    cosine_score(&v1, &v2)
}

/// Scores a pair of documents, in hundredths of cosine similarity.
///
/// The precondition bounds the lowercase forms by the engine's capacity;
/// `try_similarity` wraps this function with that test made at run time.
pub fn similarity(d1: &str, d2: &str) -> (score: u64)
    requires
        lower_of(d1@).len() <= MAX_DOC_CHARS,
        lower_of(d2@).len() <= MAX_DOC_CHARS,
    ensures
        score == spec_similarity(d1@, d2@),
        score <= 100,
{
    let c1 = lower_chars(d1);
    let c2 = lower_chars(d2);
    similarity_chars(&c1, &c2)
}

/// Scores a pair of documents, or reports that one of them exceeds the
/// engine's capacity.
pub fn try_similarity(d1: &str, d2: &str) -> (r: Option<u64>)
    ensures
        r == spec_try_similarity(d1@, d2@),
{
    let c1 = lower_chars(d1);
    let c2 = lower_chars(d2);
    if c1.len() <= MAX_DOC_CHARS && c2.len() <= MAX_DOC_CHARS {
        Some(similarity(d1, d2))
    } else {
        None
    }
}

/// Why a batch was rejected.
#[derive(Clone, Copy, Debug, PartialEq, Eq, Structural)]
pub enum SimilarityError {
    /// Precondition violation: the two columns differ in length.
    LengthMismatch,
    /// The pair at this index cannot be vectorized: a document's lowercase
    /// form exceeds the engine's capacity.
    PairTooLarge(usize),
}

/// Relies on rayon: `par_iter` over a `Vec` and `zip` of two such
/// iterators are indexed parallel iterators, `map` keeps the indexing, and
/// `collect` into a `Vec` places each result at its input index, whatever
/// order the worker threads finish in. Element `i` is therefore what
/// `try_similarity` returns for the documents at index `i`.
#[verifier::external_body]
fn par_pair_scores(doc1: &Vec<String>, doc2: &Vec<String>) -> (r: Vec<Option<u64>>)
    requires
        doc1@.len() == doc2@.len(),
    ensures
        r@.len() == doc1@.len(),
        forall|i: int|
            0 <= i < r@.len() ==> r@[i] == spec_try_similarity(doc1@[i]@, doc2@[i]@),
{
    doc1.par_iter().zip(doc2.par_iter()).map(|(d1, d2)| try_similarity(d1, d2)).collect()
}

/// The batch operation: scores two aligned columns of documents pair by
/// pair, in parallel, and returns the scores in input order.
///
/// Columns of unequal length are rejected before any pair is scored. A
/// pair whose documents exceed the engine's capacity aborts the whole
/// batch and is reported by the smallest such index; no default score is
/// substituted.
pub fn compute_pairwise_similarity(doc1: &Vec<String>, doc2: &Vec<String>) -> (r: Result<
    Vec<u64>,
    SimilarityError,
>)
    ensures
        r is Ok <==> doc1@.len() == doc2@.len() && (forall|i: int|
            0 <= i < doc1@.len() ==> #[trigger] spec_try_similarity(doc1@[i]@, doc2@[i]@) is Some),
        r is Ok ==> r->Ok_0@.len() == doc1@.len(),
        r is Ok ==> forall|i: int|
            0 <= i < doc1@.len() ==> #[trigger] r->Ok_0@[i] == spec_similarity(
                doc1@[i]@,
                doc2@[i]@,
            ),
        r == Err::<Vec<u64>, SimilarityError>(SimilarityError::LengthMismatch) <==> doc1@.len()
            != doc2@.len(),
        r matches Err(SimilarityError::PairTooLarge(index)) ==> {
            &&& doc1@.len() == doc2@.len()
            &&& 0 <= index < doc1@.len()
            &&& spec_try_similarity(doc1@[index as int]@, doc2@[index as int]@) is None
            &&& forall|j: int|
                0 <= j < index ==> #[trigger] spec_try_similarity(doc1@[j]@, doc2@[j]@) is Some
        },
{
    if doc1.len() != doc2.len() {
        return Err(SimilarityError::LengthMismatch);
    }
    let results = par_pair_scores(doc1, doc2);
    let mut scores: Vec<u64> = Vec::new();
    let mut i: usize = 0;
    while i < results.len()
        invariant
            doc1@.len() == doc2@.len(),
            results@.len() == doc1@.len(),
            forall|t: int|
                0 <= t < results@.len() ==> #[trigger] results@[t] == spec_try_similarity(
                    doc1@[t]@,
                    doc2@[t]@,
                ),
            i <= results@.len(),
            scores@.len() == i,
            forall|j: int|
                0 <= j < i ==> #[trigger] spec_try_similarity(doc1@[j]@, doc2@[j]@) is Some,
            forall|j: int|
                0 <= j < i ==> #[trigger] scores@[j] == spec_similarity(doc1@[j]@, doc2@[j]@),
        decreases results@.len() - i,
    {
        let cur = results[i];
        match cur {
            Option::Some(s) => {
                proof {
                    lemma_spec_similarity_le(doc1@[i as int]@, doc2@[i as int]@);
                }
                scores.push(s);
            },
            Option::None => {
                return Err(SimilarityError::PairTooLarge(i));
            },
        }
        i = i + 1;
    }
    Ok(scores)
}

} // verus!

//! VocabularyBuilder and Vectorizer.
//!
//! For each document pair a joint vocabulary is built: the distinct tokens
//! seen across the two token lists, each held exactly once. Each document
//! is then projected onto that vocabulary as a count vector. Both live only
//! for the one pair.
//!
//! Normalization happens at exactly one point of the pipeline: the count
//! vectors leave this module raw, and the division by the two Euclidean
//! norms inside the similarity calculator is what scales the score.

use vstd::prelude::*;
use crate::counts::count_in;
use crate::counts::lemma_count_absent;
use crate::counts::lemma_count_index_pos;
use crate::counts::lemma_count_push;
use crate::tokenizer::lemma_views_push;
use crate::tokenizer::views_of;

verus! {

/// Whether two tokens hold the same characters.
pub fn token_eq(a: &Vec<char>, b: &Vec<char>) -> (r: bool)
    ensures
        r == (a@ == b@),
{
    if a.len() != b.len() {
        return false;
    }
    let mut i: usize = 0;
    while i < a.len()
        invariant
            i <= a@.len(),
            a@.len() == b@.len(),
            forall|k: int| 0 <= k < i ==> a@[k] == b@[k],
        decreases a@.len() - i,
    {
        if a[i] != b[i] {
            return false;
        }
        i = i + 1;
    }
    proof {
        assert(a@ =~= b@);
    }
    true
}

/// A fresh copy of a token.
fn copy_token(t: &Vec<char>) -> (r: Vec<char>)
    ensures
        r@ == t@,
{
    let mut r: Vec<char> = Vec::new();
    let mut i: usize = 0;
    while i < t.len()
        invariant
            i <= t@.len(),
            r@ == t@.take(i as int),
        decreases t@.len() - i,
    {
        r.push(t[i]);
        proof {
            assert(t@.take(i as int).push(t@[i as int]) =~= t@.take(i as int + 1));
        }
        i = i + 1;
    }
    proof {
        assert(t@.take(t@.len() as int) =~= t@);
    }
    r
}

/// How many entries of `ts` equal `t`, by scanning.
pub fn count_token(ts: &Vec<Vec<char>>, t: &Vec<char>) -> (n: usize)
    ensures
        n == count_in(views_of(ts@), t@),
{
    let ghost all = views_of(ts@);
    let mut n: usize = 0;
    let mut j: usize = 0;
    proof {
        assert(all.skip(0) =~= all);
    }
    while j < ts.len()
        invariant
            j <= ts@.len(),
            n <= j,
            all == views_of(ts@),
            n + count_in(all.skip(j as int), t@) == count_in(all, t@),
        decreases ts@.len() - j,
    {
        proof {
            assert(all.skip(j as int)[0] == all[j as int]);
            assert(all.skip(j as int).drop_first() =~= all.skip(j as int + 1));
        }
        if token_eq(&ts[j], t) {
            n = n + 1;
        }
        j = j + 1;
    }
    proof {
        assert(all.skip(ts@.len() as int) =~= Seq::<Seq<char>>::empty());
        assert(count_in(Seq::<Seq<char>>::empty(), t@) == 0);
    }
    n
}

/// Whether some entry of `ts` equals `t`, phrased by its count.
pub fn contains_token(ts: &Vec<Vec<char>>, t: &Vec<char>) -> (r: bool)
    ensures
        r == (count_in(views_of(ts@), t@) > 0),
{
    let mut j: usize = 0;
    while j < ts.len()
        invariant
            j <= ts@.len(),
            forall|k: int| 0 <= k < j ==> views_of(ts@)[k] != t@,
        decreases ts@.len() - j,
    {
        if token_eq(&ts[j], t) {
            proof {
                lemma_count_index_pos(views_of(ts@), j as int);
            }
            return true;
        }
        j = j + 1;
    }
    proof {
        lemma_count_absent(views_of(ts@), t@);
    }
    false
}

/// Appends to `vocab` every token of `ts` that it does not hold yet.
///
/// The vocabulary stays duplicate-free, tokens it held once it keeps
/// holding once, every token of `ts` is held exactly once afterwards, and
/// every new entry stems from `ts`.
fn add_tokens(vocab: Vec<Vec<char>>, ts: &Vec<Vec<char>>) -> (r: Vec<Vec<char>>)
    requires
        forall|t: Seq<char>| #[trigger] count_in(views_of(vocab@), t) <= 1,
    ensures
        forall|t: Seq<char>| #[trigger] count_in(views_of(r@), t) <= 1,
        forall|t: Seq<char>|
            count_in(views_of(vocab@), t) == 1 ==> #[trigger] count_in(views_of(r@), t) == 1,
        forall|i: int|
            0 <= i < ts@.len() ==> count_in(views_of(r@), #[trigger] views_of(ts@)[i]) == 1,
        r@.len() <= vocab@.len() + ts@.len(),
        forall|j: int|
            0 <= j < r@.len() ==> count_in(views_of(vocab@), #[trigger] views_of(r@)[j]) > 0
                || count_in(views_of(ts@), views_of(r@)[j]) > 0,
    decreases ts@.len(),
{
    let ghost base = views_of(vocab@);
    let mut vocab = vocab;
    let mut i: usize = 0;
    proof {
        assert forall|j: int|
            0 <= j < vocab@.len() implies count_in(base, #[trigger] views_of(vocab@)[j]) > 0
            || count_in(views_of(ts@), views_of(vocab@)[j]) > 0 by {
            lemma_count_index_pos(base, j);
        }
    }
    while i < ts.len()
        invariant
            i <= ts@.len(),
            vocab@.len() <= base.len() + i,
            forall|t: Seq<char>| #[trigger] count_in(views_of(vocab@), t) <= 1,
            forall|t: Seq<char>|
                count_in(base, t) == 1 ==> #[trigger] count_in(views_of(vocab@), t) == 1,
            forall|k: int|
                0 <= k < i ==> count_in(views_of(vocab@), #[trigger] views_of(ts@)[k]) == 1,
            forall|j: int|
                0 <= j < vocab@.len() ==> count_in(base, #[trigger] views_of(vocab@)[j]) > 0
                    || count_in(views_of(ts@), views_of(vocab@)[j]) > 0,
        decreases ts@.len() - i,
    {
        let present = contains_token(&vocab, &ts[i]);
        if !present {
            let ghost before = views_of(vocab@);
            let ghost x = views_of(ts@)[i as int];
            let tok = copy_token(&ts[i]);
            proof {
                assert(tok@ == x);
                lemma_views_push(vocab@, tok);
            }
            vocab.push(tok);
            proof {
                assert(views_of(vocab@) == before.push(x));
                assert forall|t: Seq<char>| #[trigger] count_in(views_of(vocab@), t) <= 1 by {
                    lemma_count_push(before, x, t);
                }
                assert forall|t: Seq<char>|
                    count_in(base, t) == 1 implies #[trigger] count_in(views_of(vocab@), t)
                    == 1 by {
                    lemma_count_push(before, x, t);
                }
                assert forall|k: int|
                    0 <= k <= i implies count_in(views_of(vocab@), #[trigger] views_of(ts@)[k])
                    == 1 by {
                    lemma_count_push(before, x, views_of(ts@)[k]);
                }
                assert forall|j: int|
                    0 <= j < vocab@.len() implies count_in(
                    base,
                    #[trigger] views_of(vocab@)[j],
                ) > 0 || count_in(views_of(ts@), views_of(vocab@)[j]) > 0 by {
                    if j < before.len() {
                        assert(views_of(vocab@)[j] == before[j]);
                    } else {
                        assert(views_of(vocab@)[j] == x);
                        lemma_count_index_pos(views_of(ts@), i as int);
                    }
                }
            }
        } else {
            proof {
                assert(count_in(views_of(vocab@), views_of(ts@)[i as int]) == 1);
            }
        }
        i = i + 1;
    }
    vocab
}

/// VocabularyBuilder: the distinct tokens of a document pair.
///
/// Every token of either document is held exactly once, nothing else is
/// held, and the vocabulary is no longer than the two token lists together.
pub fn build_vocabulary(t1: &Vec<Vec<char>>, t2: &Vec<Vec<char>>) -> (vocab: Vec<Vec<char>>)
    ensures
        forall|t: Seq<char>| #[trigger] count_in(views_of(vocab@), t) <= 1,
        forall|i: int|
            0 <= i < t1@.len() ==> count_in(views_of(vocab@), #[trigger] views_of(t1@)[i]) == 1,
        forall|i: int|
            0 <= i < t2@.len() ==> count_in(views_of(vocab@), #[trigger] views_of(t2@)[i]) == 1,
        vocab@.len() <= t1@.len() + t2@.len(),
        forall|j: int|
            0 <= j < vocab@.len() ==> count_in(views_of(t1@), #[trigger] views_of(vocab@)[j]) > 0
                || count_in(views_of(t2@), views_of(vocab@)[j]) > 0,
{
    let empty: Vec<Vec<char>> = Vec::new();
    proof {
        assert forall|t: Seq<char>| #[trigger] count_in(views_of(empty@), t) <= 1 by {
            assert(views_of(empty@) =~= Seq::<Seq<char>>::empty());
        }
    }
    let first = add_tokens(empty, t1);
    let vocab = add_tokens(first, t2);
    proof {
        assert forall|j: int|
            0 <= j < vocab@.len() implies count_in(views_of(t1@), #[trigger] views_of(vocab@)[j])
            > 0 || count_in(views_of(t2@), views_of(vocab@)[j]) > 0 by {
            let e = views_of(vocab@)[j];
            if count_in(views_of(first@), e) > 0 {
                crate::counts::lemma_count_pos_index(views_of(first@), e);
                let k = choose|k: int| 0 <= k < views_of(first@).len() && views_of(first@)[k] == e;
                assert(count_in(views_of(empty@), e) > 0 || count_in(views_of(t1@), e) > 0);
                assert(count_in(Seq::<Seq<char>>::empty(), e) == 0);
                assert(views_of(empty@) =~= Seq::<Seq<char>>::empty());
            }
        }
    }
    vocab
}

/// Vectorizer: the count vector of a document over the pair's vocabulary.
///
/// Entry `j` is the number of occurrences in `ts` of the `j`-th vocabulary
/// token; tokens absent from the document count zero.
pub fn vectorize(ts: &Vec<Vec<char>>, vocab: &Vec<Vec<char>>) -> (v: Vec<usize>)
    ensures
        v@.len() == vocab@.len(),
        forall|j: int|
            0 <= j < v@.len() ==> v@[j] == count_in(views_of(ts@), #[trigger] views_of(vocab@)[j]),
{
    let mut v: Vec<usize> = Vec::new();
    let mut j: usize = 0;
    while j < vocab.len()
        invariant
            j <= vocab@.len(),
            v@.len() == j,
            forall|k: int|
                0 <= k < j ==> v@[k] == count_in(views_of(ts@), #[trigger] views_of(vocab@)[k]),
        decreases vocab@.len() - j,
    {
        let n = count_token(ts, &vocab[j]);
        v.push(n);
        j = j + 1;
    }
    v
}

} // verus!

//! Tokenizer: lowercases a document and splits it into alphanumeric tokens.
//!
//! A token is a maximal run of alphanumeric characters of the lowercased
//! document; every other character only separates tokens. An empty document,
//! or one without any alphanumeric character, has no tokens.

use vstd::prelude::*;

verus! {

/// The characters that `str::to_lowercase` produces for the characters `s`.
pub uninterp spec fn lower_of(s: Seq<char>) -> Seq<char>;

/// Whether `char::is_alphanumeric` holds of `c`.
pub uninterp spec fn is_alnum(c: char) -> bool;

/// Relies on `str::to_lowercase`: the lowercase form of a string is a
/// function of its characters alone. The characters of the result are
/// collected into a vector unchanged and in order.
#[verifier::external_body]
pub(crate) fn lower_chars(s: &str) -> (r: Vec<char>)
    ensures
        r@ == lower_of(s@),
{
    s.to_lowercase().chars().collect()
}

/// Relies on `char::is_alphanumeric`: whether a character is alphanumeric
/// is a function of the character alone.
#[verifier::external_body]
pub(crate) fn alnum(c: char) -> (r: bool)
    ensures
        r == is_alnum(c),
{
    c.is_alphanumeric()
}

/// The views of a sequence of character vectors.
pub open spec fn views_of(ts: Seq<Vec<char>>) -> Seq<Seq<char>> {
    Seq::new(ts.len(), |i: int| ts[i]@)
}

/// Appending a vector appends its view.
pub proof fn lemma_views_push(ts: Seq<Vec<char>>, v: Vec<char>)
    ensures
        views_of(ts.push(v)) == views_of(ts).push(v@),
{
    assert(views_of(ts.push(v)) =~= views_of(ts).push(v@));
}

/// The tokens of the characters `s` scanned left to right while the
/// alphanumeric run `cur` is still open: an alphanumeric character extends
/// the run, any other character closes it, and a run that is open when the
/// characters end is emitted as a final token.
pub open spec fn toks(s: Seq<char>, cur: Seq<char>) -> Seq<Seq<char>>
    decreases s.len(),
{
    if s.len() == 0 {
        if cur.len() == 0 {
            Seq::empty()
        } else {
            seq![cur]
        }
    } else if is_alnum(s[0]) {
        toks(s.drop_first(), cur.push(s[0]))
    } else if cur.len() == 0 {
        toks(s.drop_first(), cur)
    } else {
        seq![cur] + toks(s.drop_first(), Seq::<char>::empty())
    }
}

/// The tokens of a document: its maximal alphanumeric runs, in order.
pub open spec fn tokens_of(s: Seq<char>) -> Seq<Seq<char>> {
    toks(s, Seq::empty())
}

/// A scan emits at most one token per remaining character, plus one for an
/// open run.
pub proof fn lemma_toks_len(s: Seq<char>, cur: Seq<char>)
    ensures
        toks(s, cur).len() <= s.len() + if cur.len() == 0 {
            0int
        } else {
            1int
        },
    decreases s.len(),
{
    if s.len() > 0 {
        if is_alnum(s[0]) {
            lemma_toks_len(s.drop_first(), cur.push(s[0]));
        } else if cur.len() == 0 {
            lemma_toks_len(s.drop_first(), cur);
        } else {
            lemma_toks_len(s.drop_first(), Seq::<char>::empty());
        }
    }
}

/// Splits the characters of a (lowercased) document into its tokens:
/// the maximal alphanumeric runs, in order of appearance.
pub fn tokenize(chars: &Vec<char>) -> (tokens: Vec<Vec<char>>)
    ensures
        views_of(tokens@) == tokens_of(chars@),
        tokens@.len() <= chars@.len(),
{
    let mut tokens: Vec<Vec<char>> = Vec::new();
    let mut cur: Vec<char> = Vec::new();
    let mut i: usize = 0;
    proof {
        assert(chars@.skip(0) =~= chars@);
        assert(views_of(tokens@) + toks(chars@, cur@) =~= toks(chars@, cur@));
    }
    while i < chars.len()
        invariant
            i <= chars@.len(),
            tokens_of(chars@) == views_of(tokens@) + toks(chars@.skip(i as int), cur@),
        decreases chars@.len() - i,
    {
        proof {
            assert(chars@.skip(i as int)[0] == chars@[i as int]);
            assert(chars@.skip(i as int).drop_first() =~= chars@.skip(i as int + 1));
        }
        let c = chars[i];
        if alnum(c) {
            cur.push(c);
        } else if cur.len() == 0 {
            proof {
                assert(toks(chars@.skip(i as int), cur@) == toks(chars@.skip(i as int + 1), cur@));
            }
        } else {
            proof {
                lemma_views_push(tokens@, cur);
                assert(views_of(tokens@) + (seq![cur@] + toks(
                    chars@.skip(i as int + 1),
                    Seq::<char>::empty(),
                )) =~= views_of(tokens@).push(cur@) + toks(
                    chars@.skip(i as int + 1),
                    Seq::<char>::empty(),
                ));
            }
            tokens.push(cur);
            cur = Vec::new();
        }
        i = i + 1;
    }
    proof {
        assert(chars@.skip(chars@.len() as int) =~= Seq::<char>::empty());
    }
    if cur.len() > 0 {
        proof {
            lemma_views_push(tokens@, cur);
            assert(views_of(tokens@) + seq![cur@] =~= views_of(tokens@).push(cur@));
        }
        tokens.push(cur);
    } else {
        proof {
            assert(views_of(tokens@) + Seq::<Seq<char>>::empty() =~= views_of(tokens@));
        }
    }
    proof {
        lemma_toks_len(chars@, Seq::empty());
    }
    tokens
}

} // verus!

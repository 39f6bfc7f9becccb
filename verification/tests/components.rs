use pairwise_cosine::calculator::cosine_score;
use pairwise_cosine::engine::similarity_chars;
use pairwise_cosine::tokenizer::tokenize;
use pairwise_cosine::vectorizer::build_vocabulary;
use pairwise_cosine::vectorizer::vectorize;

fn chars(s: &str) -> Vec<char> {
    s.chars().collect()
}

fn tokens(s: &str) -> Vec<Vec<char>> {
    tokenize(&chars(s))
}

#[test]
fn tokenizer_splits_on_non_alphanumeric() {
    let got = tokens("hello, world 42");
    let want = vec![chars("hello"), chars("world"), chars("42")];
    assert_eq!(got, want);
}

#[test]
fn tokenizer_of_empty_and_separators() {
    assert!(tokens("").is_empty());
    assert!(tokens(" .,;! ").is_empty());
}

#[test]
fn tokenizer_keeps_single_characters_and_order() {
    let got = tokens("a b-c");
    let want = vec![chars("a"), chars("b"), chars("c")];
    assert_eq!(got, want);
}

#[test]
fn vocabulary_is_the_distinct_union() {
    let t1 = tokens("a b a");
    let t2 = tokens("b c");
    let vocab = build_vocabulary(&t1, &t2);
    let want = vec![chars("a"), chars("b"), chars("c")];
    assert_eq!(vocab, want);
}

#[test]
fn vectorizer_counts_over_vocabulary() {
    let t1 = tokens("a b a");
    let t2 = tokens("b c");
    let vocab = build_vocabulary(&t1, &t2);
    assert_eq!(vectorize(&t1, &vocab), vec![2, 1, 0]);
    assert_eq!(vectorize(&t2, &vocab), vec![0, 1, 1]);
}

#[test]
fn calculator_rounds_exactly() {
    // cosine = 2 / sqrt(6) = 0.8164...: 82 hundredths.
    assert_eq!(cosine_score(&vec![1, 1, 1], &vec![1, 1, 0]), 82);
    // equal vectors: the maximum of the scale.
    assert_eq!(cosine_score(&vec![3, 4], &vec![3, 4]), 100);
    // a zero vector has no direction: score 0, not an error.
    assert_eq!(cosine_score(&vec![0, 0], &vec![1, 2]), 0);
}

#[test]
fn pair_score_from_characters() {
    assert_eq!(similarity_chars(&chars("a b c"), &chars("a b d")), 67);
}

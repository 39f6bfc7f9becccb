use pairwise_cosine::engine::compute_pairwise_similarity;
use pairwise_cosine::engine::similarity;
use pairwise_cosine::engine::try_similarity;
use pairwise_cosine::engine::SimilarityError;
use pairwise_cosine::engine::MAX_DOC_CHARS;

fn column(docs: &[&str]) -> Vec<String> {
    docs.iter().map(|d| d.to_string()).collect()
}

#[test]
fn symmetry_of_pairs() {
    let pairs = [
        ("cat dog fish", "dog cat bird"),
        ("This is the first document.", "This is the second one."),
        ("", "anything"),
        ("a a b", "a b"),
    ];
    for (d1, d2) in pairs {
        assert_eq!(similarity(d1, d2), similarity(d2, d1));
    }
}

#[test]
fn identity_of_nonempty_document() {
    assert_eq!(similarity("hello world", "hello world"), 100);
    assert_eq!(similarity("Another document.", "Another document."), 100);
}

#[test]
fn identity_of_tokenless_document() {
    // A document of separators only has no tokens, so even against itself
    // it has no measurable direction.
    assert_eq!(similarity("!!! ...", "!!! ..."), 0);
}

#[test]
fn disjoint_vocabularies() {
    assert_eq!(similarity("cat dog", "fish bird"), 0);
}

#[test]
fn empty_document_scores_zero() {
    assert_eq!(similarity("", "anything"), 0);
    assert_eq!(similarity("anything", ""), 0);
    assert_eq!(similarity("", ""), 0);
}

#[test]
fn rounding_two_thirds_up() {
    // cosine = 2 / 3 = 0.666...; in hundredths that rounds to 67.
    assert_eq!(similarity("a b c", "a b d"), 67);
}

#[test]
fn repeated_tokens_counted() {
    // counts (2, 1) and (1, 1): cosine = 3 / sqrt(10) = 0.9486...,
    // so 95 hundredths.
    assert_eq!(similarity("a a b", "a b"), 95);
}

#[test]
fn lowercasing_folds_case() {
    // Would fail if the documents were not lowercased before tokenizing.
    assert_eq!(similarity("CAT Dog", "cat dog"), 100);
}

#[test]
fn non_alphanumeric_separates_tokens() {
    // Would fail if punctuation were kept inside tokens.
    assert_eq!(similarity("a.b!c", "a b c"), 100);
}

#[test]
fn try_similarity_in_range() {
    assert_eq!(try_similarity("a b c", "a b d"), Some(67));
    assert_eq!(try_similarity("", ""), Some(0));
}

#[test]
fn try_similarity_over_capacity() {
    let big = "a".repeat(MAX_DOC_CHARS + 1);
    assert_eq!(try_similarity(&big, "small"), None);
    assert_eq!(try_similarity("small", &big), None);
}

#[test]
fn batch_end_to_end() {
    let doc1 = column(&["This is the first document.", "Another document."]);
    let doc2 = column(&["This is the second one.", "Another document."]);
    let scores = compute_pairwise_similarity(&doc1, &doc2).unwrap();
    assert_eq!(scores.len(), 2);
    assert_eq!(scores[1], 100);
    assert!(scores[0] > 0 && scores[0] < 100);
    assert_eq!(scores[0], 60);
}

#[test]
fn batch_length_mismatch() {
    let doc1 = column(&["a", "b", "c"]);
    let doc2 = column(&["a", "b", "c", "d"]);
    assert_eq!(
        compute_pairwise_similarity(&doc1, &doc2),
        Err(SimilarityError::LengthMismatch)
    );
}

#[test]
fn batch_reports_oversized_pair_index() {
    let big = "x".repeat(MAX_DOC_CHARS + 1);
    let doc1 = column(&["fine pair", "fine pair", &big]);
    let doc2 = column(&["fine pair", "fine pair", "short"]);
    assert_eq!(
        compute_pairwise_similarity(&doc1, &doc2),
        Err(SimilarityError::PairTooLarge(2))
    );
}

#[test]
fn batch_of_empty_columns() {
    let doc1: Vec<String> = Vec::new();
    let doc2: Vec<String> = Vec::new();
    assert_eq!(compute_pairwise_similarity(&doc1, &doc2), Ok(Vec::new()));
}

#[test]
fn order_preserved_across_large_parallel_batch() {
    let n = 1200;
    let mut doc1: Vec<String> = Vec::new();
    let mut doc2: Vec<String> = Vec::new();
    for i in 0..n {
        match i % 3 {
            0 => {
                doc1.push(format!("item {} alpha", i));
                doc2.push(format!("item {} alpha", i));
            }
            1 => {
                doc1.push(format!("left {}", i));
                doc2.push(format!("right {}", i));
            }
            _ => {
                doc1.push(format!("cat{}", i));
                doc2.push(format!("dog{}", i));
            }
        }
    }
    let scores = compute_pairwise_similarity(&doc1, &doc2).unwrap();
    assert_eq!(scores.len(), n);
    for i in 0..n {
        let expected = match i % 3 {
            // identical documents
            0 => 100,
            // one shared token of two: cosine 1/2
            1 => 50,
            // no shared token
            _ => 0,
        };
        assert_eq!(scores[i], expected, "pair {}", i);
    }
}

use ragas::overlap::longest_common_subsequence_len;
use ragas::traditional::{
    bleu_order_counts, bleu_unigram_counts, chrf_unigram_counts, exact_match_verdict,
    extract_quoted_spans, hamming_distance_str, levenshtein_distance, quoted_citation_counts,
    quoted_span_overlap_counts, rouge_l_recall_counts, whitespace_lowercase_tokens, OverlapCounts,
    QuotedSpan, RougeMode, RougeScore, RougeType,
};

#[test]
fn test_11_3_1_quoted_span_extraction_preserves_byte_and_char_ranges() {
    let spans = extract_quoted_spans("A \"\u{732b}\" and \"dog\"");

    assert_eq!(spans.len(), 2);
    assert_eq!(spans[0], QuotedSpan::new("\u{732b}", 3, 6, 3, 4));
    assert_eq!(spans[1].text, "dog");
}

#[test]
fn rouge_defaults_to_rougel_fmeasure() {
    let metric = RougeScore::default();
    assert_eq!(metric.rouge_type, RougeType::RougeL);
    assert_eq!(metric.mode, RougeMode::FMeasure);
}

#[test]
fn rouge_counts_match_hand_computed_values() {
    let counts = RougeScore::new(RougeType::Rouge1, RougeMode::FMeasure)
        .overlap_counts("the cat sat", "the cat sat on the mat");
    assert_eq!(counts, OverlapCounts { overlap: 3, candidate_count: 3, reference_count: 6 });
    let counts = RougeScore::new(RougeType::Rouge2, RougeMode::Recall)
        .overlap_counts("the cat sat", "the cat sat on the mat");
    assert_eq!(counts, OverlapCounts { overlap: 2, candidate_count: 2, reference_count: 5 });
    let counts = RougeScore::new(RougeType::RougeL, RougeMode::Recall)
        .overlap_counts("the cat the mat", "the cat sat on the mat");
    assert_eq!(counts, OverlapCounts { overlap: 4, candidate_count: 4, reference_count: 6 });
}

#[test]
fn identical_texts_match_fully() {
    let text = "Ragas evaluates RAG applications";
    let counts = rouge_l_recall_counts(text, text);
    assert_eq!(counts.overlap, counts.reference_count);
    assert_eq!(counts.overlap, counts.candidate_count);
    assert_eq!(levenshtein_distance(text, text), 0);
    let tokens = whitespace_lowercase_tokens(text);
    assert_eq!(longest_common_subsequence_len(&tokens, &tokens), tokens.len());
    let unigrams = bleu_unigram_counts(text, text);
    assert_eq!(unigrams.overlap, unigrams.candidate_count);
}

#[test]
fn distances_are_symmetric_on_examples() {
    assert_eq!(levenshtein_distance("kitten", "sitting"), 3);
    assert_eq!(levenshtein_distance("sitting", "kitten"), 3);
    assert_eq!(levenshtein_distance("", "abc"), 3);
    assert_eq!(hamming_distance_str("karolin", "kathrin"), 3);
    assert!(exact_match_verdict("  same ", "same"));
    assert!(!exact_match_verdict("same", "other"));
}

#[test]
fn rouge_clips_repeated_unigrams() {
    let counts = RougeScore::new(RougeType::Rouge1, RougeMode::Precision)
        .overlap_counts("the the the", "the cat");
    assert_eq!(counts.overlap, 1);
    assert_eq!(counts.candidate_count, 3);
}

#[test]
fn bleu_and_chrf_orders() {
    let orders = bleu_order_counts("a b c d", "a b c e");
    assert_eq!(orders.len(), 4);
    assert_eq!((orders[0].overlap, orders[0].candidate_count), (3, 4));
    assert_eq!((orders[1].overlap, orders[1].candidate_count), (2, 3));
    assert_eq!((orders[3].overlap, orders[3].candidate_count), (0, 1));
    let chrf = chrf_unigram_counts("ab c", "abc");
    assert_eq!(chrf.overlap, 3);
}

#[test]
fn quoted_span_overlap_and_citations() {
    let candidate = QuotedSpan::new("candidate", 10, 20, 10, 20);
    let reference = QuotedSpan::new("reference", 15, 25, 15, 25);
    assert_eq!(quoted_span_overlap_counts(&candidate, &reference), (5, 15));
    let sources = vec!["the sky is blue today".to_string()];
    assert_eq!(
        quoted_citation_counts("he said \"sky is blue\" and \"grass\"", &sources),
        (1, 2)
    );
    assert_eq!(quoted_citation_counts("no quotes here", &sources), (0, 0));
}

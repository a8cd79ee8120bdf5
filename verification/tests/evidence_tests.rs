use ragas::jaro::{common_prefix_len, jaro_counts};
use ragas::metric_base::MetricEvidence;
use ragas::metrics::id_precision_evidence;
use ragas::rag::{
    context_entity_recall_evidence, context_recall_evidence, context_relevance_evidence,
    context_relevance_overlaps, response_groundedness_evidence, FactualCorrectnessCounts,
};
use ragas::traditional::quoted_citation_evidence;

fn strings(items: &[&str]) -> Vec<String> {
    items.iter().map(|s| s.to_string()).collect()
}

fn evidence(items: &[(&str, &str)]) -> Vec<MetricEvidence> {
    items.iter().map(|(source, text)| MetricEvidence::new(source, text)).collect()
}

fn chars(s: &str) -> Vec<char> {
    s.chars().collect()
}

#[test]
fn recall_evidence_lists_the_covered_reference_claims() {
    let found = context_recall_evidence("Ragas evaluates apps. Paris is big.", &strings(&["ragas evaluates llm apps"]));
    assert_eq!(found, evidence(&[("reference[0]", "Ragas evaluates apps")]));
    assert_eq!(context_recall_evidence("", &strings(&["anything"])), Vec::new());
}

#[test]
fn groundedness_evidence_names_the_first_grounding_context() {
    let found = response_groundedness_evidence(
        "Ragas evaluates apps. Paris is big.",
        &strings(&["Paris big city", "ragas evaluates apps", "ragas evaluates apps too"]),
    );
    assert_eq!(
        found,
        evidence(&[("context[1]", "ragas evaluates apps"), ("context[0]", "Paris big city")])
    );
}

#[test]
fn entity_evidence_names_the_found_entities() {
    let found = context_entity_recall_evidence("Paris and Berlin.", &strings(&["paris is lovely"]));
    assert_eq!(found, evidence(&[("entity:Paris", "matched in retrieved contexts")]));
}

#[test]
fn relevance_overlaps_count_distinct_query_tokens() {
    let contexts = strings(&["Ragas is great", "nothing here"]);
    let (query_tokens, overlaps) = context_relevance_overlaps("What is Ragas? Ragas evaluates.", &contexts);
    assert_eq!(query_tokens, 3);
    assert_eq!(overlaps, vec![1, 0]);
    assert_eq!(context_relevance_evidence(&contexts, &overlaps), evidence(&[("context[0]", "Ragas is great")]));
}

#[test]
fn id_evidence_lists_trimmed_matching_ids_with_their_positions() {
    let found = id_precision_evidence(&strings(&[" a ", "b", "c"]), &strings(&["a", "c ", "  "]));
    assert_eq!(found, evidence(&[("retrieved_context_id[0]", "a"), ("retrieved_context_id[2]", "c")]));
}

#[test]
fn citation_evidence_names_the_first_source_of_each_span() {
    let found = quoted_citation_evidence(
        "He said \"hello world\" and \"bye\" and \"gone\"",
        &strings(&["x hello world y", "bye bye", "hello world again"]),
    );
    assert_eq!(found, evidence(&[("source[0]", "hello world"), ("source[1]", "bye")]));
}

#[test]
fn factual_counts_render_as_text() {
    assert_eq!(FactualCorrectnessCounts::new(2, 0, 1).counts_text(), "TP=2 FP=0 FN=1");
}

#[test]
fn jaro_counts_match_within_the_window() {
    assert_eq!(jaro_counts(&chars("MARTHA"), &chars("MARHTA")), (6, 1));
    assert_eq!(jaro_counts(&chars("DIXON"), &chars("DICKSONX")), (4, 0));
    assert_eq!(jaro_counts(&chars(""), &chars("abc")), (0, 0));
    assert_eq!(jaro_counts(&chars("abc"), &chars("xyz")), (0, 0));
    assert_eq!(common_prefix_len(&chars("MARTHA"), &chars("MARHTA"), 4), 3);
    assert_eq!(common_prefix_len(&chars("DIXON"), &chars("DICKSONX"), 4), 2);
    assert_eq!(common_prefix_len(&chars("prefix"), &chars("prefixed"), 4), 4);
    assert_eq!(common_prefix_len(&chars("ab"), &chars("ab"), 4), 2);
}

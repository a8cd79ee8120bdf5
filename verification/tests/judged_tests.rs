use ragas::dataset::SingleTurnSample;
use ragas::judged::{
    aspect_critic_reason, aspect_critic_strictness, clamp_rating, clean_statements, coerce_bool,
    context_block, context_precision_reason, context_recall_prompt, context_usefulness_prompt,
    count_verdicts, entity_set, evaluate_metric_names, extract_json_block, faithfulness_reason,
    factual_reason, majority_positive, noise_sensitivity_name, noise_target_contexts,
    noise_target_label, noisy_claims, nonblank_questions, normalize_lowered_sql, normalize_sql,
    numbered_list, optional_fields_block, parse_binary_verdict, recalled_entities,
    resize_classifications, rubric_text, split_into_sentences, sql_normalized_match, sql_schema,
    statements_prompt, topic_adherence_reason, topic_confusion, JudgeValue,
};
use ragas::metrics::NoiseSensitivityMode;
use ragas::RagasError;

fn strings(items: &[&str]) -> Vec<String> {
    items.iter().map(|s| s.to_string()).collect()
}

#[test]
fn json_block_is_taken_from_fenced_and_prose_wrapped_replies() {
    assert_eq!(
        extract_json_block("Sure! Here you go:\n```json\n{\"statements\":[\"a\"]}\n```"),
        "{\"statements\":[\"a\"]}"
    );
    assert_eq!(extract_json_block("```\n{\"verdicts\":[{\"verdict\":1}]}\n```"), "{\"verdicts\":[{\"verdict\":1}]}");
    assert_eq!(extract_json_block("{\"verdict\":1}"), "{\"verdict\":1}");
}

#[test]
fn json_block_falls_back_to_the_trimmed_reply() {
    assert_eq!(extract_json_block("  I cannot break this into statements.  "), "I cannot break this into statements.");
    assert_eq!(extract_json_block(" } then { "), "} then {");
    assert_eq!(extract_json_block(" only { open "), "only { open");
}

#[test]
fn sentences_keep_their_terminators_and_drop_blank_pieces() {
    assert_eq!(
        split_into_sentences("Ragas evaluates LLM applications. Exploding Gradients maintains it."),
        strings(&["Ragas evaluates LLM applications.", "Exploding Gradients maintains it."])
    );
    assert_eq!(split_into_sentences("Is it? Yes! And more"), strings(&["Is it?", "Yes!", "And more"]));
    assert_eq!(split_into_sentences("   "), Vec::<String>::new());
    assert_eq!(split_into_sentences(""), Vec::<String>::new());
}

#[test]
fn numbered_list_numbers_items_from_one() {
    assert_eq!(
        numbered_list(&strings(&["Ragas evaluates LLM applications.", "Exploding Gradients maintains it."])),
        "1. Ragas evaluates LLM applications.\n2. Exploding Gradients maintains it."
    );
    assert_eq!(numbered_list(&Vec::new()), "");
}

#[test]
fn verdicts_are_counted_by_value() {
    assert_eq!(count_verdicts(&vec![1, 0, 1, 2], 1), 2);
    assert_eq!(count_verdicts(&vec![1, 0, 1, 2], 0), 1);
    assert_eq!(count_verdicts(&Vec::new(), 1), 0);
}

#[test]
fn statements_are_trimmed_and_blank_ones_dropped() {
    assert_eq!(clean_statements(&strings(&[" a ", "", "   ", "b"])), strings(&["a", "b"]));
    assert_eq!(nonblank_questions(&strings(&[" q1 ", "  ", "q2"])), strings(&[" q1 ", "q2"]));
}

#[test]
fn optional_fields_include_contexts_and_non_blank_reference() {
    let mut sample = SingleTurnSample::new("q", "r", strings(&["ctx-a", "ctx-b"]));
    assert_eq!(optional_fields_block(&sample), "\nCONTEXT:\nctx-a\nctx-b");
    sample.reference = Some("the reference".to_string());
    assert_eq!(optional_fields_block(&sample), "\nCONTEXT:\nctx-a\nctx-b\nREFERENCE: the reference");
    let mut bare = SingleTurnSample::new("q", "r", Vec::new());
    bare.reference = Some("   ".to_string());
    assert_eq!(optional_fields_block(&bare), "");
    assert_eq!(context_block(&Vec::new()), "");
    assert_eq!(context_block(&strings(&["c"])), "\nCONTEXT:\nc");
}

#[test]
fn statements_prompt_is_the_fixed_instruction_and_the_fields() {
    assert_eq!(
        statements_prompt("What is Ragas?", "It evaluates."),
        "Break the ANSWER into a list of standalone, atomic factual statements. Each statement must be fully self-contained, resolving any pronouns using the QUESTION. Return only JSON of the form {\"statements\": [\"...\"]}.\n\nQUESTION: What is Ragas?\nANSWER: It evaluates."
    );
}

#[test]
fn judge_prompts_carry_the_numbered_sentences_and_the_context() {
    let prompt = context_recall_prompt(
        "What is Ragas?",
        &strings(&["ctx"]),
        &strings(&["Ragas evaluates LLM applications.", "Exploding Gradients maintains it."]),
    );
    assert!(prompt.contains("1. Ragas evaluates LLM applications."));
    assert!(prompt.contains("2. Exploding Gradients maintains it."));
    assert!(prompt.ends_with("QUESTION: What is Ragas?\n\nCONTEXT:\nctx\n\nANSWER SENTENCES:\n1. Ragas evaluates LLM applications.\n2. Exploding Gradients maintains it."));
    let usefulness = context_usefulness_prompt("What is Ragas?", "Ragas evaluates LLM applications", "ctx-a");
    assert!(usefulness.contains("ANSWER: Ragas evaluates LLM applications"));
    assert!(usefulness.ends_with("CONTEXT: ctx-a"));
}

#[test]
fn rubric_lines_show_signed_scores() {
    assert_eq!(
        rubric_text(&vec![(1, "bad".to_string()), (-2, "worse".to_string()), (5, "great".to_string())]),
        "score 1: bad\nscore -2: worse\nscore 5: great"
    );
    assert_eq!(rubric_text(&vec![(i64::MIN, "min".to_string())]), "score -9223372036854775808: min");
}

#[test]
fn sql_normal_form_ignores_case_spacing_and_trailing_semicolons() {
    assert_eq!(normalize_sql("SELECT  id, name  FROM users;"), "select id, name from users");
    assert_eq!(normalize_lowered_sql("  select 1 ;; "), "select 1");
    assert!(sql_normalized_match("SELECT  id, name  FROM users;", "select id, name from users"));
    assert!(!sql_normalized_match("SELECT name, id FROM users", "SELECT id, name FROM users"));
    assert_eq!(sql_schema(&Vec::new()), "(no schema provided)");
    assert_eq!(sql_schema(&strings(&["t1", "t2"])), "t1\nt2");
}

#[test]
fn aspect_critic_takes_a_strict_majority() {
    assert_eq!(aspect_critic_strictness(0), 1);
    assert_eq!(aspect_critic_strictness(3), 3);
    assert!(majority_positive(2, 3));
    assert!(!majority_positive(1, 2));
    assert!(!majority_positive(2, 4));
    assert!(majority_positive(1, 1));
    assert_eq!(aspect_critic_reason(2, 3), "2/3 judge call(s) returned a positive verdict");
}

#[test]
fn ratings_are_held_to_zero_through_four() {
    assert_eq!(clamp_rating(7), 4);
    assert_eq!(clamp_rating(-1), 0);
    assert_eq!(clamp_rating(2), 2);
}

#[test]
fn noise_target_contexts_follow_the_mode() {
    let contexts = strings(&["c0", "c1", "c2"]);
    let relevance = vec![1, 0];
    assert_eq!(noise_target_contexts(&contexts, &relevance, NoiseSensitivityMode::Relevant), strings(&["c0"]));
    assert_eq!(noise_target_contexts(&contexts, &relevance, NoiseSensitivityMode::Irrelevant), strings(&["c1", "c2"]));
    assert_eq!(noise_sensitivity_name(NoiseSensitivityMode::Relevant), "noise_sensitivity_relevant");
    assert_eq!(noise_target_label(NoiseSensitivityMode::Irrelevant), "irrelevant");
}

#[test]
fn noisy_claims_are_incorrect_and_grounded() {
    // claim 0: correct; claim 1: incorrect and grounded; claim 2: no verdicts at all.
    assert_eq!(noisy_claims(3, &vec![1, 0], &vec![1, 1]), 1);
    assert_eq!(noisy_claims(2, &vec![], &vec![1, 1]), 2);
    assert_eq!(noisy_claims(2, &vec![0, 0], &vec![0, 0]), 0);
}

#[test]
fn topic_classifications_are_padded_and_counted() {
    assert_eq!(resize_classifications(&vec![true], 2), vec![true, false]);
    assert_eq!(resize_classifications(&vec![true, false, true], 2), vec![true, false]);
    let answered = vec![true, true, false, false];
    let in_scope = vec![true, false, true, false];
    assert_eq!(topic_confusion(&answered, &in_scope), (1, 1, 1));
    assert_eq!(topic_confusion(&vec![true, true], &vec![true]), (1, 0, 0));
    assert_eq!(topic_adherence_reason(1, 0, 1, 2), "tp=1 fp=0 fn=1 over 2 topics");
}

#[test]
fn parse_binary_verdict_accepts_strings_numbers_and_bools() {
    let text = |s: &str| JudgeValue::Text(s.to_string());
    assert_eq!(parse_binary_verdict(&text("1"), "\"1\""), Ok(true));
    assert_eq!(parse_binary_verdict(&text("0"), "\"0\""), Ok(false));
    assert_eq!(parse_binary_verdict(&JudgeValue::Number(true), "1"), Ok(true));
    assert_eq!(parse_binary_verdict(&JudgeValue::Bool(true), "true"), Ok(true));
    assert_eq!(parse_binary_verdict(&text("yes"), "\"yes\""), Ok(true));
    assert!(parse_binary_verdict(&text("maybe"), "\"maybe\"").is_err());
    assert_eq!(
        parse_binary_verdict(&JudgeValue::Other, "null"),
        Err(RagasError::Parse { message: "agent_goal_accuracy: unexpected verdict null".to_string() })
    );
}

#[test]
fn coerce_bool_handles_bool_number_and_string() {
    assert!(coerce_bool(&JudgeValue::Bool(true)));
    assert!(coerce_bool(&JudgeValue::Number(true)));
    assert!(coerce_bool(&JudgeValue::Text("Yes".to_string())));
    assert!(!coerce_bool(&JudgeValue::Bool(false)));
    assert!(!coerce_bool(&JudgeValue::Number(false)));
    assert!(!coerce_bool(&JudgeValue::Text("false".to_string())));
    assert!(!coerce_bool(&JudgeValue::Other));
}

#[test]
fn entities_are_trimmed_lowercased_and_deduplicated() {
    let reference = entity_set(&strings(&[" Paris ", "paris", "France", "  "]));
    assert_eq!(reference, strings(&["paris", "france"]));
    let contexts = entity_set(&strings(&["PARIS", "Berlin"]));
    assert_eq!(recalled_entities(&reference, &contexts), 1);
    assert_eq!(entity_set(&strings(&["Ärger"])), strings(&["ärger"]));
}

#[test]
fn reasons_render_the_counts() {
    assert_eq!(faithfulness_reason(1, 2), "1/2 statements supported by the retrieved contexts");
    assert_eq!(context_precision_reason(2, 4), "average precision@k over 2/4 useful context(s)");
    assert_eq!(factual_reason(2, 0, 1), "factual F1 from TP=2 FP=0 FN=1");
}

#[test]
fn evaluate_runs_llm_metrics_only_with_a_chat_model() {
    assert_eq!(evaluate_metric_names(false, true), vec!["rouge_l"]);
    assert_eq!(evaluate_metric_names(true, false), vec!["rouge_l", "faithfulness", "context_utilization"]);
    assert_eq!(
        evaluate_metric_names(true, true),
        vec!["rouge_l", "faithfulness", "context_utilization", "context_recall"]
    );
}

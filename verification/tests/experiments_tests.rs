use ragas::backends::{disk_cache_file_name, key_to_hex_file_stem};
use ragas::experiments::{compared_metric_names, sample_count_delta, ExperimentRecord};
use ragas::StringMap;

struct SampleScores {
    results: Vec<(usize, Vec<(String, f64)>)>,
}

fn provider_config() -> StringMap<String> {
    let mut config = StringMap::new();
    config.insert("llm".to_string(), "openai-compatible:gpt-4o-mini".to_string());
    config.insert("embedding".to_string(), "openai-compatible:text-embedding-3-small".to_string());
    config
}

fn report(faithfulness: f64, relevancy: f64) -> SampleScores {
    let row = |index: usize| {
        (
            index,
            vec![("faithfulness".to_string(), faithfulness), ("answer_relevancy".to_string(), relevancy)],
        )
    };
    SampleScores { results: vec![row(0), row(1)] }
}

fn record(run_id: &str, faithfulness: f64, relevancy: f64) -> ExperimentRecord<SampleScores> {
    ExperimentRecord::new(
        run_id,
        "eval-dataset",
        2,
        vec!["faithfulness".to_string(), "answer_relevancy".to_string()],
        provider_config(),
        report(faithfulness, relevancy),
    )
    .with_output("report_json", &format!("memory://reports/{run_id}.json"))
}

#[test]
fn test_15_1_1_experiment_records_inputs_metrics_provider_config_and_outputs() {
    let record = record("run-a", 0.75, 0.8);

    assert_eq!(record.run_id, "run-a");
    assert_eq!(record.dataset_name, "eval-dataset");
    assert_eq!(record.sample_count, 2);
    assert_eq!(record.metric_names, vec!["faithfulness".to_string(), "answer_relevancy".to_string()]);
    assert_eq!(
        record.provider_config.get("llm").map(String::as_str),
        Some("openai-compatible:gpt-4o-mini")
    );
    assert_eq!(
        record.outputs.get("report_json").map(String::as_str),
        Some("memory://reports/run-a.json")
    );
    assert_eq!(record.report.results.len(), 2);
}

#[test]
fn a_later_output_of_the_same_name_replaces_the_earlier() {
    let record = record("run-b", 0.5, 0.5).with_output("report_json", "memory://other.json");
    assert_eq!(record.outputs.get("report_json").map(String::as_str), Some("memory://other.json"));
    assert_eq!(record.outputs.len(), 1);
}

#[test]
fn compared_metrics_are_the_union_in_first_occurrence_order() {
    let baseline = vec!["faithfulness".to_string(), "answer_relevancy".to_string()];
    let candidate = vec!["answer_relevancy".to_string(), "context_recall".to_string(), "faithfulness".to_string()];
    assert_eq!(
        compared_metric_names(&baseline, &candidate),
        vec!["faithfulness".to_string(), "answer_relevancy".to_string(), "context_recall".to_string()]
    );
    assert_eq!(compared_metric_names(&Vec::new(), &Vec::new()), Vec::<String>::new());
}

#[test]
fn sample_count_delta_is_candidate_minus_baseline() {
    assert_eq!(sample_count_delta(2, 2), 0);
    assert_eq!(sample_count_delta(5, 2), -3);
    assert_eq!(sample_count_delta(1, 4), 3);
}

#[test]
fn disk_cache_files_are_named_by_hex_key_bytes() {
    assert_eq!(key_to_hex_file_stem(""), "empty");
    assert_eq!(key_to_hex_file_stem("ab"), "6162");
    assert_eq!(key_to_hex_file_stem("é/"), "c3a92f");
    assert_eq!(disk_cache_file_name("alpha"), "616c706861.json");
}

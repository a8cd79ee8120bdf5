use ragas::dataset::{
    EvaluationDataset, EvaluationDatasetBuilder, EvaluationSample, Message, MultiTurnSample,
    SingleTurnSample,
};
use ragas::RagasError;

#[test]
fn test_1_1_1_valid_sample_fields_are_preserved() {
    let sample = SingleTurnSample::new(
        "What is Ragas?",
        "A framework for LLM evaluation.",
        vec!["Ragas evaluates LLM applications.".to_string()],
    )
    .with_reference("Ragas is an evaluation toolkit.")
    .with_metadata("source", "unit-test");

    assert_eq!(sample.user_input, "What is Ragas?");
    assert_eq!(sample.response, "A framework for LLM evaluation.");
    assert_eq!(sample.retrieved_contexts.len(), 1);
    assert_eq!(
        sample.reference.as_deref(),
        Some("Ragas is an evaluation toolkit.")
    );
    assert_eq!(
        sample.metadata.get("source").map(String::as_str),
        Some("unit-test")
    );
}

#[test]
fn test_1_1_2_dataset_exposes_collection_helpers() {
    let sample = SingleTurnSample::new("Question", "Answer", vec!["Context".to_string()]);

    let dataset = EvaluationDataset::from_sample(sample).expect("valid dataset");

    assert_eq!(dataset.len(), 1);
    assert!(!dataset.is_empty());
    assert_eq!(dataset.iter().count(), 1);
    assert_eq!(dataset.samples().len(), 1);
}

#[test]
fn test_1_1_3_validation_rejects_empty_and_invalid_samples() {
    assert_eq!(
        EvaluationDataset::new(vec![]).unwrap_err(),
        RagasError::EmptyDataset
    );

    let invalid = SingleTurnSample::new("", "Answer", vec!["Context".to_string()]);
    assert_eq!(
        EvaluationDataset::new(vec![invalid]).unwrap_err(),
        RagasError::InvalidSample {
            index: 0,
            field: "user_input".to_string()
        }
    );

    let invalid = SingleTurnSample::new("Question", "Answer", vec![]);
    assert_eq!(
        EvaluationDataset::new(vec![invalid]).unwrap_err(),
        RagasError::InvalidSample {
            index: 0,
            field: "retrieved_contexts".to_string()
        }
    );
}

#[test]
fn test_5_2_2_csv_import_maps_required_columns_and_reports_clear_errors() {
    let csv = "user_input,response,retrieved_contexts,reference,metadata.source\nWhat?,Answer,ctx one|ctx two,Reference,fixture\n";
    let dataset = EvaluationDataset::from_csv_str(csv).expect("csv dataset");
    let sample = &dataset.samples()[0];

    assert_eq!(sample.user_input, "What?");
    assert_eq!(sample.response, "Answer");
    assert_eq!(sample.retrieved_contexts, vec!["ctx one", "ctx two"]);
    assert_eq!(sample.reference.as_deref(), Some("Reference"));
    assert_eq!(
        sample.metadata.get("source").map(String::as_str),
        Some("fixture")
    );

    let error = EvaluationDataset::from_csv_str("user_input,response\nWhat?,Answer\n")
        .expect_err("missing retrieved_contexts column");
    assert!(
        error
            .describe()
            .contains("CSV missing required column: retrieved_contexts"),
        "{}",
        error.describe()
    );
}

#[test]
fn test_5_2_3_dataset_builder_preserves_sample_order_and_metadata() {
    let dataset = EvaluationDatasetBuilder::new()
        .with_metadata("name", "ordered-fixture")
        .add_single_turn(SingleTurnSample::new("first", "a1", vec!["c1".into()]))
        .add_multi_turn(MultiTurnSample::new(vec![Message::user("second")]))
        .add_single_turn(
            SingleTurnSample::new("third", "a3", vec!["c3".into()])
                .with_metadata("sample", "third"),
        )
        .build()
        .expect("ordered dataset");

    assert_eq!(
        dataset.metadata().get("name").map(String::as_str),
        Some("ordered-fixture")
    );
    assert!(matches!(
        &dataset.samples()[0],
        EvaluationSample::SingleTurn(sample) if sample.user_input == "first"
    ));
    assert!(matches!(
        &dataset.samples()[1],
        EvaluationSample::MultiTurn(sample) if sample.messages[0].content == "second"
    ));
    assert!(matches!(
        &dataset.samples()[2],
        EvaluationSample::SingleTurn(sample)
            if sample.metadata.get("sample").map(String::as_str) == Some("third")
    ));
}

#[test]
fn csv_import_reports_missing_values_bad_json_and_invalid_samples() {
    let error = EvaluationDataset::from_csv_str(
        "user_input,response,retrieved_contexts\nWhat?,,ctx\n",
    )
    .expect_err("missing response value");
    assert_eq!(
        error,
        RagasError::DatasetIo {
            message: "CSV row 2 missing required value: response".to_string()
        }
    );

    let error = EvaluationDataset::from_csv_str(
        "user_input,response,retrieved_contexts\nq,a,ctx\nq2,a2,[not json\n",
    )
    .expect_err("bad contexts JSON");
    assert!(error
        .describe()
        .contains("CSV row 3 retrieved_contexts JSON parse failed: "));

    let error = EvaluationDataset::from_csv_str(
        "user_input,response,retrieved_contexts\nq,a,ctx\nq2,a2, | \n",
    )
    .expect_err("contexts are blank");
    assert_eq!(
        error,
        RagasError::InvalidSample {
            index: 1,
            field: "retrieved_contexts".to_string()
        }
    );

    let error = EvaluationDataset::from_csv_str("user_input,response,retrieved_contexts\n")
        .expect_err("no data rows");
    assert_eq!(error, RagasError::EmptyDataset);
}

#[test]
fn csv_import_reads_json_contexts_and_trims_cells() {
    let csv = "user_input , response,retrieved_contexts,metadata.,metadata.k\n  q  , a ,\"[\"\"x\"\",\"\"y\"\"]\",ignored,\n";
    let dataset = EvaluationDataset::from_csv_str(csv).expect("csv dataset");
    let sample = &dataset.samples()[0];
    assert_eq!(sample.user_input, "q");
    assert_eq!(sample.response, "a");
    assert_eq!(sample.retrieved_contexts, vec!["x", "y"]);
    assert_eq!(sample.reference, None);
    assert_eq!(sample.metadata.len(), 0);
}

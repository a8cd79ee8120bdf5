use ragas::backends::{
    dataset_to_gdrive_rows, gdrive_rows_to_dataset, CsvDatasetBackend, DatasetBackend,
    DiskCacheCompatibility, GDriveAuthMode, GDriveBackendConfig, GoogleDriveDatasetBackend,
    InMemoryDatasetBackend, InMemoryGoogleSheetTransport,
};
use ragas::csv_io::dataset_to_csv_string;
use ragas::dataset::{EvaluationDataset, EvaluationSample, Message, MultiTurnSample, SingleTurnSample};
use ragas::RagasError;

fn sample(question: &str, response: &str, context: &str) -> EvaluationSample {
    EvaluationSample::SingleTurn(
        SingleTurnSample::new(question, response, vec![context.to_string()])
            .with_reference(response)
            .with_metadata("source", "unit-test"),
    )
}

fn fixture_dataset() -> EvaluationDataset<EvaluationSample> {
    EvaluationDataset::from_samples(vec![
        sample(
            "What is RAG?",
            "Retrieval augmented generation.",
            "RAG uses retrieval.",
        ),
        sample(
            "What is eval?",
            "Evaluation scores answers.",
            "Metrics score responses.",
        ),
    ])
    .expect("fixture dataset")
}

#[test]
fn test_14_1_1_backend_trait_supports_save_load_list_and_delete() {
    let mut backend: Box<dyn DatasetBackend> = Box::new(InMemoryDatasetBackend::new());
    let dataset = fixture_dataset();

    backend.save("runs/run-1", &dataset).expect("save dataset");
    assert_eq!(backend.list(), vec!["runs/run-1".to_string()]);

    let loaded = backend.load("runs/run-1").expect("load dataset");
    assert_eq!(loaded.samples(), dataset.samples());

    assert!(backend.delete("runs/run-1"));
    assert!(backend.load("runs/run-1").is_err());
    assert!(backend.list().is_empty());
}

#[test]
fn test_14_1_2_in_memory_backend_is_deterministic_for_tests() {
    let mut backend = InMemoryDatasetBackend::new();
    let dataset = fixture_dataset();

    backend.save("zeta", &dataset).expect("save zeta");
    backend.save("alpha", &dataset).expect("save alpha");
    backend.save("alpha", &dataset).expect("overwrite alpha");

    assert_eq!(
        backend.list(),
        vec!["alpha".to_string(), "zeta".to_string()]
    );
    assert_eq!(backend.load("alpha").expect("alpha").samples().len(), 2);
}

#[test]
fn csv_backend_preserves_dataset_schema() {
    let dataset = fixture_dataset();

    let mut csv = CsvDatasetBackend::new();
    csv.save("fixture", &dataset).expect("save csv");
    let csv_roundtrip = csv.load("fixture").expect("load csv");
    assert_eq!(csv_roundtrip.samples(), dataset.samples());
    assert_eq!(DatasetBackend::list(&csv), vec!["fixture".to_string()]);
    assert!(DatasetBackend::delete(&mut csv, "fixture"));
    assert_eq!(
        csv.load("fixture").unwrap_err(),
        RagasError::DatasetIo {
            message: "dataset backend entry not found: fixture".to_string()
        }
    );
}

#[test]
fn csv_export_writes_fixed_columns_then_sorted_metadata() {
    let dataset = EvaluationDataset::from_samples(vec![
        EvaluationSample::SingleTurn(
            SingleTurnSample::new("q1", "a1", vec!["c1".to_string(), "c2".to_string()])
                .with_metadata("zeta", "z")
                .with_metadata("alpha", "a"),
        ),
        EvaluationSample::SingleTurn(
            SingleTurnSample::new("q2", "a2", vec!["c3".to_string()]).with_reference("r2"),
        ),
    ])
    .expect("dataset");
    let text = dataset_to_csv_string(&dataset).expect("csv text");
    assert_eq!(
        text,
        "user_input,response,retrieved_contexts,reference,metadata.alpha,metadata.zeta\n\
         q1,a1,\"[\"\"c1\"\",\"\"c2\"\"]\",,a,z\n\
         q2,a2,\"[\"\"c3\"\"]\",r2,,\n"
    );
}

#[test]
fn csv_export_refuses_multi_turn_samples() {
    let dataset = EvaluationDataset::from_samples(vec![EvaluationSample::MultiTurn(
        MultiTurnSample::new(vec![Message::user("hi")]),
    )])
    .expect("dataset");
    assert_eq!(
        dataset_to_csv_string(&dataset).unwrap_err(),
        RagasError::DatasetIo {
            message: "CSV backend only supports single-turn samples".to_string()
        }
    );
}

#[test]
fn test_18_3_2_disk_cache_compatibility_preserves_key_value_semantics() {
    let mut cache = DiskCacheCompatibility::new();

    cache.put("alpha", br#"{"score":0.8}"#.to_vec());
    cache.put("beta", b"second".to_vec());
    assert_eq!(cache.get("alpha"), Some(br#"{"score":0.8}"#.to_vec()));
    assert_eq!(cache.keys(), vec!["alpha".to_string(), "beta".to_string()]);

    cache.put("alpha", br#"{"score":0.9}"#.to_vec());
    assert_eq!(cache.get("alpha"), Some(br#"{"score":0.9}"#.to_vec()));
    assert!(cache.delete("beta"));
    assert_eq!(cache.get("beta"), None);
}

#[test]
fn cache_read_after_write_and_delete_concrete() {
    let mut cache = DiskCacheCompatibility::new();
    cache.put("k", vec![1, 2, 3]);
    assert!(cache.has_key("k"));
    assert_eq!(cache.get("k"), Some(vec![1, 2, 3]));
    assert!(cache.delete("k"));
    assert!(!cache.delete("k"));
    assert!(!cache.has_key("k"));
    assert!(cache.set("m", vec![9]).is_ok());
    assert_eq!(cache.get("m"), Some(vec![9]));
}

#[test]
fn test_25_1_1_gdrive_config_records_upstream_auth_contract() {
    let config = GDriveBackendConfig::new("folder-root");

    assert_eq!(config.folder_id, "folder-root");
    assert_eq!(config.credentials_env, "GDRIVE_CREDENTIALS_PATH");
    assert_eq!(config.service_account_env, "GDRIVE_SERVICE_ACCOUNT_PATH");
    assert_eq!(config.token_env, "GDRIVE_TOKEN_PATH");
    assert_eq!(config.token_default, "token.json");
    assert_eq!(
        config.scopes,
        vec![
            "https://www.googleapis.com/auth/drive".to_string(),
            "https://www.googleapis.com/auth/spreadsheets".to_string(),
        ]
    );
    assert_eq!(
        config.auth_modes,
        vec![GDriveAuthMode::ServiceAccount, GDriveAuthMode::OAuth]
    );
    assert_eq!(config.datasets_folder_name, "datasets");
    assert_eq!(config.experiments_folder_name, "experiments");
}

#[test]
fn test_25_1_2_gdrive_fake_transport_roundtrips_dataset_sheets() {
    let dataset = fixture_dataset();
    let config = GDriveBackendConfig::new("folder-root");
    let mut backend =
        GoogleDriveDatasetBackend::new(config, InMemoryGoogleSheetTransport::default());

    backend
        .save("quality/run-1", &dataset)
        .expect("save dataset");

    assert_eq!(backend.list(), vec!["quality/run-1".to_string()]);
    let rows = backend
        .transport()
        .rows("quality/run-1.gsheet")
        .expect("sheet rows");
    assert_eq!(
        rows[0],
        vec![
            "metadata.source".to_string(),
            "reference".to_string(),
            "response".to_string(),
            "retrieved_contexts".to_string(),
            "user_input".to_string(),
        ]
    );
    assert_eq!(rows.len(), dataset.len() + 1);

    let loaded = backend.load("quality/run-1").expect("load dataset");
    assert_eq!(loaded.samples(), dataset.samples());
}

#[test]
fn gdrive_rows_round_trip_concrete() {
    let dataset = fixture_dataset();
    let rows = dataset_to_gdrive_rows(&dataset).expect("rows");
    let back = gdrive_rows_to_dataset(rows).expect("dataset");
    assert_eq!(back.samples(), dataset.samples());
}

#[test]
fn gdrive_refuses_multi_turn_and_reports_bad_contexts() {
    let dataset = EvaluationDataset::from_samples(vec![EvaluationSample::MultiTurn(
        MultiTurnSample::new(vec![Message::user("hi")]),
    )])
    .expect("dataset");
    assert_eq!(
        dataset_to_gdrive_rows(&dataset).unwrap_err(),
        RagasError::DatasetIo {
            message: "GDrive backend only supports single-turn samples".to_string()
        }
    );
    let rows = vec![
        vec!["user_input".to_string(), "response".to_string(), "retrieved_contexts".to_string()],
        vec!["q".to_string(), "a".to_string(), "[oops".to_string()],
    ];
    let error = gdrive_rows_to_dataset(rows).unwrap_err();
    assert!(error.describe().contains("retrieved_contexts JSON parse failed: "));
    assert_eq!(gdrive_rows_to_dataset(vec![]).unwrap_err(), RagasError::EmptyDataset);
}

#[test]
fn gdrive_delete_removes_only_the_named_sheet() {
    let dataset = fixture_dataset();
    let mut backend = GoogleDriveDatasetBackend::new(
        GDriveBackendConfig::new("folder-root"),
        InMemoryGoogleSheetTransport::default(),
    );
    backend.save("a", &dataset).expect("save a");
    backend.save("b", &dataset).expect("save b");
    assert_eq!(backend.list(), vec!["a".to_string(), "b".to_string()]);
    assert!(backend.delete("a"));
    assert!(!backend.delete("a"));
    assert!(backend.transport().rows("a.gsheet").is_none());
    assert!(backend.transport().rows("b.gsheet").is_some());
    assert_eq!(backend.list(), vec!["b".to_string()]);
}

#[test]
fn test_14_1_3_jsonl_and_csv_local_backends_preserve_dataset_schema() {
    let dataset = fixture_dataset();

    let mut csv = CsvDatasetBackend::new();
    csv.save("fixture", &dataset).expect("save csv");
    let csv_roundtrip = csv.load("fixture").expect("load csv");
    assert_eq!(csv_roundtrip.samples(), dataset.samples());
}

#[test]
fn csv_backend_round_trips_fields_that_need_quoting() {
    let dataset = EvaluationDataset::from_samples(vec![EvaluationSample::SingleTurn(
        SingleTurnSample::new(
            "Does \"quoting\", work?",
            "Yes,\nacross lines",
            vec!["a | b".to_string(), "c, \"d\"".to_string()],
        )
        .with_metadata("note", "x,y"),
    )])
    .expect("dataset");
    let mut csv = CsvDatasetBackend::new();
    csv.save("tricky", &dataset).expect("save csv");
    let loaded = csv.load("tricky").expect("load csv");
    assert_eq!(loaded.samples(), dataset.samples());
}

#[test]
fn csv_backend_refuses_multi_turn_and_stays_unchanged() {
    let dataset = EvaluationDataset::from_samples(vec![EvaluationSample::MultiTurn(
        MultiTurnSample::new(vec![Message::user("hello")]),
    )])
    .expect("dataset");
    let mut csv = CsvDatasetBackend::new();
    assert!(matches!(csv.save("multi", &dataset), Err(RagasError::DatasetIo { .. })));
    assert!(csv.list().is_empty());
}

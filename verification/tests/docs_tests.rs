use std::collections::{BTreeMap, BTreeSet};

use ragas::docs_examples::{
    docs_parity_claims, example_output_type, public_workflow_examples, quickstart_descriptors,
    quickstart_slug, runnable_example_metadata, ExampleOutputType,
};
use ragas::parity::{ParityFeatureStatus, ParityFixtureMode};

#[test]
fn test_16_2_2_examples_map_to_upstream_docs_section_names() {
    let sections = public_workflow_examples()
        .into_iter()
        .map(|example| example.upstream_section)
        .collect::<BTreeSet<_>>();

    assert!(sections.contains("Evaluate a RAG application"));
    assert!(sections.contains("Generate a testset"));
    assert!(sections.contains("Compare and monitor evaluation cost"));
}

#[test]
fn test_21_3_1_quickstart_registry_maps_upstream_templates() {
    let descriptors = quickstart_descriptors();
    let by_template = descriptors
        .iter()
        .map(|descriptor| (descriptor.upstream_template.as_str(), descriptor))
        .collect::<BTreeMap<_, _>>();

    for expected in [
        "Evaluate a RAG application",
        "Generate a testset",
        "Compare and monitor evaluation cost",
        "Run experiments",
    ] {
        assert!(by_template.contains_key(expected), "missing {expected}");
    }

    let evaluate = by_template
        .get("Evaluate a RAG application")
        .expect("evaluate quickstart");
    assert_eq!(evaluate.rust_example.as_deref(), Some("examples/evaluate.rs"));
    assert_eq!(evaluate.parity_status, ParityFeatureStatus::Complete);

    let experiments = by_template
        .get("Run experiments")
        .expect("experiments quickstart");
    assert_eq!(experiments.rust_example, None);
    assert_eq!(experiments.parity_status, ParityFeatureStatus::KnownGap);
    assert!(experiments
        .known_gap
        .as_deref()
        .is_some_and(|gap| gap.contains("example")));
}

#[test]
fn runnable_metadata_names_command_output_and_flags() {
    let metadata = runnable_example_metadata();
    let by_path = metadata
        .iter()
        .map(|example| (example.example_path.as_str(), example))
        .collect::<BTreeMap<_, _>>();

    for expected in [
        "examples/evaluate.rs",
        "examples/testset.rs",
        "examples/benchmark.rs",
    ] {
        let example = by_path
            .get(expected)
            .unwrap_or_else(|| panic!("missing runnable example metadata for {expected}"));
        assert!(example.example_path.ends_with(".rs"));
        assert!(example.command.starts_with("cargo run --example "));
        assert!(example.feature_flags.contains(&"default".to_string()));
    }

    assert_eq!(
        by_path["examples/evaluate.rs"].expected_output,
        ExampleOutputType::Json
    );
    assert_eq!(
        by_path["examples/testset.rs"].expected_output,
        ExampleOutputType::Dataset
    );
    assert_eq!(
        by_path["examples/benchmark.rs"].expected_output,
        ExampleOutputType::Json
    );
}

#[test]
fn docs_claims_carry_fixtures_only_when_complete() {
    let claims = docs_parity_claims();
    assert_eq!(claims.len(), 4);
    let evaluate = &claims[0];
    assert_eq!(evaluate.feature, "docs::quickstart::evaluate");
    assert_eq!(evaluate.status, ParityFeatureStatus::Complete);
    assert_eq!(evaluate.fixtures.len(), 1);
    assert_eq!(evaluate.fixtures[0].feature, "docs::quickstart::evaluate");
    assert_eq!(evaluate.fixtures[0].upstream_module_path, "docs/quickstarts/evaluate.md");
    assert_eq!(evaluate.fixtures[0].rust_example.as_deref(), Some("examples/evaluate.rs"));
    assert_eq!(
        evaluate.fixtures[0].fixture_path,
        "tests/parity/fixtures/docs_quickstart_evaluate.json"
    );
    assert_eq!(evaluate.fixtures[0].mode, ParityFixtureMode::DeterministicMock);
    assert_eq!(evaluate.fixtures[0].tolerance_exponent, None);
    let experiments = &claims[3];
    assert_eq!(experiments.feature, "docs::quickstart::experiments");
    assert_eq!(experiments.status, ParityFeatureStatus::KnownGap);
    assert!(experiments.fixtures.is_empty());
}

#[test]
fn slugs_and_output_types() {
    assert_eq!(quickstart_slug("Generate a testset"), "testset");
    assert_eq!(quickstart_slug("Something else"), "unknown");
    assert_eq!(example_output_type("testset"), ExampleOutputType::Dataset);
    assert_eq!(example_output_type("benchmark"), ExampleOutputType::Json);
    assert_eq!(example_output_type("other"), ExampleOutputType::Text);
    let metadata = runnable_example_metadata();
    assert_eq!(metadata[0].command, "cargo run --example evaluate");
    assert_eq!(metadata[1].feature_flags, vec!["default".to_string()]);
}

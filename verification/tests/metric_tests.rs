use std::collections::BTreeSet;

use ragas::metric_base::{
    MetricError, MetricErrorKind, MetricEvidence, MetricMetadata, MetricProviderRequirement,
    MetricSampleKind, MetricValueType, SampleField,
};
use ragas::metrics::{BleuScoreMetric, ChrfScoreMetric, ExactMatchMetric};
use ragas::parity::ParityFeatureStatus;
use ragas::registry::{
    metric_catalog, metric_catalog_parity_claims, metric_golden_fixture_metadata,
    MetricCatalogFamily, MetricFixtureCoverage, MetricRegistry, MetricRegistryEntry, ParityStatus,
};

#[test]
fn test_9_1_1_metric_traits_distinguish_turn_kind_and_provider_requirements() {
    let single = MetricMetadata::new("judge_similarity", MetricSampleKind::SingleTurn)
        .with_provider_requirements(vec![
            MetricProviderRequirement::Llm,
            MetricProviderRequirement::Embedding,
        ]);
    assert_eq!(single.sample_kind(), MetricSampleKind::SingleTurn);
    assert!(single.requires_llm());
    assert!(single.requires_embedding());

    let multi = MetricMetadata::new("conversation_goal_accuracy", MetricSampleKind::MultiTurn)
        .with_provider_requirements(vec![MetricProviderRequirement::Llm]);
    assert_eq!(multi.sample_kind(), MetricSampleKind::MultiTurn);
    assert!(multi.requires_llm());
    assert!(!multi.requires_embedding());
}

#[test]
fn test_9_1_3_metric_metadata_declares_required_sample_fields() {
    let metadata = MetricMetadata::new("answer_correctness", MetricSampleKind::SingleTurn)
        .with_required_fields(vec![SampleField::UserInput, SampleField::Response]);

    assert_eq!(
        metadata.required_fields(),
        &[SampleField::UserInput, SampleField::Response]
    );

    let requirements = metadata.to_requirements();
    assert_eq!(requirements.metric_name(), "answer_correctness");
    assert_eq!(
        requirements.required_fields(),
        &[SampleField::UserInput, SampleField::Response]
    );
}

#[test]
fn test_9_2_3_error_taxonomy_distinguishes_provider_parse_validation_and_metric_failures() {
    let provider = MetricError::provider("rate limited");
    let parse = MetricError::parse("bad json");
    let validation = MetricError::validation("missing response");
    let metric = MetricError::metric("division by zero");

    assert_eq!(provider.kind, MetricErrorKind::Provider);
    assert_eq!(parse.kind, MetricErrorKind::Parse);
    assert_eq!(validation.kind, MetricErrorKind::Validation);
    assert_eq!(metric.kind, MetricErrorKind::Metric);
    assert_eq!(metric.message, "division by zero");
    let evidence = MetricEvidence::new("context[0]", "Ragas evaluates LLM apps");
    assert_eq!(evidence.source, "context[0]");
    assert_eq!(evidence.text, "Ragas evaluates LLM apps");
}

fn entry(name: &str) -> MetricRegistryEntry {
    MetricRegistryEntry::new(
        name,
        MetricMetadata::new(name, MetricSampleKind::SingleTurn)
            .with_provider_requirements(vec![MetricProviderRequirement::Llm]),
    )
}

#[test]
fn test_9_3_1_metric_registry_resolves_builtins_by_stable_names() {
    let registry = MetricRegistry::new()
        .register(entry("faithfulness"))
        .register(entry("response_relevancy"))
        .register(entry("context_precision"));

    assert_eq!(
        registry.resolve("faithfulness").expect("entry").name(),
        "faithfulness"
    );
    assert_eq!(
        registry.resolve("response_relevancy").expect("entry").name(),
        "response_relevancy"
    );
    assert!(registry.resolve("missing_metric").is_err());
}

#[test]
fn test_9_3_2_feature_gated_metrics_are_hidden_unless_enabled() {
    let registry = MetricRegistry::new()
        .register(entry("faithfulness"))
        .register(entry("sql_semantic_equivalence").with_feature("sql"));

    assert_eq!(
        registry.list_visible_names(),
        vec!["faithfulness".to_string()]
    );
    assert!(registry.resolve("sql_semantic_equivalence").is_err());

    let enabled = registry.enable_feature("sql");
    assert_eq!(
        enabled.list_visible_names(),
        vec![
            "faithfulness".to_string(),
            "sql_semantic_equivalence".to_string()
        ]
    );
    assert_eq!(
        enabled
            .resolve("sql_semantic_equivalence")
            .expect("enabled metric")
            .feature(),
        Some("sql")
    );
}

#[test]
fn test_9_3_3_parity_status_labels_are_exported_for_docs_and_tests() {
    assert_eq!(ParityStatus::ParityComplete.as_label(), "parity-complete");
    assert_eq!(
        ParityStatus::SemanticApproximation.as_label(),
        "semantic-approximation"
    );
    assert_eq!(ParityStatus::KnownGap.as_label(), "known-gap");
    assert_eq!(ParityStatus::NotStarted.as_label(), "not-started");

    let registered = entry("faithfulness").with_parity_status(ParityStatus::KnownGap);
    assert_eq!(registered.parity_label(), "known-gap");
}

#[test]
fn registry_errors_name_the_missing_metric_and_feature() {
    let registry = MetricRegistry::new().register(entry("sql").with_feature("sql-feature"));
    assert_eq!(
        registry.resolve("nope").unwrap_err().describe(),
        "provider error: missing metric: nope"
    );
    assert_eq!(
        registry.resolve("sql").unwrap_err().describe(),
        "provider error: metric 'sql' requires feature 'sql-feature'"
    );
}

#[test]
fn test_19_1_1_metric_catalog_descriptors_list_upstream_families_and_owners() {
    let catalog = metric_catalog();
    let families: BTreeSet<_> = catalog.iter().map(|descriptor| descriptor.family).collect();

    for expected in [
        MetricCatalogFamily::ContextPrecision,
        MetricCatalogFamily::ContextRecall,
        MetricCatalogFamily::Faithfulness,
        MetricCatalogFamily::ResponseRelevancy,
        MetricCatalogFamily::FactualCorrectness,
        MetricCatalogFamily::AnswerCorrectness,
        MetricCatalogFamily::SemanticSimilarity,
        MetricCatalogFamily::AspectCritic,
        MetricCatalogFamily::ToolCallAccuracy,
        MetricCatalogFamily::TopicAdherence,
        MetricCatalogFamily::SqlSemanticEquivalence,
        MetricCatalogFamily::Multimodal,
        MetricCatalogFamily::Summarization,
    ] {
        assert!(families.contains(&expected), "missing {expected:?}");
    }

    assert!(catalog.iter().all(|descriptor| {
        !descriptor.upstream_name.is_empty() && !descriptor.rust_owner.is_empty()
    }));
}

#[test]
fn test_19_1_2_metric_catalog_records_scoring_contract_metadata() {
    let catalog = metric_catalog();
    let faithfulness = catalog
        .iter()
        .find(|descriptor| descriptor.family == MetricCatalogFamily::Faithfulness)
        .expect("faithfulness descriptor");

    assert_eq!(faithfulness.sample_kind, MetricSampleKind::SingleTurn);
    assert!(faithfulness
        .provider_requirements
        .contains(&MetricProviderRequirement::Llm));
    assert_eq!(faithfulness.output_type, MetricValueType::Numeric);
    assert_ne!(
        faithfulness.fixture_coverage,
        MetricFixtureCoverage::NotRequired
    );

    let semantic = catalog
        .iter()
        .find(|descriptor| descriptor.family == MetricCatalogFamily::SemanticSimilarity)
        .expect("semantic descriptor");
    assert!(semantic
        .provider_requirements
        .contains(&MetricProviderRequirement::Embedding));
}

#[test]
fn test_28_1_1_metric_catalog_descriptors_are_complete_and_fixture_backed() {
    let catalog = metric_catalog();
    let metadata = metric_golden_fixture_metadata();
    let fixture_features = metadata
        .iter()
        .map(|fixture| fixture.feature.as_str())
        .collect::<BTreeSet<_>>();

    assert_eq!(
        metadata.len(),
        catalog.len(),
        "each metric catalog descriptor must have one golden fixture metadata entry"
    );

    for descriptor in &catalog {
        assert_eq!(
            descriptor.parity_status,
            ParityFeatureStatus::Complete,
            "{} must be marked complete only after fixture evidence exists",
            descriptor.upstream_name
        );
        assert_eq!(
            descriptor.fixture_coverage,
            MetricFixtureCoverage::FixtureBacked,
            "{} must be fixture-backed",
            descriptor.upstream_name
        );
        assert!(
            fixture_features.contains(descriptor.upstream_name),
            "{} missing golden fixture metadata",
            descriptor.upstream_name
        );
    }

    assert!(metadata.iter().all(|fixture| {
        fixture.upstream_module_path.starts_with("src/ragas/metrics/")
            && fixture.fixture_path.starts_with("tests/parity/fixtures/metric_")
    }));
}

#[test]
fn catalog_claims_follow_the_catalog() {
    let catalog = metric_catalog();
    let claims = metric_catalog_parity_claims();
    assert_eq!(claims.len(), catalog.len());
    assert_eq!(claims[0].feature, format!("metric::{}", catalog[0].upstream_name));
    assert_eq!(claims[0].fixtures.len(), 1);
}

#[test]
fn deterministic_metrics_declare_response_and_reference() {
    let r = ExactMatchMetric::new().requirements();
    assert_eq!(r.metric_name(), "exact_match");
    assert_eq!(r.required_fields(), &[SampleField::Response, SampleField::Reference]);
    assert_eq!(ChrfScoreMetric::new().name(), "chrf");
    assert_eq!(BleuScoreMetric::new().requirements().metric_name(), "bleu_score");
}

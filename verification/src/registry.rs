//! The metric registry (metrics resolved by stable name, feature-gated metrics hidden until
//! their feature is enabled) and the metric catalog with its golden-fixture parity evidence.
use vstd::prelude::*;

use crate::dataset::strings_view;
use crate::error::RagasError;
use crate::metric_base::{MetricMetadata, MetricProviderRequirement, MetricSampleKind, MetricValueType};
use crate::parity::{FixtureView, ParityClaim, ParityFeatureStatus, ParityFixtureMetadata, ParityFixtureMode};
use crate::string_map::{lemma_sorted_key_list, sorted_key_list, strictly_sorted, StringMap};
use crate::text::{push_str, seq_lt, to_owned_string};

verus! {

/// The metric families of the catalog.
#[derive(Debug, Clone, Copy, PartialEq, Eq, Structural, PartialOrd, Ord, Hash)]
pub enum MetricCatalogFamily {
    ContextPrecision,
    ContextRecall,
    ContextEntityRecall,
    ContextRelevance,
    Faithfulness,
    ResponseRelevancy,
    ResponseGroundedness,
    FactualCorrectness,
    AnswerRelevancy,
    AnswerCorrectness,
    NoiseSensitivity,
    ExactMatch,
    Bleu,
    RougeL,
    Chrf,
    SemanticSimilarity,
    StringSimilarity,
    Rubrics,
    AspectCritic,
    ToolCallAccuracy,
    ToolCallF1,
    AgentGoalAccuracy,
    TopicAdherence,
    SqlSemanticEquivalence,
    Multimodal,
    Summarization,
}

/// Whether a metric's behaviour is backed by a golden fixture.
#[derive(Debug, Clone, Copy, PartialEq, Eq, Structural)]
pub enum MetricFixtureCoverage {
    FixtureBacked,
    Missing,
    NotRequired,
}

/// One entry of the metric catalog.
#[derive(Debug, Clone, PartialEq, Eq)]
pub struct MetricCatalogDescriptor {
    pub family: MetricCatalogFamily,
    pub upstream_name: &'static str,
    pub rust_owner: &'static str,
    pub sample_kind: MetricSampleKind,
    pub provider_requirements: Vec<MetricProviderRequirement>,
    pub output_type: MetricValueType,
    pub fixture_coverage: MetricFixtureCoverage,
    pub parity_status: ParityFeatureStatus,
}

/// The contents of a catalog entry.
pub struct CatalogView {
    pub family: MetricCatalogFamily,
    pub upstream_name: Seq<char>,
    pub rust_owner: Seq<char>,
    pub sample_kind: MetricSampleKind,
    pub provider_requirements: Seq<MetricProviderRequirement>,
    pub output_type: MetricValueType,
    pub fixture_coverage: MetricFixtureCoverage,
    pub parity_status: ParityFeatureStatus,
}

impl View for MetricCatalogDescriptor {
    type V = CatalogView;

    open spec fn view(&self) -> CatalogView {
        CatalogView {
            family: self.family,
            upstream_name: self.upstream_name@,
            rust_owner: self.rust_owner@,
            sample_kind: self.sample_kind,
            provider_requirements: self.provider_requirements@,
            output_type: self.output_type,
            fixture_coverage: self.fixture_coverage,
            parity_status: self.parity_status,
        }
    }
}

/// The parity feature name of a catalog entry.
pub open spec fn metric_feature(upstream_name: Seq<char>) -> Seq<char> {
    "metric::"@ + upstream_name
}

impl MetricCatalogDescriptor {
    pub fn new(
        family: MetricCatalogFamily,
        upstream_name: &'static str,
        rust_owner: &'static str,
        sample_kind: MetricSampleKind,
        provider_requirements: Vec<MetricProviderRequirement>,
        output_type: MetricValueType,
        fixture_coverage: MetricFixtureCoverage,
        parity_status: ParityFeatureStatus,
    ) -> (d: Self)
        ensures
            d.family == family,
            d.upstream_name == upstream_name,
            d.rust_owner == rust_owner,
            d.sample_kind == sample_kind,
            d.provider_requirements == provider_requirements,
            d.output_type == output_type,
            d.fixture_coverage == fixture_coverage,
            d.parity_status == parity_status,
    {
        MetricCatalogDescriptor {
            family,
            upstream_name,
            rust_owner,
            sample_kind,
            provider_requirements,
            output_type,
            fixture_coverage,
            parity_status,
        }
    }

    /// `metric::<upstream name>`.
    pub fn parity_feature(&self) -> (s: String)
        ensures
            s@ == metric_feature(self.upstream_name@),
    {
        let mut s = String::new();
        push_str(&mut s, "metric::");
        push_str(&mut s, self.upstream_name);
        s
    }
}

pub open spec fn catalog_entry(
    family: MetricCatalogFamily,
    upstream_name: Seq<char>,
    rust_owner: Seq<char>,
    sample_kind: MetricSampleKind,
    provider_requirements: Seq<MetricProviderRequirement>,
    output_type: MetricValueType,
    fixture_coverage: MetricFixtureCoverage,
    parity_status: ParityFeatureStatus,
) -> CatalogView {
    CatalogView {
        family,
        upstream_name,
        rust_owner,
        sample_kind,
        provider_requirements,
        output_type,
        fixture_coverage,
        parity_status,
    }
}

/// The catalog entries as declared, before fixture evidence is taken into account.
pub open spec fn declared_catalog() -> Seq<CatalogView> {
    seq![
        catalog_entry(MetricCatalogFamily::ContextPrecision, "context_precision"@, "context_precision_from_relevance"@, MetricSampleKind::SingleTurn, seq![MetricProviderRequirement::Llm], MetricValueType::Numeric, MetricFixtureCoverage::FixtureBacked, ParityFeatureStatus::Complete),
        catalog_entry(MetricCatalogFamily::ContextRecall, "context_recall"@, "context_recall"@, MetricSampleKind::SingleTurn, seq![MetricProviderRequirement::Llm], MetricValueType::Numeric, MetricFixtureCoverage::Missing, ParityFeatureStatus::Partial),
        catalog_entry(MetricCatalogFamily::ContextEntityRecall, "context_entity_recall"@, "context_entity_recall"@, MetricSampleKind::SingleTurn, seq![], MetricValueType::Numeric, MetricFixtureCoverage::Missing, ParityFeatureStatus::Partial),
        catalog_entry(MetricCatalogFamily::ContextRelevance, "context_relevance"@, "context_relevance"@, MetricSampleKind::SingleTurn, seq![MetricProviderRequirement::Llm], MetricValueType::Numeric, MetricFixtureCoverage::Missing, ParityFeatureStatus::Partial),
        catalog_entry(MetricCatalogFamily::Faithfulness, "faithfulness"@, "FaithfulnessMetric"@, MetricSampleKind::SingleTurn, seq![MetricProviderRequirement::Llm], MetricValueType::Numeric, MetricFixtureCoverage::Missing, ParityFeatureStatus::Partial),
        catalog_entry(MetricCatalogFamily::ResponseRelevancy, "response_relevancy"@, "ResponseRelevancyMetric"@, MetricSampleKind::SingleTurn, seq![MetricProviderRequirement::Embedding], MetricValueType::Numeric, MetricFixtureCoverage::Missing, ParityFeatureStatus::Partial),
        catalog_entry(MetricCatalogFamily::ResponseGroundedness, "response_groundedness"@, "response_groundedness"@, MetricSampleKind::SingleTurn, seq![MetricProviderRequirement::Llm], MetricValueType::Numeric, MetricFixtureCoverage::Missing, ParityFeatureStatus::Partial),
        catalog_entry(MetricCatalogFamily::FactualCorrectness, "factual_correctness"@, "factual_correctness"@, MetricSampleKind::SingleTurn, seq![MetricProviderRequirement::Llm], MetricValueType::Numeric, MetricFixtureCoverage::Missing, ParityFeatureStatus::Partial),
        catalog_entry(MetricCatalogFamily::AnswerRelevancy, "answer_relevancy"@, "answer_relevancy_from_embedding_similarity"@, MetricSampleKind::SingleTurn, seq![MetricProviderRequirement::Embedding], MetricValueType::Numeric, MetricFixtureCoverage::Missing, ParityFeatureStatus::Partial),
        catalog_entry(MetricCatalogFamily::AnswerCorrectness, "answer_correctness"@, "answer_correctness"@, MetricSampleKind::SingleTurn, seq![MetricProviderRequirement::Llm, MetricProviderRequirement::Embedding], MetricValueType::Numeric, MetricFixtureCoverage::Missing, ParityFeatureStatus::Partial),
        catalog_entry(MetricCatalogFamily::NoiseSensitivity, "noise_sensitivity"@, "noise_sensitivity"@, MetricSampleKind::SingleTurn, seq![MetricProviderRequirement::Llm], MetricValueType::Numeric, MetricFixtureCoverage::Missing, ParityFeatureStatus::Partial),
        catalog_entry(MetricCatalogFamily::ExactMatch, "exact_match"@, "exact_match"@, MetricSampleKind::SingleTurn, seq![], MetricValueType::Discrete, MetricFixtureCoverage::Missing, ParityFeatureStatus::Partial),
        catalog_entry(MetricCatalogFamily::Bleu, "bleu"@, "bleu_unigram"@, MetricSampleKind::SingleTurn, seq![], MetricValueType::Numeric, MetricFixtureCoverage::Missing, ParityFeatureStatus::Partial),
        catalog_entry(MetricCatalogFamily::RougeL, "rouge_l"@, "rouge_l_recall"@, MetricSampleKind::SingleTurn, seq![], MetricValueType::Numeric, MetricFixtureCoverage::Missing, ParityFeatureStatus::Partial),
        catalog_entry(MetricCatalogFamily::Chrf, "chrf"@, "chrf_score"@, MetricSampleKind::SingleTurn, seq![], MetricValueType::Numeric, MetricFixtureCoverage::Missing, ParityFeatureStatus::Partial),
        catalog_entry(MetricCatalogFamily::SemanticSimilarity, "semantic_similarity"@, "semantic_similarity_from_vectors"@, MetricSampleKind::SingleTurn, seq![MetricProviderRequirement::Embedding], MetricValueType::Numeric, MetricFixtureCoverage::Missing, ParityFeatureStatus::Partial),
        catalog_entry(MetricCatalogFamily::StringSimilarity, "string_similarity"@, "string_distance_similarity"@, MetricSampleKind::SingleTurn, seq![], MetricValueType::Numeric, MetricFixtureCoverage::Missing, ParityFeatureStatus::Partial),
        catalog_entry(MetricCatalogFamily::Rubrics, "rubrics"@, "RubricMetric"@, MetricSampleKind::SingleTurn, seq![MetricProviderRequirement::Llm], MetricValueType::Numeric, MetricFixtureCoverage::Missing, ParityFeatureStatus::Partial),
        catalog_entry(MetricCatalogFamily::AspectCritic, "aspect_critic"@, "score_aspect_critic"@, MetricSampleKind::SingleTurn, seq![MetricProviderRequirement::Llm], MetricValueType::Discrete, MetricFixtureCoverage::Missing, ParityFeatureStatus::Partial),
        catalog_entry(MetricCatalogFamily::ToolCallAccuracy, "tool_call_accuracy"@, "tool_call_accuracy"@, MetricSampleKind::MultiTurn, seq![], MetricValueType::Numeric, MetricFixtureCoverage::Missing, ParityFeatureStatus::Partial),
        catalog_entry(MetricCatalogFamily::ToolCallF1, "tool_call_f1"@, "tool_call_f1"@, MetricSampleKind::MultiTurn, seq![], MetricValueType::Numeric, MetricFixtureCoverage::Missing, ParityFeatureStatus::Partial),
        catalog_entry(MetricCatalogFamily::AgentGoalAccuracy, "agent_goal_accuracy"@, "agent_goal_accuracy"@, MetricSampleKind::MultiTurn, seq![MetricProviderRequirement::Llm], MetricValueType::Numeric, MetricFixtureCoverage::Missing, ParityFeatureStatus::Partial),
        catalog_entry(MetricCatalogFamily::TopicAdherence, "topic_adherence"@, "topic_adherence"@, MetricSampleKind::MultiTurn, seq![MetricProviderRequirement::Llm], MetricValueType::Numeric, MetricFixtureCoverage::Missing, ParityFeatureStatus::Partial),
        catalog_entry(MetricCatalogFamily::SqlSemanticEquivalence, "sql_semantic_equivalence"@, "sql_semantic_equivalence"@, MetricSampleKind::SingleTurn, seq![MetricProviderRequirement::Llm], MetricValueType::Discrete, MetricFixtureCoverage::Missing, ParityFeatureStatus::KnownGap),
        catalog_entry(MetricCatalogFamily::Multimodal, "multimodal"@, "multimodal_metric_from_prompt"@, MetricSampleKind::SingleTurn, seq![MetricProviderRequirement::Llm], MetricValueType::Numeric, MetricFixtureCoverage::Missing, ParityFeatureStatus::KnownGap),
        catalog_entry(MetricCatalogFamily::Summarization, "summarization"@, "summarization_score_from_judge_output"@, MetricSampleKind::SingleTurn, seq![MetricProviderRequirement::Llm], MetricValueType::Numeric, MetricFixtureCoverage::Missing, ParityFeatureStatus::KnownGap),
    ]
}

/// The catalog entry once fixture evidence is known: an entry with a golden fixture is
/// fixture-backed and complete.
pub open spec fn with_evidence(d: CatalogView, fixture_features: Seq<Seq<char>>) -> CatalogView {
    if fixture_features.contains(d.upstream_name) {
        CatalogView { fixture_coverage: MetricFixtureCoverage::FixtureBacked, parity_status: ParityFeatureStatus::Complete, ..d }
    } else {
        d
    }
}

/// The features that the golden fixtures cover, in order.
pub open spec fn fixture_features() -> Seq<Seq<char>> {
    golden_fixtures().map_values(|f: FixtureView| f.feature)
}

/// The metric catalog.
pub open spec fn catalog() -> Seq<CatalogView> {
    declared_catalog().map_values(|d: CatalogView| with_evidence(d, fixture_features()))
}

fn providers(a: Option<MetricProviderRequirement>, b: Option<MetricProviderRequirement>) -> (v: Vec<MetricProviderRequirement>)
    ensures
        v@ == match (a, b) {
            (Some(x), Some(y)) => seq![x, y],
            (Some(x), None) => seq![x],
            (None, Some(y)) => seq![y],
            (None, None) => Seq::<MetricProviderRequirement>::empty(),
        },
{
    let mut v: Vec<MetricProviderRequirement> = Vec::new();
    match a {
        Some(x) => v.push(x),
        None => {},
    }
    match b {
        Some(y) => v.push(y),
        None => {},
    }
    proof {
        match (a, b) {
            (Some(x), Some(y)) => assert(v@ =~= seq![x, y]),
            (Some(x), None) => assert(v@ =~= seq![x]),
            (None, Some(y)) => assert(v@ =~= seq![y]),
            (None, None) => assert(v@ =~= Seq::<MetricProviderRequirement>::empty()),
        }
    }
    v
}

fn declared_catalog_entries() -> (r: Vec<MetricCatalogDescriptor>)
    ensures
        r@.map_values(|d: MetricCatalogDescriptor| d@) == declared_catalog(),
{
    let mut r: Vec<MetricCatalogDescriptor> = Vec::new();
    r.push(MetricCatalogDescriptor::new(MetricCatalogFamily::ContextPrecision, "context_precision", "context_precision_from_relevance", MetricSampleKind::SingleTurn, providers(Some(MetricProviderRequirement::Llm), None), MetricValueType::Numeric, MetricFixtureCoverage::FixtureBacked, ParityFeatureStatus::Complete));
    r.push(MetricCatalogDescriptor::new(MetricCatalogFamily::ContextRecall, "context_recall", "context_recall", MetricSampleKind::SingleTurn, providers(Some(MetricProviderRequirement::Llm), None), MetricValueType::Numeric, MetricFixtureCoverage::Missing, ParityFeatureStatus::Partial));
    r.push(MetricCatalogDescriptor::new(MetricCatalogFamily::ContextEntityRecall, "context_entity_recall", "context_entity_recall", MetricSampleKind::SingleTurn, providers(None, None), MetricValueType::Numeric, MetricFixtureCoverage::Missing, ParityFeatureStatus::Partial));
    r.push(MetricCatalogDescriptor::new(MetricCatalogFamily::ContextRelevance, "context_relevance", "context_relevance", MetricSampleKind::SingleTurn, providers(Some(MetricProviderRequirement::Llm), None), MetricValueType::Numeric, MetricFixtureCoverage::Missing, ParityFeatureStatus::Partial));
    r.push(MetricCatalogDescriptor::new(MetricCatalogFamily::Faithfulness, "faithfulness", "FaithfulnessMetric", MetricSampleKind::SingleTurn, providers(Some(MetricProviderRequirement::Llm), None), MetricValueType::Numeric, MetricFixtureCoverage::Missing, ParityFeatureStatus::Partial));
    r.push(MetricCatalogDescriptor::new(MetricCatalogFamily::ResponseRelevancy, "response_relevancy", "ResponseRelevancyMetric", MetricSampleKind::SingleTurn, providers(Some(MetricProviderRequirement::Embedding), None), MetricValueType::Numeric, MetricFixtureCoverage::Missing, ParityFeatureStatus::Partial));
    r.push(MetricCatalogDescriptor::new(MetricCatalogFamily::ResponseGroundedness, "response_groundedness", "response_groundedness", MetricSampleKind::SingleTurn, providers(Some(MetricProviderRequirement::Llm), None), MetricValueType::Numeric, MetricFixtureCoverage::Missing, ParityFeatureStatus::Partial));
    r.push(MetricCatalogDescriptor::new(MetricCatalogFamily::FactualCorrectness, "factual_correctness", "factual_correctness", MetricSampleKind::SingleTurn, providers(Some(MetricProviderRequirement::Llm), None), MetricValueType::Numeric, MetricFixtureCoverage::Missing, ParityFeatureStatus::Partial));
    r.push(MetricCatalogDescriptor::new(MetricCatalogFamily::AnswerRelevancy, "answer_relevancy", "answer_relevancy_from_embedding_similarity", MetricSampleKind::SingleTurn, providers(Some(MetricProviderRequirement::Embedding), None), MetricValueType::Numeric, MetricFixtureCoverage::Missing, ParityFeatureStatus::Partial));
    r.push(MetricCatalogDescriptor::new(MetricCatalogFamily::AnswerCorrectness, "answer_correctness", "answer_correctness", MetricSampleKind::SingleTurn, providers(Some(MetricProviderRequirement::Llm), Some(MetricProviderRequirement::Embedding)), MetricValueType::Numeric, MetricFixtureCoverage::Missing, ParityFeatureStatus::Partial));
    r.push(MetricCatalogDescriptor::new(MetricCatalogFamily::NoiseSensitivity, "noise_sensitivity", "noise_sensitivity", MetricSampleKind::SingleTurn, providers(Some(MetricProviderRequirement::Llm), None), MetricValueType::Numeric, MetricFixtureCoverage::Missing, ParityFeatureStatus::Partial));
    r.push(MetricCatalogDescriptor::new(MetricCatalogFamily::ExactMatch, "exact_match", "exact_match", MetricSampleKind::SingleTurn, providers(None, None), MetricValueType::Discrete, MetricFixtureCoverage::Missing, ParityFeatureStatus::Partial));
    r.push(MetricCatalogDescriptor::new(MetricCatalogFamily::Bleu, "bleu", "bleu_unigram", MetricSampleKind::SingleTurn, providers(None, None), MetricValueType::Numeric, MetricFixtureCoverage::Missing, ParityFeatureStatus::Partial));
    r.push(MetricCatalogDescriptor::new(MetricCatalogFamily::RougeL, "rouge_l", "rouge_l_recall", MetricSampleKind::SingleTurn, providers(None, None), MetricValueType::Numeric, MetricFixtureCoverage::Missing, ParityFeatureStatus::Partial));
    r.push(MetricCatalogDescriptor::new(MetricCatalogFamily::Chrf, "chrf", "chrf_score", MetricSampleKind::SingleTurn, providers(None, None), MetricValueType::Numeric, MetricFixtureCoverage::Missing, ParityFeatureStatus::Partial));
    r.push(MetricCatalogDescriptor::new(MetricCatalogFamily::SemanticSimilarity, "semantic_similarity", "semantic_similarity_from_vectors", MetricSampleKind::SingleTurn, providers(Some(MetricProviderRequirement::Embedding), None), MetricValueType::Numeric, MetricFixtureCoverage::Missing, ParityFeatureStatus::Partial));
    r.push(MetricCatalogDescriptor::new(MetricCatalogFamily::StringSimilarity, "string_similarity", "string_distance_similarity", MetricSampleKind::SingleTurn, providers(None, None), MetricValueType::Numeric, MetricFixtureCoverage::Missing, ParityFeatureStatus::Partial));
    r.push(MetricCatalogDescriptor::new(MetricCatalogFamily::Rubrics, "rubrics", "RubricMetric", MetricSampleKind::SingleTurn, providers(Some(MetricProviderRequirement::Llm), None), MetricValueType::Numeric, MetricFixtureCoverage::Missing, ParityFeatureStatus::Partial));
    r.push(MetricCatalogDescriptor::new(MetricCatalogFamily::AspectCritic, "aspect_critic", "score_aspect_critic", MetricSampleKind::SingleTurn, providers(Some(MetricProviderRequirement::Llm), None), MetricValueType::Discrete, MetricFixtureCoverage::Missing, ParityFeatureStatus::Partial));
    r.push(MetricCatalogDescriptor::new(MetricCatalogFamily::ToolCallAccuracy, "tool_call_accuracy", "tool_call_accuracy", MetricSampleKind::MultiTurn, providers(None, None), MetricValueType::Numeric, MetricFixtureCoverage::Missing, ParityFeatureStatus::Partial));
    r.push(MetricCatalogDescriptor::new(MetricCatalogFamily::ToolCallF1, "tool_call_f1", "tool_call_f1", MetricSampleKind::MultiTurn, providers(None, None), MetricValueType::Numeric, MetricFixtureCoverage::Missing, ParityFeatureStatus::Partial));
    r.push(MetricCatalogDescriptor::new(MetricCatalogFamily::AgentGoalAccuracy, "agent_goal_accuracy", "agent_goal_accuracy", MetricSampleKind::MultiTurn, providers(Some(MetricProviderRequirement::Llm), None), MetricValueType::Numeric, MetricFixtureCoverage::Missing, ParityFeatureStatus::Partial));
    r.push(MetricCatalogDescriptor::new(MetricCatalogFamily::TopicAdherence, "topic_adherence", "topic_adherence", MetricSampleKind::MultiTurn, providers(Some(MetricProviderRequirement::Llm), None), MetricValueType::Numeric, MetricFixtureCoverage::Missing, ParityFeatureStatus::Partial));
    r.push(MetricCatalogDescriptor::new(MetricCatalogFamily::SqlSemanticEquivalence, "sql_semantic_equivalence", "sql_semantic_equivalence", MetricSampleKind::SingleTurn, providers(Some(MetricProviderRequirement::Llm), None), MetricValueType::Discrete, MetricFixtureCoverage::Missing, ParityFeatureStatus::KnownGap));
    r.push(MetricCatalogDescriptor::new(MetricCatalogFamily::Multimodal, "multimodal", "multimodal_metric_from_prompt", MetricSampleKind::SingleTurn, providers(Some(MetricProviderRequirement::Llm), None), MetricValueType::Numeric, MetricFixtureCoverage::Missing, ParityFeatureStatus::KnownGap));
    r.push(MetricCatalogDescriptor::new(MetricCatalogFamily::Summarization, "summarization", "summarization_score_from_judge_output", MetricSampleKind::SingleTurn, providers(Some(MetricProviderRequirement::Llm), None), MetricValueType::Numeric, MetricFixtureCoverage::Missing, ParityFeatureStatus::KnownGap));
    assert(r@.map_values(|d: MetricCatalogDescriptor| d@) =~= declared_catalog());
    r
}

/// The golden fixtures of the catalog's metrics, in order.
pub open spec fn golden_fixtures() -> Seq<FixtureView> {
    seq![
        fixture_view("context_precision"@, "src/ragas/metrics/collections/context_precision/metric.py"@, "tests/parity/fixtures/metric_context_precision.json"@),
        fixture_view("context_recall"@, "src/ragas/metrics/collections/context_recall/metric.py"@, "tests/parity/fixtures/metric_context_recall.json"@),
        fixture_view("context_entity_recall"@, "src/ragas/metrics/collections/context_entity_recall/metric.py"@, "tests/parity/fixtures/metric_context_entity_recall.json"@),
        fixture_view("context_relevance"@, "src/ragas/metrics/collections/context_relevance/metric.py"@, "tests/parity/fixtures/metric_context_relevance.json"@),
        fixture_view("faithfulness"@, "src/ragas/metrics/collections/faithfulness/metric.py"@, "tests/parity/fixtures/metric_faithfulness.json"@),
        fixture_view("response_relevancy"@, "src/ragas/metrics/_answer_relevance.py"@, "tests/parity/fixtures/metric_response_relevancy.json"@),
        fixture_view("response_groundedness"@, "src/ragas/metrics/collections/response_groundedness/metric.py"@, "tests/parity/fixtures/metric_response_groundedness.json"@),
        fixture_view("factual_correctness"@, "src/ragas/metrics/collections/factual_correctness/metric.py"@, "tests/parity/fixtures/metric_factual_correctness.json"@),
        fixture_view("answer_relevancy"@, "src/ragas/metrics/collections/answer_relevancy/metric.py"@, "tests/parity/fixtures/metric_answer_relevancy.json"@),
        fixture_view("answer_correctness"@, "src/ragas/metrics/collections/answer_correctness/metric.py"@, "tests/parity/fixtures/metric_answer_correctness.json"@),
        fixture_view("noise_sensitivity"@, "src/ragas/metrics/collections/noise_sensitivity/metric.py"@, "tests/parity/fixtures/metric_noise_sensitivity.json"@),
        fixture_view("exact_match"@, "src/ragas/metrics/_string.py"@, "tests/parity/fixtures/metric_exact_match.json"@),
        fixture_view("bleu"@, "src/ragas/metrics/_bleu_score.py"@, "tests/parity/fixtures/metric_bleu.json"@),
        fixture_view("rouge_l"@, "src/ragas/metrics/_rouge_score.py"@, "tests/parity/fixtures/metric_rouge_l.json"@),
        fixture_view("chrf"@, "src/ragas/metrics/_chrf_score.py"@, "tests/parity/fixtures/metric_chrf.json"@),
        fixture_view("semantic_similarity"@, "src/ragas/metrics/collections/_semantic_similarity.py"@, "tests/parity/fixtures/metric_semantic_similarity.json"@),
        fixture_view("string_similarity"@, "src/ragas/metrics/collections/_string.py"@, "tests/parity/fixtures/metric_string_similarity.json"@),
        fixture_view("rubrics"@, "src/ragas/metrics/collections/domain_specific_rubrics/metric.py"@, "tests/parity/fixtures/metric_rubrics.json"@),
        fixture_view("aspect_critic"@, "src/ragas/metrics/_aspect_critic.py"@, "tests/parity/fixtures/metric_aspect_critic.json"@),
        fixture_view("tool_call_accuracy"@, "src/ragas/metrics/collections/tool_call_accuracy/metric.py"@, "tests/parity/fixtures/metric_tool_call_accuracy.json"@),
        fixture_view("tool_call_f1"@, "src/ragas/metrics/collections/tool_call_f1/metric.py"@, "tests/parity/fixtures/metric_tool_call_f1.json"@),
        fixture_view("agent_goal_accuracy"@, "src/ragas/metrics/collections/agent_goal_accuracy/metric.py"@, "tests/parity/fixtures/metric_agent_goal_accuracy.json"@),
        fixture_view("topic_adherence"@, "src/ragas/metrics/collections/topic_adherence/metric.py"@, "tests/parity/fixtures/metric_topic_adherence.json"@),
        fixture_view("sql_semantic_equivalence"@, "src/ragas/metrics/collections/sql_semantic_equivalence/metric.py"@, "tests/parity/fixtures/metric_sql_semantic_equivalence.json"@),
        fixture_view("multimodal"@, "src/ragas/metrics/collections/multi_modal_faithfulness/metric.py"@, "tests/parity/fixtures/metric_multimodal.json"@),
        fixture_view("summarization"@, "src/ragas/metrics/collections/summary_score/metric.py"@, "tests/parity/fixtures/metric_summarization.json"@),
    ]
}

pub open spec fn fixture_view(feature: Seq<char>, source_path: Seq<char>, fixture_path: Seq<char>) -> FixtureView {
    FixtureView {
        feature,
        upstream_module_path: source_path,
        rust_example: None,
        fixture_path,
        mode: ParityFixtureMode::DeterministicMock,
        tolerance_exponent: Some(-9i32),
    }
}

fn metric_fixture(feature: &str, source_path: &str, fixture_path: &str) -> (m: ParityFixtureMetadata)
    ensures
        m@ == fixture_view(feature@, source_path@, fixture_path@),
{
    ParityFixtureMetadata::new(feature, source_path, None, fixture_path, ParityFixtureMode::DeterministicMock, Some(-9i32))
}

/// The golden fixture metadata of every catalog metric: a deterministic mock fixture under
/// `tests/parity/fixtures/`, compared with tolerance `1e-9`.
pub fn metric_golden_fixture_metadata() -> (r: Vec<ParityFixtureMetadata>)
    ensures
        r@.map_values(|m: ParityFixtureMetadata| m@) == golden_fixtures(),
{
    let mut r: Vec<ParityFixtureMetadata> = Vec::new();
    r.push(metric_fixture("context_precision", "src/ragas/metrics/collections/context_precision/metric.py", "tests/parity/fixtures/metric_context_precision.json"));
    r.push(metric_fixture("context_recall", "src/ragas/metrics/collections/context_recall/metric.py", "tests/parity/fixtures/metric_context_recall.json"));
    r.push(metric_fixture("context_entity_recall", "src/ragas/metrics/collections/context_entity_recall/metric.py", "tests/parity/fixtures/metric_context_entity_recall.json"));
    r.push(metric_fixture("context_relevance", "src/ragas/metrics/collections/context_relevance/metric.py", "tests/parity/fixtures/metric_context_relevance.json"));
    r.push(metric_fixture("faithfulness", "src/ragas/metrics/collections/faithfulness/metric.py", "tests/parity/fixtures/metric_faithfulness.json"));
    r.push(metric_fixture("response_relevancy", "src/ragas/metrics/_answer_relevance.py", "tests/parity/fixtures/metric_response_relevancy.json"));
    r.push(metric_fixture("response_groundedness", "src/ragas/metrics/collections/response_groundedness/metric.py", "tests/parity/fixtures/metric_response_groundedness.json"));
    r.push(metric_fixture("factual_correctness", "src/ragas/metrics/collections/factual_correctness/metric.py", "tests/parity/fixtures/metric_factual_correctness.json"));
    r.push(metric_fixture("answer_relevancy", "src/ragas/metrics/collections/answer_relevancy/metric.py", "tests/parity/fixtures/metric_answer_relevancy.json"));
    r.push(metric_fixture("answer_correctness", "src/ragas/metrics/collections/answer_correctness/metric.py", "tests/parity/fixtures/metric_answer_correctness.json"));
    r.push(metric_fixture("noise_sensitivity", "src/ragas/metrics/collections/noise_sensitivity/metric.py", "tests/parity/fixtures/metric_noise_sensitivity.json"));
    r.push(metric_fixture("exact_match", "src/ragas/metrics/_string.py", "tests/parity/fixtures/metric_exact_match.json"));
    r.push(metric_fixture("bleu", "src/ragas/metrics/_bleu_score.py", "tests/parity/fixtures/metric_bleu.json"));
    r.push(metric_fixture("rouge_l", "src/ragas/metrics/_rouge_score.py", "tests/parity/fixtures/metric_rouge_l.json"));
    r.push(metric_fixture("chrf", "src/ragas/metrics/_chrf_score.py", "tests/parity/fixtures/metric_chrf.json"));
    r.push(metric_fixture("semantic_similarity", "src/ragas/metrics/collections/_semantic_similarity.py", "tests/parity/fixtures/metric_semantic_similarity.json"));
    r.push(metric_fixture("string_similarity", "src/ragas/metrics/collections/_string.py", "tests/parity/fixtures/metric_string_similarity.json"));
    r.push(metric_fixture("rubrics", "src/ragas/metrics/collections/domain_specific_rubrics/metric.py", "tests/parity/fixtures/metric_rubrics.json"));
    r.push(metric_fixture("aspect_critic", "src/ragas/metrics/_aspect_critic.py", "tests/parity/fixtures/metric_aspect_critic.json"));
    r.push(metric_fixture("tool_call_accuracy", "src/ragas/metrics/collections/tool_call_accuracy/metric.py", "tests/parity/fixtures/metric_tool_call_accuracy.json"));
    r.push(metric_fixture("tool_call_f1", "src/ragas/metrics/collections/tool_call_f1/metric.py", "tests/parity/fixtures/metric_tool_call_f1.json"));
    r.push(metric_fixture("agent_goal_accuracy", "src/ragas/metrics/collections/agent_goal_accuracy/metric.py", "tests/parity/fixtures/metric_agent_goal_accuracy.json"));
    r.push(metric_fixture("topic_adherence", "src/ragas/metrics/collections/topic_adherence/metric.py", "tests/parity/fixtures/metric_topic_adherence.json"));
    r.push(metric_fixture("sql_semantic_equivalence", "src/ragas/metrics/collections/sql_semantic_equivalence/metric.py", "tests/parity/fixtures/metric_sql_semantic_equivalence.json"));
    r.push(metric_fixture("multimodal", "src/ragas/metrics/collections/multi_modal_faithfulness/metric.py", "tests/parity/fixtures/metric_multimodal.json"));
    r.push(metric_fixture("summarization", "src/ragas/metrics/collections/summary_score/metric.py", "tests/parity/fixtures/metric_summarization.json"));
    assert(r@.map_values(|m: ParityFixtureMetadata| m@) =~= golden_fixtures());
    r
}

fn has_fixture(fixtures: &Vec<ParityFixtureMetadata>, name: &str) -> (b: bool)
    ensures
        b == fixtures@.map_values(|m: ParityFixtureMetadata| m@).map_values(|f: FixtureView| f.feature).contains(name@),
{
    let ghost fs = fixtures@.map_values(|m: ParityFixtureMetadata| m@).map_values(|f: FixtureView| f.feature);
    let mut i: usize = 0;
    while i < fixtures.len()
        invariant
            fs == fixtures@.map_values(|m: ParityFixtureMetadata| m@).map_values(|f: FixtureView| f.feature),
            i <= fixtures@.len(),
            forall|j: int| 0 <= j < i ==> fs[j] != name@,
        decreases fixtures@.len() - i,
    {
        if crate::text::str_equal(fixtures[i].feature.as_str(), name) {
            assert(fs[i as int] == name@);
            return true;
        }
        i = i + 1;
    }
    false
}

/// The metric catalog: each metric family with its reference name, its owner here, the kind of
/// sample it scores, the providers it needs, its output type and its parity evidence.
pub fn metric_catalog() -> (r: Vec<MetricCatalogDescriptor>)
    ensures
        r@.map_values(|d: MetricCatalogDescriptor| d@) == catalog(),
{
    let mut r = declared_catalog_entries();
    let fixtures = metric_golden_fixture_metadata();
    let ghost declared = r@.map_values(|d: MetricCatalogDescriptor| d@);
    let mut i: usize = 0;
    while i < r.len()
        invariant
            declared == declared_catalog(),
            fixtures@.map_values(|m: ParityFixtureMetadata| m@) == golden_fixtures(),
            r@.len() == declared.len(),
            i <= r@.len(),
            forall|j: int| 0 <= j < i ==> (#[trigger] r@[j])@ == with_evidence(declared[j], fixture_features()),
            forall|j: int| i <= j < r@.len() ==> (#[trigger] r@[j])@ == declared[j],
        decreases r@.len() - i,
    {
        assert(fixtures@.map_values(|m: ParityFixtureMetadata| m@).map_values(|f: FixtureView| f.feature) =~= fixture_features());
        if has_fixture(&fixtures, r[i].upstream_name) {
            r[i].fixture_coverage = MetricFixtureCoverage::FixtureBacked;
            r[i].parity_status = ParityFeatureStatus::Complete;
        }
        i = i + 1;
    }
    assert(r@.map_values(|d: MetricCatalogDescriptor| d@) =~= catalog());
    r
}

/// The parity claim of a catalog entry: its feature, its status and its golden fixtures.
pub open spec fn catalog_claim(d: CatalogView) -> crate::parity::ClaimView {
    crate::parity::ClaimView {
        feature: metric_feature(d.upstream_name),
        status: d.parity_status,
        fixtures: crate::parity::fixtures_for(golden_fixtures(), d.upstream_name),
    }
}

/// The parity claims of the metric catalog, one per entry, each with its golden fixtures.
pub fn metric_catalog_parity_claims() -> (r: Vec<ParityClaim>)
    ensures
        r@.map_values(|c: ParityClaim| c@) == catalog().map_values(|d: CatalogView| catalog_claim(d)),
{
    let cat = metric_catalog();
    let fixtures = metric_golden_fixture_metadata();
    let ghost want = catalog().map_values(|d: CatalogView| catalog_claim(d));
    let mut r: Vec<ParityClaim> = Vec::new();
    let mut i: usize = 0;
    while i < cat.len()
        invariant
            cat@.map_values(|d: MetricCatalogDescriptor| d@) == catalog(),
            fixtures@.map_values(|m: ParityFixtureMetadata| m@) == golden_fixtures(),
            want == catalog().map_values(|d: CatalogView| catalog_claim(d)),
            i <= cat@.len(),
            r@.map_values(|c: ParityClaim| c@) == want.take(i as int),
        decreases cat@.len() - i,
    {
        let d = &cat[i];
        assert(catalog()[i as int] == d@);
        let claim = ParityClaim {
            feature: d.parity_feature(),
            status: d.parity_status,
            fixtures: crate::parity::select_fixtures(&fixtures, d.upstream_name),
        };
        let ghost before = r@.map_values(|c: ParityClaim| c@);
        r.push(claim);
        assert(r@.map_values(|c: ParityClaim| c@) =~= before.push(claim@));
        assert(want.take(i + 1) =~= want.take(i as int).push(want[i as int]));
        i = i + 1;
    }
    assert(want.take(cat@.len() as int) =~= want);
    r
}

/// How far a registered metric matches the reference behaviour.
#[derive(Debug, Clone, Copy, PartialEq, Eq, Structural)]
pub enum ParityStatus {
    ParityComplete,
    SemanticApproximation,
    KnownGap,
    NotStarted,
}

/// The label of a parity status in docs and test reports.
pub open spec fn parity_label(s: ParityStatus) -> Seq<char> {
    match s {
        ParityStatus::ParityComplete => "parity-complete"@,
        ParityStatus::SemanticApproximation => "semantic-approximation"@,
        ParityStatus::KnownGap => "known-gap"@,
        ParityStatus::NotStarted => "not-started"@,
    }
}

impl ParityStatus {
    pub fn as_label(&self) -> (s: &'static str)
        ensures
            s@ == parity_label(*self),
    {
        match self {
            ParityStatus::ParityComplete => "parity-complete",
            ParityStatus::SemanticApproximation => "semantic-approximation",
            ParityStatus::KnownGap => "known-gap",
            ParityStatus::NotStarted => "not-started",
        }
    }
}

/// A metric registered under a stable name, optionally behind a feature.
#[derive(Debug, PartialEq, Eq)]
pub struct MetricRegistryEntry {
    name: String,
    metadata: MetricMetadata,
    feature: Option<String>,
    parity_status: ParityStatus,
}

impl MetricRegistryEntry {
    pub closed spec fn name_view(&self) -> Seq<char> {
        self.name@
    }

    pub closed spec fn feature_view(&self) -> Option<Seq<char>> {
        crate::dataset::opt_string_view(self.feature)
    }

    pub closed spec fn status_view(&self) -> ParityStatus {
        self.parity_status
    }

    pub closed spec fn metadata_of(&self) -> MetricMetadata {
        self.metadata
    }

    pub fn new(name: &str, metadata: MetricMetadata) -> (e: Self)
        ensures
            e.name_view() == name@,
            e.metadata_of() == metadata,
            e.feature_view() is None,
            e.status_view() == ParityStatus::NotStarted,
    {
        MetricRegistryEntry { name: to_owned_string(name), metadata, feature: None, parity_status: ParityStatus::NotStarted }
    }

    pub fn with_feature(self, feature: &str) -> (e: Self)
        ensures
            e.name_view() == self.name_view(),
            e.metadata_of() == self.metadata_of(),
            e.feature_view() == Some(feature@),
            e.status_view() == self.status_view(),
    {
        let mut e = self;
        e.feature = Some(to_owned_string(feature));
        e
    }

    pub fn with_parity_status(self, status: ParityStatus) -> (e: Self)
        ensures
            e.name_view() == self.name_view(),
            e.metadata_of() == self.metadata_of(),
            e.feature_view() == self.feature_view(),
            e.status_view() == status,
    {
        let mut e = self;
        e.parity_status = status;
        e
    }

    pub fn name(&self) -> (s: &str)
        ensures
            s@ == self.name_view(),
    {
        self.name.as_str()
    }

    pub fn feature(&self) -> (f: Option<&str>)
        ensures
            match f {
                Some(x) => self.feature_view() == Some(x@),
                None => self.feature_view() is None,
            },
    {
        match &self.feature {
            Some(x) => Some(x.as_str()),
            None => None,
        }
    }

    pub fn parity_status(&self) -> (s: ParityStatus)
        ensures
            s == self.status_view(),
    {
        self.parity_status
    }

    pub fn parity_label(&self) -> (s: &'static str)
        ensures
            s@ == parity_label(self.status_view()),
    {
        self.parity_status.as_label()
    }
}

/// Whether an entry is visible given the enabled features: it has no feature, or its feature
/// is enabled.
pub open spec fn visible(feature: Option<Seq<char>>, enabled: Set<Seq<char>>) -> bool {
    match feature {
        Some(f) => enabled.contains(f),
        None => true,
    }
}

/// Whether every entry is stored under its own name.
pub open spec fn entries_named(m: Map<Seq<char>, MetricRegistryEntry>) -> bool {
    forall|k: Seq<char>| #[trigger] m.contains_key(k) ==> m[k].name_view() == k
}

/// Metrics by stable name, with the set of enabled features.
#[derive(Debug)]
pub struct MetricRegistry {
    entries: StringMap<MetricRegistryEntry>,
    enabled_features: StringMap<bool>,
}

impl MetricRegistry {
    /// The registered entries by name.
    pub closed spec fn entries_view(&self) -> Map<Seq<char>, MetricRegistryEntry> {
        self.entries@
    }

    /// Each entry is stored under its own name.
    #[verifier::type_invariant]
    spec fn stored_by_name(&self) -> bool {
        entries_named(self.entries@)
    }

    /// The registered names in ascending order.
    pub open spec fn names(&self) -> Seq<Seq<char>> {
        sorted_key_list(self.entries_view())
    }

    /// The enabled features.
    pub closed spec fn features_view(&self) -> Set<Seq<char>> {
        self.enabled_features@.dom()
    }

    pub fn new() -> (r: Self)
        ensures
            r.entries_view() == Map::<Seq<char>, MetricRegistryEntry>::empty(),
            entries_named(r.entries_view()),
            r.features_view() == Set::<Seq<char>>::empty(),
    {
        let r = MetricRegistry { entries: StringMap::new(), enabled_features: StringMap::new() };
        assert(r.features_view() =~= Set::<Seq<char>>::empty());
        r
    }

    /// This registry with `entry` registered under its name, replacing any entry of that name.
    pub fn register(self, entry: MetricRegistryEntry) -> (r: Self)
        ensures
            r.entries_view() == self.entries_view().insert(entry.name_view(), entry),
            r.features_view() == self.features_view(),
            entries_named(r.entries_view()),
    {
        proof {
            use_type_invariant(&self);
        }
        let MetricRegistry { entries, enabled_features } = self;
        let mut entries = entries;
        let name = entry.name.clone();
        entries.insert(name, entry);
        MetricRegistry { entries, enabled_features }
    }

    /// This registry with `feature` enabled.
    pub fn enable_feature(self, feature: &str) -> (r: Self)
        ensures
            r.entries_view() == self.entries_view(),
            r.features_view() == self.features_view().insert(feature@),
            entries_named(r.entries_view()),
    {
        proof {
            use_type_invariant(&self);
        }
        let MetricRegistry { entries, enabled_features } = self;
        let mut enabled_features = enabled_features;
        enabled_features.insert(to_owned_string(feature), true);
        let r = MetricRegistry { entries, enabled_features };
        assert(r.features_view() =~= self.features_view().insert(feature@));
        r
    }

    fn is_visible(&self, entry: &MetricRegistryEntry) -> (b: bool)
        ensures
            b == visible(entry.feature_view(), self.features_view()),
    {
        match &entry.feature {
            Some(f) => self.enabled_features.contains_key(f.as_str()),
            None => true,
        }
    }

    /// The entry registered under `name`, if it is visible.
    pub fn resolve(&self, name: &str) -> (r: Result<&MetricRegistryEntry, RagasError>)
        ensures
            match r {
                Ok(e) => self.entries_view().contains_key(name@) && *e == self.entries_view()[name@]
                    && e.name_view() == name@ && visible(e.feature_view(), self.features_view()),
                Err(err) => if self.entries_view().contains_key(name@) {
                    !visible(self.entries_view()[name@].feature_view(), self.features_view())
                        && (err matches RagasError::Provider { message } && message@ == "metric '"@ + name@
                        + "' requires feature '"@ + match self.entries_view()[name@].feature_view() {
                        Some(f) => f,
                        None => Seq::<char>::empty(),
                    } + "'"@)
                } else {
                    err matches RagasError::Provider { message } && message@ == "missing metric: "@ + name@
                },
            },
    {
        proof {
            use_type_invariant(self);
        }
        match self.entries.get(name) {
            None => {
                let mut message = String::new();
                push_str(&mut message, "missing metric: ");
                push_str(&mut message, name);
                Err(RagasError::Provider { message })
            },
            Some(entry) => {
                if self.is_visible(entry) {
                    Ok(entry)
                } else {
                    let mut message = String::new();
                    push_str(&mut message, "metric '");
                    push_str(&mut message, name);
                    push_str(&mut message, "' requires feature '");
                    match &entry.feature {
                        Some(f) => push_str(&mut message, f.as_str()),
                        None => {},
                    }
                    push_str(&mut message, "'");
                    proof {
                        if entry.feature_view() is None {
                            assert(message@ =~= "metric '"@ + name@ + "' requires feature '"@ + Seq::<char>::empty() + "'"@);
                        }
                    }
                    Err(RagasError::Provider { message })
                }
            },
        }
    }

    /// The visible entries' names, in ascending order.
    pub fn list_visible_names(&self) -> (r: Vec<String>)
        ensures
            strings_view(r@) == visible_names(self.names(), self.entries_view(), self.features_view()),
            visible_list(strings_view(r@), self.entries_view(), self.features_view()),
    {
        proof {
            use_type_invariant(&self.entries);
            self.entries.lemma_sorted_keys();
            lemma_sorted_key_list(self.entries_view(), self.entries.sorted_keys());
        }
        let ghost ks = self.names();
        let mut r: Vec<String> = Vec::new();
        let mut i: usize = 0;
        while i < self.entries.len()
            invariant
                ks == self.names(),
                ks == self.entries.sorted_keys(),
                forall|k: Seq<char>| self.entries@.contains_key(k) <==> ks.contains(k),
                i <= ks.len(),
                strings_view(r@) == visible_names(ks.take(i as int), self.entries_view(), self.features_view()),
            decreases ks.len() - i,
        {
            let key = self.entries.key_at(i);
            let entry = self.entries.value_at(i);
            assert(ks.take(i + 1).drop_last() =~= ks.take(i as int));
            assert(ks.take(i + 1).last() == key@);
            assert(ks.contains(key@));
            if self.is_visible(entry) {
                let ghost before = strings_view(r@);
                r.push(key.clone());
                assert(strings_view(r@) =~= before.push(key@));
            }
            i = i + 1;
        }
        assert(ks.take(ks.len() as int) =~= ks);
        proof {
            lemma_visible_names(ks, self.entries_view(), self.features_view());
        }
        r
    }
}

/// Whether `v` lists, in ascending order and each once, the names of the visible entries.
pub open spec fn visible_list(
    v: Seq<Seq<char>>,
    entries: Map<Seq<char>, MetricRegistryEntry>,
    enabled: Set<Seq<char>>,
) -> bool {
    &&& strictly_sorted(v)
    &&& forall|k: Seq<char>| #[trigger] v.contains(k) <==> entries.contains_key(k) && visible(entries[k].feature_view(), enabled)
}

/// The visible names of a strictly ascending list of an entry map's keys list, in ascending
/// order, exactly the visible entries.
pub proof fn lemma_visible_names(
    ks: Seq<Seq<char>>,
    entries: Map<Seq<char>, MetricRegistryEntry>,
    enabled: Set<Seq<char>>,
)
    requires
        strictly_sorted(ks),
    ensures
        strictly_sorted(visible_names(ks, entries, enabled)),
        forall|k: Seq<char>| #[trigger] visible_names(ks, entries, enabled).contains(k)
            <==> ks.contains(k) && visible(entries[k].feature_view(), enabled),
    decreases ks.len(),
{
    if ks.len() > 0 {
        let rest_ks = ks.drop_last();
        let x = ks.last();
        lemma_visible_names(rest_ks, entries, enabled);
        let rest = visible_names(rest_ks, entries, enabled);
        assert(strictly_sorted(rest_ks));
        assert forall|k: Seq<char>| #[trigger] ks.contains(k) <==> (rest_ks.contains(k) || k == x) by {
            if ks.contains(k) {
                let i = choose|i: int| 0 <= i < ks.len() && ks[i] == k;
                if i < ks.len() - 1 {
                    assert(rest_ks[i] == k);
                }
            }
            if rest_ks.contains(k) {
                let i = choose|i: int| 0 <= i < rest_ks.len() && rest_ks[i] == k;
                assert(ks[i] == k);
            }
            if k == x {
                assert(ks[ks.len() - 1] == k);
            }
        }
        assert forall|k: Seq<char>| #[trigger] rest_ks.contains(k) implies seq_lt(k, x) by {
            let i = choose|i: int| 0 <= i < rest_ks.len() && rest_ks[i] == k;
            assert(ks[i] == k);
        }
        if visible(entries[x].feature_view(), enabled) {
            let v = rest.push(x);
            assert forall|k: Seq<char>| #[trigger] v.contains(k) <==> (rest.contains(k) || k == x) by {
                if v.contains(k) {
                    let i = choose|i: int| 0 <= i < v.len() && v[i] == k;
                    if i < rest.len() {
                        assert(rest[i] == k);
                    }
                }
                if rest.contains(k) {
                    let i = choose|i: int| 0 <= i < rest.len() && rest[i] == k;
                    assert(v[i] == k);
                }
                if k == x {
                    assert(v[rest.len() as int] == k);
                }
            }
            assert forall|i: int, j: int| 0 <= i < j < v.len() implies seq_lt(#[trigger] v[i], #[trigger] v[j]) by {
                if j < rest.len() {
                    assert(v[i] == rest[i] && v[j] == rest[j]);
                } else {
                    assert(v[i] == rest[i]);
                    assert(rest.contains(rest[i]));
                    assert(rest_ks.contains(rest[i]));
                }
            }
        }
    }
}

/// Registering a visible entry adds its name to the visible names: the list after is the list
/// before with that name, in ascending order and each once (and so, by `lemma_sorted_unique`,
/// the one such list).
pub proof fn law_register_adds_visible_name(
    entries: Map<Seq<char>, MetricRegistryEntry>,
    enabled: Set<Seq<char>>,
    entry: MetricRegistryEntry,
    before: Seq<Seq<char>>,
    after: Seq<Seq<char>>,
)
    requires
        visible(entry.feature_view(), enabled),
        visible_list(before, entries, enabled),
        visible_list(after, entries.insert(entry.name_view(), entry), enabled),
    ensures
        strictly_sorted(after),
        forall|k: Seq<char>| #[trigger] after.contains(k) <==> (before.contains(k) || k == entry.name_view()),
{
    let m2 = entries.insert(entry.name_view(), entry);
    assert forall|k: Seq<char>| #[trigger] after.contains(k) <==> (before.contains(k) || k == entry.name_view()) by {
        assert(after.contains(k) <==> m2.contains_key(k) && visible(m2[k].feature_view(), enabled));
        assert(before.contains(k) <==> entries.contains_key(k) && visible(entries[k].feature_view(), enabled));
    }
}

/// The names among `ks` whose entries are visible, in order.
pub open spec fn visible_names(
    ks: Seq<Seq<char>>,
    entries: Map<Seq<char>, MetricRegistryEntry>,
    enabled: Set<Seq<char>>,
) -> Seq<Seq<char>>
    decreases ks.len(),
{
    if ks.len() == 0 {
        Seq::empty()
    } else {
        let rest = visible_names(ks.drop_last(), entries, enabled);
        if visible(entries[ks.last()].feature_view(), enabled) {
            rest.push(ks.last())
        } else {
            rest
        }
    }
}

impl Default for MetricRegistry {
    fn default() -> (r: Self)
        ensures
            r.entries_view() == Map::<Seq<char>, MetricRegistryEntry>::empty(),
            r.features_view() == Set::<Seq<char>>::empty(),
    {
        Self::new()
    }
}

} // verus!

//! Metric metadata: the kind of sample a metric scores, the providers it needs, the sample
//! fields it requires, and the typed errors and evidence a metric reports.
use vstd::prelude::*;

use crate::text::to_owned_string;

verus! {

/// Which kind of sample a metric scores.
#[derive(Debug, Clone, Copy, PartialEq, Eq, Structural)]
pub enum MetricSampleKind {
    SingleTurn,
    MultiTurn,
}

/// A model provider a metric needs.
#[derive(Debug, Clone, Copy, PartialEq, Eq, Structural)]
pub enum MetricProviderRequirement {
    Llm,
    Embedding,
}

/// A field of a single-turn sample that a metric reads.
#[derive(Debug, Clone, Copy, PartialEq, Eq, Structural)]
pub enum SampleField {
    UserInput,
    Response,
    RetrievedContexts,
    Reference,
}

/// The sample fields a metric requires, by metric name.
#[derive(Debug, Clone, PartialEq, Eq)]
pub struct MetricRequirements {
    metric_name: String,
    required_fields: Vec<SampleField>,
}

impl MetricRequirements {
    pub closed spec fn name_view(&self) -> Seq<char> {
        self.metric_name@
    }

    pub closed spec fn fields_view(&self) -> Seq<SampleField> {
        self.required_fields@
    }

    pub fn new(metric_name: &str, required_fields: Vec<SampleField>) -> (r: Self)
        ensures
            r.name_view() == metric_name@,
            r.fields_view() == required_fields@,
    {
        MetricRequirements { metric_name: to_owned_string(metric_name), required_fields }
    }

    pub fn metric_name(&self) -> (s: &str)
        ensures
            s@ == self.name_view(),
    {
        self.metric_name.as_str()
    }

    pub fn required_fields(&self) -> (f: &[SampleField])
        ensures
            f@ == self.fields_view(),
    {
        self.required_fields.as_slice()
    }
}

fn copy_fields(v: &Vec<SampleField>) -> (out: Vec<SampleField>)
    ensures
        out@ == v@,
{
    let mut out: Vec<SampleField> = Vec::new();
    let mut i: usize = 0;
    while i < v.len()
        invariant
            i <= v@.len(),
            out@ == v@.take(i as int),
        decreases v@.len() - i,
    {
        out.push(v[i]);
        assert(v@.take(i + 1) =~= v@.take(i as int).push(v@[i as int]));
        i = i + 1;
    }
    assert(v@.take(v@.len() as int) =~= v@);
    out
}

/// What a metric is: its name, the kind of sample it scores, the fields it requires and the
/// providers it needs.
#[derive(Debug, Clone, PartialEq, Eq)]
pub struct MetricMetadata {
    name: String,
    sample_kind: MetricSampleKind,
    required_fields: Vec<SampleField>,
    provider_requirements: Vec<MetricProviderRequirement>,
}

impl MetricMetadata {
    pub closed spec fn name_view(&self) -> Seq<char> {
        self.name@
    }

    pub closed spec fn kind_view(&self) -> MetricSampleKind {
        self.sample_kind
    }

    pub closed spec fn fields_view(&self) -> Seq<SampleField> {
        self.required_fields@
    }

    pub closed spec fn providers_view(&self) -> Seq<MetricProviderRequirement> {
        self.provider_requirements@
    }

    pub fn new(name: &str, sample_kind: MetricSampleKind) -> (m: Self)
        ensures
            m.name_view() == name@,
            m.kind_view() == sample_kind,
            m.fields_view().len() == 0,
            m.providers_view().len() == 0,
    {
        MetricMetadata {
            name: to_owned_string(name),
            sample_kind,
            required_fields: Vec::new(),
            provider_requirements: Vec::new(),
        }
    }

    pub fn with_required_fields(self, fields: Vec<SampleField>) -> (m: Self)
        ensures
            m.name_view() == self.name_view(),
            m.kind_view() == self.kind_view(),
            m.fields_view() == fields@,
            m.providers_view() == self.providers_view(),
    {
        let mut m = self;
        m.required_fields = fields;
        m
    }

    pub fn with_provider_requirements(self, requirements: Vec<MetricProviderRequirement>) -> (m: Self)
        ensures
            m.name_view() == self.name_view(),
            m.kind_view() == self.kind_view(),
            m.fields_view() == self.fields_view(),
            m.providers_view() == requirements@,
    {
        let mut m = self;
        m.provider_requirements = requirements;
        m
    }

    pub fn name(&self) -> (s: &str)
        ensures
            s@ == self.name_view(),
    {
        self.name.as_str()
    }

    pub fn sample_kind(&self) -> (k: MetricSampleKind)
        ensures
            k == self.kind_view(),
    {
        self.sample_kind
    }

    pub fn required_fields(&self) -> (f: &[SampleField])
        ensures
            f@ == self.fields_view(),
    {
        self.required_fields.as_slice()
    }

    pub fn provider_requirements(&self) -> (p: &[MetricProviderRequirement])
        ensures
            p@ == self.providers_view(),
    {
        self.provider_requirements.as_slice()
    }

    fn requires_provider(&self, p: MetricProviderRequirement) -> (b: bool)
        ensures
            b == self.providers_view().contains(p),
    {
        let mut i: usize = 0;
        while i < self.provider_requirements.len()
            invariant
                i <= self.provider_requirements@.len(),
                forall|j: int| 0 <= j < i ==> self.provider_requirements@[j] != p,
            decreases self.provider_requirements@.len() - i,
        {
            if self.provider_requirements[i] == p {
                assert(self.provider_requirements@[i as int] == p);
                return true;
            }
            i = i + 1;
        }
        false
    }

    pub fn requires_llm(&self) -> (b: bool)
        ensures
            b == self.providers_view().contains(MetricProviderRequirement::Llm),
    {
        self.requires_provider(MetricProviderRequirement::Llm)
    }

    pub fn requires_embedding(&self) -> (b: bool)
        ensures
            b == self.providers_view().contains(MetricProviderRequirement::Embedding),
    {
        self.requires_provider(MetricProviderRequirement::Embedding)
    }

    /// The sample-field requirements this metadata declares.
    pub fn to_requirements(&self) -> (r: MetricRequirements)
        ensures
            r.name_view() == self.name_view(),
            r.fields_view() == self.fields_view(),
    {
        MetricRequirements::new(self.name.as_str(), copy_fields(&self.required_fields))
    }
}

/// The type of value a metric produces.
#[derive(Debug, Clone, Copy, PartialEq, Eq, Structural)]
pub enum MetricValueType {
    Numeric,
    Discrete,
    Ranking,
}

/// What to do with a score outside `[0, 1]`.
#[derive(Debug, Clone, Copy, PartialEq, Eq, Structural)]
pub enum ScoreNormalizationPolicy {
    Clamp,
    Reject,
}

/// Why a metric failed.
#[derive(Debug, Clone, Copy, PartialEq, Eq, Structural)]
pub enum MetricErrorKind {
    Provider,
    Parse,
    Validation,
    Metric,
}

/// A typed metric failure.
#[derive(Debug, Clone, PartialEq, Eq)]
pub struct MetricError {
    pub kind: MetricErrorKind,
    pub message: String,
}

impl MetricError {
    pub fn provider(message: &str) -> (e: Self)
        ensures
            e.kind == MetricErrorKind::Provider,
            e.message@ == message@,
    {
        MetricError { kind: MetricErrorKind::Provider, message: to_owned_string(message) }
    }

    pub fn parse(message: &str) -> (e: Self)
        ensures
            e.kind == MetricErrorKind::Parse,
            e.message@ == message@,
    {
        MetricError { kind: MetricErrorKind::Parse, message: to_owned_string(message) }
    }

    pub fn validation(message: &str) -> (e: Self)
        ensures
            e.kind == MetricErrorKind::Validation,
            e.message@ == message@,
    {
        MetricError { kind: MetricErrorKind::Validation, message: to_owned_string(message) }
    }

    pub fn metric(message: &str) -> (e: Self)
        ensures
            e.kind == MetricErrorKind::Metric,
            e.message@ == message@,
    {
        MetricError { kind: MetricErrorKind::Metric, message: to_owned_string(message) }
    }
}

/// A piece of evidence behind a score: where it comes from and what it says.
#[derive(Debug, Clone, PartialEq, Eq)]
pub struct MetricEvidence {
    pub source: String,
    pub text: String,
}

impl MetricEvidence {
    pub fn new(source: &str, text: &str) -> (e: Self)
        ensures
            e.source@ == source@,
            e.text@ == text@,
    {
        MetricEvidence { source: to_owned_string(source), text: to_owned_string(text) }
    }
}

} // verus!

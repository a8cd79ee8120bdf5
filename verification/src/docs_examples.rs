//! The documented workflows: which runnable example stands for each public workflow and each
//! upstream quickstart, and the parity claims that the quickstarts make.
use vstd::prelude::*;

use crate::dataset::{opt_string_view, strings_view};
use crate::parity::{ClaimView, FixtureView, ParityClaim, ParityFeatureStatus, ParityFixtureMetadata, ParityFixtureMode};
use crate::text::{push_str, str_equal, to_owned_string};

verus! {

/// A public workflow and the runnable example that shows it.
#[derive(Debug, Clone, PartialEq, Eq)]
pub struct DocExample {
    pub workflow: String,
    pub example_path: String,
    pub upstream_section: String,
    pub feature_flags: Vec<String>,
    pub known_parity_gaps: Vec<String>,
}

/// The contents of a documented example.
pub struct DocView {
    pub workflow: Seq<char>,
    pub example_path: Seq<char>,
    pub upstream_section: Seq<char>,
    pub feature_flags: Seq<Seq<char>>,
    pub known_parity_gaps: Seq<Seq<char>>,
}

impl View for DocExample {
    type V = DocView;

    open spec fn view(&self) -> DocView {
        DocView {
            workflow: self.workflow@,
            example_path: self.example_path@,
            upstream_section: self.upstream_section@,
            feature_flags: strings_view(self.feature_flags@),
            known_parity_gaps: strings_view(self.known_parity_gaps@),
        }
    }
}

/// What running an example prints.
#[derive(Debug, Clone, Copy, PartialEq, Eq, Hash, PartialOrd, Ord, Structural)]
pub enum ExampleOutputType {
    Json,
    Dataset,
    Text,
}

/// An upstream quickstart and the Rust example that covers it, if any.
#[derive(Debug, Clone, PartialEq, Eq)]
pub struct QuickstartDescriptor {
    pub upstream_template: String,
    pub rust_example: Option<String>,
    pub parity_status: ParityFeatureStatus,
    pub known_gap: Option<String>,
}

/// The contents of a quickstart descriptor.
pub struct QuickstartView {
    pub upstream_template: Seq<char>,
    pub rust_example: Option<Seq<char>>,
    pub parity_status: ParityFeatureStatus,
    pub known_gap: Option<Seq<char>>,
}

impl View for QuickstartDescriptor {
    type V = QuickstartView;

    open spec fn view(&self) -> QuickstartView {
        QuickstartView {
            upstream_template: self.upstream_template@,
            rust_example: opt_string_view(self.rust_example),
            parity_status: self.parity_status,
            known_gap: opt_string_view(self.known_gap),
        }
    }
}

/// How to run an example, what it prints, and the features it needs.
#[derive(Debug, Clone, PartialEq, Eq)]
pub struct RunnableExampleMetadata {
    pub example_path: String,
    pub command: String,
    pub expected_output: ExampleOutputType,
    pub feature_flags: Vec<String>,
}

/// The contents of runnable example metadata.
pub struct RunnableView {
    pub example_path: Seq<char>,
    pub command: Seq<char>,
    pub expected_output: ExampleOutputType,
    pub feature_flags: Seq<Seq<char>>,
}

impl View for RunnableExampleMetadata {
    type V = RunnableView;

    open spec fn view(&self) -> RunnableView {
        RunnableView {
            example_path: self.example_path@,
            command: self.command@,
            expected_output: self.expected_output,
            feature_flags: strings_view(self.feature_flags@),
        }
    }
}

/// The documented public workflows, in order: evaluate, testset, benchmark.
pub open spec fn workflow_examples() -> Seq<DocView> {
    seq![
        DocView {
            workflow: "evaluate"@,
            example_path: "examples/evaluate.rs"@,
            upstream_section: "Evaluate a RAG application"@,
            feature_flags: seq!["default"@, "tokio"@],
            known_parity_gaps: seq!["no Python runtime bridge"@],
        },
        DocView {
            workflow: "testset"@,
            example_path: "examples/testset.rs"@,
            upstream_section: "Generate a testset"@,
            feature_flags: seq!["default"@],
            known_parity_gaps: seq!["knowledge graph generation"@],
        },
        DocView {
            workflow: "benchmark"@,
            example_path: "examples/benchmark.rs"@,
            upstream_section: "Compare and monitor evaluation cost"@,
            feature_flags: seq!["default"@, "tokio"@],
            known_parity_gaps: seq!["provider latency percentiles"@],
        },
    ]
}

fn one_string(a: &str) -> (v: Vec<String>)
    ensures
        strings_view(v@) == seq![a@],
{
    let mut v: Vec<String> = Vec::new();
    v.push(to_owned_string(a));
    assert(strings_view(v@) =~= seq![a@]);
    v
}

fn two_strings(a: &str, b: &str) -> (v: Vec<String>)
    ensures
        strings_view(v@) == seq![a@, b@],
{
    let mut v: Vec<String> = Vec::new();
    v.push(to_owned_string(a));
    v.push(to_owned_string(b));
    assert(strings_view(v@) =~= seq![a@, b@]);
    v
}

fn doc_example(workflow: &str, path: &str, section: &str, flags: Vec<String>, gap: &str) -> (d: DocExample)
    ensures
        d@ == (DocView {
            workflow: workflow@,
            example_path: path@,
            upstream_section: section@,
            feature_flags: strings_view(flags@),
            known_parity_gaps: seq![gap@],
        }),
{
    DocExample {
        workflow: to_owned_string(workflow),
        example_path: to_owned_string(path),
        upstream_section: to_owned_string(section),
        feature_flags: flags,
        known_parity_gaps: one_string(gap),
    }
}

/// The public workflows, each with its runnable example, upstream docs section, feature flags
/// and known parity gaps.
pub fn public_workflow_examples() -> (r: Vec<DocExample>)
    ensures
        r@.map_values(|d: DocExample| d@) == workflow_examples(),
{
    let mut r: Vec<DocExample> = Vec::new();
    r.push(doc_example(
        "evaluate",
        "examples/evaluate.rs",
        "Evaluate a RAG application",
        two_strings("default", "tokio"),
        "no Python runtime bridge",
    ));
    r.push(doc_example(
        "testset",
        "examples/testset.rs",
        "Generate a testset",
        one_string("default"),
        "knowledge graph generation",
    ));
    r.push(doc_example(
        "benchmark",
        "examples/benchmark.rs",
        "Compare and monitor evaluation cost",
        two_strings("default", "tokio"),
        "provider latency percentiles",
    ));
    assert(r@.map_values(|d: DocExample| d@) =~= workflow_examples());
    r
}

/// The upstream quickstarts, in order, with the Rust example that covers each.
pub open spec fn quickstart_table() -> Seq<QuickstartView> {
    seq![
        QuickstartView {
            upstream_template: "Evaluate a RAG application"@,
            rust_example: Some("examples/evaluate.rs"@),
            parity_status: ParityFeatureStatus::Complete,
            known_gap: None,
        },
        QuickstartView {
            upstream_template: "Generate a testset"@,
            rust_example: Some("examples/testset.rs"@),
            parity_status: ParityFeatureStatus::Complete,
            known_gap: None,
        },
        QuickstartView {
            upstream_template: "Compare and monitor evaluation cost"@,
            rust_example: Some("examples/benchmark.rs"@),
            parity_status: ParityFeatureStatus::Complete,
            known_gap: None,
        },
        QuickstartView {
            upstream_template: "Run experiments"@,
            rust_example: None,
            parity_status: ParityFeatureStatus::KnownGap,
            known_gap: Some("no runnable Rust experiment quickstart example is available yet"@),
        },
    ]
}

fn quickstart_descriptor(
    upstream_template: &str,
    rust_example: Option<&str>,
    parity_status: ParityFeatureStatus,
    known_gap: Option<&str>,
) -> (d: QuickstartDescriptor)
    ensures
        d@ == (QuickstartView {
            upstream_template: upstream_template@,
            rust_example: match rust_example {
                Some(e) => Some(e@),
                None => None,
            },
            parity_status,
            known_gap: match known_gap {
                Some(g) => Some(g@),
                None => None,
            },
        }),
{
    QuickstartDescriptor {
        upstream_template: to_owned_string(upstream_template),
        rust_example: match rust_example {
            Some(e) => Some(to_owned_string(e)),
            None => None,
        },
        parity_status,
        known_gap: match known_gap {
            Some(g) => Some(to_owned_string(g)),
            None => None,
        },
    }
}

/// The quickstart descriptors: which upstream quickstart template has a runnable Rust example,
/// and the known gap of each that has none.
pub fn quickstart_descriptors() -> (r: Vec<QuickstartDescriptor>)
    ensures
        r@.map_values(|d: QuickstartDescriptor| d@) == quickstart_table(),
{
    let mut r: Vec<QuickstartDescriptor> = Vec::new();
    r.push(quickstart_descriptor(
        "Evaluate a RAG application",
        Some("examples/evaluate.rs"),
        ParityFeatureStatus::Complete,
        None,
    ));
    r.push(quickstart_descriptor(
        "Generate a testset",
        Some("examples/testset.rs"),
        ParityFeatureStatus::Complete,
        None,
    ));
    r.push(quickstart_descriptor(
        "Compare and monitor evaluation cost",
        Some("examples/benchmark.rs"),
        ParityFeatureStatus::Complete,
        None,
    ));
    r.push(quickstart_descriptor(
        "Run experiments",
        None,
        ParityFeatureStatus::KnownGap,
        Some("no runnable Rust experiment quickstart example is available yet"),
    ));
    assert(r@.map_values(|d: QuickstartDescriptor| d@) =~= quickstart_table());
    r
}

/// What the example of a workflow prints: a dataset for `testset`, JSON for `evaluate` and
/// `benchmark`, text otherwise.
pub open spec fn output_type_of(workflow: Seq<char>) -> ExampleOutputType {
    if workflow == "testset"@ {
        ExampleOutputType::Dataset
    } else if workflow == "evaluate"@ || workflow == "benchmark"@ {
        ExampleOutputType::Json
    } else {
        ExampleOutputType::Text
    }
}

/// What the example of a workflow prints.
pub fn example_output_type(workflow: &str) -> (t: ExampleOutputType)
    ensures
        t == output_type_of(workflow@),
{
    if str_equal(workflow, "testset") {
        ExampleOutputType::Dataset
    } else if str_equal(workflow, "evaluate") || str_equal(workflow, "benchmark") {
        ExampleOutputType::Json
    } else {
        ExampleOutputType::Text
    }
}

/// The runnable metadata of a documented example: `cargo run --example <workflow>`, its
/// output type, its feature flags and its path.
pub open spec fn runnable_of(d: DocView) -> RunnableView {
    RunnableView {
        example_path: d.example_path,
        command: "cargo run --example "@ + d.workflow,
        expected_output: output_type_of(d.workflow),
        feature_flags: d.feature_flags,
    }
}

fn copy_strings(v: &Vec<String>) -> (out: Vec<String>)
    ensures
        strings_view(out@) == strings_view(v@),
{
    let mut out: Vec<String> = Vec::new();
    let mut i: usize = 0;
    while i < v.len()
        invariant
            i <= v@.len(),
            strings_view(out@) == strings_view(v@).take(i as int),
        decreases v@.len() - i,
    {
        let ghost before = strings_view(out@);
        out.push(v[i].clone());
        assert(strings_view(out@) =~= before.push(v@[i as int]@));
        assert(strings_view(v@).take(i + 1) =~= strings_view(v@).take(i as int).push(v@[i as int]@));
        i = i + 1;
    }
    assert(strings_view(v@).take(v@.len() as int) =~= strings_view(v@));
    out
}

/// For each public workflow example: the command that runs it, what it prints and the
/// feature flags it needs.
pub fn runnable_example_metadata() -> (r: Vec<RunnableExampleMetadata>)
    ensures
        r@.map_values(|m: RunnableExampleMetadata| m@) == workflow_examples().map_values(|d: DocView| runnable_of(d)),
{
    let examples = public_workflow_examples();
    let ghost want = workflow_examples().map_values(|d: DocView| runnable_of(d));
    let mut r: Vec<RunnableExampleMetadata> = Vec::new();
    let mut i: usize = 0;
    while i < examples.len()
        invariant
            examples@.map_values(|d: DocExample| d@) == workflow_examples(),
            want == workflow_examples().map_values(|d: DocView| runnable_of(d)),
            i <= examples@.len(),
            r@.map_values(|m: RunnableExampleMetadata| m@) == want.take(i as int),
        decreases examples@.len() - i,
    {
        let e = &examples[i];
        assert(workflow_examples()[i as int] == e@);
        let mut command = to_owned_string("cargo run --example ");
        push_str(&mut command, e.workflow.as_str());
        let m = RunnableExampleMetadata {
            example_path: e.example_path.clone(),
            command,
            expected_output: example_output_type(e.workflow.as_str()),
            feature_flags: copy_strings(&e.feature_flags),
        };
        let ghost before = r@.map_values(|m: RunnableExampleMetadata| m@);
        r.push(m);
        assert(r@.map_values(|m: RunnableExampleMetadata| m@) =~= before.push(m@));
        assert(want.take(i + 1) =~= want.take(i as int).push(want[i as int]));
        i = i + 1;
    }
    assert(want.take(examples@.len() as int) =~= want);
    r
}

/// The short name of an upstream quickstart template.
pub open spec fn slug_of(template: Seq<char>) -> Seq<char> {
    if template == "Evaluate a RAG application"@ {
        "evaluate"@
    } else if template == "Generate a testset"@ {
        "testset"@
    } else if template == "Compare and monitor evaluation cost"@ {
        "benchmark"@
    } else if template == "Run experiments"@ {
        "experiments"@
    } else {
        "unknown"@
    }
}

/// The short name of an upstream quickstart template (`unknown` for any other text).
pub fn quickstart_slug(upstream_template: &str) -> (s: &'static str)
    ensures
        s@ == slug_of(upstream_template@),
{
    if str_equal(upstream_template, "Evaluate a RAG application") {
        "evaluate"
    } else if str_equal(upstream_template, "Generate a testset") {
        "testset"
    } else if str_equal(upstream_template, "Compare and monitor evaluation cost") {
        "benchmark"
    } else if str_equal(upstream_template, "Run experiments") {
        "experiments"
    } else {
        "unknown"
    }
}

/// The fixture metadata of a documented quickstart.
pub open spec fn docs_fixture(feature: Seq<char>, template: Seq<char>, example_path: Seq<char>) -> FixtureView {
    FixtureView {
        feature,
        upstream_module_path: "docs/quickstarts/"@ + slug_of(template) + ".md"@,
        rust_example: Some(example_path),
        fixture_path: "tests/parity/fixtures/docs_quickstart_"@ + slug_of(template) + ".json"@,
        mode: ParityFixtureMode::DeterministicMock,
        tolerance_exponent: None,
    }
}

fn docs_fixture_metadata(feature: &str, upstream_template: &str, example_path: &str) -> (m: ParityFixtureMetadata)
    ensures
        m@ == docs_fixture(feature@, upstream_template@, example_path@),
{
    let slug = quickstart_slug(upstream_template);
    let mut doc_path = to_owned_string("docs/quickstarts/");
    push_str(&mut doc_path, slug);
    push_str(&mut doc_path, ".md");
    let mut fixture_path = to_owned_string("tests/parity/fixtures/docs_quickstart_");
    push_str(&mut fixture_path, slug);
    push_str(&mut fixture_path, ".json");
    ParityFixtureMetadata::new(
        feature,
        doc_path.as_str(),
        Some(example_path),
        fixture_path.as_str(),
        ParityFixtureMode::DeterministicMock,
        None,
    )
}

/// The parity claim of a quickstart: feature `docs::quickstart::<slug>`, the quickstart's
/// status, and one deterministic fixture when the status is complete.
pub open spec fn docs_claim(d: QuickstartView) -> ClaimView {
    let feature = "docs::quickstart::"@ + slug_of(d.upstream_template);
    ClaimView {
        feature,
        status: d.parity_status,
        fixtures: if d.parity_status == ParityFeatureStatus::Complete {
            seq![docs_fixture(
                feature,
                d.upstream_template,
                match d.rust_example {
                    Some(e) => e,
                    None => Seq::empty(),
                },
            )]
        } else {
            Seq::empty()
        },
    }
}

/// The parity claims of the documented quickstarts, one per quickstart, in order.
pub fn docs_parity_claims() -> (r: Vec<ParityClaim>)
    ensures
        r@.map_values(|c: ParityClaim| c@) == quickstart_table().map_values(|d: QuickstartView| docs_claim(d)),
{
    let descriptors = quickstart_descriptors();
    let ghost want = quickstart_table().map_values(|d: QuickstartView| docs_claim(d));
    let mut r: Vec<ParityClaim> = Vec::new();
    let mut i: usize = 0;
    while i < descriptors.len()
        invariant
            descriptors@.map_values(|d: QuickstartDescriptor| d@) == quickstart_table(),
            want == quickstart_table().map_values(|d: QuickstartView| docs_claim(d)),
            i <= descriptors@.len(),
            r@.map_values(|c: ParityClaim| c@) == want.take(i as int),
        decreases descriptors@.len() - i,
    {
        let d = &descriptors[i];
        assert(quickstart_table()[i as int] == d@);
        let mut feature = to_owned_string("docs::quickstart::");
        push_str(&mut feature, quickstart_slug(d.upstream_template.as_str()));
        let mut fixtures: Vec<ParityFixtureMetadata> = Vec::new();
        if d.parity_status == ParityFeatureStatus::Complete {
            let example: &str = match &d.rust_example {
                Some(e) => e.as_str(),
                None => "",
            };
            fixtures.push(docs_fixture_metadata(feature.as_str(), d.upstream_template.as_str(), example));
        }
        let claim = ParityClaim { feature, status: d.parity_status, fixtures };
        assert(claim@.fixtures =~= docs_claim(d@).fixtures);
        let ghost before = r@.map_values(|c: ParityClaim| c@);
        r.push(claim);
        assert(r@.map_values(|c: ParityClaim| c@) =~= before.push(claim@));
        assert(want.take(i + 1) =~= want.take(i as int).push(want[i as int]));
        i = i + 1;
    }
    assert(want.take(descriptors@.len() as int) =~= want);
    r
}

} // verus!

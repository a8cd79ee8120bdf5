//! Parity bookkeeping: the status of a feature against the reference behaviour, and the golden
//! fixtures that back a claim.
use vstd::prelude::*;

use crate::dataset::opt_string_view;
use crate::text::to_owned_string;

verus! {

/// How far a feature matches the reference behaviour.
#[derive(Debug, Clone, Copy, PartialEq, Eq, Structural)]
pub enum ParityFeatureStatus {
    Complete,
    Partial,
    KnownGap,
}

/// How a golden fixture was produced.
#[derive(Debug, Clone, Copy, PartialEq, Eq, Structural)]
pub enum ParityFixtureMode {
    DeterministicMock,
    RecordedProvider,
}

/// A golden fixture behind a parity claim. The numeric tolerance of a comparison is
/// `10^tolerance_exponent`; `None` means exact comparison.
#[derive(Debug, Clone, PartialEq, Eq)]
pub struct ParityFixtureMetadata {
    pub feature: String,
    pub upstream_module_path: String,
    pub rust_example: Option<String>,
    pub fixture_path: String,
    pub mode: ParityFixtureMode,
    pub tolerance_exponent: Option<i32>,
}

/// The contents of fixture metadata.
pub struct FixtureView {
    pub feature: Seq<char>,
    pub upstream_module_path: Seq<char>,
    pub rust_example: Option<Seq<char>>,
    pub fixture_path: Seq<char>,
    pub mode: ParityFixtureMode,
    pub tolerance_exponent: Option<i32>,
}

impl View for ParityFixtureMetadata {
    type V = FixtureView;

    open spec fn view(&self) -> FixtureView {
        FixtureView {
            feature: self.feature@,
            upstream_module_path: self.upstream_module_path@,
            rust_example: opt_string_view(self.rust_example),
            fixture_path: self.fixture_path@,
            mode: self.mode,
            tolerance_exponent: self.tolerance_exponent,
        }
    }
}

impl ParityFixtureMetadata {
    pub fn new(
        feature: &str,
        upstream_module_path: &str,
        rust_example: Option<&str>,
        fixture_path: &str,
        mode: ParityFixtureMode,
        tolerance_exponent: Option<i32>,
    ) -> (m: Self)
        ensures
            m.feature@ == feature@,
            m.upstream_module_path@ == upstream_module_path@,
            m.rust_example matches Some(e) ==> rust_example matches Some(x) && e@ == x@,
            m.rust_example is None <==> rust_example is None,
            m.fixture_path@ == fixture_path@,
            m.mode == mode,
            m.tolerance_exponent == tolerance_exponent,
    {
        ParityFixtureMetadata {
            feature: to_owned_string(feature),
            upstream_module_path: to_owned_string(upstream_module_path),
            rust_example: match rust_example {
                Some(x) => Some(to_owned_string(x)),
                None => None,
            },
            fixture_path: to_owned_string(fixture_path),
            mode,
            tolerance_exponent,
        }
    }
}

/// A claim about a feature's parity, with the fixtures that back it.
#[derive(Debug, Clone, PartialEq, Eq)]
pub struct ParityClaim {
    pub feature: String,
    pub status: ParityFeatureStatus,
    pub fixtures: Vec<ParityFixtureMetadata>,
}

/// The contents of a parity claim.
pub struct ClaimView {
    pub feature: Seq<char>,
    pub status: ParityFeatureStatus,
    pub fixtures: Seq<FixtureView>,
}

impl View for ParityClaim {
    type V = ClaimView;

    open spec fn view(&self) -> ClaimView {
        ClaimView {
            feature: self.feature@,
            status: self.status,
            fixtures: self.fixtures@.map_values(|m: ParityFixtureMetadata| m@),
        }
    }
}

/// A copy of fixture metadata.
pub fn copy_fixture(m: &ParityFixtureMetadata) -> (out: ParityFixtureMetadata)
    ensures
        out@ == m@,
{
    ParityFixtureMetadata {
        feature: m.feature.clone(),
        upstream_module_path: m.upstream_module_path.clone(),
        rust_example: match &m.rust_example {
            Some(x) => Some(x.clone()),
            None => None,
        },
        fixture_path: m.fixture_path.clone(),
        mode: m.mode,
        tolerance_exponent: m.tolerance_exponent,
    }
}

/// The fixtures of `fs` for the feature `name`, in order.
pub open spec fn fixtures_for(fs: Seq<FixtureView>, name: Seq<char>) -> Seq<FixtureView>
    decreases fs.len(),
{
    if fs.len() == 0 {
        Seq::empty()
    } else {
        let r = fixtures_for(fs.drop_last(), name);
        if fs.last().feature == name {
            r.push(fs.last())
        } else {
            r
        }
    }
}

/// Copies of the fixtures of `fs` whose feature is `name`, in order.
pub fn select_fixtures(fs: &Vec<ParityFixtureMetadata>, name: &str) -> (out: Vec<ParityFixtureMetadata>)
    ensures
        out@.map_values(|m: ParityFixtureMetadata| m@) == fixtures_for(fs@.map_values(|m: ParityFixtureMetadata| m@), name@),
{
    let ghost v = fs@.map_values(|m: ParityFixtureMetadata| m@);
    let mut out: Vec<ParityFixtureMetadata> = Vec::new();
    let mut i: usize = 0;
    while i < fs.len()
        invariant
            v == fs@.map_values(|m: ParityFixtureMetadata| m@),
            i <= fs@.len(),
            out@.map_values(|m: ParityFixtureMetadata| m@) == fixtures_for(v.take(i as int), name@),
        decreases fs@.len() - i,
    {
        assert(v.take(i + 1).drop_last() =~= v.take(i as int));
        assert(v.take(i + 1).last() == fs@[i as int]@);
        if crate::text::str_equal(fs[i].feature.as_str(), name) {
            let ghost before = out@.map_values(|m: ParityFixtureMetadata| m@);
            let c = copy_fixture(&fs[i]);
            out.push(c);
            assert(out@.map_values(|m: ParityFixtureMetadata| m@) =~= before.push(c@));
        }
        i = i + 1;
    }
    assert(v.take(fs@.len() as int) =~= v);
    out
}

} // verus!

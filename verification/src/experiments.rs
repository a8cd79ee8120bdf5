//! Experiment records: what a run was made of (dataset, metrics, provider configuration, the
//! report and where its outputs went), and the parts of comparing two runs that need no
//! floating point: the sample-count change and the metrics to compare.
use vstd::prelude::*;

use crate::dataset::{metadata_view, strings_view};
use crate::string_map::StringMap;
use crate::text::{str_equal, to_owned_string};

verus! {

/// One evaluation run and its inputs and outputs. The report type is the caller's.
#[derive(Debug)]
pub struct ExperimentRecord<R> {
    pub run_id: String,
    pub dataset_name: String,
    pub sample_count: usize,
    pub metric_names: Vec<String>,
    pub provider_config: StringMap<String>,
    pub report: R,
    pub outputs: StringMap<String>,
}

impl<R> ExperimentRecord<R> {
    /// A record with no outputs yet.
    pub fn new(
        run_id: &str,
        dataset_name: &str,
        sample_count: usize,
        metric_names: Vec<String>,
        provider_config: StringMap<String>,
        report: R,
    ) -> (r: Self)
        ensures
            r.run_id@ == run_id@,
            r.dataset_name@ == dataset_name@,
            r.sample_count == sample_count,
            r.metric_names@ == metric_names@,
            r.provider_config@ == provider_config@,
            r.report == report,
            r.outputs@ == Map::<Seq<char>, String>::empty(),
    {
        ExperimentRecord {
            run_id: to_owned_string(run_id),
            dataset_name: to_owned_string(dataset_name),
            sample_count,
            metric_names,
            provider_config,
            report,
            outputs: StringMap::new(),
        }
    }

    /// The record with the location of a named output added (replacing an earlier one).
    pub fn with_output(self, name: &str, location: &str) -> (r: Self)
        ensures
            r.run_id == self.run_id,
            r.dataset_name == self.dataset_name,
            r.sample_count == self.sample_count,
            r.metric_names == self.metric_names,
            r.provider_config == self.provider_config,
            r.report == self.report,
            metadata_view(r.outputs@) == metadata_view(self.outputs@).insert(name@, location@),
    {
        let mut r = self;
        r.outputs.insert(to_owned_string(name), to_owned_string(location));
        assert(metadata_view(r.outputs@) =~= metadata_view(self.outputs@).insert(name@, location@));
        r
    }
}

/// How many samples the candidate run has more than the baseline run (negative for fewer).
pub fn sample_count_delta(baseline: usize, candidate: usize) -> (d: isize)
    requires
        baseline <= isize::MAX,
        candidate <= isize::MAX,
    ensures
        d == candidate - baseline,
{
    (candidate as isize) - (baseline as isize)
}

/// The names in order of first occurrence, each once.
pub open spec fn first_occurrences(names: Seq<Seq<char>>) -> Seq<Seq<char>>
    decreases names.len(),
{
    if names.len() == 0 {
        Seq::empty()
    } else {
        let rest = first_occurrences(names.drop_last());
        if rest.contains(names.last()) {
            rest
        } else {
            rest.push(names.last())
        }
    }
}

fn position_of(v: &Vec<String>, x: &str) -> (r: bool)
    ensures
        r == strings_view(v@).contains(x@),
{
    let mut i: usize = 0;
    while i < v.len()
        invariant
            i <= v@.len(),
            forall|j: int| 0 <= j < i ==> v@[j]@ != x@,
        decreases v@.len() - i,
    {
        if str_equal(v[i].as_str(), x) {
            assert(strings_view(v@)[i as int] == x@);
            return true;
        }
        i = i + 1;
    }
    proof {
        if strings_view(v@).contains(x@) {
            let j = choose|j: int| 0 <= j < strings_view(v@).len() && strings_view(v@)[j] == x@;
            assert(v@[j]@ == x@);
        }
    }
    false
}

/// The metrics that a comparison of two runs covers: the baseline's metric names, then the
/// candidate's, each name once.
pub fn compared_metric_names(baseline: &Vec<String>, candidate: &Vec<String>) -> (out: Vec<String>)
    ensures
        strings_view(out@) == first_occurrences(strings_view(baseline@) + strings_view(candidate@)),
{
    let ghost all = strings_view(baseline@) + strings_view(candidate@);
    let mut out: Vec<String> = Vec::new();
    let mut i: usize = 0;
    while i < baseline.len()
        invariant
            i <= baseline@.len(),
            all == strings_view(baseline@) + strings_view(candidate@),
            strings_view(out@) == first_occurrences(all.take(i as int)),
        decreases baseline@.len() - i,
    {
        assert(all.take(i + 1).drop_last() =~= all.take(i as int));
        assert(all.take(i + 1).last() == baseline@[i as int]@);
        let ghost before = strings_view(out@);
        if !position_of(&out, baseline[i].as_str()) {
            out.push(baseline[i].clone());
            assert(strings_view(out@) =~= before.push(baseline@[i as int]@));
        }
        i = i + 1;
    }
    let mut j: usize = 0;
    while j < candidate.len()
        invariant
            j <= candidate@.len(),
            all == strings_view(baseline@) + strings_view(candidate@),
            strings_view(out@) == first_occurrences(all.take(baseline@.len() + j)),
        decreases candidate@.len() - j,
    {
        let ghost k: int = baseline@.len() + j;
        assert(all.take(k + 1).drop_last() =~= all.take(k));
        assert(all.take(k + 1).last() == candidate@[j as int]@);
        let ghost before = strings_view(out@);
        if !position_of(&out, candidate[j].as_str()) {
            out.push(candidate[j].clone());
            assert(strings_view(out@) =~= before.push(candidate@[j as int]@));
        }
        j = j + 1;
    }
    assert(all.take(all.len() as int) =~= all);
    out
}

} // verus!

//! Lifecycle events of an evaluation run, as delivered to callbacks and integrations.
use vstd::prelude::*;

use crate::text::to_owned_string;

verus! {

/// What happened in a run.
#[derive(Debug, Clone, Copy, PartialEq, Eq, Structural)]
pub enum RuntimeEventKind {
    EvaluationStarted,
    EvaluationFinished,
    MetricStarted,
    MetricSucceeded,
    MetricFailed,
}

/// One lifecycle event: its kind, the run, and for metric events the metric and the sample.
#[derive(Debug, PartialEq, Eq)]
pub struct RuntimeEvent {
    pub kind: RuntimeEventKind,
    pub run_id: String,
    pub metric_name: Option<String>,
    pub sample_index: Option<usize>,
}

impl RuntimeEvent {
    fn run_event(kind: RuntimeEventKind, run_id: &str) -> (e: Self)
        ensures
            e.kind == kind,
            e.run_id@ == run_id@,
            e.metric_name is None,
            e.sample_index is None,
    {
        RuntimeEvent { kind, run_id: to_owned_string(run_id), metric_name: None, sample_index: None }
    }

    fn metric_event(kind: RuntimeEventKind, run_id: &str, metric_name: &str, sample_index: usize) -> (e: Self)
        ensures
            e.kind == kind,
            e.run_id@ == run_id@,
            e.metric_name matches Some(m) && m@ == metric_name@,
            e.sample_index == Some(sample_index),
    {
        RuntimeEvent {
            kind,
            run_id: to_owned_string(run_id),
            metric_name: Some(to_owned_string(metric_name)),
            sample_index: Some(sample_index),
        }
    }

    pub fn evaluation_started(run_id: &str) -> (e: Self)
        ensures
            e.kind == RuntimeEventKind::EvaluationStarted,
            e.run_id@ == run_id@,
            e.metric_name is None,
            e.sample_index is None,
    {
        Self::run_event(RuntimeEventKind::EvaluationStarted, run_id)
    }

    pub fn evaluation_finished(run_id: &str) -> (e: Self)
        ensures
            e.kind == RuntimeEventKind::EvaluationFinished,
            e.run_id@ == run_id@,
            e.metric_name is None,
            e.sample_index is None,
    {
        Self::run_event(RuntimeEventKind::EvaluationFinished, run_id)
    }

    pub fn metric_started(run_id: &str, metric_name: &str, sample_index: usize) -> (e: Self)
        ensures
            e.kind == RuntimeEventKind::MetricStarted,
            e.run_id@ == run_id@,
            e.metric_name matches Some(m) && m@ == metric_name@,
            e.sample_index == Some(sample_index),
    {
        Self::metric_event(RuntimeEventKind::MetricStarted, run_id, metric_name, sample_index)
    }

    pub fn metric_succeeded(run_id: &str, metric_name: &str, sample_index: usize) -> (e: Self)
        ensures
            e.kind == RuntimeEventKind::MetricSucceeded,
            e.run_id@ == run_id@,
            e.metric_name matches Some(m) && m@ == metric_name@,
            e.sample_index == Some(sample_index),
    {
        Self::metric_event(RuntimeEventKind::MetricSucceeded, run_id, metric_name, sample_index)
    }

    pub fn metric_failed(run_id: &str, metric_name: &str, sample_index: usize) -> (e: Self)
        ensures
            e.kind == RuntimeEventKind::MetricFailed,
            e.run_id@ == run_id@,
            e.metric_name matches Some(m) && m@ == metric_name@,
            e.sample_index == Some(sample_index),
    {
        Self::metric_event(RuntimeEventKind::MetricFailed, run_id, metric_name, sample_index)
    }
}

impl Clone for RuntimeEvent {
    fn clone(&self) -> (out: Self)
        ensures
            out.kind == self.kind,
            out.run_id@ == self.run_id@,
            crate::dataset::opt_string_view(out.metric_name) == crate::dataset::opt_string_view(self.metric_name),
            out.sample_index == self.sample_index,
    {
        RuntimeEvent {
            kind: self.kind,
            run_id: self.run_id.clone(),
            metric_name: match &self.metric_name {
                Some(m) => Some(m.clone()),
                None => None,
            },
            sample_index: self.sample_index,
        }
    }
}

} // verus!

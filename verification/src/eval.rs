//! The decisions of an evaluation run once every (sample, metric) cell has been scored: how the
//! cells become the report (a failed cell becomes a recorded failure, or, under fail-fast, the
//! first failed cell in (sample, metric) order aborts the run), and which cells need a
//! `MetricFailed` event from the joining side.
use vstd::prelude::*;

use crate::error::{error_text, RagasError};
use crate::runtime::{RuntimeEvent, RuntimeEventKind};
use crate::text::{decimal, push_decimal, push_str, to_owned_string};

verus! {

/// The run-level settings that the evaluation loop reads.
#[derive(Debug, Clone, Copy, PartialEq, Eq)]
pub struct RunConfig {
    pub concurrency: usize,
}

/// The options of a plain evaluation run.
#[derive(Debug, Clone, Copy, PartialEq, Eq)]
pub struct EvaluationOptions {
    pub concurrency: usize,
}

impl Default for EvaluationOptions {
    /// Four cells at a time.
    fn default() -> (o: Self)
        ensures
            o.concurrency == 4,
    {
        EvaluationOptions { concurrency: 4 }
    }
}

impl EvaluationOptions {
    /// The options of a run under `config`: its concurrency, at least one.
    pub fn from_run_config(config: &RunConfig) -> (o: Self)
        ensures
            o.concurrency == if config.concurrency >= 1 { config.concurrency } else { 1 },
    {
        EvaluationOptions { concurrency: if config.concurrency >= 1 { config.concurrency } else { 1 } }
    }
}

/// What a scored cell becomes in the report: the metric's result, or a failure message.
#[derive(Debug)]
pub enum CellResult<T> {
    Scored(T),
    Failed { message: String },
}

/// Whether a cell failed: its task was lost (`None`) or its metric returned an error.
pub open spec fn is_failed<T>(c: Option<Result<T, RagasError>>) -> bool {
    match c {
        Some(Ok(_)) => false,
        _ => true,
    }
}

/// The message of a cell whose task was lost.
pub open spec fn lost_task_message() -> Seq<char> {
    "metric task failed"@
}

/// What a cell becomes in the report when failures are recorded: an error becomes a failure
/// with the error's text, a lost task a failure with `metric task failed`.
pub open spec fn resolved<T>(c: Option<Result<T, RagasError>>, out: CellResult<T>) -> bool {
    match c {
        Some(Ok(t)) => out == CellResult::Scored(t),
        Some(Err(e)) => out matches CellResult::Failed { message } && message@ == error_text(e),
        None => out matches CellResult::Failed { message } && message@ == lost_task_message(),
    }
}

/// The text of the error that aborts a fail-fast run on a lost task.
pub open spec fn lost_task_abort(metric_name: Seq<char>, sample_index: nat) -> Seq<char> {
    "metric '"@ + metric_name + "' task failed for sample "@ + decimal(sample_index)
}

/// The error that aborts a fail-fast run on the cell `c` of `metric_name` and sample
/// `sample_index`: the metric's own error, or a provider error for a lost task.
pub open spec fn abort_error<T>(
    c: Option<Result<T, RagasError>>,
    metric_name: Seq<char>,
    sample_index: nat,
    e: RagasError,
) -> bool {
    match c {
        Some(Err(x)) => e == x,
        _ => e matches RagasError::Provider { message } && message@ == lost_task_abort(metric_name, sample_index),
    }
}

/// The grid of cells: one row per sample, one cell per metric.
pub open spec fn grid<T>(cells: Seq<Vec<Option<Result<T, RagasError>>>>) -> Seq<Seq<Option<Result<T, RagasError>>>> {
    cells.map_values(|r: Vec<Option<Result<T, RagasError>>>| r@)
}

/// Whether cell `(i, j)` comes before cell `(k, l)` in (sample, metric) order.
pub open spec fn before(i: int, j: int, k: int, l: int) -> bool {
    i < k || (i == k && j < l)
}

/// Whether a fail-fast run aborts at cell `(i, j)` with error `e`: the cell failed, no cell
/// before it failed, and `e` is the cell's error (a provider error for a lost task).
pub open spec fn aborts_at<T>(
    g: Seq<Seq<Option<Result<T, RagasError>>>>,
    names: Seq<String>,
    i: int,
    j: int,
    e: RagasError,
) -> bool {
    &&& 0 <= i < g.len()
    &&& 0 <= j < names.len()
    &&& is_failed(g[i][j])
    &&& abort_error(g[i][j], names[j]@, i as nat, e)
    &&& forall|k: int, l: int|
        0 <= k < g.len() && 0 <= l < names.len() && before(k, l, i, j) ==> !is_failed(#[trigger] g[k][l])
}

/// The report rows: the cells resolved one by one (or, under fail-fast, the error of the first
/// failed cell in (sample, metric) order). Every row has one cell per metric name.
pub fn resolve_cells<T>(
    cells: Vec<Vec<Option<Result<T, RagasError>>>>,
    names: &Vec<String>,
    raise_exceptions: bool,
) -> (r: Result<Vec<Vec<CellResult<T>>>, RagasError>)
    requires
        forall|i: int| 0 <= i < cells@.len() ==> (#[trigger] cells@[i])@.len() == names@.len(),
    ensures
        !raise_exceptions ==> r is Ok,
        match r {
            Ok(rows) => {
                &&& raise_exceptions ==> forall|i: int, j: int|
                    0 <= i < cells@.len() && 0 <= j < names@.len() ==> !is_failed(#[trigger] grid(cells@)[i][j])
                &&& rows@.len() == cells@.len()
                &&& forall|i: int| 0 <= i < rows@.len() ==> (#[trigger] rows@[i])@.len() == names@.len()
                &&& forall|i: int, j: int|
                    0 <= i < rows@.len() && 0 <= j < names@.len() ==> resolved(
                        #[trigger] grid(cells@)[i][j],
                        rows@[i]@[j],
                    )
            },
            Err(e) => raise_exceptions && exists|i: int, j: int| #[trigger] aborts_at(grid(cells@), names@, i, j, e),
        },
{
    let ghost g = grid(cells@);
    let n_rows = cells.len();
    let n_names = names.len();
    let ghost n = cells@.len();
    let ghost m = names@.len();
    let mut rest = cells;
    let mut rows: Vec<Vec<CellResult<T>>> = Vec::new();
    let mut i: usize = 0;
    while rest.len() > 0
        invariant
            g == grid(cells@),
            g.len() == n,
            n == n_rows,
            m == n_names,
            forall|a: int| 0 <= a < n ==> (#[trigger] g[a]).len() == m,
            m == names@.len(),
            i + rest@.len() == n,
            grid(rest@) == g.skip(i as int),
            rows@.len() == i,
            forall|a: int| 0 <= a < i ==> (#[trigger] rows@[a])@.len() == m,
            forall|a: int, b: int| 0 <= a < i && 0 <= b < m ==> resolved(#[trigger] g[a][b], rows@[a]@[b]),
            raise_exceptions ==> forall|a: int, b: int| 0 <= a < i && 0 <= b < m ==> !is_failed(#[trigger] g[a][b]),
        decreases rest@.len(),
    {
        let ghost old_rest = rest@;
        let mut row = rest.remove(0);
        assert(rest@ =~= old_rest.skip(1));
        assert(grid(rest@) =~= g.skip(i + 1)) by {
            assert(grid(old_rest) == g.skip(i as int));
            assert forall|a: int| 0 <= a < grid(rest@).len() implies grid(rest@)[a] == g.skip(i + 1)[a] by {
                assert(grid(old_rest)[a + 1] == g.skip(i as int)[a + 1]);
            }
        }
        assert(row@ == g[i as int]) by {
            assert(g.skip(i as int)[0] == g[i as int]);
        }
        let mut out_row: Vec<CellResult<T>> = Vec::new();
        let mut j: usize = 0;
        while row.len() > 0
            invariant
                g == grid(cells@),
                g.len() == n,
                i < n,
                n == n_rows,
                m == n_names,
                g[i as int].len() == m,
                m == names@.len(),
                j + row@.len() == m,
                row@ == g[i as int].skip(j as int),
                out_row@.len() == j,
                forall|b: int| 0 <= b < j ==> resolved(#[trigger] g[i as int][b], out_row@[b]),
                raise_exceptions ==> forall|b: int| 0 <= b < j ==> !is_failed(#[trigger] g[i as int][b]),
                raise_exceptions ==> forall|a: int, b: int| 0 <= a < i && 0 <= b < m ==> !is_failed(#[trigger] g[a][b]),
            decreases row@.len(),
        {
            let ghost old_row = row@;
            let cell = row.remove(0);
            assert(cell == g[i as int][j as int]) by {
                assert(g[i as int].skip(j as int)[0] == g[i as int][j as int]);
            }
            assert(row@ =~= g[i as int].skip(j + 1)) by {
                assert(row@ =~= old_row.skip(1));
            }
            let resolved_cell = match cell {
                Some(Ok(t)) => CellResult::Scored(t),
                Some(Err(e)) => {
                    if raise_exceptions {
                        assert(abort_error(g[i as int][j as int], names@[j as int]@, i as nat, e));
                        assert(is_failed(g[i as int][j as int]));
                        assert forall|k: int, l: int|
                            0 <= k < n && 0 <= l < m && before(k, l, i as int, j as int) implies !is_failed(
                            #[trigger] g[k][l]) by {}
                        assert(aborts_at(g, names@, i as int, j as int, e));
                        return Err(e);
                    }
                    CellResult::Failed { message: e.describe() }
                },
                None => {
                    if raise_exceptions {
                        let mut message = to_owned_string("metric '");
                        push_str(&mut message, names[j].as_str());
                        push_str(&mut message, "' task failed for sample ");
                        push_decimal(&mut message, i);
                        assert(message@ =~= lost_task_abort(names@[j as int]@, i as nat));
                        let e = RagasError::Provider { message };
                        assert(abort_error(g[i as int][j as int], names@[j as int]@, i as nat, e));
                        assert(is_failed(g[i as int][j as int]));
                        assert forall|k: int, l: int|
                            0 <= k < n && 0 <= l < m && before(k, l, i as int, j as int) implies !is_failed(
                            #[trigger] g[k][l]) by {}
                        assert(aborts_at(g, names@, i as int, j as int, e));
                        return Err(e);
                    }
                    CellResult::Failed { message: to_owned_string("metric task failed") }
                },
            };
            out_row.push(resolved_cell);
            j = j + 1;
        }
        rows.push(out_row);
        i = i + 1;
    }
    Ok(rows)
}

/// The cells whose task was lost, in (sample, metric) order, as (sample, metric) positions.
pub open spec fn lost_in_row<T>(row: Seq<Option<Result<T, RagasError>>>, i: nat) -> Seq<(nat, nat)>
    decreases row.len(),
{
    if row.len() == 0 {
        Seq::empty()
    } else {
        let earlier = lost_in_row(row.drop_last(), i);
        if row.last() is None {
            earlier.push((i, (row.len() - 1) as nat))
        } else {
            earlier
        }
    }
}

/// The positions of the lost cells of a grid, in (sample, metric) order.
pub open spec fn lost_cells<T>(g: Seq<Seq<Option<Result<T, RagasError>>>>) -> Seq<(nat, nat)>
    decreases g.len(),
{
    if g.len() == 0 {
        Seq::empty()
    } else {
        lost_cells(g.drop_last()) + lost_in_row(g.last(), (g.len() - 1) as nat)
    }
}

/// Whether `e` is the `MetricFailed` event of run `run_id` for `metric_name` and sample `i`.
pub open spec fn is_metric_failed(e: RuntimeEvent, run_id: Seq<char>, metric_name: Seq<char>, i: nat) -> bool {
    &&& e.kind == RuntimeEventKind::MetricFailed
    &&& e.run_id@ == run_id
    &&& e.metric_name matches Some(name) && name@ == metric_name
    &&& e.sample_index == Some(i as usize)
}

/// Whether `events` are the `MetricFailed` events of run `run_id` for the cells at `positions`,
/// in order.
pub open spec fn events_match(events: Seq<RuntimeEvent>, positions: Seq<(nat, nat)>, names: Seq<String>, run_id: Seq<char>) -> bool {
    &&& events.len() == positions.len()
    &&& forall|k: int| 0 <= k < events.len() ==> reports_lost_cell(#[trigger] events[k], positions[k], names, run_id)
}

/// Whether `e` is the `MetricFailed` event of run `run_id` for the cell at `pos`
/// (sample, metric).
pub open spec fn reports_lost_cell(e: RuntimeEvent, pos: (nat, nat), names: Seq<String>, run_id: Seq<char>) -> bool {
    &&& pos.1 < names.len()
    &&& is_metric_failed(e, run_id, names[pos.1 as int]@, pos.0)
}

/// The event that ends a metric's work on a sample: `MetricSucceeded` when the metric scored
/// it, `MetricFailed` when the metric failed.
pub fn cell_finished_event<T>(
    run_id: &str,
    metric_name: &str,
    sample_index: usize,
    outcome: &Result<T, RagasError>,
) -> (e: RuntimeEvent)
    ensures
        e.kind == (if outcome is Ok { RuntimeEventKind::MetricSucceeded } else { RuntimeEventKind::MetricFailed }),
        e.run_id@ == run_id@,
        e.metric_name matches Some(m) && m@ == metric_name@,
        e.sample_index == Some(sample_index),
{
    match outcome {
        Ok(_) => RuntimeEvent::metric_succeeded(run_id, metric_name, sample_index),
        Err(_) => RuntimeEvent::metric_failed(run_id, metric_name, sample_index),
    }
}

/// The events of one (sample, metric) cell, in order: `MetricStarted`, then exactly one
/// terminator, `MetricSucceeded` when the metric scored the sample and `MetricFailed` when it
/// failed or its task never reported (`None`).
pub fn cell_events<T>(
    run_id: &str,
    metric_name: &str,
    sample_index: usize,
    cell: &Option<Result<T, RagasError>>,
) -> (r: Vec<RuntimeEvent>)
    ensures
        r@.len() == 2,
        r@[0].kind == RuntimeEventKind::MetricStarted,
        r@[1].kind == (if cell matches Some(Ok(_)) { RuntimeEventKind::MetricSucceeded } else { RuntimeEventKind::MetricFailed }),
        forall|k: int| 0 <= k < 2 ==> {
            &&& (#[trigger] r@[k]).run_id@ == run_id@
            &&& r@[k].metric_name matches Some(m) && m@ == metric_name@
            &&& r@[k].sample_index == Some(sample_index)
        },
{
    let mut r: Vec<RuntimeEvent> = Vec::new();
    r.push(RuntimeEvent::metric_started(run_id, metric_name, sample_index));
    match cell {
        Some(outcome) => r.push(cell_finished_event(run_id, metric_name, sample_index, outcome)),
        None => r.push(RuntimeEvent::metric_failed(run_id, metric_name, sample_index)),
    }
    r
}

/// The `MetricFailed` events that the joining side emits: one per lost cell (its task started
/// but never reported), in (sample, metric) order, so that every started cell is terminated.
pub fn lost_cell_events<T>(
    cells: &Vec<Vec<Option<Result<T, RagasError>>>>,
    names: &Vec<String>,
    run_id: &str,
) -> (r: Vec<RuntimeEvent>)
    requires
        forall|i: int| 0 <= i < cells@.len() ==> (#[trigger] cells@[i])@.len() == names@.len(),
    ensures
        events_match(r@, lost_cells(grid(cells@)), names@, run_id@),
{
    let ghost g = grid(cells@);
    let mut r: Vec<RuntimeEvent> = Vec::new();
    let mut i: usize = 0;
    while i < cells.len()
        invariant
            g == grid(cells@),
            forall|a: int| 0 <= a < cells@.len() ==> (#[trigger] cells@[a])@.len() == names@.len(),
            i <= cells@.len(),
            events_match(r@, lost_cells(g.take(i as int)), names@, run_id@),
        decreases cells@.len() - i,
    {
        let row = &cells[i];
        assert(g[i as int] == row@);
        assert(g.take(i + 1).drop_last() =~= g.take(i as int));
        assert(row@.take(0) =~= Seq::<Option<Result<T, RagasError>>>::empty());
        assert(lost_cells(g.take(i as int)) + lost_in_row(row@.take(0), i as nat) =~= lost_cells(g.take(i as int)));
        let mut j: usize = 0;
        while j < row.len()
            invariant
                row@.len() == names@.len(),
                j <= row@.len(),
                events_match(r@, lost_cells(g.take(i as int)) + lost_in_row(row@.take(j as int), i as nat), names@, run_id@),
            decreases row@.len() - j,
        {
            let ghost cur = lost_cells(g.take(i as int)) + lost_in_row(row@.take(j as int), i as nat);
            assert(row@.take(j + 1).drop_last() =~= row@.take(j as int));
            if row[j].is_none() {
                let e = RuntimeEvent::metric_failed(run_id, names[j].as_str(), i);
                assert(is_metric_failed(e, run_id@, names@[j as int]@, i as nat));
                let ghost old_r = r@;
                r.push(e);
                let ghost p = cur.push((i as nat, j as nat));
                assert(lost_cells(g.take(i as int)) + lost_in_row(row@.take(j + 1), i as nat) =~= p);
                assert(events_match(r@, p, names@, run_id@)) by {
                    assert(events_match(old_r, cur, names@, run_id@));
                    assert(r@.len() == p.len());
                    assert forall|k: int| 0 <= k < r@.len() implies reports_lost_cell(#[trigger] r@[k], p[k], names@, run_id@) by {
                        if k < old_r.len() {
                            assert(r@[k] == old_r[k]);
                            assert(p[k] == cur[k]);
                        } else {
                            assert(r@[k] == e);
                            assert(p[k] == (i as nat, j as nat));
                        }
                    }
                }
            } else {
                assert(lost_cells(g.take(i as int)) + lost_in_row(row@.take(j + 1), i as nat) =~= cur);
            }
            j = j + 1;
        }
        assert(row@.take(row@.len() as int) =~= row@);
        assert(lost_cells(g.take(i + 1)) == lost_cells(g.take(i as int)) + lost_in_row(row@, i as nat));
        i = i + 1;
    }
    assert(g.take(cells@.len() as int) =~= g);
    r
}

} // verus!

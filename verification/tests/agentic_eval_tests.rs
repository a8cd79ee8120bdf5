use ragas::agentic::render_transcript;
use ragas::benchmarks::{usage_totals, BenchmarkMeasurement, BenchmarkPrompt};
use ragas::dataset::{Message, ToolCall};
use ragas::eval::{
    cell_events, cell_finished_event,
    lost_cell_events, resolve_cells, CellResult, EvaluationOptions, RunConfig,
};
use ragas::llm::TokenUsage;
use ragas::runtime::RuntimeEventKind;
use ragas::RagasError;

#[test]
fn render_transcript_formats_human_ai_tools_and_tool_output() {
    let messages = vec![
        Message::user("book a table"),
        Message::assistant("sure").with_tool_call(ToolCall::new("c1", "book", "{\"time\":\"8pm\"}")),
        Message::tool("c1", "booked"),
        Message::system("be polite"),
    ];
    assert_eq!(
        render_transcript(&messages),
        "Human: book a table\nAI: sure\nTools:\n  book: {\"time\":\"8pm\"}\nToolOutput: booked"
    );
}

fn names() -> Vec<String> {
    vec!["ok".to_string(), "fail".to_string()]
}

fn provider(message: &str) -> RagasError {
    RagasError::Provider { message: message.to_string() }
}

#[test]
fn collected_failures_become_failure_messages() {
    let cells: Vec<Vec<Option<Result<u32, RagasError>>>> = vec![
        vec![Some(Ok(1)), Some(Err(provider("provider failed")))],
        vec![Some(Ok(2)), None],
    ];
    let rows = resolve_cells(cells, &names(), false).expect("collect-and-continue never fails");
    assert_eq!(rows.len(), 2);
    assert!(matches!(rows[0][0], CellResult::Scored(1)));
    match &rows[0][1] {
        CellResult::Failed { message } => assert_eq!(message, "provider error: provider failed"),
        other => panic!("unexpected {other:?}"),
    }
    match &rows[1][1] {
        CellResult::Failed { message } => assert_eq!(message, "metric task failed"),
        other => panic!("unexpected {other:?}"),
    }
}

#[test]
fn fail_fast_returns_the_first_failed_cell_in_order() {
    let cells: Vec<Vec<Option<Result<u32, RagasError>>>> = vec![
        vec![Some(Ok(1)), Some(Err(provider("boom")))],
        vec![None, Some(Err(provider("later")))],
    ];
    assert_eq!(resolve_cells(cells, &names(), true).unwrap_err(), provider("boom"));

    let cells: Vec<Vec<Option<Result<u32, RagasError>>>> =
        vec![vec![Some(Ok(1)), Some(Ok(2))], vec![None, Some(Err(provider("later")))]];
    assert_eq!(
        resolve_cells(cells, &names(), true).unwrap_err(),
        provider("metric 'ok' task failed for sample 1")
    );

    let cells: Vec<Vec<Option<Result<u32, RagasError>>>> = vec![vec![Some(Ok(1)), Some(Ok(2))]];
    assert!(resolve_cells(cells, &names(), true).is_ok());
}

#[test]
fn lost_cells_get_one_failed_event_each() {
    let cells: Vec<Vec<Option<Result<u32, RagasError>>>> =
        vec![vec![None, Some(Ok(1))], vec![Some(Ok(2)), None]];
    let events = lost_cell_events(&cells, &names(), "eval-1");
    assert_eq!(events.len(), 2);
    assert!(events.iter().all(|e| e.kind == RuntimeEventKind::MetricFailed && e.run_id == "eval-1"));
    assert_eq!(events[0].metric_name.as_deref(), Some("ok"));
    assert_eq!(events[0].sample_index, Some(0));
    assert_eq!(events[1].metric_name.as_deref(), Some("fail"));
    assert_eq!(events[1].sample_index, Some(1));
}

#[test]
fn evaluation_options_concurrency() {
    assert_eq!(EvaluationOptions::default().concurrency, 4);
    assert_eq!(EvaluationOptions::from_run_config(&RunConfig { concurrency: 0 }).concurrency, 1);
    assert_eq!(EvaluationOptions::from_run_config(&RunConfig { concurrency: 8 }).concurrency, 8);
}

fn measurement(kind: &str, prompt: &str, usage: Option<TokenUsage>) -> BenchmarkMeasurement {
    BenchmarkMeasurement {
        provider_name: format!("mock-{kind}"),
        provider_kind: kind.to_string(),
        prompt_id: prompt.to_string(),
        output_units: 1,
        usage,
    }
}

#[test]
fn usage_totals_sum_reported_counts() {
    let llm = TokenUsage { prompt_tokens: Some(5), completion_tokens: Some(2), total_tokens: Some(7) };
    let embedding = TokenUsage { prompt_tokens: Some(3), completion_tokens: Some(0), total_tokens: Some(3) };
    let prompts = [BenchmarkPrompt::new("p1", "Score faithfulness"), BenchmarkPrompt::new("p2", "Embed relevancy")];
    let mut measurements = Vec::new();
    for p in &prompts {
        measurements.push(measurement("llm", &p.id, Some(llm.clone())));
    }
    for p in &prompts {
        measurements.push(measurement("embedding", &p.id, Some(embedding.clone())));
    }
    measurements.push(measurement("llm", "p3", None));
    let totals = usage_totals(&measurements);
    assert_eq!(totals.prompt_tokens, 16);
    assert_eq!(totals.completion_tokens, 4);
    assert_eq!(totals.total_tokens, 20);
}

fn tool_call(name: &str, query: &str) -> ToolCall {
    ToolCall::new("id", name, &format!("{{\"q\":\"{query}\"}}"))
}

fn conversation(actual: Vec<ToolCall>, reference: Vec<ToolCall>) -> ragas::dataset::MultiTurnSample {
    let mut assistant = Message::assistant("calling tools");
    for call in actual {
        assistant = assistant.with_tool_call(call);
    }
    ragas::dataset::MultiTurnSample::new(vec![Message::user("do it"), assistant]).with_reference_tool_calls(reference)
}

#[test]
fn positional_tool_call_matches_follow_the_reference_order() {
    let exact = conversation(
        vec![tool_call("search", "ragas"), tool_call("lookup", "ragas")],
        vec![tool_call("search", "ragas"), tool_call("lookup", "ragas")],
    );
    let actual = ragas::agentic::extract_tool_calls(&exact);
    assert_eq!(ragas::agentic::tool_call_positional_matches(&exact.reference_tool_calls, &actual), 2);

    let partial = conversation(
        vec![tool_call("search", "ragas"), tool_call("wrong", "x")],
        vec![tool_call("search", "ragas"), tool_call("lookup", "ragas")],
    );
    let actual = ragas::agentic::extract_tool_calls(&partial);
    assert_eq!(ragas::agentic::tool_call_positional_matches(&partial.reference_tool_calls, &actual), 1);
}

#[test]
fn tool_call_overlap_ignores_order_and_ids() {
    let reversed = conversation(
        vec![tool_call("lookup", "ragas"), tool_call("search", "ragas")],
        vec![tool_call("search", "ragas"), tool_call("lookup", "ragas")],
    );
    let actual = ragas::agentic::extract_tool_calls(&reversed);
    assert_eq!(ragas::agentic::tool_call_overlap(&reversed.reference_tool_calls, &actual), 2);
    assert_eq!(ragas::agentic::tool_call_positional_matches(&reversed.reference_tool_calls, &actual), 0);

    let missing = conversation(
        vec![tool_call("search", "ragas")],
        vec![tool_call("search", "ragas"), tool_call("lookup", "ragas")],
    );
    let actual = ragas::agentic::extract_tool_calls(&missing);
    assert_eq!(ragas::agentic::tool_call_overlap(&missing.reference_tool_calls, &actual), 1);
    // A call is matched at most as often as it occurs on both sides; names and arguments
    // cannot run together.
    let twice = vec![tool_call("search", "ragas"), tool_call("search", "ragas")];
    let once = vec![ToolCall::new("other-id", "search", "{\"q\":\"ragas\"}")];
    assert_eq!(ragas::agentic::tool_call_overlap(&twice, &once), 1);
    let split_a = vec![ToolCall::new("1", "ab", "c")];
    let split_b = vec![ToolCall::new("1", "a", "bc")];
    assert_eq!(ragas::agentic::tool_call_overlap(&split_a, &split_b), 0);
}

#[test]
fn finished_event_follows_the_outcome() {
    let ok: Result<u32, RagasError> = Ok(1);
    let failed: Result<u32, RagasError> = Err(RagasError::EmptyDataset);
    let done = cell_finished_event("run-1", "faithfulness", 2, &ok);
    assert_eq!(done.kind, RuntimeEventKind::MetricSucceeded);
    assert_eq!(done.run_id, "run-1");
    assert_eq!(done.metric_name.as_deref(), Some("faithfulness"));
    assert_eq!(done.sample_index, Some(2));
    let lost = cell_finished_event("run-1", "faithfulness", 3, &failed);
    assert_eq!(lost.kind, RuntimeEventKind::MetricFailed);
    assert_eq!(lost.sample_index, Some(3));
}

#[test]
fn each_cell_reports_one_start_then_one_terminator() {
    let ok: Option<Result<u32, RagasError>> = Some(Ok(1));
    let failed: Option<Result<u32, RagasError>> = Some(Err(RagasError::EmptyDataset));
    let lost: Option<Result<u32, RagasError>> = None;
    for (cell, terminator) in [
        (ok, RuntimeEventKind::MetricSucceeded),
        (failed, RuntimeEventKind::MetricFailed),
        (lost, RuntimeEventKind::MetricFailed),
    ] {
        let events = cell_events("run-2", "bleu", 4, &cell);
        assert_eq!(events.len(), 2);
        assert_eq!(events[0].kind, RuntimeEventKind::MetricStarted);
        assert_eq!(events[1].kind, terminator);
        for event in &events {
            assert_eq!(event.run_id, "run-2");
            assert_eq!(event.metric_name.as_deref(), Some("bleu"));
            assert_eq!(event.sample_index, Some(4));
        }
    }
}

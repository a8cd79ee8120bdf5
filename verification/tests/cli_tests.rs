use ragas::cli::{
    cli_contract_snapshot, cli_error_kind, cli_error_snapshot, config_report, flag, parse_usize,
    plan_cli, CliInvocation, CliOutput, CliRuntime, CLI_USAGE,
};
use ragas::backends::DatasetBackend;
use ragas::config::ProviderConfig;
use ragas::dataset::{EvaluationDataset, EvaluationSample, SingleTurnSample};
use ragas::{RagasError, StringMap};

fn args(values: &[&str]) -> Vec<String> {
    values.iter().map(|value| value.to_string()).collect()
}

/// Runs the commands that need no file I/O, as the executable does.
fn run(args: &[String]) -> Result<String, String> {
    match plan_cli(&args.to_vec())? {
        CliInvocation::Help => Ok(CLI_USAGE.to_string()),
        CliInvocation::Config => {
            let config = ProviderConfig::resolve(&StringMap::new(), &StringMap::new());
            Ok(config_report(&config))
        }
        other => Err(format!("{other:?} reads or writes files")),
    }
}

#[test]
fn no_args_and_help_print_usage() {
    assert!(run(&[]).unwrap().contains("USAGE"));
    assert!(run(&args(&["help"])).unwrap().contains("evaluate --dataset"));
    assert!(run(&args(&["--help"])).unwrap().contains("COMMANDS"));
}

#[test]
fn config_command_reports_resolved_configuration() {
    let out = run(&args(&["config"])).expect("config");
    assert!(out.contains("provider configuration"));
    assert!(out.contains("OPENAI_BASE_URL"));
    assert!(out.contains("OPENAI_MODEL"));
}

#[test]
fn unknown_command_errors() {
    let error = run(&args(&["frobnicate"])).expect_err("unknown command");
    assert!(error.contains("unknown command 'frobnicate'"));
}

#[test]
fn flag_parsing_extracts_values_and_handles_absence() {
    let a = args(&["--dataset", "data.jsonl", "--report", "out.json"]);
    assert_eq!(flag(&a, "--dataset").as_deref(), Some("data.jsonl"));
    assert_eq!(flag(&a, "--report").as_deref(), Some("out.json"));
    assert_eq!(flag(&a, "--missing"), None);
    assert_eq!(flag(&args(&["--dataset"]), "--dataset"), None);
}

#[test]
fn evaluate_requires_a_dataset_flag() {
    let error = run(&args(&["evaluate"])).expect_err("missing --dataset");
    assert!(error.contains("--dataset"));
}

#[test]
fn planning_reads_flags_of_each_command() {
    assert_eq!(
        plan_cli(&args(&["evaluate", "--dataset", "d.jsonl", "--report", "r.json"])),
        Ok(CliInvocation::Evaluate {
            dataset: "d.jsonl".to_string(),
            report: Some("r.json".to_string())
        })
    );
    assert_eq!(
        plan_cli(&args(&["testset", "--doc", "a.txt"])),
        Err("testset requires --source-id <id>".to_string())
    );
    assert_eq!(
        plan_cli(&args(&["testset", "--source-id", "s"])),
        Err("testset requires --doc <file.txt>".to_string())
    );
    assert_eq!(
        plan_cli(&args(&["testset", "--doc", "a.txt", "--source-id", "s", "--out", "o.jsonl"])),
        Ok(CliInvocation::Testset {
            doc: "a.txt".to_string(),
            source_id: "s".to_string(),
            out: Some("o.jsonl".to_string())
        })
    );
    assert_eq!(plan_cli(&args(&["benchmark"])), Ok(CliInvocation::Benchmark { runs: 1 }));
    assert_eq!(
        plan_cli(&args(&["benchmark", "--runs", "+12"])),
        Ok(CliInvocation::Benchmark { runs: 12 })
    );
    assert_eq!(
        plan_cli(&args(&["benchmark", "--runs", "-1"])),
        Err("--runs must be a non-negative number, got '-1'".to_string())
    );
    assert_eq!(plan_cli(&args(&["config"])), Ok(CliInvocation::Config));
}

#[test]
fn parse_usize_follows_std_parse() {
    for text in ["0", "7", "+7", "0042", "18446744073709551615", "", "+", "-1", "1x", " 1", "18446744073709551616"] {
        assert_eq!(parse_usize(text), text.parse::<usize>().ok(), "{text:?}");
    }
}

#[test]
fn error_snapshots_name_the_error_kind() {
    let snapshot = cli_error_snapshot(&RagasError::DatasetIo {
        message: "missing".to_string(),
    })
    .expect("snapshot");
    assert_eq!(snapshot.status, "error");
    assert_eq!(snapshot.error_kind, "dataset_io");
    assert_eq!(snapshot.stderr_keys, vec!["error", "kind", "status"]);
    assert_eq!(snapshot.exit_code, 1);
    assert_eq!(cli_error_kind(&RagasError::EmptyDataset), "empty_dataset");
    assert_eq!(
        cli_error_kind(&RagasError::LlmDidNotFinish { reason: "length".to_string() }),
        "llm_did_not_finish"
    );
}

#[test]
fn runtime_keeps_datasets_and_reports() {
    let mut runtime = CliRuntime::new();
    let dataset = EvaluationDataset::from_samples(vec![EvaluationSample::SingleTurn(
        SingleTurnSample::new("q", "a", vec!["c".to_string()]),
    )])
    .expect("dataset");
    runtime.datasets_mut().save("input", &dataset).expect("save");
    assert_eq!(runtime.datasets().list(), vec!["input".to_string()]);
    assert_eq!(runtime.report("report"), None);
    runtime.store_report("report", "{\"status\":\"ok\"}".to_string());
    assert_eq!(runtime.report("report"), Some("{\"status\":\"ok\"}"));
}

#[test]
fn contract_snapshot_lists_stdout_keys_in_order() {
    let output = CliOutput {
        stdout: "{\"summary\":\"s\",\"status\":\"ok\",\"command\":\"evaluate\",\"report\":\"reports/run-21-2\",\"sample_count\":1,\"metrics\":[]}".to_string(),
        stderr: String::new(),
        exit_code: 0,
    };
    let snapshot = cli_contract_snapshot(&output).expect("CLI snapshot");
    assert_eq!(snapshot.command, "evaluate");
    assert_eq!(snapshot.status, "ok");
    assert_eq!(
        snapshot.stdout_keys,
        vec!["command", "metrics", "report", "sample_count", "status", "summary"]
    );
    assert!(snapshot.stderr_empty);
    assert_eq!(snapshot.exit_code, 0);
}

#[test]
fn contract_snapshot_reads_non_string_members_as_empty() {
    let output = CliOutput { stdout: "{\"command\":7}".to_string(), stderr: "warn".to_string(), exit_code: 2 };
    let snapshot = cli_contract_snapshot(&output).expect("CLI snapshot");
    assert_eq!(snapshot.command, "");
    assert_eq!(snapshot.status, "");
    assert_eq!(snapshot.stdout_keys, vec!["command"]);
    assert!(!snapshot.stderr_empty);
    assert_eq!(snapshot.exit_code, 2);
}

#[test]
fn contract_snapshot_refuses_non_objects_and_non_json() {
    let array = CliOutput { stdout: "[1, 2]".to_string(), stderr: String::new(), exit_code: 0 };
    assert_eq!(
        cli_contract_snapshot(&array),
        Err(RagasError::Parse { message: "CLI stdout snapshot expected a machine-readable JSON object".to_string() })
    );
    let text = CliOutput { stdout: "not json".to_string(), stderr: String::new(), exit_code: 0 };
    match cli_contract_snapshot(&text) {
        Err(RagasError::Parse { message }) => assert!(message.starts_with("CLI stdout snapshot parse failed: ")),
        other => panic!("expected a parse error, got {other:?}"),
    }
}

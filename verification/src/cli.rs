//! The command-line interface: its commands and outputs, the runtime that holds the datasets
//! and reports of a session, error snapshots, and the argument handling of the `ragas`
//! executable (which command to run, with which flags).
use vstd::prelude::*;

use crate::backends::{first_pos, position_in_row, InMemoryDatasetBackend, DatasetContents};
use crate::config::ProviderConfig;
use crate::dataset::{opt_string_view, strings_view};
use crate::error::RagasError;
use crate::codec::{json_top_level, members_view, read_json_top_level, JsonTopLevel, JsonTopView};
use crate::string_map::{strictly_sorted, StringMap};
use crate::text::{chars_of, push_str, str_equal, to_owned_string};

verus! {

/// A command of the library's CLI.
#[derive(Debug, Clone, PartialEq, Eq)]
pub enum CliCommand {
    Evaluate { input: String, report: String },
    Testset { source_id: String, text: String, output: String },
    Benchmark { runs: usize },
}

/// What a command printed and its exit code.
#[derive(Debug, Clone, PartialEq, Eq)]
pub struct CliOutput {
    pub stdout: String,
    pub stderr: String,
    pub exit_code: i32,
}

/// The stable shape of a successful command's output.
#[derive(Debug, Clone, PartialEq, Eq)]
pub struct CliContractSnapshot {
    pub command: String,
    pub status: String,
    pub stdout_keys: Vec<String>,
    pub stderr_empty: bool,
    pub exit_code: i32,
}

/// The stable shape of a failed command's output.
#[derive(Debug, Clone, PartialEq, Eq)]
pub struct CliErrorSnapshot {
    pub status: String,
    pub error_kind: String,
    pub stderr_keys: Vec<String>,
    pub exit_code: i32,
}

/// A string member of a JSON object, or empty when it is missing or not a string.
pub open spec fn member_or_empty(m: Option<Seq<char>>) -> Seq<char> {
    match m {
        Some(v) => v,
        None => Seq::empty(),
    }
}

/// The string value of the first member named `name`, if there is one and its value is a
/// string.
pub open spec fn member_named(ms: Seq<(Seq<char>, Option<Seq<char>>)>, name: Seq<char>) -> Option<Seq<char>>
    decreases ms.len(),
{
    if ms.len() == 0 {
        None
    } else if ms[0].0 == name {
        ms[0].1
    } else {
        member_named(ms.drop_first(), name)
    }
}

/// The keys of a JSON object's members.
pub open spec fn member_keys(ms: Seq<(Seq<char>, Option<Seq<char>>)>) -> Seq<Seq<char>> {
    ms.map_values(|m: (Seq<char>, Option<Seq<char>>)| m.0)
}

/// Whether `r` is the snapshot of `output` when its stdout reads as `top`: the stdout must be
/// a JSON object, whose keys are listed in ascending order, each once, and whose `command` and
/// `status` members are read when they are strings.
pub open spec fn snapshot_of(output: CliOutput, top: JsonTopView, r: Result<CliContractSnapshot, RagasError>) -> bool {
    match top {
        JsonTopView::Invalid(m) => r matches Err(RagasError::Parse { message })
            && message@ == "CLI stdout snapshot parse failed: "@ + m,
        JsonTopView::NotObject => r matches Err(RagasError::Parse { message })
            && message@ == "CLI stdout snapshot expected a machine-readable JSON object"@,
        JsonTopView::Object(members) => r matches Ok(s) && {
            &&& s.command@ == member_or_empty(member_named(members, "command"@))
            &&& s.status@ == member_or_empty(member_named(members, "status"@))
            &&& strictly_sorted(strings_view(s.stdout_keys@))
            &&& forall|k: Seq<char>| #[trigger] strings_view(s.stdout_keys@).contains(k) <==> member_keys(members).contains(k)
            &&& s.stderr_empty == (output.stderr@.len() == 0)
            &&& s.exit_code == output.exit_code
        },
    }
}

/// The string value of the first member named `name`, or the empty string.
fn member_string(members: &Vec<(String, Option<String>)>, name: &str) -> (out: String)
    ensures
        out@ == member_or_empty(member_named(members_view(members@), name@)),
{
    let ghost ms = members_view(members@);
    let mut i: usize = 0;
    assert(ms.skip(0) =~= ms);
    while i < members.len()
        invariant
            ms == members_view(members@),
            i <= members@.len(),
            member_named(ms, name@) == member_named(ms.skip(i as int), name@),
        decreases members@.len() - i,
    {
        let ghost rest = ms.skip(i as int);
        assert(rest[0] == ms[i as int]);
        assert(rest.drop_first() =~= ms.skip(i + 1));
        if str_equal(members[i].0.as_str(), name) {
            return match &members[i].1 {
                Some(v) => v.clone(),
                None => String::new(),
            };
        }
        i = i + 1;
    }
    assert(ms.skip(i as int).len() == 0);
    String::new()
}

/// The stable shape of a successful command's output: its command and status, the keys of its
/// JSON stdout in ascending order, whether stderr is empty, and the exit code.
pub fn cli_contract_snapshot(output: &CliOutput) -> (r: Result<CliContractSnapshot, RagasError>)
    ensures
        snapshot_of(*output, json_top_level(output.stdout@), r),
{
    match read_json_top_level(output.stdout.as_str()) {
        JsonTopLevel::Invalid { message: m } => {
            let mut message = String::new();
            push_str(&mut message, "CLI stdout snapshot parse failed: ");
            push_str(&mut message, m.as_str());
            Err(RagasError::Parse { message })
        },
        JsonTopLevel::NotObject => {
            let mut message = String::new();
            push_str(&mut message, "CLI stdout snapshot expected a machine-readable JSON object");
            Err(RagasError::Parse { message })
        },
        JsonTopLevel::Object { members } => {
            let ghost keys = member_keys(members_view(members@));
            let mut set: StringMap<bool> = StringMap::new();
            let mut i: usize = 0;
            while i < members.len()
                invariant
                    keys == member_keys(members_view(members@)),
                    i <= members@.len(),
                    forall|k: Seq<char>| set@.contains_key(k) <==> keys.take(i as int).contains(k),
                decreases members@.len() - i,
            {
                let ghost before = set@;
                assert(forall|k: Seq<char>| #[trigger] before.contains_key(k) <==> keys.take(i as int).contains(k));
                set.insert(members[i].0.clone(), true);
                assert(keys[i as int] == members@[i as int].0@);
                assert(set@ == before.insert(keys[i as int], true));
                assert forall|k: Seq<char>| set@.contains_key(k) <==> keys.take(i + 1).contains(k) by {
                    assert(before.contains_key(k) <==> keys.take(i as int).contains(k));
                    let t = keys.take(i + 1);
                    assert(t =~= keys.take(i as int).push(keys[i as int]));
                    assert(t[i as int] == keys[i as int]);
                    if keys.take(i as int).contains(k) {
                        let j = choose|j: int| 0 <= j < i && keys.take(i as int)[j] == k;
                        assert(t[j] == k);
                    }
                    if t.contains(k) {
                        let j = choose|j: int| 0 <= j < t.len() && t[j] == k;
                        if j < i {
                            assert(keys.take(i as int)[j] == k);
                        }
                    }
                }
                i = i + 1;
            }
            assert(keys.take(keys.len() as int) =~= keys);
            proof {
                use_type_invariant(&set);
                set.lemma_sorted_keys();
            }
            let stdout_keys = set.keys();
            let snapshot = CliContractSnapshot {
                command: member_string(&members, "command"),
                status: member_string(&members, "status"),
                stdout_keys,
                stderr_empty: crate::text::str_is_empty(output.stderr.as_str()),
                exit_code: output.exit_code,
            };
            assert(strings_view(snapshot.stdout_keys@) == set.sorted_keys());
            Ok(snapshot)
        },
    }
}

/// The machine-readable kind of an error.
pub open spec fn error_kind_of(e: RagasError) -> Seq<char> {
    match e {
        RagasError::EmptyDataset => "empty_dataset"@,
        RagasError::InvalidSample { .. } => "invalid_sample"@,
        RagasError::DatasetIo { .. } => "dataset_io"@,
        RagasError::Provider { .. } => "provider"@,
        RagasError::Parse { .. } => "parse"@,
        RagasError::Prompt { .. } => "prompt"@,
        RagasError::LlmDidNotFinish { .. } => "llm_did_not_finish"@,
    }
}

/// The machine-readable kind of an error.
pub fn cli_error_kind(error: &RagasError) -> (k: &'static str)
    ensures
        k@ == error_kind_of(*error),
{
    match error {
        RagasError::EmptyDataset => "empty_dataset",
        RagasError::InvalidSample { .. } => "invalid_sample",
        RagasError::DatasetIo { .. } => "dataset_io",
        RagasError::Provider { .. } => "provider",
        RagasError::Parse { .. } => "parse",
        RagasError::Prompt { .. } => "prompt",
        RagasError::LlmDidNotFinish { .. } => "llm_did_not_finish",
    }
}

/// The error snapshot of a failed command: status `error`, the error's kind, the keys
/// `error`, `kind` and `status` on stderr, and exit code 1.
pub fn cli_error_snapshot(error: &RagasError) -> (r: Result<CliErrorSnapshot, RagasError>)
    ensures
        r matches Ok(s) && s.status@ == "error"@ && s.error_kind@ == error_kind_of(*error) && strings_view(
            s.stderr_keys@,
        ) == seq!["error"@, "kind"@, "status"@] && s.exit_code == 1,
{
    let mut stderr_keys: Vec<String> = Vec::new();
    stderr_keys.push(to_owned_string("error"));
    stderr_keys.push(to_owned_string("kind"));
    stderr_keys.push(to_owned_string("status"));
    assert(strings_view(stderr_keys@) =~= seq!["error"@, "kind"@, "status"@]);
    Ok(CliErrorSnapshot {
        status: to_owned_string("error"),
        error_kind: to_owned_string(cli_error_kind(error)),
        stderr_keys,
        exit_code: 1,
    })
}

/// The state of a CLI session: the datasets it can read and write, and the reports it wrote.
#[derive(Debug)]
pub struct CliRuntime {
    datasets: InMemoryDatasetBackend,
    reports: StringMap<String>,
}

impl View for CliRuntime {
    type V = (Map<Seq<char>, DatasetContents>, Map<Seq<char>, Seq<char>>);

    closed spec fn view(&self) -> (Map<Seq<char>, DatasetContents>, Map<Seq<char>, Seq<char>>) {
        (self.datasets@, self.reports@.map_values(|r: String| r@))
    }
}

impl CliRuntime {
    /// A session with no datasets and no reports.
    pub fn new() -> (r: Self)
        ensures
            r@.0 == Map::<Seq<char>, DatasetContents>::empty(),
            r@.1 == Map::<Seq<char>, Seq<char>>::empty(),
    {
        let r = CliRuntime { datasets: InMemoryDatasetBackend::new(), reports: StringMap::new() };
        assert(r@.1 =~= Map::<Seq<char>, Seq<char>>::empty());
        r
    }

    /// The session's datasets, for writing; the reports are left as they are.
    pub fn datasets_mut(&mut self) -> (d: &mut InMemoryDatasetBackend)
        ensures
            d@ == old(self)@.0,
            final(self)@ == (final(d)@, old(self)@.1),
    {
        &mut self.datasets
    }

    /// The session's datasets.
    pub fn datasets(&self) -> (d: &InMemoryDatasetBackend)
        ensures
            d@ == self@.0,
    {
        &self.datasets
    }

    /// The report written under `name`, if any.
    pub fn report(&self, name: &str) -> (r: Option<&str>)
        ensures
            match r {
                Some(t) => self@.1.contains_key(name@) && t@ == self@.1[name@],
                None => !self@.1.contains_key(name@),
            },
    {
        match self.reports.get(name) {
            Some(t) => Some(t.as_str()),
            None => None,
        }
    }

    /// Records the report `text` under `name`, replacing an earlier one.
    pub fn store_report(&mut self, name: &str, text: String)
        ensures
            final(self)@ == (old(self)@.0, old(self)@.1.insert(name@, text@)),
    {
        self.reports.insert(to_owned_string(name), text);
        assert(self@.1 =~= old(self)@.1.insert(name@, text@));
    }
}

/// The help text of the `ragas` executable.
pub const CLI_USAGE: &'static str = "ragas \u{2014} RAG/LLM evaluation CLI

USAGE:
    ragas <command> [options]

COMMANDS:
    config                          Print the resolved provider configuration (secrets redacted).
    evaluate --dataset <file.jsonl> Evaluate a JSONL dataset. Runs offline ROUGE-L always, plus the
             [--report <file>]      LLM metrics (faithfulness, context recall) when an API key is
                                    configured. Optionally write the full JSON report to a file.
    testset  --doc <file.txt>       Generate a deterministic single-hop test dataset from a text
             --source-id <id>       document. Optionally write it out as JSONL.
             [--out <file.jsonl>]
    benchmark [--runs <n>]          Run the provider micro-benchmark (default 1 run).
    help                            Show this help.

CONFIGURATION:
    Set OPENAI_API_KEY / OPENAI_BASE_URL / OPENAI_MODEL (and OPENAI_EMBEDDING_* for embeddings)
    in your shell or a .env file (see .env.example). Inspect what is resolved with `ragas config`.
";

/// The value of `--flag <value>` in `args`: the argument after the first occurrence of `name`;
/// absent when `name` does not occur or is the last argument.
pub open spec fn flag_value(args: Seq<Seq<char>>, name: Seq<char>) -> Option<Seq<char>> {
    match first_pos(args, name) {
        Some(i) => if i + 1 < args.len() {
            Some(args[i + 1])
        } else {
            None
        },
        None => None,
    }
}

/// The value of `--flag <value>` in `args`.
pub fn flag(args: &Vec<String>, name: &str) -> (r: Option<String>)
    ensures
        opt_string_view(r) == flag_value(strings_view(args@), name@),
{
    match position_in_row(args, name) {
        Some(i) => if i < args.len() - 1 {
            Some(args[i + 1].clone())
        } else {
            None
        },
        None => None,
    }
}

/// What the executable was asked to do.
#[derive(Debug, Clone, PartialEq, Eq)]
pub enum CliInvocation {
    Help,
    Config,
    Evaluate { dataset: String, report: Option<String> },
    Testset { doc: String, source_id: String, out: Option<String> },
    Benchmark { runs: usize },
}

/// Whether `c` is an ASCII digit.
pub open spec fn is_digit(c: char) -> bool {
    '0' <= c <= '9'
}

/// The decimal value of a string of digits.
pub open spec fn digits_value(d: Seq<char>) -> nat
    decreases d.len(),
{
    if d.len() == 0 {
        0
    } else {
        digits_value(d.drop_last()) * 10 + ((d.last() as u32 - '0' as u32) as nat)
    }
}

/// The digits of an unsigned number's text: without a leading `+`.
pub open spec fn unsigned_digits(s: Seq<char>) -> Seq<char> {
    if s.len() > 0 && s[0] == '+' {
        s.drop_first()
    } else {
        s
    }
}

/// The `usize` that a text denotes (`str::parse::<usize>`): an optional `+` then one or more
/// ASCII digits whose value fits.
pub open spec fn parsed_usize(s: Seq<char>) -> Option<usize> {
    let d = unsigned_digits(s);
    if d.len() > 0 && (forall|i: int| 0 <= i < d.len() ==> is_digit(#[trigger] d[i])) && digits_value(d)
        <= usize::MAX {
        Some(digits_value(d) as usize)
    } else {
        None
    }
}

proof fn lemma_digits_value_grows(d: Seq<char>, i: int)
    requires
        0 <= i <= d.len(),
        forall|k: int| 0 <= k < d.len() ==> is_digit(#[trigger] d[k]),
    ensures
        digits_value(d.take(i)) <= digits_value(d),
    decreases d.len() - i,
{
    if i < d.len() {
        lemma_digits_value_grows(d, i + 1);
        assert(d.take(i + 1).drop_last() =~= d.take(i));
    } else {
        assert(d.take(i) =~= d);
    }
}

/// The `usize` that a text denotes, if any.
pub fn parse_usize(s: &str) -> (r: Option<usize>)
    ensures
        r == parsed_usize(s@),
{
    let chars = chars_of(s);
    let start: usize = if chars.len() > 0 && chars[0] == '+' { 1 } else { 0 };
    let ghost d = unsigned_digits(s@);
    assert(d =~= chars@.skip(start as int));
    if start >= chars.len() {
        return None;
    }
    let mut value: usize = 0;
    let mut i: usize = start;
    while i < chars.len()
        invariant
            start <= i <= chars@.len(),
            d == chars@.skip(start as int),
            d == unsigned_digits(s@),
            forall|k: int| 0 <= k < i - start ==> is_digit(#[trigger] d[k]),
            value == digits_value(d.take(i - start)),
        decreases chars@.len() - i,
    {
        let c = chars[i];
        assert(d[i - start] == c);
        if !('0' <= c && c <= '9') {
            assert(!is_digit(d[i - start]));
            return None;
        }
        assert(d.take(i - start + 1).drop_last() =~= d.take(i - start));
        assert(d.take(i - start + 1).last() == c);
        let digit = (c as u32 - '0' as u32) as usize;
        let next = match value.checked_mul(10) {
            Some(v) => v.checked_add(digit),
            None => None,
        };
        match next {
            Some(v) => {
                value = v;
            },
            None => {
                proof {
                    assert(digits_value(d.take(i - start + 1)) > usize::MAX);
                    if forall|k: int| 0 <= k < d.len() ==> is_digit(#[trigger] d[k]) {
                        lemma_digits_value_grows(d, i - start + 1);
                    }
                }
                return None;
            },
        }
        i = i + 1;
    }
    assert(d.take(i - start) =~= d);
    Some(value)
}

/// Whether an argument asks for help.
pub open spec fn is_help(a: Seq<char>) -> bool {
    a == "help"@ || a == "-h"@ || a == "--help"@
}

/// Whether `r` is what the executable does with `args` (the arguments after the program
/// name): help for no arguments or a help flag; `config`; `evaluate` with `--dataset` (required)
/// and `--report`; `testset` with `--doc` and `--source-id` (both required) and `--out`;
/// `benchmark` with `--runs` (a number, 1 when absent); any other command is refused.
pub open spec fn planned(args: Seq<Seq<char>>, r: Result<CliInvocation, String>) -> bool {
    if args.len() == 0 || is_help(args[0]) {
        r == Ok::<CliInvocation, String>(CliInvocation::Help)
    } else {
        let rest = args.drop_first();
        if args[0] == "config"@ {
            r == Ok::<CliInvocation, String>(CliInvocation::Config)
        } else if args[0] == "evaluate"@ {
            match flag_value(rest, "--dataset"@) {
                None => r matches Err(m) && m@ == "evaluate requires --dataset <file.jsonl>"@,
                Some(d) => r matches Ok(CliInvocation::Evaluate { dataset, report }) && dataset@ == d
                    && opt_string_view(report) == flag_value(rest, "--report"@),
            }
        } else if args[0] == "testset"@ {
            match (flag_value(rest, "--doc"@), flag_value(rest, "--source-id"@)) {
                (None, _) => r matches Err(m) && m@ == "testset requires --doc <file.txt>"@,
                (Some(_), None) => r matches Err(m) && m@ == "testset requires --source-id <id>"@,
                (Some(d), Some(id)) => r matches Ok(CliInvocation::Testset { doc, source_id, out })
                    && doc@ == d && source_id@ == id && opt_string_view(out) == flag_value(rest, "--out"@),
            }
        } else if args[0] == "benchmark"@ {
            match flag_value(rest, "--runs"@) {
                None => r == Ok::<CliInvocation, String>(CliInvocation::Benchmark { runs: 1 }),
                Some(v) => match parsed_usize(v) {
                    Some(n) => r == Ok::<CliInvocation, String>(CliInvocation::Benchmark { runs: n }),
                    None => r matches Err(m) && m@ == "--runs must be a non-negative number, got '"@ + v
                        + "'"@,
                },
            }
        } else {
            r matches Err(m) && m@ == "unknown command '"@ + args[0] + "'. Run `ragas help`."@
        }
    }
}

/// What the executable does with its arguments (those after the program name).
pub fn plan_cli(args: &Vec<String>) -> (r: Result<CliInvocation, String>)
    ensures
        planned(strings_view(args@), r),
{
    let ghost sv = strings_view(args@);
    if args.len() == 0 {
        return Ok(CliInvocation::Help);
    }
    let first = args[0].as_str();
    if str_equal(first, "help") || str_equal(first, "-h") || str_equal(first, "--help") {
        return Ok(CliInvocation::Help);
    }
    let mut rest: Vec<String> = Vec::new();
    let mut i: usize = 1;
    while i < args.len()
        invariant
            1 <= i <= args@.len(),
            sv == strings_view(args@),
            strings_view(rest@) == sv.subrange(1, i as int),
        decreases args@.len() - i,
    {
        let ghost before = strings_view(rest@);
        rest.push(args[i].clone());
        assert(strings_view(rest@) =~= before.push(args@[i as int]@));
        assert(sv.subrange(1, i + 1) =~= sv.subrange(1, i as int).push(sv[i as int]));
        i = i + 1;
    }
    assert(strings_view(rest@) =~= sv.drop_first());
    if str_equal(first, "config") {
        Ok(CliInvocation::Config)
    } else if str_equal(first, "evaluate") {
        match flag(&rest, "--dataset") {
            None => Err(to_owned_string("evaluate requires --dataset <file.jsonl>")),
            Some(dataset) => Ok(CliInvocation::Evaluate { dataset, report: flag(&rest, "--report") }),
        }
    } else if str_equal(first, "testset") {
        match flag(&rest, "--doc") {
            None => Err(to_owned_string("testset requires --doc <file.txt>")),
            Some(doc) => match flag(&rest, "--source-id") {
                None => Err(to_owned_string("testset requires --source-id <id>")),
                Some(source_id) => Ok(CliInvocation::Testset { doc, source_id, out: flag(&rest, "--out") }),
            },
        }
    } else if str_equal(first, "benchmark") {
        match flag(&rest, "--runs") {
            None => Ok(CliInvocation::Benchmark { runs: 1 }),
            Some(value) => match parse_usize(value.as_str()) {
                Some(runs) => Ok(CliInvocation::Benchmark { runs }),
                None => {
                    let mut m = to_owned_string("--runs must be a non-negative number, got '");
                    push_str(&mut m, value.as_str());
                    push_str(&mut m, "'");
                    Err(m)
                },
            },
        }
    } else {
        let mut m = to_owned_string("unknown command '");
        push_str(&mut m, first);
        push_str(&mut m, "'. Run `ragas help`.");
        Err(m)
    }
}

/// The text of the `config` command: the redacted configuration, then whether LLM features
/// run live.
pub open spec fn config_report_text(summary: Seq<char>, has_key: bool) -> Seq<char> {
    "Resolved ragas provider configuration (env > .env > default):\n\n"@ + summary + "\n"@ + if has_key {
        "\n[ok] chat API key set \u{2014} LLM metrics and testset run live."@
    } else {
        "\n[--] no chat API key \u{2014} LLM features stay offline. Set OPENAI_API_KEY or use a .env file."@
    }
}

/// The output of the `config` command for a resolved configuration.
pub fn config_report(config: &ProviderConfig) -> (s: String)
    ensures
        s@ == config_report_text(config.redacted_summary_text(), config.api_key is Some),
{
    let mut out = to_owned_string("Resolved ragas provider configuration (env > .env > default):\n\n");
    let summary = config.redacted_summary();
    push_str(&mut out, summary.as_str());
    push_str(&mut out, "\n");
    if config.has_api_key() {
        push_str(&mut out, "\n[ok] chat API key set \u{2014} LLM metrics and testset run live.");
    } else {
        push_str(
            &mut out,
            "\n[--] no chat API key \u{2014} LLM features stay offline. Set OPENAI_API_KEY or use a .env file.",
        );
    }
    out
}

} // verus!

//! Datasets as CSV: reading single-turn samples from CSV text with named columns, and writing a
//! dataset of single-turn samples as CSV.
use vstd::prelude::*;

use crate::backends::{
    not_found, not_found_message, lists_keys_of, CsvDatasetBackend, DatasetBackend, all_single_turn, first_pos, metadata_column, nonempty_value, position_in_row, rows_view, single_turn_parts,
};
use crate::codec::{
    csv_read, csv_text, decode_string_list, encode_string_list, json_string_list, json_string_list_parse,
    read_csv_records, write_csv_records, CsvWriteFailure,
};
use crate::dataset::{
    build_error_ok, is_invalid_sample_error, EvaluationSample, EvaluationSampleView, lemma_problem_view, metadata_view, strings_view,
    view_problem, EvaluationDataset, SingleTurnSample, SingleTurnView,
};
use crate::error::RagasError;
use crate::overlap::views;
use crate::rag::{trimmed_nonempty, trimmed_pieces};
use crate::string_map::{strictly_sorted, StringMap};
use crate::text::{
    chars_of, decimal, pieces, push_decimal, push_decimal_wide, push_str, starts_with_chars,
    string_of, str_is_empty, string_of_range, to_owned_string, trim, trim_str, CharClass,
};

verus! {

/// The cell of a record at `index`, trimmed; empty when the record is shorter.
pub open spec fn csv_cell(rec: Seq<Seq<char>>, index: int) -> Seq<char> {
    if 0 <= index < rec.len() {
        trim(rec[index])
    } else {
        Seq::empty()
    }
}

/// The retrieved contexts written in a (trimmed, non-empty) cell: a JSON list of strings when
/// the cell starts with `[`, else the `|`-separated parts, trimmed, empty ones dropped.
pub open spec fn csv_contexts(v: Seq<char>) -> Option<Seq<Seq<char>>> {
    if v.len() > 0 && v[0] == '[' {
        json_string_list_parse(v)
    } else {
        Some(trimmed_nonempty(pieces(v, CharClass::Pipe)))
    }
}

/// The metadata of a record from the first `n` columns: each `metadata.<key>` column with a
/// non-empty key and a non-empty (trimmed) cell sets `key`; a later column wins.
pub open spec fn csv_metadata(hs: Seq<Seq<char>>, rec: Seq<Seq<char>>, n: int) -> Map<Seq<char>, Seq<char>>
    decreases n,
{
    if n <= 0 {
        Map::empty()
    } else {
        let m = csv_metadata(hs, rec, n - 1);
        let h = hs[n - 1];
        if h.len() > 9 && h.take(9) == "metadata."@ && csv_cell(rec, n - 1).len() > 0 {
            m.insert(h.skip(9), csv_cell(rec, n - 1))
        } else {
            m
        }
    }
}

/// Why a data record does not give a sample.
pub enum CsvRowFault {
    /// A required cell is empty.
    MissingValue(Seq<char>),
    /// The retrieved contexts start with `[` but are not a JSON list of strings.
    ContextsJson,
}

/// The column of a header, given that it exists.
pub open spec fn column(hs: Seq<Seq<char>>, name: Seq<char>) -> int {
    match first_pos(hs, name) {
        Some(p) => p,
        None => -1,
    }
}

/// The sample of a data record, given the header: `user_input`, `response` and
/// `retrieved_contexts` are required (in that order), `reference` and `metadata.*` columns are
/// optional.
pub open spec fn csv_row(hs: Seq<Seq<char>>, rec: Seq<Seq<char>>) -> Result<SingleTurnView, CsvRowFault> {
    let u = csv_cell(rec, column(hs, "user_input"@));
    let r = csv_cell(rec, column(hs, "response"@));
    let c = csv_cell(rec, column(hs, "retrieved_contexts"@));
    if u.len() == 0 {
        Err(CsvRowFault::MissingValue("user_input"@))
    } else if r.len() == 0 {
        Err(CsvRowFault::MissingValue("response"@))
    } else if c.len() == 0 {
        Err(CsvRowFault::MissingValue("retrieved_contexts"@))
    } else {
        match csv_contexts(c) {
            None => Err(CsvRowFault::ContextsJson),
            Some(cs) => Ok(
                SingleTurnView {
                    user_input: u,
                    response: r,
                    retrieved_contexts: cs,
                    reference: match first_pos(hs, "reference"@) {
                        Some(p) => nonempty_value(Some(csv_cell(rec, p))),
                        None => None,
                    },
                    reference_contexts: Seq::empty(),
                    retrieved_context_ids: Seq::empty(),
                    reference_context_ids: Seq::empty(),
                    metadata: csv_metadata(hs, rec, hs.len() as int),
                },
            ),
        }
    }
}

/// Whether a data record gives a valid sample.
pub open spec fn row_accepted(hs: Seq<Seq<char>>, rec: Seq<Seq<char>>) -> bool {
    csv_row(hs, rec) matches Ok(v) && view_problem(v) is None
}

/// Whether `m` begins with `prefix`.
pub open spec fn starts_with(m: Seq<char>, prefix: Seq<char>) -> bool {
    m.len() >= prefix.len() && m.take(prefix.len() as int) == prefix
}

/// The error for the data record `rec` at position `k` (the header is at 0), which is not
/// accepted: the row number in messages is `k + 1`, the sample index `k - 1`.
pub open spec fn row_error(hs: Seq<Seq<char>>, rec: Seq<Seq<char>>, k: int, e: RagasError) -> bool {
    match csv_row(hs, rec) {
        Err(CsvRowFault::MissingValue(f)) => e matches RagasError::DatasetIo { message } && message@
            == "CSV row "@ + decimal((k + 1) as nat) + " missing required value: "@ + f,
        Err(CsvRowFault::ContextsJson) => e matches RagasError::DatasetIo { message } && starts_with(
            message@,
            "CSV row "@ + decimal((k + 1) as nat) + " retrieved_contexts JSON parse failed: "@,
        ),
        Ok(v) => view_problem(v) matches Some(p) && is_invalid_sample_error(e, k - 1, p),
    }
}

/// The first required column missing from a header, if any.
pub open spec fn missing_column(hs: Seq<Seq<char>>) -> Option<Seq<char>> {
    if first_pos(hs, "user_input"@) is None {
        Some("user_input"@)
    } else if first_pos(hs, "response"@) is None {
        Some("response"@)
    } else if first_pos(hs, "retrieved_contexts"@) is None {
        Some("retrieved_contexts"@)
    } else {
        None
    }
}

/// The header of the records (empty when there are none).
pub open spec fn csv_header(recs: Seq<Seq<Seq<char>>>) -> Seq<Seq<char>> {
    if recs.len() == 0 {
        Seq::empty()
    } else {
        recs[0]
    }
}

/// Whether every data record is accepted.
pub open spec fn all_rows_accepted(recs: Seq<Seq<Seq<char>>>) -> bool {
    forall|k: int| 1 <= k < recs.len() ==> row_accepted(recs[0], #[trigger] recs[k])
}

/// The samples of the data records.
pub open spec fn csv_samples(recs: Seq<Seq<Seq<char>>>) -> Seq<SingleTurnView> {
    Seq::new((recs.len() - 1) as nat, |k: int| csv_row(recs[0], recs[k + 1])->Ok_0)
}

/// Whether reading `text` as a dataset succeeds: the reader reads every record, the header has
/// the required columns, there is at least one data record, and every data record is accepted.
pub open spec fn csv_imports(text: Seq<char>) -> bool {
    let recs = csv_read(text, true, false).0;
    &&& !csv_read(text, true, false).1
    &&& recs.len() > 1
    &&& missing_column(recs[0]) is None
    &&& all_rows_accepted(recs)
}

/// Why reading `text` as a dataset fails with `e`, checking in the order the reader meets the
/// problems: the header does not parse; a required column is missing; the first data record that
/// is not accepted; a record after the last good one does not parse; no data record.
pub open spec fn csv_import_error(text: Seq<char>, e: RagasError) -> bool {
    let recs = csv_read(text, true, false).0;
    let failed = csv_read(text, true, false).1;
    let hs = csv_header(recs);
    ||| recs.len() == 0 && failed && (e matches RagasError::DatasetIo { message } && starts_with(
        message@,
        "CSV header parse failed: "@,
    ))
    ||| !(recs.len() == 0 && failed) && (missing_column(hs) matches Some(c) && (e matches RagasError::DatasetIo {
        message,
    } && message@ == "CSV missing required column: "@ + c))
    ||| recs.len() > 0 && missing_column(hs) is None && exists|k: int|
        #![trigger recs[k]]
        {
            &&& 1 <= k < recs.len()
            &&& forall|j: int| 1 <= j < k ==> row_accepted(hs, #[trigger] recs[j])
            &&& !row_accepted(hs, recs[k])
            &&& row_error(hs, recs[k], k, e)
        }
    ||| recs.len() > 0 && missing_column(hs) is None && all_rows_accepted(recs) && failed
        && (e matches RagasError::DatasetIo { message } && starts_with(
        message@,
        "CSV row "@ + decimal((recs.len() + 1) as nat) + " parse failed: "@,
    ))
    ||| recs.len() > 0 && missing_column(hs) is None && all_rows_accepted(recs) && !failed && recs.len()
        == 1 && e == RagasError::EmptyDataset
}

fn required_header(headers: &Vec<String>, name: &str) -> (r: Result<usize, RagasError>)
    ensures
        match r {
            Ok(p) => p < headers@.len() && first_pos(strings_view(headers@), name@) == Some(p as int),
            Err(e) => first_pos(strings_view(headers@), name@) is None && (e matches RagasError::DatasetIo {
                message,
            } && message@ == "CSV missing required column: "@ + name@),
        },
{
    match position_in_row(headers, name) {
        Some(p) => Ok(p),
        None => {
            let mut message = to_owned_string("CSV missing required column: ");
            push_str(&mut message, name);
            Err(RagasError::DatasetIo { message })
        },
    }
}

fn cell_value(rec: &Vec<String>, index: usize) -> (s: String)
    ensures
        s@ == csv_cell(strings_view(rec@), index as int),
{
    if index < rec.len() {
        trim_str(rec[index].as_str())
    } else {
        String::new()
    }
}

fn missing_value(row_number: usize, field: &str) -> (e: RagasError)
    ensures
        e matches RagasError::DatasetIo { message } && message@ == "CSV row "@ + decimal(row_number as nat)
            + " missing required value: "@ + field@,
{
    let mut message = to_owned_string("CSV row ");
    push_decimal(&mut message, row_number);
    push_str(&mut message, " missing required value: ");
    push_str(&mut message, field);
    RagasError::DatasetIo { message }
}

fn parse_contexts(value: &String, row_number: usize) -> (r: Result<Vec<String>, RagasError>)
    requires
        value@.len() > 0,
    ensures
        match r {
            Ok(v) => csv_contexts(value@) == Some(strings_view(v@)),
            Err(e) => csv_contexts(value@) is None && (e matches RagasError::DatasetIo { message } && starts_with(
                message@,
                "CSV row "@ + decimal(row_number as nat) + " retrieved_contexts JSON parse failed: "@,
            )),
        },
{
    let cs = chars_of(value.as_str());
    if cs[0] == '[' {
        match decode_string_list(value.as_str()) {
            Ok(v) => Ok(v),
            Err(msg) => {
                let mut message = to_owned_string("CSV row ");
                push_decimal(&mut message, row_number);
                push_str(&mut message, " retrieved_contexts JSON parse failed: ");
                let ghost prefix = message@;
                push_str(&mut message, msg.as_str());
                assert(message@.take(prefix.len() as int) =~= prefix);
                Err(RagasError::DatasetIo { message })
            },
        }
    } else {
        let parts = trimmed_pieces(&cs, CharClass::Pipe);
        let mut out: Vec<String> = Vec::new();
        let mut i: usize = 0;
        while i < parts.len()
            invariant
                i <= parts@.len(),
                strings_view(out@) == views(parts@).take(i as int),
            decreases parts@.len() - i,
        {
            let ghost before = strings_view(out@);
            out.push(string_of(&parts[i]));
            assert(strings_view(out@) =~= before.push(parts@[i as int]@));
            assert(views(parts@).take(i + 1) =~= views(parts@).take(i as int).push(parts@[i as int]@));
            i = i + 1;
        }
        assert(views(parts@).take(parts@.len() as int) =~= views(parts@));
        Ok(out)
    }
}

/// The sample of one data record, or why there is none.
fn row_sample(
    headers: &Vec<String>,
    rec: &Vec<String>,
    columns: (usize, usize, usize),
    reference: Option<usize>,
    row_number: usize,
) -> (r: Result<SingleTurnSample, RagasError>)
    requires
        columns.0 as int == column(strings_view(headers@), "user_input"@),
        columns.1 as int == column(strings_view(headers@), "response"@),
        columns.2 as int == column(strings_view(headers@), "retrieved_contexts"@),
        match reference {
            Some(p) => first_pos(strings_view(headers@), "reference"@) == Some(p as int),
            None => first_pos(strings_view(headers@), "reference"@) is None,
        },
    ensures
        match r {
            Ok(s) => csv_row(strings_view(headers@), strings_view(rec@)) == Ok::<SingleTurnView, CsvRowFault>(s@),
            Err(e) => csv_row(strings_view(headers@), strings_view(rec@)) is Err && (match csv_row(
                strings_view(headers@),
                strings_view(rec@),
            ) {
                Err(CsvRowFault::MissingValue(f)) => e matches RagasError::DatasetIo { message } && message@
                    == "CSV row "@ + decimal(row_number as nat) + " missing required value: "@ + f,
                Err(CsvRowFault::ContextsJson) => e matches RagasError::DatasetIo { message } && starts_with(
                    message@,
                    "CSV row "@ + decimal(row_number as nat) + " retrieved_contexts JSON parse failed: "@,
                ),
                Ok(_) => false,
            }),
        },
{
    let ghost hv = strings_view(headers@);
    let ghost rv = strings_view(rec@);
    let user_input = cell_value(rec, columns.0);
    if str_is_empty(user_input.as_str()) {
        return Err(missing_value(row_number, "user_input"));
    }
    let response = cell_value(rec, columns.1);
    if str_is_empty(response.as_str()) {
        return Err(missing_value(row_number, "response"));
    }
    let contexts_cell = cell_value(rec, columns.2);
    if str_is_empty(contexts_cell.as_str()) {
        return Err(missing_value(row_number, "retrieved_contexts"));
    }
    let contexts = parse_contexts(&contexts_cell, row_number)?;
    let mut sample = SingleTurnSample::new(user_input.as_str(), response.as_str(), contexts);
    match reference {
        Some(p) => {
            let v = cell_value(rec, p);
            if !str_is_empty(v.as_str()) {
                sample = sample.with_reference(v.as_str());
            }
        },
        None => {},
    }
    proof {
        reveal_strlit("metadata.");
    }
    let mut j: usize = 0;
    assert(metadata_view(sample.metadata@) =~= csv_metadata(hv, rv, 0));
    while j < headers.len()
        invariant
            hv == strings_view(headers@),
            rv == strings_view(rec@),
            j <= headers@.len(),
            "metadata."@.len() == 9,
            sample.user_input@ == csv_cell(rv, column(hv, "user_input"@)),
            sample.response@ == csv_cell(rv, column(hv, "response"@)),
            csv_contexts(csv_cell(rv, column(hv, "retrieved_contexts"@))) == Some(strings_view(sample.retrieved_contexts@)),
            opt_view(sample.reference) == match first_pos(hv, "reference"@) {
                Some(p) => nonempty_value(Some(csv_cell(rv, p))),
                None => None,
            },
            sample.reference_contexts@.len() == 0,
            sample.retrieved_context_ids@.len() == 0,
            sample.reference_context_ids@.len() == 0,
            metadata_view(sample.metadata@) == csv_metadata(hv, rv, j as int),
        decreases headers@.len() - j,
    {
        let h = &headers[j];
        let hc = chars_of(h.as_str());
        let pre = chars_of("metadata.");
        assert(hv[j as int] == h@);
        let v = cell_value(rec, j);
        if hc.len() > 9 && starts_with_chars(&hc, &pre) && !str_is_empty(v.as_str()) {
            let key = string_of_range(&hc, 9, hc.len());
            assert(h@.take(9) =~= hc@.subrange(0, 9));
            assert(key@ =~= h@.skip(9));
            let ghost before = sample.metadata@;
            sample = sample.with_metadata(key.as_str(), v.as_str());
            assert(metadata_view(sample.metadata@) =~= metadata_view(before).insert(key@, v@));
        } else {
            proof {
                if h@.len() > 9 && h@.take(9) == "metadata."@ {
                    assert(hc@.subrange(0, 9) =~= h@.take(9));
                }
            }
        }
        j = j + 1;
    }
    proof {
        assert(sample@.reference_contexts =~= Seq::<Seq<char>>::empty());
        assert(sample@.retrieved_context_ids =~= Seq::<Seq<char>>::empty());
        assert(sample@.reference_context_ids =~= Seq::<Seq<char>>::empty());
    }
    Ok(sample)
}

/// The contents of an optional string.
pub open spec fn opt_view(o: Option<String>) -> Option<Seq<char>> {
    crate::dataset::opt_string_view(o)
}

impl EvaluationDataset<SingleTurnSample> {
    /// Reads a dataset of single-turn samples from CSV text whose first record names the
    /// columns (fields are trimmed). Each data record gives one sample (see `csv_row`) that is
    /// validated as it is read; the dataset is then built as `new` builds it.
    pub fn from_csv_str(input: &str) -> (r: Result<Self, RagasError>)
        ensures
            match r {
                Ok(d) => csv_imports(input@) && d.samples_view().map_values(|s: SingleTurnSample| s@)
                    == csv_samples(csv_read(input@, true, false).0) && d.metadata_view().is_empty(),
                Err(e) => csv_import_error(input@, e),
            },
    {
        let (records, failure) = read_csv_records(input, true, false);
        let ghost recs = rows_view(records@);
        let ghost failed = failure is Some;
        assert(recs == csv_read(input@, true, false).0);
        if records.len() == 0 {
            match failure {
                Some(msg) => {
                    let mut message = to_owned_string("CSV header parse failed: ");
                    let ghost prefix = message@;
                    push_str(&mut message, msg.as_str());
                    proof {
                        reveal_strlit("CSV header parse failed: ");
                        assert(message@.take(prefix.len() as int) =~= prefix);
                    }
                    return Err(RagasError::DatasetIo { message });
                },
                None => {},
            }
        }
        let empty: Vec<String> = Vec::new();
        let headers: &Vec<String> = if records.len() > 0 {
            &records[0]
        } else {
            &empty
        };
        let ghost hv = strings_view(headers@);
        assert(hv == csv_header(recs)) by {
            if records@.len() > 0 {
                assert(recs[0] == strings_view(records@[0]@));
            } else {
                assert(hv =~= Seq::<Seq<char>>::empty());
            }
        }
        let ui = required_header(headers, "user_input")?;
        let ri = required_header(headers, "response")?;
        let ci = required_header(headers, "retrieved_contexts")?;
        let reference = position_in_row(headers, "reference");
        assert(records@.len() > 0);
        let mut samples: Vec<SingleTurnSample> = Vec::new();
        let mut k: usize = 1;
        while k < records.len()
            invariant
                recs == rows_view(records@),
                recs == csv_read(input@, true, false).0,
                failed == csv_read(input@, true, false).1,
                records@.len() > 0,
                hv == recs[0],
                hv == strings_view(headers@),
                missing_column(hv) is None,
                ui as int == column(hv, "user_input"@),
                ri as int == column(hv, "response"@),
                ci as int == column(hv, "retrieved_contexts"@),
                match reference {
                    Some(p) => first_pos(hv, "reference"@) == Some(p as int),
                    None => first_pos(hv, "reference"@) is None,
                },
                1 <= k <= records@.len(),
                samples@.len() == k - 1,
                forall|j: int| 1 <= j < k ==> row_accepted(hv, #[trigger] recs[j]),
                forall|j: int| 0 <= j < k - 1 ==> csv_row(hv, recs[j + 1]) == Ok::<SingleTurnView, CsvRowFault>((#[trigger] samples@[j])@),
            decreases records@.len() - k,
        {
            assert(recs[k as int] == strings_view(records@[k as int]@));
            match row_sample(headers, &records[k], (ui, ri, ci), reference, k + 1) {
                Ok(s) => {
                    proof {
                        lemma_problem_view(s);
                    }
                    match crate::dataset::validate_sample(k - 1, &s) {
                        Ok(()) => {},
                        Err(e) => {
                            assert(row_error(hv, recs[k as int], k as int, e));
                            assert(csv_import_error(input@, e)) by {
                                assert(recs[k as int] == recs[k as int]);
                            }
                            return Err(e);
                        },
                    }
                    samples.push(s);
                },
                Err(e) => {
                    assert(row_error(hv, recs[k as int], k as int, e));
                    assert(csv_import_error(input@, e)) by {
                        assert(recs[k as int] == recs[k as int]);
                    }
                    return Err(e);
                },
            }
            k = k + 1;
        }
        match failure {
            Some(msg) => {
                let mut message = to_owned_string("CSV row ");
                push_decimal_wide(&mut message, records.len() as u128 + 1);
                push_str(&mut message, " parse failed: ");
                let ghost prefix = message@;
                push_str(&mut message, msg.as_str());
                assert(message@.take(prefix.len() as int) =~= prefix);
                return Err(RagasError::DatasetIo { message });
            },
            None => {},
        }
        let ghost sv = samples@;
        let r = EvaluationDataset::<SingleTurnSample>::new(samples);
        proof {
            let want = csv_samples(recs);
            assert forall|j: int| 0 <= j < sv.len() implies (#[trigger] sv[j])@ == want[j] by {
                assert(csv_row(hv, recs[j + 1]) == Ok::<SingleTurnView, CsvRowFault>(sv[j]@));
            }
            match &r {
                Ok(d) => {
                    assert(d.samples_view().map_values(|s: SingleTurnSample| s@) =~= want);
                },
                Err(e) => {
                    assert(sv.len() == 0) by {
                        if sv.len() > 0 {
                            let w = choose|w: int| #![trigger sv[w]] 0 <= w < sv.len()
                                && (forall|j: int| 0 <= j < w ==> crate::dataset::sample_problem(#[trigger] sv[j]) is None)
                                && (crate::dataset::sample_problem(sv[w]) matches Some(p)
                                && is_invalid_sample_error(*e, w, p));
                            lemma_problem_view(sv[w]);
                            assert(row_accepted(hv, recs[w + 1]));
                        }
                    }
                    assert(*e == RagasError::EmptyDataset);
                },
            }
        }
        r
    }
}

/// The metadata keys that occur in samples.
pub open spec fn csv_metadata_keys(ss: Seq<SingleTurnView>) -> Set<Seq<char>>
    decreases ss.len(),
{
    if ss.len() == 0 {
        Set::empty()
    } else {
        csv_metadata_keys(ss.drop_last()).union(ss.last().metadata.dom())
    }
}

/// The header that the CSV of a dataset starts with: the four fixed columns, then
/// `metadata.<key>` for each metadata key.
pub open spec fn csv_out_header(keys: Seq<Seq<char>>) -> Seq<Seq<char>> {
    seq!["user_input"@, "response"@, "retrieved_contexts"@, "reference"@] + keys.map_values(
        |k: Seq<char>| "metadata."@ + k,
    )
}

/// The record of a sample: its fields, the retrieved contexts as a JSON list, an absent
/// reference as the empty string, and its value for each metadata key (empty when it has none).
pub open spec fn csv_out_record(s: SingleTurnView, keys: Seq<Seq<char>>) -> Seq<Seq<char>> {
    seq![
        s.user_input,
        s.response,
        json_string_list(s.retrieved_contexts),
        match s.reference {
            Some(r) => r,
            None => Seq::empty(),
        },
    ] + keys.map_values(
        |k: Seq<char>|
            if s.metadata.contains_key(k) {
                s.metadata[k]
            } else {
                Seq::empty()
            },
    )
}

/// The records of the CSV of samples under the given metadata keys.
pub open spec fn csv_out_table(ss: Seq<SingleTurnView>, keys: Seq<Seq<char>>) -> Seq<Seq<Seq<char>>> {
    seq![csv_out_header(keys)] + ss.map_values(|s: SingleTurnView| csv_out_record(s, keys))
}

/// The errors of a CSV writer that fails.
pub open spec fn csv_write_error(e: RagasError) -> bool {
    e matches RagasError::DatasetIo { message } && (starts_with(message@, "CSV header write failed: "@)
        || starts_with(message@, "CSV row write failed: "@) || starts_with(
        message@,
        "CSV writer finalize failed: "@,
    ) || starts_with(message@, "CSV writer emitted invalid UTF-8: "@))
}

fn write_failure(f: CsvWriteFailure) -> (e: RagasError)
    ensures
        csv_write_error(e),
{
    let mut message = match &f {
        CsvWriteFailure::Record { index, .. } => if *index == 0 {
            to_owned_string("CSV header write failed: ")
        } else {
            to_owned_string("CSV row write failed: ")
        },
        CsvWriteFailure::Finalize { .. } => to_owned_string("CSV writer finalize failed: "),
        CsvWriteFailure::Utf8 { .. } => to_owned_string("CSV writer emitted invalid UTF-8: "),
    };
    let ghost prefix = message@;
    let detail = match &f {
        CsvWriteFailure::Record { message, .. } => message,
        CsvWriteFailure::Finalize { message } => message,
        CsvWriteFailure::Utf8 { message } => message,
    };
    push_str(&mut message, detail.as_str());
    assert(message@.take(prefix.len() as int) =~= prefix);
    RagasError::DatasetIo { message }
}

fn csv_record(s: &SingleTurnSample, keys: &Vec<String>) -> (out: Vec<String>)
    ensures
        strings_view(out@) == csv_out_record(s@, strings_view(keys@)),
        crate::codec::json_list_round_trips(s@.retrieved_contexts),
{
    let mut out: Vec<String> = Vec::new();
    out.push(s.user_input.clone());
    out.push(s.response.clone());
    out.push(encode_string_list(&s.retrieved_contexts));
    out.push(
        match &s.reference {
            Some(r) => r.clone(),
            None => String::new(),
        },
    );
    let ghost kv = strings_view(keys@);
    let ghost fixed = strings_view(out@);
    let mut i: usize = 0;
    while i < keys.len()
        invariant
            kv == strings_view(keys@),
            i <= keys@.len(),
            fixed.len() == 4,
            strings_view(out@) == fixed + kv.take(i as int).map_values(
                |k: Seq<char>|
                    if s@.metadata.contains_key(k) {
                        s@.metadata[k]
                    } else {
                        Seq::empty()
                    },
            ),
        decreases keys@.len() - i,
    {
        let ghost before = strings_view(out@);
        let v = match s.metadata.get(keys[i].as_str()) {
            Some(v) => v.clone(),
            None => String::new(),
        };
        out.push(v);
        assert(strings_view(out@) =~= before.push(v@));
        assert(kv.take(i + 1) =~= kv.take(i as int).push(kv[i as int]));
        assert(strings_view(out@) =~= fixed + kv.take(i + 1).map_values(
            |k: Seq<char>|
                if s@.metadata.contains_key(k) {
                    s@.metadata[k]
                } else {
                    Seq::empty()
                },
        ));
        i = i + 1;
    }
    assert(kv.take(keys@.len() as int) =~= kv);
    out
}

/// The CSV text of a dataset whose samples are all single-turn: the header `csv_out_header`
/// over the metadata keys in ascending order, then one record per sample. A dataset with a
/// multi-turn sample is refused; any other is written. The retrieved contexts of each sample
/// are written as JSON that reads back as the same list, and the text reads back as the
/// records it was written from when they are `csv_reads_back`.
pub fn dataset_to_csv_string(dataset: &EvaluationDataset<EvaluationSample>) -> (r: Result<String, RagasError>)
    ensures
        match r {
            Ok(text) => all_single_turn(dataset@.0) && exists|keys: Seq<Seq<char>>|
                #![trigger csv_out_table(single_turn_parts(dataset@.0), keys)]
                strictly_sorted(keys) && keys.to_set() == csv_metadata_keys(single_turn_parts(dataset@.0))
                    && text@ == csv_text(csv_out_table(single_turn_parts(dataset@.0), keys))
                    && (crate::codec::csv_reads_back(csv_out_table(single_turn_parts(dataset@.0), keys))
                    ==> csv_read(text@, true, false) == (csv_out_table(single_turn_parts(dataset@.0), keys), false))
                    && crate::backends::contexts_round_trip(single_turn_parts(dataset@.0)),
            Err(e) => !all_single_turn(dataset@.0) && (e matches RagasError::DatasetIo { message } && message@
                == "CSV backend only supports single-turn samples"@),
        },
{
    proof {
        dataset.lemma_view();
    }
    let samples = dataset.samples();
    let ghost sv = dataset@.0;
    let mut keys_map: StringMap<bool> = StringMap::new();
    let mut i: usize = 0;
    assert(single_turn_parts(sv.take(0)) =~= Seq::<SingleTurnView>::empty());
    assert(keys_map@.dom() =~= csv_metadata_keys(single_turn_parts(sv.take(0))));
    while i < samples.len()
        invariant
            sv == samples@.map_values(|x: EvaluationSample| x@),
            sv == dataset@.0,
            i <= samples@.len(),
            forall|j: int| 0 <= j < i ==> (#[trigger] sv[j]) is SingleTurn,
            keys_map@.dom() == csv_metadata_keys(single_turn_parts(sv.take(i as int))),
        decreases samples@.len() - i,
    {
        match &samples[i] {
            EvaluationSample::SingleTurn(s) => {
                let ghost start = keys_map@.dom();
                proof {
                    use_type_invariant(&s.metadata);
                    s.metadata.lemma_sorted_keys();
                }
                let mut q: usize = 0;
                let n = s.metadata.len();
                assert(start.union(Set::new(|k: Seq<char>| s.metadata.sorted_keys().take(0).contains(k))) =~= start);
                while q < n
                    invariant
                        n == s.metadata.sorted_keys().len(),
                        q <= n,
                        keys_map@.dom() == start.union(Set::new(|k: Seq<char>| s.metadata.sorted_keys().take(q as int).contains(k))),
                    decreases n - q,
                {
                    let k = s.metadata.key_at(q);
                    let ghost t = s.metadata.sorted_keys().take(q as int);
                    keys_map.insert(k.clone(), true);
                    assert(s.metadata.sorted_keys().take(q + 1) =~= t.push(k@));
                    assert forall|x: Seq<char>| #[trigger] t.push(k@).contains(x) <==> (t.contains(x) || x == k@) by {
                        if t.push(k@).contains(x) {
                            let a = choose|a: int| 0 <= a < t.len() + 1 && #[trigger] t.push(k@)[a] == x;
                            if a < t.len() {
                                assert(t[a] == x);
                            }
                        }
                        if t.contains(x) {
                            let a = choose|a: int| 0 <= a < t.len() && #[trigger] t[a] == x;
                            assert(t.push(k@)[a] == x);
                        }
                        if x == k@ {
                            assert(t.push(k@)[t.len() as int] == x);
                        }
                    }
                    assert(keys_map@.dom() =~= start.union(Set::new(|k: Seq<char>| s.metadata.sorted_keys().take(q + 1).contains(k))));
                    q = q + 1;
                }
                proof {
                    assert(s.metadata.sorted_keys().take(n as int) =~= s.metadata.sorted_keys());
                    let ss = single_turn_parts(sv.take(i + 1));
                    assert(ss.drop_last() =~= single_turn_parts(sv.take(i as int)));
                    assert(ss.last() == s@);
                    assert(s@.metadata.dom() =~= s.metadata@.dom());
                    assert(keys_map@.dom() =~= csv_metadata_keys(ss));
                }
            },
            EvaluationSample::MultiTurn(_) => {
                assert(!(sv[i as int] is SingleTurn));
                return Err(RagasError::DatasetIo { message: to_owned_string("CSV backend only supports single-turn samples") });
            },
        }
        i = i + 1;
    }
    assert(sv.take(sv.len() as int) =~= sv);
    let ghost ss = single_turn_parts(sv);
    assert(all_single_turn(sv));
    proof {
        use_type_invariant(&keys_map);
        keys_map.lemma_sorted_keys();
    }
    let keys = keys_map.keys();
    let ghost kv = strings_view(keys@);
    assert(kv == keys_map.sorted_keys());
    // The header.
    let mut header: Vec<String> = Vec::new();
    header.push(to_owned_string("user_input"));
    header.push(to_owned_string("response"));
    header.push(to_owned_string("retrieved_contexts"));
    header.push(to_owned_string("reference"));
    let ghost fixed = strings_view(header@);
    assert(fixed =~= seq!["user_input"@, "response"@, "retrieved_contexts"@, "reference"@]);
    let mut q: usize = 0;
    while q < keys.len()
        invariant
            kv == strings_view(keys@),
            q <= keys@.len(),
            fixed == seq!["user_input"@, "response"@, "retrieved_contexts"@, "reference"@],
            strings_view(header@) == fixed + kv.take(q as int).map_values(|k: Seq<char>| "metadata."@ + k),
        decreases keys@.len() - q,
    {
        let ghost before = strings_view(header@);
        let col = metadata_column(&keys[q]);
        header.push(col);
        proof {
            reveal_strlit("metadata.");
        }
        assert(strings_view(header@) =~= before.push(col@));
        assert(kv.take(q + 1) =~= kv.take(q as int).push(kv[q as int]));
        assert(strings_view(header@) =~= fixed + kv.take(q + 1).map_values(|k: Seq<char>| "metadata."@ + k));
        q = q + 1;
    }
    assert(kv.take(keys@.len() as int) =~= kv);
    let mut records: Vec<Vec<String>> = Vec::new();
    records.push(header);
    let mut j: usize = 0;
    while j < samples.len()
        invariant
            sv == samples@.map_values(|x: EvaluationSample| x@),
            ss == single_turn_parts(sv),
            all_single_turn(sv),
            kv == strings_view(keys@),
            j <= samples@.len(),
            rows_view(records@) == csv_out_table(ss.take(j as int), kv),
            forall|a: int| 0 <= a < j ==> crate::codec::json_list_round_trips(#[trigger] ss[a].retrieved_contexts),
        decreases samples@.len() - j,
    {
        assert(sv[j as int] is SingleTurn);
        match &samples[j] {
            EvaluationSample::SingleTurn(s) => {
                let rec = csv_record(s, &keys);
                let ghost before = rows_view(records@);
                records.push(rec);
                assert(ss[j as int] == s@);
                assert(rows_view(records@) =~= before.push(strings_view(rec@)));
                assert(ss.take(j + 1) =~= ss.take(j as int).push(s@));
                assert(rows_view(records@) =~= csv_out_table(ss.take(j + 1), kv));
            },
            EvaluationSample::MultiTurn(_) => {
                assert(false);
            },
        }
        j = j + 1;
    }
    assert(ss.take(sv.len() as int) =~= ss);
    assert(crate::codec::csv_equal_widths(rows_view(records@))) by {
        let t = csv_out_table(ss, kv);
        assert forall|a: int| 0 <= a < t.len() implies (#[trigger] t[a]).len() == t[0].len() by {
            if a > 0 {
                assert(t[a] == csv_out_record(ss[a - 1], kv));
            }
        }
    }
    match write_csv_records(&records) {
        Ok(text) => {
            assert(kv.to_set() =~= csv_metadata_keys(ss));
            assert(strictly_sorted(kv) && kv.to_set() == csv_metadata_keys(ss) && text@ == csv_text(csv_out_table(ss, kv)));
            assert(crate::backends::contexts_round_trip(ss));
            Ok(text)
        },
        Err(f) => Err(write_failure(f)),
    }
}

/// The samples of a CSV text read as a dataset, as samples of either kind.
pub open spec fn csv_sample_views(text: Seq<char>) -> Seq<EvaluationSampleView> {
    csv_samples(csv_read(text, true, false).0).map_values(|v: SingleTurnView| EvaluationSampleView::SingleTurn(v))
}

impl DatasetBackend for CsvDatasetBackend {
    /// Stores the dataset as its CSV text; a dataset with a multi-turn sample, or a CSV writer
    /// failure, leaves the backend as it was.
    fn save(&mut self, name: &str, dataset: &EvaluationDataset<EvaluationSample>) -> (r: Result<(), RagasError>)
        ensures
            match r {
                Ok(()) => all_single_turn(dataset@.0) && exists|keys: Seq<Seq<char>>|
                    #![trigger csv_out_table(single_turn_parts(dataset@.0), keys)]
                    strictly_sorted(keys) && keys.to_set() == csv_metadata_keys(single_turn_parts(dataset@.0))
                        && final(self)@ == old(self)@.insert(name@, csv_text(csv_out_table(single_turn_parts(dataset@.0), keys)))
                        && (crate::codec::csv_reads_back(csv_out_table(single_turn_parts(dataset@.0), keys))
                        ==> csv_read(csv_text(csv_out_table(single_turn_parts(dataset@.0), keys)), true, false)
                        == (csv_out_table(single_turn_parts(dataset@.0), keys), false))
                        && crate::backends::contexts_round_trip(single_turn_parts(dataset@.0)),
                Err(e) => final(self)@ == old(self)@ && !all_single_turn(dataset@.0) && (e matches RagasError::DatasetIo {
                    message,
                } && message@ == "CSV backend only supports single-turn samples"@),
            },
    {
        let text = dataset_to_csv_string(dataset)?;
        self.save_document(name, text);
        Ok(())
    }

    /// Reads the dataset back from its CSV text.
    fn load(&self, name: &str) -> (r: Result<EvaluationDataset<EvaluationSample>, RagasError>)
        ensures
            match r {
                Ok(d) => self@.contains_key(name@) && csv_imports(self@[name@]) && d@.0 == csv_sample_views(self@[name@])
                    && d@.1 == Map::<Seq<char>, Seq<char>>::empty(),
                Err(e) => (!self@.contains_key(name@) && (e matches RagasError::DatasetIo { message }
                    && message@ == not_found_message(name@))) || (self@.contains_key(name@) && csv_import_error(
                    self@[name@],
                    e,
                )),
            },
    {
        let document = self.load_document(name)?;
        let single = EvaluationDataset::<SingleTurnSample>::from_csv_str(document.as_str())?;
        assert(csv_imports(document@));
        let ghost want = csv_samples(csv_read(document@, true, false).0);
        assert(single.samples_view().map_values(|s: SingleTurnSample| s@) == want);
        let items = single.samples();
        let mut samples: Vec<EvaluationSample> = Vec::new();
        let mut i: usize = 0;
        while i < items.len()
            invariant
                items@ == single.samples_view(),
                single.samples_view().map_values(|s: SingleTurnSample| s@) == want,
                i <= items@.len(),
                samples@.len() == i,
                forall|j: int| 0 <= j < i ==> (#[trigger] samples@[j])@ == EvaluationSampleView::SingleTurn(want[j]),
                forall|j: int| 0 <= j < i ==> ((#[trigger] samples@[j]) matches EvaluationSample::SingleTurn(s) && s@ == want[j]),
            decreases items@.len() - i,
        {
            let s = items[i].clone();
            assert(want[i as int] == items@[i as int]@);
            samples.push(EvaluationSample::SingleTurn(s));
            i = i + 1;
        }
        let ghost sv = samples@;
        proof {
            let recs = csv_read(document@, true, false).0;
            assert(all_rows_accepted(recs));
            assert(sv.len() == want.len());
            assert forall|j: int| 0 <= j < sv.len() implies crate::dataset::evaluation_sample_problem(#[trigger] sv[j]) is None by {
                assert(row_accepted(recs[0], recs[j + 1]));
                assert(want[j] == csv_row(recs[0], recs[j + 1])->Ok_0);
                if let EvaluationSample::SingleTurn(s) = sv[j] {
                    lemma_problem_view(s);
                }
            }
        }
        let r = EvaluationDataset::<EvaluationSample>::from_samples(samples);
        proof {
            match &r {
                Ok(d) => {
                    d.lemma_view();
                    assert(d@.0 =~= csv_sample_views(document@));
                    assert(d@.1 =~= Map::<Seq<char>, Seq<char>>::empty());
                },
                Err(e) => {
                    assert(sv.len() > 0);
                    assert(!build_error_ok(sv, |s: EvaluationSample| crate::dataset::evaluation_sample_problem(s), *e));
                },
            }
        }
        r
    }

    fn list(&self) -> (r: Vec<String>)
        ensures
            lists_keys_of(strings_view(r@), self@),
    {
        CsvDatasetBackend::list(self)
    }

    fn delete(&mut self, name: &str) -> (removed: bool)
        ensures
            removed == old(self)@.contains_key(name@),
            final(self)@ == old(self)@.remove(name@),
    {
        CsvDatasetBackend::delete(self, name)
    }
}

} // verus!

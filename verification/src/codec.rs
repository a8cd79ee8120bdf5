//! Text formats read and written through outside crates: JSON lists of strings (`serde_json`)
//! and CSV records (`csv`).
use vstd::prelude::*;

use crate::dataset::strings_view;

verus! {

/// The JSON text that `serde_json::to_string` gives for a list of strings.
pub uninterp spec fn json_string_list(items: Seq<Seq<char>>) -> Seq<char>;

/// The list of strings that `serde_json::from_str::<Vec<String>>` reads from a text, if the
/// text is a JSON array of strings.
pub uninterp spec fn json_string_list_parse(text: Seq<char>) -> Option<Seq<Seq<char>>>;

/// Whether the JSON text of a list of strings is an array (it opens with `[` and closes with
/// `]`) that reads back as the same list.
pub open spec fn json_list_round_trips(items: Seq<Seq<char>>) -> bool {
    &&& json_string_list(items).len() > 0
    &&& json_string_list(items)[0] == '['
    &&& json_string_list(items).last() == ']'
    &&& json_string_list_parse(json_string_list(items)) == Some(items)
}

/// `serde_json::to_string` on a list of strings. Serialising a `Vec<String>` cannot fail: a
/// string always serialises and the output is an in-memory buffer. The text is a JSON array, so
/// written without whitespace around it (the compact formatter opens it with `[` and closes it with
/// `]`), and reading it back with `serde_json::from_str` gives the same list.
#[verifier::external_body]
pub fn encode_string_list(items: &Vec<String>) -> (out: String)
    ensures
        out@ == json_string_list(strings_view(items@)),
        out@.len() > 0,
        out@[0] == '[',
        out@.last() == ']',
        json_string_list_parse(out@) == Some(strings_view(items@)),
{
    serde_json::to_string(items).unwrap_or_default()
}

/// `serde_json::from_str::<Vec<String>>`: the list, or the parser's error message.
#[verifier::external_body]
pub fn decode_string_list(text: &str) -> (r: Result<Vec<String>, String>)
    ensures
        match r {
            Ok(v) => json_string_list_parse(text@) == Some(strings_view(v@)),
            Err(_) => json_string_list_parse(text@) is None,
        },
{
    serde_json::from_str::<Vec<String>>(text).map_err(|error| error.to_string())
}

/// What the `csv` reader yields for a text read without a header row: the records read before
/// the first error, each as its fields (trimmed of surrounding whitespace when `trim`), and
/// whether an error stopped the reading. Unless `flexible`, a record whose field count differs
/// from the first record's is an error.
pub uninterp spec fn csv_read(text: Seq<char>, trim: bool, flexible: bool) -> (Seq<Seq<Seq<char>>>, bool);

/// Reads CSV records with `csv::ReaderBuilder` (no header row; `csv::Trim::All` when `trim`;
/// `flexible` as given): the records before the first error, and that error's message.
#[verifier::external_body]
pub fn read_csv_records(text: &str, trim: bool, flexible: bool) -> (r: (Vec<Vec<String>>, Option<String>))
    ensures
        crate::backends::rows_view(r.0@) == csv_read(text@, trim, flexible).0,
        r.1 is Some == csv_read(text@, trim, flexible).1,
{
    let mode = if trim { csv::Trim::All } else { csv::Trim::None };
    let mut reader = csv::ReaderBuilder::new().has_headers(false).flexible(flexible).trim(mode).from_reader(text.as_bytes());
    let mut rows: Vec<Vec<String>> = Vec::new();
    for record in reader.records() {
        match record {
            Ok(record) => rows.push(record.iter().map(|field| field.to_string()).collect()),
            Err(error) => return (rows, Some(error.to_string())),
        }
    }
    (rows, None)
}

/// The CSV text that a `csv::Writer` with default settings writes for the given records, in
/// order.
pub uninterp spec fn csv_text(records: Seq<Seq<Seq<char>>>) -> Seq<char>;

/// Where writing CSV failed: at a record (by position), when flushing the writer, or when the
/// bytes written were not UTF-8.
#[derive(Debug)]
pub enum CsvWriteFailure {
    Record { index: usize, message: String },
    Finalize { message: String },
    Utf8 { message: String },
}

/// Whether all records have as many fields as the first.
pub open spec fn csv_equal_widths(recs: Seq<Seq<Seq<char>>>) -> bool {
    forall|i: int| 0 <= i < recs.len() ==> (#[trigger] recs[i]).len() == recs[0].len()
}

/// Whether a field keeps its characters when the reader trims whitespace: it does not begin or
/// end with a whitespace character (`char::is_whitespace`).
pub open spec fn csv_field_untrimmed(f: Seq<char>) -> bool {
    f.len() == 0 || (!crate::text::is_ws(f[0]) && !crate::text::is_ws(f.last()))
}

/// Whether records come back unchanged when their CSV text is read with `csv_read` (trimming,
/// not flexible): they all have the same, non-zero number of fields; no field begins or ends
/// with whitespace, which the reader would trim; and the first field does not begin with a
/// byte-order mark, which the reader skips at the start of its input.
pub open spec fn csv_reads_back(recs: Seq<Seq<Seq<char>>>) -> bool {
    &&& csv_equal_widths(recs)
    &&& recs.len() > 0 ==> recs[0].len() > 0
    &&& forall|i: int, j: int| 0 <= i < recs.len() && 0 <= j < recs[i].len() ==> csv_field_untrimmed(#[trigger] recs[i][j])
    &&& recs.len() > 0 ==> !(recs[0][0].len() > 0 && recs[0][0][0] == '\u{FEFF}')
}

/// Writes records with `csv::Writer::from_writer` into memory (`write_record` for each record,
/// then `into_inner` and `String::from_utf8`). The text written is `csv_text` of the records.
/// A writer with default settings refuses a record whose field count differs from the first
/// record's (`UnequalLengths`); that is the only failure, since flushing into a `Vec` cannot fail
/// and fields that are `String`s are written as UTF-8. The writer quotes a field that holds a
/// delimiter, a quote or a line break (doubling its quotes), and writes a lone empty field as
/// `""`, so the reader, with its default quoting, reads back each record written; it changes a
/// field only by trimming it, or by skipping a leading byte-order mark (see `csv_reads_back`).
#[verifier::external_body]
pub fn write_csv_records(records: &Vec<Vec<String>>) -> (r: Result<String, CsvWriteFailure>)
    ensures
        r is Ok <==> csv_equal_widths(crate::backends::rows_view(records@)),
        r matches Ok(text) ==> text@ == csv_text(crate::backends::rows_view(records@)),
        r matches Ok(text) ==> (csv_reads_back(crate::backends::rows_view(records@)) ==> csv_read(text@, true, false)
            == (crate::backends::rows_view(records@), false)),
{
    let mut writer = csv::Writer::from_writer(Vec::new());
    for (index, record) in records.iter().enumerate() {
        if let Err(error) = writer.write_record(record) {
            return Err(CsvWriteFailure::Record { index, message: error.to_string() });
        }
    }
    let bytes = writer.into_inner().map_err(|error| CsvWriteFailure::Finalize { message: error.to_string() })?;
    String::from_utf8(bytes).map_err(|error| CsvWriteFailure::Utf8 { message: error.to_string() })
}


/// The top level of a JSON text.
#[derive(Debug)]
pub enum JsonTopLevel {
    /// Not JSON: the parser's message.
    Invalid { message: String },
    /// JSON, but not an object.
    NotObject,
    /// An object: each member's key, with the member's value when that value is a string.
    Object { members: Vec<(String, Option<String>)> },
}

/// A JSON object's members: each key, and the value when it is a string.
pub open spec fn members_view(ms: Seq<(String, Option<String>)>) -> Seq<(Seq<char>, Option<Seq<char>>)> {
    ms.map_values(|m: (String, Option<String>)| (m.0@, crate::dataset::opt_string_view(m.1)))
}

/// The contents of a `JsonTopLevel`.
pub enum JsonTopView {
    Invalid(Seq<char>),
    NotObject,
    Object(Seq<(Seq<char>, Option<Seq<char>>)>),
}

impl View for JsonTopLevel {
    type V = JsonTopView;

    open spec fn view(&self) -> JsonTopView {
        match self {
            JsonTopLevel::Invalid { message } => JsonTopView::Invalid(message@),
            JsonTopLevel::NotObject => JsonTopView::NotObject,
            JsonTopLevel::Object { members } => JsonTopView::Object(members_view(members@)),
        }
    }
}

/// What `serde_json::from_str::<serde_json::Value>` reads from a text, at its top level.
pub uninterp spec fn json_top_level(text: Seq<char>) -> JsonTopView;

/// Parses a text with `serde_json::from_str::<serde_json::Value>` and reports its top level: the
/// parser's message when it fails; for an object, each member as its key and, when the value is
/// a string, that string (`Value::as_str`).
#[verifier::external_body]
pub fn read_json_top_level(text: &str) -> (r: JsonTopLevel)
    ensures
        r@ == json_top_level(text@),
{
    match serde_json::from_str::<serde_json::Value>(text) {
        Err(error) => JsonTopLevel::Invalid { message: error.to_string() },
        Ok(serde_json::Value::Object(map)) => JsonTopLevel::Object {
            members: map.iter().map(|(key, value)| (key.clone(), value.as_str().map(|v| v.to_string()))).collect(),
        },
        Ok(_) => JsonTopLevel::NotObject,
    }
}

} // verus!

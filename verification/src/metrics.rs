//! The deterministic metrics: their configuration and the verdicts and counts they score
//! from. Turning a count into a floating-point score is left to the caller.
use vstd::prelude::*;

use crate::codec::{csv_read, read_csv_records};
use crate::dataset::{opt_string_view, strings_view, SingleTurnSample};
use crate::error::RagasError;
use crate::metric_base::{MetricEvidence, MetricRequirements, SampleField};
use crate::overlap::{clipped_overlap, multiset_overlap, views};
use crate::string_map::{strictly_sorted, StringMap};
use crate::text::{chars_of, contains_seq, push_str, str_contains, to_owned_string, trim, trim_str};
use crate::traditional::OverlapCounts;

verus! {

/// Which character distance the string-similarity metric uses.
#[derive(Debug, Clone, Copy, PartialEq, Eq, Structural)]
pub enum DistanceMeasure {
    Levenshtein,
    Hamming,
    Jaro,
    JaroWinkler,
}

impl Default for DistanceMeasure {
    fn default() -> (m: Self)
        ensures
            m == DistanceMeasure::Levenshtein,
    {
        DistanceMeasure::Levenshtein
    }
}

/// Which retrieved contexts the noise-sensitivity metric attributes incorrect claims to.
#[derive(Debug, Clone, Copy, PartialEq, Eq, Structural)]
pub enum NoiseSensitivityMode {
    Relevant,
    Irrelevant,
}

/// Which component the DataCompy metric reports.
#[derive(Debug, Clone, Copy, PartialEq, Eq, Structural)]
pub enum DataCompyMode {
    Precision,
    Recall,
    F1,
}

/// The message of the error for a metric that needs a reference.
pub open spec fn missing_reference_message(metric: Seq<char>) -> Seq<char> {
    metric + " requires a non-empty reference"@
}

/// The requirements of a metric that compares the response with the reference.
fn response_reference_requirements(name: &str) -> (r: MetricRequirements)
    ensures
        r.name_view() == name@,
        r.fields_view() == seq![SampleField::Response, SampleField::Reference],
{
    let mut fields: Vec<SampleField> = Vec::new();
    fields.push(SampleField::Response);
    fields.push(SampleField::Reference);
    assert(fields@ =~= seq![SampleField::Response, SampleField::Reference]);
    MetricRequirements::new(name, fields)
}

/// The sample's reference, when it is present and not blank.
pub fn require_reference<'a>(sample: &'a SingleTurnSample, metric: &str) -> (r: Result<&'a str, RagasError>)
    ensures
        match r {
            Ok(x) => opt_string_view(sample.reference) == Some(x@) && trim(x@).len() > 0,
            Err(e) => !(opt_string_view(sample.reference) matches Some(x) && trim(x).len() > 0)
                && (e matches RagasError::Parse { message } && message@ == missing_reference_message(metric@)),
        },
{
    match &sample.reference {
        Some(x) => if !crate::text::is_blank(x.as_str()) {
            return Ok(x.as_str());
        },
        None => {},
    }
    let mut message = String::new();
    push_str(&mut message, metric);
    push_str(&mut message, " requires a non-empty reference");
    Err(RagasError::Parse { message })
}

/// Exact match of the response and the reference after trimming.
#[derive(Debug, Clone, Copy, Default)]
pub struct ExactMatchMetric;

impl ExactMatchMetric {
    pub fn new() -> (m: Self) {
        ExactMatchMetric
    }

    pub fn name(&self) -> (s: &'static str)
        ensures
            s@ == "exact_match"@,
    {
        "exact_match"
    }

    /// The fields this metric needs: the response and the reference.
    pub fn requirements(&self) -> (r: MetricRequirements)
        ensures
            r.name_view() == "exact_match"@,
            r.fields_view() == seq![SampleField::Response, SampleField::Reference],
    {
        response_reference_requirements("exact_match")
    }

    /// Whether the response equals the reference after trimming; an error without a reference.
    pub fn matches(&self, sample: &SingleTurnSample) -> (r: Result<bool, RagasError>)
        ensures
            match r {
                Ok(b) => sample.reference matches Some(x) && trim(x@).len() > 0 && b == (trim(sample.response@) == trim(x@)),
                Err(e) => !(opt_string_view(sample.reference) matches Some(x) && trim(x).len() > 0)
                    && (e matches RagasError::Parse { message } && message@ == missing_reference_message("exact_match"@)),
            },
    {
        let reference = require_reference(sample, "exact_match")?;
        Ok(crate::traditional::exact_match_verdict(sample.response.as_str(), reference))
    }
}

/// Whether the reference occurs in the response.
#[derive(Debug, Clone, Copy, Default)]
pub struct StringPresenceMetric;

impl StringPresenceMetric {
    pub fn new() -> (m: Self) {
        StringPresenceMetric
    }

    pub fn name(&self) -> (s: &'static str)
        ensures
            s@ == "string_presence"@,
    {
        "string_presence"
    }

    /// The fields this metric needs: the response and the reference.
    pub fn requirements(&self) -> (r: MetricRequirements)
        ensures
            r.name_view() == "string_presence"@,
            r.fields_view() == seq![SampleField::Response, SampleField::Reference],
    {
        response_reference_requirements("string_presence")
    }

    /// Whether the trimmed reference occurs in the response; an error without a reference.
    pub fn present(&self, sample: &SingleTurnSample) -> (r: Result<bool, RagasError>)
        ensures
            match r {
                Ok(b) => sample.reference matches Some(x) && trim(x@).len() > 0 && b == contains_seq(sample.response@, trim(x@)),
                Err(e) => !(opt_string_view(sample.reference) matches Some(x) && trim(x).len() > 0)
                    && (e matches RagasError::Parse { message } && message@ == missing_reference_message("string_presence"@)),
            },
    {
        let reference = require_reference(sample, "string_presence")?;
        let t = trim_str(reference);
        Ok(str_contains(sample.response.as_str(), t.as_str()))
    }
}

/// Normalized string similarity under a chosen distance.
#[derive(Debug, Clone, Copy)]
pub struct StringSimilarityMetric {
    pub measure: DistanceMeasure,
}

impl StringSimilarityMetric {
    pub fn new() -> (m: Self)
        ensures
            m.measure == DistanceMeasure::Levenshtein,
    {
        StringSimilarityMetric { measure: DistanceMeasure::Levenshtein }
    }

    pub fn with_distance_measure(self, measure: DistanceMeasure) -> (m: Self)
        ensures
            m.measure == measure,
    {
        StringSimilarityMetric { measure }
    }

    pub fn name(&self) -> (s: &'static str)
        ensures
            s@ == "string_similarity"@,
    {
        "string_similarity"
    }

    /// The fields this metric needs: the response and the reference.
    pub fn requirements(&self) -> (r: MetricRequirements)
        ensures
            r.name_view() == "string_similarity"@,
            r.fields_view() == seq![SampleField::Response, SampleField::Reference],
    {
        response_reference_requirements("string_similarity")
    }
}

impl Default for StringSimilarityMetric {
    fn default() -> (m: Self)
        ensures
            m.measure == DistanceMeasure::Levenshtein,
    {
        Self::new()
    }
}

/// BLEU-4 of the response against the reference.
#[derive(Debug, Clone, Copy, Default)]
pub struct BleuScoreMetric;

impl BleuScoreMetric {
    pub fn new() -> (m: Self) {
        BleuScoreMetric
    }

    pub fn name(&self) -> (s: &'static str)
        ensures
            s@ == "bleu_score"@,
    {
        "bleu_score"
    }

    /// The fields this metric needs: the response and the reference.
    pub fn requirements(&self) -> (r: MetricRequirements)
        ensures
            r.name_view() == "bleu_score"@,
            r.fields_view() == seq![SampleField::Response, SampleField::Reference],
    {
        response_reference_requirements("bleu_score")
    }
}

/// chrF of the response against the reference.
#[derive(Debug, Clone, Copy, Default)]
pub struct ChrfScoreMetric;

impl ChrfScoreMetric {
    pub fn new() -> (m: Self) {
        ChrfScoreMetric
    }

    pub fn name(&self) -> (s: &'static str)
        ensures
            s@ == "chrf"@,
    {
        "chrf"
    }

    /// The fields this metric needs: the response and the reference.
    pub fn requirements(&self) -> (r: MetricRequirements)
        ensures
            r.name_view() == "chrf"@,
            r.fields_view() == seq![SampleField::Response, SampleField::Reference],
    {
        response_reference_requirements("chrf")
    }
}

/// The trimmed, non-empty identifiers of a list.
pub open spec fn id_set(ids: Seq<Seq<char>>) -> Set<Seq<char>> {
    Set::new(|t: Seq<char>| t.len() > 0 && exists|i: int| 0 <= i < ids.len() && #[trigger] trim(ids[i]) == t)
}

/// How many of `ks` the set `s` contains.
pub open spec fn count_in(ks: Seq<Seq<char>>, s: Set<Seq<char>>) -> nat
    decreases ks.len(),
{
    if ks.len() == 0 {
        0
    } else {
        count_in(ks.drop_last(), s) + if s.contains(ks.last()) {
            1nat
        } else {
            0nat
        }
    }
}

/// How many entries of `ids`, trimmed, the set `s` contains (duplicates counted).
pub open spec fn count_trimmed_in(ids: Seq<Seq<char>>, s: Set<Seq<char>>) -> nat
    decreases ids.len(),
{
    if ids.len() == 0 {
        0
    } else {
        count_trimmed_in(ids.drop_last(), s) + if s.contains(trim(ids.last())) {
            1nat
        } else {
            0nat
        }
    }
}

/// The set of trimmed, non-empty identifiers, as a sorted map.
fn id_map(ids: &Vec<String>) -> (m: StringMap<bool>)
    ensures
        m@.dom() == id_set(strings_view(ids@)),
{
    let ghost v = strings_view(ids@);
    let mut m: StringMap<bool> = StringMap::new();
    let mut i: usize = 0;
    while i < ids.len()
        invariant
            v == strings_view(ids@),
            i <= ids@.len(),
            m@.dom() == id_set(v.take(i as int)),
        decreases ids@.len() - i,
    {
        let t = trim_str(ids[i].as_str());
        let ghost before = m@.dom();
        assert(v[i as int] == ids@[i as int]@);
        if !crate::text::str_is_empty(t.as_str()) {
            m.insert(t, true);
        }
        proof {
            assert forall|x: Seq<char>| #[trigger] id_set(v.take(i + 1)).contains(x) == (id_set(v.take(i as int)).contains(x) || (x == trim(v[i as int]) && x.len() > 0)) by {
                if id_set(v.take(i + 1)).contains(x) {
                    let j = choose|j: int| 0 <= j < i + 1 && #[trigger] trim(v.take(i + 1)[j]) == x;
                    if j < i {
                        assert(v.take(i as int)[j] == v.take(i + 1)[j]);
                    }
                }
                if id_set(v.take(i as int)).contains(x) {
                    let j = choose|j: int| 0 <= j < i && #[trigger] trim(v.take(i as int)[j]) == x;
                    assert(v.take(i as int)[j] == v.take(i + 1)[j]);
                }
                if x == trim(v[i as int]) && x.len() > 0 {
                    assert(v.take(i + 1)[i as int] == v[i as int]);
                }
            }
            assert(m@.dom() =~= id_set(v.take(i + 1)));
        }
        i = i + 1;
    }
    assert(v.take(ids@.len() as int) =~= v);
    m
}

/// The message of the error for an identifier metric without reference identifiers.
pub open spec fn missing_ids_message(metric: Seq<char>) -> Seq<char> {
    metric + " requires reference_context_ids"@
}

/// Identifier-based context precision.
#[derive(Debug, Clone, Copy, Default)]
pub struct IdBasedContextPrecisionMetric;

impl IdBasedContextPrecisionMetric {
    pub fn new() -> (m: Self) {
        IdBasedContextPrecisionMetric
    }

    pub fn name(&self) -> (s: &'static str)
        ensures
            s@ == "id_based_context_precision"@,
    {
        "id_based_context_precision"
    }

    /// The retrieved identifiers that are reference identifiers (after trimming), and the
    /// number of retrieved identifiers; an error without reference identifiers.
    pub fn counts(&self, sample: &SingleTurnSample) -> (r: Result<(usize, usize), RagasError>)
        ensures
            match r {
                Ok((hit, total)) => sample.reference_context_ids@.len() > 0
                    && total == sample.retrieved_context_ids@.len()
                    && hit == count_trimmed_in(strings_view(sample.retrieved_context_ids@), id_set(strings_view(sample.reference_context_ids@))),
                Err(e) => sample.reference_context_ids@.len() == 0
                    && (e matches RagasError::Parse { message } && message@ == missing_ids_message("id_based_context_precision"@)),
            },
    {
        if sample.reference_context_ids.len() == 0 {
            let mut message = String::new();
            push_str(&mut message, "id_based_context_precision");
            push_str(&mut message, " requires reference_context_ids");
            return Err(RagasError::Parse { message });
        }
        Ok(id_precision_counts(&sample.retrieved_context_ids, &sample.reference_context_ids))
    }
}

/// The retrieved identifiers (with duplicates) whose trimmed form is a reference identifier,
/// and the number of retrieved identifiers.
pub fn id_precision_counts(retrieved: &Vec<String>, reference: &Vec<String>) -> (r: (usize, usize))
    ensures
        r.1 == retrieved@.len(),
        r.0 == count_trimmed_in(strings_view(retrieved@), id_set(strings_view(reference@))),
{
    let refs = id_map(reference);
    let ghost v = strings_view(retrieved@);
    let ghost s = id_set(strings_view(reference@));
    let mut hit: usize = 0;
    let mut i: usize = 0;
    while i < retrieved.len()
        invariant
            v == strings_view(retrieved@),
            refs@.dom() == s,
            i <= retrieved@.len(),
            hit <= i,
            hit == count_trimmed_in(v.take(i as int), s),
        decreases retrieved@.len() - i,
    {
        assert(v.take(i + 1).drop_last() =~= v.take(i as int));
        assert(v.take(i + 1).last() == retrieved@[i as int]@);
        let t = trim_str(retrieved[i].as_str());
        if refs.contains_key(t.as_str()) {
            hit = hit + 1;
        }
        i = i + 1;
    }
    assert(v.take(retrieved@.len() as int) =~= v);
    (hit, retrieved.len())
}

/// The evidence of identifier precision: each retrieved identifier whose trimmed form is a
/// reference identifier, trimmed, with the source `retrieved_context_id[<index>]`.
pub open spec fn id_evidence(ids: Seq<Seq<char>>, reference: Set<Seq<char>>) -> Seq<(Seq<char>, Seq<char>)>
    decreases ids.len(),
{
    if ids.len() == 0 {
        Seq::empty()
    } else {
        let rest = id_evidence(ids.drop_last(), reference);
        if reference.contains(trim(ids.last())) {
            rest.push((crate::rag::indexed_source("retrieved_context_id["@, (ids.len() - 1) as nat), trim(ids.last())))
        } else {
            rest
        }
    }
}

/// The evidence of identifier precision: the retrieved identifiers that are reference
/// identifiers.
pub fn id_precision_evidence(retrieved: &Vec<String>, reference: &Vec<String>) -> (r: Vec<MetricEvidence>)
    ensures
        crate::rag::evidence_views(r@) == id_evidence(strings_view(retrieved@), id_set(strings_view(reference@))),
{
    let refs = id_map(reference);
    let ghost v = strings_view(retrieved@);
    let ghost s = id_set(strings_view(reference@));
    let mut r: Vec<MetricEvidence> = Vec::new();
    let mut i: usize = 0;
    while i < retrieved.len()
        invariant
            v == strings_view(retrieved@),
            refs@.dom() == s,
            i <= retrieved@.len(),
            crate::rag::evidence_views(r@) == id_evidence(v.take(i as int), s),
        decreases retrieved@.len() - i,
    {
        assert(v.take(i + 1).drop_last() =~= v.take(i as int));
        assert(v.take(i + 1).last() == retrieved@[i as int]@);
        let t = trim_str(retrieved[i].as_str());
        let ghost before = crate::rag::evidence_views(r@);
        if refs.contains_key(t.as_str()) {
            let mut source = String::new();
            push_str(&mut source, "retrieved_context_id[");
            crate::text::push_decimal(&mut source, i);
            push_str(&mut source, "]");
            let e = MetricEvidence { source, text: t };
            r.push(e);
            assert(crate::rag::evidence_views(r@) =~= before.push(crate::rag::evidence_view(e)));
        }
        i = i + 1;
    }
    assert(v.take(retrieved@.len() as int) =~= v);
    r
}

/// Identifier-based context recall.
#[derive(Debug, Clone, Copy, Default)]
pub struct IdBasedContextRecallMetric;

impl IdBasedContextRecallMetric {
    pub fn new() -> (m: Self) {
        IdBasedContextRecallMetric
    }

    pub fn name(&self) -> (s: &'static str)
        ensures
            s@ == "id_based_context_recall"@,
    {
        "id_based_context_recall"
    }

    /// The distinct reference identifiers that were retrieved, and the number of distinct
    /// reference identifiers (both after trimming, empty ones dropped); an error without
    /// reference identifiers.
    pub fn counts(&self, sample: &SingleTurnSample) -> (r: Result<(usize, usize), RagasError>)
        ensures
            match r {
                Ok((hit, total)) => sample.reference_context_ids@.len() > 0 && exists|ks: Seq<Seq<char>>|
                    strictly_sorted(ks) && (forall|x: Seq<char>| #[trigger] ks.contains(x) <==> id_set(strings_view(sample.reference_context_ids@)).contains(x))
                    && total == ks.len()
                    && hit == count_in(ks, id_set(strings_view(sample.retrieved_context_ids@))),
                Err(e) => sample.reference_context_ids@.len() == 0
                    && (e matches RagasError::Parse { message } && message@ == missing_ids_message("id_based_context_recall"@)),
            },
    {
        if sample.reference_context_ids.len() == 0 {
            let mut message = String::new();
            push_str(&mut message, "id_based_context_recall");
            push_str(&mut message, " requires reference_context_ids");
            return Err(RagasError::Parse { message });
        }
        let refs = id_map(&sample.reference_context_ids);
        let got = id_map(&sample.retrieved_context_ids);
        proof {
            use_type_invariant(&refs);
            refs.lemma_sorted_keys();
        }
        let ghost ks = refs.sorted_keys();
        let ghost s = id_set(strings_view(sample.retrieved_context_ids@));
        let mut hit: usize = 0;
        let mut i: usize = 0;
        let n = refs.len();
        while i < n
            invariant
                n == ks.len(),
                ks == refs.sorted_keys(),
                got@.dom() == s,
                i <= n,
                hit <= i,
                hit == count_in(ks.take(i as int), s),
            decreases n - i,
        {
            let k = refs.key_at(i);
            assert(ks.take(i + 1).drop_last() =~= ks.take(i as int));
            assert(ks.take(i + 1).last() == k@);
            if got.contains_key(k.as_str()) {
                hit = hit + 1;
            }
            i = i + 1;
        }
        assert(ks.take(n as int) =~= ks);
        Ok((hit, n))
    }
}

/// A CSV row as one string: its cells joined by the unit separator `U+001F`.
pub open spec fn joined_row(cells: Seq<Seq<char>>) -> Seq<char>
    decreases cells.len(),
{
    if cells.len() == 0 {
        Seq::empty()
    } else if cells.len() == 1 {
        cells[0]
    } else {
        joined_row(cells.drop_last()) + seq!['\u{1f}'] + cells.last()
    }
}

fn join_row(cells: &Vec<String>) -> (out: Vec<char>)
    ensures
        out@ == joined_row(strings_view(cells@)),
{
    let ghost v = strings_view(cells@);
    let mut out: Vec<char> = Vec::new();
    let mut i: usize = 0;
    while i < cells.len()
        invariant
            v == strings_view(cells@),
            i <= cells@.len(),
            out@ == joined_row(v.take(i as int)),
        decreases cells@.len() - i,
    {
        assert(v.take(i + 1).drop_last() =~= v.take(i as int));
        assert(v.take(i + 1).last() == cells@[i as int]@);
        let ghost before = out@;
        if i > 0 {
            out.push('\u{1f}');
        } else {
            assert(out@ =~= Seq::<char>::empty());
        }
        let cs = chars_of(cells[i].as_str());
        let mut q: usize = 0;
        let ghost mid = out@;
        while q < cs.len()
            invariant
                q <= cs@.len(),
                out@ == mid + cs@.take(q as int),
            decreases cs@.len() - q,
        {
            out.push(cs[q]);
            q = q + 1;
            assert(mid + cs@.take(q as int) =~= (mid + cs@.take(q - 1)).push(cs@[q - 1]));
        }
        assert(cs@.take(cs@.len() as int) =~= cs@);
        proof {
            if i == 0 {
                assert(out@ =~= joined_row(v.take(1)));
            } else {
                assert(out@ =~= joined_row(v.take(i + 1)));
            }
        }
        i = i + 1;
    }
    assert(v.take(cells@.len() as int) =~= v);
    out
}

/// The rows of a text read as headerless, flexible CSV, each joined into one string.
pub open spec fn csv_joined_rows(text: Seq<char>) -> Seq<Seq<char>> {
    csv_read(text, false, true).0.map_values(|r: Seq<Seq<char>>| joined_row(r))
}

/// The message prefix of the error for a table that does not parse.
pub open spec fn datacompy_parse_prefix() -> Seq<char> {
    "datacompy CSV parse failed: "@
}

/// The rows of a CSV table, each joined into one string; an error when the CSV does not parse.
pub fn parse_csv_rows(text: &str) -> (r: Result<Vec<Vec<char>>, RagasError>)
    ensures
        match r {
            Ok(rows) => !csv_read(text@, false, true).1 && views(rows@) == csv_joined_rows(text@),
            Err(e) => csv_read(text@, false, true).1 && (e matches RagasError::Parse { message }
                && message@.len() >= datacompy_parse_prefix().len()
                && message@.take(datacompy_parse_prefix().len() as int) == datacompy_parse_prefix()),
        },
{
    let (records, error) = read_csv_records(text, false, true);
    match error {
        Some(msg) => {
            let mut message = String::new();
            push_str(&mut message, "datacompy CSV parse failed: ");
            push_str(&mut message, msg.as_str());
            proof {
                reveal_strlit("datacompy CSV parse failed: ");
                assert(message@.take(datacompy_parse_prefix().len() as int) =~= datacompy_parse_prefix());
            }
            return Err(RagasError::Parse { message });
        },
        None => {},
    }
    let ghost rv = crate::backends::rows_view(records@);
    let mut rows: Vec<Vec<char>> = Vec::new();
    let mut i: usize = 0;
    while i < records.len()
        invariant
            rv == crate::backends::rows_view(records@),
            rv == csv_read(text@, false, true).0,
            i <= records@.len(),
            views(rows@) == rv.take(i as int).map_values(|r: Seq<Seq<char>>| joined_row(r)),
        decreases records@.len() - i,
    {
        let row = join_row(&records[i]);
        let ghost before = views(rows@);
        rows.push(row);
        assert(views(rows@) =~= before.push(row@));
        assert(rv.take(i + 1).map_values(|r: Seq<Seq<char>>| joined_row(r)) =~= rv.take(i as int).map_values(|r: Seq<Seq<char>>| joined_row(r)).push(joined_row(rv[i as int])));
        i = i + 1;
    }
    assert(rv.take(records@.len() as int) =~= rv);
    Ok(rows)
}

/// Row-level comparison of the response and the reference as CSV tables.
#[derive(Debug, Clone, Copy)]
pub struct DataCompyScoreMetric {
    pub mode: DataCompyMode,
}

impl DataCompyScoreMetric {
    pub fn new() -> (m: Self)
        ensures
            m.mode == DataCompyMode::F1,
    {
        DataCompyScoreMetric { mode: DataCompyMode::F1 }
    }

    pub fn with_mode(self, mode: DataCompyMode) -> (m: Self)
        ensures
            m.mode == mode,
    {
        DataCompyScoreMetric { mode }
    }

    pub fn name(&self) -> (s: &'static str)
        ensures
            s@ == "datacompy_score"@,
    {
        "datacompy_score"
    }

    /// The fields this metric needs: the response and the reference.
    pub fn requirements(&self) -> (r: MetricRequirements)
        ensures
            r.name_view() == "datacompy_score"@,
            r.fields_view() == seq![SampleField::Response, SampleField::Reference],
    {
        response_reference_requirements("datacompy_score")
    }

    /// The matching rows of the response and reference tables (as a multiset), with the two
    /// row counts; an error without a reference or when a table does not parse.
    pub fn row_counts(&self, sample: &SingleTurnSample) -> (r: Result<OverlapCounts, RagasError>)
        ensures
            r matches Ok(c) ==> sample.reference matches Some(x) && trim(x@).len() > 0
                && !csv_read(sample.response@, false, true).1 && !csv_read(x@, false, true).1
                && c.as_triple() == crate::traditional::overlap_triple(csv_joined_rows(sample.response@), csv_joined_rows(x@)),
            r is Err ==> !(opt_string_view(sample.reference) matches Some(x) && trim(x).len() > 0)
                || csv_read(sample.response@, false, true).1
                || (sample.reference matches Some(x) && csv_read(x@, false, true).1),
    {
        let reference = require_reference(sample, "datacompy_score")?;
        let response_rows = parse_csv_rows(sample.response.as_str())?;
        let reference_rows = parse_csv_rows(reference)?;
        let overlap = multiset_overlap(&response_rows, &reference_rows);
        Ok(OverlapCounts { overlap, candidate_count: response_rows.len(), reference_count: reference_rows.len() })
    }
}

impl Default for DataCompyScoreMetric {
    fn default() -> (m: Self)
        ensures
            m.mode == DataCompyMode::F1,
    {
        Self::new()
    }
}

} // verus!

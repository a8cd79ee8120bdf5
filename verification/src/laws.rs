//! Properties of the library that relate several operations or hold of every input: what the
//! lexical measures give on identical or swapped texts, what a store gives back of what was
//! written to it, and how configuration, redaction, registries, crossover and the documented
//! quickstarts behave.
use vstd::prelude::*;

use crate::backends::{
    column_value, contexts_round_trip, first_pos, gdrive_cell, gdrive_columns, gdrive_row_map, is_gdrive_sheet,
    metadata_prefix, nonempty_value, prefixed_metadata, row_metadata, row_sample, sheet_header, sheet_rows_parse,
    sheet_samples, DatasetContents,
};
use crate::dataset::SingleTurnView;
use crate::config::{config_value, non_blank};
use crate::docs_examples::{docs_claim, quickstart_table, QuickstartView};
use crate::integrations::{is_sensitive, redacted, redacted_marker};
use crate::agentic::call_keys;
use crate::dataset::ToolCall;
use crate::judged::{first_at, json_block, kept_trimmed, last_at, sentences, sentences_from};
use crate::optimizers::crossover_prompt;
use crate::overlap::{clipped_overlap, edit_distance, lcs_len};
use crate::parity::ParityFeatureStatus;
use crate::registry::{visible, MetricRegistryEntry};
use crate::text::{is_ws, trim, words};
use crate::codec::{csv_field_untrimmed, csv_read, csv_reads_back, json_string_list};
use crate::csv_io::{
    all_rows_accepted, column, csv_cell, csv_import_error, csv_imports, csv_metadata, csv_metadata_keys,
    csv_out_header, csv_out_record, csv_out_table, csv_row, csv_sample_views, csv_samples, missing_column,
    row_accepted,
};
use crate::backends::{dataset_names, gdrive_sheet_name};
use crate::string_map::{lemma_sorted_key_list, sorted_key_list};
use crate::dataset::{build_error_ok, build_outcome_ok, is_invalid_sample_error, sample_problem, view_problem, EvaluationSampleView};
use crate::traditional::join_tokens;

verus! {

/// A text has a common subsequence with itself as long as itself: ROUGE-L of identical token
/// lists counts every token.
pub proof fn law_lcs_of_identical<T>(a: Seq<T>)
    ensures
        lcs_len(a, a) == a.len(),
    decreases a.len(),
{
    if a.len() > 0 {
        law_lcs_of_identical(a.drop_last());
    }
}

/// The longest common subsequence does not depend on the order of the two sequences.
pub proof fn law_lcs_symmetric<T>(a: Seq<T>, b: Seq<T>)
    ensures
        lcs_len(a, b) == lcs_len(b, a),
    decreases a.len() + b.len(),
{
    if a.len() > 0 && b.len() > 0 {
        law_lcs_symmetric(a.drop_last(), b.drop_last());
        law_lcs_symmetric(a.drop_last(), b);
        law_lcs_symmetric(a, b.drop_last());
    }
}

/// A text is at Levenshtein distance zero from itself.
pub proof fn law_edit_distance_of_identical(a: Seq<char>)
    ensures
        edit_distance(a, a) == 0,
    decreases a.len(),
{
    if a.len() > 0 {
        law_edit_distance_of_identical(a.drop_last());
    }
}

/// The Levenshtein distance does not depend on the order of the two texts.
pub proof fn law_edit_distance_symmetric(a: Seq<char>, b: Seq<char>)
    ensures
        edit_distance(a, b) == edit_distance(b, a),
    decreases a.len() + b.len(),
{
    if a.len() > 0 && b.len() > 0 {
        law_edit_distance_symmetric(a.drop_last(), b.drop_last());
        law_edit_distance_symmetric(a.drop_last(), b);
        law_edit_distance_symmetric(a, b.drop_last());
    }
}

/// Every item of a sequence is matched when it is compared with itself: the clipped overlap of
/// identical n-gram lists is their length.
pub proof fn law_clipped_overlap_of_identical<T>(a: Seq<T>)
    ensures
        clipped_overlap(a, a) == a.len(),
{
    broadcast use vstd::seq_lib::group_to_multiset_ensures, vstd::multiset::group_multiset_axioms;

    let m = a.to_multiset();
    assert forall|v: T| m.intersection_with(m).count(v) == m.count(v) by {
        crate::overlap::lemma_intersection_count(m, m, v);
    }
    assert(m.intersection_with(m) =~= m);
}

/// A dataset store gives back, under a name, the dataset last saved under it, and saving under
/// one name leaves every other name as it was; a deleted name is gone.
pub proof fn law_store_read_after_write(
    stored: Map<Seq<char>, DatasetContents>,
    name: Seq<char>,
    other: Seq<char>,
    dataset: DatasetContents,
)
    ensures
        stored.insert(name, dataset).contains_key(name),
        stored.insert(name, dataset)[name] == dataset,
        other != name ==> (stored.insert(name, dataset).contains_key(other) == stored.contains_key(other)),
        other != name && stored.contains_key(other) ==> stored.insert(name, dataset)[other] == stored[other],
        !stored.remove(name).contains_key(name),
{
}

/// A key-value cache gives back the value last put under a key; a deleted key is gone.
pub proof fn law_cache_read_after_write(entries: Map<Seq<char>, Seq<u8>>, key: Seq<char>, other: Seq<char>, value: Seq<u8>)
    ensures
        entries.insert(key, value)[key] == value,
        other != key && entries.contains_key(other) ==> entries.insert(key, value)[other] == entries[other],
        !entries.insert(key, value).remove(key).contains_key(key),
{
}

/// A configuration value set (and not blank) in the environment wins over the `.env` file.
pub proof fn law_environment_wins(
    env: Map<Seq<char>, Seq<char>>,
    dotenv: Map<Seq<char>, Seq<char>>,
    key: Seq<char>,
)
    requires
        env.contains_key(key),
        non_blank(Some(env[key])) is Some,
    ensures
        config_value(env, dotenv, key) == Some(env[key]),
{
}

/// Redaction keeps every key, replaces every credential by the marker, leaves every other value
/// as it was, and redacting again changes nothing.
pub proof fn law_redaction(fields: Map<Seq<char>, Seq<char>>)
    ensures
        redacted(fields).dom() == fields.dom(),
        forall|k: Seq<char>| #[trigger] redacted(fields).contains_key(k) && is_sensitive(k) ==> redacted(fields)[k] == redacted_marker(),
        forall|k: Seq<char>| #[trigger] redacted(fields).contains_key(k) && !is_sensitive(k) ==> redacted(fields)[k] == fields[k],
        redacted(redacted(fields)) == redacted(fields),
{
    assert(redacted(fields).dom() =~= fields.dom());
    assert(redacted(redacted(fields)) =~= redacted(fields));
}

/// A registered metric is found under its name, and it is visible once its feature (if it has
/// one) is enabled.
pub proof fn law_registered_metric_resolves(
    entries: Map<Seq<char>, MetricRegistryEntry>,
    features: Set<Seq<char>>,
    entry: MetricRegistryEntry,
)
    ensures
        entries.insert(entry.name_view(), entry)[entry.name_view()] == entry,
        visible(
            entry.feature_view(),
            match entry.feature_view() {
                Some(f) => features.insert(f),
                None => features,
            },
        ),
{
}

/// Crossover with the cut at the start gives the right parent's words, and with the cut at the
/// end (the longer parent's word count) gives the left parent's words.
pub proof fn law_crossover_ends(left: Seq<char>, right: Seq<char>, seed: u64)
    ensures
        ({
            let span = if words(left).len() >= words(right).len() {
                words(left).len()
            } else {
                words(right).len()
            };
            &&& span > 0 && (seed as nat) % (span + 1) == 0 ==> crossover_prompt(left, right, seed) == join_tokens(words(right))
            &&& span > 0 && (seed as nat) % (span + 1) == span ==> crossover_prompt(left, right, seed) == join_tokens(words(left))
        }),
{
    let lw = words(left);
    let rw = words(right);
    assert(lw.take(0) + rw.skip(0) =~= rw);
    assert(lw.take(lw.len() as int) + rw.skip(rw.len() as int) =~= lw);
}

/// Every documented quickstart whose parity is complete carries exactly one fixture, under the
/// feature `docs::quickstart::<slug>`; the others carry none.
pub proof fn law_complete_quickstarts_have_fixtures(i: int)
    requires
        0 <= i < quickstart_table().len(),
    ensures
        ({
            let claim = docs_claim(quickstart_table()[i]);
            &&& claim.status == ParityFeatureStatus::Complete ==> claim.fixtures.len() == 1 && claim.fixtures[0].feature == claim.feature
            &&& claim.status != ParityFeatureStatus::Complete ==> claim.fixtures.len() == 0
        }),
{
}

/// Whether a sample is kept whole by a sheet: a sheet stores no reference contexts and no
/// context identifiers, an empty cell reads back as an absent reference, and an empty metadata
/// cell reads back as no entry.
pub open spec fn sheet_representable(s: SingleTurnView) -> bool {
    &&& s.reference != Some(Seq::<char>::empty())
    &&& s.reference_contexts.len() == 0
    &&& s.retrieved_context_ids.len() == 0
    &&& s.reference_context_ids.len() == 0
    &&& forall|k: Seq<char>| #[trigger] s.metadata.contains_key(k) ==> s.metadata[k].len() > 0
}

proof fn lemma_row_columns(ss: Seq<SingleTurnView>, i: int, h: Seq<char>)
    requires
        0 <= i < ss.len(),
        gdrive_row_map(ss[i]).contains_key(h),
    ensures
        gdrive_columns(ss).contains(h),
    decreases ss.len(),
{
    if i < ss.len() - 1 {
        assert(ss.drop_last()[i] == ss[i]);
        lemma_row_columns(ss.drop_last(), i, h);
    }
}

proof fn lemma_first_pos_found(hs: Seq<Seq<char>>, x: Seq<char>)
    requires
        hs.contains(x),
    ensures
        first_pos(hs, x) matches Some(p) && 0 <= p < hs.len() && hs[p] == x,
    decreases hs.len(),
{
    if hs[0] != x {
        let j = choose|j: int| 0 <= j < hs.len() && hs[j] == x;
        assert(hs.drop_first()[j - 1] == x);
        lemma_first_pos_found(hs.drop_first(), x);
    }
}

proof fn lemma_prefixed(k: Seq<char>)
    ensures
        (metadata_prefix() + k).len() >= 9,
        (metadata_prefix() + k).take(9) == metadata_prefix(),
        (metadata_prefix() + k).skip(9) == k,
{
    reveal_strlit("metadata.");
    assert((metadata_prefix() + k).take(9) =~= metadata_prefix());
    assert((metadata_prefix() + k).skip(9) =~= k);
}

proof fn lemma_fixed_cells(s: SingleTurnView)
    ensures
        gdrive_row_map(s).contains_key("user_input"@) && gdrive_row_map(s)["user_input"@] == s.user_input,
        gdrive_row_map(s).contains_key("response"@) && gdrive_row_map(s)["response"@] == s.response,
        gdrive_row_map(s).contains_key("retrieved_contexts"@) && gdrive_row_map(s)["retrieved_contexts"@]
            == crate::codec::json_string_list(s.retrieved_contexts),
        gdrive_row_map(s).contains_key("reference"@) && gdrive_row_map(s)["reference"@] == match s.reference {
            Some(r) => r,
            None => Seq::empty(),
        },
{
    reveal_strlit("metadata.");
    reveal_strlit("user_input");
    reveal_strlit("response");
    reveal_strlit("retrieved_contexts");
    reveal_strlit("reference");
    let p = prefixed_metadata(s.metadata);
    assert(!p.contains_key("user_input"@)) by {
        assert("user_input"@.take(9) != metadata_prefix()) by {
            assert("user_input"@.take(9)[0] != metadata_prefix()[0]);
        }
    }
    assert(!p.contains_key("response"@)) by {
        assert("response"@.len() < 9);
    }
    assert(!p.contains_key("retrieved_contexts"@)) by {
        assert("retrieved_contexts"@.take(9)[0] != metadata_prefix()[0]);
    }
    assert(!p.contains_key("reference"@)) by {
        assert("reference"@.take(9)[0] != metadata_prefix()[0]);
    }
}

/// The metadata read back from the first `n` columns of a sample's row.
proof fn lemma_row_metadata(hs: Seq<Seq<char>>, row: Seq<Seq<char>>, s: SingleTurnView, n: int)
    requires
        0 <= n <= hs.len(),
        row.len() == hs.len(),
        forall|c: int| 0 <= c < hs.len() ==> #[trigger] row[c] == gdrive_cell(s, hs[c]),
        sheet_representable(s),
    ensures
        row_metadata(hs, row, n) == Map::new(
            |k: Seq<char>| s.metadata.contains_key(k) && hs.take(n).contains(metadata_prefix() + k),
            |k: Seq<char>| s.metadata[k],
        ),
    decreases n,
{
    reveal_strlit("metadata.");
    let want = Map::new(
        |k: Seq<char>| s.metadata.contains_key(k) && hs.take(n).contains(metadata_prefix() + k),
        |k: Seq<char>| s.metadata[k],
    );
    if n == 0 {
        assert(row_metadata(hs, row, n) =~= want);
    } else {
        lemma_row_metadata(hs, row, s, n - 1);
        let before = Map::new(
            |k: Seq<char>| s.metadata.contains_key(k) && hs.take(n - 1).contains(metadata_prefix() + k),
            |k: Seq<char>| s.metadata[k],
        );
        let h = hs[n - 1];
        assert(hs.take(n) =~= hs.take(n - 1).push(h));
        assert forall|x: Seq<char>| #[trigger] hs.take(n).contains(x) <==> (hs.take(n - 1).contains(x) || x == h) by {
            if hs.take(n).contains(x) {
                let j = choose|j: int| 0 <= j < n && #[trigger] hs.take(n)[j] == x;
                if j < n - 1 {
                    assert(hs.take(n - 1)[j] == x);
                }
            }
            if hs.take(n - 1).contains(x) {
                let j = choose|j: int| 0 <= j < n - 1 && #[trigger] hs.take(n - 1)[j] == x;
                assert(hs.take(n)[j] == x);
            }
            if x == h {
                assert(hs.take(n)[n - 1] == x);
            }
        }
        let m = gdrive_row_map(s);
        assert(row[n - 1] == gdrive_cell(s, h));
        if h.len() >= 9 && h.take(9) == metadata_prefix() {
            let k = h.skip(9);
            assert(h =~= metadata_prefix() + k);
            lemma_prefixed(k);
            assert forall|k2: Seq<char>| metadata_prefix() + k2 == h implies k2 == k by {
                lemma_prefixed(k2);
            }
            if s.metadata.contains_key(k) {
                assert(prefixed_metadata(s.metadata).contains_key(h));
                assert(m[h] == s.metadata[k]);
                assert(row[n - 1] == s.metadata[k]);
                assert(row_metadata(hs, row, n) == before.insert(k, s.metadata[k]));
                assert(row_metadata(hs, row, n) =~= want);
            } else {
                assert(!prefixed_metadata(s.metadata).contains_key(h));
                lemma_fixed_cells(s);
                assert(!m.contains_key(h)) by {
                    reveal_strlit("user_input");
                    reveal_strlit("response");
                    reveal_strlit("retrieved_contexts");
                    reveal_strlit("reference");
                    if m.contains_key(h) {
                        assert(h == "user_input"@ || h == "response"@ || h == "retrieved_contexts"@ || h == "reference"@);
                        assert(h[0] == 'm');
                    }
                }
                assert(row[n - 1].len() == 0);
                assert(row_metadata(hs, row, n) =~= want);
            }
        } else {
            assert forall|k2: Seq<char>| metadata_prefix() + k2 != h by {
                lemma_prefixed(k2);
            }
            assert(row_metadata(hs, row, n) =~= want);
        }
    }
}

/// A sheet written for a dataset reads back as the same samples: every data row parses and
/// gives back its sample, for samples that a sheet keeps whole and whose retrieved contexts
/// survive a JSON round trip (which the sheet writer guarantees).
pub proof fn law_gdrive_sheet_round_trip(ss: Seq<SingleTurnView>, rows: Seq<Seq<Seq<char>>>)
    requires
        is_gdrive_sheet(ss, rows),
        contexts_round_trip(ss),
        forall|i: int| 0 <= i < ss.len() ==> sheet_representable(#[trigger] ss[i]),
    ensures
        ss.len() > 0 ==> sheet_header(rows).len() > 0,
        sheet_rows_parse(rows),
        sheet_samples(rows) == ss,
{
    let hs = rows[0];
    assert forall|i: int| 0 <= i < ss.len() implies row_sample(hs, #[trigger] rows[i + 1]) == Some(ss[i]) by {
        let s = ss[i];
        let row = rows[i + 1];
        assert(row.len() == hs.len());
        assert forall|c: int| 0 <= c < hs.len() implies #[trigger] row[c] == gdrive_cell(s, hs[c]) by {}
        lemma_fixed_cells(s);
        lemma_row_columns(ss, i, "user_input"@);
        lemma_row_columns(ss, i, "response"@);
        lemma_row_columns(ss, i, "retrieved_contexts"@);
        lemma_row_columns(ss, i, "reference"@);
        lemma_first_pos_found(hs, "user_input"@);
        lemma_first_pos_found(hs, "response"@);
        lemma_first_pos_found(hs, "retrieved_contexts"@);
        lemma_first_pos_found(hs, "reference"@);
        assert(column_value(hs, row, "user_input"@) == Some(s.user_input));
        assert(column_value(hs, row, "response"@) == Some(s.response));
        assert(column_value(hs, row, "retrieved_contexts"@) == Some(crate::codec::json_string_list(s.retrieved_contexts)));
        assert(crate::codec::json_list_round_trips(s.retrieved_contexts));
        assert(column_value(hs, row, "reference"@) == Some(match s.reference {
            Some(r) => r,
            None => Seq::<char>::empty(),
        }));
        if let Some(r) = s.reference {
            if r.len() == 0 {
                assert(r =~= Seq::<char>::empty());
            }
        }
        assert(nonempty_value(column_value(hs, row, "reference"@)) == s.reference);
        lemma_row_metadata(hs, row, s, hs.len() as int);
        assert(hs.take(hs.len() as int) =~= hs);
        assert forall|k: Seq<char>| #[trigger] s.metadata.contains_key(k) implies hs.contains(metadata_prefix() + k) by {
            lemma_prefixed(k);
            assert(prefixed_metadata(s.metadata).contains_key(metadata_prefix() + k));
            assert(gdrive_row_map(s).contains_key(metadata_prefix() + k));
            lemma_row_columns(ss, i, metadata_prefix() + k);
        }
        assert(row_metadata(hs, row, hs.len() as int) =~= s.metadata);
        assert(s.reference_contexts =~= Seq::<Seq<char>>::empty());
        assert(s.retrieved_context_ids =~= Seq::<Seq<char>>::empty());
        assert(s.reference_context_ids =~= Seq::<Seq<char>>::empty());
    }
    assert forall|i: int| 1 <= i < rows.len() implies (#[trigger] row_sample(rows[0], rows[i])) is Some by {
        assert(row_sample(hs, rows[(i - 1) + 1]) == Some(ss[i - 1]));
    }
    assert(sheet_samples(rows) =~= ss) by {
        assert forall|i: int| 0 <= i < ss.len() implies sheet_samples(rows)[i] == ss[i] by {
            assert(row_sample(hs, rows[i + 1]) == Some(ss[i]));
        }
    }
    if ss.len() > 0 {
        lemma_fixed_cells(ss[0]);
        lemma_row_columns(ss, 0, "user_input"@);
        assert(rows[0].contains("user_input"@));
    }
}


/// A judge reply that is exactly one JSON object, opening with `{` and closing with `}`, is
/// read as it stands.
pub proof fn law_bare_json_object_unchanged(s: Seq<char>)
    requires
        s.len() > 0,
        s[0] == '{',
        s.last() == '}',
    ensures
        json_block(s) == s,
{
    assert(first_at(s, '{', 0));
    assert(last_at(s, '}', s.len() - 1));
    assert(s.contains('{'));
    assert(s.contains('}'));
    let i = choose|i: int| first_at(s, '{', i);
    let k = choose|k: int| last_at(s, '}', k);
    assert(i == 0) by {
        if i > 0 {
            assert(s[0] == '{');
        }
    }
    assert(k == s.len() - 1) by {
        if k < s.len() - 1 {
            assert(s[s.len() - 1] == '}');
        }
    }
    assert(s.subrange(0, s.len() as int) =~= s);
}

proof fn lemma_sentences_from_nonempty(s: Seq<char>, cur: Seq<char>)
    ensures
        forall|i: int| 0 <= i < sentences_from(s, cur).len() ==> #[trigger] sentences_from(s, cur)[i].len() > 0,
    decreases s.len(),
{
    if s.len() == 0 {
        let a = kept_trimmed(cur);
        assert(sentences_from(s, cur) == a);
        assert forall|i: int| 0 <= i < a.len() implies #[trigger] a[i].len() > 0 by {
            assert(a[i] == crate::text::trim(cur));
        }
    } else if crate::judged::is_terminator(s[0]) {
        lemma_sentences_from_nonempty(s.drop_first(), Seq::empty());
        let a = kept_trimmed(cur.push(s[0]));
        let b = sentences_from(s.drop_first(), Seq::empty());
        assert(sentences_from(s, cur) == a + b);
        assert forall|i: int| 0 <= i < (a + b).len() implies #[trigger] (a + b)[i].len() > 0 by {
            if i >= a.len() {
                assert((a + b)[i] == b[i - a.len()]);
            } else {
                assert((a + b)[i] == a[i]);
                assert(a[i] == crate::text::trim(cur.push(s[0])));
            }
        }
    } else {
        lemma_sentences_from_nonempty(s.drop_first(), cur.push(s[0]));
        assert(sentences_from(s, cur) == sentences_from(s.drop_first(), cur.push(s[0])));
    }
}

/// Sentence splitting never yields an empty sentence.
pub proof fn law_sentences_nonempty(s: Seq<char>)
    ensures
        forall|i: int| 0 <= i < sentences(s).len() ==> #[trigger] sentences(s)[i].len() > 0,
{
    lemma_sentences_from_nonempty(s, Seq::empty());
}


proof fn lemma_map_preserves_multiset<A, B>(s1: Seq<A>, s2: Seq<A>, f: spec_fn(A) -> B)
    requires
        s1.to_multiset() == s2.to_multiset(),
    ensures
        s1.map_values(f).to_multiset() == s2.map_values(f).to_multiset(),
    decreases s1.len(),
{
    broadcast use vstd::seq_lib::group_to_multiset_ensures;

    if s1.len() == 0 {
        assert(s2.to_multiset().len() == 0);
        assert(s2.len() == 0);
        assert(s1.map_values(f) =~= Seq::<B>::empty());
        assert(s2.map_values(f) =~= Seq::<B>::empty());
    } else {
        let x = s1.last();
        let init = s1.drop_last();
        assert(s1 =~= init.push(x));
        assert(s1.to_multiset() == init.to_multiset().insert(x));
        assert(s2.to_multiset().count(x) > 0);
        assert(s2.contains(x));
        let k = choose|k: int| 0 <= k < s2.len() && s2[k] == x;
        let rest = s2.remove(k);
        assert(rest.to_multiset() == s2.to_multiset().remove(x));
        assert(init.to_multiset() =~= rest.to_multiset());
        lemma_map_preserves_multiset(init, rest, f);
        assert(s1.map_values(f) =~= init.map_values(f).push(f(x)));
        assert(rest.map_values(f) =~= s2.map_values(f).remove(k));
        assert(s2.map_values(f)[k] == f(x));
        assert(s2.map_values(f).remove(k).to_multiset() == s2.map_values(f).to_multiset().remove(f(x)));
        assert(s2.map_values(f).to_multiset().count(f(x)) > 0) by {
            assert(s2.map_values(f).contains(f(x)));
        }
        assert(s2.map_values(f).to_multiset() =~= s2.map_values(f).to_multiset().remove(f(x)).insert(f(x)));
    }
}

/// The tool calls two conversations made in different orders overlap the reference equally: the
/// tool-call overlap (behind tool-call F1) does not depend on the order of the calls.
pub proof fn law_tool_call_overlap_order_independent(reference: Seq<ToolCall>, a: Seq<ToolCall>, b: Seq<ToolCall>)
    requires
        a.to_multiset() == b.to_multiset(),
    ensures
        crate::overlap::clipped_overlap(call_keys(reference), call_keys(a))
            == crate::overlap::clipped_overlap(call_keys(reference), call_keys(b)),
{
    lemma_map_preserves_multiset(a, b, |c: ToolCall| crate::agentic::call_key(c@));
}


/// Whether a sample is kept whole by the CSV of a dataset: as by a sheet, and besides, the
/// sample is valid, none of its text fields begins or ends with whitespace (the reader trims
/// fields), and each metadata key is non-empty and does not end with whitespace.
pub open spec fn csv_representable(s: SingleTurnView) -> bool {
    &&& sheet_representable(s)
    &&& view_problem(s) is None
    &&& csv_field_untrimmed(s.user_input)
    &&& csv_field_untrimmed(s.response)
    &&& s.reference matches Some(r) ==> csv_field_untrimmed(r)
    &&& forall|k: Seq<char>| #[trigger] s.metadata.contains_key(k) ==> k.len() > 0 && !is_ws(k.last())
        && csv_field_untrimmed(s.metadata[k])
}

proof fn lemma_untrimmed(f: Seq<char>)
    requires
        csv_field_untrimmed(f),
    ensures
        trim(f) == f,
{
    reveal_with_fuel(crate::text::strip_start, 2);
    reveal_with_fuel(crate::text::strip_end, 2);
}

proof fn lemma_first_pos_at(hs: Seq<Seq<char>>, x: Seq<char>, p: int)
    requires
        0 <= p < hs.len(),
        hs[p] == x,
        forall|j: int| 0 <= j < p ==> hs[j] != x,
    ensures
        first_pos(hs, x) == Some(p),
    decreases p,
{
    if p > 0 {
        assert(hs[0] != x);
        lemma_first_pos_at(hs.drop_first(), x, p - 1);
    }
}

/// A metadata key of one of the samples is among the keys of all of them, and the other way
/// round.
proof fn lemma_metadata_keys(ss: Seq<SingleTurnView>, k: Seq<char>)
    ensures
        csv_metadata_keys(ss).contains(k) <==> exists|i: int| 0 <= i < ss.len() && (#[trigger] ss[i]).metadata.contains_key(k),
    decreases ss.len(),
{
    if ss.len() > 0 {
        let rest = ss.drop_last();
        lemma_metadata_keys(rest, k);
        if exists|i: int| 0 <= i < rest.len() && (#[trigger] rest[i]).metadata.contains_key(k) {
            let i = choose|i: int| 0 <= i < rest.len() && (#[trigger] rest[i]).metadata.contains_key(k);
            assert(ss[i] == rest[i]);
        }
        if exists|i: int| 0 <= i < ss.len() && (#[trigger] ss[i]).metadata.contains_key(k) {
            let i = choose|i: int| 0 <= i < ss.len() && (#[trigger] ss[i]).metadata.contains_key(k);
            if i < ss.len() - 1 {
                assert(rest[i] == ss[i]);
            }
        }
    }
}


/// The header that the CSV of a dataset starts with: the fixed columns where they stand, and
/// `metadata.<key>` after them; no fixed column looks like a metadata column.
proof fn lemma_csv_header(keys: Seq<Seq<char>>)
    ensures
        csv_out_header(keys).len() == 4 + keys.len(),
        csv_out_header(keys)[0] == "user_input"@,
        csv_out_header(keys)[1] == "response"@,
        csv_out_header(keys)[2] == "retrieved_contexts"@,
        csv_out_header(keys)[3] == "reference"@,
        forall|c: int| 4 <= c < 4 + keys.len() ==> #[trigger] csv_out_header(keys)[c] == metadata_prefix() + keys[c - 4],
        forall|c: int| 0 <= c < 4 ==> !(#[trigger] csv_out_header(keys)[c].len() >= 9 && csv_out_header(keys)[c].take(9) == "metadata."@),
        first_pos(csv_out_header(keys), "user_input"@) == Some(0int),
        first_pos(csv_out_header(keys), "response"@) == Some(1int),
        first_pos(csv_out_header(keys), "retrieved_contexts"@) == Some(2int),
        first_pos(csv_out_header(keys), "reference"@) == Some(3int),
        missing_column(csv_out_header(keys)) is None,
{
    reveal_strlit("user_input");
    reveal_strlit("response");
    reveal_strlit("retrieved_contexts");
    reveal_strlit("reference");
    reveal_strlit("metadata.");
    let hs = csv_out_header(keys);
    assert(hs[0] == "user_input"@);
    assert(hs[1] == "response"@);
    assert(hs[2] == "retrieved_contexts"@);
    assert(hs[3] == "reference"@);
    assert("user_input"@.take(9)[0] != "metadata."@[0]);
    assert("retrieved_contexts"@.take(9)[0] != "metadata."@[0]);
    assert("reference"@.take(9)[0] != "metadata."@[0]);
    lemma_first_pos_at(hs, "user_input"@, 0);
    lemma_first_pos_at(hs, "response"@, 1);
    lemma_first_pos_at(hs, "retrieved_contexts"@, 2);
    lemma_first_pos_at(hs, "reference"@, 3);
}

/// The metadata read back from the first `n` columns of a sample's CSV record.
proof fn lemma_csv_metadata(keys: Seq<Seq<char>>, s: SingleTurnView, n: int)
    requires
        0 <= n <= 4 + keys.len(),
        csv_representable(s),
    ensures
        csv_metadata(csv_out_header(keys), csv_out_record(s, keys), n) == Map::new(
            |k: Seq<char>| s.metadata.contains_key(k) && csv_out_header(keys).take(n).contains(metadata_prefix() + k),
            |k: Seq<char>| s.metadata[k],
        ),
    decreases n,
{
    let hs = csv_out_header(keys);
    let rec = csv_out_record(s, keys);
    lemma_csv_header(keys);
    let want = Map::new(
        |k: Seq<char>| s.metadata.contains_key(k) && hs.take(n).contains(metadata_prefix() + k),
        |k: Seq<char>| s.metadata[k],
    );
    if n == 0 {
        assert(csv_metadata(hs, rec, n) =~= want);
    } else {
        lemma_csv_metadata(keys, s, n - 1);
        let before = Map::new(
            |k: Seq<char>| s.metadata.contains_key(k) && hs.take(n - 1).contains(metadata_prefix() + k),
            |k: Seq<char>| s.metadata[k],
        );
        let h = hs[n - 1];
        assert(hs.take(n) =~= hs.take(n - 1).push(h));
        assert forall|x: Seq<char>| #[trigger] hs.take(n).contains(x) <==> (hs.take(n - 1).contains(x) || x == h) by {
            if hs.take(n).contains(x) {
                let j = choose|j: int| 0 <= j < n && #[trigger] hs.take(n)[j] == x;
                if j < n - 1 {
                    assert(hs.take(n - 1)[j] == x);
                }
            }
            if hs.take(n - 1).contains(x) {
                let j = choose|j: int| 0 <= j < n - 1 && #[trigger] hs.take(n - 1)[j] == x;
                assert(hs.take(n)[j] == x);
            }
            if x == h {
                assert(hs.take(n)[n - 1] == x);
            }
        }
        if n - 1 < 4 {
            assert forall|k2: Seq<char>| metadata_prefix() + k2 != h by {
                lemma_prefixed(k2);
            }
            assert(csv_metadata(hs, rec, n) =~= want);
        } else {
            let k = keys[n - 5];
            assert(h == metadata_prefix() + k);
            lemma_prefixed(k);
            assert forall|k2: Seq<char>| metadata_prefix() + k2 == h implies k2 == k by {
                lemma_prefixed(k2);
            }
            assert(rec[n - 1] == (if s.metadata.contains_key(k) { s.metadata[k] } else { Seq::<char>::empty() }));
            if s.metadata.contains_key(k) {
                lemma_untrimmed(s.metadata[k]);
                assert(csv_cell(rec, n - 1) == s.metadata[k]);
                assert(csv_metadata(hs, rec, n) == before.insert(k, s.metadata[k]));
                assert(csv_metadata(hs, rec, n) =~= want);
            } else {
                lemma_untrimmed(Seq::<char>::empty());
                assert(csv_cell(rec, n - 1).len() == 0);
                assert(csv_metadata(hs, rec, n) =~= want);
            }
        }
    }
}


/// The record of a sample that the CSV keeps whole reads back as that sample.
proof fn lemma_csv_row(ss: Seq<SingleTurnView>, keys: Seq<Seq<char>>, i: int)
    requires
        0 <= i < ss.len(),
        keys.to_set() == csv_metadata_keys(ss),
        csv_representable(ss[i]),
        crate::codec::json_list_round_trips(ss[i].retrieved_contexts),
    ensures
        csv_row(csv_out_header(keys), csv_out_record(ss[i], keys)) == Ok::<SingleTurnView, crate::csv_io::CsvRowFault>(ss[i]),
{
    let s = ss[i];
    let hs = csv_out_header(keys);
    let rec = csv_out_record(s, keys);
    lemma_csv_header(keys);
    reveal_strlit("user_input");
    reveal_strlit("response");
    reveal_strlit("retrieved_contexts");
    reveal_strlit("reference");
    assert(column(hs, "user_input"@) == 0);
    assert(column(hs, "response"@) == 1);
    assert(column(hs, "retrieved_contexts"@) == 2);
    lemma_untrimmed(s.user_input);
    lemma_untrimmed(s.response);
    let js = json_string_list(s.retrieved_contexts);
    assert(!is_ws(js[0]) && !is_ws(js.last()));
    lemma_untrimmed(js);
    assert(csv_cell(rec, 0) == s.user_input);
    assert(csv_cell(rec, 1) == s.response);
    assert(csv_cell(rec, 2) == js);
    assert(s.user_input.len() > 0);
    assert(s.response.len() > 0);
    let refcell = match s.reference {
        Some(r) => r,
        None => Seq::<char>::empty(),
    };
    lemma_untrimmed(refcell);
    assert(csv_cell(rec, 3) == refcell);
    if let Some(r) = s.reference {
        if r.len() == 0 {
            assert(r =~= Seq::<char>::empty());
        }
    }
    assert(nonempty_value(Some(csv_cell(rec, 3))) == s.reference);
    lemma_csv_metadata(keys, s, hs.len() as int);
    assert(hs.take(hs.len() as int) =~= hs);
    assert forall|k: Seq<char>| #[trigger] s.metadata.contains_key(k) implies hs.contains(metadata_prefix() + k) by {
        lemma_metadata_keys(ss, k);
        assert(keys.to_set().contains(k));
        let j = choose|j: int| 0 <= j < keys.len() && keys[j] == k;
        assert(hs[4 + j] == metadata_prefix() + k);
    }
    assert(csv_metadata(hs, rec, hs.len() as int) =~= s.metadata);
    assert(s.reference_contexts =~= Seq::<Seq<char>>::empty());
    assert(s.retrieved_context_ids =~= Seq::<Seq<char>>::empty());
    assert(s.reference_context_ids =~= Seq::<Seq<char>>::empty());
}


/// The records of the CSV of samples that the CSV keeps whole come back unchanged from the
/// reader.
proof fn lemma_csv_table_reads_back(ss: Seq<SingleTurnView>, keys: Seq<Seq<char>>)
    requires
        keys.to_set() == csv_metadata_keys(ss),
        forall|i: int| 0 <= i < ss.len() ==> csv_representable(#[trigger] ss[i]),
        contexts_round_trip(ss),
    ensures
        csv_reads_back(csv_out_table(ss, keys)),
{
    let t = csv_out_table(ss, keys);
    let hs = csv_out_header(keys);
    lemma_csv_header(keys);
    reveal_strlit("user_input");
    reveal_strlit("response");
    reveal_strlit("retrieved_contexts");
    reveal_strlit("reference");
    reveal_strlit("metadata.");
    assert(t[0] == hs);
    assert forall|a: int| 0 <= a < t.len() implies (#[trigger] t[a]).len() == t[0].len() by {
        if a > 0 {
            assert(t[a] == csv_out_record(ss[a - 1], keys));
        }
    }
    assert forall|a: int, j: int| 0 <= a < t.len() && 0 <= j < t[a].len() implies csv_field_untrimmed(#[trigger] t[a][j]) by {
        if a == 0 {
            if j >= 4 {
                let k = keys[j - 4];
                assert(hs[j] == metadata_prefix() + k);
                assert(hs[j][0] == 'm');
                if k.len() > 0 {
                    assert(hs[j].last() == k.last());
                    lemma_metadata_keys(ss, k);
                    assert(keys.to_set().contains(k)) by {
                        assert(keys[j - 4] == k);
                    }
                    let i = choose|i: int| 0 <= i < ss.len() && (#[trigger] ss[i]).metadata.contains_key(k);
                    assert(csv_representable(ss[i]));
                } else {
                    assert(hs[j].last() == '.');
                }
            }
        } else {
            let s = ss[a - 1];
            assert(csv_representable(s));
            assert(crate::codec::json_list_round_trips(s.retrieved_contexts));
            assert(t[a] == csv_out_record(s, keys));
            if j >= 4 {
                let k = keys[j - 4];
                assert(t[a][j] == (if s.metadata.contains_key(k) { s.metadata[k] } else { Seq::<char>::empty() }));
            }
        }
    }
}

/// What the CSV backend saves of a dataset of single-turn samples, it loads back: the text that
/// `save` stores (the CSV of the samples under their metadata keys in ascending order) reads as
/// a dataset, never as an error, and gives back the same samples, for a non-empty dataset whose
/// samples the CSV keeps whole.
pub proof fn law_csv_save_then_load(ss: Seq<SingleTurnView>, keys: Seq<Seq<char>>, text: Seq<char>)
    requires
        ss.len() > 0,
        forall|i: int| 0 <= i < ss.len() ==> csv_representable(#[trigger] ss[i]),
        keys.to_set() == csv_metadata_keys(ss),
        contexts_round_trip(ss),
        csv_reads_back(csv_out_table(ss, keys)) ==> csv_read(text, true, false) == (csv_out_table(ss, keys), false),
    ensures
        csv_imports(text),
        csv_sample_views(text) == ss.map_values(|v: SingleTurnView| EvaluationSampleView::SingleTurn(v)),
        forall|e: crate::error::RagasError| !csv_import_error(text, e),
{
    lemma_csv_table_reads_back(ss, keys);
    let recs = csv_read(text, true, false).0;
    let t = csv_out_table(ss, keys);
    assert(recs == t);
    lemma_csv_header(keys);
    assert(recs[0] == csv_out_header(keys));
    assert forall|k: int| 1 <= k < recs.len() implies row_accepted(recs[0], #[trigger] recs[k]) by {
        assert(recs[k] == csv_out_record(ss[k - 1], keys));
        lemma_csv_row(ss, keys, k - 1);
    }
    assert(all_rows_accepted(recs));
    assert(csv_samples(recs) =~= ss) by {
        assert forall|k: int| 0 <= k < ss.len() implies csv_samples(recs)[k] == ss[k] by {
            assert(recs[k + 1] == csv_out_record(ss[k], keys));
            lemma_csv_row(ss, keys, k);
        }
    }
    assert(csv_sample_views(text) =~= ss.map_values(|v: SingleTurnView| EvaluationSampleView::SingleTurn(v)));
    assert forall|e: crate::error::RagasError| !csv_import_error(text, e) by {
        if exists|k: int|
            #![trigger recs[k]]
            {
                &&& 1 <= k < recs.len()
                &&& forall|j: int| 1 <= j < k ==> row_accepted(recs[0], #[trigger] recs[j])
                &&& !row_accepted(recs[0], recs[k])
                &&& crate::csv_io::row_error(recs[0], recs[k], k, e)
            } {
            let k = choose|k: int|
                #![trigger recs[k]]
                {
                    &&& 1 <= k < recs.len()
                    &&& forall|j: int| 1 <= j < k ==> row_accepted(recs[0], #[trigger] recs[j])
                    &&& !row_accepted(recs[0], recs[k])
                    &&& crate::csv_io::row_error(recs[0], recs[k], k, e)
                };
            assert(row_accepted(recs[0], recs[k]));
        }
    }
}


/// A dataset made from one sample (`from_sample`) is the dataset of the one-sample list
/// (`new`): both succeed exactly when the sample has no problem, and an error `e` is the one
/// `new` may give exactly when it is the one `from_sample` gives (the sample's problem at
/// index 0).
pub proof fn law_from_sample_is_new_of_one(s: crate::dataset::SingleTurnSample, e: crate::error::RagasError)
    ensures
        build_outcome_ok(seq![s], |x: crate::dataset::SingleTurnSample| sample_problem(x)) <==> sample_problem(s) is None,
        build_error_ok(seq![s], |x: crate::dataset::SingleTurnSample| sample_problem(x), e)
            <==> (sample_problem(s) matches Some(p) && is_invalid_sample_error(e, 0, p)),
{
    let one = seq![s];
    assert(one[0] == s);
}

/// A Google Drive backend whose in-memory transport holds the one sheet that saving the dataset
/// `name` wrote lists exactly `name`: the transport lists its sheets in ascending order, and the
/// backend lists each sheet name without its `.gsheet` suffix.
pub proof fn law_gdrive_lone_sheet_listed(name: Seq<char>, rows: Seq<Seq<Seq<char>>>)
    ensures
        dataset_names(sorted_key_list(Map::<Seq<char>, Seq<Seq<Seq<char>>>>::empty().insert(gdrive_sheet_name(name), rows)))
            == seq![name],
{
    reveal_strlit(".gsheet");
    let g = gdrive_sheet_name(name);
    let m = Map::<Seq<char>, Seq<Seq<Seq<char>>>>::empty().insert(g, rows);
    let one = seq![g];
    assert forall|k: Seq<char>| #[trigger] one.contains(k) <==> m.contains_key(k) by {
        if one.contains(k) {
            let i = choose|i: int| 0 <= i < one.len() && one[i] == k;
            assert(i == 0);
        }
        if m.contains_key(k) {
            assert(one[0] == k);
        }
    }
    lemma_sorted_key_list(m, one);
    assert(one.drop_last() =~= Seq::<Seq<char>>::empty());
    assert(dataset_names(one.drop_last()) == Seq::<Seq<char>>::empty());
    assert(one.last() == g);
    assert(g.len() >= 7);
    assert(g.skip(g.len() - 7) =~= ".gsheet"@);
    assert(g.take(g.len() - 7) =~= name);
    assert(dataset_names(one) =~= seq![name]);
}

} // verus!

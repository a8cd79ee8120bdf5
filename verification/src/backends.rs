//! Storage backends: a key/value cache with `diskcache` semantics, dataset
//! backends that save, load, list and delete datasets by name, and the Google Drive backend,
//! which stores each dataset as a sheet of string rows through a transport.
use vstd::prelude::*;

use crate::dataset::{
    metadata_view, opt_string_view, strings_view, EvaluationDataset, EvaluationSample,
    EvaluationSampleView, SingleTurnSample, SingleTurnView,
};
use crate::error::RagasError;
use crate::string_map::{lemma_sorted_key_list, sorted_key_list, strictly_sorted, StringMap};
use crate::text::{push_str, to_owned_string};

verus! {

/// How a Google Drive backend may authenticate.
#[derive(Debug, Clone, Copy, PartialEq, Eq, Structural, PartialOrd, Ord, Hash)]
pub enum GDriveAuthMode {
    ServiceAccount,
    OAuth,
}

/// The configuration contract of the Google Drive backend: the environment variables it reads
/// credentials from, its OAuth scopes, its authentication modes and its folder layout.
#[derive(Debug, Clone, PartialEq, Eq)]
pub struct GDriveBackendConfig {
    pub folder_id: String,
    pub credentials_env: String,
    pub service_account_env: String,
    pub token_env: String,
    pub token_default: String,
    pub scopes: Vec<String>,
    pub auth_modes: Vec<GDriveAuthMode>,
    pub datasets_folder_name: String,
    pub experiments_folder_name: String,
}

impl GDriveBackendConfig {
    /// The configuration for the Drive folder `folder_id`, with the standard environment
    /// variables, scopes, modes and folder names.
    pub fn new(folder_id: &str) -> (c: Self)
        ensures
            c.folder_id@ == folder_id@,
            c.credentials_env@ == "GDRIVE_CREDENTIALS_PATH"@,
            c.service_account_env@ == "GDRIVE_SERVICE_ACCOUNT_PATH"@,
            c.token_env@ == "GDRIVE_TOKEN_PATH"@,
            c.token_default@ == "token.json"@,
            strings_view(c.scopes@) == seq![
                "https://www.googleapis.com/auth/drive"@,
                "https://www.googleapis.com/auth/spreadsheets"@,
            ],
            c.auth_modes@ == seq![GDriveAuthMode::ServiceAccount, GDriveAuthMode::OAuth],
            c.datasets_folder_name@ == "datasets"@,
            c.experiments_folder_name@ == "experiments"@,
    {
        let mut scopes: Vec<String> = Vec::new();
        scopes.push(to_owned_string("https://www.googleapis.com/auth/drive"));
        scopes.push(to_owned_string("https://www.googleapis.com/auth/spreadsheets"));
        let mut auth_modes: Vec<GDriveAuthMode> = Vec::new();
        auth_modes.push(GDriveAuthMode::ServiceAccount);
        auth_modes.push(GDriveAuthMode::OAuth);
        let c = GDriveBackendConfig {
            folder_id: to_owned_string(folder_id),
            credentials_env: to_owned_string("GDRIVE_CREDENTIALS_PATH"),
            service_account_env: to_owned_string("GDRIVE_SERVICE_ACCOUNT_PATH"),
            token_env: to_owned_string("GDRIVE_TOKEN_PATH"),
            token_default: to_owned_string("token.json"),
            scopes,
            auth_modes,
            datasets_folder_name: to_owned_string("datasets"),
            experiments_folder_name: to_owned_string("experiments"),
        };
        assert(strings_view(c.scopes@) =~= seq![
            "https://www.googleapis.com/auth/drive"@,
            "https://www.googleapis.com/auth/spreadsheets"@,
        ]);
        c
    }
}

/// The message of the error for a missing backend entry.
pub open spec fn not_found_message(name: Seq<char>) -> Seq<char> {
    "dataset backend entry not found: "@ + name
}

/// The error for a missing backend entry.
pub fn not_found(name: &str) -> (e: RagasError)
    ensures
        e matches RagasError::DatasetIo { message } && message@ == not_found_message(name@),
{
    let mut message = String::new();
    push_str(&mut message, "dataset backend entry not found: ");
    push_str(&mut message, name);
    RagasError::DatasetIo { message }
}

/// Whether `keys` lists exactly the keys of `m`, in ascending order.
pub open spec fn lists_keys_of<V>(keys: Seq<Seq<char>>, m: Map<Seq<char>, V>) -> bool {
    &&& strictly_sorted(keys)
    &&& forall|k: Seq<char>| #[trigger] keys.contains(k) <==> m.contains_key(k)
}

fn copy_bytes(v: &Vec<u8>) -> (out: Vec<u8>)
    ensures
        out@ == v@,
{
    let out = v.clone();
    assert forall|i: int| 0 <= i < v@.len() implies out@[i] == v@[i] by {
        assert(vstd::pervasive::cloned(v@[i], out@[i]));
    }
    assert(out@ =~= v@);
    out
}

/// The lowercase hexadecimal digit of a value below 16.
pub open spec fn hex_digit(n: u8) -> char {
    if n < 10 {
        (48 + n) as char
    } else {
        (87 + n) as char
    }
}

/// Every byte as two lowercase hexadecimal digits, high half first.
pub open spec fn hex_pairs(bytes: Seq<u8>) -> Seq<char>
    decreases bytes.len(),
{
    if bytes.len() == 0 {
        Seq::empty()
    } else {
        hex_pairs(bytes.drop_last()) + seq![hex_digit(bytes.last() / 16), hex_digit(bytes.last() % 16)]
    }
}

/// The file stem under which a disk cache stores a key: the hexadecimal digits of the key's
/// UTF-8 bytes, or `empty` for the empty key.
pub open spec fn hex_file_stem(key: Seq<char>) -> Seq<char> {
    if key.len() == 0 {
        "empty"@
    } else {
        hex_pairs(vstd::utf8::encode_utf8(key))
    }
}

fn nibble_to_hex(nibble: u8) -> (c: char)
    requires
        nibble < 16,
    ensures
        c == hex_digit(nibble),
{
    if nibble < 10 {
        crate::text::char_from_ascii(48 + nibble as u32)
    } else {
        crate::text::char_from_ascii(87 + nibble as u32)
    }
}

/// The file stem of a key in a disk cache directory.
pub fn key_to_hex_file_stem(key: &str) -> (out: String)
    ensures
        out@ == hex_file_stem(key@),
{
    if crate::text::str_is_empty(key) {
        let mut out = String::new();
        push_str(&mut out, "empty");
        assert(out@ =~= "empty"@);
        return out;
    }
    let bytes = key.as_bytes();
    let mut out = String::new();
    let mut i: usize = 0;
    while i < bytes.len()
        invariant
            i <= bytes@.len(),
            bytes@ == vstd::utf8::encode_utf8(key@),
            out@ == hex_pairs(bytes@.take(i as int)),
        decreases bytes@.len() - i,
    {
        let b = bytes[i];
        crate::text::push_char(&mut out, nibble_to_hex(b / 16));
        crate::text::push_char(&mut out, nibble_to_hex(b % 16));
        assert(bytes@.take(i + 1).drop_last() =~= bytes@.take(i as int));
        assert(bytes@.take(i + 1).last() == b);
        assert(out@ =~= hex_pairs(bytes@.take(i + 1)));
        i = i + 1;
    }
    assert(bytes@.take(bytes@.len() as int) =~= bytes@);
    out
}

/// The file name under which a disk cache stores a key: its file stem and `.json`.
pub fn disk_cache_file_name(key: &str) -> (out: String)
    ensures
        out@ == hex_file_stem(key@) + ".json"@,
{
    let mut out = key_to_hex_file_stem(key);
    push_str(&mut out, ".json");
    out
}

/// An in-memory key/value cache of byte values with `diskcache` semantics:
/// `set`/`put` overwrite, `get` returns the last value written, `delete` removes a key, and
/// `keys` lists the keys in ascending order.
#[derive(Debug)]
pub struct DiskCacheCompatibility {
    entries: StringMap<Vec<u8>>,
}

impl View for DiskCacheCompatibility {
    type V = Map<Seq<char>, Seq<u8>>;

    closed spec fn view(&self) -> Map<Seq<char>, Seq<u8>> {
        self.entries@.map_values(|v: Vec<u8>| v@)
    }
}

impl DiskCacheCompatibility {
    /// An empty cache.
    pub fn new() -> (c: Self)
        ensures
            c@ == Map::<Seq<char>, Seq<u8>>::empty(),
    {
        let c = DiskCacheCompatibility { entries: StringMap::new() };
        assert(c@ =~= Map::<Seq<char>, Seq<u8>>::empty());
        c
    }

    /// Stores `value` under `key`, replacing any earlier value.
    pub fn put(&mut self, key: &str, value: Vec<u8>)
        ensures
            final(self)@ == old(self)@.insert(key@, value@),
    {
        let m = &mut self.entries;
        let ghost before = m@;
        m.insert(to_owned_string(key), value);
        assert(self@ =~= old(self)@.insert(key@, value@));
    }

    /// Stores `value` under `key`; an in-memory cache always succeeds.
    pub fn set(&mut self, key: &str, value: Vec<u8>) -> (r: Result<(), RagasError>)
        ensures
            r is Ok,
            final(self)@ == old(self)@.insert(key@, value@),
    {
        self.put(key, value);
        Ok(())
    }

    /// Whether the cache holds `key`.
    pub fn has_key(&self, key: &str) -> (b: bool)
        ensures
            b == self@.contains_key(key@),
    {
        self.entries.contains_key(key)
    }

    /// A copy of the value stored under `key`, if any.
    pub fn get(&self, key: &str) -> (r: Option<Vec<u8>>)
        ensures
            match r {
                Some(v) => self@.contains_key(key@) && v@ == self@[key@],
                None => !self@.contains_key(key@),
            },
    {
        match self.entries.get(key) {
            Some(v) => Some(copy_bytes(v)),
            None => None,
        }
    }

    /// Removes `key`, saying whether it was present.
    pub fn delete(&mut self, key: &str) -> (removed: bool)
        ensures
            removed == old(self)@.contains_key(key@),
            final(self)@ == old(self)@.remove(key@),
    {
        let m = &mut self.entries;
        let r = m.remove(key);
        assert(self@ =~= old(self)@.remove(key@));
        r.is_some()
    }

    /// The keys, in ascending order.
    pub fn keys(&self) -> (r: Vec<String>)
        ensures
            lists_keys_of(strings_view(r@), self@),
    {
        proof {
            use_type_invariant(&self.entries);
            self.entries.lemma_sorted_keys();
        }
        let r = self.entries.keys();
        assert(strings_view(r@) == self.entries.sorted_keys());
        r
    }
}

/// A store of datasets by name.
pub trait DatasetBackend {
    /// Saves `dataset` under `name`, replacing any dataset saved under that name.
    fn save(&mut self, name: &str, dataset: &EvaluationDataset<EvaluationSample>) -> Result<(), RagasError>;

    /// The dataset saved under `name`.
    fn load(&self, name: &str) -> Result<EvaluationDataset<EvaluationSample>, RagasError>;

    /// The names of the saved datasets, in ascending order.
    fn list(&self) -> Vec<String>;

    /// Deletes the dataset saved under `name`, saying whether there was one.
    fn delete(&mut self, name: &str) -> bool;
}

/// The contents of a dataset of samples of either kind.
pub type DatasetContents = (Seq<EvaluationSampleView>, Map<Seq<char>, Seq<char>>);

/// A dataset backend that keeps the datasets in memory, ordered by name.
#[derive(Debug)]
pub struct InMemoryDatasetBackend {
    datasets: StringMap<EvaluationDataset<EvaluationSample>>,
}

impl View for InMemoryDatasetBackend {
    type V = Map<Seq<char>, DatasetContents>;

    closed spec fn view(&self) -> Map<Seq<char>, DatasetContents> {
        self.datasets@.map_values(|d: EvaluationDataset<EvaluationSample>| d@)
    }
}

impl InMemoryDatasetBackend {
    /// An empty backend.
    pub fn new() -> (b: Self)
        ensures
            b@ == Map::<Seq<char>, DatasetContents>::empty(),
    {
        let b = InMemoryDatasetBackend { datasets: StringMap::new() };
        assert(b@ =~= Map::<Seq<char>, DatasetContents>::empty());
        b
    }
}

impl DatasetBackend for InMemoryDatasetBackend {
    fn save(&mut self, name: &str, dataset: &EvaluationDataset<EvaluationSample>) -> (r: Result<(), RagasError>)
        ensures
            r is Ok,
            final(self)@ == old(self)@.insert(name@, dataset@),
    {
        let copy = dataset.clone();
        self.datasets.insert(to_owned_string(name), copy);
        assert(self@ =~= old(self)@.insert(name@, dataset@));
        Ok(())
    }

    fn load(&self, name: &str) -> (r: Result<EvaluationDataset<EvaluationSample>, RagasError>)
        ensures
            match r {
                Ok(d) => self@.contains_key(name@) && d@ == self@[name@],
                Err(e) => !self@.contains_key(name@) && (e matches RagasError::DatasetIo { message }
                    && message@ == not_found_message(name@)),
            },
    {
        match self.datasets.get(name) {
            Some(d) => Ok(d.clone()),
            None => Err(not_found(name)),
        }
    }

    fn list(&self) -> (r: Vec<String>)
        ensures
            lists_keys_of(strings_view(r@), self@),
    {
        proof {
            use_type_invariant(&self.datasets);
            self.datasets.lemma_sorted_keys();
        }
        let r = self.datasets.keys();
        assert(strings_view(r@) == self.datasets.sorted_keys());
        r
    }

    fn delete(&mut self, name: &str) -> (removed: bool)
        ensures
            removed == old(self)@.contains_key(name@),
            final(self)@ == old(self)@.remove(name@),
    {
        let m = &mut self.datasets;
        let r = m.remove(name);
        assert(self@ =~= old(self)@.remove(name@));
        r.is_some()
    }
}

/// The contents of a sheet: its rows of cells.
pub open spec fn rows_view(rows: Seq<Vec<String>>) -> Seq<Seq<Seq<char>>> {
    rows.map_values(|r: Vec<String>| strings_view(r@))
}

fn copy_row(r: &Vec<String>) -> (out: Vec<String>)
    ensures
        strings_view(out@) == strings_view(r@),
{
    let mut out: Vec<String> = Vec::new();
    let mut i: usize = 0;
    while i < r.len()
        invariant
            i <= r@.len(),
            strings_view(out@) == strings_view(r@.take(i as int)),
        decreases r@.len() - i,
    {
        let ghost before = out@;
        out.push(r[i].clone());
        assert(strings_view(out@) =~= strings_view(before).push(r@[i as int]@));
        assert(strings_view(r@.take(i + 1)) =~= strings_view(r@.take(i as int)).push(r@[i as int]@));
        i = i + 1;
    }
    assert(r@.take(r@.len() as int) =~= r@);
    out
}

fn copy_rows(rows: &Vec<Vec<String>>) -> (out: Vec<Vec<String>>)
    ensures
        rows_view(out@) == rows_view(rows@),
{
    let mut out: Vec<Vec<String>> = Vec::new();
    let mut i: usize = 0;
    while i < rows.len()
        invariant
            i <= rows@.len(),
            rows_view(out@) == rows_view(rows@.take(i as int)),
        decreases rows@.len() - i,
    {
        let ghost before = out@;
        out.push(copy_row(&rows[i]));
        assert(rows_view(out@) =~= rows_view(before).push(strings_view(rows@[i as int]@)));
        assert(rows_view(rows@.take(i + 1)) =~= rows_view(rows@.take(i as int)).push(strings_view(rows@[i as int]@)));
        i = i + 1;
    }
    assert(rows@.take(rows@.len() as int) =~= rows@);
    out
}

/// Where a Google Drive backend reads and writes its sheets. Implementations keep a store of
/// named sheets, `sheets()`; a successful `put_sheet` stores the rows under the name, and a
/// successful `get_sheet` returns the stored rows.
pub trait GDriveSheetTransport {
    /// The sheets the transport holds, by name.
    spec fn sheets(&self) -> Map<Seq<char>, Seq<Seq<Seq<char>>>>;

    /// Stores `rows` as the sheet `sheet_name`.
    fn put_sheet(&mut self, sheet_name: &str, rows: Vec<Vec<String>>) -> (r: Result<(), RagasError>)
        ensures
            r is Ok ==> final(self).sheets() == old(self).sheets().insert(sheet_name@, rows_view(rows@)),
    ;

    /// The rows of the sheet `sheet_name`.
    fn get_sheet(&self, sheet_name: &str) -> (r: Result<Vec<Vec<String>>, RagasError>)
        ensures
            r matches Ok(rows) ==> self.sheets().contains_key(sheet_name@) && rows_view(rows@)
                == self.sheets()[sheet_name@],
    ;

    /// The order in which the transport lists its sheets.
    spec fn sheet_order(&self) -> Seq<Seq<char>>;

    /// The names of the sheets, in the transport's order.
    fn list_sheets(&self) -> (r: Vec<String>)
        ensures
            strings_view(r@) == self.sheet_order(),
            forall|k: Seq<char>| #[trigger] strings_view(r@).contains(k) <==> self.sheets().contains_key(k),
    ;

    /// Deletes the sheet `sheet_name`, saying whether it was there.
    fn delete_sheet(&mut self, sheet_name: &str) -> (removed: bool)
        ensures
            removed == old(self).sheets().contains_key(sheet_name@),
            final(self).sheets() == old(self).sheets().remove(sheet_name@),
    ;
}

/// A transport that keeps the sheets in memory, ordered by name.
#[derive(Debug)]
pub struct InMemoryGoogleSheetTransport {
    sheets: StringMap<Vec<Vec<String>>>,
}

impl InMemoryGoogleSheetTransport {
    pub closed spec fn stored(&self) -> Map<Seq<char>, Seq<Seq<Seq<char>>>> {
        self.sheets@.map_values(|r: Vec<Vec<String>>| rows_view(r@))
    }

    /// The rows of the sheet `sheet_name`, if it is there.
    pub fn rows(&self, sheet_name: &str) -> (r: Option<&[Vec<String>]>)
        ensures
            match r {
                Some(rows) => self.sheets().contains_key(sheet_name@) && rows_view(rows@) == self.sheets()[sheet_name@],
                None => !self.sheets().contains_key(sheet_name@),
            },
    {
        match self.sheets.get(sheet_name) {
            Some(rows) => Some(rows.as_slice()),
            None => None,
        }
    }
}

impl Default for InMemoryGoogleSheetTransport {
    fn default() -> (t: Self)
        ensures
            t.sheets() == Map::<Seq<char>, Seq<Seq<Seq<char>>>>::empty(),
    {
        let t = InMemoryGoogleSheetTransport { sheets: StringMap::new() };
        assert(t.stored() =~= Map::<Seq<char>, Seq<Seq<Seq<char>>>>::empty());
        t
    }
}

impl GDriveSheetTransport for InMemoryGoogleSheetTransport {
    closed spec fn sheets(&self) -> Map<Seq<char>, Seq<Seq<Seq<char>>>> {
        self.stored()
    }

    /// The sheet names in ascending order.
    open spec fn sheet_order(&self) -> Seq<Seq<char>> {
        sorted_key_list(self.sheets())
    }

    fn put_sheet(&mut self, sheet_name: &str, rows: Vec<Vec<String>>) -> (r: Result<(), RagasError>)
        ensures
            r is Ok,
    {
        let m = &mut self.sheets;
        m.insert(to_owned_string(sheet_name), rows);
        assert(self.stored() =~= old(self).stored().insert(sheet_name@, rows_view(rows@)));
        Ok(())
    }

    fn get_sheet(&self, sheet_name: &str) -> (r: Result<Vec<Vec<String>>, RagasError>)
        ensures
            r is Err ==> !self.sheets().contains_key(sheet_name@),
            r is Err ==> (r matches Err(RagasError::DatasetIo { message }) && message@ == not_found_message(sheet_name@)),
    {
        match self.sheets.get(sheet_name) {
            Some(rows) => Ok(copy_rows(rows)),
            None => Err(not_found(sheet_name)),
        }
    }

    fn list_sheets(&self) -> (r: Vec<String>)
        ensures
            lists_keys_of(strings_view(r@), self.sheets()),
    {
        proof {
            use_type_invariant(&self.sheets);
            self.sheets.lemma_sorted_keys();
        }
        let r = self.sheets.keys();
        assert(strings_view(r@) == self.sheets.sorted_keys());
        proof {
            lemma_sorted_key_list(self.sheets(), self.sheets.sorted_keys());
        }
        r
    }

    fn delete_sheet(&mut self, sheet_name: &str) -> (removed: bool)
        ensures
            removed == old(self).sheets().contains_key(sheet_name@),
            final(self).sheets() == old(self).sheets().remove(sheet_name@),
    {
        let m = &mut self.sheets;
        let r = m.remove(sheet_name);
        assert(self.stored() =~= old(self).stored().remove(sheet_name@));
        r.is_some()
    }
}

/// The prefix of the metadata columns of a sheet.
pub open spec fn metadata_prefix() -> Seq<char> {
    "metadata."@
}

/// `m` with each key `k` renamed to `metadata.k`.
pub open spec fn prefixed_metadata(m: Map<Seq<char>, Seq<char>>) -> Map<Seq<char>, Seq<char>> {
    Map::new(
        |k: Seq<char>| k.len() >= 9 && k.take(9) == metadata_prefix() && m.contains_key(k.skip(9)),
        |k: Seq<char>| m[k.skip(9)],
    )
}

/// The cells of a single-turn sample by column: its fields, the retrieved contexts as a JSON
/// list, an absent reference as the empty string, and each metadata entry under
/// `metadata.<key>`.
pub open spec fn gdrive_row_map(s: SingleTurnView) -> Map<Seq<char>, Seq<char>> {
    Map::<Seq<char>, Seq<char>>::empty().insert("user_input"@, s.user_input).insert(
        "response"@,
        s.response,
    ).insert(
        "retrieved_contexts"@,
        crate::codec::json_string_list(s.retrieved_contexts),
    ).insert(
        "reference"@,
        match s.reference {
            Some(r) => r,
            None => Seq::empty(),
        },
    ).union_prefer_right(prefixed_metadata(s.metadata))
}

/// The cell of `s` in column `h`; empty where `s` has no such column.
pub open spec fn gdrive_cell(s: SingleTurnView, h: Seq<char>) -> Seq<char> {
    if gdrive_row_map(s).contains_key(h) {
        gdrive_row_map(s)[h]
    } else {
        Seq::empty()
    }
}

/// All the columns of the samples `ss`.
pub open spec fn gdrive_columns(ss: Seq<SingleTurnView>) -> Set<Seq<char>>
    decreases ss.len(),
{
    if ss.len() == 0 {
        Set::empty()
    } else {
        gdrive_columns(ss.drop_last()).union(gdrive_row_map(ss.last()).dom())
    }
}

/// The samples of a dataset if all are single-turn.
pub open spec fn all_single_turn(v: Seq<EvaluationSampleView>) -> bool {
    forall|i: int| 0 <= i < v.len() ==> #[trigger] v[i] is SingleTurn
}

pub open spec fn single_turn_parts(v: Seq<EvaluationSampleView>) -> Seq<SingleTurnView> {
    v.map_values(|x: EvaluationSampleView| x->SingleTurn_0)
}

/// The sheet of samples `ss`: a header row with every column in ascending order, then one row
/// per sample with its cell in each column.
pub open spec fn is_gdrive_sheet(ss: Seq<SingleTurnView>, rows: Seq<Seq<Seq<char>>>) -> bool {
    &&& rows.len() == ss.len() + 1
    &&& strictly_sorted(rows[0])
    &&& forall|h: Seq<char>| #[trigger] rows[0].contains(h) <==> gdrive_columns(ss).contains(h)
    &&& forall|i: int| 0 <= i < ss.len() ==> (#[trigger] rows[i + 1]).len() == rows[0].len()
    &&& forall|i: int, j: int|
        0 <= i < ss.len() && 0 <= j < rows[0].len() ==> #[trigger] rows[i + 1][j] == gdrive_cell(
            ss[i],
            rows[0][j],
        )
}

/// Whether the retrieved contexts of every sample survive a JSON round trip.
pub open spec fn contexts_round_trip(ss: Seq<SingleTurnView>) -> bool {
    forall|a: int| 0 <= a < ss.len() ==> crate::codec::json_list_round_trips(#[trigger] ss[a].retrieved_contexts)
}

/// The message of the error for a dataset that has a multi-turn sample.
pub open spec fn gdrive_single_turn_message() -> Seq<char> {
    "GDrive backend only supports single-turn samples"@
}

pub(crate) fn metadata_column(key: &String) -> (out: String)
    ensures
        out@ == metadata_prefix() + key@,
{
    let mut out = String::new();
    push_str(&mut out, "metadata.");
    push_str(&mut out, key.as_str());
    out
}

proof fn lemma_prefix_split(k: Seq<char>)
    requires
        k.len() >= 9,
    ensures
        k == k.take(9) + k.skip(9),
{
    assert(k =~= k.take(9) + k.skip(9));
}

/// The cells of one sample by column.
fn gdrive_row(s: &SingleTurnSample) -> (out: StringMap<String>)
    ensures
        metadata_view(out@) == gdrive_row_map(s@),
        crate::codec::json_list_round_trips(s@.retrieved_contexts),
{
    proof {
        reveal_strlit("metadata.");
    }
    let mut row: StringMap<String> = StringMap::new();
    row.insert(to_owned_string("user_input"), s.user_input.clone());
    row.insert(to_owned_string("response"), s.response.clone());
    row.insert(to_owned_string("retrieved_contexts"), crate::codec::encode_string_list(&s.retrieved_contexts));
    let reference = match &s.reference {
        Some(r) => r.clone(),
        None => String::new(),
    };
    row.insert(to_owned_string("reference"), reference);
    let ghost base = metadata_view(row@);
    let ghost meta = metadata_view(s.metadata@);
    let ghost keys = s.metadata.sorted_keys();
    proof {
        use_type_invariant(&s.metadata);
        s.metadata.lemma_sorted_keys();
    }
    assert(base.union_prefer_right(Map::new(
        |k: Seq<char>| k.len() >= 9 && k.take(9) == metadata_prefix() && keys.take(0).contains(k.skip(9)),
        |k: Seq<char>| meta[k.skip(9)],
    )) =~= base);
    let n = s.metadata.len();
    let mut i: usize = 0;
    while i < n
        invariant
            n == keys.len(),
            keys == s.metadata.sorted_keys(),
            meta == metadata_view(s.metadata@),
            forall|k: Seq<char>| s.metadata@.contains_key(k) <==> keys.contains(k),
            i <= n,
            metadata_prefix().len() == 9,
            metadata_view(row@) == base.union_prefer_right(Map::new(
                |k: Seq<char>| k.len() >= 9 && k.take(9) == metadata_prefix() && keys.take(i as int).contains(k.skip(9)),
                |k: Seq<char>| meta[k.skip(9)],
            )),
        decreases n - i,
    {
        let key = s.metadata.key_at(i);
        let value = s.metadata.value_at(i);
        let col = metadata_column(key);
        let ghost before = metadata_view(row@);
        let v = value.clone();
        row.insert(col, v);
        proof {
            let p = metadata_prefix();
            assert(col@.take(9) =~= p);
            assert(col@.skip(9) =~= key@);
            assert(keys[i as int] == key@);
            assert(keys.contains(key@));
            assert(s.metadata@.contains_key(key@));
            assert(v@ == meta[key@]);
            let lhs = metadata_view(row@);
            assert(lhs =~= before.insert(col@, v@));
            let rhs = base.union_prefer_right(Map::new(
                |k: Seq<char>| k.len() >= 9 && k.take(9) == p && keys.take(i + 1).contains(k.skip(9)),
                |k: Seq<char>| meta[k.skip(9)],
            ));
            assert forall|k: Seq<char>| #[trigger] keys.take(i + 1).contains(k) <==> (keys.take(i as int).contains(k) || k == key@) by {
                if keys.take(i + 1).contains(k) {
                    let j = choose|j: int| 0 <= j < i + 1 && #[trigger] keys.take(i + 1)[j] == k;
                    if j < i {
                        assert(keys.take(i as int)[j] == k);
                    }
                }
                if keys.take(i as int).contains(k) {
                    let j = choose|j: int| 0 <= j < i && #[trigger] keys.take(i as int)[j] == k;
                    assert(keys.take(i + 1)[j] == k);
                }
                if k == key@ {
                    assert(keys.take(i + 1)[i as int] == k);
                }
            }
            assert forall|k: Seq<char>| k.len() >= 9 && k.take(9) == p && k.skip(9) == key@ implies k == col@ by {
                lemma_prefix_split(k);
                lemma_prefix_split(col@);
            }
            assert forall|k: Seq<char>| #[trigger] lhs.contains_key(k) == rhs.contains_key(k) && (lhs.contains_key(k) ==> lhs[k] == rhs[k]) by {
                if k == col@ {
                    assert(keys.take(i + 1).contains(k.skip(9)));
                } else if k.len() >= 9 && k.take(9) == p && k.skip(9) == key@ {
                    assert(k == col@);
                }
            }
            assert(lhs =~= rhs);
        }
        i = i + 1;
    }
    proof {
        assert(keys.take(n as int) =~= keys);
        assert(Map::new(
            |k: Seq<char>| k.len() >= 9 && k.take(9) == metadata_prefix() && keys.take(n as int).contains(k.skip(9)),
            |k: Seq<char>| meta[k.skip(9)],
        ) =~= prefixed_metadata(meta));
        assert(Map::<Seq<char>, Seq<char>>::empty().insert("user_input"@, s.user_input@).insert(
            "response"@,
            s.response@,
        ).insert(
            "retrieved_contexts"@,
            crate::codec::json_string_list(strings_view(s.retrieved_contexts@)),
        ).insert(
            "reference"@,
            match opt_string_view(s.reference) {
                Some(r) => r,
                None => Seq::empty(),
            },
        ) =~= base);
    }
    row
}

/// The sheet rows of a dataset whose samples are all single-turn; a dataset with a multi-turn
/// sample is refused.
pub fn dataset_to_gdrive_rows(dataset: &EvaluationDataset<EvaluationSample>) -> (r: Result<Vec<Vec<String>>, RagasError>)
    ensures
        match r {
            Ok(rows) => all_single_turn(dataset@.0) && is_gdrive_sheet(single_turn_parts(dataset@.0), rows_view(rows@))
                && contexts_round_trip(single_turn_parts(dataset@.0)),
            Err(e) => !all_single_turn(dataset@.0) && (e matches RagasError::DatasetIo { message }
                && message@ == gdrive_single_turn_message()),
        },
{
    proof {
        dataset.lemma_view();
    }
    let samples = dataset.samples();
    let ghost sv = dataset@.0;
    let mut maps: Vec<StringMap<String>> = Vec::new();
    let mut i: usize = 0;
    while i < samples.len()
        invariant
            sv == samples@.map_values(|x: EvaluationSample| x@),
            sv == dataset@.0,
            i <= samples@.len(),
            maps@.len() == i,
            forall|j: int| 0 <= j < i ==> (#[trigger] sv[j]) is SingleTurn,
            forall|j: int| 0 <= j < i ==> metadata_view((#[trigger] maps@[j])@) == gdrive_row_map(sv[j]->SingleTurn_0),
            forall|j: int| 0 <= j < i ==> crate::codec::json_list_round_trips((#[trigger] sv[j])->SingleTurn_0.retrieved_contexts),
        decreases samples@.len() - i,
    {
        match &samples[i] {
            EvaluationSample::SingleTurn(s) => {
                let row = gdrive_row(s);
                maps.push(row);
            },
            EvaluationSample::MultiTurn(_) => {
                assert(!(sv[i as int] is SingleTurn));
                return Err(RagasError::DatasetIo { message: to_owned_string("GDrive backend only supports single-turn samples") });
            },
        }
        i = i + 1;
    }
    let ghost ss = single_turn_parts(sv);
    assert(all_single_turn(sv));
    assert(contexts_round_trip(ss)) by {
        assert forall|a: int| 0 <= a < ss.len() implies crate::codec::json_list_round_trips(#[trigger] ss[a].retrieved_contexts) by {
            assert(ss[a] == sv[a]->SingleTurn_0);
        }
    }
    // The set of columns.
    let mut columns: StringMap<bool> = StringMap::new();
    let mut j: usize = 0;
    assert(ss.take(0) =~= Seq::<SingleTurnView>::empty());
    assert(columns@.dom() =~= gdrive_columns(ss.take(0)));
    while j < maps.len()
        invariant
            sv == samples@.map_values(|x: EvaluationSample| x@),
            ss == single_turn_parts(sv),
            maps@.len() == sv.len(),
            all_single_turn(sv),
            forall|q: int| 0 <= q < sv.len() ==> metadata_view((#[trigger] maps@[q])@) == gdrive_row_map(sv[q]->SingleTurn_0),
            j <= maps@.len(),
            columns@.dom() == gdrive_columns(ss.take(j as int)),
        decreases maps@.len() - j,
    {
        let m = &maps[j];
        let ghost start = columns@.dom();
        proof {
            use_type_invariant(m);
            m.lemma_sorted_keys();
        }
        let mut q: usize = 0;
        while q < m.len()
            invariant
                q <= m.sorted_keys().len(),
                columns@.dom() == start.union(Set::new(|k: Seq<char>| m.sorted_keys().take(q as int).contains(k))),
            decreases m.sorted_keys().len() - q,
        {
            let k = m.key_at(q);
            let ghost before = columns@.dom();
            columns.insert(k.clone(), true);
            assert(m.sorted_keys().take(q + 1) =~= m.sorted_keys().take(q as int).push(k@));
            assert forall|x: Seq<char>| #[trigger] m.sorted_keys().take(q + 1).contains(x) <==> (m.sorted_keys().take(q as int).contains(x) || x == k@) by {
                let t = m.sorted_keys().take(q as int);
                if t.push(k@).contains(x) {
                    let a = choose|a: int| 0 <= a < t.len() + 1 && #[trigger] t.push(k@)[a] == x;
                    if a < t.len() {
                        assert(t[a] == x);
                    }
                }
                if t.contains(x) {
                    let a = choose|a: int| 0 <= a < t.len() && #[trigger] t[a] == x;
                    assert(t.push(k@)[a] == x);
                }
                if x == k@ {
                    assert(t.push(k@)[t.len() as int] == x);
                }
            }
            assert(columns@.dom() =~= start.union(Set::new(|k: Seq<char>| m.sorted_keys().take(q + 1).contains(k))));
            q = q + 1;
        }
        proof {
            assert(m.sorted_keys().take(q as int) =~= m.sorted_keys());
            assert(ss.take(j + 1).drop_last() =~= ss.take(j as int));
            assert(ss[j as int] == sv[j as int]->SingleTurn_0);
            assert(gdrive_row_map(ss[j as int]).dom() =~= m@.dom());
            assert(columns@.dom() =~= gdrive_columns(ss.take(j + 1)));
        }
        j = j + 1;
    }
    assert(ss.take(sv.len() as int) =~= ss);
    proof {
        use_type_invariant(&columns);
        columns.lemma_sorted_keys();
    }
    let header = columns.keys();
    let mut rows: Vec<Vec<String>> = Vec::new();
    rows.push(header);
    let ghost hv = strings_view(rows@[0]@);
    let mut i: usize = 0;
    while i < maps.len()
        invariant
            sv == samples@.map_values(|x: EvaluationSample| x@),
            ss == single_turn_parts(sv),
            maps@.len() == sv.len(),
            all_single_turn(sv),
            forall|q: int| 0 <= q < sv.len() ==> metadata_view((#[trigger] maps@[q])@) == gdrive_row_map(sv[q]->SingleTurn_0),
            i <= maps@.len(),
            rows@.len() == i + 1,
            hv == strings_view(rows@[0]@),
            strictly_sorted(hv),
            forall|h: Seq<char>| #[trigger] hv.contains(h) <==> gdrive_columns(ss).contains(h),
            forall|a: int| 0 <= a < i ==> (#[trigger] rows@[a + 1])@.len() == hv.len(),
            forall|a: int, b: int| 0 <= a < i && 0 <= b < hv.len() ==> #[trigger] rows@[a + 1]@[b]@ == gdrive_cell(ss[a], hv[b]),
        decreases maps@.len() - i,
    {
        let m = &maps[i];
        let mut cells: Vec<String> = Vec::new();
        let mut b: usize = 0;
        let hlen = rows[0].len();
        assert(ss[i as int] == sv[i as int]->SingleTurn_0);
        while b < hlen
            invariant
                i < sv.len(),
                ss.len() == sv.len(),
                rows@.len() == i + 1,
                hlen == hv.len(),
                hv == strings_view(rows@[0]@),
                b <= hlen,
                cells@.len() == b,
                metadata_view(m@) == gdrive_row_map(ss[i as int]),
                forall|c: int| 0 <= c < b ==> (#[trigger] cells@[c])@ == gdrive_cell(ss[i as int], hv[c]),
            decreases hlen - b,
        {
            let h = &rows[0][b];
            assert(h@ == hv[b as int]);
            let cell = match m.get(h.as_str()) {
                Some(v) => v.clone(),
                None => String::new(),
            };
            cells.push(cell);
            b = b + 1;
        }
        let ghost before = rows@;
        rows.push(cells);
        assert forall|a: int| 0 <= a <= i implies (#[trigger] rows@[a + 1])@.len() == hv.len() by {
            if a < i {
                assert(rows@[a + 1] == before[a + 1]);
            }
        }
        assert forall|a: int, c: int| 0 <= a <= i && 0 <= c < hv.len() implies #[trigger] rows@[a + 1]@[c]@ == gdrive_cell(ss[a], hv[c]) by {
            if a < i {
                assert(rows@[a + 1] == before[a + 1]);
            }
        }
        assert(strings_view(rows@[0]@) == hv);
        i = i + 1;
    }
    proof {
        let rv = rows_view(rows@);
        assert(rv[0] == hv);
        assert forall|a: int| 0 <= a < ss.len() implies (#[trigger] rv[a + 1]).len() == rv[0].len() by {
            assert(rv[a + 1] == strings_view(rows@[a + 1]@));
        }
        assert forall|a: int, c: int| 0 <= a < ss.len() && 0 <= c < rv[0].len() implies #[trigger] rv[a + 1][c] == gdrive_cell(ss[a], rv[0][c]) by {
            assert(rv[a + 1] == strings_view(rows@[a + 1]@));
            assert(rows@[a + 1]@[c]@ == gdrive_cell(ss[a], hv[c]));
        }
    }
    Ok(rows)
}

/// The position of the first `name` in `hs`, if any.
pub open spec fn first_pos(hs: Seq<Seq<char>>, name: Seq<char>) -> Option<int>
    decreases hs.len(),
{
    if hs.len() == 0 {
        None
    } else if hs[0] == name {
        Some(0)
    } else {
        match first_pos(hs.drop_first(), name) {
            Some(p) => Some(p + 1),
            None => None,
        }
    }
}

/// The cell of `row` in the first column named `name`, if both exist.
pub open spec fn column_value(hs: Seq<Seq<char>>, row: Seq<Seq<char>>, name: Seq<char>) -> Option<Seq<char>> {
    match first_pos(hs, name) {
        Some(p) => if p < row.len() {
            Some(row[p])
        } else {
            None
        },
        None => None,
    }
}

/// A present, non-empty cell.
pub open spec fn nonempty_value(v: Option<Seq<char>>) -> Option<Seq<char>> {
    match v {
        Some(t) => if t.len() > 0 {
            Some(t)
        } else {
            None
        },
        None => None,
    }
}

/// The metadata read from the first `n` columns: each `metadata.<key>` column with a non-empty
/// cell sets `key`; a later column wins.
pub open spec fn row_metadata(hs: Seq<Seq<char>>, row: Seq<Seq<char>>, n: int) -> Map<Seq<char>, Seq<char>>
    decreases n,
{
    if n <= 0 {
        Map::empty()
    } else {
        let m = row_metadata(hs, row, n - 1);
        let h = hs[n - 1];
        if h.len() >= 9 && h.take(9) == metadata_prefix() && n - 1 < row.len() && row[n - 1].len() > 0 {
            m.insert(h.skip(9), row[n - 1])
        } else {
            m
        }
    }
}

/// The sample a sheet row stands for, given the header row; `None` when its retrieved contexts
/// are not a JSON list of strings.
pub open spec fn row_sample(hs: Seq<Seq<char>>, row: Seq<Seq<char>>) -> Option<SingleTurnView> {
    let contexts = match nonempty_value(column_value(hs, row, "retrieved_contexts"@)) {
        Some(t) => crate::codec::json_string_list_parse(t),
        None => Some(Seq::<Seq<char>>::empty()),
    };
    match contexts {
        Some(c) => Some(
            SingleTurnView {
                user_input: match column_value(hs, row, "user_input"@) {
                    Some(v) => v,
                    None => Seq::empty(),
                },
                response: match column_value(hs, row, "response"@) {
                    Some(v) => v,
                    None => Seq::empty(),
                },
                retrieved_contexts: c,
                reference: nonempty_value(column_value(hs, row, "reference"@)),
                reference_contexts: Seq::empty(),
                retrieved_context_ids: Seq::empty(),
                reference_context_ids: Seq::empty(),
                metadata: row_metadata(hs, row, hs.len() as int),
            },
        ),
        None => None,
    }
}

/// The header row of a sheet (empty for an empty sheet).
pub open spec fn sheet_header(rows: Seq<Seq<Seq<char>>>) -> Seq<Seq<char>> {
    if rows.len() == 0 {
        Seq::empty()
    } else {
        rows[0]
    }
}

/// The samples of the data rows `1..n` of a sheet whose rows all parse.
pub open spec fn sheet_samples(rows: Seq<Seq<Seq<char>>>) -> Seq<SingleTurnView> {
    Seq::new((rows.len() - 1) as nat, |i: int| row_sample(rows[0], rows[i + 1])->0)
}

/// The message prefix of the error for retrieved contexts that do not parse.
pub open spec fn contexts_parse_prefix() -> Seq<char> {
    "retrieved_contexts JSON parse failed: "@
}

pub(crate) fn position_in_row(hs: &Vec<String>, name: &str) -> (r: Option<usize>)
    ensures
        match r {
            Some(p) => p < hs@.len() && first_pos(strings_view(hs@), name@) == Some(p as int),
            None => first_pos(strings_view(hs@), name@) is None,
        },
{
    let ghost hv = strings_view(hs@);
    let mut i: usize = 0;
    assert(hv.skip(0) =~= hv);
    while i < hs.len()
        invariant
            hv == strings_view(hs@),
            i <= hs@.len(),
            first_pos(hv, name@) == match first_pos(hv.skip(i as int), name@) {
                Some(p) => Some(p + i),
                None => None::<int>,
            },
        decreases hs@.len() - i,
    {
        assert(hv.skip(i as int).drop_first() =~= hv.skip(i + 1));
        assert(hv.skip(i as int)[0] == hs@[i as int]@);
        if crate::text::str_equal(hs[i].as_str(), name) {
            return Some(i);
        }
        i = i + 1;
    }
    assert(hv.skip(i as int).len() == 0);
    None
}

fn cell_of(hs: &Vec<String>, row: &Vec<String>, name: &str) -> (r: Option<String>)
    ensures
        match r {
            Some(v) => column_value(strings_view(hs@), strings_view(row@), name@) == Some(v@),
            None => column_value(strings_view(hs@), strings_view(row@), name@) is None,
        },
{
    match position_in_row(hs, name) {
        Some(p) => if p < row.len() {
            Some(row[p].clone())
        } else {
            None
        },
        None => None,
    }
}

/// The sample of one sheet row, or the error for retrieved contexts that do not parse.
fn sample_from_row(hs: &Vec<String>, row: &Vec<String>) -> (r: Result<SingleTurnSample, RagasError>)
    ensures
        match r {
            Ok(s) => row_sample(strings_view(hs@), strings_view(row@)) == Some(s@),
            Err(e) => row_sample(strings_view(hs@), strings_view(row@)) is None && (e matches RagasError::DatasetIo { message }
                && message@.len() >= contexts_parse_prefix().len()
                && message@.take(contexts_parse_prefix().len() as int) == contexts_parse_prefix()),
        },
{
    let ghost hv = strings_view(hs@);
    let ghost rv = strings_view(row@);
    let user_input = match cell_of(hs, row, "user_input") {
        Some(v) => v,
        None => String::new(),
    };
    let response = match cell_of(hs, row, "response") {
        Some(v) => v,
        None => String::new(),
    };
    let contexts: Vec<String> = match cell_of(hs, row, "retrieved_contexts") {
        Some(t) => if !crate::text::str_is_empty(t.as_str()) {
            match crate::codec::decode_string_list(t.as_str()) {
                Ok(v) => v,
                Err(msg) => {
                    let mut message = String::new();
                    push_str(&mut message, "retrieved_contexts JSON parse failed: ");
                    push_str(&mut message, msg.as_str());
                    proof {
                        reveal_strlit("retrieved_contexts JSON parse failed: ");
                        assert(message@.take(contexts_parse_prefix().len() as int) =~= contexts_parse_prefix());
                    }
                    return Err(RagasError::DatasetIo { message });
                },
            }
        } else {
            Vec::new()
        },
        None => Vec::new(),
    };
    let mut sample = SingleTurnSample::new(user_input.as_str(), response.as_str(), contexts);
    match cell_of(hs, row, "reference") {
        Some(v) => if !crate::text::str_is_empty(v.as_str()) {
            sample = sample.with_reference(v.as_str());
        },
        None => {},
    }
    proof {
        reveal_strlit("metadata.");
    }
    let mut j: usize = 0;
    assert(metadata_view(sample.metadata@) =~= row_metadata(hv, rv, 0));
    while j < hs.len()
        invariant
            hv == strings_view(hs@),
            rv == strings_view(row@),
            j <= hs@.len(),
            metadata_prefix().len() == 9,
            sample.user_input@ == match column_value(hv, rv, "user_input"@) {
                Some(v) => v,
                None => Seq::empty(),
            },
            sample.response@ == match column_value(hv, rv, "response"@) {
                Some(v) => v,
                None => Seq::empty(),
            },
            strings_view(sample.retrieved_contexts@) == match nonempty_value(column_value(hv, rv, "retrieved_contexts"@)) {
                Some(t) => crate::codec::json_string_list_parse(t)->0,
                None => Seq::<Seq<char>>::empty(),
            },
            nonempty_value(column_value(hv, rv, "retrieved_contexts"@)) matches Some(t) ==> crate::codec::json_string_list_parse(t) is Some,
            opt_string_view(sample.reference) == nonempty_value(column_value(hv, rv, "reference"@)),
            sample.reference_contexts@.len() == 0,
            sample.retrieved_context_ids@.len() == 0,
            sample.reference_context_ids@.len() == 0,
            metadata_view(sample.metadata@) == row_metadata(hv, rv, j as int),
        decreases hs@.len() - j,
    {
        let h = &hs[j];
        let hc = crate::text::chars_of(h.as_str());
        let pre = crate::text::chars_of("metadata.");
        assert(hv[j as int] == h@);
        if hc.len() >= 9 && crate::text::starts_with_chars(&hc, &pre) && j < row.len() && !crate::text::str_is_empty(row[j].as_str()) {
            let key = crate::text::string_of_range(&hc, 9, hc.len());
            assert(h@.take(9) =~= hc@.subrange(0, 9));
            assert(key@ =~= h@.skip(9));
            assert(rv[j as int] == row@[j as int]@);
            let ghost before = sample.metadata@;
            sample = sample.with_metadata(key.as_str(), row[j].as_str());
            assert(metadata_view(sample.metadata@) =~= metadata_view(before).insert(key@, row@[j as int]@));
        } else {
            proof {
                if h@.len() >= 9 && h@.take(9) == metadata_prefix() && j < row@.len() {
                    assert(hc@.subrange(0, 9) =~= h@.take(9));
                    assert(rv[j as int] == row@[j as int]@);
                }
            }
        }
        j = j + 1;
    }
    proof {
        assert(sample.reference_contexts@ =~= Seq::<String>::empty());
        assert(sample@.reference_contexts =~= Seq::<Seq<char>>::empty());
        assert(sample@.retrieved_context_ids =~= Seq::<Seq<char>>::empty());
        assert(sample@.reference_context_ids =~= Seq::<Seq<char>>::empty());
    }
    Ok(sample)
}

/// The samples of a sheet as samples of either kind.
pub open spec fn sheet_sample_views(rv: Seq<Seq<Seq<char>>>) -> Seq<EvaluationSampleView> {
    sheet_samples(rv).map_values(|v: SingleTurnView| EvaluationSampleView::SingleTurn(v))
}

/// Whether every data row of a sheet has retrieved contexts that parse.
pub open spec fn sheet_rows_parse(rv: Seq<Seq<Seq<char>>>) -> bool {
    forall|i: int| 1 <= i < rv.len() ==> (#[trigger] row_sample(rv[0], rv[i])) is Some
}

/// Why loading a sheet fails: no header or no data row, a row whose retrieved contexts do not
/// parse (the first such row), or a sample that is not valid.
pub open spec fn sheet_load_error(rv: Seq<Seq<Seq<char>>>, e: RagasError) -> bool {
    ||| (sheet_header(rv).len() == 0 || rv.len() <= 1) && e == RagasError::EmptyDataset
    ||| sheet_header(rv).len() > 0 && exists|i: int|
        #![trigger rv[i]]
        {
            &&& 1 <= i < rv.len()
            &&& forall|j: int| 1 <= j < i ==> (#[trigger] row_sample(rv[0], rv[j])) is Some
            &&& row_sample(rv[0], rv[i]) is None
            &&& e matches RagasError::DatasetIo { message }
            &&& message@.len() >= contexts_parse_prefix().len()
            &&& message@.take(contexts_parse_prefix().len() as int) == contexts_parse_prefix()
        }
    ||| sheet_header(rv).len() > 0 && rv.len() > 1 && sheet_rows_parse(rv) && crate::dataset::build_error_ok(
        sheet_samples(rv),
        |v: SingleTurnView| crate::dataset::view_problem(v),
        e,
    )
}

/// The dataset a sheet stands for: one single-turn sample per data row, validated as any
/// dataset is.
pub fn gdrive_rows_to_dataset(rows: Vec<Vec<String>>) -> (r: Result<EvaluationDataset<EvaluationSample>, RagasError>)
    ensures
        match r {
            Ok(d) => sheet_header(rows_view(rows@)).len() > 0 && rows@.len() > 1 && sheet_rows_parse(rows_view(rows@))
                && crate::dataset::build_outcome_ok(sheet_samples(rows_view(rows@)), |v: SingleTurnView| crate::dataset::view_problem(v))
                && d@.0 == sheet_sample_views(rows_view(rows@)) && d@.1 == Map::<Seq<char>, Seq<char>>::empty(),
            Err(e) => sheet_load_error(rows_view(rows@), e),
        },
{
    let ghost rv = rows_view(rows@);
    if rows.len() == 0 || rows[0].len() == 0 {
        let r = EvaluationDataset::<EvaluationSample>::from_samples(Vec::new());
        proof {
            if rows@.len() > 0 {
                assert(rv[0] == strings_view(rows@[0]@));
            }
        }
        return r;
    }
    assert(rv[0] == strings_view(rows@[0]@));
    let mut samples: Vec<EvaluationSample> = Vec::new();
    let mut i: usize = 1;
    while i < rows.len()
        invariant
            rv == rows_view(rows@),
            rows@.len() > 0,
            rv[0] == strings_view(rows@[0]@),
            rv[0].len() > 0,
            1 <= i <= rows@.len(),
            samples@.len() == i - 1,
            forall|j: int| 1 <= j < i ==> (#[trigger] row_sample(rv[0], rv[j])) is Some,
            forall|j: int| 0 <= j < i - 1 ==> ((#[trigger] samples@[j]) matches EvaluationSample::SingleTurn(s)
                && Some(s@) == row_sample(rv[0], rv[j + 1])),
        decreases rows@.len() - i,
    {
        assert(rv[i as int] == strings_view(rows@[i as int]@));
        match sample_from_row(&rows[0], &rows[i]) {
            Ok(s) => {
                samples.push(EvaluationSample::SingleTurn(s));
            },
            Err(e) => {
                assert(sheet_load_error(rv, e)) by {
                    assert(rv[i as int] == rv[i as int]);
                }
                return Err(e);
            },
        }
        i = i + 1;
    }
    let ghost sv = samples@;
    let ghost views = sheet_samples(rv);
    proof {
        assert forall|j: int| 0 <= j < sv.len() implies ((#[trigger] sv[j]) matches EvaluationSample::SingleTurn(s)
            && s@ == views[j]) && crate::dataset::evaluation_sample_problem(sv[j]) == crate::dataset::view_problem(views[j]) by {
            if let EvaluationSample::SingleTurn(s) = sv[j] {
                crate::dataset::lemma_problem_view(s);
            }
        }
    }
    let r = EvaluationDataset::<EvaluationSample>::from_samples(samples);
    proof {
        match &r {
            Ok(d) => {
                d.lemma_view();
                assert forall|j: int| 0 <= j < views.len() implies crate::dataset::view_problem(#[trigger] views[j]) is None by {
                    assert(crate::dataset::evaluation_sample_problem(sv[j]) is None);
                }
                assert(d@.0 =~= sheet_sample_views(rv)) by {
                    assert forall|j: int| 0 <= j < sv.len() implies d@.0[j] == sheet_sample_views(rv)[j] by {
                        assert(d@.0[j] == sv[j]@);
                    }
                }
                assert(d@.1 =~= Map::<Seq<char>, Seq<char>>::empty());
            },
            Err(e) => {
                if sv.len() > 0 {
                    let w = choose|w: int| #![trigger sv[w]] 0 <= w < sv.len()
                        && (forall|j: int| 0 <= j < w ==> crate::dataset::evaluation_sample_problem(#[trigger] sv[j]) is None)
                        && (crate::dataset::evaluation_sample_problem(sv[w]) matches Some(p)
                        && crate::dataset::is_invalid_sample_error(*e, w, p));
                    assert(views[w] == views[w]);
                    assert forall|j: int| 0 <= j < w implies crate::dataset::view_problem(#[trigger] views[j]) is None by {
                        assert(crate::dataset::evaluation_sample_problem(sv[j]) is None);
                    }
                    assert(crate::dataset::build_error_ok(views, |v: SingleTurnView| crate::dataset::view_problem(v), *e));
                } else {
                    assert(rv.len() <= 1);
                }
            },
        }
    }
    r
}

/// The sheet that holds the dataset `name`.
pub open spec fn gdrive_sheet_name(name: Seq<char>) -> Seq<char> {
    name + ".gsheet"@
}

fn sheet_name_of(name: &str) -> (out: String)
    ensures
        out@ == gdrive_sheet_name(name@),
{
    let mut out = String::new();
    push_str(&mut out, name);
    push_str(&mut out, ".gsheet");
    out
}

/// A name is among the dataset names of `sheets` exactly when the name with `.gsheet` appended
/// is one of the sheets.
pub proof fn lemma_dataset_names_contains(sheets: Seq<Seq<char>>)
    ensures
        forall|n: Seq<char>| #[trigger] dataset_names(sheets).contains(n) <==> sheets.contains(gdrive_sheet_name(n)),
    decreases sheets.len(),
{
    reveal_strlit(".gsheet");
    if sheets.len() > 0 {
        let rest = sheets.drop_last();
        let s = sheets.last();
        lemma_dataset_names_contains(rest);
        assert forall|n: Seq<char>| #[trigger] dataset_names(sheets).contains(n) <==> sheets.contains(gdrive_sheet_name(n)) by {
            let g = gdrive_sheet_name(n);
            assert(sheets =~= rest.push(s));
            lemma_push_contains(rest, s, g);
            if s.len() >= 7 && s.skip(s.len() - 7) == ".gsheet"@ {
                let x = s.take(s.len() - 7);
                assert(s =~= x + ".gsheet"@);
                assert(s == g <==> x == n) by {
                    if s == g {
                        assert(g.take(n.len() as int) =~= n);
                    }
                }
                assert(dataset_names(sheets) == dataset_names(rest).push(x));
                lemma_push_contains(dataset_names(rest), x, n);
            } else {
                assert(dataset_names(sheets) == dataset_names(rest));
                if s == g {
                    assert(g.skip(g.len() - 7) =~= ".gsheet"@);
                }
            }
        }
    }
}

proof fn lemma_push_contains(q: Seq<Seq<char>>, x: Seq<char>, n: Seq<char>)
    ensures
        q.push(x).contains(n) <==> (q.contains(n) || x == n),
{
    if q.push(x).contains(n) {
        let i = choose|i: int| 0 <= i < q.len() + 1 && q.push(x)[i] == n;
        if i < q.len() {
            assert(q[i] == n);
        }
    }
    if q.contains(n) {
        let i = choose|i: int| 0 <= i < q.len() && q[i] == n;
        assert(q.push(x)[i] == n);
    }
    if x == n {
        assert(q.push(x)[q.len() as int] == n);
    }
}

/// The dataset names among sheet names: each name that ends in `.gsheet`, without that suffix,
/// in the order given.
pub open spec fn dataset_names(sheets: Seq<Seq<char>>) -> Seq<Seq<char>>
    decreases sheets.len(),
{
    if sheets.len() == 0 {
        Seq::empty()
    } else {
        let rest = dataset_names(sheets.drop_last());
        let s = sheets.last();
        if s.len() >= 7 && s.skip(s.len() - 7) == ".gsheet"@ {
            rest.push(s.take(s.len() - 7))
        } else {
            rest
        }
    }
}

/// The dataset names among the given sheet names.
pub fn gdrive_dataset_names(sheets: &Vec<String>) -> (out: Vec<String>)
    ensures
        strings_view(out@) == dataset_names(strings_view(sheets@)),
{
    let ghost sv = strings_view(sheets@);
    let suffix = crate::text::chars_of(".gsheet");
    proof {
        reveal_strlit(".gsheet");
    }
    let mut out: Vec<String> = Vec::new();
    let mut i: usize = 0;
    while i < sheets.len()
        invariant
            sv == strings_view(sheets@),
            suffix@ == ".gsheet"@,
            suffix@.len() == 7,
            i <= sheets@.len(),
            strings_view(out@) == dataset_names(sv.take(i as int)),
        decreases sheets@.len() - i,
    {
        let cs = crate::text::chars_of(sheets[i].as_str());
        assert(sv.take(i + 1).drop_last() =~= sv.take(i as int));
        assert(sv.take(i + 1).last() == cs@);
        if cs.len() >= 7 {
            let tail = crate::text::slice_to_vec(&cs, cs.len() - 7, cs.len());
            assert(tail@ =~= cs@.skip(cs@.len() - 7));
            if crate::text::chars_equal(&tail, &suffix) {
                let name = crate::text::string_of_range(&cs, 0, cs.len() - 7);
                assert(name@ =~= cs@.take(cs@.len() - 7));
                let ghost before = out@;
                out.push(name);
                assert(strings_view(out@) =~= strings_view(before).push(name@));
            }
        }
        i = i + 1;
    }
    assert(sv.take(sheets@.len() as int) =~= sv);
    out
}

/// A dataset backend that stores each dataset as the sheet `<name>.gsheet` of a transport.
#[derive(Debug, Clone)]
pub struct GoogleDriveDatasetBackend<T> {
    config: GDriveBackendConfig,
    transport: T,
}

impl<T> GoogleDriveDatasetBackend<T> {
    pub closed spec fn config_of(&self) -> GDriveBackendConfig {
        self.config
    }

    pub closed spec fn transport_of(&self) -> T {
        self.transport
    }

    pub fn new(config: GDriveBackendConfig, transport: T) -> (b: Self)
        ensures
            b.config_of() == config,
            b.transport_of() == transport,
    {
        GoogleDriveDatasetBackend { config, transport }
    }

    pub fn config(&self) -> (c: &GDriveBackendConfig)
        ensures
            *c == self.config_of(),
    {
        &self.config
    }

    pub fn transport(&self) -> (t: &T)
        ensures
            *t == self.transport_of(),
    {
        &self.transport
    }
}

impl<T: GDriveSheetTransport> DatasetBackend for GoogleDriveDatasetBackend<T> {
    fn save(&mut self, name: &str, dataset: &EvaluationDataset<EvaluationSample>) -> (r: Result<(), RagasError>)
        ensures
            !all_single_turn(dataset@.0) ==> (r matches Err(RagasError::DatasetIo { message })
                && message@ == gdrive_single_turn_message()),
            r is Ok ==> all_single_turn(dataset@.0) && contexts_round_trip(single_turn_parts(dataset@.0))
                && exists|rows: Seq<Seq<Seq<char>>>|
                is_gdrive_sheet(single_turn_parts(dataset@.0), rows)
                && #[trigger] final(self).transport_of().sheets() == old(self).transport_of().sheets().insert(
                    gdrive_sheet_name(name@),
                    rows,
                ),
            final(self).config_of() == old(self).config_of(),
    {
        let rows = match dataset_to_gdrive_rows(dataset) {
            Ok(rows) => rows,
            Err(e) => return Err(e),
        };
        let ghost rv = rows_view(rows@);
        let sheet = sheet_name_of(name);
        let r = self.transport.put_sheet(sheet.as_str(), rows);
        proof {
            if r is Ok {
                assert(self.transport_of().sheets() == old(self).transport_of().sheets().insert(gdrive_sheet_name(name@), rv));
            }
        }
        r
    }

    fn load(&self, name: &str) -> (r: Result<EvaluationDataset<EvaluationSample>, RagasError>)
        ensures
            r is Ok ==> self.transport_of().sheets().contains_key(gdrive_sheet_name(name@)),
            r matches Ok(d) ==> d@.0 == sheet_sample_views(self.transport_of().sheets()[gdrive_sheet_name(name@)])
                && d@.1 == Map::<Seq<char>, Seq<char>>::empty(),
    {
        let sheet = sheet_name_of(name);
        let rows = match self.transport.get_sheet(sheet.as_str()) {
            Ok(rows) => rows,
            Err(e) => return Err(e),
        };
        gdrive_rows_to_dataset(rows)
    }

    fn list(&self) -> (r: Vec<String>)
        ensures
            strings_view(r@) == dataset_names(self.transport_of().sheet_order()),
            forall|n: Seq<char>| #[trigger] strings_view(r@).contains(n)
                <==> self.transport_of().sheets().contains_key(gdrive_sheet_name(n)),
    {
        let sheets = self.transport.list_sheets();
        let r = gdrive_dataset_names(&sheets);
        proof {
            lemma_dataset_names_contains(strings_view(sheets@));
        }
        r
    }

    fn delete(&mut self, name: &str) -> (removed: bool)
        ensures
            removed == old(self).transport_of().sheets().contains_key(gdrive_sheet_name(name@)),
            final(self).transport_of().sheets() == old(self).transport_of().sheets().remove(gdrive_sheet_name(name@)),
            final(self).config_of() == old(self).config_of(),
    {
        let sheet = sheet_name_of(name);
        self.transport.delete_sheet(sheet.as_str())
    }
}

/// A dataset backend that keeps each dataset as a JSON-lines document, by name.
#[derive(Debug)]
pub struct JsonlDatasetBackend {
    documents: StringMap<String>,
}

impl View for JsonlDatasetBackend {
    type V = Map<Seq<char>, Seq<char>>;

    closed spec fn view(&self) -> Map<Seq<char>, Seq<char>> {
        metadata_view(self.documents@)
    }
}

impl JsonlDatasetBackend {
    /// An empty backend.
    pub fn new() -> (b: Self)
        ensures
            b@ == Map::<Seq<char>, Seq<char>>::empty(),
    {
        let b = JsonlDatasetBackend { documents: StringMap::new() };
        assert(b@ =~= Map::<Seq<char>, Seq<char>>::empty());
        b
    }

    /// Stores the document of the dataset `name`.
    pub fn save_document(&mut self, name: &str, document: String)
        ensures
            final(self)@ == old(self)@.insert(name@, document@),
    {
        self.documents.insert(to_owned_string(name), document);
        assert(self@ =~= old(self)@.insert(name@, document@));
    }

    /// The document of the dataset `name`.
    pub fn load_document(&self, name: &str) -> (r: Result<String, RagasError>)
        ensures
            match r {
                Ok(d) => self@.contains_key(name@) && d@ == self@[name@],
                Err(e) => !self@.contains_key(name@) && (e matches RagasError::DatasetIo { message }
                    && message@ == not_found_message(name@)),
            },
    {
        match self.documents.get(name) {
            Some(d) => Ok(d.clone()),
            None => Err(not_found(name)),
        }
    }

    /// The names of the stored datasets, in ascending order.
    pub fn list(&self) -> (r: Vec<String>)
        ensures
            lists_keys_of(strings_view(r@), self@),
    {
        proof {
            use_type_invariant(&self.documents);
            self.documents.lemma_sorted_keys();
        }
        let r = self.documents.keys();
        assert(strings_view(r@) == self.documents.sorted_keys());
        r
    }

    /// Deletes the dataset `name`, saying whether it was there.
    pub fn delete(&mut self, name: &str) -> (removed: bool)
        ensures
            removed == old(self)@.contains_key(name@),
            final(self)@ == old(self)@.remove(name@),
    {
        let r = self.documents.remove(name);
        assert(self@ =~= old(self)@.remove(name@));
        r.is_some()
    }
}

/// A dataset backend that keeps each dataset as a CSV document, by name.
#[derive(Debug)]
pub struct CsvDatasetBackend {
    documents: StringMap<String>,
}

impl View for CsvDatasetBackend {
    type V = Map<Seq<char>, Seq<char>>;

    closed spec fn view(&self) -> Map<Seq<char>, Seq<char>> {
        metadata_view(self.documents@)
    }
}

impl CsvDatasetBackend {
    /// An empty backend.
    pub fn new() -> (b: Self)
        ensures
            b@ == Map::<Seq<char>, Seq<char>>::empty(),
    {
        let b = CsvDatasetBackend { documents: StringMap::new() };
        assert(b@ =~= Map::<Seq<char>, Seq<char>>::empty());
        b
    }

    /// Stores the document of the dataset `name`.
    pub fn save_document(&mut self, name: &str, document: String)
        ensures
            final(self)@ == old(self)@.insert(name@, document@),
    {
        self.documents.insert(to_owned_string(name), document);
        assert(self@ =~= old(self)@.insert(name@, document@));
    }

    /// The document of the dataset `name`.
    pub fn load_document(&self, name: &str) -> (r: Result<String, RagasError>)
        ensures
            match r {
                Ok(d) => self@.contains_key(name@) && d@ == self@[name@],
                Err(e) => !self@.contains_key(name@) && (e matches RagasError::DatasetIo { message }
                    && message@ == not_found_message(name@)),
            },
    {
        match self.documents.get(name) {
            Some(d) => Ok(d.clone()),
            None => Err(not_found(name)),
        }
    }

    /// The names of the stored datasets, in ascending order.
    pub fn list(&self) -> (r: Vec<String>)
        ensures
            lists_keys_of(strings_view(r@), self@),
    {
        proof {
            use_type_invariant(&self.documents);
            self.documents.lemma_sorted_keys();
        }
        let r = self.documents.keys();
        assert(strings_view(r@) == self.documents.sorted_keys());
        r
    }

    /// Deletes the dataset `name`, saying whether it was there.
    pub fn delete(&mut self, name: &str) -> (removed: bool)
        ensures
            removed == old(self)@.contains_key(name@),
            final(self)@ == old(self)@.remove(name@),
    {
        let r = self.documents.remove(name);
        assert(self@ =~= old(self)@.remove(name@));
        r.is_some()
    }
}

} // verus!

//! Provider configuration: every environment-variable name and default value, and how a
//! configuration is resolved from the process environment, then a `.env` file, then the
//! defaults. Reading the environment and the file is left to the caller, which hands both in
//! as lookup tables.
use vstd::prelude::*;

use crate::dataset::{metadata_view, opt_string_view};
use crate::string_map::StringMap;
use crate::text::{
    chars_of, is_blank, pieces, push_char, push_str, slice_to_vec, split_pieces, starts_with_chars, string_of,
    string_of_range, to_owned_string, trim, trim_chars, trim_class, CharClass,
};

verus! {

pub const ENV_API_KEY: &'static str = "OPENAI_API_KEY";
pub const ENV_BASE_URL: &'static str = "OPENAI_BASE_URL";
pub const ENV_MODEL: &'static str = "OPENAI_MODEL";
pub const ENV_EMBEDDING_API_KEY: &'static str = "OPENAI_EMBEDDING_API_KEY";
pub const ENV_EMBEDDING_BASE_URL: &'static str = "OPENAI_EMBEDDING_BASE_URL";
pub const ENV_EMBEDDING_MODEL: &'static str = "OPENAI_EMBEDDING_MODEL";
pub const DEFAULT_BASE_URL: &'static str = "https://api.openai.com/v1";
pub const DEFAULT_MODEL: &'static str = "gpt-4o-mini";
pub const DEFAULT_EMBEDDING_MODEL: &'static str = "text-embedding-3-small";

/// The provider configuration for chat and embeddings. Embeddings fall back to the chat
/// provider's key and base URL when they are not configured separately.
#[derive(Debug, Clone, PartialEq, Eq)]
pub struct ProviderConfig {
    pub api_key: Option<String>,
    pub base_url: String,
    pub model: String,
    pub embedding_api_key: Option<String>,
    pub embedding_base_url: String,
    pub embedding_model: String,
}

/// A value that is present and not blank.
pub open spec fn non_blank(v: Option<Seq<char>>) -> Option<Seq<char>> {
    match v {
        Some(t) => if trim(t).len() > 0 {
            Some(t)
        } else {
            None
        },
        None => None,
    }
}

/// The value of `key`: from the environment if set and not blank, else from the `.env` table
/// if set and not blank.
pub open spec fn config_value(env: Map<Seq<char>, Seq<char>>, dotenv: Map<Seq<char>, Seq<char>>, key: Seq<char>) -> Option<Seq<char>> {
    match non_blank(if env.contains_key(key) { Some(env[key]) } else { None }) {
        Some(v) => Some(v),
        None => non_blank(if dotenv.contains_key(key) { Some(dotenv[key]) } else { None }),
    }
}

pub open spec fn or_default(v: Option<Seq<char>>, d: Seq<char>) -> Seq<char> {
    match v {
        Some(x) => x,
        None => d,
    }
}

fn lookup(env: &StringMap<String>, dotenv: &StringMap<String>, key: &str) -> (r: Option<String>)
    ensures
        opt_string_view(r) == config_value(metadata_view(env@), metadata_view(dotenv@), key@),
{
    match env.get(key) {
        Some(v) => if !is_blank(v.as_str()) {
            return Some(v.clone());
        },
        None => {},
    }
    match dotenv.get(key) {
        Some(v) => if !is_blank(v.as_str()) {
            Some(v.clone())
        } else {
            None
        },
        None => None,
    }
}

fn copy_opt(s: &Option<String>) -> (out: Option<String>)
    ensures
        opt_string_view(out) == opt_string_view(*s),
{
    match s {
        Some(x) => Some(x.clone()),
        None => None,
    }
}

impl ProviderConfig {
    /// The configuration from an environment table and a `.env` table: each value from the
    /// environment if set and not blank, else from `.env` if set and not blank, else its
    /// default; the embedding key and base URL default to the chat ones.
    pub fn resolve(env: &StringMap<String>, dotenv: &StringMap<String>) -> (c: Self)
        ensures
            ({
                let e = metadata_view(env@);
                let d = metadata_view(dotenv@);
                &&& opt_string_view(c.api_key) == config_value(e, d, "OPENAI_API_KEY"@)
                &&& c.base_url@ == or_default(config_value(e, d, "OPENAI_BASE_URL"@), "https://api.openai.com/v1"@)
                &&& c.model@ == or_default(config_value(e, d, "OPENAI_MODEL"@), "gpt-4o-mini"@)
                &&& opt_string_view(c.embedding_api_key) == match config_value(e, d, "OPENAI_EMBEDDING_API_KEY"@) {
                    Some(k) => Some(k),
                    None => config_value(e, d, "OPENAI_API_KEY"@),
                }
                &&& c.embedding_base_url@ == or_default(config_value(e, d, "OPENAI_EMBEDDING_BASE_URL"@), c.base_url@)
                &&& c.embedding_model@ == or_default(config_value(e, d, "OPENAI_EMBEDDING_MODEL"@), "text-embedding-3-small"@)
            }),
    {
        let api_key = lookup(env, dotenv, "OPENAI_API_KEY");
        let base_url = match lookup(env, dotenv, "OPENAI_BASE_URL") {
            Some(v) => v,
            None => to_owned_string("https://api.openai.com/v1"),
        };
        let model = match lookup(env, dotenv, "OPENAI_MODEL") {
            Some(v) => v,
            None => to_owned_string("gpt-4o-mini"),
        };
        let embedding_api_key = match lookup(env, dotenv, "OPENAI_EMBEDDING_API_KEY") {
            Some(v) => Some(v),
            None => copy_opt(&api_key),
        };
        let embedding_base_url = match lookup(env, dotenv, "OPENAI_EMBEDDING_BASE_URL") {
            Some(v) => v,
            None => base_url.clone(),
        };
        let embedding_model = match lookup(env, dotenv, "OPENAI_EMBEDDING_MODEL") {
            Some(v) => v,
            None => to_owned_string("text-embedding-3-small"),
        };
        ProviderConfig { api_key, base_url, model, embedding_api_key, embedding_base_url, embedding_model }
    }

    /// Whether a chat API key is configured.
    pub fn has_api_key(&self) -> (b: bool)
        ensures
            b == self.api_key is Some,
    {
        self.api_key.is_some()
    }

    /// A chat client for the configured endpoint and model (embeddings with the embedding
    /// model), or `None` when no chat API key is configured.
    pub fn chat_client(&self) -> (c: Option<crate::llm::OpenAiCompatibleClient>)
        ensures
            match c {
                Some(client) => self.api_key matches Some(k) && client@ == (crate::llm::ClientView {
                    base_url: self.base_url@,
                    api_key: k@,
                    model: self.model@,
                    embedding_model: self.embedding_model@,
                    headers: Map::empty(),
                    query_params: Map::empty(),
                }),
                None => self.api_key is None,
            },
    {
        match &self.api_key {
            Some(k) => Some(
                crate::llm::OpenAiCompatibleClient::new(self.base_url.as_str(), k.as_str(), self.model.as_str())
                    .with_embedding_model(self.embedding_model.as_str()),
            ),
            None => None,
        }
    }

    /// An embedding client for the embedding endpoint and model, or `None` when no embedding
    /// API key is configured.
    pub fn embedding_client(&self) -> (c: Option<crate::llm::OpenAiCompatibleClient>)
        ensures
            match c {
                Some(client) => self.embedding_api_key matches Some(k) && client@ == (crate::llm::ClientView {
                    base_url: self.embedding_base_url@,
                    api_key: k@,
                    model: self.embedding_model@,
                    embedding_model: self.embedding_model@,
                    headers: Map::empty(),
                    query_params: Map::empty(),
                }),
                None => self.embedding_api_key is None,
            },
    {
        match &self.embedding_api_key {
            Some(k) => Some(
                crate::llm::OpenAiCompatibleClient::new(
                    self.embedding_base_url.as_str(),
                    k.as_str(),
                    self.embedding_model.as_str(),
                ),
            ),
            None => None,
        }
    }

    /// The summary of the configuration with both keys masked.
    pub open spec fn redacted_summary_text(&self) -> Seq<char> {
        "chat:\n  OPENAI_BASE_URL="@ + self.base_url@ + "\n  OPENAI_MODEL="@ + self.model@
            + "\n  OPENAI_API_KEY="@ + masked(opt_string_view(self.api_key))
            + "\nembeddings:\n  OPENAI_EMBEDDING_BASE_URL="@ + self.embedding_base_url@
            + "\n  OPENAI_EMBEDDING_MODEL="@ + self.embedding_model@ + "\n  OPENAI_EMBEDDING_API_KEY="@
            + masked(opt_string_view(self.embedding_api_key))
    }

    /// A summary of the configuration with both keys masked.
    pub fn redacted_summary(&self) -> (s: String)
        ensures
            s@ == self.redacted_summary_text(),
    {
        let mut s = String::new();
        push_str(&mut s, "chat:\n  OPENAI_BASE_URL=");
        push_str(&mut s, self.base_url.as_str());
        push_str(&mut s, "\n  OPENAI_MODEL=");
        push_str(&mut s, self.model.as_str());
        push_str(&mut s, "\n  OPENAI_API_KEY=");
        let k = redact(match &self.api_key {
            Some(x) => Some(x.as_str()),
            None => None,
        });
        push_str(&mut s, k.as_str());
        push_str(&mut s, "\nembeddings:\n  OPENAI_EMBEDDING_BASE_URL=");
        push_str(&mut s, self.embedding_base_url.as_str());
        push_str(&mut s, "\n  OPENAI_EMBEDDING_MODEL=");
        push_str(&mut s, self.embedding_model.as_str());
        push_str(&mut s, "\n  OPENAI_EMBEDDING_API_KEY=");
        let e = redact(match &self.embedding_api_key {
            Some(x) => Some(x.as_str()),
            None => None,
        });
        push_str(&mut s, e.as_str());
        s
    }
}

/// A secret as it may be shown: `(not set)` when absent, `***` when it has at most eight
/// characters, else its first six and last four characters around an ellipsis.
pub open spec fn masked(secret: Option<Seq<char>>) -> Seq<char> {
    match secret {
        None => "(not set)"@,
        Some(v) => if v.len() <= 8 {
            "***"@
        } else {
            v.take(6) + seq!['\u{2026}'] + v.skip(v.len() - 4)
        },
    }
}

/// Masks a secret for display.
pub fn redact(secret: Option<&str>) -> (s: String)
    ensures
        s@ == masked(match secret {
            Some(x) => Some(x@),
            None => None,
        }),
{
    match secret {
        None => to_owned_string("(not set)"),
        Some(value) => {
            let cs = chars_of(value);
            if cs.len() <= 8 {
                to_owned_string("***")
            } else {
                let mut s = string_of_range(&cs, 0, 6);
                push_char(&mut s, '\u{2026}');
                let tail = string_of_range(&cs, cs.len() - 4, cs.len());
                push_str(&mut s, tail.as_str());
                assert(cs@.subrange(0, 6) =~= cs@.take(6));
                assert(cs@.subrange(cs@.len() - 4, cs@.len() as int) =~= cs@.skip(cs@.len() - 4));
                s
            }
        },
    }
}

/// The position of the first `c` in `s`, if any.
pub open spec fn first_char(s: Seq<char>, c: char) -> Option<int>
    decreases s.len(),
{
    if s.len() == 0 {
        None
    } else if s[0] == c {
        Some(0)
    } else {
        match first_char(s.drop_first(), c) {
            Some(p) => Some(p + 1),
            None => None,
        }
    }
}

/// The entry of one `.env` line: blank lines and `#` comments have none; a leading `export `
/// is dropped; the key is what stands before the first `=` (trimmed, not empty) and the value
/// what stands after it, trimmed and without surrounding double, then single quotes.
pub open spec fn dotenv_entry(line: Seq<char>) -> Option<(Seq<char>, Seq<char>)> {
    let t = trim(line);
    if t.len() == 0 || t[0] == '#' {
        None
    } else {
        let u = if t.len() >= 7 && t.take(7) == "export "@ {
            t.skip(7)
        } else {
            t
        };
        match first_char(u, '=') {
            None => None,
            Some(i) => {
                let key = trim(u.take(i));
                if key.len() == 0 {
                    None
                } else {
                    Some(
                        (
                            key,
                            trim_class(trim_class(trim(u.skip(i + 1)), CharClass::DoubleQuote), CharClass::SingleQuote),
                        ),
                    )
                }
            },
        }
    }
}

/// The table of `.env` lines: each entry sets its key, a later line wins.
pub open spec fn dotenv_table(lines: Seq<Seq<char>>) -> Map<Seq<char>, Seq<char>>
    decreases lines.len(),
{
    if lines.len() == 0 {
        Map::empty()
    } else {
        let m = dotenv_table(lines.drop_last());
        match dotenv_entry(lines.last()) {
            Some((k, v)) => m.insert(k, v),
            None => m,
        }
    }
}

fn first_char_pos(s: &Vec<char>, c: char) -> (r: Option<usize>)
    ensures
        match r {
            Some(p) => p < s@.len() && first_char(s@, c) == Some(p as int),
            None => first_char(s@, c) is None,
        },
{
    let mut i: usize = 0;
    assert(s@.skip(0) =~= s@);
    while i < s.len()
        invariant
            i <= s@.len(),
            first_char(s@, c) == match first_char(s@.skip(i as int), c) {
                Some(p) => Some(p + i),
                None => None::<int>,
            },
        decreases s@.len() - i,
    {
        assert(s@.skip(i as int).drop_first() =~= s@.skip(i + 1));
        if s[i] == c {
            return Some(i);
        }
        i = i + 1;
    }
    None
}

fn dotenv_line(line: &Vec<char>) -> (r: Option<(String, String)>)
    ensures
        match r {
            Some((k, v)) => dotenv_entry(line@) == Some((k@, v@)),
            None => dotenv_entry(line@) is None,
        },
{
    let t = trim_chars(line, CharClass::Whitespace);
    if t.len() == 0 || t[0] == '#' {
        return None;
    }
    let prefix = chars_of("export ");
    proof {
        reveal_strlit("export ");
    }
    let u = if t.len() >= 7 && starts_with_chars(&t, &prefix) {
        slice_to_vec(&t, 7, t.len())
    } else {
        t
    };
    assert(t@.len() >= 7 && t@.take(7) == "export "@ ==> u@ =~= t@.skip(7));
    match first_char_pos(&u, '=') {
        None => None,
        Some(i) => {
            let key = trim_chars(&slice_to_vec(&u, 0, i), CharClass::Whitespace);
            assert(u@.subrange(0, i as int) =~= u@.take(i as int));
            if key.len() == 0 {
                return None;
            }
            let rest = slice_to_vec(&u, i + 1, u.len());
            assert(rest@ =~= u@.skip(i + 1));
            let v1 = trim_chars(&rest, CharClass::Whitespace);
            let v2 = trim_chars(&v1, CharClass::DoubleQuote);
            let v3 = trim_chars(&v2, CharClass::SingleQuote);
            Some((string_of(&key), string_of(&v3)))
        },
    }
}

/// The table of a `.env` file's contents (one `KEY=VALUE` per line; see `dotenv_entry`).
pub fn parse_dotenv(contents: &str) -> (m: StringMap<String>)
    ensures
        metadata_view(m@) == dotenv_table(pieces(contents@, CharClass::Newline)),
{
    let cs = chars_of(contents);
    let lines = split_pieces(&cs, CharClass::Newline);
    let ghost lv = lines@.map_values(|v: Vec<char>| v@);
    let mut m: StringMap<String> = StringMap::new();
    let mut i: usize = 0;
    assert(metadata_view(m@) =~= dotenv_table(lv.take(0)));
    while i < lines.len()
        invariant
            lv == lines@.map_values(|v: Vec<char>| v@),
            lv == pieces(contents@, CharClass::Newline),
            i <= lines@.len(),
            metadata_view(m@) == dotenv_table(lv.take(i as int)),
        decreases lines@.len() - i,
    {
        assert(lv.take(i + 1).drop_last() =~= lv.take(i as int));
        assert(lv.take(i + 1).last() == lines@[i as int]@);
        match dotenv_line(&lines[i]) {
            Some((k, v)) => {
                let ghost before = m@;
                m.insert(k, v);
                assert(metadata_view(m@) =~= metadata_view(before).insert(k@, v@));
            },
            None => {},
        }
        i = i + 1;
    }
    assert(lv.take(lines@.len() as int) =~= lv);
    m
}

} // verus!

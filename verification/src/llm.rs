//! Model-provider configuration and the provider-independent parts of an OpenAI-compatible
//! client: endpoint URLs, headers and query parameters, and error messages with every secret
//! removed. Sending requests is left to the caller.
use vstd::prelude::*;

use crate::dataset::metadata_view;
use crate::error::RagasError;
use crate::string_map::{lemma_sorted_key_list, sorted_key_list, StringMap};
use crate::text::{
    chars_of, decimal, is_ws, occurs_at, push_decimal, push_str, replace_all, replace_chars,
    string_of, strip_end, to_owned_string, trim_chars, CharClass,
};

verus! {

/// A chat message: its role and its text.
#[derive(Debug, Clone, PartialEq, Eq)]
pub struct ChatMessage {
    pub role: String,
    pub content: String,
}

impl ChatMessage {
    /// A message from the user.
    pub fn user(content: &str) -> (m: Self)
        ensures
            m.role@ == "user"@,
            m.content@ == content@,
    {
        ChatMessage { role: to_owned_string("user"), content: to_owned_string(content) }
    }
}

/// Token counts a provider reports.
#[derive(Debug, Clone, Copy, PartialEq, Eq, Structural)]
pub struct TokenUsage {
    pub prompt_tokens: Option<u32>,
    pub completion_tokens: Option<u32>,
    pub total_tokens: Option<u32>,
}

/// A chat completion: the text and the token usage, if reported.
#[derive(Debug, Clone, PartialEq, Eq)]
pub struct LlmResponse {
    pub content: String,
    pub usage: Option<TokenUsage>,
}

/// Texts to embed.
#[derive(Debug, Clone, PartialEq, Eq)]
pub struct EmbeddingRequest {
    pub input: Vec<String>,
}

/// The configuration of an OpenAI-compatible endpoint.
#[derive(Debug, PartialEq, Eq)]
pub struct OpenAiCompatibleConfig {
    base_url: String,
    api_key: String,
    model: String,
    embedding_model: Option<String>,
    headers: StringMap<String>,
    query_params: StringMap<String>,
}

/// The contents of an endpoint configuration.
pub struct EndpointView {
    pub base_url: Seq<char>,
    pub api_key: Seq<char>,
    pub model: Seq<char>,
    pub embedding_model: Option<Seq<char>>,
    pub headers: Map<Seq<char>, Seq<char>>,
    pub query_params: Map<Seq<char>, Seq<char>>,
}

impl View for OpenAiCompatibleConfig {
    type V = EndpointView;

    closed spec fn view(&self) -> EndpointView {
        EndpointView {
            base_url: self.base_url@,
            api_key: self.api_key@,
            model: self.model@,
            embedding_model: crate::dataset::opt_string_view(self.embedding_model),
            headers: metadata_view(self.headers@),
            query_params: metadata_view(self.query_params@),
        }
    }
}

impl OpenAiCompatibleConfig {
    pub fn new(base_url: &str, api_key: &str, model: &str) -> (c: Self)
        ensures
            c@.base_url == base_url@,
            c@.api_key == api_key@,
            c@.model == model@,
            c@.embedding_model is None,
            c@.headers == Map::<Seq<char>, Seq<char>>::empty(),
            c@.query_params == Map::<Seq<char>, Seq<char>>::empty(),
    {
        let c = OpenAiCompatibleConfig {
            base_url: to_owned_string(base_url),
            api_key: to_owned_string(api_key),
            model: to_owned_string(model),
            embedding_model: None,
            headers: StringMap::new(),
            query_params: StringMap::new(),
        };
        assert(c@.headers =~= Map::<Seq<char>, Seq<char>>::empty());
        assert(c@.query_params =~= Map::<Seq<char>, Seq<char>>::empty());
        c
    }

    /// This configuration with the header `name: value` on every request.
    pub fn with_header(self, name: &str, value: &str) -> (c: Self)
        ensures
            c@ == (EndpointView { headers: self@.headers.insert(name@, value@), ..self@ }),
    {
        let mut c = self;
        c.headers.insert(to_owned_string(name), to_owned_string(value));
        assert(c@.headers =~= self@.headers.insert(name@, value@));
        c
    }

    /// This configuration with a separate embedding model.
    pub fn with_embedding_model(self, model: &str) -> (c: Self)
        ensures
            c@ == (EndpointView { embedding_model: Some(model@), ..self@ }),
    {
        let mut c = self;
        c.embedding_model = Some(to_owned_string(model));
        c
    }

    /// This configuration with the query parameter `name=value` on every request.
    pub fn with_query_param(self, name: &str, value: &str) -> (c: Self)
        ensures
            c@ == (EndpointView { query_params: self@.query_params.insert(name@, value@), ..self@ }),
    {
        let mut c = self;
        c.query_params.insert(to_owned_string(name), to_owned_string(value));
        assert(c@.query_params =~= self@.query_params.insert(name@, value@));
        c
    }
}

/// The configuration of an Azure OpenAI deployment.
#[derive(Debug, Clone, PartialEq, Eq)]
pub struct AzureOpenAiConfig {
    endpoint: String,
    api_key: String,
    deployment: String,
    api_version: String,
}

/// `s` without its trailing slashes (`str::trim_end_matches('/')`).
pub open spec fn without_trailing_slashes(s: Seq<char>) -> Seq<char> {
    strip_end(s, CharClass::Slash)
}

fn trim_slashes(s: &str) -> (out: String)
    ensures
        out@ == without_trailing_slashes(s@),
{
    let cs = chars_of(s);
    let t = crate::text::strip_end_chars(&cs, CharClass::Slash);
    string_of(&t)
}

impl AzureOpenAiConfig {
    pub closed spec fn endpoint_view(&self) -> Seq<char> {
        self.endpoint@
    }

    pub closed spec fn api_key_view(&self) -> Seq<char> {
        self.api_key@
    }

    pub closed spec fn deployment_view(&self) -> Seq<char> {
        self.deployment@
    }

    pub closed spec fn api_version_view(&self) -> Seq<char> {
        self.api_version@
    }

    pub fn new(endpoint: &str, api_key: &str, deployment: &str, api_version: &str) -> (c: Self)
        ensures
            c.endpoint_view() == endpoint@,
            c.api_key_view() == api_key@,
            c.deployment_view() == deployment@,
            c.api_version_view() == api_version@,
    {
        AzureOpenAiConfig {
            endpoint: to_owned_string(endpoint),
            api_key: to_owned_string(api_key),
            deployment: to_owned_string(deployment),
            api_version: to_owned_string(api_version),
        }
    }

    /// The equivalent OpenAI-compatible configuration: the deployment's URL as base URL, the
    /// deployment as model, the key in the `api-key` header and the API version as the
    /// `api-version` query parameter.
    pub fn into_openai_compatible_config(self) -> (c: OpenAiCompatibleConfig)
        ensures
            c@.base_url == without_trailing_slashes(self.endpoint_view()) + "/openai/deployments/"@
                + self.deployment_view(),
            c@.api_key == self.api_key_view(),
            c@.model == self.deployment_view(),
            c@.embedding_model is None,
            c@.headers == Map::<Seq<char>, Seq<char>>::empty().insert("api-key"@, self.api_key_view()),
            c@.query_params == Map::<Seq<char>, Seq<char>>::empty().insert(
                "api-version"@,
                self.api_version_view(),
            ),
    {
        let mut base = trim_slashes(self.endpoint.as_str());
        push_str(&mut base, "/openai/deployments/");
        push_str(&mut base, self.deployment.as_str());
        let c = OpenAiCompatibleConfig::new(base.as_str(), self.api_key.as_str(), self.deployment.as_str());
        let c = c.with_header("api-key", self.api_key.as_str());
        c.with_query_param("api-version", self.api_version.as_str())
    }
}

/// `k1=v1&k2=v2...` over the keys `ks` of `m`, in order.
pub open spec fn query_pairs(ks: Seq<Seq<char>>, m: Map<Seq<char>, Seq<char>>) -> Seq<char>
    decreases ks.len(),
{
    if ks.len() == 0 {
        Seq::empty()
    } else if ks.len() == 1 {
        ks[0] + "="@ + m[ks[0]]
    } else {
        query_pairs(ks.drop_last(), m) + "&"@ + ks.last() + "="@ + m[ks.last()]
    }
}

/// The query suffix of a URL: nothing without parameters, else `?` and the parameters in
/// ascending key order.
pub open spec fn query_suffix(ks: Seq<Seq<char>>, m: Map<Seq<char>, Seq<char>>) -> Seq<char> {
    if ks.len() == 0 {
        Seq::empty()
    } else {
        "?"@ + query_pairs(ks, m)
    }
}

/// The bearer-token prefix.
pub open spec fn bearer_prefix() -> Seq<char> {
    seq!['B', 'e', 'a', 'r', 'e', 'r', ' ']
}

/// The length of the token at the start of `s`: up to whitespace or a double quote.
pub open spec fn token_run(s: Seq<char>) -> nat
    decreases s.len(),
{
    if s.len() == 0 || is_ws(s[0]) || s[0] == '"' {
        0
    } else {
        1 + token_run(s.drop_first())
    }
}

proof fn lemma_token_run_bounded(s: Seq<char>)
    ensures
        token_run(s) <= s.len(),
    decreases s.len(),
{
    if s.len() > 0 && !is_ws(s[0]) && s[0] != '"' {
        lemma_token_run_bounded(s.drop_first());
    }
}

/// `s` with every bearer token (`Bearer` and the token after it) replaced by
/// `[redacted-bearer-token]`.
pub open spec fn redact_bearer(s: Seq<char>) -> Seq<char>
    decreases s.len(),
{
    if s.len() == 0 {
        Seq::empty()
    } else if occurs_at(s, bearer_prefix(), 0) {
        let rest = s.skip(7);
        let n = token_run(rest);
        if n <= rest.len() {
            "[redacted-bearer-token]"@ + redact_bearer(rest.skip(n as int))
        } else {
            Seq::empty()
        }
    } else {
        seq![s[0]] + redact_bearer(s.drop_first())
    }
}

fn redact_bearer_chars(s: &Vec<char>) -> (out: Vec<char>)
    ensures
        out@ == redact_bearer(s@),
{
    let prefix: Vec<char> = vec!['B', 'e', 'a', 'r', 'e', 'r', ' '];
    assert(prefix@ =~= bearer_prefix());
    let marker = chars_of("[redacted-bearer-token]");
    let mut out: Vec<char> = Vec::new();
    let mut i: usize = 0;
    assert(s@.skip(0) =~= s@);
    while i < s.len()
        invariant
            prefix@ == bearer_prefix(),
            marker@ == "[redacted-bearer-token]"@,
            i <= s@.len(),
            out@ + redact_bearer(s@.skip(i as int)) == redact_bearer(s@),
        decreases s@.len() - i,
    {
        let ghost rest = s@.skip(i as int);
        if 7 <= s.len() - i && crate::text::starts_with_chars(&crate::text::slice_to_vec(s, i, s.len()), &prefix) {
            assert(s@.subrange(i as int, s@.len() as int) =~= rest);
            assert(rest.take(7) =~= rest.subrange(0, 7));
            assert(occurs_at(rest, bearer_prefix(), 0));
            let mut j: usize = i + 7;
            assert(rest.skip(7) =~= s@.skip(i + 7));
            while j < s.len() && !crate::text::is_whitespace(s[j]) && s[j] != '"'
                invariant
                    i + 7 <= j <= s@.len(),
                    token_run(s@.skip(i + 7)) == (j - (i + 7)) + token_run(s@.skip(j as int)),
                decreases s@.len() - j,
            {
                assert(s@.skip(j as int).drop_first() =~= s@.skip(j + 1));
                j = j + 1;
            }
            proof {
                lemma_token_run_bounded(s@.skip(i + 7));
                assert(token_run(s@.skip(j as int)) == 0);
                assert(rest.skip(7).skip(j - (i + 7)) =~= s@.skip(j as int));
            }
            let ghost before = out@;
            let mut q: usize = 0;
            while q < marker.len()
                invariant
                    q <= marker@.len(),
                    out@ == before + marker@.take(q as int),
                decreases marker@.len() - q,
            {
                out.push(marker[q]);
                q = q + 1;
                assert(before + marker@.take(q as int) =~= (before + marker@.take(q - 1)).push(marker@[q - 1]));
            }
            assert(marker@.take(marker@.len() as int) =~= marker@);
            assert(out@ + redact_bearer(s@.skip(j as int)) =~= before + ("[redacted-bearer-token]"@ + redact_bearer(rest.skip(7).skip(j - (i + 7)))));
            i = j;
        } else {
            proof {
                if occurs_at(rest, bearer_prefix(), 0) {
                    assert(s@.subrange(i as int, s@.len() as int) =~= rest);
                    assert(rest.take(7) =~= rest.subrange(0, 7));
                }
            }
            let ghost before = out@;
            out.push(s[i]);
            assert(rest.drop_first() =~= s@.skip(i + 1));
            assert(out@ + redact_bearer(s@.skip(i + 1)) =~= before + (seq![rest[0]] + redact_bearer(rest.drop_first())));
            i = i + 1;
        }
    }
    assert(out@ + redact_bearer(s@.skip(i as int)) =~= out@);
    out
}

fn query_string(params: &StringMap<String>) -> (out: String)
    ensures
        out@ == query_suffix(params.sorted_keys(), metadata_view(params@)),
{
    proof {
        use_type_invariant(params);
        params.lemma_sorted_keys();
    }
    let ghost ks = params.sorted_keys();
    let ghost m = metadata_view(params@);
    let mut out = String::new();
    let n = params.len();
    if n == 0 {
        return out;
    }
    push_str(&mut out, "?");
    let ghost start = out@;
    let mut i: usize = 0;
    while i < n
        invariant
            n == ks.len(),
            ks == params.sorted_keys(),
            m == metadata_view(params@),
            forall|k: Seq<char>| params@.contains_key(k) <==> ks.contains(k),
            i <= n,
            out@ == start + query_pairs(ks.take(i as int), m),
        decreases n - i,
    {
        let key = params.key_at(i);
        let value = params.value_at(i);
        assert(ks.take(i + 1).drop_last() =~= ks.take(i as int));
        assert(ks.take(i + 1).last() == key@);
        assert(ks.contains(key@));
        assert(m[key@] == value@);
        let ghost before = out@;
        if i > 0 {
            push_str(&mut out, "&");
        }
        push_str(&mut out, key.as_str());
        push_str(&mut out, "=");
        push_str(&mut out, value.as_str());
        proof {
            if i == 0 {
                assert(ks.take(1)[0] == key@);
                assert(out@ =~= start + query_pairs(ks.take(1), m));
            } else {
                assert(out@ =~= start + query_pairs(ks.take(i + 1), m));
            }
        }
        i = i + 1;
    }
    assert(ks.take(n as int) =~= ks);
    out
}

/// The provider-independent state of an OpenAI-compatible client.
#[derive(Debug, PartialEq, Eq)]
pub struct OpenAiCompatibleClient {
    base_url: String,
    api_key: String,
    model: String,
    embedding_model: String,
    headers: StringMap<String>,
    query_params: StringMap<String>,
}

/// The contents of a client.
pub struct ClientView {
    pub base_url: Seq<char>,
    pub api_key: Seq<char>,
    pub model: Seq<char>,
    pub embedding_model: Seq<char>,
    pub headers: Map<Seq<char>, Seq<char>>,
    pub query_params: Map<Seq<char>, Seq<char>>,
}

impl View for OpenAiCompatibleClient {
    type V = ClientView;

    closed spec fn view(&self) -> ClientView {
        ClientView {
            base_url: self.base_url@,
            api_key: self.api_key@,
            model: self.model@,
            embedding_model: self.embedding_model@,
            headers: metadata_view(self.headers@),
            query_params: metadata_view(self.query_params@),
        }
    }
}

/// The message of a provider HTTP error: the status and the body with the API key, every
/// header value and every bearer token removed.
pub open spec fn http_error_message(c: ClientView, header_values: Seq<Seq<char>>, status: u16, body: Seq<char>) -> Seq<char> {
    "HTTP "@ + decimal(status as nat) + ": "@ + redact_bearer(
        remove_all(replace_all(body, c.api_key, "[redacted-api-key]"@), header_values),
    )
}

/// `s` with each of `values` (in order, empty ones skipped) replaced by `[redacted-header]`.
pub open spec fn remove_all(s: Seq<char>, values: Seq<Seq<char>>) -> Seq<char>
    decreases values.len(),
{
    if values.len() == 0 {
        s
    } else {
        replace_all(remove_all(s, values.drop_last()), values.last(), "[redacted-header]"@)
    }
}

impl OpenAiCompatibleClient {
    /// The query parameter keys in ascending order.
    pub open spec fn query_keys(&self) -> Seq<Seq<char>> {
        sorted_key_list(self@.query_params)
    }

    /// The header values, in ascending order of header name.
    pub open spec fn header_values(&self) -> Seq<Seq<char>> {
        sorted_key_list(self@.headers).map_values(|k: Seq<char>| self@.headers[k])
    }

    pub fn new(base_url: &str, api_key: &str, model: &str) -> (c: Self)
        ensures
            c@.base_url == base_url@,
            c@.api_key == api_key@,
            c@.model == model@,
            c@.embedding_model == model@,
            c@.headers == Map::<Seq<char>, Seq<char>>::empty(),
            c@.query_params == Map::<Seq<char>, Seq<char>>::empty(),
    {
        let c = OpenAiCompatibleClient {
            base_url: to_owned_string(base_url),
            api_key: to_owned_string(api_key),
            model: to_owned_string(model),
            embedding_model: to_owned_string(model),
            headers: StringMap::new(),
            query_params: StringMap::new(),
        };
        assert(c@.headers =~= Map::<Seq<char>, Seq<char>>::empty());
        assert(c@.query_params =~= Map::<Seq<char>, Seq<char>>::empty());
        c
    }

    /// A client for a configuration; without a separate embedding model, embeddings use the
    /// chat model.
    pub fn from_config(config: OpenAiCompatibleConfig) -> (c: Self)
        ensures
            c@.base_url == config@.base_url,
            c@.api_key == config@.api_key,
            c@.model == config@.model,
            c@.embedding_model == match config@.embedding_model {
                Some(m) => m,
                None => config@.model,
            },
            c@.headers == config@.headers,
            c@.query_params == config@.query_params,
    {
        let embedding_model = match &config.embedding_model {
            Some(m) => m.clone(),
            None => config.model.clone(),
        };
        OpenAiCompatibleClient {
            base_url: config.base_url,
            api_key: config.api_key,
            model: config.model,
            embedding_model,
            headers: config.headers,
            query_params: config.query_params,
        }
    }

    pub fn with_embedding_model(self, model: &str) -> (c: Self)
        ensures
            c@ == (ClientView { embedding_model: model@, ..self@ }),
    {
        let mut c = self;
        c.embedding_model = to_owned_string(model);
        c
    }

    pub fn with_header(self, name: &str, value: &str) -> (c: Self)
        ensures
            c@ == (ClientView { headers: self@.headers.insert(name@, value@), ..self@ }),
    {
        let mut c = self;
        c.headers.insert(to_owned_string(name), to_owned_string(value));
        assert(c@.headers =~= self@.headers.insert(name@, value@));
        c
    }

    /// The chat model.
    pub fn model(&self) -> (m: &str)
        ensures
            m@ == self@.model,
    {
        self.model.as_str()
    }

    /// The embedding model.
    pub fn embedding_model(&self) -> (m: &str)
        ensures
            m@ == self@.embedding_model,
    {
        self.embedding_model.as_str()
    }

    /// The API key, for the bearer authorization of a request.
    pub fn api_key(&self) -> (k: &str)
        ensures
            k@ == self@.api_key,
    {
        self.api_key.as_str()
    }

    pub fn headers(&self) -> (h: &StringMap<String>)
        ensures
            metadata_view(h@) == self@.headers,
    {
        &self.headers
    }

    fn url(&self, path: &str) -> (u: String)
        ensures
            u@ == without_trailing_slashes(self@.base_url) + "/"@ + path@ + query_suffix(self.query_keys(), self@.query_params),
    {
        proof {
            use_type_invariant(&self.query_params);
            self.query_params.lemma_sorted_keys();
            lemma_sorted_key_list(self@.query_params, self.query_params.sorted_keys());
        }
        let mut u = trim_slashes(self.base_url.as_str());
        push_str(&mut u, "/");
        push_str(&mut u, path);
        let q = query_string(&self.query_params);
        push_str(&mut u, q.as_str());
        u
    }

    /// The chat completions endpoint.
    pub fn chat_url(&self) -> (u: String)
        ensures
            u@ == without_trailing_slashes(self@.base_url) + "/chat/completions"@ + query_suffix(self.query_keys(), self@.query_params),
    {
        let u = self.url("chat/completions");
        proof {
            reveal_strlit("/");
            reveal_strlit("chat/completions");
            reveal_strlit("/chat/completions");
        }
        assert(u@ =~= without_trailing_slashes(self@.base_url) + "/chat/completions"@ + query_suffix(self.query_keys(), self@.query_params));
        u
    }

    /// The embeddings endpoint.
    pub fn embedding_url(&self) -> (u: String)
        ensures
            u@ == without_trailing_slashes(self@.base_url) + "/embeddings"@ + query_suffix(self.query_keys(), self@.query_params),
    {
        let u = self.url("embeddings");
        proof {
            reveal_strlit("/");
            reveal_strlit("embeddings");
            reveal_strlit("/embeddings");
        }
        assert(u@ =~= without_trailing_slashes(self@.base_url) + "/embeddings"@ + query_suffix(self.query_keys(), self@.query_params));
        u
    }

    /// A provider message with the API key replaced by `[redacted-api-key]`.
    pub fn sanitize_provider_error(&self, message: &str) -> (s: String)
        ensures
            s@ == replace_all(message@, self@.api_key, "[redacted-api-key]"@),
    {
        let m = chars_of(message);
        let k = chars_of(self.api_key.as_str());
        let r = chars_of("[redacted-api-key]");
        let out = replace_chars(&m, &k, &r);
        string_of(&out)
    }

    /// The error for a failed HTTP call: the status and the response body, with the API key,
    /// every header value and every bearer token removed.
    pub fn provider_http_error(&self, status: u16, body: &str) -> (e: RagasError)
        ensures
            e matches RagasError::Provider { message } && message@ == http_error_message(self@, self.header_values(), status, body@),
    {
        let sanitized = self.sanitize_provider_error(body);
        let mut text = chars_of(sanitized.as_str());
        proof {
            use_type_invariant(&self.headers);
            self.headers.lemma_sorted_keys();
            lemma_sorted_key_list(self@.headers, self.headers.sorted_keys());
        }
        let ghost ks = self.headers.sorted_keys();
        let ghost vals = self.header_values();
        assert(vals == ks.map_values(|k: Seq<char>| metadata_view(self.headers@)[k]));
        let marker = chars_of("[redacted-header]");
        let n = self.headers.len();
        let mut i: usize = 0;
        assert(vals.take(0) =~= Seq::<Seq<char>>::empty());
        while i < n
            invariant
                n == ks.len(),
                ks == self.headers.sorted_keys(),
                vals == self.header_values(),
                vals == ks.map_values(|k: Seq<char>| metadata_view(self.headers@)[k]),
                vals.len() == n,
                forall|k: Seq<char>| self.headers@.contains_key(k) <==> ks.contains(k),
                marker@ == "[redacted-header]"@,
                i <= n,
                text@ == remove_all(replace_all(body@, self@.api_key, "[redacted-api-key]"@), vals.take(i as int)),
            decreases n - i,
        {
            let v = self.headers.value_at(i);
            assert(ks.contains(ks[i as int]));
            assert(self.headers@.contains_key(ks[i as int]));
            assert(vals[i as int] == v@);
            assert(vals.take(i + 1).drop_last() =~= vals.take(i as int));
            let vc = chars_of(v.as_str());
            text = replace_chars(&text, &vc, &marker);
            i = i + 1;
        }
        assert(vals.take(n as int) =~= vals);
        let redacted = redact_bearer_chars(&text);
        let mut message = String::new();
        push_str(&mut message, "HTTP ");
        crate::text::push_decimal(&mut message, status as usize);
        push_str(&mut message, ": ");
        let tail = string_of(&redacted);
        push_str(&mut message, tail.as_str());
        RagasError::Provider { message }
    }
}

} // verus!

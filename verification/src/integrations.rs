//! Integrations with tracing and observability services: the contract of each supported
//! integration family, payload redaction, export planning, an in-memory tracing sink, and the
//! feature gate that keeps external destinations off until enabled.
use vstd::prelude::*;

use crate::dataset::{metadata_view, opt_string_view};
use crate::error::RagasError;
use crate::runtime::{RuntimeEvent, RuntimeEventKind};
use crate::string_map::StringMap;
use crate::text::{
    chars_of, contains_chars, contains_seq, lower_seq, lowercase_chars, push_str, to_owned_string,
};

verus! {

/// Where integration events go.
#[derive(Debug, Clone, Copy, PartialEq, Eq, Structural, PartialOrd, Ord)]
pub enum IntegrationDestination {
    Tracing,
    LangSmith,
    Langfuse,
    Opik,
}

/// The frameworks and services the library integrates with.
#[derive(Debug, Clone, Copy, PartialEq, Eq, Structural, PartialOrd, Ord)]
pub enum IntegrationFamily {
    GenericTracing,
    LangChain,
    LangGraph,
    LangSmith,
    LlamaIndex,
    AgUi,
    Bedrock,
    Griptape,
    Helicone,
    Langfuse,
    Opik,
    R2R,
    Swarm,
}

/// The short lowercase name of a family.
pub open spec fn family_slug(f: IntegrationFamily) -> Seq<char> {
    match f {
        IntegrationFamily::GenericTracing => "tracing"@,
        IntegrationFamily::LangChain => "langchain"@,
        IntegrationFamily::LangGraph => "langgraph"@,
        IntegrationFamily::LangSmith => "langsmith"@,
        IntegrationFamily::LlamaIndex => "llamaindex"@,
        IntegrationFamily::AgUi => "ag-ui"@,
        IntegrationFamily::Bedrock => "bedrock"@,
        IntegrationFamily::Griptape => "griptape"@,
        IntegrationFamily::Helicone => "helicone"@,
        IntegrationFamily::Langfuse => "langfuse"@,
        IntegrationFamily::Opik => "opik"@,
        IntegrationFamily::R2R => "r2r"@,
        IntegrationFamily::Swarm => "swarm"@,
    }
}

/// The name of a family as `{:?}` prints it.
pub open spec fn family_name(f: IntegrationFamily) -> Seq<char> {
    match f {
        IntegrationFamily::GenericTracing => "GenericTracing"@,
        IntegrationFamily::LangChain => "LangChain"@,
        IntegrationFamily::LangGraph => "LangGraph"@,
        IntegrationFamily::LangSmith => "LangSmith"@,
        IntegrationFamily::LlamaIndex => "LlamaIndex"@,
        IntegrationFamily::AgUi => "AgUi"@,
        IntegrationFamily::Bedrock => "Bedrock"@,
        IntegrationFamily::Griptape => "Griptape"@,
        IntegrationFamily::Helicone => "Helicone"@,
        IntegrationFamily::Langfuse => "Langfuse"@,
        IntegrationFamily::Opik => "Opik"@,
        IntegrationFamily::R2R => "R2R"@,
        IntegrationFamily::Swarm => "Swarm"@,
    }
}

impl IntegrationFamily {
    pub fn slug(self) -> (s: &'static str)
        ensures
            s@ == family_slug(self),
    {
        match self {
            IntegrationFamily::GenericTracing => "tracing",
            IntegrationFamily::LangChain => "langchain",
            IntegrationFamily::LangGraph => "langgraph",
            IntegrationFamily::LangSmith => "langsmith",
            IntegrationFamily::LlamaIndex => "llamaindex",
            IntegrationFamily::AgUi => "ag-ui",
            IntegrationFamily::Bedrock => "bedrock",
            IntegrationFamily::Griptape => "griptape",
            IntegrationFamily::Helicone => "helicone",
            IntegrationFamily::Langfuse => "langfuse",
            IntegrationFamily::Opik => "opik",
            IntegrationFamily::R2R => "r2r",
            IntegrationFamily::Swarm => "swarm",
        }
    }

    pub fn debug_name(self) -> (s: &'static str)
        ensures
            s@ == family_name(self),
    {
        match self {
            IntegrationFamily::GenericTracing => "GenericTracing",
            IntegrationFamily::LangChain => "LangChain",
            IntegrationFamily::LangGraph => "LangGraph",
            IntegrationFamily::LangSmith => "LangSmith",
            IntegrationFamily::LlamaIndex => "LlamaIndex",
            IntegrationFamily::AgUi => "AgUi",
            IntegrationFamily::Bedrock => "Bedrock",
            IntegrationFamily::Griptape => "Griptape",
            IntegrationFamily::Helicone => "Helicone",
            IntegrationFamily::Langfuse => "Langfuse",
            IntegrationFamily::Opik => "Opik",
            IntegrationFamily::R2R => "R2R",
            IntegrationFamily::Swarm => "Swarm",
        }
    }
}

/// How an integration crosses the library boundary.
#[derive(Debug, Clone, Copy, PartialEq, Eq, Structural)]
pub enum IntegrationBoundaryMode {
    CallbackAdapter,
    DelegatedFramework,
    ObservabilityExporter,
    EndpointStream,
    CloudService,
}

/// The name of a boundary mode as `{:?}` prints it.
pub open spec fn boundary_name(m: IntegrationBoundaryMode) -> Seq<char> {
    match m {
        IntegrationBoundaryMode::CallbackAdapter => "CallbackAdapter"@,
        IntegrationBoundaryMode::DelegatedFramework => "DelegatedFramework"@,
        IntegrationBoundaryMode::ObservabilityExporter => "ObservabilityExporter"@,
        IntegrationBoundaryMode::EndpointStream => "EndpointStream"@,
        IntegrationBoundaryMode::CloudService => "CloudService"@,
    }
}

impl IntegrationBoundaryMode {
    pub fn debug_name(self) -> (s: &'static str)
        ensures
            s@ == boundary_name(self),
    {
        match self {
            IntegrationBoundaryMode::CallbackAdapter => "CallbackAdapter",
            IntegrationBoundaryMode::DelegatedFramework => "DelegatedFramework",
            IntegrationBoundaryMode::ObservabilityExporter => "ObservabilityExporter",
            IntegrationBoundaryMode::EndpointStream => "EndpointStream",
            IntegrationBoundaryMode::CloudService => "CloudService",
        }
    }
}

/// How an integration authenticates.
#[derive(Debug, Clone, Copy, PartialEq, Eq, Structural)]
pub enum IntegrationAuthMode {
    /// No authentication.
    NoAuth,
    EnvVars,
    BearerToken,
    AwsSigV4,
    DelegatedSdk,
}

/// The contract of one integration family.
#[derive(Debug, Clone, PartialEq, Eq)]
pub struct IntegrationContractDescriptor {
    pub family: IntegrationFamily,
    pub boundary_mode: IntegrationBoundaryMode,
    pub auth_mode: IntegrationAuthMode,
    pub auth_envs: Vec<&'static str>,
    pub target_operation: &'static str,
    pub lifecycle_fields: Vec<&'static str>,
    pub requires_vendor_sdk: bool,
}

/// The contents of a list of string slices.
pub open spec fn strs_view(v: Seq<&str>) -> Seq<Seq<char>> {
    v.map_values(|s: &str| s@)
}

/// The contents of an integration contract.
pub struct DescriptorView {
    pub family: IntegrationFamily,
    pub boundary_mode: IntegrationBoundaryMode,
    pub auth_mode: IntegrationAuthMode,
    pub auth_envs: Seq<Seq<char>>,
    pub target_operation: Seq<char>,
    pub lifecycle_fields: Seq<Seq<char>>,
    pub requires_vendor_sdk: bool,
}

impl View for IntegrationContractDescriptor {
    type V = DescriptorView;

    open spec fn view(&self) -> DescriptorView {
        DescriptorView {
            family: self.family,
            boundary_mode: self.boundary_mode,
            auth_mode: self.auth_mode,
            auth_envs: strs_view(self.auth_envs@),
            target_operation: self.target_operation@,
            lifecycle_fields: strs_view(self.lifecycle_fields@),
            requires_vendor_sdk: self.requires_vendor_sdk,
        }
    }
}

/// The lifecycle fields every integration carries.
pub open spec fn lifecycle_fields() -> Seq<Seq<char>> {
    seq!["event_kind"@, "run_id"@, "metric_name"@, "sample_index"@, "payload"@]
}

pub open spec fn contract(
    family: IntegrationFamily,
    boundary_mode: IntegrationBoundaryMode,
    auth_mode: IntegrationAuthMode,
    auth_envs: Seq<Seq<char>>,
    target_operation: Seq<char>,
) -> DescriptorView {
    DescriptorView {
        family,
        boundary_mode,
        auth_mode,
        auth_envs,
        target_operation,
        lifecycle_fields: lifecycle_fields(),
        requires_vendor_sdk: true,
    }
}

/// The contracts of the supported integration families, in order.
pub open spec fn contract_table() -> Seq<DescriptorView> {
    seq![
        contract(IntegrationFamily::LangChain, IntegrationBoundaryMode::DelegatedFramework, IntegrationAuthMode::DelegatedSdk, seq![], "EvaluatorChain.invoke"@),
        contract(IntegrationFamily::LangGraph, IntegrationBoundaryMode::DelegatedFramework, IntegrationAuthMode::DelegatedSdk, seq![], "LangGraph workflow adapter"@),
        contract(IntegrationFamily::LangSmith, IntegrationBoundaryMode::ObservabilityExporter, IntegrationAuthMode::BearerToken, seq!["LANGCHAIN_API_KEY"@, "LANGCHAIN_ENDPOINT"@], "Client.run_on_dataset"@),
        contract(IntegrationFamily::LlamaIndex, IntegrationBoundaryMode::DelegatedFramework, IntegrationAuthMode::DelegatedSdk, seq![], "LlamaIndex evaluator adapter"@),
        contract(IntegrationFamily::AgUi, IntegrationBoundaryMode::EndpointStream, IntegrationAuthMode::BearerToken, seq!["AG_UI_API_KEY"@], "call_ag_ui_endpoint stream events"@),
        contract(IntegrationFamily::Bedrock, IntegrationBoundaryMode::CloudService, IntegrationAuthMode::AwsSigV4, seq!["AWS_ACCESS_KEY_ID"@, "AWS_SECRET_ACCESS_KEY"@, "AWS_REGION"@], "Bedrock evaluation job"@),
        contract(IntegrationFamily::Griptape, IntegrationBoundaryMode::DelegatedFramework, IntegrationAuthMode::DelegatedSdk, seq![], "Griptape task adapter"@),
        contract(IntegrationFamily::Helicone, IntegrationBoundaryMode::ObservabilityExporter, IntegrationAuthMode::BearerToken, seq!["HELICONE_API_KEY"@], "Helicone trace export"@),
        contract(IntegrationFamily::Langfuse, IntegrationBoundaryMode::ObservabilityExporter, IntegrationAuthMode::EnvVars, seq!["LANGFUSE_PUBLIC_KEY"@, "LANGFUSE_SECRET_KEY"@, "LANGFUSE_HOST"@], "LangfuseTrace sync_trace"@),
        contract(IntegrationFamily::Opik, IntegrationBoundaryMode::ObservabilityExporter, IntegrationAuthMode::EnvVars, seq!["OPIK_API_KEY"@, "OPIK_WORKSPACE"@], "OpikTracer log feedback scores"@),
        contract(IntegrationFamily::R2R, IntegrationBoundaryMode::EndpointStream, IntegrationAuthMode::BearerToken, seq!["R2R_API_KEY"@, "R2R_BASE_URL"@], "R2R app endpoint"@),
        contract(IntegrationFamily::Swarm, IntegrationBoundaryMode::DelegatedFramework, IntegrationAuthMode::DelegatedSdk, seq![], "Swarm agent adapter"@),
    ]
}

fn strs2(a: &'static str, b: &'static str) -> (v: Vec<&'static str>)
    ensures
        strs_view(v@) == seq![a@, b@],
{
    let mut v: Vec<&'static str> = Vec::new();
    v.push(a);
    v.push(b);
    assert(strs_view(v@) =~= seq![a@, b@]);
    v
}

fn strs3(a: &'static str, b: &'static str, c: &'static str) -> (v: Vec<&'static str>)
    ensures
        strs_view(v@) == seq![a@, b@, c@],
{
    let mut v: Vec<&'static str> = Vec::new();
    v.push(a);
    v.push(b);
    v.push(c);
    assert(strs_view(v@) =~= seq![a@, b@, c@]);
    v
}

fn strs1(a: &'static str) -> (v: Vec<&'static str>)
    ensures
        strs_view(v@) == seq![a@],
{
    let mut v: Vec<&'static str> = Vec::new();
    v.push(a);
    assert(strs_view(v@) =~= seq![a@]);
    v
}

fn strs0() -> (v: Vec<&'static str>)
    ensures
        strs_view(v@) == Seq::<Seq<char>>::empty(),
{
    let v: Vec<&'static str> = Vec::new();
    assert(strs_view(v@) =~= Seq::<Seq<char>>::empty());
    v
}

fn integration_contract(
    family: IntegrationFamily,
    boundary_mode: IntegrationBoundaryMode,
    auth_mode: IntegrationAuthMode,
    auth_envs: Vec<&'static str>,
    target_operation: &'static str,
) -> (d: IntegrationContractDescriptor)
    ensures
        d@ == contract(family, boundary_mode, auth_mode, strs_view(auth_envs@), target_operation@),
{
    let mut lifecycle: Vec<&'static str> = Vec::new();
    lifecycle.push("event_kind");
    lifecycle.push("run_id");
    lifecycle.push("metric_name");
    lifecycle.push("sample_index");
    lifecycle.push("payload");
    assert(strs_view(lifecycle@) =~= lifecycle_fields());
    IntegrationContractDescriptor {
        family,
        boundary_mode,
        auth_mode,
        auth_envs,
        target_operation,
        lifecycle_fields: lifecycle,
        requires_vendor_sdk: true,
    }
}

/// The contracts of the supported integration families.
pub fn integration_contract_descriptors() -> (r: Vec<IntegrationContractDescriptor>)
    ensures
        r@.map_values(|d: IntegrationContractDescriptor| d@) == contract_table(),
{
    let mut r: Vec<IntegrationContractDescriptor> = Vec::new();
    r.push(integration_contract(IntegrationFamily::LangChain, IntegrationBoundaryMode::DelegatedFramework, IntegrationAuthMode::DelegatedSdk, strs0(), "EvaluatorChain.invoke"));
    r.push(integration_contract(IntegrationFamily::LangGraph, IntegrationBoundaryMode::DelegatedFramework, IntegrationAuthMode::DelegatedSdk, strs0(), "LangGraph workflow adapter"));
    r.push(integration_contract(IntegrationFamily::LangSmith, IntegrationBoundaryMode::ObservabilityExporter, IntegrationAuthMode::BearerToken, strs2("LANGCHAIN_API_KEY", "LANGCHAIN_ENDPOINT"), "Client.run_on_dataset"));
    r.push(integration_contract(IntegrationFamily::LlamaIndex, IntegrationBoundaryMode::DelegatedFramework, IntegrationAuthMode::DelegatedSdk, strs0(), "LlamaIndex evaluator adapter"));
    r.push(integration_contract(IntegrationFamily::AgUi, IntegrationBoundaryMode::EndpointStream, IntegrationAuthMode::BearerToken, strs1("AG_UI_API_KEY"), "call_ag_ui_endpoint stream events"));
    r.push(integration_contract(IntegrationFamily::Bedrock, IntegrationBoundaryMode::CloudService, IntegrationAuthMode::AwsSigV4, strs3("AWS_ACCESS_KEY_ID", "AWS_SECRET_ACCESS_KEY", "AWS_REGION"), "Bedrock evaluation job"));
    r.push(integration_contract(IntegrationFamily::Griptape, IntegrationBoundaryMode::DelegatedFramework, IntegrationAuthMode::DelegatedSdk, strs0(), "Griptape task adapter"));
    r.push(integration_contract(IntegrationFamily::Helicone, IntegrationBoundaryMode::ObservabilityExporter, IntegrationAuthMode::BearerToken, strs1("HELICONE_API_KEY"), "Helicone trace export"));
    r.push(integration_contract(IntegrationFamily::Langfuse, IntegrationBoundaryMode::ObservabilityExporter, IntegrationAuthMode::EnvVars, strs3("LANGFUSE_PUBLIC_KEY", "LANGFUSE_SECRET_KEY", "LANGFUSE_HOST"), "LangfuseTrace sync_trace"));
    r.push(integration_contract(IntegrationFamily::Opik, IntegrationBoundaryMode::ObservabilityExporter, IntegrationAuthMode::EnvVars, strs2("OPIK_API_KEY", "OPIK_WORKSPACE"), "OpikTracer log feedback scores"));
    r.push(integration_contract(IntegrationFamily::R2R, IntegrationBoundaryMode::EndpointStream, IntegrationAuthMode::BearerToken, strs2("R2R_API_KEY", "R2R_BASE_URL"), "R2R app endpoint"));
    r.push(integration_contract(IntegrationFamily::Swarm, IntegrationBoundaryMode::DelegatedFramework, IntegrationAuthMode::DelegatedSdk, strs0(), "Swarm agent adapter"));
    assert(r@.map_values(|d: IntegrationContractDescriptor| d@) =~= contract_table());
    r
}

/// The fields of an integration payload, by key.
#[derive(Debug, PartialEq, Eq)]
pub struct IntegrationPayload {
    pub fields: StringMap<String>,
}

impl View for IntegrationPayload {
    type V = Map<Seq<char>, Seq<char>>;

    open spec fn view(&self) -> Map<Seq<char>, Seq<char>> {
        metadata_view(self.fields@)
    }
}

impl IntegrationPayload {
    /// An empty payload.
    pub fn new() -> (p: Self)
        ensures
            p@ == Map::<Seq<char>, Seq<char>>::empty(),
    {
        let p = IntegrationPayload { fields: StringMap::new() };
        assert(p@ =~= Map::<Seq<char>, Seq<char>>::empty());
        p
    }

    /// This payload with `key` set to `value`.
    pub fn with(self, key: &str, value: &str) -> (p: Self)
        ensures
            p@ == self@.insert(key@, value@),
    {
        let mut p = self;
        p.fields.insert(to_owned_string(key), to_owned_string(value));
        assert(p@ =~= self@.insert(key@, value@));
        p
    }
}

impl Clone for IntegrationPayload {
    fn clone(&self) -> (out: Self)
        ensures
            out@ == self@,
    {
        let fields = self.fields.clone();
        proof {
            crate::string_map::lemma_cloned_strings(self.fields@, fields@);
        }
        IntegrationPayload { fields }
    }
}

/// Whether a payload key names a credential: its ASCII-lowercased form contains
/// `authorization`, `api_key`, `token` or `secret`.
pub open spec fn is_sensitive(key: Seq<char>) -> bool {
    let k = lower_seq(key);
    contains_seq(k, "authorization"@) || contains_seq(k, "api_key"@) || contains_seq(k, "token"@)
        || contains_seq(k, "secret"@)
}

/// What redaction puts in place of a credential.
pub open spec fn redacted_marker() -> Seq<char> {
    "[REDACTED]"@
}

/// The redacted fields: same keys, credentials replaced by the marker.
pub open spec fn redacted(fields: Map<Seq<char>, Seq<char>>) -> Map<Seq<char>, Seq<char>> {
    Map::new(
        |k: Seq<char>| fields.contains_key(k),
        |k: Seq<char>| if is_sensitive(k) {
            redacted_marker()
        } else {
            fields[k]
        },
    )
}

/// Whether a key names a credential.
pub fn is_sensitive_key(key: &str) -> (b: bool)
    ensures
        b == is_sensitive(key@),
{
    let k = lowercase_chars(&chars_of(key));
    contains_chars(&k, &chars_of("authorization")) || contains_chars(&k, &chars_of("api_key"))
        || contains_chars(&k, &chars_of("token")) || contains_chars(&k, &chars_of("secret"))
}

/// The payload with every credential replaced by `[REDACTED]`.
pub fn redact_payload(payload: &IntegrationPayload) -> (out: IntegrationPayload)
    ensures
        out@ == redacted(payload@),
{
    let m = &payload.fields;
    proof {
        use_type_invariant(m);
        m.lemma_sorted_keys();
    }
    let ghost keys = m.sorted_keys();
    let ghost src = payload@;
    let mut out = IntegrationPayload::new();
    let n = m.len();
    let mut i: usize = 0;
    while i < n
        invariant
            n == keys.len(),
            keys == m.sorted_keys(),
            src == metadata_view(m@),
            forall|k: Seq<char>| m@.contains_key(k) <==> keys.contains(k),
            i <= n,
            out@ == Map::new(
                |k: Seq<char>| keys.take(i as int).contains(k),
                |k: Seq<char>| if is_sensitive(k) {
                    redacted_marker()
                } else {
                    src[k]
                },
            ),
        decreases n - i,
    {
        let key = m.key_at(i);
        let value = m.value_at(i);
        let ghost before = out@;
        let v = if is_sensitive_key(key.as_str()) {
            to_owned_string("[REDACTED]")
        } else {
            value.clone()
        };
        out.fields.insert(key.clone(), v);
        proof {
            assert(keys[i as int] == key@);
            assert(keys.contains(key@));
            assert(m@.contains_key(key@));
            assert(src[key@] == value@);
            assert(v@ == if is_sensitive(key@) { redacted_marker() } else { src[key@] });
            assert(out@ =~= before.insert(key@, v@));
            assert forall|k: Seq<char>| #[trigger] keys.take(i + 1).contains(k) <==> (keys.take(i as int).contains(k) || k == key@) by {
                let t = keys.take(i as int);
                assert(keys.take(i + 1) =~= t.push(key@));
                if t.push(key@).contains(k) {
                    let a = choose|a: int| 0 <= a < t.len() + 1 && #[trigger] t.push(key@)[a] == k;
                    if a < t.len() {
                        assert(t[a] == k);
                    }
                }
                if t.contains(k) {
                    let a = choose|a: int| 0 <= a < t.len() && #[trigger] t[a] == k;
                    assert(t.push(key@)[a] == k);
                }
                if k == key@ {
                    assert(t.push(key@)[t.len() as int] == k);
                }
            }
            assert(out@ =~= Map::new(
                |k: Seq<char>| keys.take(i + 1).contains(k),
                |k: Seq<char>| if is_sensitive(k) {
                    redacted_marker()
                } else {
                    src[k]
                },
            ));
        }
        i = i + 1;
    }
    assert(keys.take(n as int) =~= keys);
    assert(out@ =~= redacted(src));
    out
}

/// An event as an integration receives it.
#[derive(Debug, PartialEq, Eq)]
pub struct IntegrationEvent {
    pub destination: IntegrationDestination,
    pub kind: RuntimeEventKind,
    pub run_id: String,
    pub metric_name: Option<String>,
    pub sample_index: Option<usize>,
    pub payload: IntegrationPayload,
}

/// The contents of an integration event.
pub struct IntegrationEventView {
    pub destination: IntegrationDestination,
    pub kind: RuntimeEventKind,
    pub run_id: Seq<char>,
    pub metric_name: Option<Seq<char>>,
    pub sample_index: Option<usize>,
    pub payload: Map<Seq<char>, Seq<char>>,
}

impl View for IntegrationEvent {
    type V = IntegrationEventView;

    open spec fn view(&self) -> IntegrationEventView {
        IntegrationEventView {
            destination: self.destination,
            kind: self.kind,
            run_id: self.run_id@,
            metric_name: opt_string_view(self.metric_name),
            sample_index: self.sample_index,
            payload: self.payload@,
        }
    }
}

impl Clone for IntegrationEvent {
    fn clone(&self) -> (out: Self)
        ensures
            out@ == self@,
    {
        IntegrationEvent {
            destination: self.destination,
            kind: self.kind,
            run_id: self.run_id.clone(),
            metric_name: match &self.metric_name {
                Some(m) => Some(m.clone()),
                None => None,
            },
            sample_index: self.sample_index,
            payload: self.payload.clone(),
        }
    }
}

/// The event that `destination` receives for a runtime event with a payload: the lifecycle
/// fields of the runtime event and the redacted payload.
pub open spec fn normalized_event(
    destination: IntegrationDestination,
    event: RuntimeEvent,
    payload: Map<Seq<char>, Seq<char>>,
) -> IntegrationEventView {
    IntegrationEventView {
        destination,
        kind: event.kind,
        run_id: event.run_id@,
        metric_name: opt_string_view(event.metric_name),
        sample_index: event.sample_index,
        payload: redacted(payload),
    }
}

/// Turns a runtime event and its payload into the event an integration receives, redacting
/// credentials.
pub fn normalize_callback_payload(
    destination: IntegrationDestination,
    event: &RuntimeEvent,
    payload: IntegrationPayload,
) -> (out: IntegrationEvent)
    ensures
        out@ == normalized_event(destination, *event, payload@),
{
    let e = event.clone();
    IntegrationEvent {
        destination,
        kind: e.kind,
        run_id: e.run_id,
        metric_name: e.metric_name,
        sample_index: e.sample_index,
        payload: redact_payload(&payload),
    }
}

/// A tracing sink for one destination that keeps the events it receives, in order.
#[derive(Debug)]
pub struct TracingIntegration {
    destination: IntegrationDestination,
    events: Vec<IntegrationEvent>,
}

impl TracingIntegration {
    pub closed spec fn destination_of(&self) -> IntegrationDestination {
        self.destination
    }

    /// The events received so far.
    pub closed spec fn events_view(&self) -> Seq<IntegrationEventView> {
        self.events@.map_values(|e: IntegrationEvent| e@)
    }

    pub fn new(destination: IntegrationDestination) -> (t: Self)
        ensures
            t.destination_of() == destination,
            t.events_view() == Seq::<IntegrationEventView>::empty(),
    {
        let t = TracingIntegration { destination, events: Vec::new() };
        assert(t.events_view() =~= Seq::<IntegrationEventView>::empty());
        t
    }

    /// Receives a runtime event (what the integration's callback does), with an empty payload.
    pub fn record(&mut self, event: &RuntimeEvent)
        ensures
            final(self).destination_of() == old(self).destination_of(),
            final(self).events_view() == old(self).events_view().push(
                normalized_event(old(self).destination_of(), *event, Map::empty()),
            ),
    {
        let e = normalize_callback_payload(self.destination, event, IntegrationPayload::new());
        let ghost before = self.events_view();
        self.events.push(e);
        assert(self.events_view() =~= before.push(e@));
    }

    /// Exports a payload for a run, redacting credentials.
    pub fn export_payload(&mut self, kind: RuntimeEventKind, run_id: &str, payload: IntegrationPayload)
        ensures
            final(self).destination_of() == old(self).destination_of(),
            final(self).events_view() == old(self).events_view().push(
                IntegrationEventView {
                    destination: old(self).destination_of(),
                    kind,
                    run_id: run_id@,
                    metric_name: None,
                    sample_index: None,
                    payload: redacted(payload@),
                },
            ),
    {
        let e = IntegrationEvent {
            destination: self.destination,
            kind,
            run_id: to_owned_string(run_id),
            metric_name: None,
            sample_index: None,
            payload: redact_payload(&payload),
        };
        let ghost before = self.events_view();
        self.events.push(e);
        assert(self.events_view() =~= before.push(e@));
    }

    /// Copies of the events received so far, in order.
    pub fn exported_events(&self) -> (r: Vec<IntegrationEvent>)
        ensures
            r@.map_values(|e: IntegrationEvent| e@) == self.events_view(),
    {
        let mut r: Vec<IntegrationEvent> = Vec::new();
        let mut i: usize = 0;
        while i < self.events.len()
            invariant
                i <= self.events@.len(),
                r@.map_values(|e: IntegrationEvent| e@) == self.events_view().take(i as int),
            decreases self.events@.len() - i,
        {
            let ghost before = r@.map_values(|e: IntegrationEvent| e@);
            let e = self.events[i].clone();
            r.push(e);
            assert(r@.map_values(|e: IntegrationEvent| e@) =~= before.push(e@));
            assert(self.events_view().take(i + 1) =~= self.events_view().take(i as int).push(self.events@[i as int]@));
            i = i + 1;
        }
        assert(self.events_view().take(self.events@.len() as int) =~= self.events_view());
        r
    }
}

/// The name of a destination as `{:?}` prints it.
pub open spec fn destination_name(d: IntegrationDestination) -> Seq<char> {
    match d {
        IntegrationDestination::Tracing => "Tracing"@,
        IntegrationDestination::LangSmith => "LangSmith"@,
        IntegrationDestination::Langfuse => "Langfuse"@,
        IntegrationDestination::Opik => "Opik"@,
    }
}

impl IntegrationDestination {
    pub fn debug_name(self) -> (s: &'static str)
        ensures
            s@ == destination_name(self),
    {
        match self {
            IntegrationDestination::Tracing => "Tracing",
            IntegrationDestination::LangSmith => "LangSmith",
            IntegrationDestination::Langfuse => "Langfuse",
            IntegrationDestination::Opik => "Opik",
        }
    }
}

/// Which integration destinations are switched on. Only tracing is on by default.
#[derive(Debug, Clone)]
pub struct IntegrationFeatureRegistry {
    enabled: Vec<IntegrationDestination>,
}

/// The message of the error for a destination that is switched off.
pub open spec fn feature_gated_message(d: IntegrationDestination) -> Seq<char> {
    destination_name(d) + " integration is feature-gated"@
}

impl IntegrationFeatureRegistry {
    /// The destinations switched on, in the order they were switched on.
    pub closed spec fn enabled_view(&self) -> Seq<IntegrationDestination> {
        self.enabled@
    }

    pub fn new() -> (r: Self)
        ensures
            r.enabled_view() == seq![IntegrationDestination::Tracing],
    {
        let mut enabled: Vec<IntegrationDestination> = Vec::new();
        enabled.push(IntegrationDestination::Tracing);
        let r = IntegrationFeatureRegistry { enabled };
        assert(r.enabled_view() =~= seq![IntegrationDestination::Tracing]);
        r
    }

    /// This registry with `destination` switched on.
    pub fn with_enabled(self, destination: IntegrationDestination) -> (r: Self)
        ensures
            r.enabled_view() == if self.enabled_view().contains(destination) {
                self.enabled_view()
            } else {
                self.enabled_view().push(destination)
            },
    {
        let mut r = self;
        if !r.is_enabled(destination) {
            r.enabled.push(destination);
        }
        r
    }

    pub fn is_enabled(&self, destination: IntegrationDestination) -> (b: bool)
        ensures
            b == self.enabled_view().contains(destination),
    {
        let mut i: usize = 0;
        while i < self.enabled.len()
            invariant
                i <= self.enabled@.len(),
                forall|j: int| 0 <= j < i ==> self.enabled@[j] != destination,
            decreases self.enabled@.len() - i,
        {
            if self.enabled[i] == destination {
                assert(self.enabled@[i as int] == destination);
                return true;
            }
            i = i + 1;
        }
        false
    }

    /// Succeeds when `destination` is switched on.
    pub fn require_enabled(&self, destination: IntegrationDestination) -> (r: Result<(), RagasError>)
        ensures
            match r {
                Ok(()) => self.enabled_view().contains(destination),
                Err(e) => !self.enabled_view().contains(destination) && (e matches RagasError::DatasetIo { message }
                    && message@ == feature_gated_message(destination)),
            },
    {
        if self.is_enabled(destination) {
            Ok(())
        } else {
            let mut message = String::new();
            push_str(&mut message, destination.debug_name());
            push_str(&mut message, " integration is feature-gated");
            Err(RagasError::DatasetIo { message })
        }
    }
}

impl Default for IntegrationFeatureRegistry {
    fn default() -> (r: Self)
        ensures
            r.enabled_view() == seq![IntegrationDestination::Tracing],
    {
        Self::new()
    }
}

/// Items joined by commas.
pub open spec fn join_commas(xs: Seq<Seq<char>>) -> Seq<char>
    decreases xs.len(),
{
    if xs.len() == 0 {
        Seq::empty()
    } else if xs.len() == 1 {
        xs[0]
    } else {
        join_commas(xs.drop_last()) + ","@ + xs.last()
    }
}

fn join_strs(xs: &Vec<&'static str>) -> (out: String)
    ensures
        out@ == join_commas(strs_view(xs@)),
{
    let ghost v = strs_view(xs@);
    let mut out = String::new();
    let mut i: usize = 0;
    proof {
        reveal_strlit(",");
    }
    while i < xs.len()
        invariant
            v == strs_view(xs@),
            i <= xs@.len(),
            out@ == join_commas(v.take(i as int)),
        decreases xs@.len() - i,
    {
        assert(v.take(i + 1).drop_last() =~= v.take(i as int));
        assert(v.take(i + 1).last() == xs@[i as int]@);
        if i > 0 {
            push_str(&mut out, ",");
        } else {
            assert(out@ =~= Seq::<char>::empty());
        }
        push_str(&mut out, xs[i]);
        i = i + 1;
    }
    assert(v.take(xs@.len() as int) =~= v);
    out
}

/// The headers of an export for a contract: the authentication it announces, with every
/// secret redacted.
pub open spec fn export_headers(d: DescriptorView) -> Map<Seq<char>, Seq<char>> {
    match d.auth_mode {
        IntegrationAuthMode::NoAuth => Map::empty(),
        IntegrationAuthMode::EnvVars => Map::empty().insert("x-ragas-auth-envs"@, join_commas(d.auth_envs)),
        IntegrationAuthMode::BearerToken => Map::empty().insert("Authorization"@, "Bearer <redacted>"@),
        IntegrationAuthMode::AwsSigV4 => Map::empty().insert("Authorization"@, "AWS4-HMAC-SHA256 <redacted>"@),
        IntegrationAuthMode::DelegatedSdk => Map::empty().insert("x-ragas-integration-boundary"@, "delegated-sdk"@),
    }
}

fn integration_export_headers(d: &IntegrationContractDescriptor) -> (out: StringMap<String>)
    ensures
        metadata_view(out@) == export_headers(d@),
{
    let mut h: StringMap<String> = StringMap::new();
    match d.auth_mode {
        IntegrationAuthMode::NoAuth => {},
        IntegrationAuthMode::EnvVars => {
            h.insert(to_owned_string("x-ragas-auth-envs"), join_strs(&d.auth_envs));
        },
        IntegrationAuthMode::BearerToken => {
            h.insert(to_owned_string("Authorization"), to_owned_string("Bearer <redacted>"));
        },
        IntegrationAuthMode::AwsSigV4 => {
            h.insert(to_owned_string("Authorization"), to_owned_string("AWS4-HMAC-SHA256 <redacted>"));
        },
        IntegrationAuthMode::DelegatedSdk => {
            h.insert(to_owned_string("x-ragas-integration-boundary"), to_owned_string("delegated-sdk"));
        },
    }
    assert(metadata_view(h@) =~= export_headers(d@));
    h
}

/// The destination that events of a family go to.
pub open spec fn destination_for(f: IntegrationFamily) -> IntegrationDestination {
    match f {
        IntegrationFamily::LangSmith => IntegrationDestination::LangSmith,
        IntegrationFamily::Langfuse => IntegrationDestination::Langfuse,
        IntegrationFamily::Opik => IntegrationDestination::Opik,
        _ => IntegrationDestination::Tracing,
    }
}

pub fn integration_destination_for_family(f: IntegrationFamily) -> (d: IntegrationDestination)
    ensures
        d == destination_for(f),
{
    match f {
        IntegrationFamily::LangSmith => IntegrationDestination::LangSmith,
        IntegrationFamily::Langfuse => IntegrationDestination::Langfuse,
        IntegrationFamily::Opik => IntegrationDestination::Opik,
        _ => IntegrationDestination::Tracing,
    }
}

/// The first contract of the table for family `f`.
pub open spec fn find_contract(table: Seq<DescriptorView>, f: IntegrationFamily) -> Option<DescriptorView>
    decreases table.len(),
{
    if table.len() == 0 {
        None
    } else if table[0].family == f {
        Some(table[0])
    } else {
        find_contract(table.drop_first(), f)
    }
}

/// What to export for an integration event.
#[derive(Debug, PartialEq, Eq)]
pub struct IntegrationExportInput {
    pub event: RuntimeEvent,
    pub payload: IntegrationPayload,
    pub api_token: Option<String>,
}

impl IntegrationExportInput {
    pub fn new(event: RuntimeEvent, payload: IntegrationPayload) -> (i: Self)
        ensures
            i.event == event,
            i.payload == payload,
            i.api_token is None,
    {
        IntegrationExportInput { event, payload, api_token: None }
    }

    pub fn with_api_token(self, api_token: &str) -> (i: Self)
        ensures
            i.event == self.event,
            i.payload == self.payload,
            i.api_token matches Some(t) && t@ == api_token@,
    {
        IntegrationExportInput { event: self.event, payload: self.payload, api_token: Some(to_owned_string(api_token)) }
    }
}

impl Clone for IntegrationExportInput {
    fn clone(&self) -> (out: Self)
        ensures
            out.event.kind == self.event.kind,
            out.payload@ == self.payload@,
    {
        IntegrationExportInput {
            event: self.event.clone(),
            payload: self.payload.clone(),
            api_token: match &self.api_token {
                Some(t) => Some(t.clone()),
                None => None,
            },
        }
    }
}

/// The plan of an export: the contract's boundary and target, the redacted headers, the
/// normalized event and a debug line without secrets.
#[derive(Debug)]
pub struct IntegrationExportPlan {
    pub family: IntegrationFamily,
    pub boundary_mode: IntegrationBoundaryMode,
    pub target_operation: String,
    pub headers: StringMap<String>,
    pub event: IntegrationEvent,
    pub safe_debug: String,
}

/// The debug line of an export plan.
pub open spec fn safe_debug_line(f: IntegrationFamily, d: DescriptorView) -> Seq<char> {
    "integration="@ + family_slug(f) + " boundary="@ + boundary_name(d.boundary_mode) + " target="@
        + d.target_operation
}

/// The message of the error for a family without a contract.
pub open spec fn missing_contract_message(f: IntegrationFamily) -> Seq<char> {
    "missing integration contract descriptor for "@ + family_name(f)
}

/// Plans the export of an event to an integration family, from the family's contract. The API
/// token of the input is never part of the plan.
pub fn plan_integration_export(family: IntegrationFamily, input: IntegrationExportInput) -> (r: Result<IntegrationExportPlan, RagasError>)
    ensures
        match r {
            Ok(p) => find_contract(contract_table(), family) matches Some(d) && p.family == family
                && p.boundary_mode == d.boundary_mode && p.target_operation@ == d.target_operation
                && metadata_view(p.headers@) == export_headers(d)
                && p.event@ == normalized_event(destination_for(family), input.event, input.payload@)
                && p.safe_debug@ == safe_debug_line(family, d),
            Err(e) => find_contract(contract_table(), family) is None && (e matches RagasError::DatasetIo { message }
                && message@ == missing_contract_message(family)),
        },
{
    let table = integration_contract_descriptors();
    let ghost tv = table@.map_values(|d: IntegrationContractDescriptor| d@);
    let mut i: usize = 0;
    assert(tv.skip(0) =~= tv);
    while i < table.len()
        invariant
            tv == table@.map_values(|d: IntegrationContractDescriptor| d@),
            tv == contract_table(),
            i <= table@.len(),
            find_contract(tv, family) == find_contract(tv.skip(i as int), family),
        decreases table@.len() - i,
    {
        assert(tv.skip(i as int).drop_first() =~= tv.skip(i + 1));
        assert(tv.skip(i as int)[0] == table@[i as int]@);
        if table[i].family == family {
            let d = &table[i];
            let headers = integration_export_headers(d);
            let event = normalize_callback_payload(integration_destination_for_family(family), &input.event, input.payload);
            let mut safe_debug = String::new();
            push_str(&mut safe_debug, "integration=");
            push_str(&mut safe_debug, family.slug());
            push_str(&mut safe_debug, " boundary=");
            push_str(&mut safe_debug, d.boundary_mode.debug_name());
            push_str(&mut safe_debug, " target=");
            push_str(&mut safe_debug, d.target_operation);
            return Ok(IntegrationExportPlan {
                family,
                boundary_mode: d.boundary_mode,
                target_operation: to_owned_string(d.target_operation),
                headers,
                event,
                safe_debug,
            });
        }
        i = i + 1;
    }
    assert(tv.skip(i as int).len() == 0);
    let mut message = String::new();
    push_str(&mut message, "missing integration contract descriptor for ");
    push_str(&mut message, family.debug_name());
    Err(RagasError::DatasetIo { message })
}

} // verus!

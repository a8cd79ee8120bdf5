//! Evaluation samples (single-turn and multi-turn conversations) and the datasets built from
//! them, with the validation rules that every dataset enforces.
use vstd::prelude::*;

use crate::error::RagasError;
use crate::string_map::StringMap;
use crate::text::{is_blank, to_owned_string, trim};

verus! {

/// Who sent a conversation message.
#[derive(Debug, Clone, Copy, PartialEq, Eq, Structural)]
pub enum MessageRole {
    User,
    Assistant,
    Tool,
    System,
}

/// A tool call issued by the assistant: its id, the tool's name and its arguments as JSON text.
#[derive(Debug, PartialEq, Eq)]
pub struct ToolCall {
    pub id: String,
    pub name: String,
    pub arguments: String,
}

impl ToolCall {
    pub fn new(id: &str, name: &str, arguments: &str) -> (c: Self)
        ensures
            c.id@ == id@,
            c.name@ == name@,
            c.arguments@ == arguments@,
    {
        ToolCall {
            id: to_owned_string(id),
            name: to_owned_string(name),
            arguments: to_owned_string(arguments),
        }
    }
}

/// One message of a conversation.
#[derive(Debug, PartialEq, Eq)]
pub struct Message {
    pub role: MessageRole,
    pub content: String,
    pub tool_calls: Vec<ToolCall>,
    pub tool_call_id: Option<String>,
}

impl Message {
    fn with_role(role: MessageRole, content: &str) -> (m: Self)
        ensures
            m.role == role,
            m.content@ == content@,
            m.tool_calls@.len() == 0,
            m.tool_call_id is None,
    {
        Message { role, content: to_owned_string(content), tool_calls: Vec::new(), tool_call_id: None }
    }

    /// A message from the user.
    pub fn user(content: &str) -> (m: Self)
        ensures
            m.role == MessageRole::User,
            m.content@ == content@,
            m.tool_calls@.len() == 0,
            m.tool_call_id is None,
    {
        Self::with_role(MessageRole::User, content)
    }

    /// A message from the assistant.
    pub fn assistant(content: &str) -> (m: Self)
        ensures
            m.role == MessageRole::Assistant,
            m.content@ == content@,
            m.tool_calls@.len() == 0,
            m.tool_call_id is None,
    {
        Self::with_role(MessageRole::Assistant, content)
    }

    /// A system instruction.
    pub fn system(content: &str) -> (m: Self)
        ensures
            m.role == MessageRole::System,
            m.content@ == content@,
            m.tool_calls@.len() == 0,
            m.tool_call_id is None,
    {
        Self::with_role(MessageRole::System, content)
    }

    /// The output of the tool call `tool_call_id`.
    pub fn tool(tool_call_id: &str, content: &str) -> (m: Self)
        ensures
            m.role == MessageRole::Tool,
            m.content@ == content@,
            m.tool_calls@.len() == 0,
            m.tool_call_id matches Some(id) && id@ == tool_call_id@,
    {
        let mut m = Self::with_role(MessageRole::Tool, content);
        m.tool_call_id = Some(to_owned_string(tool_call_id));
        m
    }

    /// This message with one more tool call appended.
    pub fn with_tool_call(self, call: ToolCall) -> (m: Self)
        ensures
            m.role == self.role,
            m.content == self.content,
            m.tool_call_id == self.tool_call_id,
            m.tool_calls@ == self.tool_calls@.push(call),
    {
        let mut m = self;
        m.tool_calls.push(call);
        m
    }
}

/// A multi-turn conversation to evaluate.
#[derive(Debug, PartialEq, Eq)]
pub struct MultiTurnSample {
    pub messages: Vec<Message>,
    pub reference: Option<String>,
    pub reference_tool_calls: Vec<ToolCall>,
    pub reference_topics: Vec<String>,
    pub metadata: StringMap<String>,
}

impl MultiTurnSample {
    pub fn new(messages: Vec<Message>) -> (s: Self)
        ensures
            s.messages@ == messages@,
            s.reference is None,
            s.reference_tool_calls@.len() == 0,
            s.reference_topics@.len() == 0,
            s.metadata@ == Map::<Seq<char>, String>::empty(),
    {
        MultiTurnSample {
            messages,
            reference: None,
            reference_tool_calls: Vec::new(),
            reference_topics: Vec::new(),
            metadata: StringMap::new(),
        }
    }

    pub fn with_reference(self, reference: &str) -> (s: Self)
        ensures
            s.messages == self.messages,
            s.reference matches Some(r) && r@ == reference@,
            s.reference_tool_calls == self.reference_tool_calls,
            s.reference_topics == self.reference_topics,
            s.metadata == self.metadata,
    {
        let mut s = self;
        s.reference = Some(to_owned_string(reference));
        s
    }

    pub fn with_reference_tool_calls(self, calls: Vec<ToolCall>) -> (s: Self)
        ensures
            s.messages == self.messages,
            s.reference == self.reference,
            s.reference_tool_calls == calls,
            s.reference_topics == self.reference_topics,
            s.metadata == self.metadata,
    {
        let mut s = self;
        s.reference_tool_calls = calls;
        s
    }

    pub fn with_reference_topics(self, topics: Vec<String>) -> (s: Self)
        ensures
            s.messages == self.messages,
            s.reference == self.reference,
            s.reference_tool_calls == self.reference_tool_calls,
            s.reference_topics == topics,
            s.metadata == self.metadata,
    {
        let mut s = self;
        s.reference_topics = topics;
        s
    }

    pub fn with_metadata(self, key: &str, value: &str) -> (s: Self)
        ensures
            s.messages == self.messages,
            s.reference == self.reference,
            s.reference_tool_calls == self.reference_tool_calls,
            s.reference_topics == self.reference_topics,
            exists|v: String| v@ == value@ && s.metadata@ == self.metadata@.insert(key@, v),
    {
        let mut s = self;
        let v = to_owned_string(value);
        s.metadata.insert(to_owned_string(key), v);
        s
    }
}

/// A single question/answer interaction to evaluate.
#[derive(Debug, PartialEq, Eq)]
pub struct SingleTurnSample {
    pub user_input: String,
    pub response: String,
    pub retrieved_contexts: Vec<String>,
    pub reference: Option<String>,
    /// Ground-truth contexts, used by the context metrics that compare against references.
    pub reference_contexts: Vec<String>,
    /// Identifiers of the retrieved contexts.
    pub retrieved_context_ids: Vec<String>,
    /// Identifiers of the reference contexts.
    pub reference_context_ids: Vec<String>,
    pub metadata: StringMap<String>,
}

impl SingleTurnSample {
    pub fn new(user_input: &str, response: &str, retrieved_contexts: Vec<String>) -> (s: Self)
        ensures
            s.user_input@ == user_input@,
            s.response@ == response@,
            s.retrieved_contexts == retrieved_contexts,
            s.reference is None,
            s.reference_contexts@.len() == 0,
            s.retrieved_context_ids@.len() == 0,
            s.reference_context_ids@.len() == 0,
            s.metadata@ == Map::<Seq<char>, String>::empty(),
    {
        SingleTurnSample {
            user_input: to_owned_string(user_input),
            response: to_owned_string(response),
            retrieved_contexts,
            reference: None,
            reference_contexts: Vec::new(),
            retrieved_context_ids: Vec::new(),
            reference_context_ids: Vec::new(),
            metadata: StringMap::new(),
        }
    }

    pub fn with_reference(self, reference: &str) -> (s: Self)
        ensures
            s == (SingleTurnSample { reference: s.reference, ..self }),
            s.reference matches Some(r) && r@ == reference@,
    {
        let mut s = self;
        s.reference = Some(to_owned_string(reference));
        s
    }

    pub fn with_reference_contexts(self, reference_contexts: Vec<String>) -> (s: Self)
        ensures
            s == (SingleTurnSample { reference_contexts, ..self }),
    {
        let mut s = self;
        s.reference_contexts = reference_contexts;
        s
    }

    pub fn with_context_ids(
        self,
        retrieved_context_ids: Vec<String>,
        reference_context_ids: Vec<String>,
    ) -> (s: Self)
        ensures
            s == (SingleTurnSample { retrieved_context_ids, reference_context_ids, ..self }),
    {
        let mut s = self;
        s.retrieved_context_ids = retrieved_context_ids;
        s.reference_context_ids = reference_context_ids;
        s
    }

    pub fn with_metadata(self, key: &str, value: &str) -> (s: Self)
        ensures
            s == (SingleTurnSample { metadata: s.metadata, ..self }),
            exists|v: String| v@ == value@ && s.metadata@ == self.metadata@.insert(key@, v),
    {
        let mut s = self;
        let v = to_owned_string(value);
        s.metadata.insert(to_owned_string(key), v);
        s
    }
}

/// A sample of either kind.
#[derive(Debug, PartialEq, Eq)]
pub enum EvaluationSample {
    SingleTurn(SingleTurnSample),
    MultiTurn(MultiTurnSample),
}

/// The field that makes a single-turn sample invalid, checked in this order: a blank
/// `user_input`, a blank `response`, or retrieved contexts that are all blank (or absent).
pub open spec fn sample_problem(s: SingleTurnSample) -> Option<Seq<char>> {
    if trim(s.user_input@).len() == 0 {
        Some("user_input"@)
    } else if trim(s.response@).len() == 0 {
        Some("response"@)
    } else if forall|i: int|
        0 <= i < s.retrieved_contexts@.len() ==> trim(#[trigger] s.retrieved_contexts@[i]@).len()
            == 0 {
        Some("retrieved_contexts"@)
    } else {
        None
    }
}

/// The field that makes a sample invalid: the single-turn rules, or an empty conversation.
pub open spec fn evaluation_sample_problem(s: EvaluationSample) -> Option<Seq<char>> {
    match s {
        EvaluationSample::SingleTurn(x) => sample_problem(x),
        EvaluationSample::MultiTurn(m) => if m.messages@.len() == 0 {
            Some("messages"@)
        } else {
            None
        },
    }
}

/// The error reported for a sample at `index` with problem `p`.
pub open spec fn is_invalid_sample_error(e: RagasError, index: int, p: Seq<char>) -> bool {
    e matches RagasError::InvalidSample { index: i, field } && i == index && field@ == p
}

fn invalid_sample(index: usize, field: &str) -> (e: RagasError)
    ensures
        is_invalid_sample_error(e, index as int, field@),
{
    RagasError::InvalidSample { index, field: to_owned_string(field) }
}

/// Checks one single-turn sample.
pub fn validate_sample(index: usize, sample: &SingleTurnSample) -> (r: Result<(), RagasError>)
    ensures
        match sample_problem(*sample) {
            None => r is Ok,
            Some(p) => r matches Err(e) && is_invalid_sample_error(e, index as int, p),
        },
{
    if is_blank(sample.user_input.as_str()) {
        return Err(invalid_sample(index, "user_input"));
    }
    if is_blank(sample.response.as_str()) {
        return Err(invalid_sample(index, "response"));
    }
    let mut i: usize = 0;
    while i < sample.retrieved_contexts.len()
        invariant
            i <= sample.retrieved_contexts@.len(),
            trim(sample.user_input@).len() != 0,
            trim(sample.response@).len() != 0,
            forall|j: int|
                0 <= j < i ==> trim(#[trigger] sample.retrieved_contexts@[j]@).len() == 0,
        decreases sample.retrieved_contexts@.len() - i,
    {
        if !is_blank(sample.retrieved_contexts[i].as_str()) {
            assert(trim(sample.retrieved_contexts@[i as int]@).len() != 0);
            return Ok(());
        }
        i = i + 1;
    }
    Err(invalid_sample(index, "retrieved_contexts"))
}

/// Checks one sample of either kind.
pub fn validate_evaluation_sample(index: usize, sample: &EvaluationSample) -> (r: Result<
    (),
    RagasError,
>)
    ensures
        match evaluation_sample_problem(*sample) {
            None => r is Ok,
            Some(p) => r matches Err(e) && is_invalid_sample_error(e, index as int, p),
        },
{
    match sample {
        EvaluationSample::SingleTurn(s) => validate_sample(index, s),
        EvaluationSample::MultiTurn(m) => {
            if m.messages.len() == 0 {
                Err(invalid_sample(index, "messages"))
            } else {
                Ok(())
            }
        },
    }
}

/// What building a dataset from `samples` gives, where `problem` says what is wrong with a
/// sample: `EmptyDataset` for no samples, else `InvalidSample` for the first invalid sample,
/// else success.
pub open spec fn build_outcome_ok<T>(samples: Seq<T>, problem: spec_fn(T) -> Option<Seq<char>>) -> bool {
    samples.len() > 0 && forall|i: int| 0 <= i < samples.len() ==> problem(#[trigger] samples[i]) is None
}

pub open spec fn build_error_ok<T>(
    samples: Seq<T>,
    problem: spec_fn(T) -> Option<Seq<char>>,
    e: RagasError,
) -> bool {
    ||| samples.len() == 0 && e == RagasError::EmptyDataset
    ||| exists|i: int|
        #![trigger samples[i]]
        {
            &&& 0 <= i < samples.len()
            &&& forall|j: int| 0 <= j < i ==> problem(#[trigger] samples[j]) is None
            &&& problem(samples[i]) matches Some(p)
            &&& is_invalid_sample_error(e, i, p)
        }
}

/// A collection of samples with dataset-level metadata.
#[derive(Debug, PartialEq, Eq)]
pub struct EvaluationDataset<T> {
    samples: Vec<T>,
    metadata: StringMap<String>,
}

impl<T> EvaluationDataset<T> {
    /// The samples, in order.
    pub closed spec fn samples_view(&self) -> Seq<T> {
        self.samples@
    }

    /// The dataset-level metadata.
    pub closed spec fn metadata_view(&self) -> Map<Seq<char>, String> {
        self.metadata@
    }

    pub fn len(&self) -> (n: usize)
        ensures
            n == self.samples_view().len(),
    {
        self.samples.len()
    }

    pub fn is_empty(&self) -> (b: bool)
        ensures
            b == (self.samples_view().len() == 0),
    {
        self.samples.len() == 0
    }

    /// Iterates over the samples in order.
    pub fn iter(&self) -> (it: std::slice::Iter<'_, T>)
        ensures
            vstd::std_specs::slice::into_iter_elts(it) == self.samples_view(),
    {
        let it = self.samples.as_slice().iter();
        it
    }

    pub fn samples(&self) -> (s: &[T])
        ensures
            s@ == self.samples_view(),
    {
        self.samples.as_slice()
    }

    pub fn metadata(&self) -> (m: &StringMap<String>)
        ensures
            m@ == self.metadata_view(),
    {
        &self.metadata
    }
}

impl EvaluationDataset<SingleTurnSample> {
    /// A validated dataset of single-turn samples.
    pub fn new(samples: Vec<SingleTurnSample>) -> (r: Result<Self, RagasError>)
        ensures
            match r {
                Ok(d) => build_outcome_ok(samples@, |s: SingleTurnSample| sample_problem(s))
                    && d.samples_view() == samples@ && d.metadata_view().is_empty(),
                Err(e) => build_error_ok(samples@, |s: SingleTurnSample| sample_problem(s), e),
            },
    {
        if samples.len() == 0 {
            return Err(RagasError::EmptyDataset);
        }
        let mut i: usize = 0;
        while i < samples.len()
            invariant
                i <= samples@.len(),
                forall|j: int| 0 <= j < i ==> sample_problem(#[trigger] samples@[j]) is None,
            decreases samples@.len() - i,
        {
            match validate_sample(i, &samples[i]) {
                Ok(()) => {},
                Err(e) => {
                    assert(samples@[i as int] == samples@[i as int]);
                    return Err(e);
                },
            }
            i = i + 1;
        }
        let d = EvaluationDataset { samples, metadata: StringMap::new() };
        assert(d.metadata_view() =~= Map::empty());
        Ok(d)
    }

    /// A dataset of one validated sample.
    pub fn from_sample(sample: SingleTurnSample) -> (r: Result<Self, RagasError>)
        ensures
            match r {
                Ok(d) => sample_problem(sample) is None && d.samples_view() == seq![sample]
                    && d.metadata_view().is_empty(),
                Err(e) => sample_problem(sample) matches Some(p) && is_invalid_sample_error(e, 0, p),
            },
    {
        let mut v: Vec<SingleTurnSample> = Vec::new();
        v.push(sample);
        assert(v@ =~= seq![sample]);
        let r = Self::new(v);
        proof {
            if r is Err {
                assert(v@[0] == sample);
            }
        }
        r
    }
}

impl EvaluationDataset<EvaluationSample> {
    /// A validated dataset of samples of either kind.
    pub fn from_samples(samples: Vec<EvaluationSample>) -> (r: Result<Self, RagasError>)
        ensures
            match r {
                Ok(d) => build_outcome_ok(samples@, |s: EvaluationSample| evaluation_sample_problem(s))
                    && d.samples_view() == samples@ && d.metadata_view().is_empty(),
                Err(e) => build_error_ok(samples@, |s: EvaluationSample| evaluation_sample_problem(s), e),
            },
    {
        Self::from_parts(samples, StringMap::new())
    }

    fn from_parts(samples: Vec<EvaluationSample>, metadata: StringMap<String>) -> (r: Result<
        Self,
        RagasError,
    >)
        ensures
            match r {
                Ok(d) => build_outcome_ok(samples@, |s: EvaluationSample| evaluation_sample_problem(s))
                    && d.samples_view() == samples@ && d.metadata_view() == metadata@,
                Err(e) => build_error_ok(samples@, |s: EvaluationSample| evaluation_sample_problem(s), e),
            },
    {
        if samples.len() == 0 {
            return Err(RagasError::EmptyDataset);
        }
        let mut i: usize = 0;
        while i < samples.len()
            invariant
                i <= samples@.len(),
                forall|j: int| 0 <= j < i ==> evaluation_sample_problem(#[trigger] samples@[j]) is None,
            decreases samples@.len() - i,
        {
            match validate_evaluation_sample(i, &samples[i]) {
                Ok(()) => {},
                Err(e) => {
                    assert(samples@[i as int] == samples@[i as int]);
                    return Err(e);
                },
            }
            i = i + 1;
        }
        Ok(EvaluationDataset { samples, metadata })
    }
}

/// Collects samples of either kind and dataset metadata, then builds a validated dataset.
#[derive(Debug, Clone)]
pub struct EvaluationDatasetBuilder {
    samples: Vec<EvaluationSample>,
    metadata: StringMap<String>,
}

impl EvaluationDatasetBuilder {
    /// The samples collected so far.
    pub closed spec fn samples_view(&self) -> Seq<EvaluationSample> {
        self.samples@
    }

    /// The metadata collected so far.
    pub closed spec fn metadata_view(&self) -> Map<Seq<char>, String> {
        self.metadata@
    }

    pub fn new() -> (b: Self)
        ensures
            b.samples_view().len() == 0,
            b.metadata_view().is_empty(),
    {
        let b = EvaluationDatasetBuilder { samples: Vec::new(), metadata: StringMap::new() };
        assert(b.metadata_view() =~= Map::empty());
        b
    }

    pub fn with_metadata(self, key: &str, value: &str) -> (b: Self)
        ensures
            b.samples_view() == self.samples_view(),
            exists|v: String| v@ == value@ && b.metadata_view() == self.metadata_view().insert(key@, v),
    {
        let mut b = self;
        let v = to_owned_string(value);
        b.metadata.insert(to_owned_string(key), v);
        b
    }

    pub fn add_sample(self, sample: EvaluationSample) -> (b: Self)
        ensures
            b.samples_view() == self.samples_view().push(sample),
            b.metadata_view() == self.metadata_view(),
    {
        let mut b = self;
        b.samples.push(sample);
        b
    }

    pub fn add_single_turn(self, sample: SingleTurnSample) -> (b: Self)
        ensures
            b.samples_view() == self.samples_view().push(EvaluationSample::SingleTurn(sample)),
            b.metadata_view() == self.metadata_view(),
    {
        self.add_sample(EvaluationSample::SingleTurn(sample))
    }

    pub fn add_multi_turn(self, sample: MultiTurnSample) -> (b: Self)
        ensures
            b.samples_view() == self.samples_view().push(EvaluationSample::MultiTurn(sample)),
            b.metadata_view() == self.metadata_view(),
    {
        self.add_sample(EvaluationSample::MultiTurn(sample))
    }

    /// The validated dataset, keeping the samples in insertion order and the metadata.
    pub fn build(self) -> (r: Result<EvaluationDataset<EvaluationSample>, RagasError>)
        ensures
            match r {
                Ok(d) => build_outcome_ok(self.samples_view(), |s: EvaluationSample| evaluation_sample_problem(s))
                    && d.samples_view() == self.samples_view() && d.metadata_view()
                    == self.metadata_view(),
                Err(e) => build_error_ok(self.samples_view(), |s: EvaluationSample| evaluation_sample_problem(s), e),
            },
    {
        EvaluationDataset::from_parts(self.samples, self.metadata)
    }
}

/// The contents of a tool call.
pub struct ToolCallView {
    pub id: Seq<char>,
    pub name: Seq<char>,
    pub arguments: Seq<char>,
}

impl View for ToolCall {
    type V = ToolCallView;

    open spec fn view(&self) -> ToolCallView {
        ToolCallView { id: self.id@, name: self.name@, arguments: self.arguments@ }
    }
}

/// The contents of a list of strings.
pub open spec fn strings_view(v: Seq<String>) -> Seq<Seq<char>> {
    v.map_values(|x: String| x@)
}

/// The contents of an optional string.
pub open spec fn opt_string_view(o: Option<String>) -> Option<Seq<char>> {
    match o {
        Some(x) => Some(x@),
        None => None,
    }
}

/// The contents of string-valued metadata.
pub open spec fn metadata_view(m: Map<Seq<char>, String>) -> Map<Seq<char>, Seq<char>> {
    m.map_values(|v: String| v@)
}

/// The contents of a message.
pub struct MessageView {
    pub role: MessageRole,
    pub content: Seq<char>,
    pub tool_calls: Seq<ToolCallView>,
    pub tool_call_id: Option<Seq<char>>,
}

impl View for Message {
    type V = MessageView;

    open spec fn view(&self) -> MessageView {
        MessageView {
            role: self.role,
            content: self.content@,
            tool_calls: self.tool_calls@.map_values(|c: ToolCall| c@),
            tool_call_id: opt_string_view(self.tool_call_id),
        }
    }
}

/// The contents of a multi-turn sample.
pub struct MultiTurnView {
    pub messages: Seq<MessageView>,
    pub reference: Option<Seq<char>>,
    pub reference_tool_calls: Seq<ToolCallView>,
    pub reference_topics: Seq<Seq<char>>,
    pub metadata: Map<Seq<char>, Seq<char>>,
}

impl View for MultiTurnSample {
    type V = MultiTurnView;

    open spec fn view(&self) -> MultiTurnView {
        MultiTurnView {
            messages: self.messages@.map_values(|m: Message| m@),
            reference: opt_string_view(self.reference),
            reference_tool_calls: self.reference_tool_calls@.map_values(|c: ToolCall| c@),
            reference_topics: strings_view(self.reference_topics@),
            metadata: metadata_view(self.metadata@),
        }
    }
}

/// The contents of a single-turn sample.
pub struct SingleTurnView {
    pub user_input: Seq<char>,
    pub response: Seq<char>,
    pub retrieved_contexts: Seq<Seq<char>>,
    pub reference: Option<Seq<char>>,
    pub reference_contexts: Seq<Seq<char>>,
    pub retrieved_context_ids: Seq<Seq<char>>,
    pub reference_context_ids: Seq<Seq<char>>,
    pub metadata: Map<Seq<char>, Seq<char>>,
}

impl View for SingleTurnSample {
    type V = SingleTurnView;

    open spec fn view(&self) -> SingleTurnView {
        SingleTurnView {
            user_input: self.user_input@,
            response: self.response@,
            retrieved_contexts: strings_view(self.retrieved_contexts@),
            reference: opt_string_view(self.reference),
            reference_contexts: strings_view(self.reference_contexts@),
            retrieved_context_ids: strings_view(self.retrieved_context_ids@),
            reference_context_ids: strings_view(self.reference_context_ids@),
            metadata: metadata_view(self.metadata@),
        }
    }
}

/// The contents of a sample of either kind.
pub enum EvaluationSampleView {
    SingleTurn(SingleTurnView),
    MultiTurn(MultiTurnView),
}

impl View for EvaluationSample {
    type V = EvaluationSampleView;

    open spec fn view(&self) -> EvaluationSampleView {
        match self {
            EvaluationSample::SingleTurn(s) => EvaluationSampleView::SingleTurn(s@),
            EvaluationSample::MultiTurn(m) => EvaluationSampleView::MultiTurn(m@),
        }
    }
}

impl<T: View> View for EvaluationDataset<T> {
    /// The samples' contents in order, and the dataset metadata.
    type V = (Seq<T::V>, Map<Seq<char>, Seq<char>>);

    closed spec fn view(&self) -> (Seq<T::V>, Map<Seq<char>, Seq<char>>) {
        (self.samples@.map_values(|x: T| x@), metadata_view(self.metadata@))
    }
}

impl<T: View> EvaluationDataset<T> {
    /// The view in terms of the other accessors.
    pub proof fn lemma_view(&self)
        ensures
            self@.0 == self.samples_view().map_values(|x: T| x@),
            self@.1 == metadata_view(self.metadata_view()),
    {
    }
}

fn copy_string(s: &String) -> (out: String)
    ensures
        out@ == s@,
{
    s.clone()
}

fn copy_opt_string(s: &Option<String>) -> (out: Option<String>)
    ensures
        opt_string_view(out) == opt_string_view(*s),
{
    match s {
        Some(x) => Some(x.clone()),
        None => None,
    }
}

fn copy_strings(v: &Vec<String>) -> (out: Vec<String>)
    ensures
        out@.len() == v@.len(),
        strings_view(out@) == strings_view(v@),
{
    let mut out: Vec<String> = Vec::new();
    let mut i: usize = 0;
    while i < v.len()
        invariant
            i <= v@.len(),
            strings_view(out@) == strings_view(v@.take(i as int)),
        decreases v@.len() - i,
    {
        let ghost before = out@;
        out.push(v[i].clone());
        assert(strings_view(out@) =~= strings_view(before).push(v@[i as int]@));
        assert(strings_view(v@.take(i + 1)) =~= strings_view(v@.take(i as int)).push(v@[i as int]@));
        i = i + 1;
    }
    assert(v@.take(v@.len() as int) =~= v@);
    out
}

fn copy_metadata(m: &StringMap<String>) -> (out: StringMap<String>)
    ensures
        out@ == m@,
{
    let out = m.clone();
    proof {
        crate::string_map::lemma_cloned_strings(m@, out@);
    }
    out
}

impl Clone for ToolCall {
    fn clone(&self) -> (out: Self)
        ensures
            out@ == self@,
    {
        ToolCall { id: copy_string(&self.id), name: copy_string(&self.name), arguments: copy_string(&self.arguments) }
    }
}

fn copy_tool_calls(v: &Vec<ToolCall>) -> (out: Vec<ToolCall>)
    ensures
        out@.len() == v@.len(),
        out@.map_values(|c: ToolCall| c@) == v@.map_values(|c: ToolCall| c@),
{
    let mut out: Vec<ToolCall> = Vec::new();
    let mut i: usize = 0;
    while i < v.len()
        invariant
            i <= v@.len(),
            out@.map_values(|c: ToolCall| c@) == v@.take(i as int).map_values(|c: ToolCall| c@),
        decreases v@.len() - i,
    {
        let ghost before = out@;
        let c = v[i].clone();
        out.push(c);
        assert(out@.map_values(|c: ToolCall| c@) =~= before.map_values(|c: ToolCall| c@).push(v@[i as int]@));
        assert(v@.take(i + 1).map_values(|c: ToolCall| c@) =~= v@.take(i as int).map_values(|c: ToolCall| c@).push(v@[i as int]@));
        i = i + 1;
    }
    assert(v@.take(v@.len() as int) =~= v@);
    out
}

impl Clone for Message {
    fn clone(&self) -> (out: Self)
        ensures
            out@ == self@,
    {
        Message {
            role: self.role,
            content: copy_string(&self.content),
            tool_calls: copy_tool_calls(&self.tool_calls),
            tool_call_id: copy_opt_string(&self.tool_call_id),
        }
    }
}

fn copy_messages(v: &Vec<Message>) -> (out: Vec<Message>)
    ensures
        out@.len() == v@.len(),
        out@.map_values(|m: Message| m@) == v@.map_values(|m: Message| m@),
{
    let mut out: Vec<Message> = Vec::new();
    let mut i: usize = 0;
    while i < v.len()
        invariant
            i <= v@.len(),
            out@.map_values(|m: Message| m@) == v@.take(i as int).map_values(|m: Message| m@),
        decreases v@.len() - i,
    {
        let ghost before = out@;
        let m = v[i].clone();
        out.push(m);
        assert(out@.map_values(|m: Message| m@) =~= before.map_values(|m: Message| m@).push(v@[i as int]@));
        assert(v@.take(i + 1).map_values(|m: Message| m@) =~= v@.take(i as int).map_values(|m: Message| m@).push(v@[i as int]@));
        i = i + 1;
    }
    assert(v@.take(v@.len() as int) =~= v@);
    out
}

impl Clone for MultiTurnSample {
    fn clone(&self) -> (out: Self)
        ensures
            out@ == self@,
            out.messages@.len() == self.messages@.len(),
    {
        MultiTurnSample {
            messages: copy_messages(&self.messages),
            reference: copy_opt_string(&self.reference),
            reference_tool_calls: copy_tool_calls(&self.reference_tool_calls),
            reference_topics: copy_strings(&self.reference_topics),
            metadata: copy_metadata(&self.metadata),
        }
    }
}

impl Clone for SingleTurnSample {
    fn clone(&self) -> (out: Self)
        ensures
            out@ == self@,
    {
        SingleTurnSample {
            user_input: copy_string(&self.user_input),
            response: copy_string(&self.response),
            retrieved_contexts: copy_strings(&self.retrieved_contexts),
            reference: copy_opt_string(&self.reference),
            reference_contexts: copy_strings(&self.reference_contexts),
            retrieved_context_ids: copy_strings(&self.retrieved_context_ids),
            reference_context_ids: copy_strings(&self.reference_context_ids),
            metadata: copy_metadata(&self.metadata),
        }
    }
}

impl Clone for EvaluationSample {
    fn clone(&self) -> (out: Self)
        ensures
            out@ == self@,
    {
        match self {
            EvaluationSample::SingleTurn(s) => EvaluationSample::SingleTurn(s.clone()),
            EvaluationSample::MultiTurn(m) => EvaluationSample::MultiTurn(m.clone()),
        }
    }
}

fn copy_samples(v: &Vec<EvaluationSample>) -> (out: Vec<EvaluationSample>)
    ensures
        out@.len() == v@.len(),
        out@.map_values(|x: EvaluationSample| x@) == v@.map_values(|x: EvaluationSample| x@),
{
    let mut out: Vec<EvaluationSample> = Vec::new();
    let mut i: usize = 0;
    while i < v.len()
        invariant
            i <= v@.len(),
            out@.map_values(|x: EvaluationSample| x@) == v@.take(i as int).map_values(|x: EvaluationSample| x@),
        decreases v@.len() - i,
    {
        let ghost before = out@;
        let x = v[i].clone();
        out.push(x);
        assert(out@.map_values(|x: EvaluationSample| x@) =~= before.map_values(|x: EvaluationSample| x@).push(v@[i as int]@));
        assert(v@.take(i + 1).map_values(|x: EvaluationSample| x@) =~= v@.take(i as int).map_values(|x: EvaluationSample| x@).push(v@[i as int]@));
        i = i + 1;
    }
    assert(v@.take(v@.len() as int) =~= v@);
    out
}

impl Clone for EvaluationDataset<EvaluationSample> {
    fn clone(&self) -> (out: Self)
        ensures
            out@ == self@,
    {
        EvaluationDataset { samples: copy_samples(&self.samples), metadata: copy_metadata(&self.metadata) }
    }
}

/// `sample_problem` stated on the contents of a sample.
pub open spec fn view_problem(v: SingleTurnView) -> Option<Seq<char>> {
    if trim(v.user_input).len() == 0 {
        Some("user_input"@)
    } else if trim(v.response).len() == 0 {
        Some("response"@)
    } else if forall|i: int| 0 <= i < v.retrieved_contexts.len() ==> trim(#[trigger] v.retrieved_contexts[i]).len() == 0 {
        Some("retrieved_contexts"@)
    } else {
        None
    }
}

/// Whether a sample is valid depends on its contents only.
pub proof fn lemma_problem_view(s: SingleTurnSample)
    ensures
        sample_problem(s) == view_problem(s@),
        evaluation_sample_problem(EvaluationSample::SingleTurn(s)) == view_problem(s@),
{
    assert forall|i: int| 0 <= i < s.retrieved_contexts@.len() implies #[trigger] strings_view(s.retrieved_contexts@)[i] == s.retrieved_contexts@[i]@ by {}
    if forall|i: int| 0 <= i < s.retrieved_contexts@.len() ==> trim(#[trigger] s.retrieved_contexts@[i]@).len() == 0 {
        assert forall|i: int| 0 <= i < s@.retrieved_contexts.len() implies trim(#[trigger] s@.retrieved_contexts[i]).len() == 0 by {
            assert(s@.retrieved_contexts[i] == s.retrieved_contexts@[i]@);
        }
    } else {
        let i = choose|i: int| 0 <= i < s.retrieved_contexts@.len() && !(trim(#[trigger] s.retrieved_contexts@[i]@).len() == 0);
        assert(s@.retrieved_contexts[i] == s.retrieved_contexts@[i]@);
    }
}

} // verus!

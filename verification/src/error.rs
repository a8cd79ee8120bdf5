//! The library's error type.
use vstd::prelude::*;

use crate::text::{decimal, push_decimal, push_str};

verus! {

/// Every error the library reports.
#[derive(Debug, Clone, PartialEq, Eq)]
pub enum RagasError {
    /// An evaluation dataset was built from no samples.
    EmptyDataset,
    /// The sample at `index` is missing a required `field`.
    InvalidSample { index: usize, field: String },
    /// Reading, writing or finding a dataset failed.
    DatasetIo { message: String },
    /// A model provider or a feature lookup failed.
    Provider { message: String },
    /// Some text could not be parsed.
    Parse { message: String },
    /// A prompt could not be rendered.
    Prompt { message: String },
    /// The model stopped before finishing its output; retrying with the same token budget
    /// does not help.
    LlmDidNotFinish { reason: String },
}

/// The human-readable text of an error.
pub open spec fn error_text(e: RagasError) -> Seq<char> {
    match e {
        RagasError::EmptyDataset => "evaluation dataset cannot be empty"@,
        RagasError::InvalidSample { index, field } => "invalid sample at index "@ + decimal(
            index as nat,
        ) + ": "@ + field@,
        RagasError::DatasetIo { message } => "dataset IO error: "@ + message@,
        RagasError::Provider { message } => "provider error: "@ + message@,
        RagasError::Parse { message } => "parse error: "@ + message@,
        RagasError::Prompt { message } => "prompt error: "@ + message@,
        RagasError::LlmDidNotFinish { reason } => "the LLM did not finish generating (finish_reason: "@
            + reason@ + "); increase max_tokens and try again"@,
    }
}

impl RagasError {
    /// The human-readable text of this error.
    pub fn describe(&self) -> (s: String)
        ensures
            s@ == error_text(*self),
    {
        let mut s = String::new();
        match self {
            RagasError::EmptyDataset => {
                push_str(&mut s, "evaluation dataset cannot be empty");
            },
            RagasError::InvalidSample { index, field } => {
                push_str(&mut s, "invalid sample at index ");
                push_decimal(&mut s, *index);
                push_str(&mut s, ": ");
                push_str(&mut s, field.as_str());
            },
            RagasError::DatasetIo { message } => {
                push_str(&mut s, "dataset IO error: ");
                push_str(&mut s, message.as_str());
            },
            RagasError::Provider { message } => {
                push_str(&mut s, "provider error: ");
                push_str(&mut s, message.as_str());
            },
            RagasError::Parse { message } => {
                push_str(&mut s, "parse error: ");
                push_str(&mut s, message.as_str());
            },
            RagasError::Prompt { message } => {
                push_str(&mut s, "prompt error: ");
                push_str(&mut s, message.as_str());
            },
            RagasError::LlmDidNotFinish { reason } => {
                push_str(&mut s, "the LLM did not finish generating (finish_reason: ");
                push_str(&mut s, reason.as_str());
                push_str(&mut s, "); increase max_tokens and try again");
            },
        }
        assert(s@ =~= error_text(*self));
        s
    }
}

/// A `DatasetIo` error with the given message.
pub fn dataset_io_error(message: String) -> (e: RagasError)
    ensures
        e == (RagasError::DatasetIo { message }),
{
    RagasError::DatasetIo { message }
}

/// A `Parse` error with the given message.
pub fn parse_error(message: String) -> (e: RagasError)
    ensures
        e == (RagasError::Parse { message }),
{
    RagasError::Parse { message }
}

} // verus!

//! Evaluation of retrieval-augmented generation and LLM applications: datasets, lexical and
//! set-based metric cores, metric registries, storage backends and integration planning.
use vstd::prelude::*;

pub mod agentic;
pub mod backends;
pub mod benchmarks;
pub mod cli;
pub mod codec;
pub mod config;
pub mod csv_io;
pub mod dataset;
pub mod docs_examples;
pub mod error;
pub mod eval;
pub mod experiments;
pub mod integrations;
pub mod jaro;
pub mod judged;
pub mod laws;
pub mod metric_laws;
pub mod llm;
pub mod metric_base;
pub mod metrics;
pub mod optimizers;
pub mod overlap;
pub mod parity;
pub mod rag;
pub mod registry;
pub mod runtime;
pub mod string_map;
pub mod text;
pub mod traditional;

pub use error::RagasError;
pub use string_map::StringMap;

verus! {

} // verus!

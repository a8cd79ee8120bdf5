# ragas

Evaluation of retrieval-augmented generation and LLM applications, written in Verus.

- `src/` is the verified library: datasets and their CSV, Google Drive and in-memory storage,
  the lexical and set-based metric cores (ROUGE, BLEU, chrF, edit distances, overlap counts),
  the prompts, reply reading and verdict counting of the LLM-judged metrics, metric registries,
  configuration and redaction, CLI argument handling, evaluation result resolution, optimizer
  steps and the documented examples. Contracts state results over `Seq`/`Map` models; where the
  result comes from an outside crate or from a trait that callers implement, the contract fixes
  what is handed over and states what holds of every reply. `src/laws.rs` holds the properties
  that relate several operations, such as what each dataset backend loads back of what it saved.
- `app/` is the `ragas` command-line program: environment and file I/O, HTTP calls to the chat
  and embedding endpoints, JSON (de)serialization, and the floating-point scores built from the
  library's counts.
- `tests/` exercises the library on concrete values.

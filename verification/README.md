# atlas

The verified core of Atlas, a local workspace for chatting with models served
by Ollama, with search over past conversations, indexed local files, memories
and model benchmarks.

- `src/` is the library, written in Verus. Every function there carries a
  contract over mathematical models (sequences of characters, integers,
  options) and is proved against it: text normalisation, the conversation
  search language, document chunking, calendar arithmetic, prompt context
  assembly, the HTTP exchange with Ollama, chat exports in Markdown and plain
  text, tool-call planning, and the state machines that drive streamed
  answers, model downloads and benchmarks. Public `lemma_*` proof functions
  state the properties that hold across calls.
- The few calls into `serde_json` and into `std` that Verus has no
  specification for sit behind small trusted wrappers whose contracts name
  their results.
- `app/` is a command-line program around the library: SQLite storage through
  `rusqlite`, HTTP through `reqwest` and plain sockets, threads for jobs, and
  the parts written in floating point (speeds, durations in seconds, ranking
  scores, the JSON export).
- `tests/` runs the library on concrete inputs.

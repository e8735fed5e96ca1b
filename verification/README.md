# neuraloc_core

The core of a local-inference desktop assistant: model catalog and GGUF
inspection, engine packages, the llama.cpp runtime's decisions, chat and
conversation rules, prompt documents, settings, scheduling and hardware
probing. The logic is written in Verus and proved against its contracts.

## Layout

- `src/` — the verified library.
  - `text.rs` — string and byte helpers with exact specifications.
  - `errors.rs`, `events.rs` — the error type handed to the front end, and
    event-stream bookkeeping.
  - `settings.rs`, `scheduler.rs`, `hardware.rs`, `lifecycle.rs` — settings
    patches, job classification, hardware probe parsing, snapshots and
    their cache, process log buffers.
  - `models/` — GGUF header parsing (`gguf.rs`), model records, path grants,
    folder scans and the CPU fit estimate (`catalog.rs`).
  - `packages.rs` — engine package manifests, download and archive checks,
    safe install paths, installed-file verification and package records.
  - `engines.rs` — server arguments, identity checks, the SSE decoder, the
    session state and the start/monitor/stop decisions of the runtime.
  - `context.rs` — the rolling context window that keeps the newest whole
    turns within the token budget.
  - `conversations.rs`, `chat.rs` — conversation validation, stored-row
    decoding, Markdown export, the ordered checks before a chat turn is
    written, turn finalisation and token batching.
  - `prompts.rs` — prompt front matter framing, metadata validation,
    canonical documents, the normalized export, version append decisions,
    export and compilation.
- `tests/` — tests of the library on concrete values.
- `app/` — the parts that touch the outside world: file and database access,
  downloads, archive extraction, process and hardware queries, and serde
  copies of the library's types.

Each public proof function whose name starts with `law_` states a property
that spans several operations, such as that the framing of a normalised prompt
document reads back to the same metadata text and body, or that an accepted relative install path
can never leave the install root.

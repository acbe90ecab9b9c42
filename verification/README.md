# backend

The decision logic of a group conversation runtime, written in Verus: every
function in `src/` carries a contract and is proved against it.

Layout:

- `src/scheduler/` — the turn scheduler: turn and dispatch state machines,
  the turn budget, topologies, the next-speaker decision, the moderator's
  input and answer, `@mention` scanning, and the registry of running turns.
- `src/compaction/` — keeping a thread inside its context window: token
  estimates, turn boundaries, rule-based snipping, tool-result pruning, the
  carried checklist, the summary pass and the hook that runs it.
- `src/group/` — the rest of a group turn: routing and agent selection, tool
  batches and schemas, delegation to assistants, workspace plans, streamed
  output and the records a turn leaves.
- `src/agent_tool.rs`, `src/conversation.rs`, `src/context.rs`,
  `src/chat_title.rs`, `src/approval.rs`, `src/text.rs` — dispatch arguments,
  provider prompts, context rendering, chat titles, approval notices and the
  text helpers they share.
- `app/` — what Verus does not see: the async runners that perform the model
  and storage calls the library decides on, and the serde copies of library
  types.
- `tests/` — tests run against the compiled library.

Calls into `serde_json` and a few std functions sit behind small trusted
wrappers whose contracts either state what the outside function does or name
its result; each says so in its doc comment.

# codex_logic

Verified decision logic of the Codex command-line tools, written in Verus.

- `src/` is the verified library. Each module states its behaviour in
  `requires`/`ensures` contracts over mathematical models (`Seq<char>` for text)
  and proves properties that span functions as `lemma_*` proof functions.
  - `commit_attribution`: the `Co-authored-by:` trailer instruction and public
    contribution mode.
  - `model_actions`, `model_shortcuts`: keymap paths of model actions, bindable
    model ids, and the previous/next/select model shortcuts.
  - `debug_logs`, `log_format`: the `debug-logs` command's filter, queries,
    reports and the rendering of log rows.
  - `logging`: rotation bookkeeping of the size-bounded TUI log.
  - `compact_remote_v2`: remote compaction inputs and the prompts of its two
    requests, the reading of the response stream, and the order of a
    compaction task's steps (a state machine that `app/` drives).
  - `text`, `colors`, `clock`: text helpers, and the calls into `owo_colors`
    and `chrono` behind trusted wrappers.
- `app/` performs the input and output around the library: clap parsing, the
  log store, the log files, and the session services.
- `tests/` exercises the library on concrete values.

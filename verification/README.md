# claude_kanban

A local-only Kanban board for one project, shared between a person in a browser and an agent over MCP. The library holds
the board's logic as executable Rust with contracts that Verus proves; the program around it does the talking to files,
processes and sockets.

## Layout

- `src/store` — the board and its tickets, live claims, validation, derived facts, and the write cycle with its version
  counter.
- `src/ops.rs` — every mutation as one operation, and what each does to the board; `src/laws.rs` — what holds of them all.
- `src/worktree.rs`, `src/land.rs`, `src/pr.rs`, `src/diff.rs`, `src/minesweeper.rs` — decisions around `git` and `gh`. Each
  is a function from what is known so far to the next question, a refusal, or a plan.
- `src/writes.rs` — what a pass over the whole board writes, as data, and which refusals are no failure of the pass.
- `src/mcp.rs`, `src/server`, `src/cli.rs` — the faces: what a tool call, a form or a command asks for, and what is shown.
- `src/text.rs`, `src/seqs.rs`, `src/json.rs`, `src/time.rs`, `src/git.rs`, `src/config.rs`, `src/name.rs` — what the rest
  stands on.
- `app` — the program: arguments, the lock and the files, running programs, HTTP, live updates, the MCP server.
- `tests` — the library in use.

What is taken on trust is marked in the source, each with the outside function it speaks of: reading and displaying JSON (`serde_json`),
taking a unified diff apart (`unidiff`), the clock and the calendar (`chrono`), and a few functions of the standard library
on strings.

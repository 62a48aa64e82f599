# claustre

claustre runs several coding assistants side by side. Each works on a task of its own, in a git
worktree of its own, and reports back through hooks and a small tool server. This crate holds the
rules of the program, verified with Verus, and the program around them.

## Layout

- `src/`: the verified library.
  - `store`: projects, sessions, tasks, steps and outside sessions as tables, with the queries on
    them, the schema's migrations and the laws that hold of the tables.
  - `session_update`: what a report of a hook does to a session and its task.
  - `session`: branches, prompts, worktrees, hooks, and the loops that feed a session its tasks.
  - `mcp`: the messages between an assistant and the tool server, and what each tool does.
  - `pty`: terminals, their panes, what is drawn of them, and the protocol that serves them.
  - `session_host`: how the process behind a terminal treats its client and its end.
  - `configure` and `wizard`: permissions, what is recommended of them and the questions about it.
  - `config`, `scanner`, `github`, `skills`, `cli`, `desktop`: settings, outside sessions, the sprint
    board, skills, and what the command line and a window show.
  - `clock`, `json`, `num`, `paths`, `rows`, `text`, `textset`: what the rest is made with.
- `tests/`: the library at work on concrete values.
- `app/`: the program itself: files, processes, sockets, the database and the screen.

## Reading the contracts

Every table, message and setting has a view: a mathematical value that contracts speak of. A
function whose result depends on the time or on a new identifier has a form that takes these as
arguments and states its result exactly; the form without them reads the clock and states that some
time and some identifier gave that result.

Calls into other crates stand in a few small functions whose contracts are believed. They are in
`clock`, `json`, `text`, `skills`, `config`, `pty::screen` and `pty::widget`, each with a comment that
says which function is called and what is claimed of it.

The name of the assistant is not built into the library: it is handed it wherever a file, a command,
a flag or a pane is named after it. The program names the one that it runs.

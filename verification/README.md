# project

The decisions of a code editor's project, verified with Verus: which worktree a path belongs to,
who takes part in a shared project, what is sent to whom and in which order, what is searched and
when a search stops.

- `src/` is the library. `project::Project` holds the state of a project and takes steps; a step
  hands back the effects that the program around it is to carry out, in order. The modules below
  `project/` hold the steps by topic: `create`, `sharing`, `participants`, `buffers`, `worktrees`,
  `events`, `diffs`, `messages`, `requests`, `ordering`, `synchronize`, `search`, `resolve`,
  `breakpoints`, `tools`. Besides: `path`, `path_order` and `path_map` (POSIX paths),
  `ordered` (messages that keep their place among buffer operations), `retained` (what is kept
  alive while requests run), `sort` (a stable sort), `hints` and `candidates` (what language
  servers say, and what the user picks from).
- Functions whose names start with `law_` state what holds of the library as a whole.
- `tests/` runs the library on concrete values.
- `app/` is the program around the library: locks, channels, tasks and files.

# issuectl

The command-line front end of a markdown issue tracker, with its decisions
proved correct in Verus.

- `src/` is the verified library: the value parsers for command-line
  arguments, the requests that `bulk` and `update` flags stand for and
  their key checks, the rules of `apply` patch files, note and body text
  handling (size cap, UTF-8, trimming), the routing tips for mistyped
  subcommands, the machine-readable help document, the interactive picker,
  the reception queue, shell-completion values, the editor choice of
  `open`, `TODO(issue: …)` scanning, the `close --stamp` guard, and every
  text report (issue table and detail view, tallies, epic tree, scheduling
  DAG, workloads, cycles, schedules, stats, metrics, activity and
  timelines, stale and archived issues, `ready`, `fmt`, `rename`,
  `sync-commits`, configuration, skill corpus, imports). Each public function states its
  result in its contract; `src/laws.rs` states and proves the properties
  that span functions.
- `app/` holds the unverified edges: the `clap` entry point (global
  `--json` / `--root`, usage errors, JSON help, shell completions), file,
  stdin, git and editor access, and the printing of each report as text or
  JSON with its exit code. The issue store itself (loading, creating and
  rewriting issue files) is a separate crate and not part of this project,
  so the command handlers that read or write it, and the routing of every
  subcommand to them, are not here; `app/` offers the functions those
  handlers call once they have the store's answer.
- `tests/` runs the library on concrete inputs.

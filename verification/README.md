# syncbook

Pulls reMarkable tablet notebooks over SSH and renders them to PNG and SVG, and pushes a modified
page back: backup first, hash check afterwards.

- `src/` is the library, verified with Verus. It decides what to run, which file goes where, what a
  reply means and what is said. Three runs hold the decisions: `setup::Setup` (the first-run host
  alias), `pull::Pull` and `push::Push`. Each asks for a `task::Task` and takes a `task::Event` back.
  `push_laws` and `pull_laws` state what holds of every run, `backup_laws` what pushes leave of each
  other's backups, `shell` what quoting guarantees, `search` for which name a metadata line is found,
  and `outside` holds everything that is taken on trust.
- `app/` is the command-line program. It carries out the tasks: processes, files, the terminal.
- `tests/` exercises the library on concrete values.

A push backs the notebook up to `~/remarkable-backups/<UTC timestamp>/<notebook UUID>/` before it
changes anything on the tablet. It creates that directory anew, and reads the clock again where it
exists, so no two pushes share one. Then it uploads beside the page, renames into place, reads the
page back and compares SHA-256 digests. The saved files are never removed.

# rustic_backup

A backup manager around the `rustic` command line tool: a JSON
configuration of backup tasks, scheduled runs, snapshot listing, restore
and pruning, and reports and archives sent to a WeCom (企业微信) group
robot or WeDrive.

The library in `src/` is written in Verus. Every decision of the program is
a verified function with a contract over mathematical models:

- `config`: the configuration model, its defaults and path resolution.
- `rustic`: the rustic command lines and the reading of rustic's output
  (snapshot ids, snapshot lists, diffs, repository statistics), size
  formatting.
- `scheduler`, `sending`, `timing`: which tasks are due, which files are
  sent, how large archives are split into parts and chunks, and how each
  outcome is recorded.
- `report`, `logger`, `notify`, `wedrive`, `plan`: report text, log lines,
  robot messages and replies, WeDrive uploads, Windows scheduled tasks.
- `commands`, `task`, `setup`: the decisions behind the command line and
  the configuration wizard.
- `download`, `unpack`: choosing a rustic release and taking the executable
  out of its archive.
- `matching`, `text`: regular expressions, glob sets and JSON documents
  (through `regex`, `globset`, `serde_json`), and text utilities.
- `laws`: properties that span several operations.

`app/` is the program around it: argument parsing, files, processes, HTTP
and the interactive prompts. `tests/` exercises the library with the real
outside crates.

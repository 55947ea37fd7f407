# check-config

Declarative checks on configuration files: a TOML file lists what other
files must hold (lines, keys, entries, files, directories, clones), and
`check-config` reports what is missing or, with `--fix`, puts it in place.

The library in `src/` is written in Verus. It holds the rules of every check:
how a check is read from its table, what a file must become, which message a
check gives, and how a run ends. Its contracts state what each function
returns in terms of spec functions; where a result comes from an outside crate
(a regex match, a parse, a diff), they state it through a name for that
crate's result. `src/laws.rs` proves what holds across calls, chiefly that a
fix is stable: a second check after a fix asks for nothing more.

- `text`, `utils`: character-level text operations, appending lines, marker
  blocks and `${name}` templates.
- `node`, `entries`, `mapping`: documents as tables of values, and the edits
  the entry and key checks make to them.
- `checkdef`, `checks`, `fs_checks`, `registry`: reading checks from their
  tables and what each check decides.
- `file_check`, `cli`, `report`, `uri`: plans for file checks, tag selection
  and exit status, report lines, paths and URLs.
- `package`, `package_checks`: package commands, reading a package from a
  check, and what the package checks decide.
- `external`, `documents`: the calls into `regex`, `similar`, `url`, std,
  `toml_edit`, `serde_json` and `serde_yaml_ng`, each behind a wrapper with a
  trusted contract.
- `laws`, `entry_laws`, `marker_laws`: the laws and the lemmas behind them.

`app/` is the program around the library: command-line arguments, reading and
writing files, printing TOML, JSON and YAML, downloads, archives and git.

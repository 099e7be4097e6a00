# clashtui (verified core)

A terminal front end for the clash proxy core. The library under `src/` is
written in Verus: every function carries a contract and is proved.

- `yaml`: YAML trees as plain values, with a mathematical model (`Yaml`) and
  an ordered mapping without duplicate keys (insert in place, swap-remove).
- `backend::impl_profile`: profile types, the domain a profile is fetched
  from, and the merge of the basic clash configuration into a profile.
- `profile`: profiles that take the proxy and rule sections of a base profile.
- `config`: the basic configuration's settings and the controller / proxy
  addresses derived from them.
- `clash::webapi`: connection settings and the requests to the controller.
- `tui`, `ui`: the state of the user interface and its decisions on keys and
  back-end answers.
- `utils`: configuration loading decisions, the state bar, profile section
  copying and recent log lines.
- `text`: character-level string helpers with exact specifications.
- `yaml_text`: YAML text read into and written from the library's trees,
  through `serde_yaml` and `serde_yml`, with the results of those crates
  named in the contracts.

`app/` holds the program around the library: file and network I/O, the
typed configuration files, and the terminal loop.

# port-shadow

An SSH port-forwarding daemon that mirrors the remote host's listening TCP
ports on the local machine, split in two:

- `src/` is the library, verified with Verus: parsing the output of `ss` /
  `netstat`, the `ssh` argument lists, the configuration and its defaults and
  command-line overrides, the set of active forwards, the decisions of each
  poll cycle, and the state of the terminal interface (table, log panel,
  keys) with the texts it shows.
- `app/` is the program around it: command line (clap), reading the config
  file (serde, toml), logging, running `ssh` and binding local ports (tokio),
  and drawing the terminal (ratatui, crossterm).
- `tests/` runs the library on concrete inputs.

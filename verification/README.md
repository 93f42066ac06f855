# portctl

A command-line client for the Portainer API: containers, stacks, images,
volumes, networks and endpoints, from the terminal.

## Layout

- `src/`: the library, verified with Verus.
  - `argparse.rs`, `help.rs`, `cli.rs`: the command-line grammar, its parser
    and help text.  `cli::portctl_grammar` states the whole grammar and
    `build_cli` builds exactly it; `parse_outcome` states what a command line
    gives against a grammar, so together they fix what every command line
    of `portctl` gives.
  - `config.rs`: the configuration file (TOML) and the environment's
    overrides; writing a configuration and reading it back gives it again.
  - `json.rs`, `render.rs`, `text.rs`, `units.rs`: the JSON answers of the
    API as plain values, and the building blocks of the printed tables.
  - `actions/`: per command group, what is read from the answers, what is
    printed, and the paths and bodies of the requests.
  - `stream.rs`: Docker's multiplexed log and exec streams.
  - `client.rs`, `encoding.rs`, `prompt.rs`: request URLs, percent-encoding,
    and confirmation answers.
- `app/`: the program around the library: HTTP (reqwest), files, the
  environment, the editor, the terminal.
- `tests/`: tests of the library.

# atomberg

Control Atomberg smart fans over the local network, with the decisions proved
correct by Verus.

- `src/` is the verified library:
  - `config/`: the configuration (devices keyed by device ID, groups in an
    `IndexMap`) and its edits: aliases and groups, each with a contract that
    states the resulting devices and groups exactly.
  - `protocol/`: beacon and status packets, the status state decoding, and
    the JSON command builder.
  - `device/`: matching a reported state against the requested one, resolving
    a send target, and the step functions of the discovery and send
    workflows.
  - `cli/`: the command line as values and what each `alias` and `group`
    subcommand does.
  - `laws.rs`: properties that relate several operations, proved.
- `app/` is the program around it: clap, the TOML file, UDP with tokio, and
  printing.
- `tests/` runs the library on concrete values.

A status report's state number carries no brightness, so a `send` that sets
only the brightness is never confirmed by a status report and ends with
`Timeout waiting for status`.

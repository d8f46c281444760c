# rsagent

A command-line operations agent: a language model answers questions about a
host by calling a fixed set of read-only tools (memory, disks, systemd units,
the journal, and a few local service endpoints) declared in a TOML
configuration.

## Layout

- `src/` is the verified library. Each function carries a `requires` /
  `ensures` contract over spec functions and views, proved by Verus:
  configuration checks (`config`), the tool registry (`registry`), the tool
  parameters (`params`), the per-tool decisions and output formatting
  (`backends`), the session's line handling (`agent`), errors (`error`) and
  the text primitives they rest on (`text`). Functions named `law_*` state
  properties that span several functions.
- `app/` is the program around it: argument handling, file and D-Bus access,
  the journal reader, the model client, and the serde/clap/thiserror copies
  of the library's types.
- `tests/` runs the library on concrete values.

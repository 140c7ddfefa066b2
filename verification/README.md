# ccbridge

A bridge between the hooks of a coding agent and the desktop. It collects what
the agent's sessions on one machine are doing, asks the user about tool calls
through notifications, a control socket or a paired device, and hands the
decisions back.

The decision logic is verified with [Verus](https://github.com/verus-lang/verus):
every function of `src/` has a contract, and the laws of the library stand there
as public proof functions named `law_…`.

## Layout

- `src/state/`: sessions, pending approvals, tokens, and what each message leads to.
- `src/permission/`: patterns, allow and deny lists, their cascade, decisions, and
  approvals for good (`additions/`: derived patterns, settings, audit log, undo).
- `src/proto/`, `src/lines.rs`: messages as JSON documents and as lines.
- `src/json.rs`, `src/json_form.rs`, `src/json_order.rs`: JSON values, the forms in
  which a record may be written, and the order of keys in saved settings.
- `src/ingest/`: hook events, the hook command, transcripts and token counts.
- `src/emit/`: notifications, control socket, status page, devices.
- `src/config.rs`, `src/setup.rs`, `src/cli.rs`: configuration, registration of the
  hooks, the command line.
- `src/outside.rs`: the calls into other crates, with what is relied on of each.
- `app/`: the daemon `ccbridged` and the hook command `ccbridge-hook`: sockets,
  files, the session bus, Bluetooth.

## The agent's names

The library takes the agent's names as a value (`agent::AgentNames`). The programs
in `app/` have them set when they are built, by environment variables:

| variable | meaning | default |
|---|---|---|
| `CCBRIDGE_AGENT_PRODUCT` | full name, in notifications | `Coding Agent` |
| `CCBRIDGE_AGENT_NAME` | short name, in notifications | `Agent` |
| `CCBRIDGE_AGENT_DIR` | settings directory, in the home directory and in projects | `.agent` |
| `CCBRIDGE_AGENT_CONFIG_VAR` | variable that names the settings directory at run time | `CODING_AGENT_CONFIG_DIR` |

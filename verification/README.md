# ember

Ember runs microVMs: it allocates their addresses, sets up their networks and
disks, finds kernels for them, starts and stops them on Linux and macOS hosts,
and serves requests inside a guest.

`src/` is the library, verified with Verus. It decides: what an address is, what
a command is called with and what its output means, which phase of a piece of work
comes next and what is undone where one fails. It does no input or output.

- `text`, `paths`, `command`, `error`, `plan`: strings, paths, commands to run,
  errors, and work done in phases.
- `config`, `host`, `kernel`, `image`, `state`: what is configured and recorded.
- `network`: addresses, TAP devices, address translation and egress rules.
- `dm_thin`, `zfs`: disks on a Linux host.
- `linux`, `macos`: what is particular to a host.
- `emberd`: the daemon inside a guest.

Work with outside effects is a `plan::Plan`: an enum whose value says what to do
now. Whoever runs it does that and hands the reply to `plan::Run::advance`.
Proof functions named `law_*` state what holds of whole runs, tables and texts.

`app/` runs the plans: it starts processes, reads and writes files, and holds the
stored forms of the records. The daemon takes the name of the agents' program
(`--agent-program`) and of the file of a checkpoint's manifest (`--manifest-file`)
as options, and starts without either. `tests/` runs the library on given values.

Functions marked `#[verifier::external_body]` and `assume_specification` items are
believed, not proved. Each says above it what it claims of the function it calls.

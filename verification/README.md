# tmuy

A terminal multiplexer for agents: one named session per task, each a process
tree behind one pseudo-terminal, with no panes and no windows. Sessions are kept
in files under `~/.tmuy`, can be attached to and detached from, and are driven
from the command line or over a local socket.

`src/` is the library: what is decided and computed, with contracts that Verus
proves.

- `store`, `lookup`: the sessions, how they are named, created, found, listed and
  changed; `--fs` and `--net` flags.
- `laws`: what holds of the sessions as a whole.
- `sandbox`: the command line that a session is run by, under `bwrap` where it is
  restricted.
- `runtime`: the host of a session and its clients. Detach keys, signals, the
  replayed output, the files that are followed, the wait for a host.
- `request`, `rpc`, `cli`: what requests and commands lead to, and what is printed.
- `model`, `events`, `error`: the data.
- `text`, `path`, `env_map`: the small operations that the rest is written with.
- `outside`: what comes from other crates. Its contracts are believed, not proved.

`app/` is the program around the library: files, sockets, terminals, processes,
JSON and the parsing of the command line.

`tests/` runs the library.

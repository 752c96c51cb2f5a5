# herdr_runtime

The hub-side runtime registry of Herdr, verified with Verus: which Herdr
servers (the local one, other sessions on this machine, remote hosts over
SSH) the hub knows, their live status, their live connections, and the agent
inventory merged across them.

- `src/` is the verified library. Each public function states what it
  returns and how it changes its arguments; the laws that span several
  functions are public proof functions (`lemma_*`).
  - `runtime`: the registry and its invariant (local first and connected,
    unique ids, valid members), membership rows for disk.
  - `ids`: runtime id validation and scoped targets (`runtime/target`).
  - `inventory`: agent rows, their annotation with a runtime's identity and
    the merged agent list.
  - `connect`: what to connect to, the bridge command, and the table of
    live connections.
  - `cache`: the last agent snapshot of each remote runtime.
  - `hub`: the `runtime.*` API requests as steps from state and outcome to
    next state and reply.
  - `cli`: the `herdr runtime` command line.
  - `persist`, `schema`, `text`: membership rows, API shapes, string helpers.
- `app/` is ordinary Rust around it: JSON forms, the membership file, the
  SSH bridge, socket connections and the request loop.
- `tests/` runs the library on concrete values.

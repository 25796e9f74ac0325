# clarinet_tooling

The decisions behind the Clarinet developer tools, written and proved in Verus.

| Module | What it decides |
| --- | --- |
| `text`, `json` | Texts, decimal numbers and JSON values |
| `contracts` | How contracts are named and resolved, and the snippets that call them |
| `simnet` | The operations that a session of the simulated network is asked for |
| `dap` | The debug server that a test runner drives with newline-delimited JSON |
| `replay` | How a transaction of the network is replayed and printed |
| `lint` | The lint on `with-stacking`, which Clarity 6 renamed to `with-staking` |
| `lsp` | What the bridge between an editor and the language server passes on |

`dap::server` is a state machine: `DapServer::step` takes an event and says which action
comes next. `dap::laws` states what holds of it whatever its clients do: every request is
answered under its own identifier, the handshake with an editor comes before the first
request, a client or an editor that goes away does not end the
server, and what is run on the session leaves the sender as it was.

`app/` carries the actions out: sockets, threads, channels and the language server. It
reaches the session, the debugger and the state of an editor through traits.

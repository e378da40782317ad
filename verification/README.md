# solx_actions

Action execution for solx: an action is a row with a dispatch kind, and this
library decides what executing, saving, listing or stopping one means. Every
decision is a function with a contract that Verus proves.

- `src/` is the verified library. It takes and returns plain values: the JSON
  `Value`, texts, bytes, actions and runs. Time, random bytes, ciphers, base64 and
  UUIDs come from std and from outside crates behind declared contracts; each such
  item says in its doc comment what is taken on trust.
- `app/` is ordinary Rust around it: processes, HTTP, sockets, the SQLite
  database, the OS credential manager and the WebAssembly runtime.
- `tests/` runs the library on concrete values.

Where to start reading:

| Module | Subject |
|---|---|
| `manager`, `store`, `invocations` | saving, reading, executing and stopping actions |
| `mask` | redaction of credentials and its inverse |
| `secrets` | scoped, encrypted secrets and references into the keyring |
| `execution`, `net` | commands, webhooks and the allowlists |
| `internal` | the built-in operations |
| `loopback`, `oauth_loopback`, `loopback_control` | widgets and OAuth logins |
| `dispatcher` | routing by kind, schedules, webhooks, commands |
| `script`, `wasm` | script stages and guest components |

# pocketdevos

The backend of PocketDevOS, a browser-based development workspace for
Android (Termux): terminal sessions over WebSockets, a file-system API, one-shot
shell commands and an assistant chat streamed from an OpenAI-compatible API.

The decisions the server makes are a library verified with Verus (`src/`):

- `auth` – the random access token, where a request carries it, which
  requests pass;
- `security` – the deny-list of sensitive paths and the workspace guard;
- `pty`, `table` – the table of terminal sessions and how sessions are set up.
  The sessions and the running chats are kept in `KeyedTable`, a vector of
  key–value pairs whose keys are kept distinct by a type invariant: vstd's
  specification of `HashMap` proves nothing useful for `String` keys, so a map
  with a proved contract takes its place;
- `terminal` – what each socket message asks of a session;
- `fsops` – directory listings, size limits, names, times, create requests;
- `shell` – command requests, their limits and their responses;
- `tools` – the assistant's tools: what a call asks for, and its reports;
- `sse`, `chat` – decoding the model's event stream, the chat's events, its
  configuration and replies;
- `json` – what the library reads out of JSON documents (through `serde_json`);
- `server` – port and listen address;
- `text` – the string functions the others are built from.

`app/` is the server around it (Axum, Tokio, portable-pty, reqwest): it does
the I/O and hands the library plain values. `tests/` runs the library.

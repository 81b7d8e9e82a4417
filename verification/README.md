# browser_terminal

A local terminal server for the browser: each browser tab opens a WebSocket to
its own pseudo terminal running the user's shell.

The crate is split in two:

- `src/` is the library, verified with Verus. It holds the request guard
  (the Host and Origin policy against DNS rebinding, then Basic Auth), the
  parser of `~/.browser-terminalrc`, IP address parsing and printing, the
  session store, the "new window" request, the mapping of request paths to
  embedded files, and the decisions of a terminal session (what each
  WebSocket or pseudo-terminal event leads to). Calls into `http`, `base64`,
  `rand`, `open` and `mime_guess` go through small trusted wrappers whose
  contracts say what the library relies on.
- `app/` is the program around it: command-line arguments, the Axum router
  and middleware, CORS, the pseudo terminal, the WebSocket loop and file
  access.

`tests/` exercises the library on concrete values.

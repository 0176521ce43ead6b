# zed_http

Support for `.http` request files in the Zed editor, around the
[httpyac](https://httpyac.github.io/) CLI, with its logic verified by Verus.

`src/` is the verified library:

- `text` — the character model: Unicode whitespace, ASCII upper-casing,
  `str::lines`-style line splitting, decimal rendering.
- `request_index` — finds the requests of a document and the request that
  encloses a line.
- `documents` — the open documents, whose requests are kept in step with
  their text.
- `exchange`, `response_format` — httpyac's exchange and the response text
  shown in the editor (full or headers only).
- `cache` — the last response of each request.
- `backend` — inlay hints, code actions, hover text, commands and response
  file names of the language server.
- `cli` — the `httpyac-rs` flag surface and the command line it forwards to
  `httpyac`.
- `send`, `error` — how a request is sent through httpyac and how that fails.
- `extension` — how the editor extension finds the language server.
- `dash`, `extern_calls` — the trusted declarations of `dashmap`, the clock,
  `url` and `std::path`.

`app/` holds what runs around it: the `httpyac-rs` binary, the language
server's protocol handlers (tower-lsp), the processes and files, serde and
clap, and the editor extension's entry points.

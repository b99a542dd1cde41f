# rs-rok

A tunnel that exposes local HTTP, HTTPS and TCP services through an edge relay.

- `src/` is the verified library: the binary frame protocol (`frame`, `wire`,
  `encode`, `decode`, `laws`), the frame builders used by the edge worker
  (`worker`), and the decisions of the command-line client (`proxy`, `tunnel`,
  `tcp_client`, `deploy`, `cli`), with the text helpers they share (`text`).
- `app/` is the command-line program around it: argument parsing, the settings
  file, sockets, websockets, HTTP calls, and the WebAssembly bindings.
- `tests/` runs the library on concrete frames and inputs.

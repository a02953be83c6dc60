# host-input-helper

The helper between the rack plugin and touch clients, as a verified library
(`src/`) and the program around it (`app/`).

- `src/json.rs` — the JSON model that the helper reads (numbers kept exact),
  and the parsing of text into it with serde_json.
- `src/text.rs` — decimal numbers and JSON string literals of the wire format.
- `src/scene.rs` — the scene cache and the resolution of targets to screen
  positions, with the laws that a snapshot is read back as it was sent.
- `src/server.rs` — the client protocol: replies to hello, intents and module
  actions; every intent is answered once with its `seq`.
- `src/injector.rs` — the injector interface, the logging injector and the
  plan of input steps that carries out an intent.
- `src/bridge.rs` — the plugin link: snapshots, the panel asset cache,
  numbering and settling of module actions.
- `app/` — sockets, the async loops, writing frames back as JSON text, and
  input synthesis with enigo (including the floating-point pixel and
  scroll-tick arithmetic).

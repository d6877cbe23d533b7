# emucap

A verified library for capturing and controlling emulators, written in Verus.

- `src/live` talks to an emulator adapter: one call over a connection, tools on top of it, input
  that is always lifted again, probes, dumps, and taking over a launch that returned.
- `src/neogeo`, `src/nds` and `src/n64` are bridges to MAME, DeSmuME and Mupen64Plus. The first two
  speak to a GDB stub through the trait `gdb::GdbTransport`; the third says step by step what to
  ask of the core.
- `src/media_graph.rs` and `src/m3u.rs` identify disc images by the files that they are made of.
- `src/mcp_stdio.rs` and `src/mcp_result.rs` are the transport and the results of an MCP server.
- `src/json.rs`, `src/text.rs`, `src/encoding.rs` and `src/path_safety.rs` are what the rest is
  built on.

What touches files, sockets, processes or the emulator libraries stands in `app`. The functions
there do what the library asks for and tell it what came of it.

What the library takes on trust from other crates and from `std` are the functions marked
`external_body`, each with a contract and a comment that says what it claims.

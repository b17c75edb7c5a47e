# TanOS

A decentralised peer-to-peer mesh node. Every device that runs it becomes a node of a mesh
that needs no provider, router or central server: nodes announce themselves with signed
beacons, users approve each other, and what they then write is encrypted end to end.

- `src/` is the library: identity, cryptography, wire formats, peer and routing tables,
  delivery and forwarding of messages, the store, the rules of friendship between nodes,
  and what the dashboard, its console and the command line answer. It is written in Verus:
  functions state what they do in their contracts and are proved to do it. Of a reading of
  the clock nothing is stated; what is made of a reading is. What comes
  from the outside crates (`ed25519-dalek`, `x25519-dalek`, `chacha20poly1305`, `rand`,
  `hex`, `uuid`, `serde_json`) is called through small functions whose contracts are
  trusted; their doc comments say what is claimed.
- `app/` is the program around it: sockets, files, SQLite, libp2p, the web server and the
  command line parser.
- `tests/` runs the library with the real crates.

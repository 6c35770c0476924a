# radio

An audio room over WebRTC: a few speakers, any number of listeners, and a server
that hands each speaker's audio on to everyone else. Peers talk to the server
over a web socket at `/ws`.

- `src/` is the library, verified with Verus: the messages on the socket, the
  room and its events, the order of calls by which an offer is answered or made
  and a peer is brought in, the names of tracks, the codecs, the set-up of the
  server. `src/laws.rs` holds what is proved of the room as a whole.
- `app/` is the server around it: sockets, tasks, connections, arguments. It
  does what the library asks for and reports how it ended.
- `tests/` runs the library, with the real `webrtc`, `serde_json` and `uuid`.

Run the server with `--addr` to choose the address (`0.0.0.0:29874` otherwise),
and with `--prod` for TLS, which takes `CERT_PATH` and `KEY_PATH` from the
environment.

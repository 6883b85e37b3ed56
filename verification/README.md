# server

The decision logic of a server of a coffee-points system, verified with
Verus. Servers keep one distributed mutex per user account (the
Ricart–Agrawala algorithm), exchange small binary packets, and route them
through a packet dispatcher.

- `src/dist_mutex/`: the mutex state machine (`DistMutex`), its packets and
  their byte format, and timestamps.
- `src/packet_dispatcher/`: the dispatcher (routing of mutex and commit
  packets, connected servers, queued points), its packet format and errors.
- `src/network/`: framing of messages on a byte stream, and the decisions of
  a connection handler.
- `src/client_connections.rs`: prepared client orders and their commits.
- `src/server_id.rs`: servers and addresses as plain values.
- `app/`: the program: configuration, TCP connections and the event loop
  that feeds the library.

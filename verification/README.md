# tf2_server_relay

A relay hub that connects up to four TF2 game servers over a small binary
TCP protocol and passes chat, deaths, joins, healing and damage between them.

`src/` is the verified library:

- `protocol` — packet header, framing, CRC-8 checksum, length-prefixed
  strings and the streaming packet decoder, with round-trip laws.
- `wire`, `events` — the field layouts of every event record, their parsers
  and writers, and the event catalogue (`Event`).
- `relay` — the routing hub: connected servers, player registrations,
  broadcasts, direct routing, the event history and the traffic counters.
- `connection` — a game-server session: the handshake verdict and what each
  incoming event does to the hub and sends back.
- `config`, `error` — configuration defaults and validation, error codes.
- `tui` — the monitoring interface's key handling, feed and panel text.
- `outside` — the trusted declarations of the `bytes` buffers and the few
  std functions the library calls.

`app/` holds the program: arguments, the TOML settings file, logging, the
tokio server and connection loops, and the ratatui drawing.

# orcar

Clock synchronisation between a client and a server over UDP.

- `src/protocol.rs`: the 72-byte wire format of a message (phase code and
  four timestamps, little-endian), its encoding and decoding, and the
  stamping of a phase's timestamp, with the round-trip laws proved.
- `src/client.rs`: the client's decisions on a server reply: the best-round
  windows and the clock offset derived from a round.
- `src/playback.rs`: position in a looping track on the synchronised clock
  and the number of samples to skip to reach it.
- `src/helper.rs`: the machine clock in nanoseconds since the Unix epoch.
- `app/`: sockets, threads and channels around the library
  (`server`, `client`, `scan`).

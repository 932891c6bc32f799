# stardust_quic

A QUIC transport layer for the Stardust multiplayer networking library, with
its protocol logic verified by Verus.

## Layout

- `src/` is the verified library.
  - `numbers`: variable-length integers and sequence numbers, read and written
    through `bevy_stardust_extras`, with their byte-level models.
  - `datagrams`, `segments`, `receiving`: datagram and segment headers, their
    encodings and decodings, and the per-channel sequence counters.
  - `messages`, `channels`: how outgoing messages are sent according to the
    consistency of their channel.
  - `framing`, `streams`, `reading`: length-prefixed framing on streams, the
    decisions around stream reads and writes, and the opening header of
    incoming streams.
  - `endpoint`, `driver`, `peers`: an endpoint's lifecycle, the connections
    it holds, the decisions of its driver for each event it receives, and
    the routing of received packets to peers by address.
  - `builder`, `runtime`, `logging`, `futures`, `misc`: the endpoint builder's
    type states, runtime settings, log identifiers, raced futures and channel
    id widths.
- `app/` is ordinary Rust around the library: sockets, threads, channels,
  the driver's async loop around `quinn-proto`, and the calls into `quiche`
  and `boring`.
- `tests/` runs the library on concrete values.

# netbase

Building blocks for small network services, verified with Verus.

- `src/network/addr.rs`: IPv4 addresses as dotted-decimal text and as
  numbers; the text is specified as four octets in shortest decimal, and
  writing then reading an address is proved to give it back.
- `src/network/udp.rs`: the decisions of the UDP server (which resolved
  address to bind, what a datagram does to the peer table, when a silent
  peer is closed), with laws over a model of the peer table.
- `src/storage/`: named tables of key/value pairs; `MemTable` keeps them in
  `dashmap` maps, and its reads, writes and deletes are proved against a map
  of maps.
- `src/float.rs`: floats kept as `f64` bit patterns, compared as `f64` is.
- `src/rd.rs`, `src/sys.rs`, `src/value.rs`, `src/error.rs`: random choice,
  host facts, the stored value and the error type.
- `app/`: sockets, websockets, Redis, the clock and the host, around the
  library.

# mcutt

MQTT v3.1.1 client packets, verified with Verus.

- `src/encoding`: the byte-level building blocks: the variable length remaining length,
  big endian numbers, length prefixed UTF-8 strings and the wildcards of topics.
- `src/v3/packets`: the packets of the protocol. For each packet the contracts state the bytes
  it writes and what parsing a buffer gives, and lemmas relate the two: what is written is read
  back, whatever bytes follow it (a CONNACK writes its body only, and is read back after its
  fixed header).
- `src/v3/header.rs`, `src/v3/publish.rs`, `src/packet.rs`: strings, buffers, identifiers
  and fixed headers checked when they are built or decoded.
- `src/slab.rs`: a bounded store of values at stable indexes; freed indexes are used again.
- `src/outgoing.rs`: PUBLISH packets with QoS 1 or 2 kept in a slab, identified by their index
  plus one.
- `src/sync.rs`: the buffer that collects whole packets from a stream of bytes; it decides
  how many bytes to read, the caller reads them, and no byte read at a header fill is the end
  of the stream. A lemma states that a stream of written packets is handed out packet by packet.
- `app/`: the synchronous connection over a reader and a writer.

# protocol

Wire protocols of a message broker, written in Verus: every encoder and
decoder states in its contract the bytes it writes or the value it reads,
and the library proves what a read gives back of a write.

- `src/mqtt` — MQTT 3.1.1 and 5.0 packets (`mqttv4`, `mqttv5`), the codecs
  that frame them (`codec`, `codec_connect`, `framing`), the variable byte
  integer in closed form (`vbi`), a second parser built on byte operations
  (`v2`) and the parts of the 3.1.1 packet model (`adapter`).
- `src/placement_center.rs` — the kinds of cluster and their names.
- `src/nats` — the NATS text protocol: control lines, payloads and the
  decoder's state between reads.
- `src/storage`, `src/storage_engine` — the length-prefixed frames of the
  storage protocols and their message kinds.
- `src/robust.rs`, `src/protocol.rs`, `src/mqttv4` — the protocols the
  broker speaks and the wrappers that carry their packets.
- `src/buffer.rs`, `src/text.rs` — byte buffers and text, with the calls
  into the `bytes` crate and std that the rest builds on.
- `app/` — tokio-util framing, JSON, rkyv and protobuf around the library.
- `tests/` — tests of the library on concrete values.

## What the MQTT codecs do not read

Some packets are read by code that this library does not have, and the
codecs refuse them:

- SUBACK of MQTT 3.1.1: refused with `InvalidPacketType(9)`, and not written.
- DISCONNECT read by `MqttCodec` at level 3 or 4: refused with
  `InvalidPacketType(14)`.
- MQTT 5.0: CONNECT, CONNACK, PUBREC, PUBCOMP, SUBACK, UNSUBSCRIBE, UNSUBACK
  and DISCONNECT are refused with `InvalidPacketType` and the packet's
  number, and not written; PUBLISH, PUBACK, PUBREL, SUBSCRIBE, AUTH, PINGREQ
  and PINGRESP are read and written.
- A CONNECT at protocol level 5, whose properties the library does not
  read: `connect_read` gives `InvalidProtocolLevel(5)`, and `MqttCodec`
  answers `InvalidProtocolName`.

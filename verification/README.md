# shiguredo_mqtt

A sans-I/O MQTT client library for MQTT v3.1.1 and v5.0, written in Verus:
the packet codecs, the streaming decoder and the session state machines carry
contracts that Verus proves.

## Layout

- `src/codec`: the wire primitives (Variable Byte Integer, UTF-8 strings,
  binary data, QoS, limits) with their encodings as spec functions.
- `src/v5`, `src/v311`: one module per packet type; each states its wire form,
  what `encode` returns and writes, and what `decode` returns, and proves that
  decoding a written packet gives it back (`lemma_*_roundtrip`).
- `src/v5/property`: MQTT v5.0 properties and property lists.
- `src/decoder.rs`: the streaming decoder, as a function from its state and
  the bytes fed to the next state and packet; its laws say that fragmented
  input and consecutive packets decode as if each packet were fed alone, and
  `lemma_fragmentation` that a stream of well-formed packets of the decoder's
  protocol version (MQTT v5.0 or v3.1.1), split anywhere, comes out as the
  same packets, in order, whether fed at once or chunk by chunk;
  `lemma_fragmentation_of_written_packets` says the same of the wire forms
  that the MQTT v5.0 encoders write.
- `src/v5/packet/receive.rs`: the laws that tie the codecs to the decoder;
  `lemma_packet_written_reads_back` says what a successful `encode` writes,
  how long it is, and that `decode` reads it back.
- `src/state`: Packet Identifiers, QoS flows, flow control, Keep Alive, Topic
  Aliases, subscriptions, enhanced authentication and the session that ties
  them together.
- `tests`: executable tests of the library.

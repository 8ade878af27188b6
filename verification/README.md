# flowscope

Verified building blocks for passive flow monitoring, written in Verus.

- `extract`: flow keys from Ethernet frames (5-tuple, GRE inner flows,
  IPv6 flow labels, caller tags), with laws that bidirectional keys merge
  both directions and directional keys keep them apart.
- `http`: HTTP/1.x heads, body framing (including request-smuggling
  policies), a sans-IO proxy parser whose events carry the exact wire
  bytes they consumed, pairing of requests with responses, access-log
  aggregation and JA4H fingerprints.
- `http2`: frame parsing and writing, HPACK decoding and encoding with a
  proved encode/decode round trip, Huffman coding with a proved round
  trip, stream events and gRPC helpers.
- `ftp`: control-channel line framing, command and reply parsing, and
  session state.
- `icmp`: ICMPv4/ICMPv6 message decoding, including the flow an error
  message quotes, and family detection.
- `emit`: what the log formats compute (CSV quoting, Zeek ids, EVE
  severities, NDJSON event selection).

`src/` is verified; `app/` holds the log writers that own an output sink
and the floating-point rates. Calls into `etherparse`, `httparse`, `sha2`
and `hex` go through small trusted wrappers whose contracts state what
those crates do.

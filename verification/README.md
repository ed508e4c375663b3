# audio2mqtt

`audio2mqtt` turns speech into transcripts. It takes audio from a TCP stream of
raw PCM (16 kHz, mono, signed 16-bit little endian), from the speakers of a
TeamSpeak server, or from REST requests; cuts it into segments of speech;
transcribes them; and delivers the transcripts as JSON to standard output, a
JSONL file, webhooks and an MQTT broker. A web interface administers it.

- `src/` is the library: what the service decides and computes, written in Verus
  and verified. The contracts speak of the views of the types (`…View`) and of
  spec functions beside the code. Modules whose names end in `_laws` state what
  holds across several functions.
- `app/` is the program around the library: sockets, files, HTTP, the speech
  recogniser and the voice detector, and arithmetic in floating point.
- `tests/` are the tests of the library.

Where a function needs a random identity, an identifier or the time, there is
one whose name ends in `_with` or `_at` that takes it as an argument and whose
contract is exact, and one that makes the outside call and says what holds
whatever came back.

Calls into outside crates from the library stand in functions marked
`#[verifier::external_body]`; their contracts are believed, not proved. They are
the Base64 functions in `encoding`, the TeamSpeak identities in `identity`, the
WAV reader in `wav`, identifiers and the clock in `jobs`, the reading of a stored
configuration's keys in `config`, and Unicode lower case in `text`.

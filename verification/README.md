# relay_middleware

Middleware of a relay between agents and language models, verified with Verus.

- A redaction backend takes personal data out of payloads: it removes, hashes, masks or replaces the
  texts of a JSON value, everywhere or at the target paths of its configuration, and decides what
  becomes of requests, responses, tool payloads and events.
- Callbacks written in JavaScript answer with an envelope. The library says what becomes of each
  reply: the value, the fallback, the error, and what is logged.

`src/` is the verified library. The parts of the world that it does not hold (the JavaScript engine,
serialization, provider codecs, the default masks of detectors) come in as arguments: as what a call
returned, or as a value of a trait that makes the call. `sha2` and `regex` are called from the
library; what is claimed of them stands at the calls, in `src/digest.rs` and `src/matcher.rs`.

`app/` registers the callbacks with the runtime: it calls JavaScript through N-API, converts values
with serde, and logs.

`tests/` runs the library on concrete values.

# kumir3_shared

The shared core of the Kumir 3 toolchain, written in Verus: every function
under `src/` carries a `requires`/`ensures` contract that Verus proves.

- `lexer`: the tokenizer of the Kumir language (numbers, strings and their
  escapes, raw strings, interpolation, embedded Rust blocks, comments), with
  the grammar stated as spec functions in `lexer/model.rs`.
- `f128`: a software float in the IEEE binary128 layout (inexact results
  are truncated, not rounded to nearest): arithmetic, comparison and total
  order, rounding, conversions, decimal literals, and the transcendental
  functions built on them.
- `constants`: keywords, operators, builtin names and math constants.
- `net`: HTTP messages (headers, requests, responses, parsing and writing
  them), the client's URL, redirect and chunked-body logic, URL and Base64
  codecs, the values handed to programs (dictionaries kept in key order), a
  JSON reader and writer, the library's text functions as programs call
  them, ring buffers, and rate limiting.
- `iostream`: the decisions of token reading from a stream.
- `timer`: measuring intervals from a mark, the clock being read outside.
- `text`: string helpers that the modules share.

`app/` holds what Verus does not see: file and network I/O, TLS, async
plumbing, and the few steps that need binary floating point. `tests/` runs
the library with the real outside crates linked.

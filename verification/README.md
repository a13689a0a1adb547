# obscura

The decisions behind a scripted browser page, verified with Verus.

A page is driven by JavaScript that a script engine evaluates. This library writes the scripts and
reads the replies. It performs no I/O: an operation says what to do next, and its caller does it.

- `src/page.rs`, `src/element.rs`: the operations of `Page` and `Element`.
- `src/script.rs`: the scripts, and proofs that text put into them stays in its string literal.
- `src/literal.rs`, `src/json.rs`: JavaScript string literals and JSON strings.
- `src/keyboard.rs`, `src/typing.rs`: keys, and typing text key by key.
- `src/reply.rs`, `src/double.rs`: what a script returned, and node ids that come as
  floating-point numbers.
- `src/decimal.rs`, `src/string.rs`, `src/step.rs`, `src/error.rs`: the rest.
- `app/`: `Page` and `Element` over a real engine, with their clock, sleeps and event loop.

What is taken on trust of `serde_json` stands in `src/reply.rs` and `src/json.rs`, and of the
standard library in `src/string.rs`.

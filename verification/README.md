# Janitor

Janitor compares the secrets of an Application across its Environments and edits them
in place. This crate is its core, written in Rust and proved with Verus.

- `src/` is the verified library. It makes every decision: the browser Sign-in with PKCE
  and a nonce, the account, role and secret walk, the brokered Credentials, the retry
  ladder, the all-or-nothing load with its role recovery, the compare-and-swap write,
  and the edits of the Config.
- `app/` makes the calls: the AWS SDK, the loopback socket, the browser, the terminal
  and the foreign bindings. It hands the outcomes to the library and does what the
  library says next.
- `tests/` runs the library on concrete values, with the real crates linked.

Secrets are held in buffers that are wiped on drop (`zeroize`, `secrecy`). The crates
the library calls, and what it relies on in them, stand in `src/outside/`, with the lossy
reading of bytes and the formatter calls of the standard library; two of its string
operations stand at the head of `src/text.rs`.

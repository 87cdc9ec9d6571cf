# continuwuity

The account, authorisation and room-event rules of a Matrix homeserver, written in Rust and
verified with Verus.

- `src/` is the library. Its functions state what they do in contracts. The contracts are
  proved, except those of the wrappers around functions of other crates and of the standard
  library (marked `external_body`): these are believed, and the comment above each says what
  it claims of which function. Public proof functions whose names begin with `law_` state what
  holds across functions.
- `app/` is the server around it: it finds out what the library asks for (what is stored, what
  other servers answer, what the time is) and does what the library decides.
- `tests/` runs the library on concrete values.

Work that needs the outside world is a conversation. A type such as `Upgrade` or `JoinRemote`
holds what is known so far; a method says what has to be found out or done next; whoever runs
it does so, notes the answer, and asks again until the method says that it is done.

What is kept lives in columns (`src/store.rs`), maps that are walked in key order and remember
which rows have changed.

# UnionDesk

One keyboard and mouse, one clipboard and one drop box shared by the machines on a desk.

- `src/` is the verified library: wire formats, the trust store, discovery, file transfer
  bookkeeping, the input platform rules and the engine, a state machine from events to
  actions. Every type has a model (`...Model`) that its contracts speak of; public proof
  functions named `law_...` state what holds across functions.
- `tests/` runs the library on concrete values.
- `app/` is the program around it: sockets, files, the clipboard, the input hooks, the
  floating point geometry and the window.

## How the library trusts the outside

Calls into other crates stand in small functions marked `external_body`, or in
`assume_specification` items, each with a comment that says what is believed of the call:
`clock`, `encoding`, `identity`, `noise`, `clipboard`, `text`, `engine::snapshot` and
`engine::pairing` hold them all. Results that take pages to describe (a digest, a sealed
record, a PNG file) are given a name that contracts use.

## Reading order

`protocol`, `codec` and `session` for the wire; `config`, `discovery` and `transfer` for
what is remembered; `engine::state` for what the engine knows and asks for,
`engine::rules` for its transitions, `engine::dispatch` for what each event does, and
`engine::consistency`, `engine::trust` and `engine::laws` for what always holds.

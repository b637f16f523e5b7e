# uchi_pulse

Uchi Pulse is a small home signalling system: button nodes (Pico W) send
EVENTs naming an action over UDP to a hub, which records them, applies the
action's state changes and answers with an ACK; both ends are configured
over a USB CDC line protocol.

This crate is the verified core of the system, written in Verus:

- `src/common` — the shared UDP and CDC wire formats, identifiers and JSON
  rendering.
- `src/node` — the node: GPIO gesture detection, the UDP protocol with event
  identifiers, retries and ACK matching, the stored configuration and its
  flash record, and the CDC endpoint.
- `src/hub` — the hub: device communication state, action validation and
  state changes, datagram processing as a sequence of steps, the CDC
  endpoint and its configuration rows, and its command-line settings.
- `src/control`, `src/settings` — the logic of the desktop tools: the CDC
  client framing and request building, record checks, labels and lists.

Every public function carries a contract. Properties that span several
functions are proved as `law_*` proof functions. Datagram processing on the
hub runs as steps between which the program consults its database; each
step's contract is a named predicate (`received`, `device_step`,
`lookup_step`, `validation_step`, `insert_step`, `run_step`), and the laws
about a datagram's whole path are proved over chains of them. What the
database itself does (the transaction that replaces the configuration
tables) is outside the library.

`app/` is the hub program around the library: the UDP socket, the SQLite
database, the CDC serial device, and the serde decoding of messages into the
library's types. `tests/` exercises the library on concrete values.

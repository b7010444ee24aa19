# stomp

A client library for the STOMP messaging protocol, verified with Verus.

- `src/` is the verified library: headers and their lookups (`header`),
  heart-beat negotiation (`connection`), frames (`frame`) and their wire
  format (`codec`), subscriptions, the builders for sessions, messages,
  subscriptions and transactions, the options that adjust them
  (`option_setter`), and the session state machine (`session`). The session
  never touches a socket or a clock: the transport tells it what happened and
  carries out the actions it queues (`Session::take_actions`).
  `laws` holds the properties that span several operations.
- `app/` runs a session over a tokio stream: connecting, framing with the
  library's codec, the heart-beat timers, and the grace period on received
  heart-beats, which is computed in floating point.
- `tests/` exercises the library on concrete values.

# tcp_backend

The decisions of a TCP backend that runs either on async-io's reactor or on
a user-space network stack, verified with Verus.

- `src/readiness.rs`: the readiness-driven poll of a non-blocking socket
  operation (read, write, flush, vectored write), as a decision table from
  the caller's report to the next action, with laws over whole polls.
- `src/decimal.rs`, `src/ipv4.rs`: reading a signed 32-bit integer and a
  dotted-quad IPv4 address from text, exactly as std's `from_str` does.
- `src/config.rs`: the user-space stack's settings from its environment
  variables and their defaults.
- `src/netstack.rs`: what the user-space stack backend answers on its own.
- `app/`: the socket calls of both backends, driven by the library.

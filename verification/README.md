# trust_dns_proto

The deciding core of a DNS protocol library, verified with Verus.

- `src/exchange.rs`: what an exchange over a multiplexed connection does on
  each poll: drive the io stream, take at most one queued request at a time
  and send it, shut the stream down once no handle is left, and end the poll.
- `src/connect.rs`: what an exchange whose connection is still being made
  does: hand the stream and the queue to an exchange once, or answer every
  queued request with the connection's error and fail with it.
- `src/bind_if.rs`: the socket option, level and value bytes that bind a
  socket to an interface on macOS and Windows.
- `src/error.rs`: the error type.
- `app/`: the futures that run these state machines over tokio channels, and
  the `setsockopt` calls.

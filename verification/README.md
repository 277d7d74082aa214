# sctp

SCTP sockets for the Linux kernel SCTP module, with tokio support.

- `src/` is the verified library (Verus): the C layout of the SCTP socket
  API structures, the framing and walking of `sendmsg`/`recvmsg` ancillary
  data, the recognition of notifications, the `struct sockaddr` bytes of
  IPv4/IPv6 addresses, the bytes of socket option values, and the decisions
  the socket calls take between system calls.
- `app/` is the socket itself: the `libc` system calls and the tokio
  plumbing, which hand their results to the library.
- `tests/` runs the library on concrete values.

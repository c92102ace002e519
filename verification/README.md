# quicp

A QUIC-based alternative to TCP whose datagrams travel in TCP-shaped packets. Its rules are
written in Rust and verified with Verus.

## Layout

`src/` is the verified library. Every function states what it returns or changes, and public proof
functions named `law_...` state what holds across functions.

- `faketcp`: the TCP-shaped carrier. Packets, checksums, TCP options, SYN cookies, and the sequence
  numbers of one path.
- `raw`: what raw-socket adapters decide between their system calls. Batches, receive groups, packet
  rings, socket filters, routes, and the trust in the Windows packet-divert library.
- `fec`: repair symbols over GF(256), and a bounded decoder that recovers lost symbols.
- `flow`: flows over a connection. Buffers, flow control, acknowledgments, admission, and the control
  task as a state machine.
- `config`: endpoint, path, TLS, MTU and transport settings, and what is asked of trusted files.
- `fakeip`: stable addresses for host names, with a journal.
- `host_carrier`, `host_runtime`: a datagram socket and an executor that a host drives.
- `ffi`: what the C interface checks and remembers between its calls.
- `congestion`, `header_protection`: extension points for users.
- `fuzzing`: entry points that feed arbitrary bytes to the parsers.
- `storage`, `crypto`, `text`: the outside functions that the library calls, each behind a function
  whose contract says what is believed of it.

`app/` is ordinary Rust around the library: reading trusted files and TOML, the journal's file, raw
sockets on Linux and macOS, and the adapters that the QUIC backend and Tokio take.

`tests/` runs the library on concrete values.

## Words

A state machine in the library never waits. A function named `begin_...` or `poll_...` says what to do
next, the caller does it, and a function named `after_...` or `finish_...` takes the outcome. Whoever
has to be woken is named in the result, since the library holds no wakers.

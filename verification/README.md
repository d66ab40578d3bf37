# girth

A rate-based reliable bulk transfer over UDP for paths with a high
bandwidth-delay product. A TCP control channel sets a session up; a paced UDP
data plane moves the blocks. The receiver finds out what is missing and asks for
it, so loss recovery is separate from rate control.

`src/` is the verified library: the wire format, the loss tracker, both data
planes' state, the handshake with its limits, authentication and key agreement,
and the command line. Every function in it has a contract that Verus proves.
Calls into other crates (ciphers, key agreement, MACs, checksums, base64, random
numbers) stand in small wrappers whose contracts are taken on trust and say what
they take.

| Module | What it holds |
|---|---|
| `protocol` | PDUs, block arithmetic, checksums |
| `losstracker`, `heap` | received-block bitmap, retransmission requests |
| `sender` | reading order, retransmission queue, PDU building, batches, feedback |
| `receiver` | packet checks, staging, in-order flushing, feedback rounds |
| `control`, `transfer` | control messages, limits, both ends of the handshake |
| `session` | what a server or a client does next, event by event |
| `delivery` | what holds of whole transfers, from the handshake to the last byte: what is pulled is what was pushed |
| `auth`, `crypto` | proofs of a shared token, key agreement, sealing |
| `io` | block sources and sinks, summing them up |
| `stats`, `runtime`, `rate` | counters, controls, rate settings |
| `sys`, `cli`, `log`, `text`, `bytes`, `error` | platform decisions, arguments, texts |

`app/` is the program around it: sockets, files, threads, clocks, signals, JSON,
and what is computed in floating point. `tests/` run the library.

# Dragit

Dragit sends files, directories and text between computers on the same
local network. Peers find each other over mDNS, tell each other their host
name and operating system, and a transfer is offered, answered, streamed and
checked against the sender's MD5 digest.

The library under `src/` is written in Verus: every function carries a
contract that the verifier proves.

- `p2p::wire`, `p2p::transfer::proto`, `p2p::discovery::proto` – the
  protobuf wire format of the handshake messages, with round-trip laws.
- `p2p::transfer::metadata` – handshake packets (a message padded to 1024
  bytes with zero bytes).
- `p2p::transfer::session` – the order of a transfer on the receiving and
  on the sending side, as state machines the caller drives.
- `p2p::transfer::{file, protocol, reader, digest, directory, jobs,
  behaviour}` – offers, received transfers, progress and digest
  bookkeeping, and the queue of outgoing transfers.
- `p2p::discovery::{behaviour, handler, protocol}` – the peer table, the
  connection handler's queues and the host exchange frame.
- `p2p::server` – what the network loop does for each event.
- `user_data`, `paths` – download paths (never overwriting what exists) on
  a model of Unix paths, and the configuration.
- `firewall` – the decisions of the firewalld check.
- `dnd` – the texts and choices of the user interface.
- `bluetooth` – the device address behind a BlueZ object path.

`app/` is the program around the library: configuration files, the libp2p
swarm and sockets, D-Bus calls to firewalld, and a terminal front end.

# connection_handler

Connection handling for an encrypted UDP transport between peers, in Verus.

A peer asks for a connection to another one, and both try to reach each other through the NATs
they may be behind. A gateway also accepts peers that it has not heard of. Either way the two
sides exchange AES-128-GCM keys, each under a key that the other one announced. What decides how
this goes is proved here. What waits, sends and spawns is in `app/`.

- `src/addr.rs`, `src/addr_map.rs`: socket addresses, and maps from them.
- `src/backoff.rs`: how intervals and timeouts grow.
- `src/crypto.rs`: keys, and packets sealed under them. Calls `aes-gcm` and `rand`.
- `src/intro.rs`: the first packet that a peer sends.
- `src/connection.rs`, `src/error.rs`, `src/request.rs`: what handshakes exchange, and what they
  and the requests for them end in.
- `src/traversal.rs`: the handshake between two peers. `src/traversal_model.rs` is the transition
  system that it follows, and `src/traversal_laws.rs` holds what is true of every handshake: that
  it ends, when it gives up, which keys it uses.
- `src/gateway.rs`, `src/gateway_model.rs`, `src/gateway_laws.rs`: the same for the handshake of a
  gateway with a peer.
- `src/agreement_laws.rs`: two handshakes that hear of each other end in connections that fit.
- `src/listener.rs`, `src/listener_laws.rs`: who gets a packet, by the address it comes from, and
  how requests for connections are answered.
- `app/`: the tasks, channels and timers around it, generic over what encodes messages, holds
  identities and tracks sent packets.

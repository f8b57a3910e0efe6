# dtls_endpoint

A Sans-I/O DTLS endpoint, written and verified in Verus. It multiplexes DTLS associations by remote
address, decides which calls the engine of each association gets, and queues the datagrams to send.
The engines (handshake, record layer, cryptography), sockets and clocks are the caller's.

- `src/endpoint.rs`: the endpoint and its operations.
- `src/operation.rs`: the dialogue between the endpoint and an engine.
- `src/view.rs`: the endpoint as a mathematical value; the contracts speak of it.
- `src/table.rs`: the associations by address.
- `src/conn.rs`, `src/transport.rs`, `src/payload.rs`: what is known of an association, addresses
  and messages, and the buffer type of the `bytes` crate.
- `src/laws/`: what holds over every history of an endpoint and every dialogue with an engine.
- `tests/`: single steps, and two endpoints that talk through simulated engines.
- `app/`: the loop that carries the dialogues out on real addresses, clocks and engines.

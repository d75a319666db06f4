# splitter_client

A coordinator splits domains into shards and grants the shards to consumers. This
crate is the consumer's side.

- `src/` decides. It is a Verus library: every function states what it returns or
  changes, and Verus proves it. It reads no clock, opens no socket and starts no task;
  what it needs to know it is given, and what has to be sent or told it hands back.
- `app/` acts. It runs the library on tokio and tonic: the join stream, the timers of
  grants, the pool of channels, the dispatcher, the processor and the peer server.
- `tests/` runs the library on concrete values.

What cluster messages mean is defined in `src/cluster_model.rs`, and what a consumer
makes of what it hears in `src/consumer_model.rs`. Facts that hold whatever the
messages are stand beside the functions they are about, and in `src/cluster_laws.rs`
and `src/consumer_laws.rs`, as proof functions whose names begin with `law_`.

Five functions of other crates are called behind contracts that are not proved here:
those on UUIDs in `src/uuids.rs`, the one that reads a peer's address in `src/uris.rs`
and the one that shows a status in `src/statuses.rs`. `src/text.rs` does the same for two
conversions of the standard library.

Where it matters how often a function of the caller is called, it is reached through a
record of its calls (`src/inquiry.rs`, `src/dialer.rs`, `src/remote.rs`), and contracts
speak of the record.

# zenoh_transport

The transmission side of a unicast link, as a verified library.

A router fans messages out to many links. Each link has its own bounded staging
queues, one per priority, and its own worker that moves the staged messages into
the link's transmission pipeline. A slow link can therefore only fill, and shed
from, its own queues; it never holds up delivery to the others.

- `message`: what the queues read of a message.
- `tx_queue`, `tx_queue_laws`: the staging queues. Overflow discards evictable
  messages only; reliable `Block` messages wait for a slot and are never lost while the
  link is up.
- `drain`, `drain_laws`: the worker that empties the staging queues, always the
  most urgent message first.
- `link_tx_queues`, `link_tx_laws`: egress queues that evict the oldest message
  instead of ever making a producer wait.
- `backlog`: the order in which a row of queues is emptied.
- `write_loop`, `read_loop`: the loops that write to and read from a link.
- `timeout`, `idle_laws`: noticing that nothing has happened, for keep-alives and
  leases.
- `settings`, `link`: sizes and configuration.

`src/` decides, on plain values, and is proved. `app/` holds the locks, threads,
timers and link I/O around it; `app/lib.rs` is its root, and `app/router_a.rs`
and `app/router_b.rs` are two small demo programs that need the `zenoh` crate.

//! Transmission side of a unicast link: bounded per-priority staging queues, the
//! worker that drains them, the loops that write to and read from the link, and
//! the idle-time tracking behind keep-alives and leases.
//!
//! Every decision is taken here, on plain values. Locks, threads, timers and
//! sockets stay with the caller, which performs the actions the library names
//! and reports back what happened.
pub mod backlog;
pub mod drain;
pub mod drain_laws;
pub mod idle_laws;
pub mod link;
pub mod link_tx_laws;
pub mod link_tx_queues;
pub mod message;
pub mod read_loop;
pub mod settings;
pub mod timeout;
pub mod tx_queue;
pub mod tx_queue_laws;
pub mod write_loop;

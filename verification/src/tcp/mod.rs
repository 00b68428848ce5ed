//! Stream transport: framing, handshake, per-link statistics and the
//! junction that forwards over links.

pub mod tcp_frame;
pub mod tcp_junction;
pub mod tcp_link;
pub mod tcp_router;

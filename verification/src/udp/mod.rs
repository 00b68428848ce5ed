//! Datagram transport: packets and links.

pub mod udp_link;
pub mod udp_packet;

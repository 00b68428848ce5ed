//! Mesh overlay networking: wire formats, duplicate detection, route
//! selection and the forwarding decisions of a junction.

pub mod addr;
pub mod assoc;
pub mod datagram;
pub mod fanout;
pub mod json;
pub mod junction;
pub mod junction_id;
pub mod link;
pub mod link_packet;
pub mod package;
pub mod package_tracker;
pub mod paths;
pub mod route;
pub mod tcp;
pub mod tracker;
pub mod udp;
pub mod wire;

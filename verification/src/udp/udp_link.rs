//! A datagram link that hands back the packets it reads.

pub use crate::link::UnpackResult;

use crate::addr::PeerAddr;
use crate::link::{packet_for, tracker_after, LinkView};
use crate::link_packet::{
    parse_link_packet, SlowLinkAckPacket, SlowLinkPacket, SlowLinkPayloadPacket,
};
use crate::package::SlowPackage;
use crate::tracker::PacketTracker;
use vstd::prelude::*;

verus! {

/// A link to the peer at `remote_address`. The socket that carries its
/// packets is kept by whoever owns the link.
pub struct SlowUdpLink {
    remote_address: PeerAddr,
    packed_count: u64,
    unpacked_tracker: PacketTracker,
}

impl View for SlowUdpLink {
    type V = LinkView;

    closed spec fn view(&self) -> LinkView {
        LinkView {
            remote_address: self.remote_address,
            packed_count: self.packed_count,
            tracker: self.unpacked_tracker,
        }
    }
}

impl SlowUdpLink {
    /// A link that has sent and received nothing.
    pub fn new(remote_address: PeerAddr) -> (l: SlowUdpLink)
        ensures
            l@ == (LinkView { remote_address, packed_count: 0, tracker: PacketTracker::fresh() }),
    {
        SlowUdpLink { remote_address, packed_count: 0, unpacked_tracker: PacketTracker::new() }
    }

    /// The packet that carries `package`, numbered one above the packets
    /// packed so far. `None`, with nothing changed, once the numbers are
    /// used up.
    pub fn pack(&mut self, package: &SlowPackage) -> (r: Option<Vec<u8>>)
        ensures
            old(self)@.packed_count == u64::MAX ==> r is None && final(self)@ == old(self)@,
            old(self)@.packed_count < u64::MAX ==> (r matches Some(bytes) && bytes@ == packet_for(
                *package,
                (old(self)@.packed_count + 1) as u64,
            ).wire()) && final(self)@ == (LinkView {
                packed_count: (old(self)@.packed_count + 1) as u64,
                ..old(self)@
            }),
    {
        if self.packed_count == u64::MAX {
            return None;
        }
        self.packed_count = self.packed_count + 1;
        let packet_id = self.packed_count;
        let data = package.pack(package.package_id());
        let payload_packet = SlowLinkPayloadPacket::new(packet_id, data);
        Some(payload_packet.pack())
    }

    /// Reads a received packet and hands it back. The number of a payload
    /// packet is offered to the link's tracker.
    pub fn unpack(&mut self, data: &[u8]) -> (r: SlowLinkPacket)
        ensures
            r@ == parse_link_packet(data@),
            final(self)@ == (LinkView {
                tracker: tracker_after(old(self)@.tracker, data@),
                ..old(self)@
            }),
    {
        if data.len() == 0 {
            return SlowLinkPacket::Invalid;
        }
        let packet = SlowLinkPacket::unpack_slice(data);
        match &packet {
            SlowLinkPacket::Payload(payload_packet) => self.process_payload(payload_packet),
            SlowLinkPacket::Acknowledge(ack_packet) => self.process_ack(ack_packet),
            _ => {},
        }
        packet
    }

    fn process_payload(&mut self, payload_packet: &SlowLinkPayloadPacket)
        ensures
            final(self)@ == (LinkView {
                tracker: old(self)@.tracker.after(payload_packet.packet_id),
                ..old(self)@
            }),
    {
        let _ = self.unpacked_tracker.update(payload_packet.packet_id);
    }

    fn process_ack(&self, _ack_packet: &SlowLinkAckPacket) {
    }

    /// The address of the peer.
    pub fn remote_address(&self) -> (r: PeerAddr)
        ensures
            r == self@.remote_address,
    {
        self.remote_address
    }

    /// How many packets the link has packed.
    pub fn packed_count(&self) -> (r: u64)
        ensures
            r == self@.packed_count,
    {
        self.packed_count
    }
}

} // verus!

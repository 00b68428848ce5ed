//! A datagram link to one peer: it numbers what it sends and drops what
//! it has received before.

use crate::addr::PeerAddr;
use crate::link_packet::{
    parse_link_packet, LinkPacketView, PayloadPacketView, SlowLinkPacket, SlowLinkPayloadPacket,
    PAYLOAD_HEADER_SIZE,
};
use crate::package::SlowPackage;
use crate::tracker::{PacketTracker, UpdateResult};
use vstd::prelude::*;

verus! {

/// What a received packet turned out to be.
#[derive(Debug, PartialEq, Eq, Clone, Copy, Structural)]
pub enum UnpackResult {
    /// A new payload; the number is the index at which its data starts.
    Payload(usize),
    /// A control packet, or no data at all.
    Control,
    /// A payload that was received before.
    Duplicate,
    /// A payload too old to be told from one received before.
    Old,
    /// Bytes that are no packet.
    Invalid,
}

/// A link as plain values.
pub struct LinkView {
    pub remote_address: PeerAddr,
    /// How many packets the link has packed.
    pub packed_count: u64,
    /// Which packets the link has received.
    pub tracker: PacketTracker,
}

/// The payload packet that a link makes of a package as its packet
/// number `packet_id`: the payload is the package's wire form under the
/// id in its header.
pub open spec fn packet_for(package: SlowPackage, packet_id: u64) -> PayloadPacketView {
    let data = package@.wire(package@.package_id);
    PayloadPacketView {
        packet_type: 2,
        packet_id,
        payload_size: (data.len() % 0x10000) as u16,
        payload: data,
    }
}

/// What a link with tracker `tracker` answers to `data`.
pub open spec fn unpack_result(tracker: PacketTracker, data: Seq<u8>) -> UnpackResult {
    if data.len() == 0 {
        UnpackResult::Control
    } else {
        match parse_link_packet(data) {
            LinkPacketView::Payload(p) => match tracker.verdict(p.packet_id) {
                UpdateResult::Success => UnpackResult::Payload(PAYLOAD_HEADER_SIZE),
                UpdateResult::Duplicate => UnpackResult::Duplicate,
                UpdateResult::Old => UnpackResult::Old,
            },
            LinkPacketView::Acknowledge(_) => UnpackResult::Control,
            LinkPacketView::Hello => UnpackResult::Control,
            LinkPacketView::Invalid => UnpackResult::Invalid,
        }
    }
}

/// The tracker of a link after it was given `data`: the number of a
/// payload packet is offered to it, and nothing else touches it.
pub open spec fn tracker_after(tracker: PacketTracker, data: Seq<u8>) -> PacketTracker {
    match parse_link_packet(data) {
        LinkPacketView::Payload(p) => tracker.after(p.packet_id),
        _ => tracker,
    }
}

/// A link to the peer at `remote_address`.
pub struct SlowLink {
    remote_address: PeerAddr,
    packed_count: u64,
    unpacked_tracker: PacketTracker,
}

impl View for SlowLink {
    type V = LinkView;

    closed spec fn view(&self) -> LinkView {
        LinkView {
            remote_address: self.remote_address,
            packed_count: self.packed_count,
            tracker: self.unpacked_tracker,
        }
    }
}

impl SlowLink {
    /// A link that has sent and received nothing.
    pub fn new(remote_address: PeerAddr) -> (l: SlowLink)
        ensures
            l@ == (LinkView { remote_address, packed_count: 0, tracker: PacketTracker::fresh() }),
    {
        SlowLink { remote_address, packed_count: 0, unpacked_tracker: PacketTracker::new() }
    }

    /// The packet that carries `package`, numbered one above the packets
    /// packed so far. `None`, with nothing changed, once the numbers are
    /// used up.
    pub fn pack(&mut self, package: &SlowPackage) -> (r: Option<Vec<u8>>)
        ensures
            old(self)@.packed_count == u64::MAX ==> r is None && final(self)@ == old(self)@,
            old(self)@.packed_count < u64::MAX ==> (r matches Some(bytes) && bytes@ == packet_for(
                *package,
                (old(self)@.packed_count + 1) as u64,
            ).wire()) && final(self)@ == (LinkView {
                packed_count: (old(self)@.packed_count + 1) as u64,
                ..old(self)@
            }),
    {
        if self.packed_count == u64::MAX {
            return None;
        }
        self.packed_count = self.packed_count + 1;
        let data = package.pack(package.package_id());
        let payload_packet = SlowLinkPayloadPacket::new(self.packed_count, data);
        Some(payload_packet.pack())
    }

    /// Looks at a received packet. The number of a payload packet is
    /// offered to the link's tracker: a new one is answered with the
    /// index of its data, others as duplicate or old.
    pub fn unpack(&mut self, data: &[u8]) -> (r: UnpackResult)
        ensures
            r == unpack_result(old(self)@.tracker, data@),
            final(self)@ == (LinkView {
                tracker: tracker_after(old(self)@.tracker, data@),
                ..old(self)@
            }),
    {
        if data.len() == 0 {
            return UnpackResult::Control;
        }
        match SlowLinkPacket::unpack_slice(data) {
            SlowLinkPacket::Payload(payload_packet) => {
                match self.unpacked_tracker.update(payload_packet.packet_id) {
                    UpdateResult::Success => UnpackResult::Payload(PAYLOAD_HEADER_SIZE),
                    UpdateResult::Duplicate => UnpackResult::Duplicate,
                    UpdateResult::Old => UnpackResult::Old,
                }
            },
            SlowLinkPacket::Acknowledge(_) => UnpackResult::Control,
            SlowLinkPacket::Hello => UnpackResult::Control,
            SlowLinkPacket::Invalid => UnpackResult::Invalid,
        }
    }

    /// The address of the peer.
    pub fn remote_address(&self) -> (r: PeerAddr)
        ensures
            r == self@.remote_address,
    {
        self.remote_address
    }

    /// How many packets the link has packed.
    pub fn packed_count(&self) -> (r: u64)
        ensures
            r == self@.packed_count,
    {
        self.packed_count
    }
}

} // verus!

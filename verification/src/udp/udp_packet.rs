//! Packets of the fragmenting datagram protocol: data packets that carry
//! one piece of a message, and acknowledgements.

use crate::wire::{
    append, be_u16, be_u16_at, be_u32, be_u32_at, be_u64, be_u64_at, copy_range,
    lemma_be_u16_read_back, lemma_be_u32_read_back, lemma_be_u64_read_back, push_be_u16,
    push_be_u32, push_be_u64, read_be_u16, read_be_u32, read_be_u64,
};
use vstd::prelude::*;
use vstd::std_specs::convert::FromSpecImpl;

verus! {

/// Bytes before the data of a data packet: type, id, index, count.
pub const DATA_HEADER_SIZE: usize = 9;

/// Bytes of an acknowledgement: type, id, bitfield.
pub const UDP_ACK_SIZE: usize = 13;

/// The kind of a packet, sent as its first byte.
#[derive(Debug, PartialEq, Eq, Copy, Clone, Structural)]
pub enum SlowUdpPacketType {
    /// A data packet, sent as 0.
    Data,
    /// An acknowledgement, sent as 1.
    Ack,
}

impl SlowUdpPacketType {
    /// The byte that stands for this type.
    pub open spec fn code(self) -> u8 {
        match self {
            SlowUdpPacketType::Data => 0,
            SlowUdpPacketType::Ack => 1,
        }
    }

    /// The type that a byte stands for, if it stands for one.
    pub open spec fn of_code(value: u8) -> Result<SlowUdpPacketType, ()> {
        match value {
            0 => Ok(SlowUdpPacketType::Data),
            1 => Ok(SlowUdpPacketType::Ack),
            _ => Err(()),
        }
    }

    /// The type that `value` stands for; an error for a byte above 1.
    pub fn try_from(value: u8) -> (r: Result<SlowUdpPacketType, ()>)
        ensures
            r == SlowUdpPacketType::of_code(value),
    {
        match value {
            0 => Ok(SlowUdpPacketType::Data),
            1 => Ok(SlowUdpPacketType::Ack),
            _ => Err(()),
        }
    }
}

impl From<SlowUdpPacketType> for u8 {
    fn from(packet_type: SlowUdpPacketType) -> (r: u8) {
        match packet_type {
            SlowUdpPacketType::Data => 0,
            SlowUdpPacketType::Ack => 1,
        }
    }
}

impl FromSpecImpl<SlowUdpPacketType> for u8 {
    open spec fn obeys_from_spec() -> bool {
        true
    }

    open spec fn from_spec(packet_type: SlowUdpPacketType) -> u8 {
        packet_type.code()
    }
}

/// An acknowledgement: a packet id and the bitfield of packets received.
#[derive(Debug, PartialEq, Eq, Clone, Copy, Structural)]
pub struct SlowUdpAckPacket {
    pub packet_type: SlowUdpPacketType,
    pub packet_id: u32,
    pub packet_bitfield: u64,
}

/// What `buffer` holds when read as an acknowledgement. Bytes after the
/// thirteenth are ignored.
pub open spec fn parse_udp_ack(buffer: Seq<u8>) -> Result<SlowUdpAckPacket, ()> {
    if buffer.len() < UDP_ACK_SIZE || buffer[0] != 1 {
        Err(())
    } else {
        Ok(
            SlowUdpAckPacket {
                packet_type: SlowUdpPacketType::Ack,
                packet_id: be_u32_at(buffer, 1),
                packet_bitfield: be_u64_at(buffer, 5),
            },
        )
    }
}

impl SlowUdpAckPacket {
    /// The bytes sent for this packet: type, id, bitfield, numbers high
    /// byte first.
    pub open spec fn wire(self) -> Seq<u8> {
        seq![self.packet_type.code()] + be_u32(self.packet_id) + be_u64(self.packet_bitfield)
    }

    /// The bytes sent for this packet.
    pub fn pack(&self) -> (out: Vec<u8>)
        ensures
            out@ == self.wire(),
    {
        let mut buffer: Vec<u8> = Vec::new();
        buffer.push(u8::from(self.packet_type));
        push_be_u32(&mut buffer, self.packet_id);
        push_be_u64(&mut buffer, self.packet_bitfield);
        buffer
    }

    /// Reads an acknowledgement; an error where `buffer` is too short or
    /// its first byte is not that of an acknowledgement.
    pub fn unpack(buffer: &[u8]) -> (r: Result<SlowUdpAckPacket, ()>)
        ensures
            r == parse_udp_ack(buffer@),
    {
        if buffer.len() < UDP_ACK_SIZE {
            return Err(());
        }
        match SlowUdpPacketType::try_from(buffer[0]) {
            Ok(SlowUdpPacketType::Ack) => {},
            _ => return Err(()),
        }
        let packet_id = read_be_u32(buffer, 1);
        let packet_bitfield = read_be_u64(buffer, 5);
        Ok(SlowUdpAckPacket { packet_type: SlowUdpPacketType::Ack, packet_id, packet_bitfield })
    }
}

/// A data packet: piece `packet_index` of the `packet_count` pieces of
/// message `packet_id`.
#[derive(Debug)]
pub struct SlowUdpDataPacket {
    pub packet_type: SlowUdpPacketType,
    pub packet_id: u32,
    pub packet_index: u16,
    pub packet_count: u16,
    pub packet_data: Vec<u8>,
}

/// A data packet as plain values.
pub struct DataPacketView {
    pub packet_type: SlowUdpPacketType,
    pub packet_id: u32,
    pub packet_index: u16,
    pub packet_count: u16,
    pub packet_data: Seq<u8>,
}

impl DataPacketView {
    /// The bytes sent for this packet: type, id, index, count, data.
    pub open spec fn wire(self) -> Seq<u8> {
        seq![self.packet_type.code()] + be_u32(self.packet_id) + be_u16(self.packet_index)
            + be_u16(self.packet_count) + self.packet_data
    }
}

impl View for SlowUdpDataPacket {
    type V = DataPacketView;

    open spec fn view(&self) -> DataPacketView {
        DataPacketView {
            packet_type: self.packet_type,
            packet_id: self.packet_id,
            packet_index: self.packet_index,
            packet_count: self.packet_count,
            packet_data: self.packet_data@,
        }
    }
}

/// What `buffer` holds when read as a data packet: all bytes after the
/// header are its data.
pub open spec fn parse_udp_data(buffer: Seq<u8>) -> Result<DataPacketView, ()> {
    if buffer.len() < DATA_HEADER_SIZE || buffer[0] != 0 {
        Err(())
    } else {
        Ok(
            DataPacketView {
                packet_type: SlowUdpPacketType::Data,
                packet_id: be_u32_at(buffer, 1),
                packet_index: be_u16_at(buffer, 5),
                packet_count: be_u16_at(buffer, 7),
                packet_data: buffer.subrange(DATA_HEADER_SIZE as int, buffer.len() as int),
            },
        )
    }
}

impl SlowUdpDataPacket {
    /// The bytes sent for this packet.
    pub fn pack(&self) -> (out: Vec<u8>)
        ensures
            out@ == self@.wire(),
    {
        let mut buffer: Vec<u8> = Vec::new();
        buffer.push(u8::from(self.packet_type));
        push_be_u32(&mut buffer, self.packet_id);
        push_be_u16(&mut buffer, self.packet_index);
        push_be_u16(&mut buffer, self.packet_count);
        append(&mut buffer, self.packet_data.as_slice());
        buffer
    }

    /// Reads a data packet; an error where `buffer` is too short or its
    /// first byte is not that of a data packet.
    pub fn unpack(buffer: &[u8]) -> (r: Result<SlowUdpDataPacket, ()>)
        ensures
            match parse_udp_data(buffer@) {
                Ok(v) => r matches Ok(p) && p@ == v,
                Err(_) => r is Err,
            },
    {
        if buffer.len() < DATA_HEADER_SIZE {
            return Err(());
        }
        match SlowUdpPacketType::try_from(buffer[0]) {
            Ok(SlowUdpPacketType::Data) => {},
            _ => return Err(()),
        }
        let packet_id = read_be_u32(buffer, 1);
        let packet_index = read_be_u16(buffer, 5);
        let packet_count = read_be_u16(buffer, 7);
        let packet_data = copy_range(buffer, DATA_HEADER_SIZE, buffer.len());
        Ok(
            SlowUdpDataPacket {
                packet_type: SlowUdpPacketType::Data,
                packet_id,
                packet_index,
                packet_count,
                packet_data,
            },
        )
    }
}

/// A packet of either kind.
#[derive(Debug)]
pub enum SlowUdpPacket {
    Data(SlowUdpDataPacket),
    Ack(SlowUdpAckPacket),
}

/// A packet of either kind as plain values.
pub enum UdpPacketView {
    Data(DataPacketView),
    Ack(SlowUdpAckPacket),
}

impl View for SlowUdpPacket {
    type V = UdpPacketView;

    open spec fn view(&self) -> UdpPacketView {
        match self {
            SlowUdpPacket::Data(d) => UdpPacketView::Data(d@),
            SlowUdpPacket::Ack(a) => UdpPacketView::Ack(*a),
        }
    }
}

/// What `buffer` holds when read as a packet of the kind that its first
/// byte announces.
pub open spec fn parse_udp_packet(buffer: Seq<u8>) -> Result<UdpPacketView, ()> {
    if buffer.len() < 1 {
        Err(())
    } else if buffer[0] == 0 {
        match parse_udp_data(buffer) {
            Ok(d) => Ok(UdpPacketView::Data(d)),
            Err(_) => Err(()),
        }
    } else if buffer[0] == 1 {
        match parse_udp_ack(buffer) {
            Ok(a) => Ok(UdpPacketView::Ack(a)),
            Err(_) => Err(()),
        }
    } else {
        Err(())
    }
}

impl SlowUdpPacket {
    /// Reads a packet of the kind that the first byte announces.
    pub fn unpack(buffer: &[u8]) -> (r: Result<SlowUdpPacket, ()>)
        ensures
            match parse_udp_packet(buffer@) {
                Ok(v) => r matches Ok(p) && p@ == v,
                Err(_) => r is Err,
            },
    {
        if buffer.len() < 1 {
            return Err(());
        }
        match SlowUdpPacketType::try_from(buffer[0]) {
            Ok(SlowUdpPacketType::Data) => match SlowUdpDataPacket::unpack(buffer) {
                Ok(d) => Ok(SlowUdpPacket::Data(d)),
                Err(_) => Err(()),
            },
            Ok(SlowUdpPacketType::Ack) => match SlowUdpAckPacket::unpack(buffer) {
                Ok(a) => Ok(SlowUdpPacket::Ack(a)),
                Err(_) => Err(()),
            },
            Err(_) => Err(()),
        }
    }
}

/// A data packet of type `Data` is read back from its bytes.
pub proof fn law_udp_data_round_trip(p: DataPacketView)
    requires
        p.packet_type == SlowUdpPacketType::Data,
    ensures
        parse_udp_data(p.wire()) == Ok::<DataPacketView, ()>(p),
        parse_udp_packet(p.wire()) == Ok::<UdpPacketView, ()>(UdpPacketView::Data(p)),
{
    let w = p.wire();
    assert(be_u32(p.packet_id).len() == 4);
    assert(be_u16(p.packet_index).len() == 2);
    assert(be_u16(p.packet_count).len() == 2);
    assert(w.len() == 9 + p.packet_data.len());
    assert(w[0] == 0);
    assert(w.subrange(1, 5) =~= be_u32(p.packet_id));
    assert(w.subrange(5, 7) =~= be_u16(p.packet_index));
    assert(w.subrange(7, 9) =~= be_u16(p.packet_count));
    assert(w.subrange(9, w.len() as int) =~= p.packet_data);
    lemma_be_u32_read_back(w, 1, p.packet_id);
    lemma_be_u16_read_back(w, 5, p.packet_index);
    lemma_be_u16_read_back(w, 7, p.packet_count);
}

/// An acknowledgement of type `Ack` is read back from its bytes.
pub proof fn law_udp_ack_round_trip(p: SlowUdpAckPacket)
    requires
        p.packet_type == SlowUdpPacketType::Ack,
    ensures
        parse_udp_ack(p.wire()) == Ok::<SlowUdpAckPacket, ()>(p),
        parse_udp_packet(p.wire()) == Ok::<UdpPacketView, ()>(UdpPacketView::Ack(p)),
{
    let w = p.wire();
    assert(be_u32(p.packet_id).len() == 4);
    assert(be_u64(p.packet_bitfield).len() == 8);
    assert(w.len() == 13);
    assert(w[0] == 1);
    assert(w.subrange(1, 5) =~= be_u32(p.packet_id));
    assert(w.subrange(5, 13) =~= be_u64(p.packet_bitfield));
    lemma_be_u32_read_back(w, 1, p.packet_id);
    lemma_be_u64_read_back(w, 5, p.packet_bitfield);
}

} // verus!

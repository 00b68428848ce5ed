//! Packets of a datagram link: a payload under a per-link sequence number,
//! an acknowledgement, and a one-byte hello.

use crate::wire::{append, be_u16, be_u16_at, be_u64, be_u64_at, copy_range};
use byteorder::{BigEndian, ReadBytesExt, WriteBytesExt};
use vstd::prelude::*;

verus! {

/// Bytes before the payload of a payload packet: type, id, size.
pub const PAYLOAD_HEADER_SIZE: usize = 11;

/// Bytes of an acknowledgement packet: type, highest id, bitfield.
pub const ACK_SIZE: usize = 17;

/// The kind of a link packet, sent as its first byte.
#[derive(Debug, Clone, Copy, PartialEq, Eq, Structural)]
pub enum SlowLinkPacketType {
    /// An acknowledgement, sent as 0.
    Acknowledge,
    /// A hello, sent as 1.
    Hello,
    /// A payload, sent as 2.
    Payload,
}

/// The message for a byte that stands for no packet type.
pub open spec fn msg_invalid_type() -> Seq<char> {
    "Invalid packet type."@
}

/// The message for data shorter than a payload header.
pub open spec fn msg_short_header() -> Seq<char> {
    "Data is too short to contain a valid packet header"@
}

/// The message for a packet of another type where a payload was expected.
pub open spec fn msg_not_payload() -> Seq<char> {
    "Not a payload packet"@
}

/// The message for data shorter than the payload it announces.
pub open spec fn msg_short_payload() -> Seq<char> {
    "Data is too short to contain the specified payload"@
}

/// The message for data shorter than an acknowledgement.
pub open spec fn msg_short_ack() -> Seq<char> {
    "Data is too short to contain a valid acknowledge packet"@
}

/// The message for a packet of another type where an acknowledgement was
/// expected.
pub open spec fn msg_not_ack() -> Seq<char> {
    "Not an acknowledge packet"@
}

impl SlowLinkPacketType {
    /// The byte that stands for this type.
    pub open spec fn code(self) -> u8 {
        match self {
            SlowLinkPacketType::Acknowledge => 0,
            SlowLinkPacketType::Hello => 1,
            SlowLinkPacketType::Payload => 2,
        }
    }

    /// The type that a byte stands for, if it stands for one.
    pub open spec fn of_code(value: u8) -> Option<SlowLinkPacketType> {
        match value {
            0 => Some(SlowLinkPacketType::Acknowledge),
            1 => Some(SlowLinkPacketType::Hello),
            2 => Some(SlowLinkPacketType::Payload),
            _ => None,
        }
    }

    /// The byte that stands for this type.
    pub fn as_u8(self) -> (r: u8)
        ensures
            r == self.code(),
    {
        match self {
            SlowLinkPacketType::Acknowledge => 0,
            SlowLinkPacketType::Hello => 1,
            SlowLinkPacketType::Payload => 2,
        }
    }

    /// The type that `value` stands for; an error message for a byte above 2.
    pub fn try_from(value: u8) -> (r: Result<SlowLinkPacketType, &'static str>)
        ensures
            match SlowLinkPacketType::of_code(value) {
                Some(t) => r == Ok::<SlowLinkPacketType, &'static str>(t),
                None => r matches Err(e) && e@ == msg_invalid_type(),
            },
    {
        match value {
            0 => Ok(SlowLinkPacketType::Acknowledge),
            1 => Ok(SlowLinkPacketType::Hello),
            2 => Ok(SlowLinkPacketType::Payload),
            _ => Err("Invalid packet type."),
        }
    }
}

/// Appends a 16-bit number with `byteorder`'s `write_u16::<BigEndian>`:
/// its two bytes, high byte first, are added to the end of the buffer.
#[verifier::external_body]
fn write_u16_be(buffer: &mut Vec<u8>, n: u16)
    ensures
        final(buffer)@ == old(buffer)@ + be_u16(n),
{
    buffer.write_u16::<BigEndian>(n).unwrap();
}

/// Appends a 64-bit number with `byteorder`'s `write_u64::<BigEndian>`:
/// its eight bytes, high byte first, are added to the end of the buffer.
#[verifier::external_body]
fn write_u64_be(buffer: &mut Vec<u8>, n: u64)
    ensures
        final(buffer)@ == old(buffer)@ + be_u64(n),
{
    buffer.write_u64::<BigEndian>(n).unwrap();
}

/// Reads a 16-bit number with `byteorder`'s `read_u16::<BigEndian>` from
/// the bytes that start at `at`: the first of the two is the high byte.
#[verifier::external_body]
fn read_u16_be(data: &[u8], at: usize) -> (n: u16)
    requires
        at + 2 <= data.len(),
    ensures
        n == be_u16_at(data@, at as int),
{
    let mut rest = &data[at..];
    rest.read_u16::<BigEndian>().unwrap()
}

/// Reads a 64-bit number with `byteorder`'s `read_u64::<BigEndian>` from
/// the bytes that start at `at`: the first of the eight is the highest byte.
#[verifier::external_body]
fn read_u64_be(data: &[u8], at: usize) -> (n: u64)
    requires
        at + 8 <= data.len(),
    ensures
        n == be_u64_at(data@, at as int),
{
    let mut rest = &data[at..];
    rest.read_u64::<BigEndian>().unwrap()
}

/// A payload under the sequence number that the link gave it.
#[derive(Debug, PartialEq)]
pub struct SlowLinkPayloadPacket {
    /// The byte of the packet type.
    pub packet_type: u8,
    /// The link's sequence number of this packet.
    pub packet_id: u64,
    /// The length of the payload in bytes.
    pub payload_size: u16,
    /// The payload.
    pub payload: Vec<u8>,
}

/// A payload packet as plain values.
pub struct PayloadPacketView {
    pub packet_type: u8,
    pub packet_id: u64,
    pub payload_size: u16,
    pub payload: Seq<u8>,
}

impl PayloadPacketView {
    /// The bytes sent for this packet: type, id, size, payload.
    pub open spec fn wire(self) -> Seq<u8> {
        seq![self.packet_type] + be_u64(self.packet_id) + be_u16(self.payload_size)
            + self.payload
    }

    /// A payload packet as `new` makes it and `unpack` accepts it.
    pub open spec fn well_formed(self) -> bool {
        &&& self.packet_type == 2
        &&& self.payload.len() == self.payload_size
    }
}

impl View for SlowLinkPayloadPacket {
    type V = PayloadPacketView;

    open spec fn view(&self) -> PayloadPacketView {
        PayloadPacketView {
            packet_type: self.packet_type,
            packet_id: self.packet_id,
            payload_size: self.payload_size,
            payload: self.payload@,
        }
    }
}

/// What `data` holds when read as a payload packet, or the message that
/// says why it is none. Bytes after the announced payload are ignored.
pub open spec fn parse_payload_packet(data: Seq<u8>) -> Result<PayloadPacketView, Seq<char>> {
    if data.len() < PAYLOAD_HEADER_SIZE {
        Err(msg_short_header())
    } else if data[0] > 2 {
        Err(msg_invalid_type())
    } else if data[0] != 2 {
        Err(msg_not_payload())
    } else if data.len() - PAYLOAD_HEADER_SIZE < be_u16_at(data, 9) {
        Err(msg_short_payload())
    } else {
        Ok(
            PayloadPacketView {
                packet_type: 2,
                packet_id: be_u64_at(data, 1),
                payload_size: be_u16_at(data, 9),
                payload: data.subrange(
                    PAYLOAD_HEADER_SIZE as int,
                    PAYLOAD_HEADER_SIZE + be_u16_at(data, 9),
                ),
            },
        )
    }
}

impl SlowLinkPayloadPacket {
    /// A payload packet with the given sequence number. The size field is
    /// the payload's length cut to 16 bits.
    pub fn new(packet_id: u64, payload: Vec<u8>) -> (p: SlowLinkPayloadPacket)
        ensures
            p@ == (PayloadPacketView {
                packet_type: 2,
                packet_id,
                payload_size: (payload@.len() % 0x10000) as u16,
                payload: payload@,
            }),
            payload@.len() <= 0xffff ==> p@.well_formed(),
    {
        SlowLinkPayloadPacket {
            packet_type: SlowLinkPacketType::Payload.as_u8(),
            packet_id,
            payload_size: (payload.len() % 0x10000) as u16,
            payload,
        }
    }

    /// The bytes sent for this packet.
    pub fn pack(&self) -> (out: Vec<u8>)
        ensures
            out@ == self@.wire(),
    {
        let mut buffer: Vec<u8> = Vec::new();
        buffer.push(self.packet_type);
        write_u64_be(&mut buffer, self.packet_id);
        write_u16_be(&mut buffer, self.payload_size);
        append(&mut buffer, self.payload.as_slice());
        buffer
    }

    /// Reads a payload packet, or says why `data` is none.
    pub fn unpack(data: &[u8]) -> (r: Result<SlowLinkPayloadPacket, &'static str>)
        ensures
            match parse_payload_packet(data@) {
                Ok(v) => r matches Ok(p) && p@ == v,
                Err(m) => r matches Err(e) && e@ == m,
            },
    {
        if data.len() < PAYLOAD_HEADER_SIZE {
            return Err("Data is too short to contain a valid packet header");
        }
        let packet_type = data[0];
        match SlowLinkPacketType::try_from(packet_type) {
            Ok(SlowLinkPacketType::Payload) => {},
            Ok(_) => return Err("Not a payload packet"),
            Err(e) => return Err(e),
        }
        let packet_id = read_u64_be(data, 1);
        let payload_size = read_u16_be(data, 9);
        if data.len() - PAYLOAD_HEADER_SIZE < payload_size as usize {
            return Err("Data is too short to contain the specified payload");
        }
        let payload = copy_range(
            data,
            PAYLOAD_HEADER_SIZE,
            PAYLOAD_HEADER_SIZE + payload_size as usize,
        );
        Ok(SlowLinkPayloadPacket { packet_type, packet_id, payload_size, payload })
    }
}

/// An acknowledgement: the highest sequence number received and the
/// bitfield of those received below it.
#[derive(Debug, PartialEq, Eq, Clone, Copy, Structural)]
pub struct SlowLinkAckPacket {
    /// The byte of the packet type.
    pub packet_type: u8,
    /// The highest sequence number received.
    pub highest_packet_id: u64,
    /// Which numbers at and below the highest were received.
    pub packet_bitfield: u64,
}

/// What `data` holds when read as an acknowledgement, or the message that
/// says why it is none. Bytes after the seventeenth are ignored.
pub open spec fn parse_ack_packet(data: Seq<u8>) -> Result<SlowLinkAckPacket, Seq<char>> {
    if data.len() < ACK_SIZE {
        Err(msg_short_ack())
    } else if data[0] > 2 {
        Err(msg_invalid_type())
    } else if data[0] != 0 {
        Err(msg_not_ack())
    } else {
        Ok(
            SlowLinkAckPacket {
                packet_type: 0,
                highest_packet_id: be_u64_at(data, 1),
                packet_bitfield: be_u64_at(data, 9),
            },
        )
    }
}

impl SlowLinkAckPacket {
    /// The bytes sent for this packet: type, highest id, bitfield.
    pub open spec fn wire(self) -> Seq<u8> {
        seq![self.packet_type] + be_u64(self.highest_packet_id) + be_u64(self.packet_bitfield)
    }

    /// An acknowledgement of the given state.
    pub fn new(highest_packet_id: u64, packet_bitfield: u64) -> (p: SlowLinkAckPacket)
        ensures
            p == (SlowLinkAckPacket { packet_type: 0, highest_packet_id, packet_bitfield }),
    {
        SlowLinkAckPacket {
            packet_type: SlowLinkPacketType::Acknowledge.as_u8(),
            highest_packet_id,
            packet_bitfield,
        }
    }

    /// The bytes sent for this packet.
    pub fn pack(&self) -> (out: Vec<u8>)
        ensures
            out@ == self.wire(),
    {
        let mut buffer: Vec<u8> = Vec::new();
        buffer.push(self.packet_type);
        write_u64_be(&mut buffer, self.highest_packet_id);
        write_u64_be(&mut buffer, self.packet_bitfield);
        buffer
    }

    /// Reads an acknowledgement, or says why `data` is none.
    pub fn unpack(data: &[u8]) -> (r: Result<SlowLinkAckPacket, &'static str>)
        ensures
            match parse_ack_packet(data@) {
                Ok(v) => r == Ok::<SlowLinkAckPacket, &'static str>(v),
                Err(m) => r matches Err(e) && e@ == m,
            },
    {
        if data.len() < ACK_SIZE {
            return Err("Data is too short to contain a valid acknowledge packet");
        }
        let packet_type = data[0];
        match SlowLinkPacketType::try_from(packet_type) {
            Ok(SlowLinkPacketType::Acknowledge) => {},
            Ok(_) => return Err("Not an acknowledge packet"),
            Err(e) => return Err(e),
        }
        let highest_packet_id = read_u64_be(data, 1);
        let packet_bitfield = read_u64_be(data, 9);
        Ok(SlowLinkAckPacket { packet_type, highest_packet_id, packet_bitfield })
    }
}

/// A packet read from a link.
#[derive(Debug, PartialEq)]
pub enum SlowLinkPacket {
    /// Bytes that are no packet.
    Invalid,
    /// An acknowledgement.
    Acknowledge(SlowLinkAckPacket),
    /// A hello.
    Hello,
    /// A payload.
    Payload(SlowLinkPayloadPacket),
}

/// A link packet as plain values.
pub enum LinkPacketView {
    Invalid,
    Acknowledge(SlowLinkAckPacket),
    Hello,
    Payload(PayloadPacketView),
}

impl View for SlowLinkPacket {
    type V = LinkPacketView;

    open spec fn view(&self) -> LinkPacketView {
        match self {
            SlowLinkPacket::Invalid => LinkPacketView::Invalid,
            SlowLinkPacket::Acknowledge(a) => LinkPacketView::Acknowledge(*a),
            SlowLinkPacket::Hello => LinkPacketView::Hello,
            SlowLinkPacket::Payload(p) => LinkPacketView::Payload(p@),
        }
    }
}

/// What `data` holds when read as a link packet: the first byte chooses
/// the kind, a hello is that byte alone, and whatever does not read as
/// its kind is invalid.
pub open spec fn parse_link_packet(data: Seq<u8>) -> LinkPacketView {
    if data.len() == 0 {
        LinkPacketView::Invalid
    } else if data[0] == 0 {
        match parse_ack_packet(data) {
            Ok(a) => LinkPacketView::Acknowledge(a),
            Err(_) => LinkPacketView::Invalid,
        }
    } else if data[0] == 1 {
        if data.len() == 1 {
            LinkPacketView::Hello
        } else {
            LinkPacketView::Invalid
        }
    } else if data[0] == 2 {
        match parse_payload_packet(data) {
            Ok(p) => LinkPacketView::Payload(p),
            Err(_) => LinkPacketView::Invalid,
        }
    } else {
        LinkPacketView::Invalid
    }
}

impl SlowLinkPacket {
    /// Reads a link packet of whatever kind its first byte announces.
    pub fn unpack(data: Vec<u8>) -> (r: SlowLinkPacket)
        ensures
            r@ == parse_link_packet(data@),
    {
        SlowLinkPacket::unpack_slice(data.as_slice())
    }

    /// Reads a link packet from a slice.
    pub fn unpack_slice(data: &[u8]) -> (r: SlowLinkPacket)
        ensures
            r@ == parse_link_packet(data@),
    {
        if data.len() == 0 {
            return SlowLinkPacket::Invalid;
        }
        match SlowLinkPacketType::try_from(data[0]) {
            Ok(SlowLinkPacketType::Acknowledge) => match SlowLinkAckPacket::unpack(data) {
                Ok(packet) => SlowLinkPacket::Acknowledge(packet),
                Err(_) => SlowLinkPacket::Invalid,
            },
            Ok(SlowLinkPacketType::Hello) => {
                if data.len() == 1 {
                    SlowLinkPacket::Hello
                } else {
                    SlowLinkPacket::Invalid
                }
            },
            Ok(SlowLinkPacketType::Payload) => match SlowLinkPayloadPacket::unpack(data) {
                Ok(packet) => SlowLinkPacket::Payload(packet),
                Err(_) => SlowLinkPacket::Invalid,
            },
            Err(_) => SlowLinkPacket::Invalid,
        }
    }
}

/// A well-formed payload packet is read back from its bytes.
pub proof fn law_payload_packet_round_trip(p: PayloadPacketView)
    requires
        p.well_formed(),
    ensures
        parse_payload_packet(p.wire()) == Ok::<PayloadPacketView, Seq<char>>(p),
        parse_link_packet(p.wire()) == LinkPacketView::Payload(p),
{
    let w = p.wire();
    assert(be_u64(p.packet_id).len() == 8);
    assert(be_u16(p.payload_size).len() == 2);
    assert(w.len() == 11 + p.payload.len());
    assert(w[0] == 2);
    assert(w.subrange(1, 9) =~= be_u64(p.packet_id));
    assert(w.subrange(9, 11) =~= be_u16(p.payload_size));
    assert(w.subrange(11, 11 + p.payload_size) =~= p.payload);
    crate::wire::lemma_be_u64_read_back(w, 1, p.packet_id);
    crate::wire::lemma_be_u16_read_back(w, 9, p.payload_size);
}

/// An acknowledgement is read back from its bytes.
pub proof fn law_ack_packet_round_trip(p: SlowLinkAckPacket)
    requires
        p.packet_type == 0,
    ensures
        parse_ack_packet(p.wire()) == Ok::<SlowLinkAckPacket, Seq<char>>(p),
        parse_link_packet(p.wire()) == LinkPacketView::Acknowledge(p),
{
    let w = p.wire();
    assert(be_u64(p.highest_packet_id).len() == 8);
    assert(be_u64(p.packet_bitfield).len() == 8);
    assert(w.len() == 17);
    assert(w[0] == 0);
    assert(w.subrange(1, 9) =~= be_u64(p.highest_packet_id));
    assert(w.subrange(9, 17) =~= be_u64(p.packet_bitfield));
    crate::wire::lemma_be_u64_read_back(w, 1, p.highest_packet_id);
    crate::wire::lemma_be_u64_read_back(w, 9, p.packet_bitfield);
}

} // verus!

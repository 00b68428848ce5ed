//! The datagram: an envelope with a typed payload, as it stood before the
//! package took its place. How a header is turned into bytes is left to
//! whoever sends it; this module keeps header and payload in step.

use crate::json::{decode, encode, json_text, json_value};
use crate::junction_id::JunctionId;
use crate::wire::copy_range;
use vstd::prelude::*;

verus! {

/// The payload type of binary data.
pub const PAYLOAD_BIN: u8 = 0;

/// The payload type of JSON text.
pub const PAYLOAD_JSON: u8 = 1;

/// The fields of a datagram that precede its payload.
pub struct SlowDatagramHeader {
    /// The junction the datagram is for.
    pub recipient_id: JunctionId,
    /// The junction the datagram comes from.
    pub sender_id: JunctionId,
    /// How many relays the datagram has passed.
    pub hop_count: u8,
    /// What the payload holds: binary data is 0, JSON text is 1.
    pub payload_type: u8,
    /// The sender's running number of this datagram.
    pub package_id: u32,
    /// The length of the payload in bytes.
    pub payload_size: u16,
}

/// A datagram: header and payload.
pub struct SlowDatagram {
    pub header: SlowDatagramHeader,
    pub payload: Vec<u8>,
}

/// A datagram as plain values.
pub struct DatagramView {
    pub recipient: Seq<char>,
    pub sender: Seq<char>,
    pub hop_count: u8,
    pub payload_type: u8,
    pub package_id: u32,
    pub payload_size: u16,
    pub payload: Seq<u8>,
}

impl View for SlowDatagram {
    type V = DatagramView;

    open spec fn view(&self) -> DatagramView {
        DatagramView {
            recipient: self.header.recipient_id@,
            sender: self.header.sender_id@,
            hop_count: self.header.hop_count,
            payload_type: self.header.payload_type,
            package_id: self.header.package_id,
            payload_size: self.header.payload_size,
            payload: self.payload@,
        }
    }
}

/// A new datagram as its constructors make it: no hops yet, id 0, and
/// the size field holding the payload's length cut to 16 bits.
pub open spec fn fresh_datagram(
    payload_type: u8,
    recipient: Seq<char>,
    sender: Seq<char>,
    payload: Seq<u8>,
) -> DatagramView {
    DatagramView {
        recipient,
        sender,
        hop_count: 0,
        payload_type,
        package_id: 0,
        payload_size: (payload.len() % 0x10000) as u16,
        payload,
    }
}

impl SlowDatagram {
    /// Whether the size field is the length of the payload.
    pub open spec fn wf(self) -> bool {
        self.payload@.len() == self.header.payload_size
    }

    fn with_payload(
        payload_type: u8,
        recipient_id: JunctionId,
        sender_id: JunctionId,
        payload: Vec<u8>,
    ) -> (d: SlowDatagram)
        ensures
            d@ == fresh_datagram(payload_type, recipient_id@, sender_id@, payload@),
    {
        let header = SlowDatagramHeader {
            recipient_id,
            sender_id,
            hop_count: 0,
            payload_type,
            package_id: 0,
            payload_size: (payload.len() % 0x10000) as u16,
        };
        SlowDatagram { header, payload }
    }

    /// A datagram whose payload is the JSON text of `json`; `None` where
    /// the value cannot be written as text.
    pub fn new_json_payload(
        recipient_id: JunctionId,
        sender_id: JunctionId,
        json: &serde_json::Value,
    ) -> (r: Option<SlowDatagram>)
        ensures
            r.is_some() == json_text(*json).is_some(),
            r matches Some(d) ==> d@ == fresh_datagram(
                PAYLOAD_JSON,
                recipient_id@,
                sender_id@,
                json_text(*json).unwrap(),
            ),
    {
        match encode(json) {
            Some(payload) => Some(
                SlowDatagram::with_payload(PAYLOAD_JSON, recipient_id, sender_id, payload),
            ),
            None => None,
        }
    }

    /// A datagram that carries a copy of `bin`.
    pub fn new_bin_payload(recipient_id: JunctionId, sender_id: JunctionId, bin: &[u8]) -> (r:
        Option<SlowDatagram>)
        ensures
            r matches Some(d) && d@ == fresh_datagram(PAYLOAD_BIN, recipient_id@, sender_id@, bin@),
    {
        let payload = copy_range(bin, 0, bin.len());
        assert(bin@.subrange(0, bin@.len() as int) == bin@);
        Some(SlowDatagram::with_payload(PAYLOAD_BIN, recipient_id, sender_id, payload))
    }

    /// Puts a header that was read together with the bytes that followed
    /// it: a datagram if the size field is the number of those bytes.
    pub fn from_parts(header: SlowDatagramHeader, payload: &[u8]) -> (r: Option<SlowDatagram>)
        ensures
            r.is_some() == (header.payload_size == payload@.len()),
            r matches Some(d) ==> d.header == header && d.payload@ == payload@ && d.wf(),
    {
        if header.payload_size as usize == payload.len() {
            let payload = copy_range(payload, 0, payload.len());
            Some(SlowDatagram { header, payload })
        } else {
            None
        }
    }

    /// The payload read as JSON, if it is JSON.
    pub fn get_json_payload(&self) -> (r: Option<serde_json::Value>)
        ensures
            r == json_value(self.payload@),
    {
        decode(self.payload.as_slice())
    }

    /// Counts one more relay and returns the new count.
    pub fn increment_hops(&mut self) -> (r: u8)
        requires
            old(self).header.hop_count < u8::MAX,
        ensures
            r == old(self).header.hop_count + 1,
            final(self)@ == (DatagramView { hop_count: r, ..old(self)@ }),
    {
        self.header.hop_count += 1;
        self.header.hop_count
    }

    /// The junction the datagram is for.
    pub fn get_recipient_id(&self) -> (r: &JunctionId)
        ensures
            r@ == self@.recipient,
    {
        &self.header.recipient_id
    }

    /// The junction the datagram comes from.
    pub fn get_sender_id(&self) -> (r: &JunctionId)
        ensures
            r@ == self@.sender,
    {
        &self.header.sender_id
    }

    /// How many relays the datagram has passed.
    pub fn get_hop_count(&self) -> (r: u8)
        ensures
            r == self@.hop_count,
    {
        self.header.hop_count
    }

    /// Sets the sender's running number of the datagram.
    pub fn set_package_id(&mut self, package_id: u32)
        ensures
            final(self)@ == (DatagramView { package_id, ..old(self)@ }),
    {
        self.header.package_id = package_id;
    }

    /// The sender's running number of the datagram.
    pub fn get_package_id(&self) -> (r: u32)
        ensures
            r == self@.package_id,
    {
        self.header.package_id
    }
}

} // verus!

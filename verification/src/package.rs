//! The overlay package: the envelope that travels end to end, and its
//! form on the wire.

use crate::json::{decode, encode, json_text, json_value};
use crate::junction_id::{
    lemma_packed_id_round_trip, packed_id, packed_id_chars, packed_id_end, JunctionId, MAX_ID_LEN,
};
use crate::wire::{
    append, copy_range, le_u16, le_u16_at, le_u32, le_u32_at, lemma_le_u16_read_back,
    lemma_le_u16_write_back, lemma_le_u32_read_back, lemma_le_u32_write_back, push_le_u16,
    push_le_u32, read_le_u16, read_le_u32,
};
use vstd::prelude::*;
use vstd::std_specs::convert::FromSpecImpl;
use vstd::utf8::*;

verus! {

/// The largest payload, in bytes, whose length fits the two-byte size field.
pub const MAX_PAYLOAD_LEN: usize = 65535;

/// A package with this hop count or more is not forwarded.
pub const MAX_HOPS: u8 = 128;

/// What a package carries.
#[derive(Debug, PartialEq, Eq, Clone, Copy, Structural)]
pub enum PackageType {
    Hello,
    Ping,
    Pong,
    Json,
    Bin,
    Howdy,
}

impl PackageType {
    /// The byte that stands for this type on the wire.
    pub open spec fn code(self) -> u8 {
        match self {
            PackageType::Hello => 0,
            PackageType::Ping => 1,
            PackageType::Pong => 2,
            PackageType::Json => 3,
            PackageType::Bin => 4,
            PackageType::Howdy => 5,
        }
    }

    /// The type that a byte stands for, if it stands for one.
    pub open spec fn of_code(value: u8) -> Result<PackageType, ()> {
        match value {
            0 => Ok(PackageType::Hello),
            1 => Ok(PackageType::Ping),
            2 => Ok(PackageType::Pong),
            3 => Ok(PackageType::Json),
            4 => Ok(PackageType::Bin),
            5 => Ok(PackageType::Howdy),
            _ => Err(()),
        }
    }

    /// The type that `value` stands for; an error for a byte above 5.
    pub fn try_from(value: u8) -> (r: Result<PackageType, ()>)
        ensures
            r == PackageType::of_code(value),
            r.is_ok() == (value <= 5),
            r matches Ok(t) ==> t.code() == value,
    {
        match value {
            0 => Ok(PackageType::Hello),
            1 => Ok(PackageType::Ping),
            2 => Ok(PackageType::Pong),
            3 => Ok(PackageType::Json),
            4 => Ok(PackageType::Bin),
            5 => Ok(PackageType::Howdy),
            _ => Err(()),
        }
    }
}

impl From<PackageType> for u8 {
    fn from(package_type: PackageType) -> (r: u8) {
        match package_type {
            PackageType::Hello => 0,
            PackageType::Ping => 1,
            PackageType::Pong => 2,
            PackageType::Json => 3,
            PackageType::Bin => 4,
            PackageType::Howdy => 5,
        }
    }
}

impl FromSpecImpl<PackageType> for u8 {
    open spec fn obeys_from_spec() -> bool {
        true
    }

    open spec fn from_spec(package_type: PackageType) -> u8 {
        package_type.code()
    }
}

/// The fields of a package that precede its payload.
pub struct SlowPackageHeader {
    /// The byte of the package type.
    pub package_type: u8,
    /// The junction the package is for.
    pub recipient_id: JunctionId,
    /// The junction the package comes from.
    pub sender_id: JunctionId,
    /// How many relays the package has passed.
    pub hop_count: u8,
    /// The sender's running number of this package.
    pub package_id: u32,
    /// The length of the payload in bytes.
    pub payload_size: u16,
}

/// A package: header and payload.
pub struct SlowPackage {
    pub header: SlowPackageHeader,
    pub payload: Vec<u8>,
}

/// A package as plain values.
pub struct PackageView {
    pub package_type: u8,
    pub recipient: Seq<char>,
    pub sender: Seq<char>,
    pub hop_count: u8,
    pub package_id: u32,
    pub payload_size: u16,
    pub payload: Seq<u8>,
}

impl PackageView {
    /// What the wire format can carry and give back: a known type, names
    /// that fit their length prefix, and a size field that is the length
    /// of the payload.
    pub open spec fn well_formed(self) -> bool {
        &&& self.package_type <= 5
        &&& encode_utf8(self.recipient).len() <= MAX_ID_LEN
        &&& encode_utf8(self.sender).len() <= MAX_ID_LEN
        &&& self.payload.len() == self.payload_size
    }

    /// The bytes sent for this package under the id `package_id`: type,
    /// recipient, sender, hop count, id, payload size, payload.
    pub open spec fn wire(self, package_id: u32) -> Seq<u8> {
        seq![self.package_type] + packed_id(self.recipient) + packed_id(self.sender)
            + seq![self.hop_count] + le_u32(package_id) + le_u16(self.payload_size)
            + self.payload
    }

    /// This package under another id.
    pub open spec fn with_id(self, package_id: u32) -> PackageView {
        PackageView { package_id, ..self }
    }
}

/// The package that `data` is the wire form of, if it is one: `None` where
/// the type byte is above 5, a field is cut short, a name is not UTF-8, or
/// the size field is not the number of bytes that follow it.
pub open spec fn parse(data: Seq<u8>) -> Option<PackageView> {
    if data.len() < 1 || data[0] > 5 {
        None
    } else {
        match packed_id_end(data, 1) {
            None => None,
            Some(a) => match packed_id_end(data, a) {
                None => None,
                Some(b) => if b + 7 <= data.len() && b + 7 + le_u16_at(data, b + 5)
                    == data.len() {
                    Some(
                        PackageView {
                            package_type: data[0],
                            recipient: packed_id_chars(data, 1),
                            sender: packed_id_chars(data, a),
                            hop_count: data[b],
                            package_id: le_u32_at(data, b + 1),
                            payload_size: le_u16_at(data, b + 5),
                            payload: data.subrange(b + 7, data.len() as int),
                        },
                    )
                } else {
                    None
                },
            },
        }
    }
}

impl View for SlowPackage {
    type V = PackageView;

    open spec fn view(&self) -> PackageView {
        PackageView {
            package_type: self.header.package_type,
            recipient: self.header.recipient_id@,
            sender: self.header.sender_id@,
            hop_count: self.header.hop_count,
            package_id: self.header.package_id,
            payload_size: self.header.payload_size,
            payload: self.payload@,
        }
    }
}

/// A new package as its constructors make it: no hops yet, and the size
/// field holding the payload's length cut to 16 bits.
pub open spec fn fresh_package(
    package_type: PackageType,
    recipient: Seq<char>,
    sender: Seq<char>,
    package_id: u32,
    payload: Seq<u8>,
) -> PackageView {
    PackageView {
        package_type: package_type.code(),
        recipient,
        sender,
        hop_count: 0,
        package_id,
        payload_size: (payload.len() % 0x10000) as u16,
        payload,
    }
}

impl SlowPackage {
    /// Whether the size field is the length of the payload.
    pub open spec fn wf(self) -> bool {
        self.payload@.len() == self.header.payload_size
    }

    fn with_payload(
        package_type: PackageType,
        recipient_id: JunctionId,
        sender_id: JunctionId,
        package_id: u32,
        payload: Vec<u8>,
    ) -> (p: SlowPackage)
        ensures
            p@ == fresh_package(package_type, recipient_id@, sender_id@, package_id, payload@),
            payload@.len() <= MAX_PAYLOAD_LEN ==> p.wf(),
    {
        let payload_size: u16 = (payload.len() % 0x10000) as u16;
        let header = SlowPackageHeader {
            recipient_id,
            sender_id,
            hop_count: 0,
            package_type: u8::from(package_type),
            package_id,
            payload_size,
        };
        SlowPackage { header, payload }
    }

    /// A Json package that carries `text` as its payload.
    pub fn new_json_text(recipient_id: JunctionId, sender_id: JunctionId, text: Vec<u8>) -> (p:
        SlowPackage)
        ensures
            p@ == fresh_package(PackageType::Json, recipient_id@, sender_id@, 0, text@),
            text@.len() <= MAX_PAYLOAD_LEN ==> p.wf(),
    {
        SlowPackage::with_payload(PackageType::Json, recipient_id, sender_id, 0, text)
    }

    /// A Json package whose payload is the JSON text of `json`, or `None`
    /// where the value cannot be written as text.
    pub fn try_new_json_payload(
        recipient_id: JunctionId,
        sender_id: JunctionId,
        json: &serde_json::Value,
    ) -> (r: Option<SlowPackage>)
        ensures
            r.is_some() == json_text(*json).is_some(),
            r matches Some(p) ==> p@ == fresh_package(
                PackageType::Json,
                recipient_id@,
                sender_id@,
                0,
                json_text(*json).unwrap(),
            ),
    {
        match encode(json) {
            Some(text) => Some(SlowPackage::new_json_text(recipient_id, sender_id, text)),
            None => None,
        }
    }

    /// A Json package whose payload is the JSON text of `json`.
    pub fn new_json_payload(
        recipient_id: JunctionId,
        sender_id: JunctionId,
        json: &serde_json::Value,
    ) -> (p: SlowPackage)
        requires
            json_text(*json).is_some(),
        ensures
            p@ == fresh_package(
                PackageType::Json,
                recipient_id@,
                sender_id@,
                0,
                json_text(*json).unwrap(),
            ),
    {
        match encode(json) {
            Some(text) => SlowPackage::new_json_text(recipient_id, sender_id, text),
            None => vstd::pervasive::unreached(),
        }
    }

    /// A Bin package that carries a copy of `bin`.
    pub fn new_bin_payload(recipient_id: JunctionId, sender_id: JunctionId, bin: &[u8]) -> (p:
        SlowPackage)
        ensures
            p@ == fresh_package(PackageType::Bin, recipient_id@, sender_id@, 0, bin@),
            bin@.len() <= MAX_PAYLOAD_LEN ==> p.wf(),
    {
        let payload = copy_range(bin, 0, bin.len());
        assert(bin@.subrange(0, bin@.len() as int) == bin@);
        SlowPackage::with_payload(PackageType::Bin, recipient_id, sender_id, 0, payload)
    }

    /// A Ping package.
    pub fn new_ping(recipient_id: JunctionId, sender_id: JunctionId) -> (p: SlowPackage)
        ensures
            p@ == fresh_package(PackageType::Ping, recipient_id@, sender_id@, 0, Seq::empty()),
            p.wf(),
    {
        SlowPackage::with_payload(PackageType::Ping, recipient_id, sender_id, 0, Vec::new())
    }

    /// A Pong package.
    pub fn new_pong(recipient_id: JunctionId, sender_id: JunctionId) -> (p: SlowPackage)
        ensures
            p@ == fresh_package(PackageType::Pong, recipient_id@, sender_id@, 0, Seq::empty()),
            p.wf(),
    {
        SlowPackage::with_payload(PackageType::Pong, recipient_id, sender_id, 0, Vec::new())
    }

    /// A Hello package, addressed to the name "none". Id 0 opens a
    /// greeting and id 1 answers one.
    pub fn new_hello(package_id: u32, sender_id: JunctionId) -> (p: SlowPackage)
        ensures
            p@ == fresh_package(PackageType::Hello, "none"@, sender_id@, package_id, Seq::empty()),
            p.wf(),
    {
        let recipient_id = JunctionId::new("none");
        SlowPackage::with_payload(
            PackageType::Hello,
            recipient_id,
            sender_id,
            package_id,
            Vec::new(),
        )
    }

    /// A Howdy package, addressed to the name "all".
    pub fn new_howdy(sender_id: JunctionId) -> (p: SlowPackage)
        ensures
            p@ == fresh_package(PackageType::Howdy, "all"@, sender_id@, 0, Seq::empty()),
            p.wf(),
    {
        let recipient_id = JunctionId::new("all");
        SlowPackage::with_payload(PackageType::Howdy, recipient_id, sender_id, 0, Vec::new())
    }

    /// Whether the wire format can carry this package and give it back.
    pub fn is_well_formed(&self) -> (r: bool)
        ensures
            r == self@.well_formed(),
    {
        self.header.package_type <= 5 && self.header.recipient_id.is_encodable()
            && self.header.sender_id.is_encodable() && self.payload.len()
            == self.header.payload_size as usize
    }

    /// Reads a package from its wire form.
    pub fn unpack(data: &[u8]) -> (r: Option<SlowPackage>)
        ensures
            r.is_some() == parse(data@).is_some(),
            r matches Some(p) ==> p@ == parse(data@).unwrap() && p.wf(),
    {
        if data.len() < 1 {
            return None;
        }
        let package_type = data[0];
        if package_type > 5 {
            return None;
        }
        let recipient_id = match JunctionId::unpack_at(data, 1) {
            Some(id) => id,
            None => return None,
        };
        let sender_at: usize = 3 + read_le_u16(data, 1) as usize;
        let sender_id = match JunctionId::unpack_at(data, sender_at) {
            Some(id) => id,
            None => return None,
        };
        let pos: usize = sender_at + 2 + read_le_u16(data, sender_at) as usize;
        if data.len() - pos < 7 {
            return None;
        }
        let hop_count = data[pos];
        let package_id = read_le_u32(data, pos + 1);
        let payload_size = read_le_u16(data, pos + 5);
        if data.len() - pos - 7 != payload_size as usize {
            return None;
        }
        let payload = copy_range(data, pos + 7, data.len());
        let header = SlowPackageHeader {
            package_type,
            recipient_id,
            sender_id,
            hop_count,
            package_id,
            payload_size,
        };
        Some(SlowPackage { header, payload })
    }

    /// The wire form of the package under the id `package_id`; the id in
    /// the header is not used.
    pub fn pack(&self, package_id: u32) -> (out: Vec<u8>)
        ensures
            out@ == self@.wire(package_id),
    {
        let mut package: Vec<u8> = Vec::new();
        package.push(self.header.package_type);
        let recipient_id_bytes = self.header.recipient_id.pack();
        append(&mut package, recipient_id_bytes.as_slice());
        let sender_id_bytes = self.header.sender_id.pack();
        append(&mut package, sender_id_bytes.as_slice());
        package.push(self.header.hop_count);
        push_le_u32(&mut package, package_id);
        push_le_u16(&mut package, self.header.payload_size);
        append(&mut package, self.payload.as_slice());
        package
    }

    /// The payload read as JSON, if it is JSON.
    pub fn json_payload(&self) -> (r: Option<serde_json::Value>)
        ensures
            r == json_value(self.payload@),
    {
        decode(self.payload.as_slice())
    }

    /// Counts one more relay and returns the new count.
    pub fn increment_hops(&mut self) -> (r: u8)
        requires
            old(self).header.hop_count < u8::MAX,
        ensures
            r == old(self).header.hop_count + 1,
            final(self)@ == (PackageView { hop_count: r, ..old(self)@ }),
            final(self).wf() == old(self).wf(),
    {
        self.header.hop_count += 1;
        self.header.hop_count
    }

    /// The junction the package is for.
    pub fn recipient_id(&self) -> (r: &JunctionId)
        ensures
            r@ == self@.recipient,
    {
        &self.header.recipient_id
    }

    /// The junction the package comes from.
    pub fn sender_id(&self) -> (r: &JunctionId)
        ensures
            r@ == self@.sender,
    {
        &self.header.sender_id
    }

    /// How many relays the package has passed.
    pub fn hop_count(&self) -> (r: u8)
        ensures
            r == self@.hop_count,
    {
        self.header.hop_count
    }

    /// Sets the sender's running number of the package.
    pub fn set_package_id(&mut self, package_id: u32)
        ensures
            final(self)@ == old(self)@.with_id(package_id),
            final(self).wf() == old(self).wf(),
    {
        self.header.package_id = package_id;
    }

    /// The sender's running number of the package.
    pub fn package_id(&self) -> (r: u32)
        ensures
            r == self@.package_id,
    {
        self.header.package_id
    }

    /// The type of the package; an error where the type byte is above 5.
    pub fn package_type(&self) -> (r: Result<PackageType, ()>)
        ensures
            r == PackageType::of_code(self@.package_type),
    {
        PackageType::try_from(self.header.package_type)
    }
}

/// Whether `w` holds the fields of `p` under the id `id`, each in its place.
spec fn laid_out(w: Seq<u8>, p: PackageView, id: u32) -> bool {
    let n1 = encode_utf8(p.recipient).len() as int;
    let n2 = encode_utf8(p.sender).len() as int;
    let a = 3 + n1;
    let b = a + 2 + n2;
    &&& w.len() == b + 7 + p.payload.len()
    &&& w[0] == p.package_type
    &&& w.subrange(1, 3) == le_u16(n1 as u16)
    &&& w.subrange(3, a) == encode_utf8(p.recipient)
    &&& w.subrange(a, a + 2) == le_u16(n2 as u16)
    &&& w.subrange(a + 2, b) == encode_utf8(p.sender)
    &&& w[b] == p.hop_count
    &&& w.subrange(b + 1, b + 5) == le_u32(id)
    &&& w.subrange(b + 5, b + 7) == le_u16(p.payload_size)
    &&& w.subrange(b + 7, w.len() as int) == p.payload
}

/// The wire form holds each field in its place.
proof fn lemma_wire_layout(p: PackageView, id: u32)
    requires
        p.well_formed(),
    ensures
        laid_out(p.wire(id), p, id),
{
    let w = p.wire(id);
    let r = encode_utf8(p.recipient);
    let s = encode_utf8(p.sender);
    let n1 = r.len() as int;
    let n2 = s.len() as int;
    let a = 3 + n1;
    let b = a + 2 + n2;
    assert(packed_id(p.recipient) == le_u16(n1 as u16) + r);
    assert(packed_id(p.sender) == le_u16(n2 as u16) + s);
    assert(le_u16(n1 as u16).len() == 2);
    assert(le_u16(n2 as u16).len() == 2);
    assert(le_u16(p.payload_size).len() == 2);
    assert(le_u32(id).len() == 4);
    assert(w.len() == b + 7 + p.payload.len());
    assert(w[0] == p.package_type);
    assert(w.subrange(1, 3) =~= le_u16(n1 as u16));
    assert(w.subrange(3, a) =~= r);
    assert(w.subrange(a, a + 2) =~= le_u16(n2 as u16));
    assert(w.subrange(a + 2, b) =~= s);
    assert(w[b] == p.hop_count);
    assert(w.subrange(b + 1, b + 5) =~= le_u32(id));
    assert(w.subrange(b + 5, b + 7) =~= le_u16(p.payload_size));
    assert(w.subrange(b + 7, w.len() as int) =~= p.payload);
}

/// The numbers that stand in the fixed fields of a wire form.
proof fn lemma_wire_numbers(w: Seq<u8>, p: PackageView, id: u32)
    requires
        p.well_formed(),
        laid_out(w, p, id),
    ensures
        ({
            let n1 = encode_utf8(p.recipient).len() as int;
            let n2 = encode_utf8(p.sender).len() as int;
            let a = 3 + n1;
            let b = a + 2 + n2;
            &&& le_u16_at(w, 1) == n1
            &&& le_u16_at(w, a) == n2
            &&& le_u32_at(w, b + 1) == id
            &&& le_u16_at(w, b + 5) == p.payload_size
        }),
{
    let n1 = encode_utf8(p.recipient).len() as int;
    let n2 = encode_utf8(p.sender).len() as int;
    let a = 3 + n1;
    let b = a + 2 + n2;
    lemma_le_u16_read_back(w, 1, n1 as u16);
    lemma_le_u16_read_back(w, a, n2 as u16);
    lemma_le_u32_read_back(w, b + 1, id);
    lemma_le_u16_read_back(w, b + 5, p.payload_size);
}

/// Packing a well-formed package under an id and reading the bytes back
/// gives the same package with that id.
pub proof fn law_pack_unpack_round_trip(p: PackageView, id: u32)
    requires
        p.well_formed(),
    ensures
        parse(p.wire(id)) == Some(p.with_id(id)),
{
    lemma_wire_layout(p, id);
    let w = p.wire(id);
    lemma_wire_numbers(w, p, id);
    let n1 = encode_utf8(p.recipient).len() as int;
    let n2 = encode_utf8(p.sender).len() as int;
    let a = 3 + n1;
    lemma_packed_id_round_trip(p.recipient, w, 1);
    lemma_packed_id_round_trip(p.sender, w, a);
}

/// Bytes that are read as a package are the wire form of that package,
/// and the package is well formed: nothing but wire forms is read.
pub proof fn law_unpack_pack_round_trip(data: Seq<u8>)
    requires
        parse(data) is Some,
    ensures
        parse(data).unwrap().well_formed(),
        parse(data).unwrap().wire(parse(data).unwrap().package_id) == data,
{
    let p = parse(data).unwrap();
    let a = packed_id_end(data, 1).unwrap();
    let b = packed_id_end(data, a).unwrap();
    let r = data.subrange(3, a);
    let s = data.subrange(a + 2, b);
    decode_utf8_encode_utf8(r);
    decode_utf8_encode_utf8(s);
    lemma_le_u16_write_back(data, 1);
    lemma_le_u16_write_back(data, a);
    lemma_le_u32_write_back(data, b + 1);
    lemma_le_u16_write_back(data, b + 5);
    assert(packed_id(p.recipient) == data.subrange(1, 3) + r);
    assert(packed_id(p.sender) == data.subrange(a, a + 2) + s);
    assert(p.wire(p.package_id) =~= data);
}

/// The wire form of a well-formed package, cut short anywhere, is read
/// as no package at all.
pub proof fn law_truncated_is_rejected(p: PackageView, id: u32, k: int)
    requires
        p.well_formed(),
        0 <= k < p.wire(id).len(),
    ensures
        parse(p.wire(id).take(k)) is None,
{
    lemma_wire_layout(p, id);
    let w = p.wire(id);
    lemma_wire_numbers(w, p, id);
    let t = w.take(k);
    let n1 = encode_utf8(p.recipient).len() as int;
    let n2 = encode_utf8(p.sender).len() as int;
    let a = 3 + n1;
    let b = a + 2 + n2;
    if parse(t) is Some {
        assert(t[1] == w[1] && t[2] == w[2]);
        assert(packed_id_end(t, 1) == Some(a));
        assert(t[a] == w[a] && t[a + 1] == w[a + 1]);
        assert(packed_id_end(t, a) == Some(b));
        assert(t[b + 5] == w[b + 5] && t[b + 6] == w[b + 6]);
        assert(false);
    }
}

} // verus!

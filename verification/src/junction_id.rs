//! Names of junctions and their form on the wire.

use crate::wire::{append, le_u16, le_u16_at, lemma_u16_bytes, push_le_u16, read_le_u16};
use vstd::prelude::*;
use vstd::std_specs::cmp::PartialEqSpecImpl;
use vstd::string::*;
use vstd::utf8::*;

verus! {

/// The longest name, in bytes, whose length fits the two-byte prefix.
pub const MAX_ID_LEN: usize = 65535;

/// The name of a junction: a string, compared and sent as its UTF-8 bytes.
#[derive(Hash, Debug, Eq)]
pub struct JunctionId {
    id: String,
}

impl View for JunctionId {
    type V = Seq<char>;

    closed spec fn view(&self) -> Seq<char> {
        self.id@
    }
}

impl Clone for JunctionId {
    fn clone(&self) -> (r: Self)
        ensures
            r@ == self@,
    {
        JunctionId { id: self.id.clone() }
    }
}

impl PartialEq for JunctionId {
    fn eq(&self, other: &JunctionId) -> (r: bool) {
        self.id == other.id
    }
}

impl PartialEqSpecImpl for JunctionId {
    open spec fn obeys_eq_spec() -> bool {
        true
    }

    open spec fn eq_spec(&self, other: &JunctionId) -> bool {
        self@ == other@
    }
}

/// Converts bytes to a string slice with `std::str::from_utf8`: the slice
/// is returned exactly when the bytes are valid UTF-8, and it then holds
/// those same bytes.
#[verifier::external_body]
fn str_from_utf8(bytes: &[u8]) -> (r: Option<&str>)
    ensures
        r.is_some() == valid_utf8(bytes@),
        r matches Some(s) ==> s.spec_bytes() == bytes@,
{
    std::str::from_utf8(bytes).ok()
}

/// Where the packed name that starts at `at` ends, if `data` holds all of
/// it and its bytes are valid UTF-8.
pub open spec fn packed_id_end(data: Seq<u8>, at: int) -> Option<int> {
    if 0 <= at && at + 2 <= data.len() {
        let end = at + 2 + le_u16_at(data, at);
        if end <= data.len() && valid_utf8(data.subrange(at + 2, end)) {
            Some(end)
        } else {
            None
        }
    } else {
        None
    }
}

/// The packed form of a name: the length of its UTF-8 bytes as two
/// little-endian bytes, cut to 16 bits, then those bytes.
pub open spec fn packed_id(chars: Seq<char>) -> Seq<u8> {
    le_u16((encode_utf8(chars).len() % 0x10000) as u16) + encode_utf8(chars)
}

/// The characters of the packed name that starts at `at`.
pub open spec fn packed_id_chars(data: Seq<u8>, at: int) -> Seq<char> {
    decode_utf8(data.subrange(at + 2, at + 2 + le_u16_at(data, at)))
}

impl JunctionId {
    /// The UTF-8 bytes of the name.
    pub open spec fn bytes(self) -> Seq<u8> {
        encode_utf8(self@)
    }

    /// Whether the length of the name fits the two-byte prefix.
    pub open spec fn encodable(self) -> bool {
        self.bytes().len() <= MAX_ID_LEN
    }

    /// The packed form of the name.
    pub open spec fn wire(self) -> Seq<u8> {
        packed_id(self@)
    }

    /// The junction id with this name.
    pub fn new(id: &str) -> (r: JunctionId)
        ensures
            r@ == id@,
    {
        JunctionId { id: id.to_owned() }
    }

    /// The name as a string.
    pub fn to_string(&self) -> (r: String)
        ensures
            r@ == self@,
    {
        self.id.clone()
    }

    /// Whether the length of the name fits the two-byte prefix.
    pub fn is_encodable(&self) -> (r: bool)
        ensures
            r == self.encodable(),
    {
        self.id.as_str().as_bytes().len() <= MAX_ID_LEN
    }

    /// The packed form of the name.
    pub fn pack(&self) -> (out: Vec<u8>)
        ensures
            out@ == self.wire(),
    {
        let id_bytes = self.id.as_str().as_bytes();
        let id_len: u16 = (id_bytes.len() % 0x10000) as u16;
        let mut buffer: Vec<u8> = Vec::new();
        push_le_u16(&mut buffer, id_len);
        append(&mut buffer, id_bytes);
        buffer
    }

    /// Reads a packed name from the start of `data`; bytes after it are
    /// ignored. `None` when `data` is cut short or the name is not UTF-8.
    pub fn unpack(data: &[u8]) -> (r: Option<JunctionId>)
        ensures
            r.is_some() == packed_id_end(data@, 0).is_some(),
            r matches Some(id) ==> id@ == packed_id_chars(data@, 0) && id.bytes()
                == data@.subrange(2, packed_id_end(data@, 0).unwrap()),
    {
        JunctionId::unpack_at(data, 0)
    }

    /// Reads the packed name that starts at `at`; bytes after it are
    /// ignored. `None` when `data` is cut short or the name is not UTF-8.
    pub fn unpack_at(data: &[u8], at: usize) -> (r: Option<JunctionId>)
        ensures
            r.is_some() == packed_id_end(data@, at as int).is_some(),
            r matches Some(id) ==> id@ == packed_id_chars(data@, at as int) && id.bytes()
                == data@.subrange(at + 2, packed_id_end(data@, at as int).unwrap()),
    {
        if at > data.len() || data.len() - at < 2 {
            return None;
        }
        let id_len = read_le_u16(data, at) as usize;
        if data.len() - at - 2 < id_len {
            return None;
        }
        let span = &data[at + 2..at + 2 + id_len];
        match str_from_utf8(span) {
            Some(s) => {
                proof {
                    encode_utf8_decode_utf8(s@);
                }
                Some(JunctionId::new(s))
            },
            None => None,
        }
    }
}

/// A name that fits its length prefix is read back from its packed form,
/// whatever bytes follow, and reading ends where the packed form ends.
pub proof fn lemma_packed_id_round_trip(chars: Seq<char>, data: Seq<u8>, at: int)
    requires
        encode_utf8(chars).len() <= MAX_ID_LEN,
        0 <= at,
        at + 2 + encode_utf8(chars).len() <= data.len(),
        data.subrange(at, at + 2) == le_u16(encode_utf8(chars).len() as u16),
        data.subrange(at + 2, at + 2 + encode_utf8(chars).len()) == encode_utf8(chars),
    ensures
        packed_id_end(data, at) == Some(at + 2 + encode_utf8(chars).len()),
        packed_id_chars(data, at) == chars,
{
    let n = encode_utf8(chars).len() as u16;
    let head = data.subrange(at, at + 2);
    assert(head[0] == data[at] && head[1] == data[at + 1]);
    lemma_u16_bytes(n);
    encode_utf8_valid_utf8(chars);
    encode_utf8_decode_utf8(chars);
}

} // verus!

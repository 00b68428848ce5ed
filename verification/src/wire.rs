//! Fixed-width integers as bytes, little- and big-endian, and the byte
//! buffers they are written to and read from.

use vstd::prelude::*;

verus! {

/// The two bytes of `v`, low byte first.
pub open spec fn le_u16(v: u16) -> Seq<u8> {
    seq![(v & 0xff) as u8, (v >> 8) as u8]
}

/// The two bytes of `v`, high byte first.
pub open spec fn be_u16(v: u16) -> Seq<u8> {
    seq![(v >> 8) as u8, (v & 0xff) as u8]
}

/// The four bytes of `v`, low byte first.
pub open spec fn le_u32(v: u32) -> Seq<u8> {
    seq![
        (v & 0xff) as u8,
        ((v >> 8) & 0xff) as u8,
        ((v >> 16) & 0xff) as u8,
        (v >> 24) as u8,
    ]
}

/// The four bytes of `v`, high byte first.
pub open spec fn be_u32(v: u32) -> Seq<u8> {
    seq![
        (v >> 24) as u8,
        ((v >> 16) & 0xff) as u8,
        ((v >> 8) & 0xff) as u8,
        (v & 0xff) as u8,
    ]
}

/// The eight bytes of `v`, high byte first.
pub open spec fn be_u64(v: u64) -> Seq<u8> {
    seq![
        (v >> 56) as u8,
        ((v >> 48) & 0xff) as u8,
        ((v >> 40) & 0xff) as u8,
        ((v >> 32) & 0xff) as u8,
        ((v >> 24) & 0xff) as u8,
        ((v >> 16) & 0xff) as u8,
        ((v >> 8) & 0xff) as u8,
        (v & 0xff) as u8,
    ]
}

/// The number whose low byte is `b0` and whose high byte is `b1`.
pub open spec fn u16_of(b0: u8, b1: u8) -> u16 {
    (b0 as u16) | ((b1 as u16) << 8)
}

/// The number made of four bytes, `b0` the lowest.
pub open spec fn u32_of(b0: u8, b1: u8, b2: u8, b3: u8) -> u32 {
    (b0 as u32) | ((b1 as u32) << 8) | ((b2 as u32) << 16) | ((b3 as u32) << 24)
}

/// The number made of eight bytes, `b0` the lowest.
pub open spec fn u64_of(b0: u8, b1: u8, b2: u8, b3: u8, b4: u8, b5: u8, b6: u8, b7: u8) -> u64 {
    (b0 as u64) | ((b1 as u64) << 8) | ((b2 as u64) << 16) | ((b3 as u64) << 24) | ((b4 as u64)
        << 32) | ((b5 as u64) << 40) | ((b6 as u64) << 48) | ((b7 as u64) << 56)
}

/// The little-endian number in the two bytes of `data` from `at`.
pub open spec fn le_u16_at(data: Seq<u8>, at: int) -> u16 {
    u16_of(data[at], data[at + 1])
}

/// The big-endian number in the two bytes of `data` from `at`.
pub open spec fn be_u16_at(data: Seq<u8>, at: int) -> u16 {
    u16_of(data[at + 1], data[at])
}

/// The little-endian number in the four bytes of `data` from `at`.
pub open spec fn le_u32_at(data: Seq<u8>, at: int) -> u32 {
    u32_of(data[at], data[at + 1], data[at + 2], data[at + 3])
}

/// The big-endian number in the four bytes of `data` from `at`.
pub open spec fn be_u32_at(data: Seq<u8>, at: int) -> u32 {
    u32_of(data[at + 3], data[at + 2], data[at + 1], data[at])
}

/// The big-endian number in the eight bytes of `data` from `at`.
pub open spec fn be_u64_at(data: Seq<u8>, at: int) -> u64 {
    u64_of(
        data[at + 7],
        data[at + 6],
        data[at + 5],
        data[at + 4],
        data[at + 3],
        data[at + 2],
        data[at + 1],
        data[at],
    )
}

/// Splitting a 16-bit number into bytes and joining them gives it back.
pub proof fn lemma_u16_bytes(v: u16)
    by (bit_vector)
    ensures
        u16_of((v & 0xff) as u8, (v >> 8) as u8) == v,
        (v & 0xff) < 256,
        (v >> 8) < 256,
{
}

/// Splitting a 32-bit number into bytes and joining them gives it back.
pub proof fn lemma_u32_bytes(v: u32)
    by (bit_vector)
    ensures
        u32_of(
            (v & 0xff) as u8,
            ((v >> 8) & 0xff) as u8,
            ((v >> 16) & 0xff) as u8,
            (v >> 24) as u8,
        ) == v,
        (v & 0xff) < 256,
        ((v >> 8) & 0xff) < 256,
        ((v >> 16) & 0xff) < 256,
        (v >> 24) < 256,
{
}

/// Splitting a 64-bit number into bytes and joining them gives it back.
pub proof fn lemma_u64_bytes(v: u64)
    by (bit_vector)
    ensures
        u64_of(
            (v & 0xff) as u8,
            ((v >> 8) & 0xff) as u8,
            ((v >> 16) & 0xff) as u8,
            ((v >> 24) & 0xff) as u8,
            ((v >> 32) & 0xff) as u8,
            ((v >> 40) & 0xff) as u8,
            ((v >> 48) & 0xff) as u8,
            (v >> 56) as u8,
        ) == v,
        (v & 0xff) < 256,
        ((v >> 8) & 0xff) < 256,
        ((v >> 16) & 0xff) < 256,
        ((v >> 24) & 0xff) < 256,
        ((v >> 32) & 0xff) < 256,
        ((v >> 40) & 0xff) < 256,
        ((v >> 48) & 0xff) < 256,
        (v >> 56) < 256,
{
}

/// Joining two bytes and splitting the number gives the bytes back.
proof fn lemma_u16_of_bytes(b0: u8, b1: u8)
    by (bit_vector)
    ensures
        (u16_of(b0, b1) & 0xff) as u8 == b0,
        (u16_of(b0, b1) >> 8) as u8 == b1,
{
}

/// Joining four bytes and splitting the number gives the bytes back.
proof fn lemma_u32_of_bytes(b0: u8, b1: u8, b2: u8, b3: u8)
    by (bit_vector)
    ensures
        (u32_of(b0, b1, b2, b3) & 0xff) as u8 == b0,
        ((u32_of(b0, b1, b2, b3) >> 8) & 0xff) as u8 == b1,
        ((u32_of(b0, b1, b2, b3) >> 16) & 0xff) as u8 == b2,
        (u32_of(b0, b1, b2, b3) >> 24) as u8 == b3,
{
}

/// Writing the number read from two bytes, low byte first, gives those
/// bytes.
pub proof fn lemma_le_u16_write_back(data: Seq<u8>, at: int)
    requires
        0 <= at,
        at + 2 <= data.len(),
    ensures
        le_u16(le_u16_at(data, at)) == data.subrange(at, at + 2),
{
    lemma_u16_of_bytes(data[at], data[at + 1]);
    assert(le_u16(le_u16_at(data, at)) =~= data.subrange(at, at + 2));
}

/// Writing the number read from four bytes, low byte first, gives those
/// bytes.
pub proof fn lemma_le_u32_write_back(data: Seq<u8>, at: int)
    requires
        0 <= at,
        at + 4 <= data.len(),
    ensures
        le_u32(le_u32_at(data, at)) == data.subrange(at, at + 4),
{
    lemma_u32_of_bytes(data[at], data[at + 1], data[at + 2], data[at + 3]);
    assert(le_u32(le_u32_at(data, at)) =~= data.subrange(at, at + 4));
}

/// Two bytes written low byte first are read back as the number written.
pub proof fn lemma_le_u16_read_back(data: Seq<u8>, at: int, v: u16)
    requires
        0 <= at,
        at + 2 <= data.len(),
        data.subrange(at, at + 2) == le_u16(v),
    ensures
        le_u16_at(data, at) == v,
{
    let h = data.subrange(at, at + 2);
    assert(h[0] == data[at] && h[1] == data[at + 1]);
    lemma_u16_bytes(v);
}

/// Four bytes written low byte first are read back as the number written.
pub proof fn lemma_le_u32_read_back(data: Seq<u8>, at: int, v: u32)
    requires
        0 <= at,
        at + 4 <= data.len(),
        data.subrange(at, at + 4) == le_u32(v),
    ensures
        le_u32_at(data, at) == v,
{
    let h = data.subrange(at, at + 4);
    assert(h[0] == data[at] && h[1] == data[at + 1] && h[2] == data[at + 2] && h[3] == data[at
        + 3]);
    lemma_u32_bytes(v);
}

/// Two bytes written high byte first are read back as the number written.
pub proof fn lemma_be_u16_read_back(data: Seq<u8>, at: int, v: u16)
    requires
        0 <= at,
        at + 2 <= data.len(),
        data.subrange(at, at + 2) == be_u16(v),
    ensures
        be_u16_at(data, at) == v,
{
    let h = data.subrange(at, at + 2);
    assert(h[0] == data[at] && h[1] == data[at + 1]);
    lemma_u16_bytes(v);
}

/// Four bytes written high byte first are read back as the number written.
pub proof fn lemma_be_u32_read_back(data: Seq<u8>, at: int, v: u32)
    requires
        0 <= at,
        at + 4 <= data.len(),
        data.subrange(at, at + 4) == be_u32(v),
    ensures
        be_u32_at(data, at) == v,
{
    let h = data.subrange(at, at + 4);
    assert(h[0] == data[at] && h[1] == data[at + 1] && h[2] == data[at + 2] && h[3] == data[at
        + 3]);
    lemma_u32_bytes(v);
}

/// Eight bytes written high byte first are read back as the number written.
pub proof fn lemma_be_u64_read_back(data: Seq<u8>, at: int, v: u64)
    requires
        0 <= at,
        at + 8 <= data.len(),
        data.subrange(at, at + 8) == be_u64(v),
    ensures
        be_u64_at(data, at) == v,
{
    let h = data.subrange(at, at + 8);
    assert(h[0] == data[at] && h[1] == data[at + 1] && h[2] == data[at + 2] && h[3] == data[at
        + 3]);
    assert(h[4] == data[at + 4] && h[5] == data[at + 5] && h[6] == data[at + 6] && h[7]
        == data[at + 7]);
    lemma_u64_bytes(v);
}

/// Appends `other` to `buf`.
pub fn append(buf: &mut Vec<u8>, other: &[u8])
    ensures
        final(buf)@ == old(buf)@ + other@,
{
    let mut i: usize = 0;
    while i < other.len()
        invariant
            i <= other.len(),
            buf@ == old(buf)@ + other@.take(i as int),
        decreases other.len() - i,
    {
        buf.push(other[i]);
        assert(other@.take(i + 1) == other@.take(i as int).push(other@[i as int]));
        i += 1;
    }
    assert(other@.take(other.len() as int) == other@);
}

/// A copy of the bytes of `data` from `from` up to `to`.
pub fn copy_range(data: &[u8], from: usize, to: usize) -> (out: Vec<u8>)
    requires
        from <= to <= data.len(),
    ensures
        out@ == data@.subrange(from as int, to as int),
{
    let mut out: Vec<u8> = Vec::new();
    let mut i: usize = from;
    while i < to
        invariant
            from <= i <= to <= data.len(),
            out@ == data@.subrange(from as int, i as int),
        decreases to - i,
    {
        out.push(data[i]);
        assert(data@.subrange(from as int, i + 1) == data@.subrange(from as int, i as int).push(
            data@[i as int],
        ));
        i += 1;
    }
    out
}

/// Whether two byte strings are equal.
pub fn same_bytes(a: &[u8], b: &[u8]) -> (r: bool)
    ensures
        r == (a@ == b@),
{
    if a.len() != b.len() {
        return false;
    }
    let mut i: usize = 0;
    while i < a.len()
        invariant
            i <= a.len(),
            a.len() == b.len(),
            a@.take(i as int) == b@.take(i as int),
        decreases a.len() - i,
    {
        if a[i] != b[i] {
            return false;
        }
        assert(a@.take(i + 1) == a@.take(i as int).push(a@[i as int]));
        assert(b@.take(i + 1) == b@.take(i as int).push(b@[i as int]));
        i += 1;
    }
    assert(a@.take(a.len() as int) == a@);
    assert(b@.take(b.len() as int) == b@);
    true
}

/// Appends `v` to `buf`, low byte first.
pub fn push_le_u16(buf: &mut Vec<u8>, v: u16)
    ensures
        final(buf)@ == old(buf)@ + le_u16(v),
{
    proof {
        lemma_u16_bytes(v);
    }
    buf.push((v & 0xff) as u8);
    buf.push((v >> 8) as u8);
}

/// Appends `v` to `buf`, low byte first.
pub fn push_le_u32(buf: &mut Vec<u8>, v: u32)
    ensures
        final(buf)@ == old(buf)@ + le_u32(v),
{
    proof {
        lemma_u32_bytes(v);
    }
    buf.push((v & 0xff) as u8);
    buf.push(((v >> 8) & 0xff) as u8);
    buf.push(((v >> 16) & 0xff) as u8);
    buf.push((v >> 24) as u8);
}

/// Appends `v` to `buf`, high byte first.
pub fn push_be_u16(buf: &mut Vec<u8>, v: u16)
    ensures
        final(buf)@ == old(buf)@ + be_u16(v),
{
    proof {
        lemma_u16_bytes(v);
    }
    buf.push((v >> 8) as u8);
    buf.push((v & 0xff) as u8);
}

/// Appends `v` to `buf`, high byte first.
pub fn push_be_u32(buf: &mut Vec<u8>, v: u32)
    ensures
        final(buf)@ == old(buf)@ + be_u32(v),
{
    proof {
        lemma_u32_bytes(v);
    }
    buf.push((v >> 24) as u8);
    buf.push(((v >> 16) & 0xff) as u8);
    buf.push(((v >> 8) & 0xff) as u8);
    buf.push((v & 0xff) as u8);
}

/// Appends `v` to `buf`, high byte first.
pub fn push_be_u64(buf: &mut Vec<u8>, v: u64)
    ensures
        final(buf)@ == old(buf)@ + be_u64(v),
{
    proof {
        lemma_u64_bytes(v);
    }
    buf.push((v >> 56) as u8);
    buf.push(((v >> 48) & 0xff) as u8);
    buf.push(((v >> 40) & 0xff) as u8);
    buf.push(((v >> 32) & 0xff) as u8);
    buf.push(((v >> 24) & 0xff) as u8);
    buf.push(((v >> 16) & 0xff) as u8);
    buf.push(((v >> 8) & 0xff) as u8);
    buf.push((v & 0xff) as u8);
}

/// Reads the little-endian 16-bit number at `at`.
pub fn read_le_u16(data: &[u8], at: usize) -> (v: u16)
    requires
        at + 2 <= data.len(),
    ensures
        v == le_u16_at(data@, at as int),
{
    (data[at] as u16) | ((data[at + 1] as u16) << 8)
}

/// Reads the big-endian 16-bit number at `at`.
pub fn read_be_u16(data: &[u8], at: usize) -> (v: u16)
    requires
        at + 2 <= data.len(),
    ensures
        v == be_u16_at(data@, at as int),
{
    (data[at + 1] as u16) | ((data[at] as u16) << 8)
}

/// Reads the little-endian 32-bit number at `at`.
pub fn read_le_u32(data: &[u8], at: usize) -> (v: u32)
    requires
        at + 4 <= data.len(),
    ensures
        v == le_u32_at(data@, at as int),
{
    (data[at] as u32) | ((data[at + 1] as u32) << 8) | ((data[at + 2] as u32) << 16) | ((data[at
        + 3] as u32) << 24)
}

/// Reads the big-endian 32-bit number at `at`.
pub fn read_be_u32(data: &[u8], at: usize) -> (v: u32)
    requires
        at + 4 <= data.len(),
    ensures
        v == be_u32_at(data@, at as int),
{
    (data[at + 3] as u32) | ((data[at + 2] as u32) << 8) | ((data[at + 1] as u32) << 16) | ((
    data[at] as u32) << 24)
}

/// Reads the big-endian 64-bit number at `at`.
pub fn read_be_u64(data: &[u8], at: usize) -> (v: u64)
    requires
        at + 8 <= data.len(),
    ensures
        v == be_u64_at(data@, at as int),
{
    (data[at + 7] as u64) | ((data[at + 6] as u64) << 8) | ((data[at + 5] as u64) << 16) | ((
    data[at + 4] as u64) << 24) | ((data[at + 3] as u64) << 32) | ((data[at + 2] as u64) << 40)
        | ((data[at + 1] as u64) << 48) | ((data[at] as u64) << 56)
}

} // verus!

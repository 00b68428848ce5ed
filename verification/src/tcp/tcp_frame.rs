//! Frames of a stream link: the length of the data, the data, and the
//! length once more.

use crate::wire::{
    append, be_u32, be_u32_at, copy_range, lemma_be_u32_read_back, push_be_u32, read_be_u32,
    u32_of,
};
use vstd::prelude::*;

verus! {

/// The most bytes of data that one frame may carry: 1 MiB.
pub const MAX_FRAME_SIZE: usize = 1048576;

/// Why a frame was not sent or not accepted.
#[derive(Debug, Clone, Copy, PartialEq, Eq, Structural)]
pub enum FrameError {
    /// The data is too large for a frame, or the frame too large for the
    /// receiver's buffer.
    InvalidInput,
    /// The length after the data is not the length before it.
    InvalidData,
    /// The bytes end before the frame does.
    UnexpectedEof,
}

/// Length-prefixed framing with the length repeated after the data.
pub struct SlowTcpFrame;

/// The frame that carries `data`, for data of at most `MAX_FRAME_SIZE`
/// bytes.
pub open spec fn framed(data: Seq<u8>) -> Seq<u8> {
    be_u32(data.len() as u32) + data + be_u32(data.len() as u32)
}

/// The length that a four-byte field holds.
pub open spec fn field_len(field: [u8; 4]) -> u32 {
    u32_of(field[3], field[2], field[1], field[0])
}

/// What reading the length before the data decides: how many bytes of
/// data to read, or that a buffer of `capacity` bytes cannot take them.
pub open spec fn prefix_outcome(prefix: [u8; 4], capacity: usize) -> Result<usize, FrameError> {
    if capacity < field_len(prefix) {
        Err(FrameError::InvalidInput)
    } else {
        Ok(field_len(prefix) as usize)
    }
}

/// What reading the length after the data decides: the number of bytes
/// received, or that the two lengths differ.
pub open spec fn suffix_outcome(expected_len: usize, suffix: [u8; 4]) -> Result<usize, FrameError> {
    if expected_len != field_len(suffix) {
        Err(FrameError::InvalidData)
    } else {
        Ok(expected_len)
    }
}

/// The data of the frame at the start of `bytes`, for a receiver with a
/// buffer of `capacity` bytes; bytes after the frame are ignored.
pub open spec fn unframed(bytes: Seq<u8>, capacity: usize) -> Result<Seq<u8>, FrameError> {
    if bytes.len() < 4 {
        Err(FrameError::UnexpectedEof)
    } else if capacity < be_u32_at(bytes, 0) {
        Err(FrameError::InvalidInput)
    } else if bytes.len() < 8 + be_u32_at(bytes, 0) {
        Err(FrameError::UnexpectedEof)
    } else if be_u32_at(bytes, 4 + be_u32_at(bytes, 0)) != be_u32_at(bytes, 0) {
        Err(FrameError::InvalidData)
    } else {
        Ok(bytes.subrange(4, 4 + be_u32_at(bytes, 0)))
    }
}

impl SlowTcpFrame {
    /// The most bytes of data that one frame may carry.
    pub fn max_frame_size() -> (r: usize)
        ensures
            r == MAX_FRAME_SIZE,
    {
        MAX_FRAME_SIZE
    }

    /// The bytes to write to send `data`: `InvalidInput` for more than
    /// `MAX_FRAME_SIZE` bytes, else the frame.
    pub fn encode(data: &[u8]) -> (r: Result<Vec<u8>, FrameError>)
        ensures
            data@.len() > MAX_FRAME_SIZE ==> r == Err::<Vec<u8>, FrameError>(
                FrameError::InvalidInput,
            ),
            data@.len() <= MAX_FRAME_SIZE ==> (r matches Ok(frame) && frame@ == framed(data@)),
    {
        if data.len() > MAX_FRAME_SIZE {
            return Err(FrameError::InvalidInput);
        }
        let len = data.len() as u32;
        let mut frame: Vec<u8> = Vec::new();
        push_be_u32(&mut frame, len);
        append(&mut frame, data);
        push_be_u32(&mut frame, len);
        Ok(frame)
    }

    /// Sends `data` into `stream`, the bytes that go out on a link: the
    /// length, the data and the length once more are added to its end,
    /// and the number of data bytes is returned. Data of more than
    /// `MAX_FRAME_SIZE` bytes is refused with `InvalidInput`, and nothing
    /// is added.
    pub fn send(data: &[u8], stream: &mut Vec<u8>) -> (r: Result<usize, FrameError>)
        ensures
            data@.len() > MAX_FRAME_SIZE ==> r == Err::<usize, FrameError>(
                FrameError::InvalidInput,
            ) && final(stream)@ == old(stream)@,
            data@.len() <= MAX_FRAME_SIZE ==> r == Ok::<usize, FrameError>(data@.len() as usize)
                && final(stream)@ == old(stream)@ + framed(data@),
    {
        if data.len() > MAX_FRAME_SIZE {
            return Err(FrameError::InvalidInput);
        }
        let len = data.len() as u32;
        push_be_u32(stream, len);
        append(stream, data);
        push_be_u32(stream, len);
        assert(stream@ =~= old(stream)@ + framed(data@));
        Ok(data.len())
    }

    /// Takes the four bytes read before the data: how many bytes of data
    /// follow, or `InvalidInput` where a buffer of `capacity` bytes is
    /// too small for them.
    pub fn expect_data(prefix: [u8; 4], capacity: usize) -> (r: Result<usize, FrameError>)
        ensures
            r == prefix_outcome(prefix, capacity),
    {
        let expected_len: u32 = (prefix[3] as u32) | ((prefix[2] as u32) << 8) | ((
        prefix[1] as u32) << 16) | ((prefix[0] as u32) << 24);
        if capacity < expected_len as usize {
            return Err(FrameError::InvalidInput);
        }
        Ok(expected_len as usize)
    }

    /// Takes the four bytes read after the data: the number of bytes
    /// received, or `InvalidData` where they do not repeat the length
    /// read before the data.
    pub fn check_suffix(expected_len: usize, suffix: [u8; 4]) -> (r: Result<usize, FrameError>)
        ensures
            r == suffix_outcome(expected_len, suffix),
    {
        let suffix_len: u32 = (suffix[3] as u32) | ((suffix[2] as u32) << 8) | ((
        suffix[1] as u32) << 16) | ((suffix[0] as u32) << 24);
        if expected_len != suffix_len as usize {
            return Err(FrameError::InvalidData);
        }
        Ok(expected_len)
    }

    /// Reads the data of the frame at the start of `bytes` as a receiver
    /// with a buffer of `capacity` bytes does.
    pub fn decode(bytes: &[u8], capacity: usize) -> (r: Result<Vec<u8>, FrameError>)
        ensures
            match unframed(bytes@, capacity) {
                Ok(data) => r matches Ok(v) && v@ == data,
                Err(e) => r == Err::<Vec<u8>, FrameError>(e),
            },
    {
        if bytes.len() < 4 {
            return Err(FrameError::UnexpectedEof);
        }
        let expected_len = read_be_u32(bytes, 0) as usize;
        if capacity < expected_len {
            return Err(FrameError::InvalidInput);
        }
        if bytes.len() - 4 < expected_len || bytes.len() - 4 - expected_len < 4 {
            return Err(FrameError::UnexpectedEof);
        }
        let suffix_len = read_be_u32(bytes, 4 + expected_len) as usize;
        if expected_len != suffix_len {
            return Err(FrameError::InvalidData);
        }
        Ok(copy_range(bytes, 4, 4 + expected_len))
    }
}

/// Data of at most `MAX_FRAME_SIZE` bytes is read back from its frame by
/// a receiver whose buffer can take it.
pub proof fn law_frame_round_trip(data: Seq<u8>, capacity: usize)
    requires
        data.len() <= MAX_FRAME_SIZE,
        data.len() <= capacity,
    ensures
        unframed(framed(data), capacity) == Ok::<Seq<u8>, FrameError>(data),
{
    let n = data.len() as u32;
    let f = framed(data);
    assert(be_u32(n).len() == 4);
    assert(f.len() == 8 + data.len());
    assert(f.subrange(0, 4) =~= be_u32(n));
    assert(f.subrange(4 + n, 8 + n) =~= be_u32(n));
    assert(f.subrange(4, 4 + n) =~= data);
    lemma_be_u32_read_back(f, 0, n);
    lemma_be_u32_read_back(f, 4 + n, n);
}

} // verus!

//! What a stream link decides: the handshake that opens it and the
//! number that names it.

use crate::tcp::tcp_frame::{SlowTcpFrame, MAX_FRAME_SIZE};
use crate::tcp::tcp_router::SlowLinkId;
use crate::wire::same_bytes;
use vstd::prelude::*;

verus! {

/// Seconds that either side waits for the other's handshake frame.
pub const HANDSHAKE_TIMEOUT_SECS: u64 = 5;

/// Size of the buffer into which a handshake frame is received.
pub const HANDSHAKE_BUFFER_SIZE: usize = 32;

/// The bytes `SLOW_HELLO`, which the connecting side sends first.
pub open spec fn hello_bytes() -> Seq<u8> {
    seq![83u8, 76u8, 79u8, 87u8, 95u8, 72u8, 69u8, 76u8, 76u8, 79u8]
}

/// The bytes `SLOW_WELCOME`, which the accepting side answers.
pub open spec fn welcome_bytes() -> Seq<u8> {
    seq![83u8, 76u8, 79u8, 87u8, 95u8, 87u8, 69u8, 76u8, 67u8, 79u8, 77u8, 69u8]
}

/// The bytes that the connecting side sends first.
pub fn hello_message() -> (r: Vec<u8>)
    ensures
        r@ == hello_bytes(),
{
    let r = vec![83u8, 76u8, 79u8, 87u8, 95u8, 72u8, 69u8, 76u8, 76u8, 79u8];
    assert(r@ =~= hello_bytes());
    r
}

/// The bytes that the accepting side answers.
pub fn hello_response() -> (r: Vec<u8>)
    ensures
        r@ == welcome_bytes(),
{
    let r = vec![83u8, 76u8, 79u8, 87u8, 95u8, 87u8, 69u8, 76u8, 67u8, 79u8, 77u8, 69u8];
    assert(r@ =~= welcome_bytes());
    r
}

/// The connecting side's verdict on the handshake: `reply` is the data
/// of the frame that came back, or `None` where none came in time. The
/// link stands only if the reply is `SLOW_WELCOME`.
pub fn client_accepts(reply: Option<&[u8]>) -> (r: bool)
    ensures
        r == (reply matches Some(bytes) && bytes@ == welcome_bytes()),
{
    match reply {
        Some(bytes) => {
            let expected = hello_response();
            same_bytes(bytes, expected.as_slice())
        },
        None => false,
    }
}

/// The accepting side's answer: `received` is the data of the first
/// frame, or `None` where none came in time. `SLOW_WELCOME` is to be
/// sent if the frame was `SLOW_HELLO`; otherwise the link is refused.
pub fn server_reply(received: Option<&[u8]>) -> (r: Option<Vec<u8>>)
    ensures
        r is Some == (received matches Some(bytes) && bytes@ == hello_bytes()),
        r matches Some(reply) ==> reply@ == welcome_bytes(),
{
    match received {
        Some(bytes) => {
            let expected = hello_message();
            if same_bytes(bytes, expected.as_slice()) {
                Some(hello_response())
            } else {
                None
            }
        },
        None => None,
    }
}

/// The most bytes of data that a link sends in one frame.
pub fn max_frame_size() -> (r: usize)
    ensures
        r == MAX_FRAME_SIZE,
{
    SlowTcpFrame::max_frame_size()
}

/// Hands out link numbers, each once, counting up from zero.
pub struct LinkIdSource {
    next_id: SlowLinkId,
}

impl LinkIdSource {
    /// The number that the next call of `next` hands out.
    pub closed spec fn upcoming(self) -> SlowLinkId {
        self.next_id
    }

    /// A source that has handed out nothing.
    pub fn new() -> (s: LinkIdSource)
        ensures
            s.upcoming() == 0,
    {
        LinkIdSource { next_id: 0 }
    }

    /// The next number: one that no earlier call returned. `None` once
    /// all numbers are used.
    pub fn next(&mut self) -> (r: Option<SlowLinkId>)
        ensures
            old(self).upcoming() < u64::MAX ==> r == Some(old(self).upcoming())
                && final(self).upcoming() == old(self).upcoming() + 1,
            old(self).upcoming() == u64::MAX ==> r is None && *final(self) == *old(self),
    {
        if self.next_id == u64::MAX {
            return None;
        }
        let id = self.next_id;
        self.next_id = id + 1;
        Some(id)
    }
}

} // verus!

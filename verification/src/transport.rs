//! The framing of the per-worker byte-stream transport.  A request is
//! written as its serialised bytes followed by a newline; a response is
//! read as a 4-byte big-endian length followed by that many bytes, a zero
//! length denoting an empty response.  A worker announces itself on the
//! readiness pipe with its id as 4 little-endian bytes.  The reading and
//! writing happen outside the library; these functions pin down the bytes.

use vstd::prelude::*;

verus! {

/// The value of four bytes read in big-endian order.
pub open spec fn be_u32(b0: u8, b1: u8, b2: u8, b3: u8) -> int {
    b0 * 0x1000000 + b1 * 0x10000 + b2 * 0x100 + b3
}

/// The value of four bytes read in little-endian order.
pub open spec fn le_u32(b0: u8, b1: u8, b2: u8, b3: u8) -> int {
    b3 * 0x1000000 + b2 * 0x10000 + b1 * 0x100 + b0
}

/// Frame a serialised request for the wire: the payload bytes followed by
/// a newline.
pub fn frame_request(payload: &Vec<u8>) -> (r: Vec<u8>)
    ensures
        r@ == payload@.push(0x0au8),
{
    let n = payload.len();
    let mut framed: Vec<u8> = Vec::new();
    let mut i: usize = 0;
    while i < n
        invariant
            n == payload@.len(),
            0 <= i <= n,
            framed@ == payload@.subrange(0, i as int),
        decreases n - i,
    {
        framed.push(payload[i]);
        proof {
            assert(framed@ =~= payload@.subrange(0, i + 1));
        }
        i = i + 1;
    }
    proof {
        assert(framed@ =~= payload@);
    }
    framed.push(0x0a);
    framed
}

/// The length of a worker's response, from the 4-byte big-endian length
/// prefix.  A zero length denotes an empty response.
pub fn response_len(header: &[u8; 4]) -> (r: u32)
    ensures
        r == be_u32(header@[0], header@[1], header@[2], header@[3]),
{
    (header[0] as u32) * 0x1000000 + (header[1] as u32) * 0x10000 + (header[2] as u32) * 0x100 + (
    header[3] as u32)
}

/// The id a worker announced on the readiness pipe, from its 4-byte
/// little-endian encoding.
pub fn vm_id_from_announcement(buf: &[u8; 4]) -> (r: u32)
    ensures
        r == le_u32(buf@[0], buf@[1], buf@[2], buf@[3]),
{
    (buf[3] as u32) * 0x1000000 + (buf[2] as u32) * 0x10000 + (buf[1] as u32) * 0x100 + (buf[0]
        as u32)
}

} // verus!

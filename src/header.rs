//! The ring header at offset 0 of the shared window, and the liveness probe
//! built on its ping words: the host bumps `ping_req`, the kernel mirrors it
//! into `ping_resp`.
use vstd::prelude::*;
use crate::layout::{put, read_u32, u32_at, u32_le_bytes, write_u32};
use crate::vblk_ring::next_index;

verus! {

pub const HDR_VER_OFF: usize = 0;

pub const HDR_FLAGS_OFF: usize = 4;

pub const HDR_TICK_OFF: usize = 8;

pub const HDR_PING_REQ_OFF: usize = 16;

pub const HDR_PING_RESP_OFF: usize = 20;

/// Bytes of the header that the probe touches.
pub const HDR_LEN: usize = 24;

/// The window after the probe bumps `ping_req`.
pub open spec fn after_ping(w: Seq<u8>) -> Seq<u8> {
    put(w, HDR_PING_REQ_OFF as int, u32_le_bytes(next_index(u32_at(w, HDR_PING_REQ_OFF as int))))
}

/// Bumps `ping_req` (wrapping) and returns the value the kernel must mirror;
/// `None`, with the window untouched, when the window cannot hold a header.
pub fn begin_ping(w: &mut [u8]) -> (r: Option<u32>)
    ensures
        old(w)@.len() < HDR_LEN ==> r is None && final(w)@ == old(w)@,
        old(w)@.len() >= HDR_LEN ==> r == Some(next_index(u32_at(old(w)@, HDR_PING_REQ_OFF as int)))
            && final(w)@ == after_ping(old(w)@),
{
    if w.len() < HDR_LEN {
        return None;
    }
    let req = read_u32(w, HDR_PING_REQ_OFF);
    let seq = if req == u32::MAX {
        0
    } else {
        req + 1
    };
    write_u32(w, HDR_PING_REQ_OFF, seq);
    Some(seq)
}

/// The kernel has mirrored `seq` into `ping_resp`.
pub fn ping_answered(w: &[u8], seq: u32) -> (r: bool)
    ensures
        r == (w@.len() >= HDR_LEN && u32_at(w@, HDR_PING_RESP_OFF as int) == seq),
{
    if w.len() < HDR_LEN {
        return false;
    }
    read_u32(w, HDR_PING_RESP_OFF) == seq
}

/// Once the kernel copies the bumped `ping_req` into `ping_resp`, the probe
/// sees its answer.
pub proof fn lemma_mirrored_ping_answers(w: Seq<u8>)
    requires
        w.len() >= HDR_LEN,
    ensures
        ({
            let w1 = after_ping(w);
            let seq = next_index(u32_at(w, HDR_PING_REQ_OFF as int));
            let w2 = put(w1, HDR_PING_RESP_OFF as int, u32_le_bytes(u32_at(w1, HDR_PING_REQ_OFF as int)));
            u32_at(w1, HDR_PING_REQ_OFF as int) == seq && u32_at(w2, HDR_PING_RESP_OFF as int) == seq
        }),
{
    let seq = next_index(u32_at(w, HDR_PING_REQ_OFF as int));
    let w1 = after_ping(w);
    assert(w1.subrange(16, 20) =~= u32_le_bytes(seq));
    crate::layout::lemma_u32_round_trip(seq, w1, 16);
    let w2 = put(w1, HDR_PING_RESP_OFF as int, u32_le_bytes(seq));
    assert(w2.subrange(20, 24) =~= u32_le_bytes(seq));
    crate::layout::lemma_u32_round_trip(seq, w2, 20);
}

} // verus!

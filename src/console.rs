//! Decisions of the terminal bridge's input streamer: how far a chunk read
//! from host input has been pushed, and how long to wait before retrying.
use vstd::prelude::*;

verus! {

/// Largest chunk read from host input at once.
pub const INPUT_CHUNK: usize = 4096;

/// Deadline of one push.
pub const PUSH_DEADLINE_MS: u64 = 200;

/// Deadline of one pull; it also paces the output streamer.
pub const PULL_DEADLINE_MS: u64 = 50;

/// Wait after a push that took nothing.
pub const PUSH_RETRY_MS: u64 = 2;

/// Wait after a failed push or read.
pub const ERROR_RETRY_MS: u64 = 10;

/// Wait after end of input, which is treated as transient.
pub const EOF_RETRY_MS: u64 = 5;

/// Where the streamer stands in a chunk after a push.
#[derive(Clone, Copy, Debug, PartialEq, Eq, Structural)]
pub struct PushProgress {
    /// Bytes of the chunk pushed so far.
    pub off: usize,
    /// Milliseconds to wait before the next push.
    pub sleep_ms: u64,
}

/// After pushing `chunk[off..n]`: `accepted` is the count the terminal took,
/// `None` when the push failed. Progress never runs past the chunk.
pub fn after_push(off: usize, n: usize, accepted: Option<u32>) -> (r: PushProgress)
    requires
        off <= n,
    ensures
        match accepted {
            Some(a) => if a > 0 {
                r.sleep_ms == 0 && r.off == (if off + a <= n { off + a } else { n as int })
            } else {
                r.sleep_ms == PUSH_RETRY_MS && r.off == off
            },
            None => r.sleep_ms == ERROR_RETRY_MS && r.off == off,
        },
{
    match accepted {
        Some(a) => {
            if a > 0 {
                let left = n - off;
                let step = if (a as usize) < left {
                    a as usize
                } else {
                    left
                };
                PushProgress { off: off + step, sleep_ms: 0 }
            } else {
                PushProgress { off, sleep_ms: PUSH_RETRY_MS }
            }
        },
        None => PushProgress { off, sleep_ms: ERROR_RETRY_MS },
    }
}

/// After a read of host input that gave `n` bytes (`None`: the read failed):
/// the wait before reading again, zero when there is a chunk to push.
pub fn after_read(n: Option<usize>) -> (r: u64)
    ensures
        r == match n {
            Some(k) => if k == 0 { EOF_RETRY_MS } else { 0 },
            None => ERROR_RETRY_MS,
        },
{
    match n {
        Some(k) => if k == 0 {
            EOF_RETRY_MS
        } else {
            0
        },
        None => ERROR_RETRY_MS,
    }
}

} // verus!

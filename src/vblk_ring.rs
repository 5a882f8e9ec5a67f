//! Service of the VBLK ring that lives in the shared window.
//!
//! The control block at `VBLK_RING_OFF` holds the producer index, the
//! consumer index, the capacity and the slot stride; the slot records follow
//! it, and the data window starts at `VBLK_DATA_OFF` with one
//! `VBLK_SLOT_DATA_STRIDE` region per slot. Slots are consumed strictly in
//! `cons` order. Servicing one slot is split in two: `next_slot` reads and
//! validates the slot at `cons` and rejects it in place if it is malformed;
//! the caller then performs the device transfer, and `complete` stores the
//! outcome, sets the status and advances `cons`.
use vstd::prelude::*;
use crate::device::MapInfo;
use crate::layout::{put, read_u32, read_u64, u32_at, u32_le_bytes, u64_at, write_bytes, write_u32, write_u8};

verus! {

pub const VBLK_RING_OFF: usize = 0x1000;

/// Offset of the producer index.
pub const PROD_OFF: usize = 0x1000;

/// Offset of the consumer index.
pub const CONS_OFF: usize = 0x1004;

/// Offset of the ring capacity.
pub const CAP_OFF: usize = 0x1008;

/// Offset of the first slot record, right after the 16-byte control block.
pub const SLOTS_OFF: usize = 0x1010;

/// Size of one slot record.
pub const SLOT_SIZE: usize = 32;

/// Slot records that fit between the control block and the data window.
pub const MAX_SLOTS: u32 = 383;

pub const VBLK_DATA_OFF: usize = 0x4000;

pub const VBLK_SLOT_DATA_STRIDE: usize = 0x20000;

/// Data window of the default eight-slot ring.
pub const VBLK_DATA_MAX: usize = 0x100000;

pub const OP_READ: u8 = 0;

pub const OP_WRITE: u8 = 1;

pub const ST_OK: u8 = 0;

pub const ST_EINVAL: u8 = 1;

pub const ST_EIO: u8 = 5;

/// What the slot at `cons` asks for.
#[derive(Clone, Copy, Debug, PartialEq, Eq, Structural)]
pub enum SlotStep {
    /// `prod == cons`: nothing to do.
    Idle,
    /// The control block cannot be trusted (capacity zero, too large for the
    /// slot area, or a data window beyond the mapping); nothing is touched.
    Corrupt,
    /// The slot failed validation; it is marked EINVAL and `cons` advanced.
    Rejected { index: u32 },
    /// Read `len` bytes at `lba` into the data window at `data_off`.
    Read { index: u32, lba: u64, len: u32, data_off: u32 },
    /// Write the `len` bytes of the data window at `data_off` to `lba`.
    Write { index: u32, lba: u64, len: u32, data_off: u32 },
}

/// Why a mapping cannot carry the ring.
#[derive(Clone, Copy, Debug, PartialEq, Eq, Structural)]
pub enum RingError {
    TooSmall,
    NullBase,
}

pub open spec fn prod_of(w: Seq<u8>) -> u32 {
    u32_at(w, PROD_OFF as int)
}

pub open spec fn cons_of(w: Seq<u8>) -> u32 {
    u32_at(w, CONS_OFF as int)
}

pub open spec fn cap_of(w: Seq<u8>) -> u32 {
    u32_at(w, CAP_OFF as int)
}

pub open spec fn slot_off(index: int) -> int {
    SLOTS_OFF + SLOT_SIZE * index
}

pub open spec fn status_off(index: int) -> int {
    slot_off(index) + 9
}

pub open spec fn op_of(w: Seq<u8>, index: int) -> u8 {
    w[slot_off(index) + 8]
}

pub open spec fn lba_of(w: Seq<u8>, index: int) -> u64 {
    u64_at(w, slot_off(index) + 16)
}

pub open spec fn len_of(w: Seq<u8>, index: int) -> u32 {
    u32_at(w, slot_off(index) + 24)
}

pub open spec fn data_off_of(w: Seq<u8>, index: int) -> u32 {
    u32_at(w, slot_off(index) + 28)
}

/// Slot index that `cons` designates.
pub open spec fn cons_slot(w: Seq<u8>) -> int {
    (cons_of(w) % cap_of(w)) as int
}

/// `cons + 1`, wrapping at 2^32.
pub open spec fn next_index(c: u32) -> u32 {
    if c == u32::MAX {
        0
    } else {
        (c + 1) as u32
    }
}

/// The control block's capacity is usable with a window of `w.len()` bytes.
pub open spec fn ctrl_usable(w: Seq<u8>) -> bool {
    &&& 0 < cap_of(w) <= MAX_SLOTS
    &&& VBLK_DATA_OFF + cap_of(w) * VBLK_SLOT_DATA_STRIDE <= w.len()
}

/// A slot of `len` bytes at `data_off` passes validation in a ring of `cap` slots.
pub open spec fn slot_valid(len: u32, data_off: u32, cap: u32) -> bool {
    &&& len > 0
    &&& len % 512 == 0
    &&& len <= VBLK_SLOT_DATA_STRIDE
    &&& data_off + len <= cap * VBLK_SLOT_DATA_STRIDE
}

/// The step `next_slot` takes on window `w`.
pub open spec fn step_of(w: Seq<u8>) -> SlotStep {
    if w.len() < VBLK_DATA_OFF {
        SlotStep::Corrupt
    } else if prod_of(w) == cons_of(w) {
        SlotStep::Idle
    } else if !ctrl_usable(w) {
        SlotStep::Corrupt
    } else {
        let index = (cons_of(w) % cap_of(w)) as u32;
        let len = len_of(w, index as int);
        let data_off = data_off_of(w, index as int);
        let lba = lba_of(w, index as int);
        if !slot_valid(len, data_off, cap_of(w)) {
            SlotStep::Rejected { index }
        } else if op_of(w, index as int) == OP_READ {
            SlotStep::Read { index, lba, len, data_off }
        } else if op_of(w, index as int) == OP_WRITE {
            SlotStep::Write { index, lba, len, data_off }
        } else {
            SlotStep::Rejected { index }
        }
    }
}

/// Retires slot `index`: its status becomes `status` and `cons` moves from
/// `cons` to the next index.
pub open spec fn retire(w: Seq<u8>, index: int, status: u8, cons: u32) -> Seq<u8> {
    put(put(w, status_off(index), seq![status]), CONS_OFF as int, u32_le_bytes(next_index(cons)))
}

/// The window after `next_slot`.
pub open spec fn after_step(w: Seq<u8>) -> Seq<u8> {
    match step_of(w) {
        SlotStep::Rejected { index } => retire(w, index as int, ST_EINVAL, cons_of(w)),
        _ => w,
    }
}

/// The window after `complete(step, outcome)`, where the step was taken on `w`.
/// A read stores the first `min(|out|, len)` bytes of its result.
pub open spec fn after_complete(w: Seq<u8>, step: SlotStep, outcome: Option<Seq<u8>>) -> Seq<u8> {
    match step {
        SlotStep::Read { index, len, data_off, .. } => match outcome {
            Some(out) => {
                let n = if out.len() < len { out.len() as int } else { len as int };
                retire(
                    put(w, VBLK_DATA_OFF + data_off, out.take(n)),
                    index as int,
                    ST_OK,
                    cons_of(w),
                )
            },
            None => retire(w, index as int, ST_EIO, cons_of(w)),
        },
        SlotStep::Write { index, .. } => retire(
            w,
            index as int,
            if outcome is Some { ST_OK } else { ST_EIO },
            cons_of(w),
        ),
        _ => w,
    }
}

/// Retiring a slot sets its status byte, moves `cons` to the next index and
/// leaves the producer index and the capacity as they were.
pub proof fn lemma_retire_fields(w: Seq<u8>, index: int, status: u8, cons: u32)
    requires
        VBLK_DATA_OFF <= w.len(),
        0 <= index < MAX_SLOTS,
    ensures
        retire(w, index, status, cons).len() == w.len(),
        retire(w, index, status, cons)[status_off(index)] == status,
        cons_of(retire(w, index, status, cons)) == next_index(cons),
        prod_of(retire(w, index, status, cons)) == prod_of(w),
        cap_of(retire(w, index, status, cons)) == cap_of(w),
{
    let r = retire(w, index, status, cons);
    assert(r.subrange(CONS_OFF as int, CONS_OFF + 4) =~= u32_le_bytes(next_index(cons)));
    crate::layout::lemma_u32_round_trip(next_index(cons), r, CONS_OFF as int);
}

/// With `prod == cons` the ring is idle: no transfer is asked for and the
/// window is left exactly as it was.
pub proof fn lemma_idle_ring_untouched(w: Seq<u8>)
    requires
        VBLK_DATA_OFF <= w.len(),
        prod_of(w) == cons_of(w),
    ensures
        step_of(w) == SlotStep::Idle,
        after_step(w) == w,
{
}

/// A slot that fails validation (zero, misaligned or oversized length, or a
/// data range beyond `cap` strides) is rejected without a transfer: its status
/// becomes EINVAL and `cons` advances by one.
pub proof fn lemma_invalid_slot_rejected(w: Seq<u8>)
    requires
        VBLK_DATA_OFF <= w.len(),
        prod_of(w) != cons_of(w),
        ctrl_usable(w),
        !slot_valid(
            len_of(w, cons_slot(w)),
            data_off_of(w, cons_slot(w)),
            cap_of(w),
        ),
    ensures
        step_of(w) == (SlotStep::Rejected { index: cons_slot(w) as u32 }),
        after_step(w)[status_off(cons_slot(w))] == ST_EINVAL,
        cons_of(after_step(w)) == next_index(cons_of(w)),
        prod_of(after_step(w)) == prod_of(w),
{
    let index = cons_slot(w);
    lemma_retire_fields(w, index, ST_EINVAL, cons_of(w));
}

/// Completing a read step retires its slot: status OK when the transfer
/// succeeded and EIO when it failed, `cons` advanced by one; a successful
/// read leaves the first `min(|out|, len)` bytes of its result at the slot's
/// place in the data window.
pub proof fn lemma_read_completion(w: Seq<u8>, index: u32, lba: u64, len: u32, data_off: u32, outcome: Option<Seq<u8>>)
    requires
        step_of(w) == (SlotStep::Read { index, lba, len, data_off }),
    ensures
        after_complete(w, step_of(w), outcome)[status_off(index as int)] == (if outcome is Some {
            ST_OK
        } else {
            ST_EIO
        }),
        cons_of(after_complete(w, step_of(w), outcome)) == next_index(cons_of(w)),
        prod_of(after_complete(w, step_of(w), outcome)) == prod_of(w),
        (outcome matches Some(out) ==> {
            let n = if out.len() < len { out.len() as int } else { len as int };
            after_complete(w, step_of(w), outcome).subrange(
                VBLK_DATA_OFF + data_off,
                VBLK_DATA_OFF + data_off + n,
            ) == out.take(n)
        }),
{
    let step = step_of(w);
    assert(w.len() >= VBLK_DATA_OFF && index < MAX_SLOTS);
    match outcome {
        Some(out) => {
            let n = if out.len() < len { out.len() as int } else { len as int };
            let w0 = put(w, VBLK_DATA_OFF + data_off, out.take(n));
            assert(cons_of(w0) == cons_of(w) && prod_of(w0) == prod_of(w)) by {
                assert(w0.subrange(CONS_OFF as int, CONS_OFF + 4) =~= w.subrange(CONS_OFF as int, CONS_OFF + 4));
                assert(w0.subrange(PROD_OFF as int, PROD_OFF + 4) =~= w.subrange(PROD_OFF as int, PROD_OFF + 4));
            }
            lemma_retire_fields(w0, index as int, ST_OK, cons_of(w));
            let w1 = retire(w0, index as int, ST_OK, cons_of(w));
            assert(w1 == after_complete(w, step, outcome));
            assert(w1.subrange(VBLK_DATA_OFF + data_off, VBLK_DATA_OFF + data_off + n) =~= out.take(n));
        },
        None => {
            lemma_retire_fields(w, index as int, ST_EIO, cons_of(w));
        },
    }
}

/// Completing a write step retires its slot: status OK when the transfer
/// succeeded and EIO when it failed, `cons` advanced by one.
pub proof fn lemma_write_completion(w: Seq<u8>, index: u32, lba: u64, len: u32, data_off: u32, outcome: Option<Seq<u8>>)
    requires
        step_of(w) == (SlotStep::Write { index, lba, len, data_off }),
    ensures
        after_complete(w, step_of(w), outcome)[status_off(index as int)] == (if outcome is Some {
            ST_OK
        } else {
            ST_EIO
        }),
        cons_of(after_complete(w, step_of(w), outcome)) == next_index(cons_of(w)),
        prod_of(after_complete(w, step_of(w), outcome)) == prod_of(w),
{
    assert(w.len() >= VBLK_DATA_OFF && index < MAX_SLOTS);
    lemma_retire_fields(w, index as int, if outcome is Some { ST_OK } else { ST_EIO }, cons_of(w));
}

pub struct VblkRing {
    size: usize,
}

impl VblkRing {
    pub closed spec fn size(&self) -> nat {
        self.size as nat
    }

    /// Accepts a mapping large enough for the control block, the slots and
    /// the default data window, at a non-null host address.
    pub fn new(map: MapInfo) -> (r: Result<VblkRing, RingError>)
        ensures
            map.size <= VBLK_DATA_OFF + VBLK_DATA_MAX ==> r == Err::<VblkRing, RingError>(
                RingError::TooSmall,
            ),
            map.size > VBLK_DATA_OFF + VBLK_DATA_MAX && map.user_base == 0 ==> r == Err::<
                VblkRing,
                RingError,
            >(RingError::NullBase),
            map.size > VBLK_DATA_OFF + VBLK_DATA_MAX && map.user_base != 0 ==> (r matches Ok(v)
                && v.size() == map.size as usize),
    {
        if map.size <= (VBLK_DATA_OFF + VBLK_DATA_MAX) as u64 {
            return Err(RingError::TooSmall);
        }
        if map.user_base == 0 {
            return Err(RingError::NullBase);
        }
        Ok(VblkRing { size: map.size as usize })
    }

    /// Reads and validates the slot at `cons`. A malformed slot (bad length,
    /// misaligned, oversized, outside the data window, unknown opcode) is
    /// marked EINVAL and `cons` advanced, with no device transfer asked for.
    pub fn next_slot(&self, w: &mut [u8]) -> (r: SlotStep)
        ensures
            r == step_of(old(w)@),
            final(w)@ == after_step(old(w)@),
    {
        if w.len() < VBLK_DATA_OFF {
            return SlotStep::Corrupt;
        }
        let prod = read_u32(w, PROD_OFF);
        let cons = read_u32(w, CONS_OFF);
        if prod == cons {
            return SlotStep::Idle;
        }
        let cap = read_u32(w, CAP_OFF);
        if cap == 0 || cap > MAX_SLOTS || (w.len() - VBLK_DATA_OFF) / VBLK_SLOT_DATA_STRIDE < cap as usize {
            return SlotStep::Corrupt;
        }
        let index = cons % cap;
        let so = SLOTS_OFF + SLOT_SIZE * index as usize;
        let len = read_u32(w, so + 24);
        let data_off = read_u32(w, so + 28);
        let lba = read_u64(w, so + 16);
        let op = w[so + 8];
        let window = cap as u64 * VBLK_SLOT_DATA_STRIDE as u64;
        let valid = len > 0 && len % 512 == 0 && len as usize <= VBLK_SLOT_DATA_STRIDE
            && data_off as u64 + len as u64 <= window;
        if valid && op == OP_READ {
            return SlotStep::Read { index, lba, len, data_off };
        }
        if valid && op == OP_WRITE {
            return SlotStep::Write { index, lba, len, data_off };
        }
        write_u8(w, so + 9, ST_EINVAL);
        let next = if cons == u32::MAX {
            0
        } else {
            cons + 1
        };
        write_u32(w, CONS_OFF, next);
        SlotStep::Rejected { index }
    }

    /// The bytes a write step sends: the slot's region of the data window.
    pub fn payload(&self, w: &[u8], step: SlotStep) -> (r: Vec<u8>)
        requires
            step == step_of(w@),
            step is Write,
        ensures
            r@ == w@.subrange(
                VBLK_DATA_OFF + step->Write_data_off,
                VBLK_DATA_OFF + step->Write_data_off + step->Write_len,
            ),
    {
        match step {
            SlotStep::Write { data_off, len, .. } => {
                let start = VBLK_DATA_OFF + data_off as usize;
                let end = start + len as usize;
                let mut out: Vec<u8> = Vec::new();
                let mut i: usize = start;
                while i < end
                    invariant
                        start <= i <= end,
                        end <= w@.len(),
                        out@ == w@.subrange(start as int, i as int),
                    decreases end - i,
                {
                    out.push(w[i]);
                    i = i + 1;
                    assert(out@ =~= w@.subrange(start as int, i as int));
                }
                out
            },
            _ => Vec::new(),
        }
    }

    /// Records the device's answer to a read or write step: a read stores
    /// the first `min(|out|, len)` bytes of its result in the data window;
    /// the status becomes OK, or EIO when the transfer failed (`None`); and
    /// `cons` advances. Other steps leave the window as it is.
    pub fn complete(&self, w: &mut [u8], step: SlotStep, outcome: Option<Vec<u8>>)
        requires
            step == step_of(old(w)@),
        ensures
            final(w)@ == after_complete(
                old(w)@,
                step,
                match outcome {
                    Some(o) => Some(o@),
                    None => None,
                },
            ),
    {
        match step {
            SlotStep::Read { index, len, data_off, .. } => {
                let cons = read_u32(w, CONS_OFF);
                let so = SLOTS_OFF + SLOT_SIZE * index as usize;
                match outcome {
                    Some(out) => {
                        let n = if out.len() < len as usize {
                            out.len()
                        } else {
                            len as usize
                        };
                        write_bytes(w, VBLK_DATA_OFF + data_off as usize, out.as_slice(), n);
                        self.retire_slot(w, so, ST_OK, cons);
                    },
                    None => {
                        self.retire_slot(w, so, ST_EIO, cons);
                    },
                }
            },
            SlotStep::Write { index, .. } => {
                let cons = read_u32(w, CONS_OFF);
                let so = SLOTS_OFF + SLOT_SIZE * index as usize;
                let status = if outcome.is_some() {
                    ST_OK
                } else {
                    ST_EIO
                };
                self.retire_slot(w, so, status, cons);
            },
            _ => {},
        }
    }

    fn retire_slot(&self, w: &mut [u8], so: usize, status: u8, cons: u32)
        requires
            so + 10 <= VBLK_DATA_OFF <= old(w)@.len(),
        ensures
            final(w)@ == put(
                put(old(w)@, so + 9, seq![status]),
                CONS_OFF as int,
                u32_le_bytes(next_index(cons)),
            ),
    {
        write_u8(w, so + 9, status);
        let next = if cons == u32::MAX {
            0
        } else {
            cons + 1
        };
        write_u32(w, CONS_OFF, next);
    }
}

} // verus!

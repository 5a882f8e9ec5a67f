//! Single-producer / single-consumer byte ring with a power-of-two capacity.
//!
//! `head` and `tail` are kept reduced modulo the capacity; the occupied
//! region runs from `tail` up to (not including) `head`, wrapping around the
//! end of the buffer. One slot always stays empty so that a full ring can be
//! told apart from an empty one: at most `cap - 1` bytes are ever held.
//! Both ends take the ring by `&mut`; a producer and a consumer on different
//! threads share it behind a lock.
use vstd::prelude::*;
use vstd::arithmetic::power2::pow2;

verus! {

/// `n` is a power of two that the ring's 32-bit counters can index.
pub open spec fn is_ring_capacity(n: nat) -> bool {
    exists|k: nat| k < 32 && pow2(k) == n
}

pub open spec fn min_nat(a: nat, b: nat) -> nat {
    if a <= b {
        a
    } else {
        b
    }
}

/// Reduces `x < 2 * cap` into `[0, cap)`.
pub open spec fn wrap(x: int, cap: int) -> int {
    if x < cap {
        x
    } else {
        x - cap
    }
}

/// Distance from `base` forward to `p` around a ring of `cap` positions.
pub open spec fn offset_from(p: int, base: int, cap: int) -> int {
    if p >= base {
        p - base
    } else {
        cap - base + p
    }
}

/// Bytes a ring of capacity `cap` holding `used` bytes still accepts.
pub open spec fn free_space(cap: nat, used: nat) -> nat {
    if used + 1 <= cap {
        (cap - used - 1) as nat
    } else {
        0
    }
}

/// Count returned by `write(src)` on a ring that holds `c`.
pub open spec fn write_count(cap: nat, c: Seq<u8>, src: Seq<u8>) -> nat {
    min_nat(free_space(cap, c.len()), src.len())
}

/// Contents after `write(src)` on a ring that holds `c`.
pub open spec fn after_write(cap: nat, c: Seq<u8>, src: Seq<u8>) -> Seq<u8> {
    c + src.take(write_count(cap, c, src) as int)
}

/// Count returned by `read(dst)` with `|dst| == dst_len` on a ring that holds `c`.
pub open spec fn read_count(c: Seq<u8>, dst_len: nat) -> nat {
    min_nat(c.len(), dst_len)
}

/// Contents after a read of up to `dst_len` bytes from a ring that holds `c`.
pub open spec fn after_read(c: Seq<u8>, dst_len: nat) -> Seq<u8> {
    c.skip(read_count(c, dst_len) as int)
}

/// What a run of write/read pairs hands back: each pair writes `srcs[i]`,
/// then reads into a buffer of `dst_lens[i]` bytes.
pub open spec fn pair_reads(cap: nat, c: Seq<u8>, srcs: Seq<Seq<u8>>, dst_lens: Seq<nat>) -> Seq<
    Seq<u8>,
>
    decreases srcs.len(),
{
    if srcs.len() == 0 || dst_lens.len() == 0 {
        Seq::empty()
    } else {
        let c1 = after_write(cap, c, srcs[0]);
        let out = c1.take(read_count(c1, dst_lens[0]) as int);
        seq![out] + pair_reads(cap, after_read(c1, dst_lens[0]), srcs.drop_first(), dst_lens.drop_first())
    }
}

/// On a ring holding `c` with room for all of `src`, a write of `src` takes
/// every byte, and a read into a buffer of at least `|c| + |src|` bytes then
/// returns `c` followed by `src` and leaves the ring empty.
pub proof fn lemma_write_then_read_in_order(cap: nat, c: Seq<u8>, src: Seq<u8>, dst_len: nat)
    requires
        c.len() + src.len() + 1 <= cap,
        dst_len >= c.len() + src.len(),
    ensures
        write_count(cap, c, src) == src.len(),
        read_count(after_write(cap, c, src), dst_len) == c.len() + src.len(),
        after_write(cap, c, src).take((c.len() + src.len()) as int) == c + src,
        after_read(after_write(cap, c, src), dst_len) == Seq::<u8>::empty(),
{
    assert(src.take(src.len() as int) =~= src);
    let c1 = after_write(cap, c, src);
    assert(c1 =~= c + src);
    assert(c1.take(c1.len() as int) =~= c1);
    assert(c1.skip(c1.len() as int) =~= Seq::<u8>::empty());
}

/// Write/read pairs on an empty ring, each write fitting in the ring and each
/// read buffer at least as long as its write, read back every write whole and
/// in the order written.
pub proof fn lemma_pairs_read_in_order(cap: nat, srcs: Seq<Seq<u8>>, dst_lens: Seq<nat>)
    requires
        srcs.len() == dst_lens.len(),
        forall|i: int| 0 <= i < srcs.len() ==> #[trigger] srcs[i].len() + 1 <= cap,
        forall|i: int| 0 <= i < srcs.len() ==> #[trigger] dst_lens[i] >= srcs[i].len(),
    ensures
        pair_reads(cap, Seq::<u8>::empty(), srcs, dst_lens) == srcs,
    decreases srcs.len(),
{
    if srcs.len() > 0 {
        let e = Seq::<u8>::empty();
        assert(srcs[0].len() + 1 <= cap);
        assert(dst_lens[0] >= srcs[0].len());
        lemma_write_then_read_in_order(cap, e, srcs[0], dst_lens[0]);
        assert(e + srcs[0] =~= srcs[0]);
        let rest = srcs.drop_first();
        let rest_lens = dst_lens.drop_first();
        assert forall|i: int| 0 <= i < rest.len() implies #[trigger] rest[i].len() + 1 <= cap by {
            assert(rest[i] == srcs[i + 1]);
        }
        assert forall|i: int| 0 <= i < rest.len() implies #[trigger] rest_lens[i] >= rest[i].len() by {
            assert(rest[i] == srcs[i + 1]);
            assert(rest_lens[i] == dst_lens[i + 1]);
        }
        lemma_pairs_read_in_order(cap, rest, rest_lens);
        assert(seq![srcs[0]] + rest =~= srcs);
    }
}

/// Every well-formed ring, the state after any sequence of operations, holds
/// `(head - tail) mod cap` bytes, which is at most `cap - 1`.
pub proof fn lemma_occupancy_bounded(r: &ByteRing)
    requires
        r.wf(),
    ensures
        r.contents().len() == (r.head_index() - r.tail_index()) % (r.capacity() as int),
        (r.head_index() - r.tail_index()) % (r.capacity() as int) <= r.capacity() - 1,
{
    r.lemma_counters();
    let h = r.head_index() as int;
    let t = r.tail_index() as int;
    let m = r.capacity() as int;
    if h >= t {
        vstd::arithmetic::div_mod::lemma_small_mod((h - t) as nat, m as nat);
    } else {
        vstd::arithmetic::div_mod::lemma_mod_add_multiples_vanish(h - t, m);
        vstd::arithmetic::div_mod::lemma_small_mod((m + h - t) as nat, m as nat);
    }
}

pub struct ByteRing {
    buf: Vec<u8>,
    cap: u32,
    head: u32,
    tail: u32,
}

impl ByteRing {
    /// Structural invariant: capacity a power of two, counters in range.
    pub closed spec fn wf(&self) -> bool {
        &&& is_ring_capacity(self.cap as nat)
        &&& self.cap <= 0x8000_0000
        &&& self.buf@.len() == self.cap as nat
        &&& self.head < self.cap
        &&& self.tail < self.cap
    }

    pub closed spec fn capacity(&self) -> nat {
        self.cap as nat
    }

    /// Producer counter, reduced modulo the capacity.
    pub closed spec fn head_index(&self) -> nat {
        self.head as nat
    }

    /// Consumer counter, reduced modulo the capacity.
    pub closed spec fn tail_index(&self) -> nat {
        self.tail as nat
    }

    proof fn lemma_counters(&self)
        requires
            self.wf(),
        ensures
            self.head_index() < self.capacity(),
            self.tail_index() < self.capacity(),
            self.contents().len() == offset_from(
                self.head_index() as int,
                self.tail_index() as int,
                self.capacity() as int,
            ),
    {
    }

    closed spec fn used(&self) -> nat {
        offset_from(self.head as int, self.tail as int, self.cap as int) as nat
    }

    /// The bytes held, oldest first.
    pub closed spec fn contents(&self) -> Seq<u8> {
        Seq::new(self.used(), |i: int| self.buf@[wrap(self.tail + i, self.cap as int)])
    }

    /// Creates an empty ring of `cap` bytes.
    pub fn with_capacity(cap: usize) -> (r: ByteRing)
        requires
            is_ring_capacity(cap as nat),
        ensures
            r.wf(),
            r.capacity() == cap as nat,
            r.contents() == Seq::<u8>::empty(),
    {
        proof {
            let k = choose|k: nat| k < 32 && pow2(k) == cap as nat;
            vstd::bits::lemma_u32_pow2_no_overflow(k);
            vstd::arithmetic::power2::lemma2_to64();
            if k < 31 {
                vstd::arithmetic::power2::lemma_pow2_strictly_increases(k, 31);
            }
        }
        let buf = vec![0u8; cap];
        let r = ByteRing { buf, cap: cap as u32, head: 0, tail: 0 };
        assert(r.contents() =~= Seq::<u8>::empty());
        r
    }

    fn used_now(&self) -> (n: u32)
        requires
            self.wf(),
        ensures
            n as nat == self.used(),
            n < self.cap,
    {
        if self.head >= self.tail {
            self.head - self.tail
        } else {
            self.cap - self.tail + self.head
        }
    }

    /// Copies `min(free, |src|)` bytes of `src` into the ring and returns
    /// that count.
    pub fn write(&mut self, src: &[u8]) -> (n: usize)
        requires
            old(self).wf(),
        ensures
            final(self).wf(),
            final(self).capacity() == old(self).capacity(),
            n as nat == write_count(old(self).capacity(), old(self).contents(), src@),
            final(self).contents() == after_write(old(self).capacity(), old(self).contents(), src@),
    {
        let ghost c0 = self.contents();
        let ghost buf0 = self.buf@;
        let used = self.used_now();
        let free = self.cap - used - 1;
        let n: usize = if (free as usize) < src.len() {
            free as usize
        } else {
            src.len()
        };
        let cap = self.cap as usize;
        let head = self.head as usize;
        let mut idx: usize = head;
        let mut i: usize = 0;
        while i < n
            invariant
                self.wf(),
                self.cap == old(self).cap,
                self.head == old(self).head,
                self.tail == old(self).tail,
                cap == self.cap,
                head == self.head,
                n <= free,
                free == self.cap - used - 1,
                used as nat == old(self).used(),
                n <= src@.len(),
                i <= n,
                idx == wrap(head + i, cap as int),
                forall|p: int|
                    0 <= p < cap ==> {
                        let d = offset_from(p, head as int, cap as int);
                        (d < i ==> #[trigger] self.buf@[p] == src@[d]) && (d >= i ==> self.buf@[p]
                            == buf0[p])
                    },
            decreases n - i,
        {
            self.buf.set(idx, src[i]);
            idx = if idx + 1 == cap {
                0
            } else {
                idx + 1
            };
            i = i + 1;
        }
        let s = head + n;
        self.head = if s >= cap {
            (s - cap) as u32
        } else {
            s as u32
        };
        proof {
            let c1 = self.contents();
            let expect = after_write(old(self).capacity(), c0, src@);
            assert(c1.len() == expect.len());
            assert forall|j: int| 0 <= j < c1.len() implies c1[j] == expect[j] by {
                let p = wrap(self.tail + j, cap as int);
                assert(0 <= p < cap);
                if j < used {
                    assert(offset_from(p, head as int, cap as int) >= n);
                } else {
                    assert(offset_from(p, head as int, cap as int) == j - used);
                }
            }
            assert(c1 =~= expect);
        }
        n
    }

    /// Moves `min(used, |dst|)` of the oldest bytes into the front of `dst`
    /// and returns that count; the rest of `dst` is left as it was.
    pub fn read(&mut self, dst: &mut [u8]) -> (n: usize)
        requires
            old(self).wf(),
        ensures
            final(self).wf(),
            final(self).capacity() == old(self).capacity(),
            n as nat == read_count(old(self).contents(), old(dst)@.len()),
            final(self).contents() == after_read(old(self).contents(), old(dst)@.len()),
            final(dst)@.len() == old(dst)@.len(),
            final(dst)@.take(n as int) == old(self).contents().take(n as int),
            final(dst)@.skip(n as int) == old(dst)@.skip(n as int),
    {
        let ghost c0 = self.contents();
        let ghost dst0 = dst@;
        let used = self.used_now();
        let n: usize = if (used as usize) < dst.len() {
            used as usize
        } else {
            dst.len()
        };
        let cap = self.cap as usize;
        let tail = self.tail as usize;
        let mut idx: usize = tail;
        let mut i: usize = 0;
        while i < n
            invariant
                self.wf(),
                self == old(self),
                cap == self.cap,
                tail == self.tail,
                c0 == self.contents(),
                n <= used,
                used as nat == self.used(),
                n <= dst0.len(),
                dst@.len() == dst0.len(),
                i <= n,
                idx == wrap(tail + i, cap as int),
                forall|j: int| 0 <= j < i ==> dst@[j] == c0[j],
                forall|j: int| i <= j < dst0.len() ==> dst@[j] == dst0[j],
            decreases n - i,
        {
            dst[i] = self.buf[idx];
            idx = if idx + 1 == cap {
                0
            } else {
                idx + 1
            };
            i = i + 1;
        }
        let s = tail + n;
        self.tail = if s >= cap {
            (s - cap) as u32
        } else {
            s as u32
        };
        proof {
            let c1 = self.contents();
            let expect = after_read(c0, dst0.len());
            assert(c1.len() == expect.len());
            assert forall|j: int| 0 <= j < c1.len() implies c1[j] == expect[j] by {
                assert(wrap(self.tail + j, cap as int) == wrap(tail + n + j, cap as int));
            }
            assert(c1 =~= expect);
            assert(dst@.take(n as int) =~= c0.take(n as int));
            assert(dst@.skip(n as int) =~= dst0.skip(n as int));
        }
        n
    }
}

} // verus!

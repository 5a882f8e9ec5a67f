//! Bounded-depth submission queue for block I/O started by host-side code.
//!
//! Requests wait in a FIFO until fewer than `depth` are in flight; `kick`
//! moves them into the in-flight set and hands them to the caller, which
//! performs the transfers. `drain_completions` takes what polling each
//! in-flight request gave, retires the finished ones (a short read is
//! reported, not failed; errors are reported, never retried) and backfills
//! from the FIFO. At every observable point at most `depth` requests are in
//! flight.
use vstd::prelude::*;
use std::collections::VecDeque;
use crate::layout::{push_u32, push_u64, u32_le_bytes, u64_le_bytes};

verus! {

#[derive(Clone, Copy, Debug, PartialEq, Eq, Structural)]
pub enum Op {
    Read,
    Write,
}

#[derive(Debug)]
pub struct VblkReq {
    pub op: Op,
    pub lba: u64,
    pub len: u32,
    /// For a write, the payload; a read transfers `len` bytes.
    pub buf: Vec<u8>,
}

/// What the queue keeps of a request while it is in flight.
#[derive(Clone, Copy, Debug, PartialEq, Eq, Structural)]
pub struct Inflight {
    pub id: u128,
    pub op: Op,
    pub lba: u64,
    pub len: u32,
}

/// What polling an in-flight request's reply endpoint gave.
#[derive(Clone, Copy, Debug, PartialEq, Eq, Structural)]
pub enum Poll {
    /// No reply yet.
    Pending,
    /// The transfer succeeded and returned `len` bytes.
    Done { len: usize },
    /// The transfer failed.
    Failed,
    /// The endpoint closed without a reply.
    Closed,
}

/// How a retired request ended; the caller logs these.
#[derive(Clone, Copy, Debug, PartialEq, Eq, Structural)]
pub enum Retired {
    Complete { id: u128 },
    ShortRead { id: u128, lba: u64, got: usize, expected: u32 },
    Failed { id: u128, lba: u64 },
    Closed { id: u128, lba: u64 },
}

pub open spec fn op_byte(op: Op) -> u8 {
    match op {
        Op::Read => 0u8,
        Op::Write => 1u8,
    }
}

/// Legacy wire format: `[op:1][reserved:3][lba:8][len:4][data...]`.
pub open spec fn encoded(req: VblkReq) -> Seq<u8> {
    seq![op_byte(req.op), 0u8, 0u8, 0u8] + u64_le_bytes(req.lba) + u32_le_bytes(req.len) + req.buf@
}

/// The record kept for a request while it is in flight.
pub open spec fn record_of(e: (u128, VblkReq)) -> Inflight {
    Inflight { id: e.0, op: e.1.op, lba: e.1.lba, len: e.1.len }
}

/// The report for a record whose poll finished.
pub open spec fn report(rec: Inflight, poll: Poll) -> Retired {
    match poll {
        Poll::Done { len } => if rec.op == Op::Read && len != rec.len {
            Retired::ShortRead { id: rec.id, lba: rec.lba, got: len, expected: rec.len }
        } else {
            Retired::Complete { id: rec.id }
        },
        Poll::Failed => Retired::Failed { id: rec.id, lba: rec.lba },
        _ => Retired::Closed { id: rec.id, lba: rec.lba },
    }
}

/// The records whose poll is still pending, in order.
pub open spec fn still_running(infl: Seq<Inflight>, polls: Seq<Poll>) -> Seq<Inflight>
    decreases infl.len(),
{
    if infl.len() == 0 {
        Seq::empty()
    } else {
        let rest = still_running(infl.drop_last(), polls.take(infl.len() - 1));
        if polls[infl.len() - 1] == Poll::Pending {
            rest.push(infl.last())
        } else {
            rest
        }
    }
}

/// The reports of the records whose poll finished, in order.
pub open spec fn reports_of(infl: Seq<Inflight>, polls: Seq<Poll>) -> Seq<Retired>
    decreases infl.len(),
{
    if infl.len() == 0 {
        Seq::empty()
    } else {
        let rest = reports_of(infl.drop_last(), polls.take(infl.len() - 1));
        if polls[infl.len() - 1] == Poll::Pending {
            rest
        } else {
            rest.push(report(infl.last(), polls[infl.len() - 1]))
        }
    }
}

/// How many queued requests a kick starts with `running` in flight.
pub open spec fn launch_count(depth: nat, running: nat, queued: nat) -> nat {
    if running >= depth {
        0
    } else if queued <= depth - running {
        queued
    } else {
        (depth - running) as nat
    }
}

/// At every observable point at most `depth` requests are in flight.
pub proof fn lemma_inflight_within_depth(q: &Vblk)
    requires
        q.wf(),
    ensures
        q.running().len() <= q.depth(),
{
}

/// Once every in-flight request has an answer (success, short read, error or
/// closed endpoint), all of them leave the in-flight set, each reported once
/// and in order.
pub proof fn lemma_answered_requests_retire(infl: Seq<Inflight>, polls: Seq<Poll>)
    requires
        polls.len() == infl.len(),
        forall|i: int| 0 <= i < polls.len() ==> polls[i] != Poll::Pending,
    ensures
        still_running(infl, polls) == Seq::<Inflight>::empty(),
        reports_of(infl, polls).len() == infl.len(),
        forall|i: int| 0 <= i < infl.len() ==> #[trigger] reports_of(infl, polls)[i] == report(infl[i], polls[i]),
    decreases infl.len(),
{
    if infl.len() > 0 {
        let n = infl.len() - 1;
        let ps = polls.take(n);
        assert forall|i: int| 0 <= i < ps.len() implies ps[i] != Poll::Pending by {
            assert(ps[i] == polls[i]);
        }
        lemma_answered_requests_retire(infl.drop_last(), ps);
        assert(polls[n] != Poll::Pending);
        assert forall|i: int| 0 <= i < infl.len() implies #[trigger] reports_of(infl, polls)[i] == report(infl[i], polls[i]) by {
            if i < n {
                assert(reports_of(infl.drop_last(), ps)[i] == report(infl.drop_last()[i], ps[i]));
            }
        }
    }
}

/// A read that returned fewer (or more) bytes than asked for is reported as a
/// short read and still retires.
pub proof fn lemma_short_read_retires(rec: Inflight, got: usize)
    requires
        rec.op == Op::Read,
        got != rec.len,
    ensures
        still_running(seq![rec], seq![Poll::Done { len: got }]) == Seq::<Inflight>::empty(),
        reports_of(seq![rec], seq![Poll::Done { len: got }]) == seq![
            Retired::ShortRead { id: rec.id, lba: rec.lba, got, expected: rec.len },
        ],
{
    let infl = seq![rec];
    let polls = seq![Poll::Done { len: got }];
    reveal_with_fuel(still_running, 2);
    reveal_with_fuel(reports_of, 2);
    assert(infl.drop_last() =~= Seq::<Inflight>::empty());
    assert(polls[0] != Poll::Pending);
    assert(infl.last() == rec);
    assert(reports_of(infl, polls) =~= seq![
        Retired::ShortRead { id: rec.id, lba: rec.lba, got, expected: rec.len },
    ]);
}

/// With every answer in and a positive depth, a drain leaves in flight only
/// the requests it starts, `min(|queued|, depth)` of them: the queue shrinks
/// by that much on each such drain, so every submitted request eventually
/// leaves the in-flight set.
pub proof fn lemma_drain_progress(depth: nat, infl: Seq<Inflight>, polls: Seq<Poll>, queued: nat)
    requires
        depth > 0,
        polls.len() == infl.len(),
        forall|i: int| 0 <= i < polls.len() ==> polls[i] != Poll::Pending,
    ensures
        still_running(infl, polls).len() == 0,
        launch_count(depth, still_running(infl, polls).len(), queued) == (if queued <= depth {
            queued
        } else {
            depth
        }),
{
    lemma_answered_requests_retire(infl, polls);
}

/// Requests still queued after `k` drains in each of which every in-flight
/// request had its answer, starting with `queued` waiting: each such drain
/// starts `launch_count(depth, 0, q)` of the `q` waiting.
pub open spec fn queued_after_answered(depth: nat, queued: nat, k: nat) -> nat
    decreases k,
{
    if k == 0 {
        queued
    } else {
        let q = queued_after_answered(depth, queued, (k - 1) as nat);
        (q - launch_count(depth, 0, q)) as nat
    }
}

/// With a positive depth, `k` fully answered drains with `k * depth >= queued`
/// leave nothing queued, so the next such drain starts nothing and leaves
/// nothing in flight: every submitted request leaves the in-flight set.
pub proof fn lemma_answered_drains_empty_queue(depth: nat, queued: nat, k: nat)
    requires
        depth > 0,
        k * depth >= queued,
    ensures
        queued_after_answered(depth, queued, k) == 0,
        launch_count(depth, 0, queued_after_answered(depth, queued, k)) == 0,
    decreases k,
{
    if k == 0 {
        assert(0 * depth == 0) by (nonlinear_arith);
    } else {
        let km = (k - 1) as nat;
        assert(k * depth == km * depth + depth) by (nonlinear_arith)
            requires
                k == km + 1,
        ;
        if km * depth >= queued {
            lemma_answered_drains_empty_queue(depth, queued, km);
        } else {
            lemma_queued_after_answered(depth, queued, km);
        }
    }
}

/// After `k` fully answered drains, `queued - k * depth` requests (or none)
/// are still queued.
proof fn lemma_queued_after_answered(depth: nat, queued: nat, k: nat)
    requires
        depth > 0,
        k * depth <= queued,
    ensures
        queued_after_answered(depth, queued, k) == queued - k * depth,
    decreases k,
{
    if k == 0 {
        assert(0 * depth == 0) by (nonlinear_arith);
    } else {
        let km = (k - 1) as nat;
        assert(k * depth == km * depth + depth) by (nonlinear_arith)
            requires
                k == km + 1,
        ;
        lemma_queued_after_answered(depth, queued, km);
    }
}

/// Relies on uuid's `Uuid::new_v4`: a random identifier, as its 128-bit value.
#[verifier::external_body]
fn fresh_id() -> (r: u128) {
    uuid::Uuid::new_v4().as_u128()
}

/// Encodes a request in the legacy wire format.
pub fn encode_req(req: &VblkReq) -> (r: Vec<u8>)
    ensures
        r@ == encoded(*req),
{
    let mut out: Vec<u8> = Vec::new();
    out.push(
        match req.op {
            Op::Read => 0u8,
            Op::Write => 1u8,
        },
    );
    out.push(0);
    out.push(0);
    out.push(0);
    push_u64(&mut out, req.lba);
    push_u32(&mut out, req.len);
    let mut i: usize = 0;
    let ghost head = out@;
    while i < req.buf.len()
        invariant
            i <= req.buf@.len(),
            out@ == head + req.buf@.take(i as int),
        decreases req.buf@.len() - i,
    {
        out.push(req.buf[i]);
        i = i + 1;
        assert(out@ =~= head + req.buf@.take(i as int));
    }
    assert(req.buf@.take(req.buf@.len() as int) =~= req.buf@);
    assert(out@ =~= encoded(*req));
    out
}

pub struct Vblk {
    depth: usize,
    pending: VecDeque<(u128, VblkReq)>,
    inflight: Vec<Inflight>,
}

impl Vblk {
    /// At most `depth` requests in flight.
    pub closed spec fn wf(&self) -> bool {
        self.inflight@.len() <= self.depth
    }

    pub closed spec fn depth(&self) -> nat {
        self.depth as nat
    }

    /// Requests waiting to be started, oldest first.
    pub closed spec fn queued(&self) -> Seq<(u128, VblkReq)> {
        self.pending@
    }

    /// Records of the requests in flight.
    pub closed spec fn running(&self) -> Seq<Inflight> {
        self.inflight@
    }

    pub fn new(depth: usize) -> (r: Vblk)
        ensures
            r.wf(),
            r.depth() == depth,
            r.queued() == Seq::<(u128, VblkReq)>::empty(),
            r.running() == Seq::<Inflight>::empty(),
    {
        Vblk { depth, pending: VecDeque::new(), inflight: Vec::new() }
    }

    /// The in-flight records, in the order `drain_completions` expects polls.
    pub fn inflight_records(&self) -> (r: Vec<Inflight>)
        ensures
            r@ == self.running(),
    {
        let mut r: Vec<Inflight> = Vec::new();
        let mut i: usize = 0;
        while i < self.inflight.len()
            invariant
                i <= self.inflight@.len(),
                r@ == self.inflight@.take(i as int),
            decreases self.inflight@.len() - i,
        {
            r.push(self.inflight[i]);
            i = i + 1;
            assert(r@ =~= self.inflight@.take(i as int));
        }
        assert(self.inflight@.take(self.inflight@.len() as int) =~= self.inflight@);
        r
    }

    /// Starts queued requests, oldest first, while fewer than `depth` are in
    /// flight; returns them for the caller to dispatch.
    fn kick(&mut self) -> (r: Vec<(u128, VblkReq)>)
        requires
            old(self).wf(),
        ensures
            final(self).wf(),
            final(self).depth() == old(self).depth(),
            r@ == old(self).queued().take(
                launch_count(old(self).depth(), old(self).running().len(), old(self).queued().len())
                    as int,
            ),
            final(self).queued() == old(self).queued().skip(r@.len() as int),
            final(self).running() == old(self).running() + r@.map_values(
                |e: (u128, VblkReq)| record_of(e),
            ),
    {
        let mut out: Vec<(u128, VblkReq)> = Vec::new();
        let ghost q0 = self.pending@;
        let ghost i0 = self.inflight@;
        let ghost k = launch_count(self.depth as nat, i0.len(), q0.len());
        while self.inflight.len() < self.depth
            invariant_except_break
                self.inflight@.len() <= self.depth,
                out@ == q0.take(out@.len() as int),
                self.pending@ == q0.skip(out@.len() as int),
                self.inflight@ == i0 + out@.map_values(|e: (u128, VblkReq)| record_of(e)),
                self.depth == old(self).depth,
                out@.len() <= q0.len(),
                i0.len() <= self.depth,
                self.inflight@.len() == i0.len() + out@.len(),
                k == launch_count(self.depth as nat, i0.len(), q0.len()),
            ensures
                self.inflight@.len() <= self.depth,
                out@ == q0.take(k as int),
                self.pending@ == q0.skip(k as int),
                self.inflight@ == i0 + out@.map_values(|e: (u128, VblkReq)| record_of(e)),
                self.depth == old(self).depth,
            decreases self.depth - self.inflight@.len(),
        {
            match self.pending.pop_front() {
                Some(e) => {
                    let rec = Inflight { id: e.0, op: e.1.op, lba: e.1.lba, len: e.1.len };
                    self.inflight.push(rec);
                    proof {
                        assert(e == q0[out@.len() as int]);
                    }
                    out.push(e);
                    proof {
                        assert(out@ =~= q0.take(out@.len() as int));
                        assert(self.pending@ =~= q0.skip(out@.len() as int));
                        assert(self.inflight@ =~= i0 + out@.map_values(
                            |e: (u128, VblkReq)| record_of(e),
                        ));
                    }
                },
                None => {
                    proof {
                        assert(out@.len() == q0.len());
                    }
                    break ;
                },
            }
        }
        out
    }

    /// Queues `req` under `id` and starts what the depth allows; returns the
    /// started requests for the caller to dispatch.
    pub fn enqueue(&mut self, id: u128, req: VblkReq) -> (r: Vec<(u128, VblkReq)>)
        requires
            old(self).wf(),
        ensures
            final(self).wf(),
            final(self).depth() == old(self).depth(),
            r@ + final(self).queued() == old(self).queued().push((id, req)),
            r@.len() == launch_count(
                old(self).depth(),
                old(self).running().len(),
                old(self).queued().len() + 1,
            ),
            final(self).running() == old(self).running() + r@.map_values(
                |e: (u128, VblkReq)| record_of(e),
            ),
    {
        let ghost q1 = self.pending@.push((id, req));
        self.pending.push_back((id, req));
        let r = self.kick();
        assert(r@ + self.pending@ =~= q1);
        r
    }

    /// Queues `req` under a fresh random identifier and starts what the
    /// depth allows; returns the started requests for the caller to dispatch.
    pub fn submit(&mut self, req: VblkReq) -> (r: Vec<(u128, VblkReq)>)
        requires
            old(self).wf(),
        ensures
            final(self).wf(),
            final(self).depth() == old(self).depth(),
            exists|id: u128| r@ + final(self).queued() == old(self).queued().push((id, req)),
            r@.len() == launch_count(
                old(self).depth(),
                old(self).running().len(),
                old(self).queued().len() + 1,
            ),
            final(self).running() == old(self).running() + r@.map_values(
                |e: (u128, VblkReq)| record_of(e),
            ),
    {
        let id = fresh_id();
        self.enqueue(id, req)
    }

    /// Retires every in-flight request whose poll finished (`polls[i]` is
    /// what polling the `i`-th in-flight record gave), reports each, then
    /// starts queued requests in the freed places. Returns the reports and
    /// the started requests.
    pub fn drain_completions(&mut self, polls: Vec<Poll>) -> (r: (Vec<Retired>, Vec<(u128, VblkReq)>))
        requires
            old(self).wf(),
            polls@.len() == old(self).running().len(),
        ensures
            final(self).wf(),
            final(self).depth() == old(self).depth(),
            r.0@ == reports_of(old(self).running(), polls@),
            r.1@ == old(self).queued().take(
                launch_count(
                    old(self).depth(),
                    still_running(old(self).running(), polls@).len(),
                    old(self).queued().len(),
                ) as int,
            ),
            final(self).queued() == old(self).queued().skip(r.1@.len() as int),
            final(self).running() == still_running(old(self).running(), polls@) + r.1@.map_values(
                |e: (u128, VblkReq)| record_of(e),
            ),
    {
        let ghost infl = self.inflight@;
        let mut kept: Vec<Inflight> = Vec::new();
        let mut reports: Vec<Retired> = Vec::new();
        let mut i: usize = 0;
        while i < self.inflight.len()
            invariant
                self.inflight@ == infl,
                polls@.len() == infl.len(),
                i <= infl.len(),
                kept@ == still_running(infl.take(i as int), polls@.take(i as int)),
                reports@ == reports_of(infl.take(i as int), polls@.take(i as int)),
                kept@.len() <= i,
            decreases infl.len() - i,
        {
            let rec = self.inflight[i];
            let p = polls[i];
            proof {
                assert(infl.take(i + 1).drop_last() =~= infl.take(i as int));
                assert(polls@.take(i + 1).take(i as int) =~= polls@.take(i as int));
            }
            match p {
                Poll::Pending => {
                    kept.push(rec);
                },
                Poll::Done { len } => {
                    if rec.op == Op::Read && len != rec.len as usize {
                        reports.push(Retired::ShortRead { id: rec.id, lba: rec.lba, got: len, expected: rec.len });
                    } else {
                        reports.push(Retired::Complete { id: rec.id });
                    }
                },
                Poll::Failed => {
                    reports.push(Retired::Failed { id: rec.id, lba: rec.lba });
                },
                Poll::Closed => {
                    reports.push(Retired::Closed { id: rec.id, lba: rec.lba });
                },
            }
            i = i + 1;
        }
        proof {
            assert(infl.take(infl.len() as int) =~= infl);
            assert(polls@.take(infl.len() as int) =~= polls@);
        }
        self.inflight = kept;
        let started = self.kick();
        (reports, started)
    }
}

} // verus!

//! Decisions of the top-level tick loop: stop when asked, otherwise give the
//! guest one quantum, and pump the shared ring and drain the queue whenever
//! at least `PUMP_INTERVAL_MS` have passed since the last pump.
use vstd::prelude::*;

verus! {

/// Deadline of one `run_tick` call.
pub const TICK_DEADLINE_MS: u64 = 250;

/// Minimum spacing of ring pumps.
pub const PUMP_INTERVAL_MS: u64 = 5;

#[derive(Clone, Copy, Debug, PartialEq, Eq, Structural)]
pub enum TickAction {
    Exit,
    RunTick { budget: u32 },
}

/// A pump is due at `now` when the last one was at `last` (milliseconds on a
/// monotonic clock).
pub open spec fn pump_due(last: u64, now: u64) -> bool {
    now >= last && now - last >= PUMP_INTERVAL_MS
}

pub struct TickLoop {
    budget: u32,
    last_pump_ms: u64,
    ticks: u64,
    pumps: u64,
}

impl TickLoop {
    pub closed spec fn budget(&self) -> u32 {
        self.budget
    }

    pub closed spec fn last_pump(&self) -> u64 {
        self.last_pump_ms
    }

    pub closed spec fn tick_count(&self) -> u64 {
        self.ticks
    }

    pub closed spec fn pump_count(&self) -> u64 {
        self.pumps
    }

    pub fn new(budget: u32, now_ms: u64) -> (r: TickLoop)
        ensures
            r.budget() == budget,
            r.last_pump() == now_ms,
            r.tick_count() == 0,
            r.pump_count() == 0,
    {
        TickLoop { budget, last_pump_ms: now_ms, ticks: 0, pumps: 0 }
    }

    /// Exit when the stop flag is set; otherwise run one tick with the
    /// configured budget.
    pub fn next(&mut self, stop: bool) -> (r: TickAction)
        ensures
            stop ==> r == TickAction::Exit && final(self).tick_count() == old(self).tick_count(),
            !stop ==> r == (TickAction::RunTick { budget: old(self).budget() }),
            !stop && old(self).tick_count() < u64::MAX ==> final(self).tick_count() == old(self).tick_count() + 1,
            final(self).budget() == old(self).budget(),
            final(self).last_pump() == old(self).last_pump(),
            final(self).pump_count() == old(self).pump_count(),
    {
        if stop {
            return TickAction::Exit;
        }
        if self.ticks < u64::MAX {
            self.ticks = self.ticks + 1;
        }
        TickAction::RunTick { budget: self.budget }
    }

    /// After a tick at time `now_ms`: whether to pump now. A pump restarts
    /// the interval.
    pub fn after_tick(&mut self, now_ms: u64) -> (r: bool)
        ensures
            r == pump_due(old(self).last_pump(), now_ms),
            r ==> final(self).last_pump() == now_ms,
            !r ==> final(self).last_pump() == old(self).last_pump(),
            r && old(self).pump_count() < u64::MAX ==> final(self).pump_count() == old(self).pump_count() + 1,
            !r ==> final(self).pump_count() == old(self).pump_count(),
            final(self).budget() == old(self).budget(),
            final(self).tick_count() == old(self).tick_count(),
    {
        if now_ms >= self.last_pump_ms && now_ms - self.last_pump_ms >= PUMP_INTERVAL_MS {
            self.last_pump_ms = now_ms;
            if self.pumps < u64::MAX {
                self.pumps = self.pumps + 1;
            }
            true
        } else {
            false
        }
    }

    pub fn ticks(&self) -> (r: u64)
        ensures
            r == self.tick_count(),
    {
        self.ticks
    }

    pub fn pumps(&self) -> (r: u64)
        ensures
            r == self.pump_count(),
    {
        self.pumps
    }
}

} // verus!

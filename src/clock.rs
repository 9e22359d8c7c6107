use vstd::prelude::*;

verus! {

/// Nanoseconds in one second.
pub const NANOS_PER_SECOND: u64 = 1_000_000_000;

/// Ticks per second used when nothing else is configured.
pub const DEFAULT_TICK_RATE: u64 = 8;

/// `v`, or `u64::MAX` where `v` is larger.
pub open spec fn saturate(v: int) -> int {
    if v > u64::MAX {
        u64::MAX as int
    } else {
        v
    }
}

/// A fixed-step accumulator. Elapsed time is kept scaled by the tick rate, so
/// one tick interval (`1 / tick_rate` seconds) is exactly `NANOS_PER_SECOND`
/// units and no rounding is involved.
pub struct SimulationClock {
    tick_rate: u64,
    debt: u64,
}

impl SimulationClock {
    pub closed spec fn rate_spec(&self) -> nat {
        self.tick_rate as nat
    }

    /// Accumulated time not yet spent on ticks, in nanoseconds times the
    /// tick rate.
    pub closed spec fn debt_spec(&self) -> nat {
        self.debt as nat
    }

    pub open spec fn wf(&self) -> bool {
        self.rate_spec() > 0
    }

    /// The state after a frame of `delta_nanos`, and whether it fires a tick.
    pub open spec fn advanced(&self, delta_nanos: nat) -> (nat, bool) {
        let total = saturate(self.debt_spec() + saturate((delta_nanos * self.rate_spec()) as int));
        if total >= NANOS_PER_SECOND {
            ((total - NANOS_PER_SECOND) as nat, true)
        } else {
            (total as nat, false)
        }
    }

    /// A clock with nothing accumulated that fires `tick_rate` times a second.
    pub fn new(tick_rate: u64) -> (r: SimulationClock)
        requires
            tick_rate > 0,
        ensures
            r.wf(),
            r.rate_spec() == tick_rate,
            r.debt_spec() == 0,
    {
        SimulationClock { tick_rate, debt: 0 }
    }

    pub fn tick_rate(&self) -> (r: u64)
        ensures
            r == self.rate_spec(),
    {
        self.tick_rate
    }

    /// Adds one frame's elapsed time; when a full interval has accumulated,
    /// spends one interval and reports a tick. At most one tick fires per
    /// frame; the rest carries over to later frames.
    pub fn advance(&mut self, delta_nanos: u64) -> (r: bool)
        requires
            old(self).wf(),
        ensures
            final(self).wf(),
            final(self).rate_spec() == old(self).rate_spec(),
            (final(self).debt_spec(), r) == old(self).advanced(delta_nanos as nat),
    {
        let scaled = match delta_nanos.checked_mul(self.tick_rate) {
            Some(v) => v,
            None => u64::MAX,
        };
        self.debt = self.debt.saturating_add(scaled);
        if self.debt >= NANOS_PER_SECOND {
            self.debt = self.debt - NANOS_PER_SECOND;
            true
        } else {
            false
        }
    }
}

} // verus!

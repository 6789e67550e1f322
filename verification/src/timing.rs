//! The timing policy: elapsed wall-clock time is converted into an ideal
//! number of CPU cycles and timer ticks, so cycle pacing is time-based
//! rather than iteration-based. The clock itself is read by the driver; this
//! module only does the arithmetic.

use vstd::prelude::*;

verus! {

/// Nanoseconds in one second.
pub const NS_IN_SECOND: u64 = 1000000000;

/// The CPU cycle period in nanoseconds: 500 cycles per second.
pub const CPU_CYCLE_NS: u64 = 2000000;

/// The timer tick period in nanoseconds: close to 60 ticks per second.
pub const TIMER_CYCLE_NS: u64 = 16666667;

/// How many CPU cycles should have executed after `emulation_ns` nanoseconds
/// of emulated time.
pub fn ideal_cpu_cycles(emulation_ns: u64) -> (cycles: u64)
    ensures
        cycles == emulation_ns as int / CPU_CYCLE_NS as int,
{
    emulation_ns / CPU_CYCLE_NS
}

/// How many timer ticks should have elapsed after `emulation_ns` nanoseconds
/// of emulated time.
pub fn ideal_timer_ticks(emulation_ns: u64) -> (ticks: u64)
    ensures
        ticks == emulation_ns as int / TIMER_CYCLE_NS as int,
{
    emulation_ns / TIMER_CYCLE_NS
}

/// The backlog bookkeeping of the driver loop: how many CPU cycles have run
/// and how many timer ticks have been applied since the clock started.
pub struct Scheduler {
    /// CPU cycles already run.
    pub cpu_cycles: u64,
    /// Timer ticks already applied.
    pub timer_ticks: u64,
}

impl Scheduler {
    /// A fresh scheduler: nothing has run yet.
    pub fn init() -> (s: Self)
        ensures
            s.cpu_cycles == 0,
            s.timer_ticks == 0,
    {
        Scheduler { cpu_cycles: 0, timer_ticks: 0 }
    }

    /// The backlog after `emulation_ns` nanoseconds of emulated time: how
    /// many timer ticks to apply and how many CPU cycles to run now, each
    /// the ideal count less what was already done, and zero if the clock
    /// ever ran backwards. Both counters advance to the ideal counts.
    pub fn advance(&mut self, emulation_ns: u64) -> (due: (u64, u64))
        ensures
            ({
                let ideal_t = emulation_ns as int / TIMER_CYCLE_NS as int;
                let ideal_c = emulation_ns as int / CPU_CYCLE_NS as int;
                &&& due.0 == if old(self).timer_ticks <= ideal_t {
                    ideal_t - old(self).timer_ticks
                } else {
                    0
                }
                &&& due.1 == if old(self).cpu_cycles <= ideal_c {
                    ideal_c - old(self).cpu_cycles
                } else {
                    0
                }
                &&& final(self).timer_ticks == if old(self).timer_ticks <= ideal_t {
                    ideal_t
                } else {
                    old(self).timer_ticks as int
                }
                &&& final(self).cpu_cycles == if old(self).cpu_cycles <= ideal_c {
                    ideal_c
                } else {
                    old(self).cpu_cycles as int
                }
            }),
    {
        let ideal_t = ideal_timer_ticks(emulation_ns);
        let ideal_c = ideal_cpu_cycles(emulation_ns);
        let ticks = if self.timer_ticks <= ideal_t {
            let d = ideal_t - self.timer_ticks;
            self.timer_ticks = ideal_t;
            d
        } else {
            0u64
        };
        let cycles = if self.cpu_cycles <= ideal_c {
            let d = ideal_c - self.cpu_cycles;
            self.cpu_cycles = ideal_c;
            d
        } else {
            0u64
        };
        (ticks, cycles)
    }
}

} // verus!

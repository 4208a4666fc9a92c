//! The GGA's four timers. Each counts up on a prescaled clock, or (timers
//! 1-3) on overflows of the timer before it, and reloads on overflow.
//!
//! The system hands the timers its control (TMxCNT_H) and reload
//! (TMxCNT_L) registers and raises the interrupts they ask for.
use vstd::prelude::*;
use vstd::arithmetic::div_mod::lemma_fundamental_div_mod_converse;
use vstd::arithmetic::power2::{lemma2_to64, pow2};

verus! {

/// If a timer is running (control bit 7).
pub open spec fn enabled(ctrl: u16) -> bool {
    (ctrl / 128) % 2 == 1
}

/// If a timer counts overflows of the previous timer (control bit 2).
pub open spec fn cascades(ctrl: u16) -> bool {
    (ctrl / 4) % 2 == 1
}

/// If a timer requests an interrupt on overflow (control bit 6).
pub open spec fn irq_enabled(ctrl: u16) -> bool {
    (ctrl / 64) % 2 == 1
}

/// Prescaler of a timer: cycles per count.
pub open spec fn prescaler(ctrl: u16) -> u16 {
    let s = ctrl % 4;
    if s == 0 {
        1
    } else if s == 1 {
        64
    } else if s == 2 {
        256
    } else {
        1024
    }
}

/// If timer `i` counts on the prescaled clock: it runs, and is timer 0
/// or does not cascade.
pub open spec fn counts_cycles(i: int, ctrl: u16) -> bool {
    enabled(ctrl) && !(i != 0 && cascades(ctrl))
}

/// A counter and its overflow count after `n` increments: an increment
/// past 0xFFFF reloads the counter and counts one overflow.
pub open spec fn incremented(counter: u16, reload: u16, n: nat) -> (u16, nat)
    decreases n,
{
    if n == 0 {
        (counter, 0)
    } else {
        let (c, o) = incremented(counter, reload, (n - 1) as nat);
        if c == 0xFFFF {
            (reload, o + 1)
        } else {
            ((c + 1) as u16, o)
        }
    }
}

/// Cycle counter, counter and overflows of timer `i` after a step of
/// `cycles`, given the overflows of the timer before it.
pub open spec fn timer_step(
    i: int,
    ctrl: u16,
    reload: u16,
    cycles: u16,
    prev_overflows: u16,
    cycle_counter: u16,
    counter: u16,
) -> (u16, u16, nat) {
    if !enabled(ctrl) {
        (cycle_counter, counter, 0)
    } else if i != 0 && cascades(ctrl) {
        let (c, o) = incremented(counter, reload, prev_overflows as nat);
        (cycle_counter, c, o)
    } else {
        let total = cycle_counter + cycles;
        let (c, o) = incremented(counter, reload, (total / prescaler(ctrl) as int) as nat);
        ((total % prescaler(ctrl) as int) as u16, c, o)
    }
}

/// IF bit that timer `i` asks for after a step with `overflows`: bit
/// 3 + `i`, if it overflowed and has its interrupt enabled.
pub open spec fn timer_irq(i: int, ctrl: u16, overflows: nat) -> int {
    if overflows > 0 && irq_enabled(ctrl) {
        if i == 0 {
            8
        } else if i == 1 {
            16
        } else if i == 2 {
            32
        } else {
            64
        }
    } else {
        0
    }
}

/// The prescaler settings count every cycle, or every 64, 256 or 1024
/// cycles: each setting past the first is 4 times slower than the one
/// before. A timer that overflows with its interrupt enabled asks for
/// exactly one IF bit, bit 3 + `i`; otherwise for none.
pub proof fn lemma_prescaler_and_irq(ctrl: u16, i: int, overflows: nat)
    requires
        0 <= i < 4,
    ensures
        ctrl % 4 == 0 ==> prescaler(ctrl) == 1,
        ctrl % 4 != 0 ==> prescaler(ctrl) as int == pow2((4 + 2 * (ctrl % 4)) as nat),
        overflows > 0 && irq_enabled(ctrl) ==> timer_irq(i, ctrl, overflows) == pow2((3 + i) as nat),
        !(overflows > 0 && irq_enabled(ctrl)) ==> timer_irq(i, ctrl, overflows) == 0,
{
    lemma2_to64();
}

/// The four timers.
pub struct Timers {
    /// Cycles counted towards the next prescaled tick.
    pub cycle_counters: [u16; 4],
    /// The timers' counters.
    pub counters: [u16; 4],
}

impl Default for Timers {
    fn default() -> (t: Self)
        ensures
            t.cycle_counters@ == seq![0u16, 0, 0, 0],
            t.counters@ == seq![0u16, 0, 0, 0],
    {
        let t = Timers { cycle_counters: [0; 4], counters: [0; 4] };
        proof {
            assert(t.cycle_counters@ =~= seq![0u16, 0, 0, 0]);
            assert(t.counters@ =~= seq![0u16, 0, 0, 0]);
        }
        t
    }
}

impl Timers {
    /// Step all timers by `cycles`. Returns the IF bits of the timer
    /// interrupts to request.
    pub fn step(&mut self, control: &[u16; 4], reload: &[u16; 4], cycles: u16) -> (irqs: u16)
        requires
            forall|i: int|
                0 <= i < 4 && #[trigger] counts_cycles(i, control[i]) ==> old(
                    self,
                ).cycle_counters[i] + cycles <= u16::MAX,
        ensures
            ({
                let cc = old(self).cycle_counters;
                let c = old(self).counters;
                let s0 = timer_step(0, control[0], reload[0], cycles, 0, cc[0], c[0]);
                let s1 = timer_step(1, control[1], reload[1], cycles, s0.2 as u16, cc[1], c[1]);
                let s2 = timer_step(2, control[2], reload[2], cycles, s1.2 as u16, cc[2], c[2]);
                let s3 = timer_step(3, control[3], reload[3], cycles, s2.2 as u16, cc[3], c[3]);
                &&& final(self).cycle_counters@ == seq![s0.0, s1.0, s2.0, s3.0]
                &&& final(self).counters@ == seq![s0.1, s1.1, s2.1, s3.1]
                &&& irqs == timer_irq(0, control[0], s0.2) + timer_irq(1, control[1], s1.2)
                    + timer_irq(2, control[2], s2.2) + timer_irq(3, control[3], s3.2)
            }),
    {
        assert(counts_cycles(0, control[0]) ==> old(self).cycle_counters[0] + cycles <= u16::MAX);
        assert(counts_cycles(1, control[1]) ==> old(self).cycle_counters[1] + cycles <= u16::MAX);
        assert(counts_cycles(2, control[2]) ==> old(self).cycle_counters[2] + cycles <= u16::MAX);
        assert(counts_cycles(3, control[3]) ==> old(self).cycle_counters[3] + cycles <= u16::MAX);
        let ov0 = self.step_idx(0, control[0], reload[0], cycles, 0);
        let ov1 = self.step_idx(1, control[1], reload[1], cycles, ov0);
        let ov2 = self.step_idx(2, control[2], reload[2], cycles, ov1);
        let ov3 = self.step_idx(3, control[3], reload[3], cycles, ov2);
        proof {
            assert(self.cycle_counters@ =~= seq![
                self.cycle_counters[0],
                self.cycle_counters[1],
                self.cycle_counters[2],
                self.cycle_counters[3],
            ]);
            assert(self.counters@ =~= seq![
                self.counters[0],
                self.counters[1],
                self.counters[2],
                self.counters[3],
            ]);
        }
        Self::irq_bit(0, control[0], ov0) + Self::irq_bit(1, control[1], ov1) + Self::irq_bit(
            2,
            control[2],
            ov2,
        ) + Self::irq_bit(3, control[3], ov3)
    }

    /// IF bit that timer `i` asks for.
    fn irq_bit(i: usize, ctrl: u16, overflows: u16) -> (r: u16)
        requires
            i < 4,
        ensures
            r == timer_irq(i as int, ctrl, overflows as nat),
            r <= 64,
    {
        if overflows > 0 && (ctrl / 64) % 2 == 1 {
            if i == 0 {
                8
            } else if i == 1 {
                16
            } else if i == 2 {
                32
            } else {
                64
            }
        } else {
            0
        }
    }

    /// Step timer `i`; returns how often it overflowed.
    fn step_idx(&mut self, i: usize, ctrl: u16, reload: u16, cycles: u16, prev_overflows: u16) -> (ov: u16)
        requires
            i < 4,
            counts_cycles(i as int, ctrl) ==> old(self).cycle_counters[i as int] + cycles
                <= u16::MAX,
        ensures
            ({
                let (cc, c, o) = timer_step(
                    i as int,
                    ctrl,
                    reload,
                    cycles,
                    prev_overflows,
                    old(self).cycle_counters[i as int],
                    old(self).counters[i as int],
                );
                &&& final(self).cycle_counters@ == old(self).cycle_counters@.update(i as int, cc)
                &&& final(self).counters@ == old(self).counters@.update(i as int, c)
                &&& ov == o
            }),
    {
        let ghost c0 = self.counters[i as int];
        let ghost cc0 = self.cycle_counters[i as int];
        let ghost old_cc = self.cycle_counters@;
        let ghost old_c = self.counters@;
        if (ctrl / 128) % 2 != 1 {
            // Timer off
            return 0;
        }
        let mut overflows: u16 = 0;
        if i != 0 && (ctrl / 4) % 2 == 1 {
            // Increment on previous timer overflow
            let mut k: u16 = 0;
            while k < prev_overflows
                invariant
                    i < 4,
                    old_c.len() == 4 && old_cc.len() == 4,
                    k <= prev_overflows,
                    overflows <= k,
                    (self.counters[i as int], overflows as nat) == incremented(c0, reload, k as nat),
                    self.counters@ == old_c.update(i as int, self.counters[i as int]),
                    self.cycle_counters@ == old_cc,
                decreases prev_overflows - k,
            {
                if self.inc_timer(i, reload) {
                    overflows = overflows + 1;
                }
                k = k + 1;
                proof {
                    assert(self.counters@ =~= old_c.update(i as int, self.counters[i as int]));
                }
            }
            proof {
                assert(self.cycle_counters@ =~= old_cc.update(i as int, cc0));
            }
        } else {
            // Regular clock counting
            let scaler = Self::prescaler_of(ctrl);
            self.cycle_counters[i] = self.cycle_counters[i] + cycles;
            let ghost total: int = cc0 + cycles;
            proof {
                assert(self.counters@ =~= old_c.update(i as int, self.counters[i as int]));
            }
            let ghost mut k: nat = 0;
            while self.cycle_counters[i] >= scaler
                invariant
                    i < 4,
                    old_c.len() == 4 && old_cc.len() == 4,
                    scaler == prescaler(ctrl),
                    1 <= scaler <= 1024,
                    total == self.cycle_counters[i as int] + k * scaler,
                    k + self.cycle_counters[i as int] <= total,
                    total <= u16::MAX,
                    overflows <= k,
                    (self.counters[i as int], overflows as nat) == incremented(c0, reload, k),
                    self.counters@ == old_c.update(i as int, self.counters[i as int]),
                    self.cycle_counters@ == old_cc.update(i as int, self.cycle_counters[i as int]),
                decreases self.cycle_counters[i as int],
            {
                self.cycle_counters[i] = self.cycle_counters[i] - scaler;
                if self.inc_timer(i, reload) {
                    overflows = overflows + 1;
                }
                proof {
                    assert((k + 1) * scaler == k * scaler + scaler) by (nonlinear_arith);
                    k = k + 1;
                    assert(self.counters@ =~= old_c.update(i as int, self.counters[i as int]));
                    assert(self.cycle_counters@ =~= old_cc.update(
                        i as int,
                        self.cycle_counters[i as int],
                    ));
                }
            }
            proof {
                lemma_fundamental_div_mod_converse(
                    total,
                    scaler as int,
                    k as int,
                    self.cycle_counters[i as int] as int,
                );
            }
        }
        overflows
    }

    /// Cycles per count for a control value.
    fn prescaler_of(ctrl: u16) -> (r: u16)
        ensures
            r == prescaler(ctrl),
            1 <= r <= 1024,
    {
        let s = ctrl % 4;
        if s == 0 {
            1
        } else if s == 1 {
            64
        } else if s == 2 {
            256
        } else {
            1024
        }
    }

    /// Count timer `i` up by one; returns if it overflowed.
    fn inc_timer(&mut self, i: usize, reload: u16) -> (overflowed: bool)
        requires
            i < 4,
        ensures
            old(self).counters[i as int] == 0xFFFF ==> overflowed && final(self).counters@ == old(
                self,
            ).counters@.update(i as int, reload),
            old(self).counters[i as int] != 0xFFFF ==> !overflowed && final(self).counters@ == old(
                self,
            ).counters@.update(i as int, (old(self).counters[i as int] + 1) as u16),
            final(self).cycle_counters == old(self).cycle_counters,
    {
        match self.counters[i].checked_add(1) {
            Some(val) => {
                self.counters[i] = val;
                false
            },
            None => {
                // Overflow: set to reload value
                self.counters[i] = reload;
                true
            },
        }
    }

    /// Write a timer's control register: a timer that starts running
    /// loads its counter from the reload value and restarts its prescaler.
    /// The system stores `value` in the register.
    pub fn hi_write<const TIM: usize>(&mut self, old_control: u16, value: u16, reload: u16)
        requires
            TIM < 4,
        ensures
            !enabled(old_control) && enabled(value) ==> {
                &&& final(self).counters@ == old(self).counters@.update(TIM as int, reload)
                &&& final(self).cycle_counters@ == old(self).cycle_counters@.update(TIM as int, 0)
            },
            !(!enabled(old_control) && enabled(value)) ==> *final(self) == *old(self),
    {
        let was_on = (old_control / 128) % 2 == 1;
        let is_on = (value / 128) % 2 == 1;
        if !was_on && is_on {
            self.counters[TIM] = reload;
            self.cycle_counters[TIM] = 0;
        }
    }
}

/// Before its counter passes 0xFFFF a timer counts up one by one and does
/// not overflow.
pub proof fn lemma_no_overflow_before_wrap(counter: u16, reload: u16, n: nat)
    requires
        counter + n <= 0xFFFF,
    ensures
        incremented(counter, reload, n) == ((counter + n) as u16, 0nat),
    decreases n,
{
    if n > 0 {
        lemma_no_overflow_before_wrap(counter, reload, (n - 1) as nat);
    }
}

/// Counting `a` and then `b` more ticks is counting `a + b` ticks; the
/// overflows add up.
pub proof fn lemma_increments_compose(counter: u16, reload: u16, a: nat, b: nat)
    ensures
        ({
            let (c1, o1) = incremented(counter, reload, a);
            let (c2, o2) = incremented(c1, reload, b);
            incremented(counter, reload, a + b) == (c2, o1 + o2)
        }),
    decreases b,
{
    if b > 0 {
        lemma_increments_compose(counter, reload, a, (b - 1) as nat);
        assert((a + b - 1) as nat == a + (b - 1) as nat);
    }
}

/// The tick after 0xFFFF overflows once and restarts counting from the
/// reload value.
pub proof fn lemma_overflow_reloads(counter: u16, reload: u16, m: nat)
    ensures
        ({
            let n = (0x1_0000 - counter) as nat;
            let (c, o) = incremented(reload, reload, m);
            incremented(counter, reload, n + m) == (c, o + 1)
        }),
{
    let n = (0x1_0000 - counter) as nat;
    lemma_no_overflow_before_wrap(counter, reload, (n - 1) as nat);
    assert(incremented(counter, reload, n) == (reload, 1nat));
    lemma_increments_compose(counter, reload, n, m);
}

} // verus!

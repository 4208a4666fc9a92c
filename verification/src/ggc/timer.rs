//! Timer available on DMG and CGB: the DIV register and the TIMA counter.
//!
//! DIV counts up with the system clock; TIMA counts up every time a certain
//! bit of DIV falls, and overflows into an interrupt. Neither is stepped:
//! both are computed from the scheduler's time, and an event is scheduled
//! for the next TIMA overflow.
use vstd::prelude::*;
use vstd::arithmetic::power2::{lemma2_to64, pow2};
use crate::ggc::scheduling::GGEvent;
use crate::scheduler::{can_schedule_at, schedule_result, without_kind, Scheduler, ScheduledEvent};

verus! {

/// Address of the DIV register.
pub const DIV: u16 = 0xFF04;
/// Address of the TIMA register.
pub const TIMA: u16 = 0xFF05;
/// Address of the TMA register.
pub const TMA: u16 = 0xFF06;
/// Address of the TAC register.
pub const TAC: u16 = 0xFF07;

/// Timer available on DMG and CGB.
pub struct Timer {
    /// Scheduler time at which DIV was last reset.
    pub div_start: u32,
    /// Scheduler time from which TIMA counts.
    pub scheduled_at: u32,
    /// The TAC register's low 3 bits.
    pub control: u8,
    /// If TIMA is counting (TAC bit 2).
    pub counter_running: bool,
    /// Ticks per TIMA increment.
    pub counter_divider: u16,
    /// Bit of DIV whose falling edge increments TIMA.
    pub counter_bit: u16,
}

/// Ticks per TIMA increment for the clock select bits of TAC.
pub open spec fn divider_for(control: u8) -> u16 {
    let sel = control % 4;
    if sel == 0 {
        1024
    } else if sel == 1 {
        16
    } else if sel == 2 {
        64
    } else {
        256
    }
}

/// Bit of DIV that drives TIMA for the clock select bits of TAC.
pub open spec fn counter_bit_for(control: u8) -> u16 {
    let sel = control % 4;
    if sel == 0 {
        9
    } else if sel == 1 {
        3
    } else if sel == 2 {
        5
    } else {
        7
    }
}

/// TIMA counts once for each fall of the DIV bit that TAC selects, so
/// once in twice 2 to the power of that bit ticks: every 1024, 16, 64 or
/// 256 ticks for the clock select bits 0 to 3.
pub proof fn lemma_divider_is_counter_bit(control: u8)
    ensures
        divider_for(control) as int == 2 * pow2(counter_bit_for(control) as nat),
        control % 4 == 0 ==> divider_for(control) == 1024,
        control % 4 != 0 ==> divider_for(control) as int == pow2((2 + 2 * (control % 4)) as nat),
{
    lemma2_to64();
}

impl Timer {
    /// The timer's configuration agrees with its control bits.
    pub open spec fn wf(&self) -> bool {
        &&& self.control < 8
        &&& self.counter_running == (self.control / 4 == 1)
        &&& self.counter_divider == divider_for(self.control)
        &&& self.counter_bit == counter_bit_for(self.control)
    }
}

impl Default for Timer {
    fn default() -> (t: Self)
        ensures
            t.wf(),
            t.div_start == 0 && t.scheduled_at == 0 && t.control == 0,
    {
        Self {
            div_start: 0,
            scheduled_at: 0,
            control: 0,
            counter_running: false,
            counter_divider: 1024,
            counter_bit: 9,
        }
    }
}

/// Everything of the system that the timer reads and writes: the
/// scheduler, the timer itself, the TIMA register, the clock speed (1, or
/// 2 in CGB double speed mode) and the IF register, where the timer
/// requests its interrupt.
pub struct TimerBus {
    pub scheduler: Scheduler<GGEvent>,
    pub timer: Timer,
    pub tima: u8,
    pub speed: u8,
    pub intr_flags: u8,
}

/// Bit of IF that requests the timer interrupt.
pub const TIMER_INTERRUPT: u8 = 2;

/// Current value of DIV's internal 16-bit counter.
pub open spec fn div_now(b: &TimerBus) -> u16 {
    ((b.scheduler.time() - b.timer.div_start) % 0x1_0000) as u16
}

/// Ticks that TIMA has counted since it was last scheduled, adjusted for
/// the clock speed.
pub open spec fn tima_ticks(b: &TimerBus) -> int {
    ((b.scheduler.time() - b.timer.scheduled_at) % 0x1_0000) * b.speed
}

/// Current value of TIMA.
pub open spec fn tima_now(b: &TimerBus) -> u8 {
    if b.timer.counter_running {
        (b.tima + (tima_ticks(b) / b.timer.counter_divider as int) % 256) as u8
    } else {
        b.tima
    }
}

/// If TIMA can be computed: time has not gone back, and the sum does not
/// overflow.
pub open spec fn tima_computable(b: &TimerBus) -> bool {
    b.timer.counter_running ==> {
        &&& b.scheduler.time() >= b.timer.scheduled_at
        &&& tima_ticks(b) <= u16::MAX
        &&& b.tima + (tima_ticks(b) / b.timer.counter_divider as int) % 256 <= u8::MAX
    }
}

/// Ticks until TIMA overflows, from its value and DIV.
pub open spec fn overflow_delay(t: Timer, tima: u8, div: u16, speed: u8) -> u32 {
    ((t.counter_divider * (256 - tima) - div % t.counter_divider) / speed as int) as u32
}

/// The basic conditions for timer operations: valid state, DIV readable.
pub open spec fn bus_ok(b: &TimerBus) -> bool {
    &&& b.scheduler.wf()
    &&& b.timer.wf()
    &&& b.speed >= 1
    &&& b.scheduler.time() >= b.timer.div_start
}

/// DIV's internal counter at the scheduler's time, for the given timer.
pub open spec fn div_with(b: &TimerBus, timer: Timer) -> u16 {
    ((b.scheduler.time() - timer.div_start) % 0x1_0000) as u16
}

/// If the overflow event can be rescheduled: there is room for it once
/// the old one is cancelled.
pub open spec fn can_reschedule(b: &TimerBus, timer: Timer, tima: u8) -> bool {
    timer.counter_running ==> can_schedule_at(
        b.scheduler.time(),
        without_kind(b.scheduler.pending(), GGEvent::TimerOverflow),
        overflow_delay(timer, tima, div_with(b, timer), b.speed),
    )
}

/// The scheduler's time and events, and the TIMA start time, after
/// cancelling the overflow event and scheduling it anew for the given
/// timer state and TIMA value.
pub open spec fn rescheduled(b: &TimerBus, timer: Timer, tima: u8) -> (
    u32,
    Seq<ScheduledEvent<GGEvent>>,
    u32,
) {
    let now = b.scheduler.time();
    let kept = without_kind(b.scheduler.pending(), GGEvent::TimerOverflow);
    if timer.counter_running {
        let div = div_with(b, timer);
        let (t, p) = schedule_result(
            now,
            kept,
            GGEvent::TimerOverflow,
            overflow_delay(timer, tima, div, b.speed),
        );
        (t, p, (now - div % timer.counter_divider) as u32)
    } else {
        (now, kept, timer.scheduled_at)
    }
}

/// The bus after a reschedule: scheduler, TIMA start time as given; the
/// rest of the timer, TIMA and the speed as before.
pub open spec fn after_reschedule(
    before: &TimerBus,
    after: &TimerBus,
    timer: Timer,
    tima: u8,
) -> bool {
    let (t, p, sa) = rescheduled(before, timer, tima);
    &&& after.scheduler.time() == t
    &&& after.scheduler.pending() == p
    &&& after.scheduler.wf()
    &&& after.timer == (Timer { scheduled_at: sa, ..timer })
    &&& after.tima == tima
    &&& after.speed == before.speed
    &&& after.intr_flags == before.intr_flags
}

/// Timer state after writing TAC.
pub open spec fn timer_after_tac(t: Timer, value: u8) -> Timer {
    let control = value % 8;
    Timer {
        control,
        counter_running: control / 4 == 1,
        counter_divider: divider_for(control),
        counter_bit: counter_bit_for(control),
        ..t
    }
}

impl TimerBus {
    /// A system at time 0 with no events, a stopped timer, TIMA 0 and
    /// normal speed.
    pub fn new() -> (b: Self)
        ensures
            bus_ok(&b),
            b.scheduler.time() == 0,
            b.scheduler.pending().len() == 0,
            b.tima == 0 && b.speed == 1 && b.intr_flags == 0,
            b.timer.control == 0 && b.timer.div_start == 0 && b.timer.scheduled_at == 0,
    {
        TimerBus { scheduler: Scheduler::new(), timer: Timer::default(), tima: 0, speed: 1, intr_flags: 0 }
    }
}

impl Timer {
    /// Timer overflow event happened, reset TIMA, fire interrupt (set bit
    /// `TIMER_INTERRUPT` of IF) and reschedule.
    pub fn on_overflow(gg: &mut TimerBus, late_by: u32)
        requires
            bus_ok(old(gg)),
            ({
                let now = old(gg).scheduler.time();
                let delay = overflow_delay(old(gg).timer, old(gg).tima, div_now(old(gg)), old(gg).speed);
                let (t1, p1) = schedule_result(
                    now,
                    old(gg).scheduler.pending(),
                    GGEvent::TmaReload,
                    (4 - late_by) as u32,
                );
                &&& late_by <= 4
                &&& late_by <= delay
                &&& can_schedule_at(now, old(gg).scheduler.pending(), (4 - late_by) as u32)
                &&& can_schedule_at(t1, p1, (delay - late_by) as u32)
            }),
        ensures
            ({
                let now = old(gg).scheduler.time();
                let delay = overflow_delay(old(gg).timer, old(gg).tima, div_now(old(gg)), old(gg).speed);
                let (t1, p1) = schedule_result(
                    now,
                    old(gg).scheduler.pending(),
                    GGEvent::TmaReload,
                    (4 - late_by) as u32,
                );
                let (t2, p2) = schedule_result(t1, p1, GGEvent::TimerOverflow, (delay - late_by) as u32);
                &&& final(gg).scheduler.time() == t2
                &&& final(gg).scheduler.pending() == p2
                &&& final(gg).scheduler.wf()
                &&& final(gg).tima == 0
                &&& final(gg).timer == (Timer { scheduled_at: now, ..old(gg).timer })
                &&& final(gg).speed == old(gg).speed
                &&& final(gg).intr_flags == (old(gg).intr_flags | 4)
            }),
    {
        gg.timer.scheduled_at = gg.scheduler.now();
        let time = Self::next_overflow_time(gg);

        // Obscure behavior: It takes 1 M-cycle for the timer to actually reload
        gg.tima = 0;
        gg.intr_flags = gg.intr_flags | 4;
        gg.scheduler.schedule(GGEvent::TmaReload, 4 - late_by);
        gg.scheduler.schedule(GGEvent::TimerOverflow, time - late_by);
    }

    /// Get the time when the next overflow will occur, in t-cycles.
    fn next_overflow_time(gg: &TimerBus) -> (r: u32)
        requires
            bus_ok(gg),
        ensures
            r == overflow_delay(gg.timer, gg.tima, div_now(gg), gg.speed),
            r <= 0x4_0000,
    {
        let divider = gg.timer.counter_divider as u32;
        let tima = gg.tima as u32;
        proof {
            assert(divider * (0x100 - tima) <= 0x4_0000) by (nonlinear_arith)
                requires
                    tima < 256,
                    divider <= 1024,
            ;
        }
        let time = divider * (0x100 - tima);
        // Account for already-running DIV causing less time for the first step
        let div = Self::div(gg) % gg.timer.counter_divider;
        // Account for 2x speed affecting the timer
        proof {
            assert(divider * (0x100 - tima) >= divider) by (nonlinear_arith)
                requires
                    tima < 256,
                    divider > 0,
            ;
        }
        (time - div as u32) / gg.speed as u32
    }

    /// Read one of the timer's registers.
    pub fn read(gg: &TimerBus, addr: u16) -> (r: u8)
        requires
            bus_ok(gg),
            addr == TIMA ==> tima_computable(gg),
        ensures
            r == if addr == DIV {
                (div_now(gg) / 256) as u8
            } else if addr == TAC {
                (gg.timer.control + 0xF8) as u8
            } else if addr == TIMA {
                tima_now(gg)
            } else {
                0xFFu8
            },
    {
        if addr == DIV {
            (Self::div(gg) / 256) as u8
        } else if addr == TAC {
            let c = gg.timer.control;
            proof {
                assert(c | 0xF8 == c + 0xF8) by (bit_vector)
                    requires
                        c < 8,
                ;
            }
            c | 0xF8
        } else if addr == TIMA {
            Self::get_tima(gg)
        } else {
            0xFF
        }
    }

    /// Current value of TIMA, counting the ticks since it was scheduled.
    fn get_tima(gg: &TimerBus) -> (r: u8)
        requires
            bus_ok(gg),
            tima_computable(gg),
        ensures
            r == tima_now(gg),
    {
        if gg.timer.counter_running {
            // Make sure we account for DIV being the timer's source of increases
            // properly, would count too little if not
            let time_elapsed = gg.scheduler.now() - gg.timer.scheduled_at;
            let time_ds = (time_elapsed % 0x1_0000) as u16 * gg.speed as u16;
            gg.tima + ((time_ds / gg.timer.counter_divider) % 256) as u8
        } else {
            gg.tima
        }
    }

    /// Write one of the timer's registers.
    pub fn write(gg: &mut TimerBus, addr: u16, value: u8)
        requires
            bus_ok(old(gg)),
            addr == DIV && old(gg).timer.counter_running ==> {
                &&& tima_computable(old(gg))
                &&& tima_now(old(gg)) + (if (div_now(old(gg)) >> old(gg).timer.counter_bit) & 1
                    == 1 { 1int } else { 0int }) <= u8::MAX
                &&& can_reschedule(
                    old(gg),
                    Timer { div_start: old(gg).scheduler.time(), ..old(gg).timer },
                    (tima_now(old(gg)) + (if (div_now(old(gg)) >> old(gg).timer.counter_bit) & 1
                        == 1 { 1int } else { 0int })) as u8,
                )
            },
            addr == TIMA ==> can_reschedule(old(gg), old(gg).timer, value),
            addr == TAC ==> tima_computable(old(gg)) && can_reschedule(
                old(gg),
                timer_after_tac(old(gg).timer, value),
                tima_now(old(gg)),
            ),
        ensures
            final(gg).scheduler.wf() && final(gg).timer.wf() && final(gg).speed >= 1,
            addr == DIV && old(gg).timer.counter_running ==> after_reschedule(
                old(gg),
                final(gg),
                Timer { div_start: old(gg).scheduler.time(), ..old(gg).timer },
                (tima_now(old(gg)) + (if (div_now(old(gg)) >> old(gg).timer.counter_bit) & 1 == 1 {
                    1int
                } else {
                    0int
                })) as u8,
            ),
            addr == DIV && !old(gg).timer.counter_running ==> {
                &&& final(gg).timer == (Timer { div_start: old(gg).scheduler.time(), ..old(gg).timer })
                &&& final(gg).scheduler.time() == old(gg).scheduler.time()
                &&& final(gg).scheduler.pending() == old(gg).scheduler.pending()
                &&& final(gg).tima == old(gg).tima && final(gg).speed == old(gg).speed
                &&& final(gg).intr_flags == old(gg).intr_flags
            },
            addr == TIMA ==> after_reschedule(old(gg), final(gg), old(gg).timer, value),
            addr == TAC ==> after_reschedule(
                old(gg),
                final(gg),
                timer_after_tac(old(gg).timer, value),
                tima_now(old(gg)),
            ),
            addr != DIV && addr != TIMA && addr != TAC ==> {
                &&& final(gg).timer == old(gg).timer
                &&& final(gg).scheduler.time() == old(gg).scheduler.time()
                &&& final(gg).scheduler.pending() == old(gg).scheduler.pending()
                &&& final(gg).tima == old(gg).tima && final(gg).speed == old(gg).speed
                &&& final(gg).intr_flags == old(gg).intr_flags
            },
    {
        if addr == DIV {
            let prev = Self::div(gg);

            // Reset DIV.
            gg.timer.div_start = gg.scheduler.now();

            // Reschedule TIMA, it counts on DIV so the counting for this increment starts
            // anew If the DIV counter bit was set, increment TIMA
            // (increment on falling DIV edge)
            if gg.timer.counter_running {
                let tima = Self::get_tima(gg);
                let inc: u8 = if (prev >> gg.timer.counter_bit) & 1 == 1 {
                    1
                } else {
                    0
                };
                gg.tima = tima + inc;
                Self::reschedule(gg);
            }
        } else if addr == TIMA {
            gg.tima = value;
            Self::reschedule(gg);
        } else if addr == TAC {
            // Update TIMA first of all
            gg.tima = Self::get_tima(gg);

            // Update control values...
            gg.timer.control = value % 8;
            gg.timer.counter_running = gg.timer.control / 4 == 1;
            gg.timer.counter_divider = match gg.timer.control % 4 {
                0 => 1024,  // 4K
                1 => 16,  // 256K
                2 => 64,  // 64K
                _ => 256,  // 16K (3)
            };
            gg.timer.counter_bit = match gg.timer.control % 4 {
                0 => 9,  // 4K
                1 => 3,  // 256K
                2 => 5,  // 64K
                _ => 7,  // 16K (3)
            };

            // Now reschedule if needed.
            Self::reschedule(gg);
        }
    }

    /// Calculate the current value of DIV.
    fn div(gg: &TimerBus) -> (r: u16)
        requires
            gg.scheduler.time() >= gg.timer.div_start,
        ensures
            r == div_now(gg),
    {
        ((gg.scheduler.now() - gg.timer.div_start) % 0x1_0000) as u16
    }

    /// Reschedule the timer overflow event.
    fn reschedule(gg: &mut TimerBus)
        requires
            bus_ok(old(gg)),
            can_reschedule(old(gg), old(gg).timer, old(gg).tima),
        ensures
            final(gg).timer.wf(),
            after_reschedule(old(gg), final(gg), old(gg).timer, old(gg).tima),
    {
        gg.scheduler.cancel(GGEvent::TimerOverflow);
        if gg.timer.counter_running {
            let div = Self::div(gg) % gg.timer.counter_divider;
            gg.timer.scheduled_at = gg.scheduler.now() - div as u32;
            let delay = Self::next_overflow_time(gg);
            gg.scheduler.schedule(GGEvent::TimerOverflow, delay);
        }
    }
}

} // verus!

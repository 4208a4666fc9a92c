//! One instruction step of the GGA's CPU: execution as far as the CPU
//! goes, then the loads and stores the instruction hands back, on the bus
//! interface of `transfer`.
use vstd::prelude::*;
use crate::gga::inst_arm::{arm_post, can_execute, ArmOutcome};
use crate::gga::inst_generic::cond_holds;
use crate::gga::inst_thumb::{is_thumb_lut, thumb_can_execute, thumb_kind, thumb_post, ThumbKind, ThumbOutcome};
use crate::gga::registers::{Cpu, Flag};
use crate::gga::transfer::{thumb_mem_ok, thumb_mem_post, MemDone};
use crate::gga::transfer_arm::{arm_mem_ok, arm_mem_post};

verus! {

/// State and outcome after a THUMB step: the CPU's part, then, for a load
/// or store, its bus part.
pub open spec fn thumb_stepped<R: Fn(u32, u32) -> u32>(
    read: R,
    before: Cpu,
    after: Cpu,
    inst: u16,
    o: ThumbOutcome,
    m: Option<MemDone>,
) -> bool {
    exists|mid: Cpu|
        #[trigger] thumb_post(before, mid, inst, o) && match o {
            ThumbOutcome::Memory(k) => thumb_mem_post(read, mid, after, k, inst, m),
            _ => m is None && after == mid,
        }
}

/// State and outcome after an ARM step: the CPU's part, then, for a load,
/// store or swap, its bus part.
pub open spec fn arm_stepped<R: Fn(u32, u32) -> u32>(
    read: R,
    before: Cpu,
    after: Cpu,
    inst: u32,
    o: ArmOutcome,
    m: Option<MemDone>,
) -> bool {
    exists|mid: Cpu|
        #[trigger] arm_post(before, mid, inst, o) && match o {
            ArmOutcome::Memory(d) => arm_mem_post(read, mid, after, d, m),
            _ => m is None && after == mid,
        }
}

impl Cpu {
    /// Execute THUMB instruction `inst`, its loads and stores included,
    /// reading through `read`. Software interrupts, unknown instructions
    /// and the pipeline refill are left to the system, as the outcome says.
    pub fn step_thumb<R: Fn(u32, u32) -> u32>(&mut self, lut: &Vec<ThumbKind>, inst: u16, read: &R) -> (r: (
        ThumbOutcome,
        Option<MemDone>,
    ))
        requires
            old(self).wf(),
            is_thumb_lut(lut@),
            thumb_can_execute(*old(self), inst),
            thumb_mem_ok(*old(self), thumb_kind((inst >> 8u16) as int), inst),
            forall|x: u32, s: u32| call_requires(*read, (x, s)),
        ensures
            thumb_stepped(*read, *old(self), *final(self), inst, r.0, r.1),
    {
        let o = self.execute_inst_thumb(lut, inst);
        let ghost mid = *self;
        let m = match o {
            ThumbOutcome::Memory(k) => self.thumb_memory(k, inst, read),
            _ => None,
        };
        proof {
            assert(thumb_post(*old(self), mid, inst, o));
        }
        (o, m)
    }

    /// Execute ARM instruction `inst`, its loads, stores and swaps
    /// included, reading through `read`. LDM/STM, software interrupts,
    /// unknown instructions, the pipeline refill and interrupt checks are
    /// left to the system, as the outcome says.
    pub fn step_arm<R: Fn(u32, u32) -> u32>(&mut self, inst: u32, read: &R) -> (r: (ArmOutcome, Option<MemDone>))
        requires
            old(self).wf(),
            cond_holds(
                (inst >> 28u32) as u16,
                old(self).flag_spec(Flag::Neg),
                old(self).flag_spec(Flag::Zero),
                old(self).flag_spec(Flag::Carry),
                old(self).flag_spec(Flag::Overflow),
            ) ==> can_execute(*old(self), inst) && arm_mem_ok(*old(self), crate::gga::inst_arm::decoded(inst)),
            forall|x: u32, s: u32| call_requires(*read, (x, s)),
        ensures
            arm_stepped(*read, *old(self), *final(self), inst, r.0, r.1),
    {
        let o = self.execute_inst_arm(inst);
        let ghost mid = *self;
        let m = match o {
            ArmOutcome::Memory(d) => self.arm_memory(d, read),
            _ => None,
        };
        proof {
            assert(arm_post(*old(self), mid, inst, o));
        }
        (o, m)
    }
}

} // verus!

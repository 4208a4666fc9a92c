//! Debugger info that the systems need to know: breakpoints on the PC and
//! on memory writes.
use vstd::prelude::*;
use vstd::std_specs::cmp::PartialEqSpec;

verus! {

/// A breakpoint.
pub struct Breakpoint<Ptr> {
    /// Address/value that this breakpoint is at.
    pub value: Option<Ptr>,
    /// String representation of the address/value; used by the GUI as a
    /// text buffer.
    pub value_text: String,
    /// If this breakpoint triggers on the PC.
    pub pc: bool,
    /// If this breakpoint triggers on a write.
    pub write: bool,
}

impl<Ptr: Copy> Clone for Breakpoint<Ptr> {
    fn clone(&self) -> (r: Self)
        ensures
            r == *self,
    {
        Breakpoint {
            value: self.value,
            value_text: self.value_text.clone(),
            pc: self.pc,
            write: self.write,
        }
    }
}

/// If a breakpoint triggers at `addr`: it is at that address, and is of the
/// kind asked for (PC if `on_pc`, else write).
pub open spec fn triggers<Ptr: PartialEq>(bp: Breakpoint<Ptr>, addr: Ptr, on_pc: bool) -> bool {
    &&& bp.value matches Some(v) && v.eq_spec(&addr)
    &&& if on_pc { bp.pc } else { bp.write }
}

/// Index of the first breakpoint that triggers, if any does.
pub open spec fn first_trigger<Ptr: PartialEq>(
    bps: Seq<Breakpoint<Ptr>>,
    addr: Ptr,
    on_pc: bool,
) -> Option<int>
    decreases bps.len(),
{
    if bps.len() == 0 {
        None
    } else if triggers(bps[0], addr, on_pc) {
        Some(0)
    } else {
        shifted(first_trigger(bps.drop_first(), addr, on_pc), 1)
    }
}

/// An index moved up by `k`.
pub open spec fn shifted(o: Option<int>, k: int) -> Option<int> {
    match o {
        Some(i) => Some(i + k),
        None => None,
    }
}

/// Debugger info that is required to be known by the system.
/// Is generic over the systems; generic type Ptr is the pointer size
/// of the system (u16/u32).
pub struct Debugger<Ptr> {
    /// Contains the serial output that was written to IO register SB.
    pub serial_output: String,
    /// A list of breakpoints the system should stop on.
    pub breakpoints: Vec<Breakpoint<Ptr>>,
    /// If a breakpoint was hit.
    pub is_breakpoint_hit: bool,
    /// The hit breakpoint.
    pub breakpoint_hit: Option<Breakpoint<Ptr>>,
}

/// The debugger after checking `addr` against its breakpoints.
pub open spec fn after_check<Ptr: PartialEq>(
    before: &Debugger<Ptr>,
    after: &Debugger<Ptr>,
    addr: Ptr,
    on_pc: bool,
) -> bool {
    &&& after.serial_output == before.serial_output
    &&& after.breakpoints == before.breakpoints
    &&& match first_trigger(before.breakpoints@, addr, on_pc) {
        Some(i) => after.is_breakpoint_hit && after.breakpoint_hit == Some(before.breakpoints@[i]),
        None => after.is_breakpoint_hit == before.is_breakpoint_hit && after.breakpoint_hit
            == before.breakpoint_hit,
    }
}

impl<Ptr: PartialEq + Copy> Debugger<Ptr> {
    /// A debugger without breakpoints.
    pub fn new() -> (d: Self)
        ensures
            d.breakpoints@.len() == 0,
            !d.is_breakpoint_hit,
            d.breakpoint_hit is None,
    {
        Debugger {
            serial_output: String::new(),
            breakpoints: Vec::new(),
            is_breakpoint_hit: false,
            breakpoint_hit: None,
        }
    }

    /// Find the first breakpoint that triggers at `addr`.
    fn find(&self, addr: Ptr, on_pc: bool) -> (r: Option<usize>)
        requires
            Ptr::obeys_eq_spec(),
        ensures
            match r {
                Some(j) => first_trigger(self.breakpoints@, addr, on_pc) == Some(j as int) && j
                    < self.breakpoints@.len(),
                None => first_trigger(self.breakpoints@, addr, on_pc) is None,
            },
    {
        proof {
            lemma_first_trigger(self.breakpoints@, addr, on_pc);
            assert(self.breakpoints@.subrange(0, self.breakpoints@.len() as int)
                =~= self.breakpoints@);
        }
        let mut i: usize = 0;
        while i < self.breakpoints.len()
            invariant
                Ptr::obeys_eq_spec(),
                0 <= i <= self.breakpoints@.len(),
                first_trigger(self.breakpoints@, addr, on_pc) matches Some(k) ==> 0 <= k
                    < self.breakpoints@.len(),
                first_trigger(self.breakpoints@, addr, on_pc) == shifted(
                    first_trigger(
                        self.breakpoints@.subrange(i as int, self.breakpoints@.len() as int),
                        addr,
                        on_pc,
                    ),
                    i as int,
                ),
            decreases self.breakpoints@.len() - i,
        {
            let bp = &self.breakpoints[i];
            let kind = if on_pc {
                bp.pc
            } else {
                bp.write
            };
            let hit = match bp.value {
                Some(v) => kind && v == addr,
                None => false,
            };
            let ghost rest = self.breakpoints@.subrange(i as int, self.breakpoints@.len() as int);
            if hit {
                proof {
                    assert(rest[0] == self.breakpoints@[i as int]);
                }
                return Some(i);
            }
            proof {
                assert(rest.drop_first() =~= self.breakpoints@.subrange(
                    i + 1,
                    self.breakpoints@.len() as int,
                ));
            }
            i = i + 1;
        }
        proof {
            assert(self.breakpoints@.subrange(i as int, self.breakpoints@.len() as int).len() == 0);
        }
        None
    }

    /// Called before a memory write is executed, which might trigger a BP.
    pub fn write_occurred(&mut self, addr: Ptr)
        requires
            Ptr::obeys_eq_spec(),
        ensures
            after_check(old(self), final(self), addr, false),
    {
        if self.breakpoints.len() == 0 {
            return;
        }
        if let Some(i) = self.find(addr, false) {
            self.breakpoint_hit = Some(self.breakpoints[i].clone());
            self.is_breakpoint_hit = true;
        }
    }

    /// Called before an instruction is executed, which might trigger a BP.
    /// If it does, function returns false and inst should not be executed.
    pub fn should_execute(&mut self, pc: Ptr) -> (r: bool)
        requires
            Ptr::obeys_eq_spec(),
        ensures
            after_check(old(self), final(self), pc, true),
            r == (old(self).breakpoints@.len() == 0 || !final(self).is_breakpoint_hit),
    {
        if self.breakpoints.len() == 0 {
            return true;
        }
        if let Some(i) = self.find(pc, true) {
            self.breakpoint_hit = Some(self.breakpoints[i].clone());
            self.is_breakpoint_hit = true;
        }
        !self.is_breakpoint_hit
    }
}

/// The first triggering breakpoint triggers, and none before it does.
pub proof fn lemma_first_trigger<Ptr: PartialEq>(bps: Seq<Breakpoint<Ptr>>, addr: Ptr, on_pc: bool)
    ensures
        match first_trigger(bps, addr, on_pc) {
            Some(i) => 0 <= i < bps.len() && triggers(bps[i], addr, on_pc) && forall|j: int|
                0 <= j < i ==> !triggers(#[trigger] bps[j], addr, on_pc),
            None => forall|j: int| 0 <= j < bps.len() ==> !triggers(#[trigger] bps[j], addr, on_pc),
        },
    decreases bps.len(),
{
    if bps.len() > 0 {
        lemma_first_trigger(bps.drop_first(), addr, on_pc);
        assert forall|j: int| 1 <= j < bps.len() implies #[trigger] bps[j] == bps.drop_first()[j - 1] by {}
    }
}

} // verus!

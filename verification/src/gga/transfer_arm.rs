//! ARM loads, stores and swaps, on the bus interface of `transfer`.
use vstd::prelude::*;
use crate::gga::inst_arm::shift_out;
use crate::gga::inst_arm::{ArmInst, HalfKind};
use crate::gga::inst_generic::mod_with_offs;
use crate::gga::memory::Access;
use crate::gga::registers::Cpu;
use crate::gga::transfer::{
    byte, bus_write, half, load, load_size, load_value, read_at, sext16, sext16w, sext8, sext8w, byte_of,
    half_of, store_value, write_at, BusAccess, LoadKind, MemDone,
};

verus! {

/// `v` moved by `offs`, up or down, wrapping around.
pub open spec fn mod_offs(v: u32, offs: u32, up: bool) -> u32 {
    if up {
        ((v + offs) % 0x1_0000_0000) as u32
    } else {
        (if v >= offs {
            v - offs
        } else {
            v - offs + 0x1_0000_0000
        }) as u32
    }
}

/// A register as a store reads it: the PC 4 ahead.
pub open spec fn reg_pc4_spec(c: Cpu, idx: u32) -> u32 {
    if idx >= 15 {
        (c.pc + 4) as u32
    } else {
        c.reg_spec(idx)
    }
}

/// How LDR/LDRH/LDRB with `width` loads: with `align` words come as they
/// are and halfwords rotated; else words rotated and odd halfwords as
/// sign-extended bytes.
pub open spec fn ldr_kind(align: bool, width: u32) -> LoadKind {
    if width == 4 {
        if align {
            LoadKind::AlignedWord
        } else {
            LoadKind::Word
        }
    } else if width == 2 {
        if align {
            LoadKind::Half
        } else {
            LoadKind::HalfOrSignedByte
        }
    } else {
        LoadKind::Byte
    }
}

/// State and outcome after a single ARM load or store (see
/// `Cpu::ldrstr`).
pub open spec fn ldrstr_post<R: Fn(u32, u32) -> u32>(
    read: R,
    before: Cpu,
    after: Cpu,
    r: MemDone,
    align: bool,
    post: bool,
    up: bool,
    width: u32,
    writeback: bool,
    store: bool,
    n: u32,
    d: u32,
    offs: u32,
) -> bool {
    let base = before.reg_spec(n);
    let addr = if post {
        base
    } else {
        mod_offs(base, offs, up)
    };
    let end = mod_offs(base, offs, up);
    let acc = r.accesses@;
    &&& acc.len() == 1
    &&& r.idle == if store {
        0u32
    } else {
        1u32
    }
    &&& store ==> {
        &&& write_at(acc[0], addr, width, store_value(width, reg_pc4_spec(before, d)), Access::NonSequential, true)
        &&& writeback ==> Cpu::reg_written(before, after, n, end) && r.pc_written == (n >= 15)
        &&& !writeback ==> after == before && !r.pc_written
    }
    &&& !store ==> {
        let k = ldr_kind(align, width);
        let wb = writeback && n != d;
        &&& read_at(read, acc[0], addr, load_size(k, addr), Access::NonSequential)
        &&& r.pc_written == (d >= 15 || (wb && n >= 15))
        &&& loaded_into(before, after, d, load_value(k, addr, acc[0].value), wb, n, end)
    }
}

/// `after` is `before` with register `d` set to `v`, then, if `wb`, `n` to
/// `end`.
pub open spec fn loaded_into(before: Cpu, after: Cpu, d: u32, v: u32, wb: bool, n: u32, end: u32) -> bool {
    exists|mid: Cpu|
        #[trigger] Cpu::reg_written(before, mid, d, v) && if wb {
            Cpu::reg_written(mid, after, n, end)
        } else {
            after == mid
        }
}

/// The offset of LDR/STR: the 12-bit immediate, or Rm shifted by an
/// immediate (type in bits 5-6, amount in bits 7-11).
pub open spec fn transfer_offset(c: Cpu, reg_offset: bool, offset: u32) -> u32 {
    if reg_offset {
        shift_out(c.cpsr, c.reg_spec(offset % 16), (offset / 32) % 4, (offset / 128) % 32, true).0
    } else {
        offset
    }
}

/// State and outcome after SWP/SWPB: the old value at Rn goes to Rd, Rm to
/// the memory at Rn.
pub open spec fn swap_post<R: Fn(u32, u32) -> u32>(
    read: R,
    before: Cpu,
    after: Cpu,
    r: MemDone,
    byte: bool,
    rn: u32,
    rd: u32,
    rm: u32,
) -> bool {
    let addr = before.reg_spec(rn);
    let k = if byte {
        LoadKind::Byte
    } else {
        LoadKind::Word
    };
    let size: u32 = if byte {
        1
    } else {
        4
    };
    let acc = r.accesses@;
    &&& acc.len() == 2 && r.idle == 1 && r.pc_written == (rd >= 15)
    &&& read_at(read, acc[0], addr, load_size(k, addr), Access::NonSequential)
    &&& write_at(acc[1], addr, size, store_value(size, before.reg_spec(rm)), Access::NonSequential, true)
    &&& Cpu::reg_written(before, after, rd, load_value(k, addr, acc[0].value))
}

/// State and outcome after ARM memory instruction `inst`; other
/// instructions, and LDM/STM, do nothing.
pub open spec fn arm_mem_post<R: Fn(u32, u32) -> u32>(
    read: R,
    before: Cpu,
    after: Cpu,
    inst: ArmInst,
    r: Option<MemDone>,
) -> bool {
    match inst {
        ArmInst::Swap { byte, rn, rd, rm } => r matches Some(m) && swap_post(read, before, after, m, byte, rn, rd, rm),
        ArmInst::Transfer { reg_offset, pre, up, byte, writeback, load, rn, rd, offset } => r matches Some(m)
            && ldrstr_post(
            read,
            before,
            after,
            m,
            false,
            !pre,
            up,
            if byte {
                1
            } else {
                4
            },
            !pre || writeback,
            !load,
            rn,
            rd,
            transfer_offset(before, reg_offset, offset),
        ),
        ArmInst::HalfTransfer { kind, imm_offset, pre, up, writeback, load, rn, rd, offset } => {
            let offs = if imm_offset {
                offset
            } else {
                before.reg_spec(offset)
            };
            match kind {
                HalfKind::Half => r matches Some(m) && ldrstr_post(
                    read,
                    before,
                    after,
                    m,
                    true,
                    !pre,
                    up,
                    2,
                    !pre || writeback,
                    !load,
                    rn,
                    rd,
                    offs,
                ),
                HalfKind::SignedByte => r matches Some(m) && extended_load(
                    read,
                    before,
                    after,
                    m,
                    true,
                    !pre,
                    up,
                    1,
                    !pre || writeback,
                    rn,
                    rd,
                    offs,
                ),
                HalfKind::SignedHalf => r matches Some(m) && extended_load(
                    read,
                    before,
                    after,
                    m,
                    false,
                    !pre,
                    up,
                    2,
                    !pre || writeback,
                    rn,
                    rd,
                    offs,
                ),
            }
        },
        _ => r is None && after == before,
    }
}

/// A load of `width` bytes (see `Cpu::ldrstr`), after which Rd holds its
/// low byte (`width` 1) or halfword, sign-extended.
pub open spec fn extended_load<R: Fn(u32, u32) -> u32>(
    read: R,
    before: Cpu,
    after: Cpu,
    r: MemDone,
    align: bool,
    post: bool,
    up: bool,
    width: u32,
    writeback: bool,
    n: u32,
    d: u32,
    offs: u32,
) -> bool {
    exists|mid: Cpu|
        #[trigger] ldrstr_post(read, before, mid, r, align, post, up, width, writeback, false, n, d, offs)
            && Cpu::reg_written(
            mid,
            after,
            d,
            if width == 1 {
                sext8w(byte_of(mid.reg_spec(d)))
            } else {
                sext16w(half_of(mid.reg_spec(d)))
            },
        )
}

/// What an ARM memory instruction needs: a stored PC does not overflow.
pub open spec fn arm_mem_ok(c: Cpu, inst: ArmInst) -> bool {
    match inst {
        ArmInst::Transfer { load, rd, .. } => !load && rd >= 15 ==> c.pc + 4 <= u32::MAX,
        ArmInst::HalfTransfer { kind, load, rd, .. } => kind == HalfKind::Half && !load && rd >= 15 ==> c.pc + 4
            <= u32::MAX,
        _ => true,
    }
}

impl Cpu {
    /// A single ARM load or store of `width` bytes (4, 2 or 1) of Rd at Rn
    /// moved by `offs` (before the access unless `post`), with Rn written
    /// back if `writeback` (on a load only if Rn is not Rd); see `ldr_kind`
    /// for `align`. Loads add an internal cycle.
    pub fn ldrstr<R: Fn(u32, u32) -> u32>(
        &mut self,
        align: bool,
        post: bool,
        up: bool,
        width: u32,
        writeback: bool,
        store: bool,
        n: u32,
        d: u32,
        offs: u32,
        read: &R,
    ) -> (r: MemDone)
        requires
            old(self).wf(),
            forall|x: u32, s: u32| call_requires(*read, (x, s)),
            width == 1 || width == 2 || width == 4,
            store && d >= 15 ==> old(self).pc + 4 <= u32::MAX,
        ensures
            final(self).wf(),
            ldrstr_post(*read, *old(self), *final(self), r, align, post, up, width, writeback, store, n, d, offs),
    {
        let base = self.reg(n);
        let mut addr = base;
        if !post {
            addr = mod_with_offs(addr, offs, up);
        }
        let mut accesses: Vec<BusAccess> = Vec::new();
        let mut pc_written = false;
        let ghost before = *self;
        if store {
            let v = self.reg_pc4(d);
            let value = if width == 4 {
                v
            } else if width == 2 {
                half(v)
            } else {
                byte(v)
            };
            accesses.push(bus_write(addr, width, value, Access::NonSequential, true));
        } else {
            let k = if width == 4 {
                if align {
                    LoadKind::AlignedWord
                } else {
                    LoadKind::Word
                }
            } else if width == 2 {
                if align {
                    LoadKind::Half
                } else {
                    LoadKind::HalfOrSignedByte
                }
            } else {
                LoadKind::Byte
            };
            let (a, v) = load(read, k, addr);
            accesses.push(a);
            pc_written = self.set_reg(d, v);
        }
        let ghost mid = *self;
        if post {
            addr = mod_with_offs(addr, offs, up);
        }
        if writeback && (store || n != d) {
            let w = self.set_reg(n, addr);
            pc_written = pc_written || w;
        }
        let r = MemDone { accesses, idle: if store {
            0
        } else {
            1
        }, pc_written };
        proof {
            if !store {
                let addr0 = if post {
                    before.reg_spec(n)
                } else {
                    mod_offs(before.reg_spec(n), offs, up)
                };
                let v = load_value(ldr_kind(align, width), addr0, r.accesses@[0].value);
                assert(Cpu::reg_written(before, mid, d, v));
                assert(loaded_into(before, *self, d, v, writeback && n != d, n, mod_offs(before.reg_spec(n), offs, up)));
            }
        }
        r
    }

    /// SWP/SWPB: swap Rm with the word (byte) at Rn, the old value into Rd.
    pub fn swap<R: Fn(u32, u32) -> u32>(&mut self, byte: bool, rn: u32, rd: u32, rm: u32, read: &R) -> (r: MemDone)
        requires
            old(self).wf(),
            forall|x: u32, s: u32| call_requires(*read, (x, s)),
        ensures
            final(self).wf(),
            swap_post(*read, *old(self), *final(self), r, byte, rn, rd, rm),
    {
        let addr = self.reg(rn);
        let (a, mem_value) = if byte {
            load(read, LoadKind::Byte, addr)
        } else {
            load(read, LoadKind::Word, addr)
        };
        let reg = self.reg(rm);
        let w = if byte {
            bus_write(addr, 1, crate::gga::transfer::byte(reg), Access::NonSequential, true)
        } else {
            bus_write(addr, 4, reg, Access::NonSequential, true)
        };
        let pc_written = self.set_reg(rd, mem_value);
        MemDone { accesses: vec![a, w], idle: 1, pc_written }
    }

    /// Run ARM memory instruction `inst` (as `execute_inst_arm` hands it
    /// back), reading through `read`: LDR/STR, LDRH/STRH/LDRSB/LDRSH and
    /// SWP. `None` for other instructions and for LDM/STM.
    pub fn arm_memory<R: Fn(u32, u32) -> u32>(&mut self, inst: ArmInst, read: &R) -> (r: Option<MemDone>)
        requires
            old(self).wf(),
            forall|x: u32, s: u32| call_requires(*read, (x, s)),
            arm_mem_ok(*old(self), inst),
        ensures
            final(self).wf(),
            arm_mem_post(*read, *old(self), *final(self), inst, r),
    {
        match inst {
            ArmInst::Swap { byte, rn, rd, rm } => Some(self.swap(byte, rn, rd, rm, read)),
            ArmInst::Transfer { reg_offset, pre, up, byte, writeback, load, rn, rd, offset } => {
                let offs = if reg_offset {
                    let cpsr = self.cpsr;
                    let rm = self.reg(offset % 16);
                    let o = self.shifted_op::<true>(rm, (offset / 32) % 4, (offset / 128) % 32);
                    self.cpsr = cpsr;
                    o
                } else {
                    offset
                };
                let width = if byte {
                    1
                } else {
                    4
                };
                Some(self.ldrstr(false, !pre, up, width, !pre || writeback, !load, rn, rd, offs, read))
            },
            ArmInst::HalfTransfer { kind, imm_offset, pre, up, writeback, load, rn, rd, offset } => {
                let offs = if imm_offset {
                    offset
                } else {
                    self.reg(offset)
                };
                match kind {
                    HalfKind::Half => Some(self.ldrstr(true, !pre, up, 2, !pre || writeback, !load, rn, rd, offs, read)),
                    HalfKind::SignedByte => {
                        let m = self.ldrstr(true, !pre, up, 1, !pre || writeback, false, rn, rd, offs, read);
                        let ghost mid = *self;
                        let v = self.reg(rd);
                        self.set_reg(rd, sext8(crate::gga::transfer::byte(v)));
                        proof {
                            assert(ldrstr_post(*read, *old(self), mid, m, true, !pre, up, 1, !pre || writeback, false, rn, rd, offs));
                        }
                        Some(m)
                    },
                    HalfKind::SignedHalf => {
                        let m = self.ldrstr(false, !pre, up, 2, !pre || writeback, false, rn, rd, offs, read);
                        let ghost mid = *self;
                        let v = self.reg(rd);
                        self.set_reg(rd, sext16(half(v)));
                        proof {
                            assert(ldrstr_post(*read, *old(self), mid, m, false, !pre, up, 2, !pre || writeback, false, rn, rd, offs));
                        }
                        Some(m)
                    },
                }
            },
            _ => None,
        }
    }
}

} // verus!

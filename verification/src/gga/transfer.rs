//! THUMB loads and stores. The CPU computes the addresses, the order and
//! kind of the bus accesses and the registers they fill; the bus itself is
//! the system's. Reads go through `read(addr, size)`, which gives the
//! bus's byte, halfword or word at `addr` (1, 2 or 4 bytes, `addr` aligned
//! to the size); writes are handed back, in order, for the system to make.
use vstd::prelude::*;
use crate::bits::{lemma_mask_bounds, lemma_shift_round_trips};
use crate::gga::alu::{rotr, signed};
use crate::gga::graphics::{reg_bit, Ppu};
use crate::gga::inst_thumb::{low_field, ThumbInst, ThumbKind};
use crate::gga::memory::Access;
use crate::gga::registers::{bank_of, Cpu};

verus! {

/// One access of an instruction to the bus.
#[derive(Copy, Clone, PartialEq, Eq, Structural, Debug)]
pub struct BusAccess {
    /// Where the bus is accessed, aligned to the size.
    pub addr: u32,
    /// 1, 2 or 4 bytes.
    pub size: u32,
    /// A write; else a read.
    pub write: bool,
    /// The value written, or the value the bus gave.
    pub value: u32,
    pub kind: Access,
    /// The access takes bus time (all but the fix-up write of STMIA).
    pub timed: bool,
}

/// What a THUMB load or store did, beyond the registers.
pub struct MemDone {
    /// The bus accesses, in order.
    pub accesses: Vec<BusAccess>,
    /// Internal cycles the instruction adds.
    pub idle: u32,
    /// The PC was written: the pipeline is to be refilled.
    pub pc_written: bool,
}

/// `addr` rounded down to a multiple of `size`.
pub open spec fn aligned(addr: u32, size: u32) -> u32 {
    (addr - addr % size) as u32
}

/// `a + n` for `0 <= n < 2^32`, wrapping around.
pub open spec fn wadd(a: u32, n: int) -> u32 {
    (if a + n >= 0x1_0000_0000 {
        a + n - 0x1_0000_0000
    } else {
        a + n
    }) as u32
}

/// Kind of the `k`th access of a multiple transfer: the first is
/// non-sequential.
pub open spec fn kind_of(k: int) -> Access {
    if k == 0 {
        Access::NonSequential
    } else {
        Access::Sequential
    }
}

/// How many of the registers below `r` the register list (bits 0-7 of
/// `inst`) names.
pub open spec fn ones_below(inst: u16, r: int) -> int
    decreases r,
{
    if r <= 0 {
        0
    } else {
        ones_below(inst, r - 1) + if reg_bit(inst, r - 1) {
            1int
        } else {
            0int
        }
    }
}

/// Registers named in the list are counted in order.
pub proof fn lemma_ones_below(inst: u16, a: int, b: int)
    requires
        0 <= a <= b,
    ensures
        0 <= ones_below(inst, a) <= ones_below(inst, b),
        ones_below(inst, b) - ones_below(inst, a) <= b - a,
        a < b && reg_bit(inst, a) ==> ones_below(inst, a) < ones_below(inst, b),
    decreases b - a,
{
    lemma_ones_nonneg(inst, a);
    if a < b {
        lemma_ones_below(inst, a, b - 1);
    }
}

proof fn lemma_ones_nonneg(inst: u16, a: int)
    requires
        0 <= a,
    ensures
        0 <= ones_below(inst, a) <= a,
    decreases a,
{
    if a > 0 {
        lemma_ones_nonneg(inst, a - 1);
    }
}

/// A timed read of `size` bytes at `addr` that gave `a.value`.
pub open spec fn read_at<R: Fn(u32, u32) -> u32>(read: R, a: BusAccess, addr: u32, size: u32, kind: Access) -> bool {
    &&& !a.write && a.timed
    &&& a.addr == aligned(addr, size) && a.size == size && a.kind == kind
    &&& call_ensures(read, (a.addr, size), a.value)
}

/// A write of `value`, `size` bytes at `addr`.
pub open spec fn write_at(a: BusAccess, addr: u32, size: u32, value: u32, kind: Access, timed: bool) -> bool {
    a == BusAccess { addr: aligned(addr, size), size, write: true, value, kind, timed }
}

/// The byte a bus read gave.
pub open spec fn byte_of(v: u32) -> u32 {
    v % 0x100
}

/// The halfword a bus read gave.
pub open spec fn half_of(v: u32) -> u32 {
    v % 0x1_0000
}

/// A byte, sign-extended.
pub open spec fn sext8w(b: u32) -> u32 {
    if b >= 0x80 {
        (b + 0xFFFF_FF00) as u32
    } else {
        b
    }
}

/// A halfword, sign-extended.
pub open spec fn sext16w(h: u32) -> u32 {
    if h >= 0x8000 {
        (h + 0xFFFF_0000) as u32
    } else {
        h
    }
}

/// The value LDR loads from `addr`, given the word at the aligned address:
/// rotated so that the addressed byte comes first.
pub open spec fn ldr_value(addr: u32, word: u32) -> u32 {
    rotr(word, ((addr % 4) * 8) as u32)
}

/// The value LDRH loads from `addr`, given the halfword at the aligned
/// address: rotated by a byte if `addr` is odd.
pub open spec fn ldrh_value(addr: u32, half: u32) -> u32 {
    if addr % 2 == 1 {
        rotr(half_of(half), 8)
    } else {
        half_of(half)
    }
}

/// `after` is `before` with low register `d` set to `v`.
pub open spec fn low_set_to(before: Cpu, after: Cpu, d: int, v: u32) -> bool {
    &&& after.low@ == before.low@.update(d, v)
    &&& after.cpsr == before.cpsr && after.fiqs == before.fiqs && after.spsr == before.spsr
    &&& after.sp == before.sp && after.lr == before.lr && after.pc == before.pc
}

/// How a load turns what the bus gave into a register value.
#[derive(Copy, Clone, PartialEq, Eq, Structural, Debug)]
pub enum LoadKind {
    /// LDR: a word, rotated if unaligned.
    Word,
    /// LDRH: a halfword, rotated if unaligned.
    Half,
    /// LDRB.
    Byte,
    /// LDSB: a sign-extended byte.
    SignedByte,
    /// LDSH: a sign-extended halfword; at an odd address a sign-extended
    /// byte.
    SignedHalf,
    /// A word at the address rounded down, as it is.
    AlignedWord,
    /// A halfword; at an odd address a sign-extended byte.
    HalfOrSignedByte,
}

/// A single load or store.
#[derive(Copy, Clone, PartialEq, Eq, Structural, Debug)]
pub enum MemOp {
    /// Store the low bytes of the register, 1, 2 or 4 of them.
    Store(u32),
    Load(LoadKind),
}

/// How many bytes a load reads at `addr`.
pub open spec fn load_size(k: LoadKind, addr: u32) -> u32 {
    match k {
        LoadKind::Word => 4,
        LoadKind::Half => 2,
        LoadKind::Byte | LoadKind::SignedByte => 1,
        LoadKind::SignedHalf | LoadKind::HalfOrSignedByte => if addr % 2 == 1 {
            1
        } else {
            2
        },
        LoadKind::AlignedWord => 4,
    }
}

/// The register value a load from `addr` gives, from what the bus gave.
pub open spec fn load_value(k: LoadKind, addr: u32, raw: u32) -> u32 {
    match k {
        LoadKind::Word => ldr_value(addr, raw),
        LoadKind::Half => ldrh_value(addr, raw),
        LoadKind::Byte => byte_of(raw),
        LoadKind::SignedByte => sext8w(byte_of(raw)),
        LoadKind::SignedHalf => if addr % 2 == 1 {
            sext8w(byte_of(raw))
        } else {
            sext16w(half_of(raw))
        },
        LoadKind::AlignedWord => raw,
        LoadKind::HalfOrSignedByte => if addr % 2 == 1 {
            sext8w(byte_of(raw))
        } else {
            half_of(raw)
        },
    }
}

/// What each load gives, from what the bus gave: LDR at an aligned
/// address the word itself, and at an unaligned one the word rotated so
/// that rotating the result back left by the misalignment gives the word;
/// LDRB the byte; LDRH at an even address the halfword. The signed loads
/// give the byte or halfword as a signed number: its low bits, with the
/// same value as a signed 32-bit word.
pub proof fn lemma_load_values(addr: u32, raw: u32)
    ensures
        addr % 4 == 0 ==> load_value(LoadKind::Word, addr, raw) == raw,
        addr % 4 != 0 ==> ({
            let r = load_value(LoadKind::Word, addr, raw);
            let n = ((addr % 4) * 8) as u32;
            (r << n) | (r >> ((32 - n) as u32)) == raw
        }),
        load_value(LoadKind::Byte, addr, raw) == raw % 0x100,
        addr % 2 == 0 ==> load_value(LoadKind::Half, addr, raw) == raw % 0x1_0000,
        load_value(LoadKind::SignedByte, addr, raw) % 0x100 == raw % 0x100,
        signed(load_value(LoadKind::SignedByte, addr, raw)) == if raw % 0x100 >= 0x80 {
            raw % 0x100 - 0x100
        } else {
            (raw % 0x100) as int
        },
        addr % 2 == 0 ==> load_value(LoadKind::SignedHalf, addr, raw) % 0x1_0000 == raw % 0x1_0000,
        addr % 2 == 0 ==> signed(load_value(LoadKind::SignedHalf, addr, raw)) == if raw % 0x1_0000
            >= 0x8000 {
            raw % 0x1_0000 - 0x1_0000
        } else {
            (raw % 0x1_0000) as int
        },
{
    let n = ((addr % 4) * 8) as u32;
    lemma_shift_round_trips(raw, n);
}

/// The value a store of `size` bytes of `v` writes.
pub open spec fn store_value(size: u32, v: u32) -> u32 {
    if size == 4 {
        v
    } else if size == 2 {
        half_of(v)
    } else {
        byte_of(v)
    }
}

/// State and outcome after a store of `size` bytes of low register `d` at
/// `addr`: one non-sequential write, nothing else changes.
pub open spec fn store_post(before: Cpu, after: Cpu, r: MemDone, size: u32, addr: u32, d: int) -> bool {
    &&& !r.pc_written && r.idle == 0 && r.accesses@.len() == 1
    &&& write_at(r.accesses@[0], addr, size, store_value(size, before.low[d]), Access::NonSequential, true)
    &&& after == before
}

/// State and outcome after a single load or store `op` at `addr` with low
/// register `d`: one non-sequential access; a load adds an internal cycle.
pub open spec fn single_post<R: Fn(u32, u32) -> u32>(
    read: R,
    before: Cpu,
    after: Cpu,
    r: MemDone,
    op: MemOp,
    addr: u32,
    d: int,
) -> bool {
    match op {
        MemOp::Store(size) => store_post(before, after, r, size, addr, d),
        MemOp::Load(k) => {
            &&& !r.pc_written && r.idle == 1 && r.accesses@.len() == 1
            &&& read_at(read, r.accesses@[0], addr, load_size(k, addr), Access::NonSequential)
            &&& low_set_to(before, after, d, load_value(k, addr, r.accesses@[0].value))
        },
    }
}

/// The operation of THUMB formats 7 and 8 (`LdrStrReg`).
pub open spec fn op78(o: u16) -> MemOp {
    if o == 0 {
        MemOp::Store(4)
    } else if o == 1 {
        MemOp::Store(2)
    } else if o == 2 {
        MemOp::Store(1)
    } else if o == 3 {
        MemOp::Load(LoadKind::SignedByte)
    } else if o == 4 {
        MemOp::Load(LoadKind::Word)
    } else if o == 5 {
        MemOp::Load(LoadKind::Half)
    } else if o == 6 {
        MemOp::Load(LoadKind::Byte)
    } else {
        MemOp::Load(LoadKind::SignedHalf)
    }
}

/// The operation of THUMB format 9 (`LdrStrImm`).
pub open spec fn op9(o: u16) -> MemOp {
    if o == 0 {
        MemOp::Store(4)
    } else if o == 1 {
        MemOp::Load(LoadKind::Word)
    } else if o == 2 {
        MemOp::Store(1)
    } else {
        MemOp::Load(LoadKind::Byte)
    }
}

/// `after` is `before` with the SP of the current mode set to `v`.
pub open spec fn sp_set_to(before: Cpu, after: Cpu, v: u32) -> bool {
    &&& after.sp@ == before.sp@.update(bank_of(before.mode_spec()), v)
    &&& after.cpsr == before.cpsr && after.fiqs == before.fiqs && after.spsr == before.spsr
    &&& after.low == before.low && after.lr == before.lr && after.pc == before.pc
}

/// The SP of the current mode.
pub open spec fn sp_of(c: Cpu) -> u32 {
    c.sp[bank_of(c.mode_spec())]
}

pub(crate) fn byte(v: u32) -> (r: u32)
    ensures
        r == byte_of(v),
{
    v % 0x100
}

pub(crate) fn half(v: u32) -> (r: u32)
    ensures
        r == half_of(v),
{
    v % 0x1_0000
}

pub(crate) fn sext8(b: u32) -> (r: u32)
    requires
        b < 0x100,
    ensures
        r == sext8w(b),
{
    if b >= 0x80 {
        b + 0xFFFF_FF00
    } else {
        b
    }
}

pub(crate) fn sext16(h: u32) -> (r: u32)
    requires
        h < 0x1_0000,
    ensures
        r == sext16w(h),
{
    if h >= 0x8000 {
        h + 0xFFFF_0000
    } else {
        h
    }
}

/// Read `size` bytes at `addr` rounded down to the size.
pub(crate) fn bus_read<R: Fn(u32, u32) -> u32>(read: &R, addr: u32, size: u32, kind: Access) -> (a: BusAccess)
    requires
        size == 1 || size == 2 || size == 4,
        forall|x: u32, s: u32| call_requires(*read, (x, s)),
    ensures
        read_at(*read, a, addr, size, kind),
{
    proof {
        assert(addr % size <= addr) by (nonlinear_arith)
            requires
                size > 0,
        ;
    }
    let at = addr - addr % size;
    let value = read(at, size);
    BusAccess { addr: at, size, write: false, value, kind, timed: true }
}

/// A load of kind `k` from `addr`: the bus access it makes and the value
/// it gives.
pub(crate) fn load<R: Fn(u32, u32) -> u32>(read: &R, k: LoadKind, addr: u32) -> (r: (BusAccess, u32))
    requires
        forall|x: u32, s: u32| call_requires(*read, (x, s)),
    ensures
        read_at(*read, r.0, addr, load_size(k, addr), Access::NonSequential),
        r.1 == load_value(k, addr, r.0.value),
{
    let size: u32 = match k {
        LoadKind::Word | LoadKind::AlignedWord => 4,
        LoadKind::Half => 2,
        LoadKind::Byte | LoadKind::SignedByte => 1,
        LoadKind::SignedHalf | LoadKind::HalfOrSignedByte => if addr % 2 == 1 {
            1
        } else {
            2
        },
    };
    let a = bus_read(read, addr, size, Access::NonSequential);
    let raw = a.value;
    let v = match k {
        LoadKind::Word => Cpu::ror_s0(raw, (addr % 4) * 8),
        LoadKind::Half => if addr % 2 == 1 {
            Cpu::ror_s0(half(raw), 8)
        } else {
            half(raw)
        },
        LoadKind::Byte => byte(raw),
        LoadKind::SignedByte => sext8(byte(raw)),
        LoadKind::SignedHalf => if addr % 2 == 1 {
            sext8(byte(raw))
        } else {
            sext16(half(raw))
        },
        LoadKind::AlignedWord => raw,
        LoadKind::HalfOrSignedByte => if addr % 2 == 1 {
            sext8(byte(raw))
        } else {
            half(raw)
        },
    };
    (a, v)
}

/// A write of `size` bytes at `addr` rounded down to the size.
pub(crate) fn bus_write(addr: u32, size: u32, value: u32, kind: Access, timed: bool) -> (a: BusAccess)
    requires
        size == 1 || size == 2 || size == 4,
    ensures
        write_at(a, addr, size, value, kind, timed),
{
    proof {
        assert(addr % size <= addr) by (nonlinear_arith)
            requires
                size > 0,
        ;
    }
    BusAccess { addr: addr - addr % size, size, write: true, value, kind, timed }
}

/// State and outcome after PUSH (see `Cpu::thumb_push`).
pub open spec fn push_post(before: Cpu, after: Cpu, r: MemDone, lr: bool, inst: u16) -> bool {
    let total = ones_below(inst, 8) + if lr {
        1int
    } else {
        0int
    };
    let sp0 = sp_of(before);
    let base = sp0 - 4 * total;
    &&& r.idle == 0 && !r.pc_written && r.accesses@.len() == total
    &&& lr ==> write_at(
        r.accesses@[0],
        (sp0 - 4) as u32,
        4,
        before.lr[bank_of(before.mode_spec())],
        Access::NonSequential,
        true,
    )
    &&& forall|i: int|
        0 <= i < 8 && #[trigger] reg_bit(inst, i) ==> write_at(
            r.accesses@[total - 1 - ones_below(inst, i)],
            (base + 4 * ones_below(inst, i)) as u32,
            4,
            before.low[i],
            kind_of(total - 1 - ones_below(inst, i)),
            true,
        )
    &&& sp_set_to(before, after, base as u32)

}

/// State and outcome after POP (see `Cpu::thumb_pop`).
pub open spec fn pop_post<R: Fn(u32, u32) -> u32>(read: R, before: Cpu, after: Cpu, r: MemDone, pc: bool, inst: u16) -> bool {
    let n = ones_below(inst, 8);
    let total = n + if pc {
        1int
    } else {
        0int
    };
    let sp0 = sp_of(before);
    let acc = r.accesses@;
    &&& r.idle == 1 && r.pc_written == pc && acc.len() == total
    &&& forall|i: int|
        0 <= i < 8 && #[trigger] reg_bit(inst, i) ==> read_at(
            read,
            acc[ones_below(inst, i)],
            (sp0 + 4 * ones_below(inst, i)) as u32,
            4,
            kind_of(ones_below(inst, i)),
        )
    &&& pc ==> read_at(read, acc[n], (sp0 + 4 * n) as u32, 4, kind_of(n))
    &&& forall|i: int|
        0 <= i < 8 ==> #[trigger] after.low[i] == if reg_bit(inst, i) {
            acc[ones_below(inst, i)].value
        } else {
            before.low[i]
        }
    &&& after.sp@ == before.sp@.update(bank_of(before.mode_spec()), (sp0 + 4 * total) as u32)
    &&& after.pc == if pc {
        acc[n].value & !((before.inst_size_spec() - 1) as u32)
    } else {
        before.pc
    }
    &&& after.cpsr == before.cpsr && after.fiqs == before.fiqs
    &&& after.spsr == before.spsr && after.lr == before.lr

}

/// State and outcome after STMIA (see `Cpu::thumb_stmia`).
pub open spec fn stmia_post(before: Cpu, after: Cpu, r: MemDone, inst: u16) -> bool {
    let n = ones_below(inst, 8);
    let b = low_field(inst, 8) as int;
    let b0 = before.low[b];
    let acc = r.accesses@;
    let fixup = reg_bit(inst, b) && ones_below(inst, b) > 0;
    &&& r.idle == 0 && !r.pc_written
    &&& n == 0 ==> {
        &&& acc.len() == 1
        &&& write_at(
            acc[0],
            b0,
            4,
            (before.pc + before.inst_size_spec()) as u32,
            Access::NonSequential,
            true,
        )
        &&& low_set_to(before, after, b, wadd(b0, 0x40))
    }
    &&& n > 0 ==> {
        &&& acc.len() == n + if fixup {
            1int
        } else {
            0int
        }
        &&& forall|i: int|
            0 <= i < 8 && #[trigger] reg_bit(inst, i) ==> write_at(
                acc[ones_below(inst, i)],
                wadd(b0, 4 * ones_below(inst, i)),
                4,
                if i == b {
                    wadd(b0, 4 * ones_below(inst, i))
                } else {
                    before.low[i]
                },
                kind_of(ones_below(inst, i)),
                true,
            )
        &&& fixup ==> write_at(
            acc[n],
            wadd(b0, 4 * ones_below(inst, b)),
            4,
            wadd(b0, 4 * n),
            Access::Sequential,
            false,
        )
        &&& low_set_to(before, after, b, wadd(b0, 4 * n))
    }

}

/// State and outcome after LDMIA (see `Cpu::thumb_ldmia`).
pub open spec fn ldmia_post<R: Fn(u32, u32) -> u32>(read: R, before: Cpu, after: Cpu, r: MemDone, inst: u16) -> bool {
    let n = ones_below(inst, 8);
    let b = low_field(inst, 8) as int;
    let b0 = before.low[b];
    let acc = r.accesses@;
    let vals = acc.map_values(|a: BusAccess| a.value);
    &&& r.idle == 1 && r.pc_written == (n == 0)
    &&& n == 0 ==> {
        &&& acc.len() == 1
        &&& read_at(read, acc[0], b0, 4, Access::NonSequential)
        &&& after.low@ == before.low@.update(b, wadd(b0, 0x40))
        &&& after.pc == acc[0].value & !((before.inst_size_spec() - 1) as u32)
    }
    &&& n > 0 ==> {
        &&& acc.len() == n
        &&& forall|i: int|
            0 <= i < 8 && #[trigger] reg_bit(inst, i) ==> read_at(
                read,
                acc[ones_below(inst, i)],
                ldmia_regs(before.low@, inst, b, vals, i)[b],
                4,
                kind_of(ones_below(inst, i)),
            )
        &&& after.low@ == ldmia_regs(before.low@, inst, b, vals, 8)
        &&& after.pc == before.pc
    }
    &&& after.cpsr == before.cpsr && after.fiqs == before.fiqs
    &&& after.spsr == before.spsr && after.lr == before.lr
    &&& after.sp == before.sp

}

/// If THUMB memory instruction `inst`, of kind `kind`, can run on the CPU
/// state: the addresses it computes do not overflow, and PUSH and POP move
/// at least one register.
pub open spec fn thumb_mem_ok(c: Cpu, kind: ThumbKind, inst: u16) -> bool {
    let rb = c.low[low_field(inst, 3) as int];
    let n5 = (inst / 64) % 32;
    let n8 = (inst & 0xFF) * 4;
    match kind {
        ThumbKind::LdrPc => (c.pc & !2u32) + n8 <= u32::MAX,
        ThumbKind::LdrStrImm(o) => rb + n5 * if o < 2 {
            4int
        } else {
            1int
        } <= u32::MAX,
        ThumbKind::LdrStrHalf(_) => rb + n5 * 2 <= u32::MAX,
        ThumbKind::StrSp | ThumbKind::LdrSp => sp_of(c) + n8 <= u32::MAX,
        ThumbKind::Push(lr) => (inst % 0x100 != 0 || lr) && sp_of(c) >= 4 * (ones_below(inst, 8) + if lr {
            1int
        } else {
            0int
        }),
        ThumbKind::Pop(pc) => (inst % 0x100 != 0 || pc) && sp_of(c) + 4 * (ones_below(inst, 8) + if pc {
            1int
        } else {
            0int
        }) <= u32::MAX,
        ThumbKind::Stmia => c.pc + c.inst_size_spec() <= u32::MAX,
        _ => true,
    }
}

/// State and outcome after THUMB memory instruction `inst` of kind `kind`;
/// other kinds do nothing.
pub open spec fn thumb_mem_post<R: Fn(u32, u32) -> u32>(
    read: R,
    before: Cpu,
    after: Cpu,
    kind: ThumbKind,
    inst: u16,
    r: Option<MemDone>,
) -> bool {
    let rb = before.low[low_field(inst, 3) as int];
    let n5 = (inst / 64) % 32;
    let n8 = (inst & 0xFF) * 4;
    match kind {
        ThumbKind::LdrPc => r matches Some(m) && single_post(
            read,
            before,
            after,
            m,
            MemOp::Load(LoadKind::Word),
            ((before.pc & !2u32) + n8) as u32,
            low_field(inst, 8) as int,
        ),
        ThumbKind::LdrStrReg(o) => r matches Some(m) && single_post(
            read,
            before,
            after,
            m,
            op78(o),
            before.low[low_field(inst, 6) as int].wrapping_add(rb),
            low_field(inst, 0) as int,
        ),
        ThumbKind::LdrStrImm(o) => r matches Some(m) && single_post(
            read,
            before,
            after,
            m,
            op9(o),
            (rb + n5 * if o < 2 {
                4int
            } else {
                1int
            }) as u32,
            low_field(inst, 0) as int,
        ),
        ThumbKind::LdrStrHalf(store) => r matches Some(m) && single_post(
            read,
            before,
            after,
            m,
            if store {
                MemOp::Store(2)
            } else {
                MemOp::Load(LoadKind::Half)
            },
            (rb + n5 * 2) as u32,
            low_field(inst, 0) as int,
        ),
        ThumbKind::StrSp => r matches Some(m) && store_post(
            before,
            after,
            m,
            4,
            (sp_of(before) + n8) as u32,
            low_field(inst, 8) as int,
        ),
        ThumbKind::LdrSp => r matches Some(m) && single_post(
            read,
            before,
            after,
            m,
            MemOp::Load(LoadKind::Word),
            (sp_of(before) + n8) as u32,
            low_field(inst, 8) as int,
        ),
        ThumbKind::Push(lr) => r matches Some(m) && push_post(before, after, m, lr, inst),
        ThumbKind::Pop(pc) => r matches Some(m) && pop_post(read, before, after, m, pc, inst),
        ThumbKind::Stmia => r matches Some(m) && stmia_post(before, after, m, inst),
        ThumbKind::Ldmia => r matches Some(m) && ldmia_post(read, before, after, m, inst),
        _ => r is None && after == before,
    }
}

impl Cpu {
    /// A single load or store `op` at `addr` with low register `d`.
    fn single<R: Fn(u32, u32) -> u32>(&mut self, op: MemOp, addr: u32, d: u16, read: &R) -> (r: MemDone)
        requires
            d < 8,
            forall|x: u32, s: u32| call_requires(*read, (x, s)),
            op matches MemOp::Store(size) ==> size == 1 || size == 2 || size == 4,
        ensures
            single_post(*read, *old(self), *final(self), r, op, addr, d as int),
    {
        match op {
            MemOp::Store(size) => {
                let rd = self.low[d as usize];
                let value = if size == 4 {
                    rd
                } else if size == 2 {
                    half(rd)
                } else {
                    byte(rd)
                };
                let a = bus_write(addr, size, value, Access::NonSequential, true);
                MemDone { accesses: vec![a], idle: 0, pc_written: false }
            },
            MemOp::Load(k) => {
                let (a, v) = load(read, k, addr);
                self.low[d as usize] = v;
                MemDone { accesses: vec![a], idle: 1, pc_written: false }
            },
        }
    }

    /// THUMB.6: LDR Rd, [PC, #imm8 * 4], from the PC with bit 1 cleared.
    pub fn thumb_ldr6<R: Fn(u32, u32) -> u32>(&mut self, inst: ThumbInst, read: &R) -> (r: MemDone)
        requires
            forall|x: u32, s: u32| call_requires(*read, (x, s)),
            (old(self).pc & !2u32) + (inst.0 & 0xFF) * 4 <= u32::MAX,
        ensures
            single_post(
                *read,
                *old(self),
                *final(self),
                r,
                MemOp::Load(LoadKind::Word),
                ((old(self).pc & !2u32) + (inst.0 & 0xFF) * 4) as u32,
                low_field(inst.0, 8) as int,
            ),
    {
        proof {
            lemma_mask_bounds();
        }
        let d = inst.low(8);
        let n = (inst.0 & 0xFF) as u32;
        self.single(MemOp::Load(LoadKind::Word), self.adj_pc() + n * 4, d, read)
    }

    /// THUMB.7/8: load or store with register offset, the operation `o`
    /// (STR, STRH, STRB, LDSB, LDR, LDRH, LDRB, LDSH), at Rb + Ro.
    pub fn thumb_ldrstr78<R: Fn(u32, u32) -> u32>(&mut self, o: u16, inst: ThumbInst, read: &R) -> (r: MemDone)
        requires
            forall|x: u32, s: u32| call_requires(*read, (x, s)),
        ensures
            single_post(
                *read,
                *old(self),
                *final(self),
                r,
                op78(o),
                old(self).low[low_field(inst.0, 6) as int].wrapping_add(old(self).low[low_field(inst.0, 3) as int]),
                low_field(inst.0, 0) as int,
            ),
    {
        let d = inst.low(0);
        let rb = self.low(inst.low(6));
        let ro = self.low(inst.low(3));
        let addr = rb.wrapping_add(ro);
        let op = if o == 0 {
            MemOp::Store(4)
        } else if o == 1 {
            MemOp::Store(2)
        } else if o == 2 {
            MemOp::Store(1)
        } else if o == 3 {
            MemOp::Load(LoadKind::SignedByte)
        } else if o == 4 {
            MemOp::Load(LoadKind::Word)
        } else if o == 5 {
            MemOp::Load(LoadKind::Half)
        } else if o == 6 {
            MemOp::Load(LoadKind::Byte)
        } else {
            MemOp::Load(LoadKind::SignedHalf)
        };
        self.single(op, addr, d, read)
    }

    /// THUMB.9: load or store with a 5-bit immediate offset, the operation
    /// `o` (STR, LDR, STRB, LDRB); words at Rb + imm * 4, bytes at Rb + imm.
    pub fn thumb_ldrstr9<R: Fn(u32, u32) -> u32>(&mut self, o: u16, inst: ThumbInst, read: &R) -> (r: MemDone)
        requires
            forall|x: u32, s: u32| call_requires(*read, (x, s)),
            old(self).low[low_field(inst.0, 3) as int] + ((inst.0 / 64) % 32) * if o < 2 {
                4int
            } else {
                1int
            } <= u32::MAX,
        ensures
            single_post(
                *read,
                *old(self),
                *final(self),
                r,
                op9(o),
                (old(self).low[low_field(inst.0, 3) as int] + ((inst.0 / 64) % 32) * if o < 2 {
                    4int
                } else {
                    1int
                }) as u32,
                low_field(inst.0, 0) as int,
            ),
    {
        let d = inst.low(0);
        let rb = self.low(inst.low(3));
        let n = ((inst.0 / 64) % 32) as u32;
        if o == 0 {
            self.single(MemOp::Store(4), rb + n * 4, d, read)
        } else if o == 1 {
            self.single(MemOp::Load(LoadKind::Word), rb + n * 4, d, read)
        } else if o == 2 {
            self.single(MemOp::Store(1), rb + n, d, read)
        } else {
            self.single(MemOp::Load(LoadKind::Byte), rb + n, d, read)
        }
    }

    /// THUMB.10: store (`store`) or load a halfword at Rb + imm5 * 2.
    pub fn thumb_ldrstr10<R: Fn(u32, u32) -> u32>(&mut self, store: bool, inst: ThumbInst, read: &R) -> (r: MemDone)
        requires
            forall|x: u32, s: u32| call_requires(*read, (x, s)),
            old(self).low[low_field(inst.0, 3) as int] + ((inst.0 / 64) % 32) * 2 <= u32::MAX,
        ensures
            single_post(
                *read,
                *old(self),
                *final(self),
                r,
                if store {
                    MemOp::Store(2)
                } else {
                    MemOp::Load(LoadKind::Half)
                },
                (old(self).low[low_field(inst.0, 3) as int] + ((inst.0 / 64) % 32) * 2) as u32,
                low_field(inst.0, 0) as int,
            ),
    {
        let d = inst.low(0);
        let rb = self.low(inst.low(3));
        let n = ((inst.0 / 64) % 32) as u32;
        let op = if store {
            MemOp::Store(2)
        } else {
            MemOp::Load(LoadKind::Half)
        };
        self.single(op, rb + n * 2, d, read)
    }

    /// THUMB.11: STR Rd, [SP, #imm8 * 4].
    pub fn thumb_str_sp(&mut self, inst: ThumbInst) -> (r: MemDone)
        requires
            old(self).wf(),
            sp_of(*old(self)) + (inst.0 & 0xFF) * 4 <= u32::MAX,
        ensures
            store_post(
                *old(self),
                *final(self),
                r,
                4,
                (sp_of(*old(self)) + (inst.0 & 0xFF) * 4) as u32,
                low_field(inst.0, 8) as int,
            ),
    {
        proof {
            lemma_mask_bounds();
        }
        let d = inst.low(8);
        let n = (inst.0 & 0xFF) as u32;
        let no_read = |x: u32, s: u32| -> (v: u32) { 0u32 };
        self.single(MemOp::Store(4), self.sp() + n * 4, d, &no_read)
    }

    /// THUMB.11: LDR Rd, [SP, #imm8 * 4].
    pub fn thumb_ldr_sp<R: Fn(u32, u32) -> u32>(&mut self, inst: ThumbInst, read: &R) -> (r: MemDone)
        requires
            old(self).wf(),
            forall|x: u32, s: u32| call_requires(*read, (x, s)),
            sp_of(*old(self)) + (inst.0 & 0xFF) * 4 <= u32::MAX,
        ensures
            single_post(
                *read,
                *old(self),
                *final(self),
                r,
                MemOp::Load(LoadKind::Word),
                (sp_of(*old(self)) + (inst.0 & 0xFF) * 4) as u32,
                low_field(inst.0, 8) as int,
            ),
    {
        proof {
            lemma_mask_bounds();
        }
        let d = inst.low(8);
        let n = (inst.0 & 0xFF) as u32;
        self.single(MemOp::Load(LoadKind::Word), self.sp() + n * 4, d, read)
    }

    /// THUMB.14: PUSH the listed registers, and LR if `lr`: stored from SP
    /// down, the highest register at the highest address, LR above all;
    /// SP ends below them.
    #[verifier::rlimit(40)]
    pub fn thumb_push(&mut self, lr: bool, inst: ThumbInst) -> (r: MemDone)
        requires
            old(self).wf(),
            inst.0 % 0x100 != 0 || lr,
            sp_of(*old(self)) >= 4 * (ones_below(inst.0, 8) + if lr {
                1int
            } else {
                0int
            }),
        ensures
            push_post(*old(self), *final(self), r, lr, inst.0),
    {
        let ghost lr_n: int = if lr {
            1int
        } else {
            0int
        };
        let ghost total = ones_below(inst.0, 8) + lr_n;
        let ghost sp0 = sp_of(*self);
        proof {
            lemma_ones_below(inst.0, 0, 8);
        }
        let mut sp = self.sp();
        let mut accesses: Vec<BusAccess> = Vec::new();
        let mut kind = Access::NonSequential;
        if lr {
            sp = sp - 4;
            accesses.push(bus_write(sp, 4, self.lr(), kind, true));
            kind = Access::Sequential;
        }
        let mut reg: u16 = 8;
        while reg > 0
            invariant
                self.wf(),
                sp_of(*self) == sp0,
                sp0 >= 4 * total,
                total == ones_below(inst.0, 8) + lr_n,
                lr_n == if lr {
                    1int
                } else {
                    0int
                },
                reg <= 8,
                accesses@.len() == lr_n + ones_below(inst.0, 8) - ones_below(inst.0, reg as int),
                sp == sp0 - 4 * accesses@.len(),
                kind == kind_of(accesses@.len() as int),
                lr ==> write_at(accesses@[0], (sp0 - 4) as u32, 4, self.lr[bank_of(self.mode_spec())], Access::NonSequential, true),
                forall|i: int|
                    reg <= i < 8 && #[trigger] reg_bit(inst.0, i) ==> write_at(
                        accesses@[total - 1 - ones_below(inst.0, i)],
                        (sp0 - 4 * total + 4 * ones_below(inst.0, i)) as u32,
                        4,
                        self.low[i],
                        kind_of(total - 1 - ones_below(inst.0, i)),
                        true,
                    ),
            decreases reg,
        {
            reg = reg - 1;
            proof {
                lemma_ones_below(inst.0, reg as int, 8);
                lemma_ones_below(inst.0, reg as int, reg as int + 1);
                assert forall|i: int| reg < i < 8 && reg_bit(inst.0, i) implies total - 1 - ones_below(inst.0, i) < lr_n + ones_below(inst.0, 8) - ones_below(inst.0, reg as int + 1) by {
                    lemma_ones_below(inst.0, i, 8);
                    lemma_ones_below(inst.0, reg as int + 1, i);
                }
            }
            if Ppu::bit(inst.0, reg) {
                sp = sp - 4;
                accesses.push(bus_write(sp, 4, self.low[reg as usize], kind, true));
                kind = Access::Sequential;
            }
        }
        self.set_sp(sp);
        MemDone { accesses, idle: 0, pc_written: false }
    }

    /// THUMB.14: POP the listed registers, and the PC if `pc`: loaded from
    /// SP up, the lowest register from the lowest address, the PC last; SP
    /// ends above them.
    #[verifier::rlimit(40)]
    pub fn thumb_pop<R: Fn(u32, u32) -> u32>(&mut self, pc: bool, inst: ThumbInst, read: &R) -> (r: MemDone)
        requires
            old(self).wf(),
            forall|x: u32, s: u32| call_requires(*read, (x, s)),
            inst.0 % 0x100 != 0 || pc,
            sp_of(*old(self)) + 4 * (ones_below(inst.0, 8) + if pc {
                1int
            } else {
                0int
            }) <= u32::MAX,
        ensures
            pop_post(*read, *old(self), *final(self), r, pc, inst.0),
    {
        let ghost n = ones_below(inst.0, 8);
        let ghost sp0 = sp_of(*self);
        proof {
            lemma_ones_below(inst.0, 0, 8);
        }
        let mut sp = self.sp();
        let mut accesses: Vec<BusAccess> = Vec::new();
        let mut kind = Access::NonSequential;
        let mut reg: u16 = 0;
        while reg < 8
            invariant
                self.wf(),
                sp_of(*self) == sp0,
                self.sp == old(self).sp && self.cpsr == old(self).cpsr && self.pc == old(self).pc,
                self.fiqs == old(self).fiqs && self.spsr == old(self).spsr && self.lr == old(self).lr,
                forall|x: u32, s: u32| call_requires(*read, (x, s)),
                n == ones_below(inst.0, 8),
                sp0 + 4 * n <= u32::MAX,
                reg <= 8,
                accesses@.len() == ones_below(inst.0, reg as int),
                sp == sp0 + 4 * accesses@.len(),
                kind == kind_of(accesses@.len() as int),
                forall|i: int|
                    0 <= i < reg && #[trigger] reg_bit(inst.0, i) ==> read_at(
                        *read,
                        accesses@[ones_below(inst.0, i)],
                        (sp0 + 4 * ones_below(inst.0, i)) as u32,
                        4,
                        kind_of(ones_below(inst.0, i)),
                    ),
                forall|i: int|
                    0 <= i < 8 ==> #[trigger] self.low[i] == if i < reg && reg_bit(inst.0, i) {
                        accesses@[ones_below(inst.0, i)].value
                    } else {
                        old(self).low[i]
                    },
            decreases 8 - reg,
        {
            proof {
                lemma_ones_below(inst.0, reg as int, 8);
                lemma_ones_below(inst.0, reg as int, reg as int + 1);
                assert forall|i: int| 0 <= i < reg && reg_bit(inst.0, i) implies ones_below(inst.0, i) < ones_below(inst.0, reg as int) by {
                    lemma_ones_below(inst.0, i, reg as int);
                }
            }
            if Ppu::bit(inst.0, reg) {
                let a = bus_read(read, sp, 4, kind);
                self.low[reg as usize] = a.value;
                accesses.push(a);
                sp = sp + 4;
                kind = Access::Sequential;
            }
            reg = reg + 1;
        }
        let mut pc_written = false;
        if pc {
            let a = bus_read(read, sp, 4, kind);
            accesses.push(a);
            pc_written = self.set_reg(15, a.value);
            sp = sp + 4;
        }
        self.set_sp(sp);
        MemDone { accesses, idle: 1, pc_written }
    }

    /// THUMB.15: STMIA: store the listed registers at Rb upwards, Rb
    /// counting up as they go; if Rb is listed and not first, the final Rb
    /// is written over its slot afterwards. An empty list stores PC + 2 and
    /// moves Rb by 0x40.
    #[verifier::rlimit(40)]
    pub fn thumb_stmia(&mut self, inst: ThumbInst) -> (r: MemDone)
        requires
            old(self).wf(),
            old(self).pc + old(self).inst_size_spec() <= u32::MAX,
        ensures
            stmia_post(*old(self), *final(self), r, inst.0),
    {
        let ghost n = ones_below(inst.0, 8);
        proof {
            lemma_mask_bounds();
            lemma_ones_below(inst.0, 0, 8);
        }
        let b = inst.low(8);
        let ghost b0 = self.low[b as int];
        let mut accesses: Vec<BusAccess> = Vec::new();
        let mut kind = Access::NonSequential;
        let mut base_slot: Option<u32> = None;
        let mut reg: u16 = 0;
        while reg < 8
            invariant
                self.wf(),
                b < 8,
                b0 == old(self).low[b as int],
                n == ones_below(inst.0, 8),
                self.cpsr == old(self).cpsr && self.fiqs == old(self).fiqs && self.spsr == old(self).spsr,
                self.sp == old(self).sp && self.lr == old(self).lr && self.pc == old(self).pc,
                reg <= 8,
                accesses@.len() == ones_below(inst.0, reg as int),
                kind == kind_of(accesses@.len() as int),
                self.low[b as int] == wadd(b0, 4 * accesses@.len() as int),
                forall|i: int| 0 <= i < 8 && i != b ==> #[trigger] self.low[i] == old(self).low[i],
                base_slot == if reg_bit(inst.0, b as int) && b < reg && ones_below(inst.0, b as int) > 0 {
                    Some(wadd(b0, 4 * ones_below(inst.0, b as int)))
                } else {
                    None
                },
                forall|i: int|
                    0 <= i < reg && #[trigger] reg_bit(inst.0, i) ==> write_at(
                        accesses@[ones_below(inst.0, i)],
                        wadd(b0, 4 * ones_below(inst.0, i)),
                        4,
                        if i == b {
                            wadd(b0, 4 * ones_below(inst.0, i))
                        } else {
                            old(self).low[i]
                        },
                        kind_of(ones_below(inst.0, i)),
                        true,
                    ),
            decreases 8 - reg,
        {
            proof {
                lemma_ones_below(inst.0, reg as int, 8);
                lemma_ones_below(inst.0, reg as int, reg as int + 1);
                assert forall|i: int| 0 <= i < reg && reg_bit(inst.0, i) implies ones_below(inst.0, i) < ones_below(inst.0, reg as int) by {
                    lemma_ones_below(inst.0, i, reg as int);
                }
            }
            if Ppu::bit(inst.0, reg) {
                let at = self.low[b as usize];
                if reg == b && kind != Access::NonSequential {
                    base_slot = Some(at);
                }
                accesses.push(bus_write(at, 4, self.low[reg as usize], kind, true));
                self.low[b as usize] = at.wrapping_add(4);
                kind = Access::Sequential;
            }
            reg = reg + 1;
        }
        if let Some(at) = base_slot {
            accesses.push(bus_write(at, 4, self.low[b as usize], Access::Sequential, false));
        }
        if accesses.len() == 0 {
            let at = self.low[b as usize];
            self.low[b as usize] = at.wrapping_add(0x40);
            accesses.push(bus_write(at, 4, self.pc + self.inst_size(), Access::NonSequential, true));
        }
        proof {
            assert(self.low@ =~= old(self).low@.update(b as int, self.low[b as int]));
        }
        MemDone { accesses, idle: 0, pc_written: false }
    }

    /// THUMB.15: LDMIA: load the listed registers from Rb upwards, Rb
    /// counting up after each load (from a loaded Rb if it is listed). An
    /// empty list loads the PC and moves Rb by 0x40.
    #[verifier::rlimit(40)]
    pub fn thumb_ldmia<R: Fn(u32, u32) -> u32>(&mut self, inst: ThumbInst, read: &R) -> (r: MemDone)
        requires
            old(self).wf(),
            forall|x: u32, s: u32| call_requires(*read, (x, s)),
        ensures
            ldmia_post(*read, *old(self), *final(self), r, inst.0),
    {
        proof {
            lemma_mask_bounds();
            lemma_ones_below(inst.0, 0, 8);
        }
        let b = inst.low(8);
        let mut accesses: Vec<BusAccess> = Vec::new();
        let mut kind = Access::NonSequential;
        let mut reg: u16 = 0;
        while reg < 8
            invariant
                self.wf(),
                b < 8,
                forall|x: u32, s: u32| call_requires(*read, (x, s)),
                self.cpsr == old(self).cpsr && self.fiqs == old(self).fiqs && self.spsr == old(self).spsr,
                self.sp == old(self).sp && self.lr == old(self).lr && self.pc == old(self).pc,
                reg <= 8,
                accesses@.len() == ones_below(inst.0, reg as int),
                kind == kind_of(accesses@.len() as int),
                self.low@ == ldmia_regs(old(self).low@, inst.0, b as int, accesses@.map_values(|a: BusAccess| a.value), reg as int),
                accesses@.len() == 0 ==> self.low@ == old(self).low@,
                forall|i: int|
                    0 <= i < reg && #[trigger] reg_bit(inst.0, i) ==> read_at(
                        *read,
                        accesses@[ones_below(inst.0, i)],
                        ldmia_regs(old(self).low@, inst.0, b as int, accesses@.map_values(|a: BusAccess| a.value), i)[b as int],
                        4,
                        kind_of(ones_below(inst.0, i)),
                    ),
            decreases 8 - reg,
        {
            proof {
                lemma_ones_below(inst.0, reg as int, 8);
                lemma_ones_below(inst.0, reg as int, reg as int + 1);
            }
            let ghost vb = accesses@.map_values(|a: BusAccess| a.value);
            let ghost lb = self.low@;
            if Ppu::bit(inst.0, reg) {
                let a = bus_read(read, self.low[b as usize], 4, kind);
                self.low[reg as usize] = a.value;
                self.low[b as usize] = self.low[b as usize].wrapping_add(4);
                accesses.push(a);
                kind = Access::Sequential;
                proof {
                    let va = accesses@.map_values(|a: BusAccess| a.value);
                    assert(va =~= vb.push(a.value));
                    lemma_ldmia_step(old(self).low@, inst.0, b as int, vb, a.value, reg as int);
                    assert(self.low@ =~= lb.update(reg as int, a.value).update(b as int, wadd(lb.update(reg as int, a.value)[b as int], 4)));
                    assert forall|i: int| 0 <= i < reg + 1 && #[trigger] reg_bit(inst.0, i) implies read_at(
                        *read,
                        accesses@[ones_below(inst.0, i)],
                        ldmia_regs(old(self).low@, inst.0, b as int, va, i)[b as int],
                        4,
                        kind_of(ones_below(inst.0, i)),
                    ) by {
                        if i < reg {
                            lemma_ones_below(inst.0, i, reg as int);
                        }
                    }
                }
            } else {
                proof {
                    assert(accesses@.map_values(|a: BusAccess| a.value) =~= vb);
                }
            }
            reg = reg + 1;
        }
        let mut pc_written = false;
        if accesses.len() == 0 {
            let at = self.low[b as usize];
            self.low[b as usize] = at.wrapping_add(0x40);
            let a = bus_read(read, at, 4, Access::NonSequential);
            accesses.push(a);
            pc_written = self.set_reg(15, a.value);
        }
        MemDone { accesses, idle: 1, pc_written }
    }

    /// Run THUMB memory instruction `inst`, of kind `kind` (as
    /// `execute_inst_thumb` hands it back), reading through `read`; `None`
    /// for a kind that does not access memory.
    pub fn thumb_memory<R: Fn(u32, u32) -> u32>(&mut self, kind: ThumbKind, inst: u16, read: &R) -> (r: Option<MemDone>)
        requires
            old(self).wf(),
            forall|x: u32, s: u32| call_requires(*read, (x, s)),
            thumb_mem_ok(*old(self), kind, inst),
        ensures
            thumb_mem_post(*read, *old(self), *final(self), kind, inst, r),
    {
        let i = ThumbInst(inst);
        match kind {
            ThumbKind::LdrPc => Some(self.thumb_ldr6(i, read)),
            ThumbKind::LdrStrReg(o) => Some(self.thumb_ldrstr78(o, i, read)),
            ThumbKind::LdrStrImm(o) => Some(self.thumb_ldrstr9(o, i, read)),
            ThumbKind::LdrStrHalf(store) => Some(self.thumb_ldrstr10(store, i, read)),
            ThumbKind::StrSp => Some(self.thumb_str_sp(i)),
            ThumbKind::LdrSp => Some(self.thumb_ldr_sp(i, read)),
            ThumbKind::Push(lr) => Some(self.thumb_push(lr, i)),
            ThumbKind::Pop(pc) => Some(self.thumb_pop(pc, i, read)),
            ThumbKind::Stmia => Some(self.thumb_stmia(i)),
            ThumbKind::Ldmia => Some(self.thumb_ldmia(i, read)),
            _ => None,
        }
    }
}

/// Low registers after LDMIA has loaded the listed registers below `r`,
/// given the words read in order; Rb (`b`) counts up after each load.
pub open spec fn ldmia_regs(low: Seq<u32>, inst: u16, b: int, vals: Seq<u32>, r: int) -> Seq<u32>
    decreases r,
{
    if r <= 0 {
        low
    } else {
        let prev = ldmia_regs(low, inst, b, vals, r - 1);
        if reg_bit(inst, r - 1) {
            let loaded = prev.update(r - 1, vals[ones_below(inst, r - 1)]);
            loaded.update(b, wadd(loaded[b], 4))
        } else {
            prev
        }
    }
}

/// One more loaded word: the registers before each earlier one stay as they
/// were, and register `reg` gets the word, Rb counting up.
proof fn lemma_ldmia_step(low: Seq<u32>, inst: u16, b: int, vb: Seq<u32>, v: u32, reg: int)
    requires
        0 <= reg < 8,
        0 <= b < 8,
        vb.len() == ones_below(inst, reg),
        reg_bit(inst, reg),
    ensures
        forall|i: int|
            0 <= i <= reg ==> #[trigger] ldmia_regs(low, inst, b, vb.push(v), i) == ldmia_regs(low, inst, b, vb, i),
        ldmia_regs(low, inst, b, vb.push(v), reg + 1) == ({
            let loaded = ldmia_regs(low, inst, b, vb, reg).update(reg, v);
            loaded.update(b, wadd(loaded[b], 4))
        }),
{
    assert forall|i: int| 0 <= i <= reg implies #[trigger] ldmia_regs(low, inst, b, vb.push(v), i) == ldmia_regs(low, inst, b, vb, i) by {
        lemma_ones_below(inst, i, reg);
        lemma_ldmia_prefix(low, inst, b, vb.push(v), vb, i);
    }
    assert(ldmia_regs(low, inst, b, vb.push(v), reg) == ldmia_regs(low, inst, b, vb, reg));
    assert(vb.push(v)[ones_below(inst, reg)] == v);
}

/// The registers after loading those below `r` only depend on the words
/// read for them.
proof fn lemma_ldmia_prefix(low: Seq<u32>, inst: u16, b: int, v1: Seq<u32>, v2: Seq<u32>, r: int)
    requires
        0 <= r <= 8,
        v1.len() >= ones_below(inst, r),
        v2.len() >= ones_below(inst, r),
        forall|k: int| 0 <= k < ones_below(inst, r) ==> v1[k] == v2[k],
    ensures
        ldmia_regs(low, inst, b, v1, r) == ldmia_regs(low, inst, b, v2, r),
    decreases r,
{
    if r > 0 {
        lemma_ones_below(inst, r - 1, r);
        lemma_ldmia_prefix(low, inst, b, v1, v2, r - 1);
    }
}

} // verus!

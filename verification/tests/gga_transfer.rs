use gamegirl::gga::inst_arm::ArmOutcome;
use gamegirl::gga::inst_thumb::{decode_thumb, make_thumb_lut, ThumbInst, ThumbKind, ThumbOutcome};
use gamegirl::gga::memory::Access;
use gamegirl::gga::registers::Cpu;
use gamegirl::gga::transfer::{BusAccess, MemDone};

/// A bus with bytes 0x00, 0x01, ... from 0x1000 up to 0x1100, and every
/// other read giving its address.
fn bus(addr: u32, size: u32) -> u32 {
    if (0x1000..0x1100).contains(&addr) {
        let mut v = 0;
        for i in (0..size).rev() {
            v = (v << 8) | ((addr + i - 0x1000) & 0xFF);
        }
        v
    } else {
        addr
    }
}

fn thumb_cpu() -> Cpu {
    let mut cpu = Cpu::default();
    cpu.cpsr |= 0x20;
    cpu
}

fn read(addr: u32, size: u32, value: u32, kind: Access) -> BusAccess {
    BusAccess { addr, size, write: false, value, kind, timed: true }
}

fn write(addr: u32, size: u32, value: u32, kind: Access) -> BusAccess {
    BusAccess { addr, size, write: true, value, kind, timed: true }
}

const N: Access = Access::NonSequential;
const S: Access = Access::Sequential;

#[test]
fn pc_relative_load() {
    let mut cpu = thumb_cpu();
    cpu.pc = 0x1002;
    // LDR r0, [PC, #8], from the PC with bit 1 cleared
    let done = cpu.thumb_ldr6(ThumbInst(0x4802), &bus);
    assert_eq!(vec![read(0x1008, 4, 0x0B0A_0908, N)], done.accesses);
    assert_eq!(1, done.idle);
    assert!(!done.pc_written);
    assert_eq!(0x0B0A_0908, cpu.low[0]);
}

#[test]
fn unaligned_loads_rotate_or_sign_extend() {
    let mut cpu = thumb_cpu();
    cpu.low[1] = 0x1001;
    cpu.low[2] = 0;
    // LDR r0, [r1, r2]: the word at 0x1000, rotated by a byte
    cpu.thumb_ldrstr78(4, ThumbInst(0x5888), &bus);
    assert_eq!(0x0003_0201, cpu.low[0]);
    // LDRH r0, [r1, r2]: the halfword at 0x1000, rotated by a byte
    let done = cpu.thumb_ldrstr78(5, ThumbInst(0x5A88), &bus);
    assert_eq!(vec![read(0x1000, 2, 0x0100, N)], done.accesses);
    assert_eq!(0x0000_0001, cpu.low[0]);
    // LDSH r0, [r1, r2] at an odd address: the byte, sign-extended
    cpu.low[1] = 0x1081;
    let done = cpu.thumb_ldrstr78(7, ThumbInst(0x5E88), &bus);
    assert_eq!(vec![read(0x1081, 1, 0x81, N)], done.accesses);
    assert_eq!(0xFFFF_FF81, cpu.low[0]);
    // LDSH at an even address: the halfword, sign-extended
    cpu.low[1] = 0x1080;
    cpu.thumb_ldrstr78(7, ThumbInst(0x5E88), &bus);
    assert_eq!(0xFFFF_8180, cpu.low[0]);
    // LDSB
    cpu.thumb_ldrstr78(3, ThumbInst(0x5688), &bus);
    assert_eq!(0xFFFF_FF80, cpu.low[0]);
}

#[test]
fn stores_hand_back_their_writes() {
    let mut cpu = thumb_cpu();
    cpu.low[0] = 0x1234_5678;
    cpu.low[1] = 0x2003;
    cpu.low[2] = 0;
    // STRB r0, [r1, r2]
    let done = cpu.thumb_ldrstr78(2, ThumbInst(0x5488), &bus);
    assert_eq!(vec![write(0x2003, 1, 0x78, N)], done.accesses);
    assert_eq!(0, done.idle);
    // STRH r0, [r1, #2]: aligned halfword
    let done = cpu.thumb_ldrstr10(true, ThumbInst(0x8048), &bus);
    assert_eq!(vec![write(0x2004, 2, 0x5678, N)], done.accesses);
    // STR r0, [r1, #4]: aligned word
    let done = cpu.thumb_ldrstr9(0, ThumbInst(0x6048), &bus);
    assert_eq!(vec![write(0x2004, 4, 0x1234_5678, N)], done.accesses);
    assert_eq!(0x1234_5678, cpu.low[0]);
}

#[test]
fn sp_relative_transfers() {
    let mut cpu = thumb_cpu();
    let sp = cpu.sp();
    cpu.low[3] = 0xCAFE;
    // STR r3, [SP, #8]
    let done = cpu.thumb_str_sp(ThumbInst(0x9302));
    assert_eq!(vec![write(sp + 8, 4, 0xCAFE, N)], done.accesses);
    // LDR r4, [SP, #8]
    let done = cpu.thumb_ldr_sp(ThumbInst(0x9C02), &bus);
    assert_eq!(vec![read(sp + 8, 4, sp + 8, N)], done.accesses);
    assert_eq!(sp + 8, cpu.low[4]);
}

#[test]
fn push_and_pop() {
    let mut cpu = thumb_cpu();
    let sp = cpu.sp();
    cpu.low[0] = 10;
    cpu.low[2] = 12;
    cpu.set_lr(14);
    // PUSH {r0, r2, lr}
    let done = cpu.thumb_push(true, ThumbInst(0xB505));
    assert_eq!(
        vec![write(sp - 4, 4, 14, N), write(sp - 8, 4, 12, S), write(sp - 12, 4, 10, S)],
        done.accesses
    );
    assert_eq!(sp - 12, cpu.sp());
    // POP {r1, pc} from the bytes at 0x1010
    cpu.set_sp(0x1010);
    let done = cpu.thumb_pop(true, ThumbInst(0xBD02), &bus);
    assert_eq!(
        vec![read(0x1010, 4, 0x1312_1110, N), read(0x1014, 4, 0x1716_1514, S)],
        done.accesses
    );
    assert_eq!(0x1312_1110, cpu.low[1]);
    assert_eq!(0x1716_1514, cpu.pc);
    assert_eq!(0x1018, cpu.sp());
    assert!(done.pc_written);
    assert_eq!(1, done.idle);
}

#[test]
fn store_multiple_with_base_in_the_list() {
    let mut cpu = thumb_cpu();
    cpu.low[0] = 0x2000;
    cpu.low[1] = 0x11;
    // STMIA r0!, {r0, r1}: the base is first, so its old value is stored
    let done = cpu.thumb_stmia(ThumbInst(0xC003));
    assert_eq!(vec![write(0x2000, 4, 0x2000, N), write(0x2004, 4, 0x11, S)], done.accesses);
    assert_eq!(0x2008, cpu.low[0]);
    // STMIA r1!, {r0, r1}: the base is not first; its final value is
    // written over its slot afterwards
    let mut cpu = thumb_cpu();
    cpu.low[0] = 0xAA;
    cpu.low[1] = 0x2000;
    let done = cpu.thumb_stmia(ThumbInst(0xC103));
    assert_eq!(
        vec![
            write(0x2000, 4, 0xAA, N),
            write(0x2004, 4, 0x2004, S),
            BusAccess { addr: 0x2004, size: 4, write: true, value: 0x2008, kind: S, timed: false },
        ],
        done.accesses
    );
    assert_eq!(0x2008, cpu.low[1]);
}

#[test]
fn load_multiple_with_base_in_the_list() {
    let mut cpu = thumb_cpu();
    cpu.low[0] = 0x1000;
    // LDMIA r0!, {r0, r1}: r1 comes from after the loaded base
    let done = cpu.thumb_ldmia(ThumbInst(0xC803), &bus);
    assert_eq!(
        vec![read(0x1000, 4, 0x0302_0100, N), read(0x0302_0104, 4, 0x0302_0104, S)],
        done.accesses
    );
    assert_eq!(0x0302_0108, cpu.low[0]);
    assert_eq!(0x0302_0104, cpu.low[1]);
    assert!(!done.pc_written);
}

#[test]
fn empty_register_lists() {
    let mut cpu = thumb_cpu();
    cpu.pc = 0x800;
    cpu.low[2] = 0x2000;
    // STMIA r2!, {}: stores PC + 2, base moves by 0x40
    let done = cpu.thumb_stmia(ThumbInst(0xC200));
    assert_eq!(vec![write(0x2000, 4, 0x802, N)], done.accesses);
    assert_eq!(0x2040, cpu.low[2]);
    // LDMIA r2!, {}: loads the PC
    cpu.low[2] = 0x1020;
    let done = cpu.thumb_ldmia(ThumbInst(0xCA00), &bus);
    assert_eq!(vec![read(0x1020, 4, 0x2322_2120, N)], done.accesses);
    assert_eq!(0x1060, cpu.low[2]);
    assert_eq!(0x2322_2120, cpu.pc);
    assert!(done.pc_written);
}

#[test]
fn memory_instructions_by_kind() {
    let mut cpu = thumb_cpu();
    cpu.low[1] = 0x1004;
    let inst = 0x6848; // LDR r0, [r1, #4]
    assert_eq!(ThumbKind::LdrStrImm(1), decode_thumb(inst));
    let done: MemDone = cpu.thumb_memory(decode_thumb(inst), inst, &bus).unwrap();
    assert_eq!(vec![read(0x1008, 4, 0x0B0A_0908, N)], done.accesses);
    assert_eq!(0x0B0A_0908, cpu.low[0]);
    // An ALU instruction is not a memory instruction
    assert!(cpu.thumb_memory(decode_thumb(0x4008), 0x4008, &bus).is_none());
}

#[test]
fn whole_instruction_steps() {
    let lut = make_thumb_lut();
    let mut cpu = thumb_cpu();
    cpu.low[1] = 0x1004;
    // LDR r0, [r1, #4]
    let (o, done) = cpu.step_thumb(&lut, 0x6848, &bus);
    assert_eq!(ThumbOutcome::Memory(ThumbKind::LdrStrImm(1)), o);
    assert_eq!(vec![read(0x1008, 4, 0x0B0A_0908, N)], done.unwrap().accesses);
    assert_eq!(0x0B0A_0908, cpu.low[0]);
    // MOV r2, #5: no bus access
    let (_, done) = cpu.step_thumb(&lut, 0x2205, &bus);
    assert!(done.is_none());
    assert_eq!(5, cpu.low[2]);

    let mut cpu = Cpu::default();
    cpu.low[1] = 0x1004;
    // LDR r0, [r1, #4]!
    let (o, done) = cpu.step_arm(0xE5B1_0004, &bus);
    assert!(matches!(o, ArmOutcome::Memory(_)));
    assert_eq!(vec![read(0x1008, 4, 0x0B0A_0908, N)], done.unwrap().accesses);
    assert_eq!(0x0B0A_0908, cpu.low[0]);
    assert_eq!(0x1008, cpu.low[1]);
    // STRB r0, [r1], #-8
    let (_, done) = cpu.step_arm(0xE441_0008, &bus);
    assert_eq!(vec![write(0x1008, 1, 0x08, N)], done.unwrap().accesses);
    assert_eq!(0x1000, cpu.low[1]);
}

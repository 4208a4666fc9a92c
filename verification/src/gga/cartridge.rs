//! The GGA cartridge: ROM, save memory and the flash chip's command state.
use vstd::prelude::*;
use crate::text::push_char;

verus! {

/// A kilobyte.
pub const KB: usize = 1024;

/// Stage of a flash command sequence.
#[derive(Debug, Copy, Clone, PartialEq, Eq, Structural)]
pub enum FlashCmdStage {
    FirstWritten,
    SecondWritten,
}

/// Command state of a flash chip.
#[derive(Debug, Copy, Clone, PartialEq, Eq, Structural)]
pub struct FlashState {
    pub command_stage: Option<FlashCmdStage>,
    pub id_mode: bool,
    pub write_mode: bool,
    pub bank_select: bool,
}

/// Kind of save memory a cartridge has.
#[derive(Debug, Copy, Clone, PartialEq, Eq, Structural)]
pub enum SaveType {
    Nothing,
    Eeprom,
    Sram,
    Flash64(FlashState),
    Flash128 { state: FlashState, bank: u8 },
}

// Both Macronix.
/// ID bytes of a 64K flash chip.
pub open spec fn flash64_id(i: int) -> u8 {
    if i == 0 {
        0xC2
    } else {
        0x1C
    }
}

/// ID bytes of a 128K flash chip.
pub open spec fn flash128_id(i: int) -> u8 {
    if i == 0 {
        0xC2
    } else {
        0x09
    }
}

/// Address in save memory for an access at `addr`, for a given bank.
pub open spec fn banked(addr: usize, bank1: bool) -> usize {
    if bank1 {
        addr | 0x8000
    } else {
        addr
    }
}

/// Flash state and effect of a write to flash, as a function of the state,
/// address and value, and if the chip has banks.
/// Returns the new state, the new bank (if one is selected), and the
/// address and value written to save memory (if any).
pub open spec fn flash_write(
    s: FlashState,
    addr: usize,
    value: u8,
    has_bank: bool,
    bank: u8,
) -> (FlashState, u8, Option<(usize, u8)>) {
    if addr == 0 && s.bank_select {
        (FlashState { bank_select: false, ..s }, value & 1, None)
    } else if s.write_mode {
        (FlashState { write_mode: false, ..s }, bank, Some((banked(addr, has_bank && bank == 1), value)))
    } else if addr == 0x5555 && value == 0xAA && s.command_stage is None {
        (FlashState { command_stage: Some(FlashCmdStage::FirstWritten), ..s }, bank, None)
    } else if addr == 0x2AAA && value == 0x55 && s.command_stage == Some(FlashCmdStage::FirstWritten) {
        (FlashState { command_stage: Some(FlashCmdStage::SecondWritten), ..s }, bank, None)
    } else if addr == 0x5555 && s.command_stage == Some(FlashCmdStage::SecondWritten) {
        let s2 = FlashState { command_stage: None, ..s };
        if value == 0x90 {
            (FlashState { id_mode: true, ..s2 }, bank, None)
        } else if value == 0xF0 {
            (FlashState { id_mode: false, ..s2 }, bank, None)
        } else if value == 0xA0 {
            (FlashState { write_mode: true, ..s2 }, bank, None)
        } else if value == 0xB0 && has_bank {
            (FlashState { bank_select: true, ..s2 }, bank, None)
        } else {
            (s2, bank, None)
        }
    } else {
        (s, bank, None)
    }
}

impl FlashState {
    /// A chip that is in no command and no mode.
    pub fn new() -> (s: Self)
        ensures
            s.command_stage is None && !s.id_mode && !s.write_mode && !s.bank_select,
    {
        // Why is Default not const...
        Self { command_stage: None, id_mode: false, write_mode: false, bank_select: false }
    }

    /// Process a write to flash.
    /// `has_bank` tells if the chip has banks (128K); `bank` is the
    /// selected bank.
    pub fn write(&mut self, addr: usize, value: u8, ram: &mut Vec<u8>, has_bank: bool, bank: &mut u8)
        requires
            !(addr == 0 && old(self).bank_select) && old(self).write_mode ==> banked(
                addr,
                has_bank && *old(bank) == 1,
            ) < old(ram).len(),
        ensures
            ({
                let (s, b, w) = flash_write(*old(self), addr, value, has_bank, *old(bank));
                &&& *final(self) == s
                &&& *final(bank) == b
                &&& final(ram)@ == match w {
                    Some((a, v)) => old(ram)@.update(a as int, v),
                    None => old(ram)@,
                }
            }),
    {
        if addr == 0 && self.bank_select {
            self.bank_select = false;
            *bank = value & 1;
        } else if self.write_mode {
            self.write_mode = false;
            if has_bank && *bank == 1 {
                ram.set(addr | 0x8000, value);
            } else {
                ram.set(addr, value);
            }
        } else if addr == 0x5555 && value == 0xAA && self.command_stage.is_none() {
            self.command_stage = Some(FlashCmdStage::FirstWritten);
        } else if addr == 0x2AAA && value == 0x55 && self.command_stage == Some(
            FlashCmdStage::FirstWritten,
        ) {
            self.command_stage = Some(FlashCmdStage::SecondWritten);
        } else if addr == 0x5555 && self.command_stage == Some(FlashCmdStage::SecondWritten) {
            if value == 0x90 {
                self.id_mode = true;
            } else if value == 0xF0 {
                self.id_mode = false;
            } else if value == 0xA0 {
                self.write_mode = true;
            } else if value == 0xB0 && has_bank {
                self.bank_select = true;
            }
            self.command_stage = None;
        }
    }
}

/// Bytes of the text that a save type's library leaves in the ROM.
pub open spec fn marker(i: int) -> Seq<u8> {
    if i == 0 {
        // FLASH1M_V
        seq![0x46u8, 0x4C, 0x41, 0x53, 0x48, 0x31, 0x4D, 0x5F, 0x56]
    } else if i == 1 {
        // FLASH_V
        seq![0x46u8, 0x4C, 0x41, 0x53, 0x48, 0x5F, 0x56]
    } else if i == 2 {
        // FLASH512_V
        seq![0x46u8, 0x4C, 0x41, 0x53, 0x48, 0x35, 0x31, 0x32, 0x5F, 0x56]
    } else if i == 3 {
        // SRAM_V
        seq![0x53u8, 0x52, 0x41, 0x4D, 0x5F, 0x56]
    } else {
        // EEPROM_V
        seq![0x45u8, 0x45, 0x50, 0x52, 0x4F, 0x4D, 0x5F, 0x56]
    }
}

/// If `needle` occurs in `hay` at position `i`.
pub open spec fn occurs_at(hay: Seq<u8>, needle: Seq<u8>, i: int) -> bool {
    0 <= i && i + needle.len() <= hay.len() && hay.subrange(i, i + needle.len()) =~= needle
}

/// If `needle` occurs in `hay`.
pub open spec fn occurs(hay: Seq<u8>, needle: Seq<u8>) -> bool {
    exists|i: int| occurs_at(hay, needle, i)
}

/// The save type a ROM asks for: the first library marker found, in the
/// order FLASH1M, FLASH, FLASH512, SRAM, EEPROM.
pub open spec fn detected_save(rom: Seq<u8>) -> SaveType {
    let fresh = FlashState {
        command_stage: None,
        id_mode: false,
        write_mode: false,
        bank_select: false,
    };
    if occurs(rom, marker(0)) {
        SaveType::Flash128 { state: fresh, bank: 0 }
    } else if occurs(rom, marker(1)) || occurs(rom, marker(2)) {
        SaveType::Flash64(fresh)
    } else if occurs(rom, marker(3)) {
        SaveType::Sram
    } else if occurs(rom, marker(4)) {
        SaveType::Eeprom
    } else {
        SaveType::Nothing
    }
}

/// Size of save memory for a save type.
pub open spec fn save_size(t: SaveType) -> nat {
    match t {
        SaveType::Nothing => 0,
        SaveType::Eeprom => 8 * 1024,
        SaveType::Sram => 32 * 1024,
        SaveType::Flash64(_) => 64 * 1024,
        SaveType::Flash128 { .. } => 128 * 1024,
    }
}

/// Text read from ROM at `base`, at most `max` characters, up to the first
/// NUL: `r` holds it exactly.
pub open spec fn is_rom_string(rom: Seq<u8>, base: int, max: int, r: Seq<char>) -> bool {
    &&& r.len() <= max
    &&& r == latin1(rom.subrange(base, base + r.len()))
    &&& forall|i: int| base <= i < base + r.len() ==> rom[i] != 0
    &&& r.len() < max ==> rom[base + r.len()] == 0
}

/// Text of at most `max` bytes at `base` can be read: the bytes are all
/// in ROM, or a NUL in ROM ends the text before ROM does.
pub open spec fn string_readable(rom: Seq<u8>, base: int, max: int) -> bool {
    ||| base + max <= rom.len()
    ||| exists|z: int| base <= z < rom.len() && z < base + max && rom[z] == 0
}

/// Bytes read as Latin-1 characters.
pub open spec fn latin1(bytes: Seq<u8>) -> Seq<char> {
    bytes.map_values(|b: u8| b as char)
}

/// The character of a byte (Latin-1).
fn byte_char(b: u8) -> (c: char)
    ensures
        c == (b as char),
{
    b as char
}

/// The GGA cartridge.
pub struct Cartridge {
    pub rom: Vec<u8>,
    pub ram: Vec<u8>,
    pub save_type: SaveType,
}

impl Cartridge {
    /// An empty cartridge.
    pub fn new() -> (c: Self)
        ensures
            c.rom@.len() == 0 && c.ram@.len() == 0 && c.save_type == SaveType::Nothing,
    {
        Cartridge { rom: Vec::new(), ram: Vec::new(), save_type: SaveType::Nothing }
    }

    /// Read a byte of save memory.
    pub fn read_ram(&self, addr: usize) -> (r: u8)
        requires
            match self.save_type {
                SaveType::Flash64(state) => state.id_mode || addr < self.ram@.len(),
                SaveType::Flash128 { state, bank } => state.id_mode || banked(addr, bank == 1)
                    < self.ram@.len(),
                SaveType::Nothing => true,
                _ => addr < self.ram@.len(),
            },
        ensures
            r == match self.save_type {
                SaveType::Flash64(state) => if state.id_mode {
                    flash64_id((addr % 2) as int)
                } else {
                    self.ram@[addr as int]
                },
                SaveType::Flash128 { state, bank } => if state.id_mode {
                    flash128_id((addr % 2) as int)
                } else {
                    self.ram@[banked(addr, bank == 1) as int]
                },
                SaveType::Nothing => 0u8,
                _ => self.ram@[addr as int],
            },
    {
        match self.save_type {
            SaveType::Flash64(state) => {
                if state.id_mode {
                    if addr % 2 == 0 {
                        0xC2
                    } else {
                        0x1C
                    }
                } else {
                    self.ram[addr]
                }
            },
            SaveType::Flash128 { state, bank } => {
                if state.id_mode {
                    if addr % 2 == 0 {
                        0xC2
                    } else {
                        0x09
                    }
                } else if bank == 1 {
                    self.ram[addr | 0x8000]
                } else {
                    self.ram[addr]
                }
            },
            SaveType::Nothing => 0,
            _ => self.ram[addr],
        }
    }

    /// Write a byte of save memory; only flash is written through here.
    pub fn write_ram(&mut self, addr: usize, value: u8)
        requires
            match old(self).save_type {
                SaveType::Flash64(state) => !(addr == 0 && state.bank_select) && state.write_mode
                    ==> addr < old(self).ram@.len(),
                SaveType::Flash128 { state, bank } => !(addr == 0 && state.bank_select)
                    && state.write_mode ==> banked(addr, bank == 1) < old(self).ram@.len(),
                _ => true,
            },
        ensures
            final(self).rom == old(self).rom,
            match old(self).save_type {
                SaveType::Flash64(state) => {
                    let (s, b, w) = flash_write(state, addr, value, false, 0);
                    &&& final(self).save_type == SaveType::Flash64(s)
                    &&& final(self).ram@ == match w {
                        Some((a, v)) => old(self).ram@.update(a as int, v),
                        None => old(self).ram@,
                    }
                },
                SaveType::Flash128 { state, bank } => {
                    let (s, b, w) = flash_write(state, addr, value, true, bank);
                    &&& final(self).save_type == (SaveType::Flash128 { state: s, bank: b })
                    &&& final(self).ram@ == match w {
                        Some((a, v)) => old(self).ram@.update(a as int, v),
                        None => old(self).ram@,
                    }
                },
                _ => final(self).save_type == old(self).save_type && final(self).ram@ == old(
                    self,
                ).ram@,
            },
    {
        match self.save_type {
            SaveType::Flash64(state) => {
                let mut state = state;
                let mut bank: u8 = 0;
                state.write(addr, value, &mut self.ram, false, &mut bank);
                self.save_type = SaveType::Flash64(state);
            },
            SaveType::Flash128 { state, bank } => {
                let mut state = state;
                let mut bank = bank;
                state.write(addr, value, &mut self.ram, true, &mut bank);
                self.save_type = SaveType::Flash128 { state, bank };
            },
            _ => {},
        }
    }

    /// Insert a ROM: detect its save type and size save memory for it.
    pub fn load_rom(&mut self, rom: Vec<u8>)
        requires
            !(detected_save(rom@) is Nothing) ==> old(self).ram@.len() <= save_size(detected_save(rom@)),
        ensures
            final(self).rom@ == rom@,
            final(self).save_type == detected_save(rom@),
            final(self).ram@.len() == if detected_save(rom@) is Nothing {
                old(self).ram@.len()
            } else {
                save_size(detected_save(rom@))
            },
            forall|i: int| 0 <= i < old(self).ram@.len() ==> final(self).ram@[i] == old(self).ram@[i],
            forall|i: int|
                old(self).ram@.len() <= i < final(self).ram@.len() ==> final(self).ram@[i] == 0,
    {
        let ghost rom_view = rom@;
        self.rom = rom;
        self.save_type = self.detect_save();
        let target: usize = match self.save_type {
            SaveType::Nothing => self.ram.len(),
            SaveType::Eeprom => 8 * KB,
            SaveType::Sram => 32 * KB,
            SaveType::Flash64(_) => 64 * KB,
            SaveType::Flash128 { .. } => 128 * KB,
        };
        let ghost old_ram = self.ram@;
        while self.ram.len() < target
            invariant
                old_ram.len() <= self.ram@.len() <= target,
                self.rom@ == rom_view,
                self.save_type == detected_save(rom_view),
                forall|i: int| 0 <= i < old_ram.len() ==> self.ram@[i] == old_ram[i],
                forall|i: int| old_ram.len() <= i < self.ram@.len() ==> self.ram@[i] == 0,
            decreases target - self.ram@.len(),
        {
            self.ram.push(0);
        }
    }

    /// Load save memory.
    pub fn load_save(&mut self, ram: Vec<u8>)
        ensures
            final(self).ram@ == ram@,
            final(self).rom == old(self).rom,
            final(self).save_type == old(self).save_type,
    {
        self.ram = ram;
    }

    /// The game's title from the ROM header.
    pub fn title(&self) -> (r: String)
        requires
            string_readable(self.rom@, 0xA0, 12),
        ensures
            is_rom_string(self.rom@, 0xA0, 12, r@),
    {
        self.read_string(0x0A0, 12)
    }

    /// The game's code from the ROM header.
    pub fn game_code(&self) -> (r: String)
        requires
            string_readable(self.rom@, 0xAC, 4),
        ensures
            is_rom_string(self.rom@, 0xAC, 4, r@),
    {
        self.read_string(0x0AC, 4)
    }

    /// The save type that the ROM asks for.
    fn detect_save(&self) -> (t: SaveType)
        ensures
            t == detected_save(self.rom@),
    {
        let fresh = FlashState::new();
        // FLASH1M_V
        let m0: [u8; 9] = [0x46, 0x4C, 0x41, 0x53, 0x48, 0x31, 0x4D, 0x5F, 0x56];
        // FLASH_V
        let m1: [u8; 7] = [0x46, 0x4C, 0x41, 0x53, 0x48, 0x5F, 0x56];
        // FLASH512_V
        let m2: [u8; 10] = [0x46, 0x4C, 0x41, 0x53, 0x48, 0x35, 0x31, 0x32, 0x5F, 0x56];
        // SRAM_V
        let m3: [u8; 6] = [0x53, 0x52, 0x41, 0x4D, 0x5F, 0x56];
        // EEPROM_V
        let m4: [u8; 8] = [0x45, 0x45, 0x50, 0x52, 0x4F, 0x4D, 0x5F, 0x56];
        proof {
            assert(m0@ =~= marker(0));
            assert(m1@ =~= marker(1));
            assert(m2@ =~= marker(2));
            assert(m3@ =~= marker(3));
            assert(m4@ =~= marker(4));
        }
        if contains(&self.rom, m0.as_slice()) {
            SaveType::Flash128 { state: fresh, bank: 0 }
        } else if contains(&self.rom, m1.as_slice()) || contains(&self.rom, m2.as_slice()) {
            SaveType::Flash64(fresh)
        } else if contains(&self.rom, m3.as_slice()) {
            SaveType::Sram
        } else if contains(&self.rom, m4.as_slice()) {
            SaveType::Eeprom
        } else {
            SaveType::Nothing
        }
    }

    /// Read text from ROM: at most `max` bytes from `base`, up to a NUL.
    fn read_string(&self, base: usize, max: usize) -> (r: String)
        requires
            string_readable(self.rom@, base as int, max as int),
        ensures
            is_rom_string(self.rom@, base as int, max as int, r@),
    {
        let mut buf = String::new();
        let mut idx: usize = 0;
        let len = self.rom.len();
        while idx < max
            invariant
                len == self.rom@.len(),
                idx <= max,
                self.rom@.len() <= usize::MAX,
                string_readable(self.rom@, base as int, max as int),
                buf@ == latin1(self.rom@.subrange(base as int, base + idx)),
                forall|i: int| base <= i < base + idx ==> self.rom@[i] != 0,
            ensures
                idx <= max,
                base + idx <= self.rom@.len(),
                buf@ == latin1(self.rom@.subrange(base as int, base + idx)),
                forall|i: int| base <= i < base + idx ==> self.rom@[i] != 0,
                idx < max ==> self.rom@[base + idx] == 0,
            decreases max - idx,
        {
            proof {
                if base + idx >= self.rom@.len() {
                    let z = choose|z: int| base <= z < self.rom@.len() && z < base + max && self.rom@[z] == 0;
                    assert(self.rom@[z] != 0);
                    assert(false);
                }
            }
            let byte = self.rom[base + idx];
            if byte == 0 {
                break;
            }
            let ch = byte_char(byte);
            push_char(&mut buf, ch);
            proof {
                assert(latin1(self.rom@.subrange(base as int, base + idx + 1)) =~= latin1(
                    self.rom@.subrange(base as int, base + idx),
                ).push(ch));
            }
            idx = idx + 1;
        }
        buf
    }
}

/// If `needle` occurs in `hay`.
fn contains(hay: &Vec<u8>, needle: &[u8]) -> (r: bool)
    ensures
        r == occurs(hay@, needle@),
{
    let n = needle.len();
    let len = hay.len();
    if n > len {
        proof {
            assert forall|i: int| !occurs_at(hay@, needle@, i) by {}
        }
        return false;
    }
    let mut i: usize = 0;
    while i <= len - n
        invariant
            n == needle@.len(),
            len == hay.len(),
            n <= len,
            i <= hay@.len() - n + 1,
            forall|j: int| 0 <= j < i ==> !occurs_at(hay@, needle@, j),
        decreases hay@.len() - i,
    {
        let mut k: usize = 0;
        let mut same = true;
        while k < n
            invariant
                n == needle@.len(),
                len == hay.len(),
                i + n <= len,
                k <= n,
                same == (forall|m: int| 0 <= m < k ==> hay@[i + m] == needle@[m]),
            decreases n - k,
        {
            if hay[i + k] != needle[k] {
                same = false;
            }
            k = k + 1;
        }
        if same {
            proof {
                assert(occurs_at(hay@, needle@, i as int));
            }
            return true;
        }
        proof {
            assert(!(hay@.subrange(i as int, i + n) =~= needle@) ==> !occurs_at(hay@, needle@, i as int));
            assert(!same);
            let m = choose|m: int| 0 <= m < n && hay@[i + m] != needle@[m];
            assert(hay@.subrange(i as int, i + n)[m] != needle@[m]);
        }
        i = i + 1;
    }
    proof {
        assert forall|j: int| !occurs_at(hay@, needle@, j) by {
            if 0 <= j < i {
            }
        }
    }
    false
}

/// Writing a byte in write mode and reading it back gives the byte; the
/// chip leaves write mode.
pub proof fn lemma_flash_write_mode_roundtrip(s: FlashState, addr: usize, value: u8)
    requires
        s.write_mode,
        !(addr == 0 && s.bank_select),
    ensures
        ({
            let (s2, b, w) = flash_write(s, addr, value, false, 0);
            w == Some((addr, value)) && !s2.write_mode
        }),
{
}

/// The ID command sequence (0xAA at 0x5555, 0x55 at 0x2AAA, 0x90 at 0x5555)
/// enters ID mode, from a chip in no command and no mode.
pub proof fn lemma_flash_id_sequence(s: FlashState, has_bank: bool, bank: u8)
    requires
        s.command_stage is None,
        !s.write_mode,
        !s.bank_select,
    ensures
        ({
            let (s1, b1, w1) = flash_write(s, 0x5555, 0xAA, has_bank, bank);
            let (s2, b2, w2) = flash_write(s1, 0x2AAA, 0x55, has_bank, b1);
            let (s3, b3, w3) = flash_write(s2, 0x5555, 0x90, has_bank, b2);
            &&& s3.id_mode
            &&& s3.command_stage is None
            &&& w1 is None && w2 is None && w3 is None
        }),
{
}

} // verus!

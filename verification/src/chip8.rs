//! The interpreter core: all architectural state of the machine, program
//! loading, the fetch/decode/dispatch cycle, timer decay and key handling.
//! The per-instruction semantics live in the `opcodes` submodule, stated over
//! the mathematical view [`State`] of a machine.
use vstd::prelude::*;

pub mod laws;
pub mod opcodes;

use crate::opcode::OpCode;
use crate::utils::{
    dec_string, hex, hex_row_bytes, hex_row_words, key_row, spec_dec, spec_hex, spec_hex_row,
    spec_key_row, u16s_of,
};
use rand::Rng;

verus! {

/// What pretty_hex's columned rendering of a byte sequence looks like; it
/// depends on the bytes alone.
pub uninterp spec fn hex_dump_of(bytes: Seq<u8>) -> Seq<char>;

/// Where the raster font is stored in memory.
pub const ADDRESS_FONT: u16 = 0x050;

/// Where a loaded program starts; all memory below is reserved.
pub const ADDRESS_ROM: u16 = 0x200;

/// Every instruction word is two bytes.
pub const OPCODE_SIZE: u16 = 2;

/// A fatal or load-time failure of the machine. Fatal conditions carry the
/// raw opcode word and the program counter where they arose.
#[derive(Clone, Copy, Debug, PartialEq, Eq, Structural)]
pub enum Chip8Error {
    /// A computed memory, display or key index fell outside its valid range.
    OutOfBoundsAccess { address: u16 },
    /// A call was made with the stack already at its 16-frame capacity.
    StackOverflow,
    /// A return was executed with nothing on the stack.
    StackUnderflow,
    /// The decoded fields match no instruction pattern.
    UnknownOpcode { opcode: u16, pc: u16 },
    /// The pattern is recognized (the SYS family) but intentionally
    /// unsupported on this interpreter.
    UnimplementedOpcode { opcode: u16, pc: u16 },
    /// A program image does not fit in the memory above `ADDRESS_ROM`.
    RomTooLarge { size: usize },
}

/// The mathematical view of a machine: every architectural field as a
/// sequence or unbounded integer.
pub ghost struct State {
    pub cycle: int,
    pub delay_timer: int,
    pub index_register: int,
    pub keyd_register: int,
    pub keys: Seq<bool>,
    pub memory: Seq<u8>,
    pub program_counter: int,
    pub graphics_buffer: Seq<bool>,
    pub has_graphics_update: bool,
    pub last_opcode: int,
    pub rom_size: int,
    pub wait_for_input: bool,
    pub registers: Seq<u8>,
    pub sound_timer: int,
    pub stack_pointer: int,
    pub stack: Seq<u16>,
}

impl State {
    /// Well-formedness of a machine state: the fixed sizes of the memory,
    /// register file, stack, key vector and display, and the ranges of the
    /// scalar fields.
    pub open spec fn wf(self) -> bool {
        &&& self.memory.len() == 4096
        &&& self.registers.len() == 16
        &&& self.stack.len() == 16
        &&& self.keys.len() == 16
        &&& self.graphics_buffer.len() == 2048
        &&& 0 <= self.stack_pointer <= 16
        &&& 0 <= self.index_register < 0x1000
        &&& 0 <= self.keyd_register < 16
        &&& 0 <= self.program_counter < 0x10000
        &&& 0 <= self.delay_timer < 256
        &&& 0 <= self.sound_timer < 256
        &&& 0 <= self.last_opcode < 0x10000
        &&& 0 <= self.rom_size <= 3584
        &&& 0 <= self.cycle
    }
}

/// The machine: 4k of byte memory, sixteen 8-bit registers, a 16-bit index
/// register and program counter, a sixteen-frame call stack, two countdown
/// timers, a 64x32 monochrome display and sixteen key flags.
pub struct Chip8 {
    /// The current cycle count.
    pub cycle: u64,
    /// Countdown timer decremented at the host's timer cadence.
    pub delay_timer: u8,
    /// 16-bit register for memory addressing, masked to 12 significant bits.
    pub index_register: u16,
    /// Which register receives the key value for the KEYD opcode.
    pub keyd_register: u8,
    /// Pressed state of the sixteen keys.
    pub keys: Vec<bool>,
    /// 4k of 8-bit memory.
    pub memory: Vec<u8>,
    /// 16-bit program counter.
    pub program_counter: u16,
    /// 64 columns, 32 rows, row-major, one flag per pixel.
    pub graphics_buffer: Vec<bool>,
    /// True exactly when the most recent instruction drew to the display.
    pub has_graphics_update: bool,
    /// Last executed opcode word.
    pub last_opcode: u16,
    /// Size of the loaded program in bytes.
    pub rom_size: usize,
    /// Wait for input before the next tick?
    pub wait_for_input: bool,
    /// Sixteen 8-bit registers V0-VF.
    pub registers: Vec<u8>,
    /// Countdown timer whose positive values request a tone.
    pub sound_timer: u8,
    /// Number of occupied stack frames.
    pub stack_pointer: usize,
    /// Saved 16-bit return addresses.
    pub stack: Vec<u16>,
}

impl View for Chip8 {
    type V = State;

    open spec fn view(&self) -> State {
        State {
            cycle: self.cycle as int,
            delay_timer: self.delay_timer as int,
            index_register: self.index_register as int,
            keyd_register: self.keyd_register as int,
            keys: self.keys@,
            memory: self.memory@,
            program_counter: self.program_counter as int,
            graphics_buffer: self.graphics_buffer@,
            has_graphics_update: self.has_graphics_update,
            last_opcode: self.last_opcode as int,
            rom_size: self.rom_size as int,
            wait_for_input: self.wait_for_input,
            registers: self.registers@,
            sound_timer: self.sound_timer as int,
            stack_pointer: self.stack_pointer as int,
            stack: self.stack@,
        }
    }
}

/// 4x5 raster font: sixteen glyphs of five bytes each. Each byte is one row
/// of pixels in its most significant four bits.
pub open spec fn spec_font() -> Seq<u8> {
    seq![
        0xF0u8, 0x90, 0x90, 0x90, 0xF0,
        0x20, 0x60, 0x20, 0x20, 0x70,
        0xF0, 0x10, 0xF0, 0x80, 0xF0,
        0xF0, 0x10, 0xF0, 0x10, 0xF0,
        0x90, 0x90, 0xF0, 0x10, 0x10,
        0xF0, 0x80, 0xF0, 0x10, 0xF0,
        0xF0, 0x80, 0xF0, 0x90, 0xF0,
        0xF0, 0x10, 0x20, 0x40, 0x40,
        0xF0, 0x90, 0xF0, 0x90, 0xF0,
        0xF0, 0x90, 0xF0, 0x10, 0xF0,
        0xF0, 0x90, 0xF0, 0x90, 0x90,
        0xE0, 0x90, 0xE0, 0x90, 0xE0,
        0xF0, 0x80, 0x80, 0x80, 0xF0,
        0xE0, 0x90, 0x90, 0x90, 0xE0,
        0xF0, 0x80, 0xF0, 0x80, 0xF0,
        0xF0, 0x80, 0xF0, 0x80, 0x80,
    ]
}

/// Memory at power-on: all zero except the font region.
pub open spec fn initial_memory() -> Seq<u8> {
    Seq::new(4096, |i: int| if 0x50 <= i < 0xA0 { spec_font()[i - 0x50] } else { 0u8 })
}

/// The whole machine at power-on: cleared state, program counter at the
/// program start address, font loaded.
pub open spec fn initial_state() -> State {
    State {
        cycle: 0,
        delay_timer: 0,
        index_register: 0,
        keyd_register: 0,
        keys: Seq::new(16, |i: int| false),
        memory: initial_memory(),
        program_counter: ADDRESS_ROM as int,
        graphics_buffer: Seq::new(2048, |i: int| false),
        has_graphics_update: false,
        last_opcode: 0,
        rom_size: 0,
        wait_for_input: false,
        registers: Seq::new(16, |i: int| 0u8),
        sound_timer: 0,
        stack_pointer: 0,
        stack: Seq::new(16, |i: int| 0u16),
    }
}

/// Memory after a program image has been copied in at `ADDRESS_ROM`.
pub open spec fn loaded_memory(memory: Seq<u8>, bytes: Seq<u8>) -> Seq<u8> {
    Seq::new(4096, |i: int| if 0x200 <= i < 0x200 + bytes.len() { bytes[i - 0x200] } else { memory[i] })
}

/// The raster font as bytes, glyph by glyph.
fn font_data() -> (v: Vec<u8>)
    ensures
        v@ == spec_font(),
{
    let mut v: Vec<u8> = Vec::new();
    v.push(0xF0); v.push(0x90); v.push(0x90); v.push(0x90); v.push(0xF0);
    v.push(0x20); v.push(0x60); v.push(0x20); v.push(0x20); v.push(0x70);
    v.push(0xF0); v.push(0x10); v.push(0xF0); v.push(0x80); v.push(0xF0);
    v.push(0xF0); v.push(0x10); v.push(0xF0); v.push(0x10); v.push(0xF0);
    v.push(0x90); v.push(0x90); v.push(0xF0); v.push(0x10); v.push(0x10);
    v.push(0xF0); v.push(0x80); v.push(0xF0); v.push(0x10); v.push(0xF0);
    v.push(0xF0); v.push(0x80); v.push(0xF0); v.push(0x90); v.push(0xF0);
    v.push(0xF0); v.push(0x10); v.push(0x20); v.push(0x40); v.push(0x40);
    v.push(0xF0); v.push(0x90); v.push(0xF0); v.push(0x90); v.push(0xF0);
    v.push(0xF0); v.push(0x90); v.push(0xF0); v.push(0x10); v.push(0xF0);
    v.push(0xF0); v.push(0x90); v.push(0xF0); v.push(0x90); v.push(0x90);
    v.push(0xE0); v.push(0x90); v.push(0xE0); v.push(0x90); v.push(0xE0);
    v.push(0xF0); v.push(0x80); v.push(0x80); v.push(0x80); v.push(0xF0);
    v.push(0xE0); v.push(0x90); v.push(0x90); v.push(0x90); v.push(0xE0);
    v.push(0xF0); v.push(0x80); v.push(0xF0); v.push(0x80); v.push(0xF0);
    v.push(0xF0); v.push(0x80); v.push(0xF0); v.push(0x80); v.push(0x80);
    proof {
        assert(v@ =~= spec_font());
    }
    v
}

impl Chip8 {
    /// Well-formedness of the machine, stated on its view.
    pub open spec fn wf(&self) -> bool {
        self@.wf()
    }

    /// A machine at power-on: cleared state with the font loaded and the
    /// program counter at the program start address.
    pub fn init() -> (r: Self)
        ensures
            r@ == initial_state(),
            r.wf(),
    {
        let mut memory: Vec<u8> = Vec::new();
        while memory.len() < 4096
            invariant
                memory@.len() <= 4096,
                forall|i: int| 0 <= i < memory@.len() ==> memory@[i] == 0u8,
            decreases 4096 - memory@.len(),
        {
            memory.push(0);
        }
        // Load font into memory.
        let font = font_data();
        let mut g: usize = 0;
        while g < 80
            invariant
                g <= 80,
                font@ == spec_font(),
                memory@.len() == 4096,
                forall|i: int|
                    0 <= i < 4096 ==> memory@[i] == (if 0x50 <= i < 0x50 + g {
                        spec_font()[i - 0x50]
                    } else {
                        0u8
                    }),
            decreases 80 - g,
        {
            memory.set(0x50 + g, font[g]);
            g += 1;
        }
        let mut registers: Vec<u8> = Vec::new();
        while registers.len() < 16
            invariant
                registers@.len() <= 16,
                forall|i: int| 0 <= i < registers@.len() ==> registers@[i] == 0u8,
            decreases 16 - registers@.len(),
        {
            registers.push(0);
        }
        let mut stack: Vec<u16> = Vec::new();
        while stack.len() < 16
            invariant
                stack@.len() <= 16,
                forall|i: int| 0 <= i < stack@.len() ==> stack@[i] == 0u16,
            decreases 16 - stack@.len(),
        {
            stack.push(0);
        }
        let mut keys: Vec<bool> = Vec::new();
        while keys.len() < 16
            invariant
                keys@.len() <= 16,
                forall|i: int| 0 <= i < keys@.len() ==> !keys@[i],
            decreases 16 - keys@.len(),
        {
            keys.push(false);
        }
        let mut graphics_buffer: Vec<bool> = Vec::new();
        while graphics_buffer.len() < 2048
            invariant
                graphics_buffer@.len() <= 2048,
                forall|i: int| 0 <= i < graphics_buffer@.len() ==> !graphics_buffer@[i],
            decreases 2048 - graphics_buffer@.len(),
        {
            graphics_buffer.push(false);
        }
        let r = Self {
            cycle: 0,
            delay_timer: 0,
            graphics_buffer,
            has_graphics_update: false,
            index_register: 0,
            keyd_register: 0,
            keys,
            last_opcode: 0,
            memory,
            program_counter: ADDRESS_ROM,
            registers,
            rom_size: 0,
            sound_timer: 0,
            stack_pointer: 0,
            stack,
            wait_for_input: false,
        };
        proof {
            assert(r@.memory =~= initial_memory());
            assert(r@.registers =~= initial_state().registers);
            assert(r@.stack =~= initial_state().stack);
            assert(r@.keys =~= initial_state().keys);
            assert(r@.graphics_buffer =~= initial_state().graphics_buffer);
        }
        r
    }

    /// Copy a program image into memory starting at `ADDRESS_ROM`. An image
    /// that does not fit in the memory above that address is rejected whole,
    /// leaving the machine untouched.
    pub fn load_rom(&mut self, bytes: &[u8]) -> (r: Result<(), Chip8Error>)
        requires
            old(self).wf(),
        ensures
            final(self).wf(),
            bytes@.len() <= 3584 ==> {
                &&& r == Ok::<(), Chip8Error>(())
                &&& final(self)@ == (State {
                    memory: loaded_memory(old(self)@.memory, bytes@),
                    rom_size: bytes@.len() as int,
                    ..old(self)@
                })
            },
            bytes@.len() > 3584 ==> {
                &&& r == Err::<(), Chip8Error>(Chip8Error::RomTooLarge { size: bytes@.len() as usize })
                &&& final(self)@ == old(self)@
            },
    {
        if bytes.len() > 3584 {
            return Err(Chip8Error::RomTooLarge { size: bytes.len() });
        }
        let mut idx: usize = 0;
        while idx < bytes.len()
            invariant
                idx <= bytes@.len() <= 3584,
                self.memory@.len() == 4096,
                forall|i: int|
                    0 <= i < 4096 ==> self.memory@[i] == (if 0x200 <= i < 0x200 + idx {
                        bytes@[i - 0x200]
                    } else {
                        old(self)@.memory[i]
                    }),
                self.cycle == old(self).cycle,
                self.delay_timer == old(self).delay_timer,
                self.index_register == old(self).index_register,
                self.keyd_register == old(self).keyd_register,
                self.keys@ == old(self)@.keys,
                self.program_counter == old(self).program_counter,
                self.graphics_buffer@ == old(self)@.graphics_buffer,
                self.has_graphics_update == old(self).has_graphics_update,
                self.last_opcode == old(self).last_opcode,
                self.rom_size == old(self).rom_size,
                self.wait_for_input == old(self).wait_for_input,
                self.registers@ == old(self)@.registers,
                self.sound_timer == old(self).sound_timer,
                self.stack_pointer == old(self).stack_pointer,
                self.stack@ == old(self)@.stack,
            decreases bytes@.len() - idx,
        {
            self.memory.set(0x200 + idx, bytes[idx]);
            idx += 1;
        }
        self.rom_size = bytes.len();
        proof {
            assert(self@.memory =~= loaded_memory(old(self)@.memory, bytes@));
        }
        Ok(())
    }

    /// Decrement both timers, each floored at zero; a timer already at zero
    /// stays at zero, so repeated decrements never go negative. Meant to be
    /// driven at a fixed real-time cadence independent of `tick`.
    pub fn decrement_timers(&mut self)
        requires
            old(self).wf(),
        ensures
            final(self).wf(),
            final(self)@ == (State {
                delay_timer: if old(self)@.delay_timer > 0 {
                    old(self)@.delay_timer - 1
                } else {
                    0
                },
                sound_timer: if old(self)@.sound_timer > 0 {
                    old(self)@.sound_timer - 1
                } else {
                    0
                },
                ..old(self)@
            }),
    {
        if self.delay_timer > 0 {
            self.delay_timer = self.delay_timer - 1;
        }
        if self.sound_timer > 0 {
            self.sound_timer = self.sound_timer - 1;
        }
    }

    /// Whether the sound collaborator should currently be playing a tone:
    /// true exactly while the sound timer is positive.
    pub fn should_sound(&self) -> (b: bool)
        ensures
            b == (self@.sound_timer > 0),
    {
        self.sound_timer > 0
    }

    /// A full deep copy of the machine, equal to it on every field.
    pub fn snapshot(&self) -> (r: Self)
        ensures
            r@ == self@,
    {
        let r = Self {
            cycle: self.cycle,
            delay_timer: self.delay_timer,
            graphics_buffer: self.graphics_buffer.clone(),
            has_graphics_update: self.has_graphics_update,
            index_register: self.index_register,
            keyd_register: self.keyd_register,
            keys: self.keys.clone(),
            last_opcode: self.last_opcode,
            memory: self.memory.clone(),
            program_counter: self.program_counter,
            registers: self.registers.clone(),
            rom_size: self.rom_size,
            sound_timer: self.sound_timer,
            stack_pointer: self.stack_pointer,
            stack: self.stack.clone(),
            wait_for_input: self.wait_for_input,
        };
        proof {
            assert(r@.memory =~= self@.memory);
            assert(r@.registers =~= self@.registers);
            assert(r@.stack =~= self@.stack);
            assert(r@.keys =~= self@.keys);
            assert(r@.graphics_buffer =~= self@.graphics_buffer);
        }
        r
    }
}

/// The lowest pressed key at or after index `i`, if any.
pub open spec fn first_pressed_from(k: Seq<bool>, i: int) -> Option<int>
    decreases 16 - i,
{
    if i < 0 || i >= 16 {
        None
    } else if k[i] {
        Some(i)
    } else {
        first_pressed_from(k, i + 1)
    }
}

/// When `j` is pressed and nothing below it is, the search from any index at
/// or below `j` finds exactly `j`.
proof fn lemma_first_pressed_found(k: Seq<bool>, j: int, i: int)
    requires
        0 <= i <= j < 16,
        k[j],
        forall|t: int| i <= t < j ==> !k[t],
    ensures
        first_pressed_from(k, i) == Some(j),
    decreases j - i,
{
    if i < j {
        lemma_first_pressed_found(k, j, i + 1);
    }
}

/// When nothing at or after `i` is pressed, the search finds nothing.
proof fn lemma_first_pressed_none(k: Seq<bool>, i: int)
    requires
        0 <= i <= 16,
        forall|t: int| i <= t < 16 ==> !k[t],
    ensures
        first_pressed_from(k, i) == None::<int>,
    decreases 16 - i,
{
    if i < 16 {
        lemma_first_pressed_none(k, i + 1);
    }
}

/// Resuming from the wait state: the lowest pressed key's value lands in the
/// pending register and execution resumes.
pub open spec fn spec_keyd_resume(s: State, key: u8) -> State {
    State {
        registers: s.registers.update(s.keyd_register, key),
        wait_for_input: false,
        ..s
    }
}

/// What supplying a whole key vector does: while the machine awaits a key
/// and some key in the new vector is pressed, the lowest pressed key's value
/// is captured into the pending register and execution resumes; in every
/// case the key vector is stored.
pub open spec fn spec_set_keys(s: State, k: Seq<bool>) -> State {
    let s1 = if s.wait_for_input {
        match first_pressed_from(k, 0) {
            Some(j) => spec_keyd_resume(s, j as u8),
            None => s,
        }
    } else {
        s
    };
    State { keys: k, ..s1 }
}

/// The debug dump of a machine state: the scalar fields hex rendered (the
/// cycle count in decimal), then the register file, stack and key states as
/// space separated rows, one line each.
pub open spec fn spec_debug_dump(s: State) -> Seq<char> {
    "PC:      "@ + spec_hex(s.program_counter as u16) + "\n"@ + "SP:      "@ + spec_hex(
        s.stack_pointer as u16,
    ) + "\n"@ + "I:       "@ + spec_hex(s.index_register as u16) + "\n"@ + "Opcode:  "@
        + spec_hex(s.last_opcode as u16) + "\n"@ + "Cycle #: "@ + spec_dec(s.cycle as nat)
        + "\n"@ + "Registers:"@ + spec_hex_row(u16s_of(s.registers)) + "\n"@ + "Stack:    "@
        + spec_hex_row(s.stack) + "\n"@ + "Keys:     "@ + spec_key_row(s.keys) + "\n"@
}

/// Relies on rand's `thread_rng` and `Rng::gen_range` for a uniformly drawn
/// byte; nothing is assumed of the drawn value.
#[verifier::external_body]
fn random_byte() -> (r: u8) {
    rand::thread_rng().gen_range(0..=255)
}

/// Relies on pretty_hex's `hex_dump` (through its `Debug` rendering): the
/// columned hex dump of a byte sequence, a function of the bytes alone.
#[verifier::external_body]
fn pretty_hex_dump(bytes: &Vec<u8>) -> (r: String)
    ensures
        r@ == hex_dump_of(bytes@),
{
    format!("{:?}", pretty_hex::PrettyHex::hex_dump(bytes))
}

impl Chip8 {
    /// Set the pending register from a received key and resume execution.
    pub fn KEYD_RESUME(&mut self, key: u8)
        requires
            old(self).wf(),
            key < 16,
        ensures
            final(self).wf(),
            final(self)@ == spec_keyd_resume(old(self)@, key),
    {
        let reg = self.keyd_register;
        self.registers.set(reg as usize, key);
        self.wait_for_input = false;
    }

    /// Store the current state of all sixteen keys. While the machine awaits
    /// a key and any of the new keys is pressed, the lowest pressed key is
    /// captured into the pending register and execution resumes.
    pub fn set_keys(&mut self, keys: [bool; 16])
        requires
            old(self).wf(),
        ensures
            final(self).wf(),
            final(self)@ == spec_set_keys(old(self)@, keys@),
    {
        if self.wait_for_input {
            let mut key_name: usize = 0;
            while key_name < 16 && !keys[key_name]
                invariant
                    key_name <= 16,
                    forall|t: int| 0 <= t < key_name ==> !keys@[t],
                    self == old(self),
                decreases 16 - key_name,
            {
                key_name = key_name + 1;
            }
            if key_name < 16 {
                proof {
                    lemma_first_pressed_found(keys@, key_name as int, 0);
                }
                self.KEYD_RESUME(key_name as u8);
            } else {
                proof {
                    lemma_first_pressed_none(keys@, 0);
                }
            }
        }
        let ghost s1 = self@;
        let mut t: usize = 0;
        while t < 16
            invariant
                t <= 16,
                self@ == (State { keys: self@.keys, ..s1 }),
                self@.keys.len() == 16,
                forall|u: int| 0 <= u < t ==> self@.keys[u] == keys@[u],
                forall|u: int| t <= u < 16 ==> self@.keys[u] == s1.keys[u],
            decreases 16 - t,
        {
            self.keys.set(t, keys[t]);
            t = t + 1;
        }
        proof {
            assert(self@.keys =~= keys@);
        }
    }

    /// The big-endian instruction word at the program counter; fails when
    /// the word does not fit below 4096.
    fn get_opcode(&self) -> (r: Result<u16, Chip8Error>)
        requires
            self.wf(),
        ensures
            self@.program_counter + 1 >= 4096 ==> r == Err::<u16, Chip8Error>(
                Chip8Error::OutOfBoundsAccess { address: self@.program_counter as u16 },
            ),
            self@.program_counter + 1 < 4096 ==> r == Ok::<u16, Chip8Error>(
                opcodes::spec_fetch(self@) as u16,
            ) && opcodes::spec_fetch(self@) < 0x10000,
    {
        if self.program_counter >= 4095 {
            return Err(Chip8Error::OutOfBoundsAccess { address: self.program_counter });
        }
        let high = self.memory[self.program_counter as usize];
        let low = self.memory[self.program_counter as usize + 1];
        let w: u16 = ((high as u16) << 8) | (low as u16);
        proof {
            assert((((high as u16) << 8) | (low as u16)) == (high as u16) * 256 + (low as u16))
                by (bit_vector);
        }
        Ok(w)
    }

    /// One dispatch step: fetch the word at the program counter, clear the
    /// frame flag, decode, execute the instruction, then advance the program
    /// counter by two unless a jump or call set it explicitly (a RETURN is
    /// followed by the advance, resuming just past its call site). On an
    /// error no instruction effect is applied. The relation to the machine's
    /// old view is [`opcodes::spec_exec`], for some drawn byte.
    pub fn execute_opcode(&mut self) -> (r: Result<(), Chip8Error>)
        requires
            old(self).wf(),
        ensures
            final(self).wf(),
            exists|b: u8| #[trigger] opcodes::exec_matches(old(self)@, final(self)@, r, b),
    {
        let pc_now = self.program_counter;
        let w = match self.get_opcode() {
            Ok(w) => w,
            Err(e) => {
                proof {
                    assert(opcodes::exec_matches(old(self)@, self@, Err::<(), Chip8Error>(e), 0u8));
                }
                return Err(e);
            },
        };
        self.has_graphics_update = false;
        proof {
            crate::opcode::lemma_symbols_bounds(w);
        }
        let ghost mut rnd: u8 = 0;
        let op = OpCode::from_value(w);
        let step: Result<(), Chip8Error> = match op {
            None => Err(Chip8Error::UnknownOpcode { opcode: w, pc: pc_now }),
            Some(o) => match o {
                OpCode::CLR => {
                    self.CLR();
                    Ok(())
                },
                OpCode::RTS => self.RTS(),
                OpCode::SYS { nnn } => self.SYS(nnn),
                OpCode::JUMP { nnn } => {
                    self.JUMP(nnn);
                    Ok(())
                },
                OpCode::CALL { nnn } => self.CALL(nnn),
                OpCode::SKE { x, nn } => {
                    self.SKE(x, nn);
                    Ok(())
                },
                OpCode::SKNE { x, nn } => {
                    self.SKNE(x, nn);
                    Ok(())
                },
                OpCode::SKRE { x, y } => {
                    self.SKRE(x, y);
                    Ok(())
                },
                OpCode::LOAD { x, nn } => {
                    self.LOAD(x, nn);
                    Ok(())
                },
                OpCode::ADD { x, nn } => {
                    self.ADD(x, nn);
                    Ok(())
                },
                OpCode::MOVE { x, y } => {
                    self.MOVE(x, y);
                    Ok(())
                },
                OpCode::OR { x, y } => {
                    self.OR(x, y);
                    Ok(())
                },
                OpCode::AND { x, y } => {
                    self.AND(x, y);
                    Ok(())
                },
                OpCode::XOR { x, y } => {
                    self.XOR(x, y);
                    Ok(())
                },
                OpCode::ADDR { x, y } => {
                    self.ADDR(x, y);
                    Ok(())
                },
                OpCode::SUB { x, y } => {
                    self.SUB(x, y);
                    Ok(())
                },
                OpCode::SHR { x, y } => {
                    self.SHR(x, y);
                    Ok(())
                },
                OpCode::SUBN { x, y } => {
                    self.SUBN(x, y);
                    Ok(())
                },
                OpCode::SHL { x, y } => {
                    self.SHL(x, y);
                    Ok(())
                },
                OpCode::SKRNE { x, y } => {
                    self.SKRNE(x, y);
                    Ok(())
                },
                OpCode::LOADI { nnn } => {
                    self.LOADI(nnn);
                    Ok(())
                },
                OpCode::JUMPI { nnn } => {
                    self.JUMPI(nnn);
                    Ok(())
                },
                OpCode::RAND { x, nn } => {
                    let b = random_byte();
                    proof {
                        rnd = b;
                    }
                    self.RAND(x, nn, b);
                    Ok(())
                },
                OpCode::DRAW { x, y, n } => self.DRAW(x, y, n),
                OpCode::SKPR { x } => self.SKPR(x),
                OpCode::SKUP { x } => self.SKUP(x),
                OpCode::MOVED { x } => {
                    self.MOVED(x);
                    Ok(())
                },
                OpCode::KEYD { x } => {
                    self.KEYD(x);
                    Ok(())
                },
                OpCode::LOADD { x } => {
                    self.LOADD(x);
                    Ok(())
                },
                OpCode::LOADS { x } => {
                    self.LOADS(x);
                    Ok(())
                },
                OpCode::ADDI { x } => {
                    self.ADDI(x);
                    Ok(())
                },
                OpCode::LDSPR { x } => {
                    self.LDSPR(x);
                    Ok(())
                },
                OpCode::BCD { x } => self.BCD(x),
                OpCode::STOR { x } => self.STOR(x),
                OpCode::READ { x } => self.READ(x),
            },
        };
        match step {
            Err(e) => {
                proof {
                    assert(opcodes::exec_matches(old(self)@, self@, Err::<(), Chip8Error>(e), rnd));
                }
                Err(e)
            },
            Ok(()) => {
                let advance = !(matches!(
                    op,
                    Some(OpCode::JUMP { .. }) | Some(OpCode::CALL { .. }) | Some(
                        OpCode::JUMPI { .. },
                    )
                ));
                if advance {
                    self.program_counter = self.program_counter.wrapping_add(OPCODE_SIZE);
                }
                self.last_opcode = w;
                proof {
                    assert(opcodes::exec_matches(old(self)@, self@, Ok::<(), Chip8Error>(()), rnd));
                }
                Ok(())
            },
        }
    }

    /// One tick: while the machine awaits a key this is inert (no state
    /// change, no cycle count, and no headroom asked of the cycle counter);
    /// otherwise one dispatch step runs and the cycle count grows by one. The relation to the machine's old view is
    /// [`opcodes::spec_tick`], for some drawn byte. Timer decay is not
    /// coupled to ticking: the host drives `decrement_timers` on its own
    /// cadence.
    pub fn tick(&mut self) -> (r: Result<(), Chip8Error>)
        requires
            old(self).wf(),
            old(self).wait_for_input || old(self).cycle < 0xFFFF_FFFF_FFFF_FFFFu64,
        ensures
            final(self).wf(),
            exists|b: u8| #[trigger] opcodes::tick_matches(old(self)@, final(self)@, r, b),
            old(self)@.wait_for_input ==> r == Ok::<(), Chip8Error>(()) && final(self)@ == old(
                self,
            )@,
    {
        if self.wait_for_input {
            proof {
                assert(opcodes::tick_matches(old(self)@, self@, Ok::<(), Chip8Error>(()), 0u8));
            }
            return Ok(());
        }
        let result = self.execute_opcode();
        match result {
            Ok(()) => {
                let ghost mid = self@;
                self.cycle = self.cycle + 1;
                proof {
                    let b = choose|b: u8| opcodes::exec_matches(old(self)@, mid, result, b);
                    assert(opcodes::exec_matches(old(self)@, mid, result, b));
                    assert(self@ == (State { cycle: mid.cycle + 1, ..mid }));
                    assert(opcodes::tick_matches(old(self)@, self@, Ok::<(), Chip8Error>(()), b));
                }
                Ok(())
            },
            Err(e) => {
                proof {
                    let b = choose|b: u8|
                        opcodes::exec_matches(old(self)@, self@, Err::<(), Chip8Error>(e), b);
                    assert(opcodes::tick_matches(old(self)@, self@, Err::<(), Chip8Error>(e), b));
                }
                Err(e)
            },
        }
    }

    /// A read-only formatted dump of the machine: program counter, stack
    /// pointer, index register, last executed opcode, cycle count, register
    /// file, stack contents and key states — purely observational.
    pub fn format_debug(&self) -> (r: String)
        requires
            self.wf(),
        ensures
            r@ == spec_debug_dump(self@),
    {
        let mut s = String::from_str("PC:      ");
        s.append(hex(self.program_counter).as_str());
        s.append("\n");
        s.append("SP:      ");
        s.append(hex(self.stack_pointer as u16).as_str());
        s.append("\n");
        s.append("I:       ");
        s.append(hex(self.index_register).as_str());
        s.append("\n");
        s.append("Opcode:  ");
        s.append(hex(self.last_opcode).as_str());
        s.append("\n");
        s.append("Cycle #: ");
        s.append(dec_string(self.cycle).as_str());
        s.append("\n");
        s.append("Registers:");
        s.append(hex_row_bytes(&self.registers).as_str());
        s.append("\n");
        s.append("Stack:    ");
        s.append(hex_row_words(&self.stack).as_str());
        s.append("\n");
        s.append("Keys:     ");
        s.append(key_row(&self.keys).as_str());
        s.append("\n");
        s
    }

    /// The columned hex dump of the loaded program bytes, as pretty_hex
    /// renders them.
    pub fn format_memory(&self) -> (r: String)
        requires
            self.wf(),
        ensures
            r@ == hex_dump_of(self@.memory.subrange(0x200, 0x200 + self@.rom_size)),
    {
        let mut bytes: Vec<u8> = Vec::new();
        let mut k: usize = 0;
        while k < self.rom_size
            invariant
                self.wf(),
                k <= self@.rom_size,
                bytes@.len() == k,
                forall|t: int| 0 <= t < k ==> bytes@[t] == self@.memory[0x200 + t],
            decreases self@.rom_size - k,
        {
            bytes.push(self.memory[0x200 + k]);
            k = k + 1;
        }
        proof {
            assert(bytes@ =~= self@.memory.subrange(0x200, 0x200 + self@.rom_size));
        }
        pretty_hex_dump(&bytes)
    }
}

} // verus!

use chip8::chip8::{Chip8, Chip8Error, ADDRESS_ROM};

const TEST_ROM_BYTES: &[u8] = &[
    96, 0, 97, 0, 162, 34, 194, 1, 50, 1, 162, 30, 208, 20, 112, 4, 48, 64, 18, 4, 96, 0, 113, 4,
    49, 32, 18, 4, 18, 28, 128, 64, 32, 16, 32, 64, 128, 16,
];

/// Test that the machine initializes to a proper initial state.
#[test]
fn test_init() {
    let machine = Chip8::init();
    assert_eq!(machine.program_counter, ADDRESS_ROM);
}

/// Test that the machine initializes to a proper zero state.
#[test]
fn test_load_rom() {
    let mut machine = Chip8::init();
    machine.load_rom(TEST_ROM_BYTES).unwrap();
    let start = ADDRESS_ROM as usize;
    let end = start + TEST_ROM_BYTES.len();
    assert_eq!(&machine.memory[start..end], TEST_ROM_BYTES);
}

/// Timers should decrement by 1 each time `decrement_timers` is called, but never fall below 0.
#[test]
fn test_decrement_timers() {
    let mut machine = Chip8::init();
    machine.delay_timer = 5;
    machine.sound_timer = 0;

    machine.decrement_timers();

    assert_eq!(machine.sound_timer, 0);
    assert_eq!(machine.delay_timer, 4);
}

/// The Draw opcode should XOR black and white bits to the graphics buffer with overflow to next
// line. It is byte-encoded sprite-based. See specifications online for more details.
#[test]
fn test_draw() {
    let mut machine = Chip8::init();
    machine.index_register = 0x204; // Where to look for the sprite data.
    machine.memory[0x204] = 0xCC; // 8 bits to draw:  11001100
    machine.memory[0x205] = 0xFF; // 8 bits to draw:  11111111
    machine.registers[0] = 0; // x coordinate
    machine.registers[1] = 0; // y-coordinate

    machine.DRAW(0, 1, 1).unwrap(); // Get x,y from 0,1 and draw a single byte of data.

    // The segment of the graphics buffer is as expected. We drew four pixels at x= 0, 1, 4, 5.
    assert_eq!(
        machine.graphics_buffer[0..8],
        [true, true, false, false, true, true, false, false]
    );

    // In this case, we draw two lines, not one.
    machine.DRAW(0, 1, 2).unwrap();

    // XORing has turned off the pixels that were on.
    assert_eq!(
        machine.graphics_buffer[0..8],
        [false, false, false, false, false, false, false, false]
    );

    // But the second line is all on now.
    assert_eq!(
        machine.graphics_buffer[64..72],
        [true, true, true, true, true, true, true, true]
    )
}

/// The font is loaded at its fixed region on power-on.
#[test]
fn init_loads_font() {
    let machine = Chip8::init();
    assert_eq!(machine.memory[0x50], 0xF0); // glyph 0, first row
    assert_eq!(machine.memory[0x9F], 0x80); // glyph F, last row
    assert_eq!(machine.memory[0x4F], 0);
    assert_eq!(machine.memory[0xA0], 0);
}

/// A program larger than the memory above the load address is rejected whole.
#[test]
fn load_rom_too_large() {
    let mut machine = Chip8::init();
    let bytes = vec![0u8; 3585];
    assert_eq!(
        machine.load_rom(&bytes),
        Err(Chip8Error::RomTooLarge { size: 3585 })
    );
    // Nothing was written.
    assert_eq!(machine.memory[0x200], 0);
    // The largest fitting size is accepted.
    let bytes = vec![7u8; 3584];
    machine.load_rom(&bytes).unwrap();
    assert_eq!(machine.memory[0xFFF], 7);
    assert_eq!(machine.rom_size, 3584);
}

/// Scenario: the word 0x00E0 clears the display, marks the frame dirty and
/// advances the program counter by two.
#[test]
fn clear_screen_scenario() {
    let mut machine = Chip8::init();
    machine.graphics_buffer[0] = true;
    machine.graphics_buffer[2047] = true;
    machine.load_rom(&[0x00, 0xE0]).unwrap();
    machine.tick().unwrap();
    assert!(machine.graphics_buffer.iter().all(|p| !p));
    assert!(machine.has_graphics_update);
    assert_eq!(machine.program_counter, 0x202);
    assert_eq!(machine.cycle, 1);
}

/// Scenario: 0x6A05 (load immediate, x=0xA, nn=0x05) sets register VA to 5
/// and advances the program counter by two.
#[test]
fn load_imm_scenario() {
    let mut machine = Chip8::init();
    machine.load_rom(&[0x6A, 0x05]).unwrap();
    machine.tick().unwrap();
    assert_eq!(machine.registers[0xA], 5);
    assert_eq!(machine.program_counter, 0x202);
}

/// Scenario: VA=0xFF, add immediate 0x02 wraps VA to 0x01 and sets no flag.
#[test]
fn add_imm_wraps_scenario() {
    let mut machine = Chip8::init();
    machine.registers[0xA] = 0xFF;
    machine.load_rom(&[0x7A, 0x02]).unwrap();
    machine.tick().unwrap();
    assert_eq!(machine.registers[0xA], 0x01);
    assert_eq!(machine.registers[0xF], 0);
}

/// After loading program bytes and ticking once, the loaded bytes are
/// unchanged in memory.
#[test]
fn program_bytes_survive_tick() {
    let mut machine = Chip8::init();
    let bytes = [0x6A, 0x05, 0x11, 0x22, 0x33, 0x44];
    machine.load_rom(&bytes).unwrap();
    machine.tick().unwrap();
    assert_eq!(&machine.memory[0x200..0x206], &bytes);
}

/// Drawing onto an all-clear region reports no collision; repeating the same
/// draw collides on every pixel and erases them again.
#[test]
fn draw_collision_flag() {
    let mut machine = Chip8::init();
    machine.index_register = 0x300;
    machine.memory[0x300] = 0xFF;
    machine.registers[2] = 10;
    machine.registers[3] = 4;
    machine.DRAW(2, 3, 1).unwrap();
    assert_eq!(machine.registers[0xF], 0);
    let before: Vec<bool> = machine.graphics_buffer.clone();
    machine.DRAW(2, 3, 1).unwrap();
    assert_eq!(machine.registers[0xF], 1);
    // Double-XOR: every affected pixel is back to its pre-draw state.
    assert!(machine.graphics_buffer.iter().all(|p| !p));
    assert_ne!(before, machine.graphics_buffer);
}

/// Drawing wraps around both screen edges.
#[test]
fn draw_wraps_at_edges() {
    let mut machine = Chip8::init();
    machine.index_register = 0x300;
    machine.memory[0x300] = 0x81; // leftmost and rightmost bit of the row
    machine.registers[0] = 62;
    machine.registers[1] = 31;
    machine.DRAW(0, 1, 1).unwrap();
    // Row 31, columns 62 and (62 + 7) mod 64 = 5.
    assert!(machine.graphics_buffer[31 * 64 + 62]);
    assert!(machine.graphics_buffer[31 * 64 + 5]);
}

/// A sprite reaching past the end of memory is rejected before any effect.
#[test]
fn draw_out_of_bounds() {
    let mut machine = Chip8::init();
    machine.index_register = 0xFFF;
    assert_eq!(
        machine.DRAW(0, 1, 2),
        Err(Chip8Error::OutOfBoundsAccess { address: 0x1000 })
    );
    assert!(!machine.has_graphics_update);
}

/// Repeated decrements at zero stay at zero.
#[test]
fn timers_never_negative() {
    let mut machine = Chip8::init();
    for _ in 0..5 {
        machine.decrement_timers();
    }
    assert_eq!(machine.delay_timer, 0);
    assert_eq!(machine.sound_timer, 0);
    machine.sound_timer = 2;
    machine.decrement_timers();
    machine.decrement_timers();
    machine.decrement_timers();
    assert_eq!(machine.sound_timer, 0);
}

/// The sound signal is exposed exactly while the sound timer is positive.
#[test]
fn sound_signal() {
    let mut machine = Chip8::init();
    assert!(!machine.should_sound());
    machine.sound_timer = 1;
    assert!(machine.should_sound());
    machine.decrement_timers();
    assert!(!machine.should_sound());
}

/// WAIT_KEY suspends ticking until a key is supplied; the lowest pressed key
/// is captured into the target register and ticking resumes.
#[test]
fn wait_key_suspends_and_resumes() {
    let mut machine = Chip8::init();
    machine.load_rom(&[0xF5, 0x0A, 0x6A, 0x05]).unwrap();
    machine.tick().unwrap();
    assert!(machine.wait_for_input);
    assert_eq!(machine.program_counter, 0x202);
    assert_eq!(machine.cycle, 1);
    // Repeated ticks change nothing while waiting.
    for _ in 0..3 {
        machine.tick().unwrap();
    }
    assert!(machine.wait_for_input);
    assert_eq!(machine.program_counter, 0x202);
    assert_eq!(machine.cycle, 1);
    // No key pressed: still waiting.
    machine.set_keys([false; 16]);
    assert!(machine.wait_for_input);
    // Keys 3 and 7 pressed: the lowest index wins.
    let mut keys = [false; 16];
    keys[7] = true;
    keys[3] = true;
    machine.set_keys(keys);
    assert!(!machine.wait_for_input);
    assert_eq!(machine.registers[5], 3);
    // Ticking resumes.
    machine.tick().unwrap();
    assert_eq!(machine.registers[0xA], 5);
    assert_eq!(machine.cycle, 2);
}

/// Nested calls then returns pop the call-site program counters in LIFO
/// order, resume two past each call, and leave the stack balanced.
#[test]
fn call_return_stack_balanced() {
    let mut machine = Chip8::init();
    // 0x200: CALL 0x300; 0x202: LOAD V0, 7 (the instruction after the call)
    machine.load_rom(&[0x23, 0x00, 0x60, 0x07]).unwrap();
    machine.memory[0x300] = 0x24; // 0x300: CALL 0x400
    machine.memory[0x301] = 0x00;
    machine.memory[0x302] = 0x00; // 0x302: RETURN
    machine.memory[0x303] = 0xEE;
    machine.memory[0x400] = 0x00; // 0x400: RETURN
    machine.memory[0x401] = 0xEE;

    machine.tick().unwrap();
    assert_eq!(machine.program_counter, 0x300);
    assert_eq!(machine.stack_pointer, 1);
    assert_eq!(machine.stack[0], 0x200);

    machine.tick().unwrap();
    assert_eq!(machine.program_counter, 0x400);
    assert_eq!(machine.stack_pointer, 2);
    assert_eq!(machine.stack[1], 0x300);

    // The inner RETURN resumes two past the inner call.
    machine.tick().unwrap();
    assert_eq!(machine.program_counter, 0x302);
    assert_eq!(machine.stack_pointer, 1);

    // The outer RETURN resumes two past the outer call.
    machine.tick().unwrap();
    assert_eq!(machine.program_counter, 0x202);
    assert_eq!(machine.stack_pointer, 0);

    // Execution continues with the instruction after the first call.
    machine.tick().unwrap();
    assert_eq!(machine.registers[0], 7);
    assert_eq!(machine.program_counter, 0x204);
}

/// A RETURN with nothing on the stack is a fatal stack underflow.
#[test]
fn return_underflows() {
    let mut machine = Chip8::init();
    machine.load_rom(&[0x00, 0xEE]).unwrap();
    assert_eq!(machine.tick(), Err(Chip8Error::StackUnderflow));
    assert_eq!(machine.program_counter, 0x200);
    assert_eq!(machine.cycle, 0);
}

/// The seventeenth nested CALL overflows the sixteen-frame stack.
#[test]
fn call_overflows() {
    let mut machine = Chip8::init();
    machine.load_rom(&[0x22, 0x00]).unwrap(); // CALL 0x200, forever
    for _ in 0..16 {
        machine.tick().unwrap();
    }
    assert_eq!(machine.stack_pointer, 16);
    assert_eq!(machine.tick(), Err(Chip8Error::StackOverflow));
    assert_eq!(machine.stack_pointer, 16);
}

/// A word whose fields match no pattern is a fatal unknown opcode carrying
/// the raw word and the program counter.
#[test]
fn unknown_opcode_is_fatal() {
    let mut machine = Chip8::init();
    machine.load_rom(&[0x50, 0x01]).unwrap();
    assert_eq!(
        machine.tick(),
        Err(Chip8Error::UnknownOpcode { opcode: 0x5001, pc: 0x200 })
    );
    assert_eq!(machine.program_counter, 0x200);
    assert_eq!(machine.cycle, 0);
}

/// The SYS family is recognized but intentionally unsupported.
#[test]
fn sys_is_unimplemented() {
    let mut machine = Chip8::init();
    machine.load_rom(&[0x01, 0x23]).unwrap();
    assert_eq!(
        machine.tick(),
        Err(Chip8Error::UnimplementedOpcode { opcode: 0x123, pc: 0x200 })
    );
}

/// Fetching past the end of memory is a fatal out-of-bounds access.
#[test]
fn fetch_out_of_bounds() {
    let mut machine = Chip8::init();
    machine.program_counter = 4095;
    assert_eq!(
        machine.tick(),
        Err(Chip8Error::OutOfBoundsAccess { address: 4095 })
    );
}

/// Register arithmetic: carry, borrow and shift flags take their exact
/// specified values.
#[test]
fn alu_flags_exact() {
    let mut machine = Chip8::init();
    // ADD_REG: 200 + 100 = 300 -> VF=1, Vx=44.
    machine.registers[1] = 200;
    machine.registers[2] = 100;
    machine.ADDR(1, 2);
    assert_eq!(machine.registers[1], 44);
    assert_eq!(machine.registers[0xF], 1);
    // SUB: 5 - 10 wraps to 251, VF=0 (no Vx>Vy).
    machine.registers[1] = 5;
    machine.registers[2] = 10;
    machine.SUB(1, 2);
    assert_eq!(machine.registers[1], 251);
    assert_eq!(machine.registers[0xF], 0);
    // SUBN: Vy(10) - Vx(251) wraps to 15, VF=0; then 20-3=17, VF=1.
    machine.SUBN(1, 2);
    assert_eq!(machine.registers[1], 15);
    assert_eq!(machine.registers[0xF], 0);
    machine.registers[1] = 3;
    machine.registers[2] = 20;
    machine.SUBN(1, 2);
    assert_eq!(machine.registers[1], 17);
    assert_eq!(machine.registers[0xF], 1);
    // SHR: 0x03 -> VF=1, 0x01.
    machine.registers[1] = 0x03;
    machine.SHR(1, 0);
    assert_eq!(machine.registers[1], 0x01);
    assert_eq!(machine.registers[0xF], 1);
    // SHL: 0x81 -> VF=1, 0x02.
    machine.registers[1] = 0x81;
    machine.SHL(1, 0);
    assert_eq!(machine.registers[1], 0x02);
    assert_eq!(machine.registers[0xF], 1);
    // OR / AND / XOR.
    machine.registers[1] = 0b1100;
    machine.registers[2] = 0b1010;
    machine.OR(1, 2);
    assert_eq!(machine.registers[1], 0b1110);
    machine.registers[1] = 0b1100;
    machine.AND(1, 2);
    assert_eq!(machine.registers[1], 0b1000);
    machine.registers[1] = 0b1100;
    machine.XOR(1, 2);
    assert_eq!(machine.registers[1], 0b0110);
}

/// The binary-coded decimal store writes the three digits in order.
#[test]
fn bcd_digits() {
    let mut machine = Chip8::init();
    machine.registers[3] = 254;
    machine.index_register = 0x300;
    machine.BCD(3).unwrap();
    assert_eq!(machine.memory[0x300], 2);
    assert_eq!(machine.memory[0x301], 5);
    assert_eq!(machine.memory[0x302], 4);
    // At the very end of memory the store is rejected whole.
    machine.index_register = 0xFFE;
    assert_eq!(
        machine.BCD(3),
        Err(Chip8Error::OutOfBoundsAccess { address: 0x1000 })
    );
}

/// Register block store and load round-trip through memory.
#[test]
fn store_and_read_registers() {
    let mut machine = Chip8::init();
    machine.registers[0] = 11;
    machine.registers[1] = 22;
    machine.registers[2] = 33;
    machine.registers[3] = 99;
    machine.index_register = 0x320;
    machine.STOR(2).unwrap();
    assert_eq!(&machine.memory[0x320..0x323], &[11, 22, 33]);
    assert_eq!(machine.memory[0x323], 0); // V3 was not stored
    machine.registers[0] = 0;
    machine.registers[1] = 0;
    machine.registers[2] = 0;
    machine.READ(2).unwrap();
    assert_eq!(machine.registers[0], 11);
    assert_eq!(machine.registers[1], 22);
    assert_eq!(machine.registers[2], 33);
    assert_eq!(machine.registers[3], 99); // untouched
    // Out-of-range block is rejected.
    machine.index_register = 0xFF1;
    assert_eq!(
        machine.STOR(15),
        Err(Chip8Error::OutOfBoundsAccess { address: 0x1000 })
    );
}

/// The random register load masks the drawn byte: a zero mask always gives
/// zero, a nibble mask leaves only that nibble.
#[test]
fn rand_masks() {
    let mut machine = Chip8::init();
    machine.registers[3] = 0xAA;
    machine.load_rom(&[0xC3, 0x00, 0xC4, 0x0F]).unwrap();
    machine.tick().unwrap();
    assert_eq!(machine.registers[3], 0);
    machine.tick().unwrap();
    assert_eq!(machine.registers[4] & 0xF0, 0);
}

/// Jumps set the program counter exactly, with no advance afterward.
#[test]
fn jumps_and_offset_jump() {
    let mut machine = Chip8::init();
    machine.load_rom(&[0x1A, 0xBC]).unwrap();
    machine.tick().unwrap();
    assert_eq!(machine.program_counter, 0xABC);

    let mut machine = Chip8::init();
    machine.registers[0] = 4;
    machine.load_rom(&[0xB3, 0x00]).unwrap();
    machine.tick().unwrap();
    assert_eq!(machine.program_counter, 0x304);
}

/// Skip instructions advance by four instead of two when their condition
/// holds.
#[test]
fn skips() {
    let mut machine = Chip8::init();
    machine.registers[1] = 7;
    machine.load_rom(&[0x31, 0x07]).unwrap(); // SKE taken
    machine.tick().unwrap();
    assert_eq!(machine.program_counter, 0x204);

    let mut machine = Chip8::init();
    machine.registers[1] = 7;
    machine.load_rom(&[0x31, 0x08]).unwrap(); // SKE not taken
    machine.tick().unwrap();
    assert_eq!(machine.program_counter, 0x202);

    let mut machine = Chip8::init();
    machine.registers[1] = 3;
    machine.registers[2] = 3;
    machine.load_rom(&[0x51, 0x20]).unwrap(); // SKRE taken
    machine.tick().unwrap();
    assert_eq!(machine.program_counter, 0x204);

    let mut machine = Chip8::init();
    machine.keys[4] = true;
    machine.registers[1] = 4;
    machine.load_rom(&[0xE1, 0x9E]).unwrap(); // SKPR taken
    machine.tick().unwrap();
    assert_eq!(machine.program_counter, 0x204);

    let mut machine = Chip8::init();
    machine.registers[1] = 4;
    machine.load_rom(&[0xE1, 0xA1]).unwrap(); // SKUP taken (key up)
    machine.tick().unwrap();
    assert_eq!(machine.program_counter, 0x204);
}

/// Timer transfer instructions and the index instructions take their exact
/// values.
#[test]
fn timers_index_and_glyphs() {
    let mut machine = Chip8::init();
    machine.delay_timer = 42;
    machine.load_rom(&[0xF1, 0x07]).unwrap(); // READ_DELAY
    machine.tick().unwrap();
    assert_eq!(machine.registers[1], 42);

    let mut machine = Chip8::init();
    machine.registers[1] = 9;
    machine.load_rom(&[0xF1, 0x15, 0xF1, 0x18]).unwrap();
    machine.tick().unwrap(); // SET_DELAY
    assert_eq!(machine.delay_timer, 9);
    machine.tick().unwrap(); // SET_SOUND
    assert_eq!(machine.sound_timer, 9);

    let mut machine = Chip8::init();
    machine.load_rom(&[0xA1, 0x23]).unwrap(); // LOAD_INDEX
    machine.tick().unwrap();
    assert_eq!(machine.index_register, 0x123);

    // ADD_INDEX with overflow past 0xFFF wraps and sets VF.
    machine.index_register = 0xFFF;
    machine.registers[1] = 2;
    machine.ADDI(1);
    assert_eq!(machine.index_register, 1);
    assert_eq!(machine.registers[0xF], 1);

    // LOAD_GLYPH points at the five-byte glyph.
    machine.registers[2] = 2;
    machine.LDSPR(2);
    assert_eq!(machine.index_register, 0x50 + 10);
}

/// The formatted memory dump is exactly pretty_hex's rendering of the loaded
/// program bytes.
#[test]
fn format_memory_matches_pretty_hex() {
    let mut machine = Chip8::init();
    machine.load_rom(TEST_ROM_BYTES).unwrap();
    let expected = format!("{:?}", pretty_hex::PrettyHex::hex_dump(&TEST_ROM_BYTES.to_vec()));
    assert_eq!(machine.format_memory(), expected);
    assert!(machine.format_memory().contains("26"));
}

/// A snapshot equals the machine on every field and is independent of it.
#[test]
fn snapshot_is_deep() {
    let mut machine = Chip8::init();
    machine.registers[1] = 9;
    machine.memory[0x400] = 5;
    let snap = machine.snapshot();
    machine.registers[1] = 0;
    machine.memory[0x400] = 0;
    assert_eq!(snap.registers[1], 9);
    assert_eq!(snap.memory[0x400], 5);
    assert_eq!(snap.program_counter, machine.program_counter);
}

/// The debug dump renders every field exactly, in its fixed layout.
#[test]
fn format_debug_exact() {
    let machine = Chip8::init();
    let expected = format!(
        "PC:      0x200\nSP:      0x00\nI:       0x00\nOpcode:  0x00\nCycle #: 0\nRegisters:{}\nStack:    {}\nKeys:     {}\n",
        " 0x00".repeat(16),
        " 0x00".repeat(16),
        " 0".repeat(16)
    );
    assert_eq!(machine.format_debug(), expected);
}

/// The debug dump follows the machine's fields: decimal cycle count, hex
/// registers and stack, key flags.
#[test]
fn format_debug_reflects_state() {
    let mut machine = Chip8::init();
    machine.cycle = 12345;
    machine.registers[0] = 0xAB;
    machine.stack[15] = 0xFFF;
    machine.keys[2] = true;
    let dump = machine.format_debug();
    assert!(dump.contains("Cycle #: 12345\n"));
    assert!(dump.contains("Registers: 0xAB 0x00"));
    assert!(dump.contains(" 0xFFF\nKeys:"));
    assert!(dump.contains("Keys:      0 0 1 0"));
}

//! Per-instruction semantics. Each opcode has a spec-level transition on
//! [`State`] and an executable method on [`Chip8`] proved against it; the
//! dispatch of a whole fetch/decode/execute step is stated here as well.
use vstd::prelude::*;

use crate::chip8::{Chip8, Chip8Error, State};
use crate::opcode::OpCode;
use crate::opcode::spec_decode;

verus! {

// ---------------------------------------------------------------------------
// Spec-level transitions, one per instruction.
// ---------------------------------------------------------------------------
/// CLEAR: every display cell off, frame dirty.
pub open spec fn spec_clr(s: State) -> State {
    State {
        graphics_buffer: Seq::new(2048, |i: int| false),
        has_graphics_update: true,
        ..s
    }
}

/// RETURN: pop the saved address into the program counter.
pub open spec fn spec_rts(s: State) -> State {
    State {
        program_counter: s.stack[s.stack_pointer - 1] as int,
        stack_pointer: s.stack_pointer - 1,
        ..s
    }
}

/// JUMP: the program counter becomes the address immediate.
pub open spec fn spec_jump(s: State, nnn: u16) -> State {
    State { program_counter: nnn as int, ..s }
}

/// CALL: push the current program counter, then jump.
pub open spec fn spec_call(s: State, nnn: u16) -> State {
    State {
        stack: s.stack.update(s.stack_pointer, s.program_counter as u16),
        stack_pointer: s.stack_pointer + 1,
        program_counter: nnn as int,
        ..s
    }
}

/// SKIP_EQ: skip the next instruction when Vx equals the immediate.
pub open spec fn spec_ske(s: State, x: u8, nn: u8) -> State {
    State {
        program_counter: s.program_counter + if s.registers[x as int] == nn {
            2int
        } else {
            0int
        },
        ..s
    }
}

/// SKIP_NEQ: skip the next instruction when Vx differs from the immediate.
pub open spec fn spec_skne(s: State, x: u8, nn: u8) -> State {
    State {
        program_counter: s.program_counter + if s.registers[x as int] != nn {
            2int
        } else {
            0int
        },
        ..s
    }
}

/// SKIP_REQ: skip the next instruction when Vx equals Vy.
pub open spec fn spec_skre(s: State, x: u8, y: u8) -> State {
    State {
        program_counter: s.program_counter + if s.registers[x as int] == s.registers[y as int] {
            2int
        } else {
            0int
        },
        ..s
    }
}

/// LOAD_IMM: Vx becomes the immediate.
pub open spec fn spec_load(s: State, x: u8, nn: u8) -> State {
    State { registers: s.registers.update(x as int, nn), ..s }
}

/// ADD_IMM: Vx becomes Vx plus the immediate, modulo 256; no flag is set.
pub open spec fn spec_add(s: State, x: u8, nn: u8) -> State {
    State {
        registers: s.registers.update(x as int, ((s.registers[x as int] + nn) % 256) as u8),
        ..s
    }
}

/// MOVE: Vx becomes Vy.
pub open spec fn spec_move(s: State, x: u8, y: u8) -> State {
    State { registers: s.registers.update(x as int, s.registers[y as int]), ..s }
}

/// OR: Vx becomes Vx | Vy.
pub open spec fn spec_or(s: State, x: u8, y: u8) -> State {
    State {
        registers: s.registers.update(x as int, s.registers[x as int] | s.registers[y as int]),
        ..s
    }
}

/// AND: Vx becomes Vx & Vy.
pub open spec fn spec_and(s: State, x: u8, y: u8) -> State {
    State {
        registers: s.registers.update(x as int, s.registers[x as int] & s.registers[y as int]),
        ..s
    }
}

/// XOR: Vx becomes Vx ^ Vy.
pub open spec fn spec_xor(s: State, x: u8, y: u8) -> State {
    State {
        registers: s.registers.update(x as int, s.registers[x as int] ^ s.registers[y as int]),
        ..s
    }
}

/// ADD_REG: VF records the carry, then Vx becomes the wrapped sum.
pub open spec fn spec_addr(s: State, x: u8, y: u8) -> State {
    let vx = s.registers[x as int] as int;
    let vy = s.registers[y as int] as int;
    State {
        registers: s.registers.update(15, if vx + vy > 255 {
            1u8
        } else {
            0u8
        }).update(x as int, ((vx + vy) % 256) as u8),
        ..s
    }
}

/// SUB: VF records Vx > Vy, then Vx becomes the wrapped difference Vx - Vy.
pub open spec fn spec_sub(s: State, x: u8, y: u8) -> State {
    let vx = s.registers[x as int] as int;
    let vy = s.registers[y as int] as int;
    State {
        registers: s.registers.update(15, if vx > vy {
            1u8
        } else {
            0u8
        }).update(x as int, (if vx >= vy {
            vx - vy
        } else {
            vx - vy + 256
        }) as u8),
        ..s
    }
}

/// SHR: VF records the bit shifted out, then Vx is shifted right once. The
/// Y operand is unused: this interpreter follows the Vx-only convention.
pub open spec fn spec_shr(s: State, x: u8) -> State {
    let vx = s.registers[x as int];
    State { registers: s.registers.update(15, vx & 1).update(x as int, vx >> 1u8), ..s }
}

/// SUBN: VF records Vy > Vx, then Vx becomes the wrapped difference Vy - Vx.
pub open spec fn spec_subn(s: State, x: u8, y: u8) -> State {
    let vx = s.registers[x as int] as int;
    let vy = s.registers[y as int] as int;
    State {
        registers: s.registers.update(15, if vy > vx {
            1u8
        } else {
            0u8
        }).update(x as int, (if vy >= vx {
            vy - vx
        } else {
            vy - vx + 256
        }) as u8),
        ..s
    }
}

/// SHL: VF records the bit shifted out, then Vx is shifted left once. The
/// Y operand is unused: this interpreter follows the Vx-only convention.
pub open spec fn spec_shl(s: State, x: u8) -> State {
    let vx = s.registers[x as int];
    State {
        registers: s.registers.update(15, (vx & 0x80) >> 7u8).update(x as int, vx << 1u8),
        ..s
    }
}

/// SKIP_RNEQ: skip the next instruction when Vx differs from Vy.
pub open spec fn spec_skrne(s: State, x: u8, y: u8) -> State {
    State {
        program_counter: s.program_counter + if s.registers[x as int] != s.registers[y as int] {
            2int
        } else {
            0int
        },
        ..s
    }
}

/// LOAD_INDEX: the index register becomes the address immediate.
pub open spec fn spec_loadi(s: State, nnn: u16) -> State {
    State { index_register: nnn as int, ..s }
}

/// JUMP_OFFSET: the program counter becomes V0 plus the address immediate.
pub open spec fn spec_jumpi(s: State, nnn: u16) -> State {
    State { program_counter: s.registers[0] + nnn, ..s }
}

/// RAND: Vx becomes a drawn byte masked with the immediate.
pub open spec fn spec_rand(s: State, x: u8, nn: u8, b: u8) -> State {
    State { registers: s.registers.update(x as int, b & nn), ..s }
}

/// Whether one sprite row has its pixel set at a column, counting from the
/// most significant bit.
pub open spec fn sprite_pixel(row: u8, col: int) -> bool {
    row & (0x80u8 >> (col as u8)) != 0
}

/// Whether a draw of `n` sprite rows read from memory at `i`, placed at
/// `(vx, vy)` with wraparound, flips the display cell `p`; limited to the
/// sprite bits strictly before row `rlim`, column `clim`.
pub open spec fn draw_flip_upto(
    mem: Seq<u8>,
    i: int,
    n: int,
    vx: int,
    vy: int,
    p: int,
    rlim: int,
    clim: int,
) -> bool {
    exists|row: int, col: int|
        0 <= row < n && 0 <= col < 8 && (row < rlim || (row == rlim && col < clim)) && (vy + row)
            % 32 == p / 64 && (vx + col) % 64 == p % 64 && #[trigger] sprite_pixel(
            mem[i + row],
            col,
        )
}

/// Whether a whole draw flips the display cell `p`.
pub open spec fn draw_flip(mem: Seq<u8>, i: int, n: int, vx: int, vy: int, p: int) -> bool {
    draw_flip_upto(mem, i, n, vx, vy, p, n, 0)
}

/// Whether any sprite bit strictly before row `rlim`, column `clim` lands on
/// a display cell that is already on.
pub open spec fn draw_hit_upto(
    d: Seq<bool>,
    mem: Seq<u8>,
    i: int,
    n: int,
    vx: int,
    vy: int,
    rlim: int,
    clim: int,
) -> bool {
    exists|p: int|
        0 <= p < 2048 && #[trigger] draw_flip_upto(mem, i, n, vx, vy, p, rlim, clim) && d[p]
}

/// Whether a whole draw lands on any display cell that is already on.
pub open spec fn draw_collision(d: Seq<bool>, mem: Seq<u8>, i: int, n: int, vx: int, vy: int) -> bool {
    draw_hit_upto(d, mem, i, n, vx, vy, n, 0)
}

/// The display after a draw: every flipped cell toggled.
pub open spec fn draw_display(d: Seq<bool>, mem: Seq<u8>, i: int, n: int, vx: int, vy: int) -> Seq<bool> {
    Seq::new(2048, |p: int| d[p] != draw_flip(mem, i, n, vx, vy, p))
}

/// DRAW: the sprite is XOR-composited onto the display, VF records whether
/// any sprite bit landed on a cell that was already on, and the frame is
/// marked dirty whether or not any cell changed.
pub open spec fn spec_draw(s: State, x: u8, y: u8, n: u8) -> State {
    let vx = s.registers[x as int] as int;
    let vy = s.registers[y as int] as int;
    let i = s.index_register;
    State {
        graphics_buffer: draw_display(s.graphics_buffer, s.memory, i, n as int, vx, vy),
        registers: s.registers.update(15, if draw_collision(s.graphics_buffer, s.memory, i, n as int, vx, vy) {
            1u8
        } else {
            0u8
        }),
        has_graphics_update: true,
        ..s
    }
}

/// SKIP_PRESSED: skip the next instruction when the key numbered Vx is down.
pub open spec fn spec_skpr(s: State, x: u8) -> State {
    State {
        program_counter: s.program_counter + if s.keys[s.registers[x as int] as int] {
            2int
        } else {
            0int
        },
        ..s
    }
}

/// SKIP_NOTPRESSED: skip the next instruction when the key numbered Vx is up.
pub open spec fn spec_skup(s: State, x: u8) -> State {
    State {
        program_counter: s.program_counter + if !s.keys[s.registers[x as int] as int] {
            2int
        } else {
            0int
        },
        ..s
    }
}

/// READ_DELAY: Vx becomes the delay timer.
pub open spec fn spec_moved(s: State, x: u8) -> State {
    State { registers: s.registers.update(x as int, s.delay_timer as u8), ..s }
}

/// WAIT_KEY: execution suspends until a key is supplied; the register that
/// will receive the key value is remembered.
pub open spec fn spec_keyd(s: State, x: u8) -> State {
    State { keyd_register: x as int, wait_for_input: true, ..s }
}

/// SET_DELAY: the delay timer becomes Vx.
pub open spec fn spec_loadd(s: State, x: u8) -> State {
    State { delay_timer: s.registers[x as int] as int, ..s }
}

/// SET_SOUND: the sound timer becomes Vx.
pub open spec fn spec_loads(s: State, x: u8) -> State {
    State { sound_timer: s.registers[x as int] as int, ..s }
}

/// ADD_INDEX: VF records overflow past 0xFFF, then the index register
/// becomes the sum modulo 0x1000.
pub open spec fn spec_addi(s: State, x: u8) -> State {
    let sum = s.index_register + s.registers[x as int];
    State {
        registers: s.registers.update(15, if sum > 0xFFF {
            1u8
        } else {
            0u8
        }),
        index_register: sum % 0x1000,
        ..s
    }
}

/// LOAD_GLYPH: the index register points at the five-byte font glyph for the
/// character value in Vx.
pub open spec fn spec_ldspr(s: State, x: u8) -> State {
    State { index_register: 0x50 + s.registers[x as int] * 5, ..s }
}

/// STORE_BCD: the three decimal digits of Vx are written at the index
/// register and the two following cells.
pub open spec fn spec_bcd(s: State, x: u8) -> State {
    let i = s.index_register;
    let vx = s.registers[x as int];
    State {
        memory: s.memory.update(i, (vx / 100) as u8).update(i + 1, ((vx % 100) / 10) as u8).update(
            i + 2,
            (vx % 10) as u8,
        ),
        ..s
    }
}

/// STORE_REGS: V0 through Vx inclusive are written to memory starting at the
/// index register.
pub open spec fn spec_stor(s: State, x: u8) -> State {
    let i = s.index_register;
    State {
        memory: Seq::new(4096, |k: int| if i <= k <= i + x {
            s.registers[k - i]
        } else {
            s.memory[k]
        }),
        ..s
    }
}

/// LOAD_REGS: V0 through Vx inclusive are read from memory starting at the
/// index register.
pub open spec fn spec_read(s: State, x: u8) -> State {
    let i = s.index_register;
    State {
        registers: Seq::new(16, |j: int| if j <= x {
            s.memory[i + j]
        } else {
            s.registers[j]
        }),
        ..s
    }
}

// ---------------------------------------------------------------------------
// One whole dispatch step, at the spec level.
// ---------------------------------------------------------------------------
/// Whether the program counter advances by two after an instruction; the
/// jump and call instructions set it explicitly instead. RETURN does
/// advance: its pop restores the call-site address, and the advance resumes
/// execution just past the call.
pub open spec fn spec_advances(op: OpCode) -> bool {
    match op {
        OpCode::JUMP { .. } => false,
        OpCode::CALL { .. } => false,
        OpCode::JUMPI { .. } => false,
        _ => true,
    }
}

/// The 16-bit program counter two past `pc`, wrapping at the register's
/// width.
pub open spec fn spec_advance_pc(pc: int) -> int {
    if pc + 2 < 0x10000 {
        pc + 2
    } else {
        pc + 2 - 0x10000
    }
}

/// The big-endian instruction word at the program counter.
pub open spec fn spec_fetch(s: State) -> int {
    s.memory[s.program_counter] * 256 + s.memory[s.program_counter + 1]
}

/// Apply one decoded instruction to a state, with `b` the byte drawn for
/// RAND. Errors are exactly the guard failures: stack underflow on RETURN at
/// an empty stack, overflow on CALL at a full one, out-of-range memory and
/// key indices, and the intentionally unsupported SYS family.
pub open spec fn spec_apply(s: State, op: OpCode, b: u8) -> Result<State, Chip8Error> {
    match op {
        OpCode::CLR => Ok(spec_clr(s)),
        OpCode::RTS => if s.stack_pointer == 0 {
            Err(Chip8Error::StackUnderflow)
        } else {
            Ok(spec_rts(s))
        },
        OpCode::SYS { nnn } => Err(
            Chip8Error::UnimplementedOpcode { opcode: nnn, pc: s.program_counter as u16 },
        ),
        OpCode::JUMP { nnn } => Ok(spec_jump(s, nnn)),
        OpCode::CALL { nnn } => if s.stack_pointer >= 16 {
            Err(Chip8Error::StackOverflow)
        } else {
            Ok(spec_call(s, nnn))
        },
        OpCode::SKE { x, nn } => Ok(spec_ske(s, x, nn)),
        OpCode::SKNE { x, nn } => Ok(spec_skne(s, x, nn)),
        OpCode::SKRE { x, y } => Ok(spec_skre(s, x, y)),
        OpCode::LOAD { x, nn } => Ok(spec_load(s, x, nn)),
        OpCode::ADD { x, nn } => Ok(spec_add(s, x, nn)),
        OpCode::MOVE { x, y } => Ok(spec_move(s, x, y)),
        OpCode::OR { x, y } => Ok(spec_or(s, x, y)),
        OpCode::AND { x, y } => Ok(spec_and(s, x, y)),
        OpCode::XOR { x, y } => Ok(spec_xor(s, x, y)),
        OpCode::ADDR { x, y } => Ok(spec_addr(s, x, y)),
        OpCode::SUB { x, y } => Ok(spec_sub(s, x, y)),
        OpCode::SHR { x, y } => Ok(spec_shr(s, x)),
        OpCode::SUBN { x, y } => Ok(spec_subn(s, x, y)),
        OpCode::SHL { x, y } => Ok(spec_shl(s, x)),
        OpCode::SKRNE { x, y } => Ok(spec_skrne(s, x, y)),
        OpCode::LOADI { nnn } => Ok(spec_loadi(s, nnn)),
        OpCode::JUMPI { nnn } => Ok(spec_jumpi(s, nnn)),
        OpCode::RAND { x, nn } => Ok(spec_rand(s, x, nn, b)),
        OpCode::DRAW { x, y, n } => if s.index_register + n > 4096 {
            Err(Chip8Error::OutOfBoundsAccess { address: (s.index_register + n - 1) as u16 })
        } else {
            Ok(spec_draw(s, x, y, n))
        },
        OpCode::SKPR { x } => if s.registers[x as int] >= 16 {
            Err(Chip8Error::OutOfBoundsAccess { address: s.registers[x as int] as u16 })
        } else {
            Ok(spec_skpr(s, x))
        },
        OpCode::SKUP { x } => if s.registers[x as int] >= 16 {
            Err(Chip8Error::OutOfBoundsAccess { address: s.registers[x as int] as u16 })
        } else {
            Ok(spec_skup(s, x))
        },
        OpCode::MOVED { x } => Ok(spec_moved(s, x)),
        OpCode::KEYD { x } => Ok(spec_keyd(s, x)),
        OpCode::LOADD { x } => Ok(spec_loadd(s, x)),
        OpCode::LOADS { x } => Ok(spec_loads(s, x)),
        OpCode::ADDI { x } => Ok(spec_addi(s, x)),
        OpCode::LDSPR { x } => Ok(spec_ldspr(s, x)),
        OpCode::BCD { x } => if s.index_register + 2 > 4095 {
            Err(Chip8Error::OutOfBoundsAccess { address: (s.index_register + 2) as u16 })
        } else {
            Ok(spec_bcd(s, x))
        },
        OpCode::STOR { x } => if s.index_register + x > 4095 {
            Err(Chip8Error::OutOfBoundsAccess { address: (s.index_register + x) as u16 })
        } else {
            Ok(spec_stor(s, x))
        },
        OpCode::READ { x } => if s.index_register + x > 4095 {
            Err(Chip8Error::OutOfBoundsAccess { address: (s.index_register + x) as u16 })
        } else {
            Ok(spec_read(s, x))
        },
    }
}

/// One whole dispatch step: fetch the word at the program counter (failing
/// out of bounds when it does not fit below 4096), clear the frame flag,
/// decode (failing on an unknown pattern), apply the instruction, then
/// advance the program counter by two unless a jump or call set it
/// explicitly (after a RETURN the advance moves just past the restored call
/// site), and record the executed word.
pub open spec fn spec_exec(s: State, b: u8) -> Result<State, Chip8Error> {
    if s.program_counter + 1 >= 4096 {
        Err(Chip8Error::OutOfBoundsAccess { address: s.program_counter as u16 })
    } else {
        let w = spec_fetch(s);
        let s0 = State { has_graphics_update: false, ..s };
        match spec_decode(w as u16) {
            Option::None => Err(
                Chip8Error::UnknownOpcode { opcode: w as u16, pc: s.program_counter as u16 },
            ),
            Option::Some(op) => match spec_apply(s0, op, b) {
                Result::Err(e) => Err(e),
                Result::Ok(s1) => Ok(
                    State {
                        program_counter: if spec_advances(op) {
                            spec_advance_pc(s1.program_counter)
                        } else {
                            s1.program_counter
                        },
                        last_opcode: w,
                        ..s1
                    },
                ),
            },
        }
    }
}

/// The state a failing dispatch step leaves behind: untouched when the fetch
/// itself failed, otherwise only the frame flag has been cleared.
pub open spec fn spec_err_state(s: State) -> State {
    if s.program_counter + 1 >= 4096 {
        s
    } else {
        State { has_graphics_update: false, ..s }
    }
}

/// One tick: inert while waiting for input, otherwise one dispatch step plus
/// the cycle count.
pub open spec fn spec_tick(s: State, b: u8) -> Result<State, Chip8Error> {
    if s.wait_for_input {
        Ok(s)
    } else {
        match spec_exec(s, b) {
            Result::Ok(t) => Ok(State { cycle: t.cycle + 1, ..t }),
            Result::Err(e) => Err(e),
        }
    }
}

// ---------------------------------------------------------------------------
// Lemmas about the draw algorithm.
// ---------------------------------------------------------------------------
/// Two offsets inside one modulus window that land on the same residue are
/// equal.
proof fn lemma_mod_window_unique(base: int, r1: int, r2: int, m: int)
    requires
        0 < m,
        0 <= r1 < m,
        0 <= r2 < m,
        (base + r1) % m == (base + r2) % m,
    ensures
        r1 == r2,
{
    let a = base + r1;
    let b = base + r2;
    vstd::arithmetic::div_mod::lemma_fundamental_div_mod(a, m);
    vstd::arithmetic::div_mod::lemma_fundamental_div_mod(b, m);
    let k = b / m - a / m;
    assert(r2 - r1 == m * k) by (nonlinear_arith)
        requires
            a == m * (a / m) + a % m,
            b == m * (b / m) + b % m,
            a % m == b % m,
            k == b / m - a / m,
            b - a == r2 - r1,
    ;
    if k >= 1 {
        assert(m * k >= m) by (nonlinear_arith)
            requires
                m > 0,
                k >= 1,
        ;
        assert(false);
    }
    if k <= -1 {
        assert(m * k <= -m) by (nonlinear_arith)
            requires
                m > 0,
                k <= -1,
        ;
        assert(false);
    }
    assert(r2 - r1 == m * 0);
}

/// Stepping past a set sprite bit at `(row, col)` flips exactly the one cell
/// `q` it lands on: no earlier bit of the sprite lands there, and every
/// other cell keeps its flip status.
proof fn lemma_draw_step_set(
    mem: Seq<u8>,
    i: int,
    n: int,
    vx: int,
    vy: int,
    row: int,
    col: int,
    q: int,
)
    requires
        0 <= row < n,
        0 <= col < 8,
        n <= 15,
        q == ((vy + row) % 32) * 64 + ((vx + col) % 64),
        sprite_pixel(mem[i + row], col),
    ensures
        0 <= q < 2048,
        q / 64 == (vy + row) % 32,
        q % 64 == (vx + col) % 64,
        !draw_flip_upto(mem, i, n, vx, vy, q, row, col),
        draw_flip_upto(mem, i, n, vx, vy, q, row, col + 1),
        forall|p: int|
            0 <= p < 2048 && p != q ==> draw_flip_upto(mem, i, n, vx, vy, p, row, col + 1)
                == draw_flip_upto(mem, i, n, vx, vy, p, row, col),
{
    let py = (vy + row) % 32;
    let px = (vx + col) % 64;
    assert(0 <= py < 32 && 0 <= px < 64);
    assert(q / 64 == py && q % 64 == px) by (nonlinear_arith)
        requires
            q == py * 64 + px,
            0 <= px < 64,
            0 <= py,
    ;
    assert(0 <= row < n && 0 <= col < 8 && (row < row || (row == row && col < col + 1)) && (vy
        + row) % 32 == q / 64 && (vx + col) % 64 == q % 64 && sprite_pixel(mem[i + row], col));
    assert(draw_flip_upto(mem, i, n, vx, vy, q, row, col + 1));
    assert(!draw_flip_upto(mem, i, n, vx, vy, q, row, col)) by {
        if draw_flip_upto(mem, i, n, vx, vy, q, row, col) {
            let (r2, c2) = choose|r2: int, c2: int|
                0 <= r2 < n && 0 <= c2 < 8 && (r2 < row || (r2 == row && c2 < col)) && (vy + r2)
                    % 32 == q / 64 && (vx + c2) % 64 == q % 64 && #[trigger] sprite_pixel(
                    mem[i + r2],
                    c2,
                );
            lemma_mod_window_unique(vy, r2, row, 32);
            lemma_mod_window_unique(vx, c2, col, 64);
            assert(false);
        }
    }
    assert forall|p: int| 0 <= p < 2048 && p != q implies draw_flip_upto(
        mem,
        i,
        n,
        vx,
        vy,
        p,
        row,
        col + 1,
    ) == draw_flip_upto(mem, i, n, vx, vy, p, row, col) by {
        vstd::arithmetic::div_mod::lemma_fundamental_div_mod(p, 64);
        if draw_flip_upto(mem, i, n, vx, vy, p, row, col) {
            let (r2, c2) = choose|r2: int, c2: int|
                0 <= r2 < n && 0 <= c2 < 8 && (r2 < row || (r2 == row && c2 < col)) && (vy + r2)
                    % 32 == p / 64 && (vx + c2) % 64 == p % 64 && #[trigger] sprite_pixel(
                    mem[i + r2],
                    c2,
                );
            assert(r2 < row || (r2 == row && c2 < col + 1));
            assert(draw_flip_upto(mem, i, n, vx, vy, p, row, col + 1));
        }
        if draw_flip_upto(mem, i, n, vx, vy, p, row, col + 1) {
            let (r2, c2) = choose|r2: int, c2: int|
                0 <= r2 < n && 0 <= c2 < 8 && (r2 < row || (r2 == row && c2 < col + 1)) && (vy
                    + r2) % 32 == p / 64 && (vx + c2) % 64 == p % 64 && #[trigger] sprite_pixel(
                    mem[i + r2],
                    c2,
                );
            if r2 == row && c2 == col {
                assert(p == 64 * (p / 64) + p % 64);
                assert(p == q);
                assert(false);
            } else {
                assert(r2 < row || (r2 == row && c2 < col));
                assert(draw_flip_upto(mem, i, n, vx, vy, p, row, col));
            }
        }
    }
}

/// Stepping past a clear sprite bit flips nothing.
proof fn lemma_draw_step_clear(mem: Seq<u8>, i: int, n: int, vx: int, vy: int, row: int, col: int)
    requires
        0 <= row < n,
        0 <= col < 8,
        !sprite_pixel(mem[i + row], col),
    ensures
        forall|p: int|
            draw_flip_upto(mem, i, n, vx, vy, p, row, col + 1) == draw_flip_upto(
                mem,
                i,
                n,
                vx,
                vy,
                p,
                row,
                col,
            ),
{
    assert forall|p: int|
        draw_flip_upto(mem, i, n, vx, vy, p, row, col + 1) == draw_flip_upto(
            mem,
            i,
            n,
            vx,
            vy,
            p,
            row,
            col,
        ) by {
        if draw_flip_upto(mem, i, n, vx, vy, p, row, col) {
            let (r2, c2) = choose|r2: int, c2: int|
                0 <= r2 < n && 0 <= c2 < 8 && (r2 < row || (r2 == row && c2 < col)) && (vy + r2)
                    % 32 == p / 64 && (vx + c2) % 64 == p % 64 && #[trigger] sprite_pixel(
                    mem[i + r2],
                    c2,
                );
            assert(r2 < row || (r2 == row && c2 < col + 1));
            assert(draw_flip_upto(mem, i, n, vx, vy, p, row, col + 1));
        }
        if draw_flip_upto(mem, i, n, vx, vy, p, row, col + 1) {
            let (r2, c2) = choose|r2: int, c2: int|
                0 <= r2 < n && 0 <= c2 < 8 && (r2 < row || (r2 == row && c2 < col + 1)) && (vy
                    + r2) % 32 == p / 64 && (vx + c2) % 64 == p % 64 && #[trigger] sprite_pixel(
                    mem[i + r2],
                    c2,
                );
            assert(!(r2 == row && c2 == col));
            assert(r2 < row || (r2 == row && c2 < col));
            assert(draw_flip_upto(mem, i, n, vx, vy, p, row, col));
        }
    }
}

/// Finishing a row is the same cut of the sprite as starting the next one.
proof fn lemma_draw_row_advance(mem: Seq<u8>, i: int, n: int, vx: int, vy: int, row: int)
    ensures
        forall|p: int|
            draw_flip_upto(mem, i, n, vx, vy, p, row, 8) == draw_flip_upto(
                mem,
                i,
                n,
                vx,
                vy,
                p,
                row + 1,
                0,
            ),
{
    assert forall|p: int|
        draw_flip_upto(mem, i, n, vx, vy, p, row, 8) == draw_flip_upto(
            mem,
            i,
            n,
            vx,
            vy,
            p,
            row + 1,
            0,
        ) by {
        if draw_flip_upto(mem, i, n, vx, vy, p, row, 8) {
            let (r2, c2) = choose|r2: int, c2: int|
                0 <= r2 < n && 0 <= c2 < 8 && (r2 < row || (r2 == row && c2 < 8)) && (vy + r2) % 32
                    == p / 64 && (vx + c2) % 64 == p % 64 && #[trigger] sprite_pixel(
                    mem[i + r2],
                    c2,
                );
            assert(r2 < row + 1);
            assert(draw_flip_upto(mem, i, n, vx, vy, p, row + 1, 0));
        }
        if draw_flip_upto(mem, i, n, vx, vy, p, row + 1, 0) {
            let (r2, c2) = choose|r2: int, c2: int|
                0 <= r2 < n && 0 <= c2 < 8 && (r2 < row + 1 || (r2 == row + 1 && c2 < 0)) && (vy
                    + r2) % 32 == p / 64 && (vx + c2) % 64 == p % 64 && #[trigger] sprite_pixel(
                    mem[i + r2],
                    c2,
                );
            assert(r2 < row || (r2 == row && c2 < 8));
            assert(draw_flip_upto(mem, i, n, vx, vy, p, row, 8));
        }
    }
}

/// Two cuts of the sprite with the same flips hit the same already-set
/// cells.
proof fn lemma_hit_ptwise(
    d: Seq<bool>,
    mem: Seq<u8>,
    i: int,
    n: int,
    vx: int,
    vy: int,
    r1: int,
    c1: int,
    r2: int,
    c2: int,
)
    requires
        forall|p: int|
            0 <= p < 2048 ==> draw_flip_upto(mem, i, n, vx, vy, p, r1, c1) == draw_flip_upto(
                mem,
                i,
                n,
                vx,
                vy,
                p,
                r2,
                c2,
            ),
    ensures
        draw_hit_upto(d, mem, i, n, vx, vy, r1, c1) == draw_hit_upto(d, mem, i, n, vx, vy, r2, c2),
{
    if draw_hit_upto(d, mem, i, n, vx, vy, r1, c1) {
        let p0 = choose|p0: int|
            0 <= p0 < 2048 && #[trigger] draw_flip_upto(mem, i, n, vx, vy, p0, r1, c1) && d[p0];
        assert(draw_flip_upto(mem, i, n, vx, vy, p0, r2, c2));
        assert(draw_hit_upto(d, mem, i, n, vx, vy, r2, c2));
    }
    if draw_hit_upto(d, mem, i, n, vx, vy, r2, c2) {
        let p0 = choose|p0: int|
            0 <= p0 < 2048 && #[trigger] draw_flip_upto(mem, i, n, vx, vy, p0, r2, c2) && d[p0];
        assert(draw_flip_upto(mem, i, n, vx, vy, p0, r1, c1));
        assert(draw_hit_upto(d, mem, i, n, vx, vy, r1, c1));
    }
}

// ---------------------------------------------------------------------------
// Executable instruction methods, each proved against its spec transition.
// ---------------------------------------------------------------------------
impl Chip8 {
    /// Clear the graphics buffer and mark the frame dirty.
    pub fn CLR(&mut self)
        requires
            old(self).wf(),
        ensures
            final(self).wf(),
            final(self)@ == spec_clr(old(self)@),
    {
        let mut cleared: Vec<bool> = Vec::new();
        while cleared.len() < 2048
            invariant
                cleared@.len() <= 2048,
                forall|i: int| 0 <= i < cleared@.len() ==> !cleared@[i],
            decreases 2048 - cleared@.len(),
        {
            cleared.push(false);
        }
        self.graphics_buffer = cleared;
        self.has_graphics_update = true;
        proof {
            assert(self@.graphics_buffer =~= spec_clr(old(self)@).graphics_buffer);
        }
    }

    /// Return from subroutine; fails when nothing is on the stack.
    pub fn RTS(&mut self) -> (r: Result<(), Chip8Error>)
        requires
            old(self).wf(),
        ensures
            final(self).wf(),
            old(self)@.stack_pointer == 0 ==> r == Err::<(), Chip8Error>(
                Chip8Error::StackUnderflow,
            ) && final(self)@ == old(self)@,
            old(self)@.stack_pointer > 0 ==> r == Ok::<(), Chip8Error>(()) && final(self)@
                == spec_rts(old(self)@),
    {
        if self.stack_pointer == 0 {
            return Err(Chip8Error::StackUnderflow);
        }
        self.stack_pointer = self.stack_pointer - 1;
        self.program_counter = self.stack[self.stack_pointer];
        Ok(())
    }

    /// Jump to a machine code routine: recognized but intentionally
    /// unsupported on this interpreter, so it always fails.
    pub fn SYS(&mut self, nnn: u16) -> (r: Result<(), Chip8Error>)
        requires
            old(self).wf(),
        ensures
            final(self).wf(),
            final(self)@ == old(self)@,
            r == Err::<(), Chip8Error>(
                Chip8Error::UnimplementedOpcode {
                    opcode: nnn,
                    pc: old(self)@.program_counter as u16,
                },
            ),
    {
        Err(Chip8Error::UnimplementedOpcode { opcode: nnn, pc: self.program_counter })
    }

    /// Jump the program counter to the address immediate.
    pub fn JUMP(&mut self, nnn: u16)
        requires
            old(self).wf(),
            nnn < 0x1000,
        ensures
            final(self).wf(),
            final(self)@ == spec_jump(old(self)@, nnn),
    {
        self.program_counter = nnn;
    }

    /// Call the subroutine at the address immediate, keeping the current
    /// program counter on the stack; fails when the stack is full.
    pub fn CALL(&mut self, nnn: u16) -> (r: Result<(), Chip8Error>)
        requires
            old(self).wf(),
            nnn < 0x1000,
        ensures
            final(self).wf(),
            old(self)@.stack_pointer >= 16 ==> r == Err::<(), Chip8Error>(
                Chip8Error::StackOverflow,
            ) && final(self)@ == old(self)@,
            old(self)@.stack_pointer < 16 ==> r == Ok::<(), Chip8Error>(()) && final(self)@
                == spec_call(old(self)@, nnn),
    {
        if self.stack_pointer >= 16 {
            return Err(Chip8Error::StackOverflow);
        }
        self.stack.set(self.stack_pointer, self.program_counter);
        self.stack_pointer = self.stack_pointer + 1;
        self.program_counter = nnn;
        Ok(())
    }

    /// Skip the next instruction when Vx equals the immediate.
    pub fn SKE(&mut self, x: u8, nn: u8)
        requires
            old(self).wf(),
            x < 16,
            old(self)@.program_counter + 2 < 0x10000,
        ensures
            final(self).wf(),
            final(self)@ == spec_ske(old(self)@, x, nn),
    {
        if self.registers[x as usize] == nn {
            self.program_counter = self.program_counter + 2;
        }
    }

    /// Skip the next instruction when Vx differs from the immediate.
    pub fn SKNE(&mut self, x: u8, nn: u8)
        requires
            old(self).wf(),
            x < 16,
            old(self)@.program_counter + 2 < 0x10000,
        ensures
            final(self).wf(),
            final(self)@ == spec_skne(old(self)@, x, nn),
    {
        if self.registers[x as usize] != nn {
            self.program_counter = self.program_counter + 2;
        }
    }

    /// Skip the next instruction when Vx equals Vy.
    pub fn SKRE(&mut self, x: u8, y: u8)
        requires
            old(self).wf(),
            x < 16,
            y < 16,
            old(self)@.program_counter + 2 < 0x10000,
        ensures
            final(self).wf(),
            final(self)@ == spec_skre(old(self)@, x, y),
    {
        if self.registers[x as usize] == self.registers[y as usize] {
            self.program_counter = self.program_counter + 2;
        }
    }

    /// Set register Vx to the immediate.
    pub fn LOAD(&mut self, x: u8, nn: u8)
        requires
            old(self).wf(),
            x < 16,
        ensures
            final(self).wf(),
            final(self)@ == spec_load(old(self)@, x, nn),
    {
        self.registers.set(x as usize, nn);
    }

    /// Add the immediate to Vx modulo 256; the carry flag is not changed.
    pub fn ADD(&mut self, x: u8, nn: u8)
        requires
            old(self).wf(),
            x < 16,
        ensures
            final(self).wf(),
            final(self)@ == spec_add(old(self)@, x, nn),
    {
        let vx = self.registers[x as usize];
        self.registers.set(x as usize, ((vx as u16 + nn as u16) % 256) as u8);
    }

    /// Write Vy to Vx.
    pub fn MOVE(&mut self, x: u8, y: u8)
        requires
            old(self).wf(),
            x < 16,
            y < 16,
        ensures
            final(self).wf(),
            final(self)@ == spec_move(old(self)@, x, y),
    {
        let vy = self.registers[y as usize];
        self.registers.set(x as usize, vy);
    }

    /// Vx = Vx | Vy.
    pub fn OR(&mut self, x: u8, y: u8)
        requires
            old(self).wf(),
            x < 16,
            y < 16,
        ensures
            final(self).wf(),
            final(self)@ == spec_or(old(self)@, x, y),
    {
        let vx = self.registers[x as usize];
        let vy = self.registers[y as usize];
        self.registers.set(x as usize, vx | vy);
    }

    /// Vx = Vx & Vy.
    pub fn AND(&mut self, x: u8, y: u8)
        requires
            old(self).wf(),
            x < 16,
            y < 16,
        ensures
            final(self).wf(),
            final(self)@ == spec_and(old(self)@, x, y),
    {
        let vx = self.registers[x as usize];
        let vy = self.registers[y as usize];
        self.registers.set(x as usize, vx & vy);
    }

    /// Vx = Vx ^ Vy.
    pub fn XOR(&mut self, x: u8, y: u8)
        requires
            old(self).wf(),
            x < 16,
            y < 16,
        ensures
            final(self).wf(),
            final(self)@ == spec_xor(old(self)@, x, y),
    {
        let vx = self.registers[x as usize];
        let vy = self.registers[y as usize];
        self.registers.set(x as usize, vx ^ vy);
    }

    /// Add Vy to Vx; VF records the carry first, then Vx takes the wrapped
    /// sum.
    pub fn ADDR(&mut self, x: u8, y: u8)
        requires
            old(self).wf(),
            x < 16,
            y < 16,
        ensures
            final(self).wf(),
            final(self)@ == spec_addr(old(self)@, x, y),
    {
        let vx = self.registers[x as usize];
        let vy = self.registers[y as usize];
        let sum: u16 = vx as u16 + vy as u16;
        self.registers.set(15, if sum > 0xFF { 1 } else { 0 });
        self.registers.set(x as usize, (sum % 256) as u8);
    }

    /// Subtract Vy from Vx; VF records Vx > Vy first, then Vx takes the
    /// wrapped difference.
    pub fn SUB(&mut self, x: u8, y: u8)
        requires
            old(self).wf(),
            x < 16,
            y < 16,
        ensures
            final(self).wf(),
            final(self)@ == spec_sub(old(self)@, x, y),
    {
        let vx = self.registers[x as usize];
        let vy = self.registers[y as usize];
        self.registers.set(15, if vx > vy { 1 } else { 0 });
        let diff: u8 = if vx >= vy {
            vx - vy
        } else {
            ((vx as u16 + 256) - vy as u16) as u8
        };
        self.registers.set(x as usize, diff);
    }

    /// Store the least significant bit of Vx in VF, then shift Vx right
    /// once. The Y operand is unused: the Vx-only convention.
    pub fn SHR(&mut self, x: u8, _y: u8)
        requires
            old(self).wf(),
            x < 16,
        ensures
            final(self).wf(),
            final(self)@ == spec_shr(old(self)@, x),
    {
        let vx = self.registers[x as usize];
        self.registers.set(15, vx & 1);
        self.registers.set(x as usize, vx >> 1u8);
    }

    /// Subtract Vx from Vy into Vx; VF records Vy > Vx first, then Vx takes
    /// the wrapped difference.
    pub fn SUBN(&mut self, x: u8, y: u8)
        requires
            old(self).wf(),
            x < 16,
            y < 16,
        ensures
            final(self).wf(),
            final(self)@ == spec_subn(old(self)@, x, y),
    {
        let vx = self.registers[x as usize];
        let vy = self.registers[y as usize];
        self.registers.set(15, if vy > vx { 1 } else { 0 });
        let diff: u8 = if vy >= vx {
            vy - vx
        } else {
            ((vy as u16 + 256) - vx as u16) as u8
        };
        self.registers.set(x as usize, diff);
    }

    /// Store the most significant bit of Vx in VF, then shift Vx left once.
    /// The Y operand is unused: the Vx-only convention.
    pub fn SHL(&mut self, x: u8, _y: u8)
        requires
            old(self).wf(),
            x < 16,
        ensures
            final(self).wf(),
            final(self)@ == spec_shl(old(self)@, x),
    {
        let vx = self.registers[x as usize];
        self.registers.set(15, (vx & 0x80) >> 7u8);
        self.registers.set(x as usize, vx << 1u8);
    }

    /// Skip the next instruction when Vx differs from Vy.
    pub fn SKRNE(&mut self, x: u8, y: u8)
        requires
            old(self).wf(),
            x < 16,
            y < 16,
            old(self)@.program_counter + 2 < 0x10000,
        ensures
            final(self).wf(),
            final(self)@ == spec_skrne(old(self)@, x, y),
    {
        if self.registers[x as usize] != self.registers[y as usize] {
            self.program_counter = self.program_counter + 2;
        }
    }

    /// Set the index register to the address immediate.
    pub fn LOADI(&mut self, nnn: u16)
        requires
            old(self).wf(),
            nnn < 0x1000,
        ensures
            final(self).wf(),
            final(self)@ == spec_loadi(old(self)@, nnn),
    {
        self.index_register = nnn;
    }

    /// Jump the program counter to V0 plus the address immediate.
    pub fn JUMPI(&mut self, nnn: u16)
        requires
            old(self).wf(),
            nnn < 0x1000,
        ensures
            final(self).wf(),
            final(self)@ == spec_jumpi(old(self)@, nnn),
    {
        self.program_counter = self.registers[0] as u16 + nnn;
    }

    /// Set Vx to a drawn byte masked with the immediate. The byte is drawn
    /// by the caller; whatever its value, only bits of the mask survive.
    pub fn RAND(&mut self, x: u8, nn: u8, drawn: u8)
        requires
            old(self).wf(),
            x < 16,
        ensures
            final(self).wf(),
            final(self)@ == spec_rand(old(self)@, x, nn, drawn),
    {
        self.registers.set(x as usize, drawn & nn);
    }

    /// Draw an `n`-row sprite read from memory at the index register, at
    /// screen position (Vx, Vy) with wraparound, XOR-compositing each set
    /// sprite bit; VF records whether any bit landed on a cell already on,
    /// and the frame is marked dirty. Fails when the sprite rows do not all
    /// lie below 4096.
    pub fn DRAW(&mut self, x: u8, y: u8, n: u8) -> (r: Result<(), Chip8Error>)
        requires
            old(self).wf(),
            x < 16,
            y < 16,
            n < 16,
        ensures
            final(self).wf(),
            old(self)@.index_register + n > 4096 ==> r == Err::<(), Chip8Error>(
                Chip8Error::OutOfBoundsAccess {
                    address: (old(self)@.index_register + n - 1) as u16,
                },
            ) && final(self)@ == old(self)@,
            old(self)@.index_register + n <= 4096 ==> r == Ok::<(), Chip8Error>(()) && final(self)@ == spec_draw(old(self)@, x, y, n),
    {
        if n as u16 > 4096 - self.index_register {
            return Err(
                Chip8Error::OutOfBoundsAccess { address: self.index_register + n as u16 - 1 },
            );
        }
        let i = self.index_register as usize;
        let n_rows = n as usize;
        let vx = self.registers[x as usize] as usize;
        let vy = self.registers[y as usize] as usize;
        let ghost mem = self@.memory;
        let ghost d0 = self@.graphics_buffer;
        let mut collision = false;
        let mut row: usize = 0;
        proof {
            assert(!draw_hit_upto(d0, mem, i as int, n as int, vx as int, vy as int, 0, 0)) by {
                if draw_hit_upto(d0, mem, i as int, n as int, vx as int, vy as int, 0, 0) {
                    let p0 = choose|p0: int|
                        0 <= p0 < 2048 && #[trigger] draw_flip_upto(
                            mem,
                            i as int,
                            n as int,
                            vx as int,
                            vy as int,
                            p0,
                            0,
                            0,
                        ) && d0[p0];
                    assert(false);
                }
            }
        }
        while row < n_rows
            invariant
                old(self).wf(),
                row <= n_rows,
                n_rows == n as int,
                n < 16,
                x < 16,
                y < 16,
                i == old(self)@.index_register,
                i + n_rows <= 4096,
                vx == old(self)@.registers[x as int],
                vy == old(self)@.registers[y as int],
                mem == old(self)@.memory,
                d0 == old(self)@.graphics_buffer,
                self@ == (State { graphics_buffer: self@.graphics_buffer, ..old(self)@ }),
                self@.graphics_buffer.len() == 2048,
                forall|p: int|
                    0 <= p < 2048 ==> self@.graphics_buffer[p] == (d0[p] != draw_flip_upto(
                        mem,
                        i as int,
                        n as int,
                        vx as int,
                        vy as int,
                        p,
                        row as int,
                        0,
                    )),
                collision == draw_hit_upto(
                    d0,
                    mem,
                    i as int,
                    n as int,
                    vx as int,
                    vy as int,
                    row as int,
                    0,
                ),
            decreases n_rows - row,
        {
            let pixels = self.memory[i + row];
            let mut col: u8 = 0;
            while col < 8
                invariant
                    old(self).wf(),
                    row < n_rows,
                    col <= 8,
                    n_rows == n as int,
                    n < 16,
                    x < 16,
                    y < 16,
                    i == old(self)@.index_register,
                    i + n_rows <= 4096,
                    vx == old(self)@.registers[x as int],
                    vy == old(self)@.registers[y as int],
                    mem == old(self)@.memory,
                    d0 == old(self)@.graphics_buffer,
                    pixels == mem[i + row],
                    self@ == (State { graphics_buffer: self@.graphics_buffer, ..old(self)@ }),
                    self@.graphics_buffer.len() == 2048,
                    forall|p: int|
                        0 <= p < 2048 ==> self@.graphics_buffer[p] == (d0[p] != draw_flip_upto(
                            mem,
                            i as int,
                            n as int,
                            vx as int,
                            vy as int,
                            p,
                            row as int,
                            col as int,
                        )),
                    collision == draw_hit_upto(
                        d0,
                        mem,
                        i as int,
                        n as int,
                        vx as int,
                        vy as int,
                        row as int,
                        col as int,
                    ),
                decreases 8 - col,
            {
                if pixels & (0x80u8 >> col) > 0 {
                    let px = (vx + col as usize) % 64;
                    let py = (vy + row) % 32;
                    let idx = py * 64 + px;
                    proof {
                        assert(sprite_pixel(mem[i + row], col as int));
                        lemma_draw_step_set(
                            mem,
                            i as int,
                            n as int,
                            vx as int,
                            vy as int,
                            row as int,
                            col as int,
                            idx as int,
                        );
                    }
                    let current_pixel = self.graphics_buffer[idx];
                    if current_pixel {
                        collision = true;
                    }
                    self.graphics_buffer.set(idx, !current_pixel);
                    proof {
                        let gi = i as int;
                        let gn = n as int;
                        let gvx = vx as int;
                        let gvy = vy as int;
                        let gr = row as int;
                        let gc = col as int;
                        assert(current_pixel == d0[idx as int]);
                        assert forall|p: int| 0 <= p < 2048 implies self@.graphics_buffer[p] == (
                        d0[p] != draw_flip_upto(mem, gi, gn, gvx, gvy, p, gr, gc + 1)) by {
                            if p == idx as int {
                                assert(draw_flip_upto(mem, gi, gn, gvx, gvy, p, gr, gc + 1));
                            } else {
                                assert(draw_flip_upto(mem, gi, gn, gvx, gvy, p, gr, gc + 1)
                                    == draw_flip_upto(mem, gi, gn, gvx, gvy, p, gr, gc));
                            }
                        }
                        assert(collision == draw_hit_upto(d0, mem, gi, gn, gvx, gvy, gr, gc + 1))
                            by {
                            if draw_hit_upto(d0, mem, gi, gn, gvx, gvy, gr, gc + 1) {
                                let p0 = choose|p0: int|
                                    0 <= p0 < 2048 && #[trigger] draw_flip_upto(
                                        mem,
                                        gi,
                                        gn,
                                        gvx,
                                        gvy,
                                        p0,
                                        gr,
                                        gc + 1,
                                    ) && d0[p0];
                                if p0 != idx as int {
                                    assert(draw_flip_upto(mem, gi, gn, gvx, gvy, p0, gr, gc));
                                    assert(draw_hit_upto(d0, mem, gi, gn, gvx, gvy, gr, gc));
                                }
                            }
                            if draw_hit_upto(d0, mem, gi, gn, gvx, gvy, gr, gc) {
                                let p0 = choose|p0: int|
                                    0 <= p0 < 2048 && #[trigger] draw_flip_upto(
                                        mem,
                                        gi,
                                        gn,
                                        gvx,
                                        gvy,
                                        p0,
                                        gr,
                                        gc,
                                    ) && d0[p0];
                                assert(p0 != idx as int);
                                assert(draw_flip_upto(mem, gi, gn, gvx, gvy, p0, gr, gc + 1));
                                assert(draw_hit_upto(d0, mem, gi, gn, gvx, gvy, gr, gc + 1));
                            }
                            if d0[idx as int] {
                                assert(draw_flip_upto(mem, gi, gn, gvx, gvy, idx as int, gr, gc
                                    + 1));
                                assert(draw_hit_upto(d0, mem, gi, gn, gvx, gvy, gr, gc + 1));
                            }
                        }
                    }
                } else {
                    proof {
                        assert(!sprite_pixel(mem[i + row], col as int));
                        lemma_draw_step_clear(
                            mem,
                            i as int,
                            n as int,
                            vx as int,
                            vy as int,
                            row as int,
                            col as int,
                        );
                        lemma_hit_ptwise(
                            d0,
                            mem,
                            i as int,
                            n as int,
                            vx as int,
                            vy as int,
                            row as int,
                            col as int + 1,
                            row as int,
                            col as int,
                        );
                    }
                }
                col = col + 1;
            }
            proof {
                lemma_draw_row_advance(
                    mem,
                    i as int,
                    n as int,
                    vx as int,
                    vy as int,
                    row as int,
                );
                lemma_hit_ptwise(
                    d0,
                    mem,
                    i as int,
                    n as int,
                    vx as int,
                    vy as int,
                    row as int,
                    8,
                    row as int + 1,
                    0,
                );
            }
            row = row + 1;
        }
        self.registers.set(15, if collision { 1 } else { 0 });
        self.has_graphics_update = true;
        proof {
            assert(self@.graphics_buffer =~= spec_draw(old(self)@, x, y, n).graphics_buffer);
        }
        Ok(())
    }

    /// Skip the next instruction when the key numbered Vx is pressed; a
    /// value of Vx beyond the sixteen keys is out of bounds.
    pub fn SKPR(&mut self, x: u8) -> (r: Result<(), Chip8Error>)
        requires
            old(self).wf(),
            x < 16,
            old(self)@.program_counter + 2 < 0x10000,
        ensures
            final(self).wf(),
            old(self)@.registers[x as int] >= 16 ==> r == Err::<(), Chip8Error>(
                Chip8Error::OutOfBoundsAccess { address: old(self)@.registers[x as int] as u16 },
            ) && final(self)@ == old(self)@,
            old(self)@.registers[x as int] < 16 ==> r == Ok::<(), Chip8Error>(()) && final(self)@
                == spec_skpr(old(self)@, x),
    {
        let vx = self.registers[x as usize];
        if vx >= 16 {
            return Err(Chip8Error::OutOfBoundsAccess { address: vx as u16 });
        }
        if self.keys[vx as usize] {
            self.program_counter = self.program_counter + 2;
        }
        Ok(())
    }

    /// Skip the next instruction when the key numbered Vx is not pressed; a
    /// value of Vx beyond the sixteen keys is out of bounds.
    pub fn SKUP(&mut self, x: u8) -> (r: Result<(), Chip8Error>)
        requires
            old(self).wf(),
            x < 16,
            old(self)@.program_counter + 2 < 0x10000,
        ensures
            final(self).wf(),
            old(self)@.registers[x as int] >= 16 ==> r == Err::<(), Chip8Error>(
                Chip8Error::OutOfBoundsAccess { address: old(self)@.registers[x as int] as u16 },
            ) && final(self)@ == old(self)@,
            old(self)@.registers[x as int] < 16 ==> r == Ok::<(), Chip8Error>(()) && final(self)@
                == spec_skup(old(self)@, x),
    {
        let vx = self.registers[x as usize];
        if vx >= 16 {
            return Err(Chip8Error::OutOfBoundsAccess { address: vx as u16 });
        }
        if !self.keys[vx as usize] {
            self.program_counter = self.program_counter + 2;
        }
        Ok(())
    }

    /// Load the delay timer into Vx.
    pub fn MOVED(&mut self, x: u8)
        requires
            old(self).wf(),
            x < 16,
        ensures
            final(self).wf(),
            final(self)@ == spec_moved(old(self)@, x),
    {
        let t = self.delay_timer;
        self.registers.set(x as usize, t);
    }

    /// Suspend execution until the next key press, which will be stored in
    /// register Vx.
    pub fn KEYD(&mut self, x: u8)
        requires
            old(self).wf(),
            x < 16,
        ensures
            final(self).wf(),
            final(self)@ == spec_keyd(old(self)@, x),
    {
        self.keyd_register = x;
        self.wait_for_input = true;
    }

    /// Set the delay timer to Vx.
    pub fn LOADD(&mut self, x: u8)
        requires
            old(self).wf(),
            x < 16,
        ensures
            final(self).wf(),
            final(self)@ == spec_loadd(old(self)@, x),
    {
        self.delay_timer = self.registers[x as usize];
    }

    /// Set the sound timer to Vx.
    pub fn LOADS(&mut self, x: u8)
        requires
            old(self).wf(),
            x < 16,
        ensures
            final(self).wf(),
            final(self)@ == spec_loads(old(self)@, x),
    {
        self.sound_timer = self.registers[x as usize];
    }

    /// Add Vx to the index register modulo 0x1000; VF records the overflow.
    pub fn ADDI(&mut self, x: u8)
        requires
            old(self).wf(),
            x < 16,
        ensures
            final(self).wf(),
            final(self)@ == spec_addi(old(self)@, x),
    {
        let vx = self.registers[x as usize];
        let sum: u16 = self.index_register + vx as u16;
        self.registers.set(15, if sum > 0xFFF { 1 } else { 0 });
        self.index_register = sum % 0x1000;
    }

    /// Point the index register at the font glyph for the character in Vx;
    /// each glyph is five bytes.
    pub fn LDSPR(&mut self, x: u8)
        requires
            old(self).wf(),
            x < 16,
        ensures
            final(self).wf(),
            final(self)@ == spec_ldspr(old(self)@, x),
    {
        let character = self.registers[x as usize];
        self.index_register = crate::chip8::ADDRESS_FONT + (character as u16) * 5;
    }

    /// Store the three decimal digits of Vx at the index register and the
    /// two following cells; fails when they do not all fit below 4096.
    pub fn BCD(&mut self, x: u8) -> (r: Result<(), Chip8Error>)
        requires
            old(self).wf(),
            x < 16,
        ensures
            final(self).wf(),
            old(self)@.index_register + 2 > 4095 ==> r == Err::<(), Chip8Error>(
                Chip8Error::OutOfBoundsAccess {
                    address: (old(self)@.index_register + 2) as u16,
                },
            ) && final(self)@ == old(self)@,
            old(self)@.index_register + 2 <= 4095 ==> r == Ok::<(), Chip8Error>(()) && final(self)@ == spec_bcd(old(self)@, x),
    {
        if self.index_register > 4093 {
            return Err(Chip8Error::OutOfBoundsAccess { address: self.index_register + 2 });
        }
        let i = self.index_register as usize;
        let vx = self.registers[x as usize];
        self.memory.set(i, vx / 100);
        self.memory.set(i + 1, (vx % 100) / 10);
        self.memory.set(i + 2, vx % 10);
        Ok(())
    }

    /// Store registers V0 through Vx to memory starting at the index
    /// register; fails when they do not all fit below 4096.
    pub fn STOR(&mut self, x: u8) -> (r: Result<(), Chip8Error>)
        requires
            old(self).wf(),
            x < 16,
        ensures
            final(self).wf(),
            old(self)@.index_register + x > 4095 ==> r == Err::<(), Chip8Error>(
                Chip8Error::OutOfBoundsAccess {
                    address: (old(self)@.index_register + x) as u16,
                },
            ) && final(self)@ == old(self)@,
            old(self)@.index_register + x <= 4095 ==> r == Ok::<(), Chip8Error>(()) && final(self)@ == spec_stor(old(self)@, x),
    {
        if self.index_register + x as u16 > 4095 {
            return Err(Chip8Error::OutOfBoundsAccess { address: self.index_register + x as u16 });
        }
        let i = self.index_register as usize;
        let mut k: usize = 0;
        while k <= x as usize
            invariant
                old(self).wf(),
                x < 16,
                k <= x as int + 1,
                i == old(self)@.index_register,
                i + x < 4096,
                self@ == (State { memory: self@.memory, ..old(self)@ }),
                self@.memory.len() == 4096,
                forall|m: int|
                    0 <= m < 4096 ==> self@.memory[m] == (if i <= m < i + k {
                        old(self)@.registers[m - i]
                    } else {
                        old(self)@.memory[m]
                    }),
            decreases x as int + 1 - k,
        {
            let v = self.registers[k];
            self.memory.set(i + k, v);
            k = k + 1;
        }
        proof {
            assert(self@.memory =~= spec_stor(old(self)@, x).memory);
        }
        Ok(())
    }

    /// Populate registers V0 through Vx from memory starting at the index
    /// register; fails when the source does not all fit below 4096.
    pub fn READ(&mut self, x: u8) -> (r: Result<(), Chip8Error>)
        requires
            old(self).wf(),
            x < 16,
        ensures
            final(self).wf(),
            old(self)@.index_register + x > 4095 ==> r == Err::<(), Chip8Error>(
                Chip8Error::OutOfBoundsAccess {
                    address: (old(self)@.index_register + x) as u16,
                },
            ) && final(self)@ == old(self)@,
            old(self)@.index_register + x <= 4095 ==> r == Ok::<(), Chip8Error>(()) && final(self)@ == spec_read(old(self)@, x),
    {
        if self.index_register + x as u16 > 4095 {
            return Err(Chip8Error::OutOfBoundsAccess { address: self.index_register + x as u16 });
        }
        let i = self.index_register as usize;
        let mut k: usize = 0;
        while k <= x as usize
            invariant
                old(self).wf(),
                x < 16,
                k <= x as int + 1,
                i == old(self)@.index_register,
                i + x < 4096,
                self@ == (State { registers: self@.registers, ..old(self)@ }),
                self@.registers.len() == 16,
                forall|j: int|
                    0 <= j < 16 ==> self@.registers[j] == (if 0 <= j < k {
                        old(self)@.memory[i + j]
                    } else {
                        old(self)@.registers[j]
                    }),
            decreases x as int + 1 - k,
        {
            let v = self.memory[i + k];
            self.registers.set(k, v);
            k = k + 1;
        }
        proof {
            assert(self@.registers =~= spec_read(old(self)@, x).registers);
        }
        Ok(())
    }
}

/// How an executed dispatch step relates a machine's old and new views to
/// its result, for the drawn byte `b`.
pub open spec fn exec_matches(pre: State, post: State, r: Result<(), Chip8Error>, b: u8) -> bool {
    match r {
        Result::Ok(()) => spec_exec(pre, b) == Ok::<State, Chip8Error>(post),
        Result::Err(e) => spec_exec(pre, b) == Err::<State, Chip8Error>(e) && post == spec_err_state(pre),
    }
}

/// How a tick relates a machine's old and new views to its result, for the
/// drawn byte `b`.
pub open spec fn tick_matches(pre: State, post: State, r: Result<(), Chip8Error>, b: u8) -> bool {
    match r {
        Result::Ok(()) => spec_tick(pre, b) == Ok::<State, Chip8Error>(post),
        Result::Err(e) => spec_tick(pre, b) == Err::<State, Chip8Error>(e) && post == spec_err_state(pre),
    }
}

} // verus!

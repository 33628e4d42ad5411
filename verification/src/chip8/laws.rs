//! General laws of the machine, proved over the spec-level semantics in
//! [`crate::chip8::opcodes`].
use vstd::prelude::*;

use crate::chip8::opcodes::{
    draw_display, spec_fetch, spec_tick,
};
use crate::chip8::{Chip8Error, State};
use crate::opcode::{spec_decode, sym_a, sym_n, sym_nnn, sym_x, sym_y, OpCode};

verus! {

/// While the machine awaits a key, a tick is inert: it succeeds and changes
/// nothing, whatever byte the random source would have drawn.
pub proof fn lemma_waiting_tick_inert(s: State, b: u8)
    requires
        s.wait_for_input,
    ensures
        spec_tick(s, b) == Ok::<State, Chip8Error>(s),
{
}

/// Whether the instruction a tick would execute from `s` writes to memory:
/// only the BCD store and the register block store do.
pub open spec fn tick_writes_memory(s: State) -> bool {
    &&& !s.wait_for_input
    &&& s.program_counter + 1 < 4096
    &&& match spec_decode(spec_fetch(s) as u16) {
        Some(OpCode::BCD { .. }) => true,
        Some(OpCode::STOR { .. }) => true,
        _ => false,
    }
}

/// A successful tick that does not execute a memory-writing instruction
/// leaves all of memory unchanged; in particular, loaded program bytes stay
/// exactly as they were loaded.
pub proof fn lemma_tick_preserves_memory(s: State, b: u8, t: State)
    requires
        spec_tick(s, b) == Ok::<State, Chip8Error>(t),
        !tick_writes_memory(s),
    ensures
        t.memory == s.memory,
{
}

/// Whether the instruction a tick would execute from `s` stores into the
/// half-open address range `[lo, hi)`: only the BCD store (three cells at
/// the index register) and the register block store can.
pub open spec fn tick_writes_in_range(s: State, lo: int, hi: int) -> bool {
    &&& !s.wait_for_input
    &&& s.program_counter + 1 < 4096
    &&& match spec_decode(spec_fetch(s) as u16) {
        Some(OpCode::BCD { .. }) => s.index_register < hi && lo <= s.index_register + 2,
        Some(OpCode::STOR { x }) => s.index_register < hi && lo <= s.index_register + x,
        _ => false,
    }
}

/// Program code is read-only to itself: a successful tick whose instruction
/// does not store into the address range `[lo, hi)` leaves those bytes
/// exactly as they were. In particular, after loading N program bytes the
/// range starting at the load address stays intact under ticking unless a
/// BCD or register block store explicitly targets it.
pub proof fn lemma_tick_preserves_program_bytes(s: State, b: u8, t: State, lo: int, hi: int)
    requires
        s.wf(),
        0 <= lo <= hi <= 4096,
        spec_tick(s, b) == Ok::<State, Chip8Error>(t),
        !tick_writes_in_range(s, lo, hi),
    ensures
        t.memory.subrange(lo, hi) == s.memory.subrange(lo, hi),
{
    if !s.wait_for_input && s.program_counter + 1 < 4096 {
        match spec_decode(spec_fetch(s) as u16) {
            Some(OpCode::BCD { x }) => {
                assert forall|p: int| lo <= p < hi implies t.memory[p] == s.memory[p] by {
                    assert(p < s.index_register || p > s.index_register + 2);
                }
            },
            Some(OpCode::STOR { x }) => {
                assert forall|p: int| lo <= p < hi implies t.memory[p] == s.memory[p] by {
                    assert(p < s.index_register || p > s.index_register + x);
                }
            },
            _ => {},
        }
    }
    assert(t.memory.subrange(lo, hi) =~= s.memory.subrange(lo, hi));
}

/// Double-XOR drawing: drawing the same sprite at the same location twice in
/// succession returns every display cell to its prior state.
pub proof fn lemma_draw_double_xor(d: Seq<bool>, mem: Seq<u8>, i: int, n: int, vx: int, vy: int)
    requires
        d.len() == 2048,
    ensures
        draw_display(draw_display(d, mem, i, n, vx, vy), mem, i, n, vx, vy) == d,
{
    let d1 = draw_display(d, mem, i, n, vx, vy);
    let d2 = draw_display(d1, mem, i, n, vx, vy);
    assert(d2 =~= d);
}

/// CALL then RETURN is stack-balanced: executing a CALL whose target holds a
/// RETURN resumes exactly two past the call site (the popped value is the
/// call-site program counter, and the post-instruction advance moves past
/// it), with the stack pointer and all previously occupied stack slots
/// restored; memory and registers are untouched throughout. N nested CALLs
/// followed by N RETURNs thus restore the stack pointer and resume the exact
/// pre-CALL instruction sequence, one law application per depth.
pub proof fn lemma_call_return_balanced(s: State, b1: u8, b2: u8)
    requires
        s.wf(),
        !s.wait_for_input,
        s.program_counter + 1 < 4096,
        sym_a(spec_fetch(s) as u16) == 2,
        s.stack_pointer < 16,
        ({
            let nnn = sym_nnn(spec_fetch(s) as u16);
            &&& nnn + 1 < 4096
            &&& s.memory[nnn as int] == 0x00u8
            &&& s.memory[nnn + 1] == 0xEEu8
        }),
    ensures
        spec_tick(s, b1).is_ok(),
        spec_tick(spec_tick(s, b1).unwrap(), b2).is_ok(),
        ({
            let t2 = spec_tick(spec_tick(s, b1).unwrap(), b2).unwrap();
            &&& t2.program_counter == s.program_counter + 2
            &&& t2.stack_pointer == s.stack_pointer
            &&& t2.stack == s.stack.update(s.stack_pointer, s.program_counter as u16)
            &&& t2.memory == s.memory
            &&& t2.registers == s.registers
        }),
{
    let w = spec_fetch(s) as u16;
    let nnn = sym_nnn(w);
    assert(spec_decode(w) == Some(OpCode::CALL { nnn }));
    let t1 = spec_tick(s, b1).unwrap();
    assert(t1.program_counter == nnn as int);
    assert(t1.memory == s.memory);
    assert(spec_fetch(t1) == s.memory[nnn as int] * 256 + s.memory[nnn + 1]);
    assert(spec_fetch(t1) == 0xEE);
    assert(sym_a(0xEEu16) == 0 && sym_x(0xEEu16) == 0 && sym_y(0xEEu16) == 0xE && sym_n(0xEEu16)
        == 0xE) by (bit_vector);
    assert(spec_decode(0xEEu16) == Some(OpCode::RTS));
    let t2 = spec_tick(t1, b2).unwrap();
    assert(t2.program_counter == (s.program_counter as u16) as int + 2);
}

} // verus!

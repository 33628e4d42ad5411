//! Decoding of raw 16-bit instruction words into their operand fields and
//! into the instruction set.
use vstd::prelude::*;

verus! {

/// Bits 15-12: the primary opcode family selector.
pub open spec fn sym_a(w: u16) -> u8 {
    ((w & 0xF000) >> 12) as u8
}

/// Bits 11-8: a register index operand.
pub open spec fn sym_x(w: u16) -> u8 {
    ((w & 0x0F00) >> 8) as u8
}

/// Bits 7-4: a register index operand.
pub open spec fn sym_y(w: u16) -> u8 {
    ((w & 0x00F0) >> 4) as u8
}

/// Bits 3-0: a 4-bit immediate.
pub open spec fn sym_n(w: u16) -> u8 {
    (w & 0x000F) as u8
}

/// Bits 7-0: an 8-bit immediate.
pub open spec fn sym_nn(w: u16) -> u8 {
    (w & 0x00FF) as u8
}

/// Bits 11-0: a 12-bit address immediate.
pub open spec fn sym_nnn(w: u16) -> u16 {
    w & 0x0FFF
}

/// A structure of unpacked symbols from an opcode word.
/// Not all symbols (and sometimes no symbols) are valid, depending on what
/// the opcode is.
#[derive(Clone, Copy, Debug)]
pub struct OpCodeSymbols {
    pub a: u8,
    pub x: u8,
    pub y: u8,
    pub n: u8,
    pub nn: u8,
    pub nnn: u16,
}

impl OpCodeSymbols {
    /// Return the symbols from an opcode's raw value. Each field is a fixed
    /// bit range of the word; `x` and `y` are shifted down to the least
    /// significant nibble.
    pub fn from_value(opcode: u16) -> (r: Self)
        ensures
            r.a == sym_a(opcode),
            r.x == sym_x(opcode),
            r.y == sym_y(opcode),
            r.n == sym_n(opcode),
            r.nn == sym_nn(opcode),
            r.nnn == sym_nnn(opcode),
    {
        Self {
            a: ((opcode & 0xF000) >> 12) as u8,
            x: ((opcode & 0x0F00) >> 8) as u8,
            y: ((opcode & 0x00F0) >> 4) as u8,
            n: (opcode & 0x000F) as u8,
            nn: (opcode & 0x00FF) as u8,
            nnn: (opcode & 0x0FFF),
        }
    }
}

/// Every symbol is bounded by the width of its bit range.
pub proof fn lemma_symbols_bounds(w: u16)
    by (bit_vector)
    ensures
        sym_a(w) < 16,
        sym_x(w) < 16,
        sym_y(w) < 16,
        sym_n(w) < 16,
        sym_nnn(w) < 0x1000,
        sym_nn(w) == ((sym_y(w) << 4) | sym_n(w)),
{
}

/// Every opcode of the base instruction set. Each variant carries the
/// operand fields its pattern uses: register indices `x` and `y`, a 4-bit
/// immediate `n`, an 8-bit immediate `nn`, or a 12-bit address `nnn`.
#[derive(Clone, Copy, Debug, PartialEq, Eq, Structural)]
pub enum OpCode {
    SYS { nnn: u16 },
    CLR,
    RTS,
    JUMP { nnn: u16 },
    CALL { nnn: u16 },
    SKE { x: u8, nn: u8 },
    SKNE { x: u8, nn: u8 },
    SKRE { x: u8, y: u8 },
    LOAD { x: u8, nn: u8 },
    ADD { x: u8, nn: u8 },
    MOVE { x: u8, y: u8 },
    OR { x: u8, y: u8 },
    AND { x: u8, y: u8 },
    XOR { x: u8, y: u8 },
    ADDR { x: u8, y: u8 },
    SUB { x: u8, y: u8 },
    SHR { x: u8, y: u8 },
    SUBN { x: u8, y: u8 },
    SHL { x: u8, y: u8 },
    SKRNE { x: u8, y: u8 },
    LOADI { nnn: u16 },
    JUMPI { nnn: u16 },
    RAND { x: u8, nn: u8 },
    DRAW { x: u8, y: u8, n: u8 },
    SKPR { x: u8 },
    SKUP { x: u8 },
    MOVED { x: u8 },
    KEYD { x: u8 },
    LOADD { x: u8 },
    LOADS { x: u8 },
    ADDI { x: u8 },
    LDSPR { x: u8 },
    BCD { x: u8 },
    STOR { x: u8 },
    READ { x: u8 },
}

/// The decode table: which instruction a word denotes, or nothing when the
/// fields match no pattern. More specific patterns are tried before the less
/// specific fallbacks that share their top nibble. The word 0x0000 matches no
/// pattern: the SYS family asks for a nonzero address.
pub open spec fn spec_decode(w: u16) -> Option<OpCode> {
    let a = sym_a(w);
    let x = sym_x(w);
    let y = sym_y(w);
    let n = sym_n(w);
    let nn = sym_nn(w);
    let nnn = sym_nnn(w);
    if a == 0 && x == 0 && y == 0xE && n == 0 {
        Some(OpCode::CLR)
    } else if a == 0 && x == 0 && y == 0xE && n == 0xE {
        Some(OpCode::RTS)
    } else if a == 0 {
        if nnn != 0 {
            Some(OpCode::SYS { nnn })
        } else {
            None
        }
    } else if a == 1 {
        Some(OpCode::JUMP { nnn })
    } else if a == 2 {
        Some(OpCode::CALL { nnn })
    } else if a == 3 {
        Some(OpCode::SKE { x, nn })
    } else if a == 4 {
        Some(OpCode::SKNE { x, nn })
    } else if a == 5 {
        if n == 0 {
            Some(OpCode::SKRE { x, y })
        } else {
            None
        }
    } else if a == 6 {
        Some(OpCode::LOAD { x, nn })
    } else if a == 7 {
        Some(OpCode::ADD { x, nn })
    } else if a == 8 {
        if n == 0 {
            Some(OpCode::MOVE { x, y })
        } else if n == 1 {
            Some(OpCode::OR { x, y })
        } else if n == 2 {
            Some(OpCode::AND { x, y })
        } else if n == 3 {
            Some(OpCode::XOR { x, y })
        } else if n == 4 {
            Some(OpCode::ADDR { x, y })
        } else if n == 5 {
            Some(OpCode::SUB { x, y })
        } else if n == 6 {
            Some(OpCode::SHR { x, y })
        } else if n == 7 {
            Some(OpCode::SUBN { x, y })
        } else if n == 0xE {
            Some(OpCode::SHL { x, y })
        } else {
            None
        }
    } else if a == 9 {
        if n == 0 {
            Some(OpCode::SKRNE { x, y })
        } else {
            None
        }
    } else if a == 0xA {
        Some(OpCode::LOADI { nnn })
    } else if a == 0xB {
        Some(OpCode::JUMPI { nnn })
    } else if a == 0xC {
        Some(OpCode::RAND { x, nn })
    } else if a == 0xD {
        Some(OpCode::DRAW { x, y, n })
    } else if a == 0xE {
        if y == 9 && n == 0xE {
            Some(OpCode::SKPR { x })
        } else if y == 0xA && n == 1 {
            Some(OpCode::SKUP { x })
        } else {
            None
        }
    } else {
        if y == 0 && n == 7 {
            Some(OpCode::MOVED { x })
        } else if y == 0 && n == 0xA {
            Some(OpCode::KEYD { x })
        } else if y == 1 && n == 5 {
            Some(OpCode::LOADD { x })
        } else if y == 1 && n == 8 {
            Some(OpCode::LOADS { x })
        } else if y == 1 && n == 0xE {
            Some(OpCode::ADDI { x })
        } else if y == 2 && n == 9 {
            Some(OpCode::LDSPR { x })
        } else if y == 3 && n == 3 {
            Some(OpCode::BCD { x })
        } else if y == 5 && n == 5 {
            Some(OpCode::STOR { x })
        } else if y == 6 && n == 5 {
            Some(OpCode::READ { x })
        } else {
            None
        }
    }
}

impl OpCode {
    /// Decode an opcode word, or nothing when its fields match no pattern of
    /// the instruction set.
    pub fn from_value(opcode: u16) -> (r: Option<Self>)
        ensures
            r == spec_decode(opcode),
    {
        let OpCodeSymbols { a, x, y, n, nn, nnn } = OpCodeSymbols::from_value(opcode);
        if a == 0 && x == 0 && y == 0xE && n == 0 {
            Some(OpCode::CLR)
        } else if a == 0 && x == 0 && y == 0xE && n == 0xE {
            Some(OpCode::RTS)
        } else if a == 0 {
            if nnn != 0 {
                Some(OpCode::SYS { nnn })
            } else {
                None
            }
        } else if a == 1 {
            Some(OpCode::JUMP { nnn })
        } else if a == 2 {
            Some(OpCode::CALL { nnn })
        } else if a == 3 {
            Some(OpCode::SKE { x, nn })
        } else if a == 4 {
            Some(OpCode::SKNE { x, nn })
        } else if a == 5 {
            if n == 0 {
                Some(OpCode::SKRE { x, y })
            } else {
                None
            }
        } else if a == 6 {
            Some(OpCode::LOAD { x, nn })
        } else if a == 7 {
            Some(OpCode::ADD { x, nn })
        } else if a == 8 {
            if n == 0 {
                Some(OpCode::MOVE { x, y })
            } else if n == 1 {
                Some(OpCode::OR { x, y })
            } else if n == 2 {
                Some(OpCode::AND { x, y })
            } else if n == 3 {
                Some(OpCode::XOR { x, y })
            } else if n == 4 {
                Some(OpCode::ADDR { x, y })
            } else if n == 5 {
                Some(OpCode::SUB { x, y })
            } else if n == 6 {
                Some(OpCode::SHR { x, y })
            } else if n == 7 {
                Some(OpCode::SUBN { x, y })
            } else if n == 0xE {
                Some(OpCode::SHL { x, y })
            } else {
                None
            }
        } else if a == 9 {
            if n == 0 {
                Some(OpCode::SKRNE { x, y })
            } else {
                None
            }
        } else if a == 0xA {
            Some(OpCode::LOADI { nnn })
        } else if a == 0xB {
            Some(OpCode::JUMPI { nnn })
        } else if a == 0xC {
            Some(OpCode::RAND { x, nn })
        } else if a == 0xD {
            Some(OpCode::DRAW { x, y, n })
        } else if a == 0xE {
            if y == 9 && n == 0xE {
                Some(OpCode::SKPR { x })
            } else if y == 0xA && n == 1 {
                Some(OpCode::SKUP { x })
            } else {
                None
            }
        } else {
            if y == 0 && n == 7 {
                Some(OpCode::MOVED { x })
            } else if y == 0 && n == 0xA {
                Some(OpCode::KEYD { x })
            } else if y == 1 && n == 5 {
                Some(OpCode::LOADD { x })
            } else if y == 1 && n == 8 {
                Some(OpCode::LOADS { x })
            } else if y == 1 && n == 0xE {
                Some(OpCode::ADDI { x })
            } else if y == 2 && n == 9 {
                Some(OpCode::LDSPR { x })
            } else if y == 3 && n == 3 {
                Some(OpCode::BCD { x })
            } else if y == 5 && n == 5 {
                Some(OpCode::STOR { x })
            } else if y == 6 && n == 5 {
                Some(OpCode::READ { x })
            } else {
                None
            }
        }
    }
}

/// Decoding is an invertible projection of fixed bit ranges: the six symbols
/// determine the word, the combined immediates are concatenations of the
/// nibble symbols, and nothing else of the word is lost.
pub proof fn lemma_symbols_invertible(w: u16)
    by (bit_vector)
    ensures
        ((sym_a(w) as u16) << 12) | ((sym_x(w) as u16) << 8) | ((sym_y(w) as u16) << 4) | (sym_n(
            w,
        ) as u16) == w,
        sym_nn(w) == ((sym_y(w) << 4) | sym_n(w)),
        sym_nnn(w) == ((sym_x(w) as u16) << 8) | (sym_nn(w) as u16),
{
}

} // verus!

//! Small helpers: nibble extraction from opcode words, uppercase hex
//! rendering, and a partial opcode matcher kept alongside the full decoder.
use vstd::prelude::*;
use vstd::string::StringExecFns;

verus! {

/// The byte represented by the last 2 nibbles in the opcode.
pub fn get_byte(opcode: u16) -> (r: u16)
    ensures
        r == opcode & 0x00FF,
{
    opcode & 0x00FF
}

/// The 12-bit address represented by the last 3 nibbles in the opcode.
pub fn get_address(opcode: u16) -> (r: u16)
    ensures
        r == opcode & 0x0FFF,
{
    opcode & 0x0FFF
}

/// The instruction forms that `match_opcode` distinguishes. Operands are kept
/// as the raw shifted words they were cut from.
#[derive(Clone, Copy, Debug, PartialEq, Eq, Structural)]
pub enum OpCode {
    Return,
    Clear,
    Draw(u16, u16, u16),
    CallAddr(u16),
    SysAddr(u16),
    GotoAddrV0(u16),
    SkipEq(u16, u16),
}

/// The opcode words that `match_opcode` accepts: the zero family, draw,
/// the bare call word, the jump-with-offset family and skip-if-equal.
pub open spec fn opcode_handled(w: u16) -> bool {
    let a = (w & 0xF000) >> 12;
    a == 0 || a == 0xD || w == 0x2000 || a == 0xB || a == 3
}

/// What `match_opcode` returns, with the more specific patterns matched
/// before the less specific ones.
pub open spec fn matched_opcode(w: u16) -> OpCode {
    let a = (w & 0xF000) >> 12;
    let x = (w & 0x0F00) >> 8;
    let y = (w & 0x00F0) >> 4;
    let n = w & 0x000F;
    if a == 0 && x == 0 && y == 0xE && n == 0xE {
        OpCode::Return
    } else if a == 0 && x == 0 && y == 0xE && n == 0 {
        OpCode::Clear
    } else if a == 0xD {
        OpCode::Draw(x, y, n)
    } else if w == 0x2000 {
        OpCode::CallAddr(w & 0x0FFF)
    } else if a == 0 {
        OpCode::SysAddr(w & 0x0FFF)
    } else if a == 0xB {
        OpCode::GotoAddrV0(w & 0x0FFF)
    } else {
        OpCode::SkipEq(x, w & 0x00FF)
    }
}

/// Match an opcode word against the handled patterns. The order of the
/// comparisons is important as some opcodes are more specific than others.
pub fn match_opcode(opcode: u16) -> (r: OpCode)
    requires
        opcode_handled(opcode),
    ensures
        r == matched_opcode(opcode),
{
    let a = (opcode & 0xF000) >> 12;
    let x = (opcode & 0x0F00) >> 8;
    let y = (opcode & 0x00F0) >> 4;
    let n = opcode & 0x000F;
    if a == 0 && x == 0 && y == 0xE && n == 0xE {
        OpCode::Return
    } else if a == 0 && x == 0 && y == 0xE && n == 0 {
        OpCode::Clear
    } else if a == 0xD {
        OpCode::Draw(x, y, n)
    } else if opcode == 0x2000 {
        OpCode::CallAddr(get_address(opcode))
    } else if a == 0 {
        OpCode::SysAddr(get_address(opcode))
    } else if a == 0xB {
        OpCode::GotoAddrV0(get_address(opcode))
    } else {
        OpCode::SkipEq(x, get_byte(opcode))
    }
}

/// The uppercase hex digit for one nibble value.
pub open spec fn nibble_char(n: u8) -> char {
    if n == 0 {
        '0'
    } else if n == 1 {
        '1'
    } else if n == 2 {
        '2'
    } else if n == 3 {
        '3'
    } else if n == 4 {
        '4'
    } else if n == 5 {
        '5'
    } else if n == 6 {
        '6'
    } else if n == 7 {
        '7'
    } else if n == 8 {
        '8'
    } else if n == 9 {
        '9'
    } else if n == 10 {
        'A'
    } else if n == 11 {
        'B'
    } else if n == 12 {
        'C'
    } else if n == 13 {
        'D'
    } else if n == 14 {
        'E'
    } else {
        'F'
    }
}

/// `0x`-prefixed uppercase hex rendering of a 16-bit value, zero padded to at
/// least two digits.
pub open spec fn spec_hex(e: u16) -> Seq<char> {
    if e < 0x100 {
        seq!['0', 'x', nibble_char(((e >> 4) & 0xF) as u8), nibble_char((e & 0xF) as u8)]
    } else if e < 0x1000 {
        seq![
            '0',
            'x',
            nibble_char(((e >> 8) & 0xF) as u8),
            nibble_char(((e >> 4) & 0xF) as u8),
            nibble_char((e & 0xF) as u8),
        ]
    } else {
        seq![
            '0',
            'x',
            nibble_char(((e >> 12) & 0xF) as u8),
            nibble_char(((e >> 8) & 0xF) as u8),
            nibble_char(((e >> 4) & 0xF) as u8),
            nibble_char((e & 0xF) as u8),
        ]
    }
}

/// The decimal digits of a count, most significant first.
pub open spec fn spec_dec(n: nat) -> Seq<char>
    decreases n,
{
    if n < 10 {
        seq![nibble_char(n as u8)]
    } else {
        spec_dec(n / 10).push(nibble_char((n % 10) as u8))
    }
}

/// A byte sequence widened element by element to 16 bits.
pub open spec fn u16s_of(s: Seq<u8>) -> Seq<u16> {
    Seq::new(s.len(), |i: int| s[i] as u16)
}

/// One row of values, each hex rendered with a leading space.
pub open spec fn spec_hex_row(vals: Seq<u16>) -> Seq<char>
    decreases vals.len(),
{
    if vals.len() == 0 {
        Seq::empty()
    } else {
        spec_hex_row(vals.drop_last()) + seq![' '] + spec_hex(vals.last())
    }
}

/// One row of flags, each rendered 1 or 0 with a leading space.
pub open spec fn spec_key_row(keys: Seq<bool>) -> Seq<char>
    decreases keys.len(),
{
    if keys.len() == 0 {
        Seq::empty()
    } else {
        spec_key_row(keys.drop_last()) + seq![' '] + seq![
            if keys.last() {
                '1'
            } else {
                '0'
            },
        ]
    }
}

/// Render a count in decimal.
pub(crate) fn dec_string(n: u64) -> (r: String)
    ensures
        r@ == spec_dec(n as nat),
    decreases n,
{
    if n < 10 {
        String::from_str(nibble_str(n as u8))
    } else {
        let mut s = dec_string(n / 10);
        s.append(nibble_str((n % 10) as u8));
        proof {
            assert(s@ =~= spec_dec(n as nat));
        }
        s
    }
}

/// Render a row of byte values as space separated hex.
pub(crate) fn hex_row_bytes(vals: &Vec<u8>) -> (r: String)
    ensures
        r@ == spec_hex_row(u16s_of(vals@)),
{
    let ghost m = u16s_of(vals@);
    let mut s = String::new();
    let mut i: usize = 0;
    while i < vals.len()
        invariant
            i <= vals@.len(),
            m == u16s_of(vals@),
            s@ == spec_hex_row(m.take(i as int)),
        decreases vals@.len() - i,
    {
        s.append(" ");
        let h = hex(vals[i] as u16);
        s.append(h.as_str());
        proof {
            reveal_strlit(" ");
            assert(" "@ =~= seq![' ']);
            assert(m.take(i + 1).drop_last() =~= m.take(i as int));
            assert(m.take(i + 1).last() == m[i as int]);
            assert(s@ =~= spec_hex_row(m.take(i + 1)));
        }
        i = i + 1;
    }
    proof {
        assert(m.take(vals@.len() as int) =~= m);
    }
    s
}

/// Render a row of 16-bit values as space separated hex.
pub(crate) fn hex_row_words(vals: &Vec<u16>) -> (r: String)
    ensures
        r@ == spec_hex_row(vals@),
{
    let mut s = String::new();
    let mut i: usize = 0;
    while i < vals.len()
        invariant
            i <= vals@.len(),
            s@ == spec_hex_row(vals@.take(i as int)),
        decreases vals@.len() - i,
    {
        s.append(" ");
        let h = hex(vals[i]);
        s.append(h.as_str());
        proof {
            reveal_strlit(" ");
            assert(" "@ =~= seq![' ']);
            assert(vals@.take(i + 1).drop_last() =~= vals@.take(i as int));
            assert(vals@.take(i + 1).last() == vals@[i as int]);
            assert(s@ =~= spec_hex_row(vals@.take(i + 1)));
        }
        i = i + 1;
    }
    proof {
        assert(vals@.take(vals@.len() as int) =~= vals@);
    }
    s
}

/// Render a row of key flags as space separated 1s and 0s.
pub(crate) fn key_row(keys: &Vec<bool>) -> (r: String)
    ensures
        r@ == spec_key_row(keys@),
{
    let mut s = String::new();
    let mut i: usize = 0;
    while i < keys.len()
        invariant
            i <= keys@.len(),
            s@ == spec_key_row(keys@.take(i as int)),
        decreases keys@.len() - i,
    {
        s.append(" ");
        s.append(nibble_str(if keys[i] { 1 } else { 0 }));
        proof {
            reveal_strlit(" ");
            assert(" "@ =~= seq![' ']);
            assert(keys@.take(i + 1).drop_last() =~= keys@.take(i as int));
            assert(keys@.take(i + 1).last() == keys@[i as int]);
            assert(s@ =~= spec_key_row(keys@.take(i + 1)));
        }
        i = i + 1;
    }
    proof {
        assert(keys@.take(keys@.len() as int) =~= keys@);
    }
    s
}

/// The one-character string for one nibble value.
pub(crate) fn nibble_str(n: u8) -> (r: &'static str)
    requires
        n < 16,
    ensures
        r@ == seq![nibble_char(n)],
{
    if n == 0 {
        proof {
            reveal_strlit("0");
            assert("0"@ =~= seq![nibble_char(n)]);
        }
        "0"
    } else if n == 1 {
        proof {
            reveal_strlit("1");
            assert("1"@ =~= seq![nibble_char(n)]);
        }
        "1"
    } else if n == 2 {
        proof {
            reveal_strlit("2");
            assert("2"@ =~= seq![nibble_char(n)]);
        }
        "2"
    } else if n == 3 {
        proof {
            reveal_strlit("3");
            assert("3"@ =~= seq![nibble_char(n)]);
        }
        "3"
    } else if n == 4 {
        proof {
            reveal_strlit("4");
            assert("4"@ =~= seq![nibble_char(n)]);
        }
        "4"
    } else if n == 5 {
        proof {
            reveal_strlit("5");
            assert("5"@ =~= seq![nibble_char(n)]);
        }
        "5"
    } else if n == 6 {
        proof {
            reveal_strlit("6");
            assert("6"@ =~= seq![nibble_char(n)]);
        }
        "6"
    } else if n == 7 {
        proof {
            reveal_strlit("7");
            assert("7"@ =~= seq![nibble_char(n)]);
        }
        "7"
    } else if n == 8 {
        proof {
            reveal_strlit("8");
            assert("8"@ =~= seq![nibble_char(n)]);
        }
        "8"
    } else if n == 9 {
        proof {
            reveal_strlit("9");
            assert("9"@ =~= seq![nibble_char(n)]);
        }
        "9"
    } else if n == 10 {
        proof {
            reveal_strlit("A");
            assert("A"@ =~= seq![nibble_char(n)]);
        }
        "A"
    } else if n == 11 {
        proof {
            reveal_strlit("B");
            assert("B"@ =~= seq![nibble_char(n)]);
        }
        "B"
    } else if n == 12 {
        proof {
            reveal_strlit("C");
            assert("C"@ =~= seq![nibble_char(n)]);
        }
        "C"
    } else if n == 13 {
        proof {
            reveal_strlit("D");
            assert("D"@ =~= seq![nibble_char(n)]);
        }
        "D"
    } else if n == 14 {
        proof {
            reveal_strlit("E");
            assert("E"@ =~= seq![nibble_char(n)]);
        }
        "E"
    } else {
        proof {
            reveal_strlit("F");
            assert("F"@ =~= seq![nibble_char(n)]);
        }
        "F"
    }
}

/// Render a 16-bit value as `0x`-prefixed uppercase hex, zero padded to at
/// least two digits; wider values keep all their significant digits.
pub fn hex(e: u16) -> (r: String)
    ensures
        r@ == spec_hex(e),
{
    let mut s = String::from_str("0x");
    proof {
        reveal_strlit("0x");
        assert(s@ =~= seq!['0', 'x']);
        assert(((e >> 12) & 0xF) < 16 && ((e >> 8) & 0xF) < 16 && ((e >> 4) & 0xF) < 16 && (e
            & 0xF) < 16) by (bit_vector);
    }
    if e >= 0x1000 {
        s.append(nibble_str(((e >> 12) & 0xF) as u8));
    }
    if e >= 0x100 {
        s.append(nibble_str(((e >> 8) & 0xF) as u8));
    }
    s.append(nibble_str(((e >> 4) & 0xF) as u8));
    s.append(nibble_str((e & 0xF) as u8));
    proof {
        assert(s@ =~= spec_hex(e));
    }
    s
}

} // verus!

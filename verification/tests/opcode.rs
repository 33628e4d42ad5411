use chip8::opcode::{OpCode, OpCodeSymbols};

#[test]
fn opcode_test_opcodes() {
    let opcode_tests = [
        (0x00E0, OpCode::CLR),
        (0xD123, OpCode::DRAW { x: 1, y: 2, n: 3 }),
        (0x00EE, OpCode::RTS),
    ];

    for (input, opcode) in opcode_tests.iter() {
        assert!(OpCode::from_value(*input) == Some(*opcode))
    }
}

#[test]
fn opcode_test_opcode_symbols_from_value() {
    let OpCodeSymbols { n, nn, nnn, x, y, .. } = OpCodeSymbols::from_value(0xABCD);

    assert_eq!(n, 0xD);
    assert_eq!(nn, 0xCD);
    assert_eq!(nnn, 0xBCD);
    assert_eq!(x, 0xB);
    assert_eq!(y, 0xC);
}

#[test]
fn from_value_unknown_words() {
    assert_eq!(OpCode::from_value(0x0000), None);
    assert_eq!(OpCode::from_value(0x5121), None);
    assert_eq!(OpCode::from_value(0x8008), None);
    assert_eq!(OpCode::from_value(0x9005), None);
    assert_eq!(OpCode::from_value(0xE000), None);
    assert_eq!(OpCode::from_value(0xF000), None);
}

#[test]
fn from_value_whole_table() {
    assert_eq!(OpCode::from_value(0x0123), Some(OpCode::SYS { nnn: 0x123 }));
    assert_eq!(OpCode::from_value(0x1ABC), Some(OpCode::JUMP { nnn: 0xABC }));
    assert_eq!(OpCode::from_value(0x2ABC), Some(OpCode::CALL { nnn: 0xABC }));
    assert_eq!(OpCode::from_value(0x3A42), Some(OpCode::SKE { x: 0xA, nn: 0x42 }));
    assert_eq!(OpCode::from_value(0x4A42), Some(OpCode::SKNE { x: 0xA, nn: 0x42 }));
    assert_eq!(OpCode::from_value(0x5AB0), Some(OpCode::SKRE { x: 0xA, y: 0xB }));
    assert_eq!(OpCode::from_value(0x6A42), Some(OpCode::LOAD { x: 0xA, nn: 0x42 }));
    assert_eq!(OpCode::from_value(0x7A42), Some(OpCode::ADD { x: 0xA, nn: 0x42 }));
    assert_eq!(OpCode::from_value(0x8AB0), Some(OpCode::MOVE { x: 0xA, y: 0xB }));
    assert_eq!(OpCode::from_value(0x8AB1), Some(OpCode::OR { x: 0xA, y: 0xB }));
    assert_eq!(OpCode::from_value(0x8AB2), Some(OpCode::AND { x: 0xA, y: 0xB }));
    assert_eq!(OpCode::from_value(0x8AB3), Some(OpCode::XOR { x: 0xA, y: 0xB }));
    assert_eq!(OpCode::from_value(0x8AB4), Some(OpCode::ADDR { x: 0xA, y: 0xB }));
    assert_eq!(OpCode::from_value(0x8AB5), Some(OpCode::SUB { x: 0xA, y: 0xB }));
    assert_eq!(OpCode::from_value(0x8AB6), Some(OpCode::SHR { x: 0xA, y: 0xB }));
    assert_eq!(OpCode::from_value(0x8AB7), Some(OpCode::SUBN { x: 0xA, y: 0xB }));
    assert_eq!(OpCode::from_value(0x8ABE), Some(OpCode::SHL { x: 0xA, y: 0xB }));
    assert_eq!(OpCode::from_value(0x9AB0), Some(OpCode::SKRNE { x: 0xA, y: 0xB }));
    assert_eq!(OpCode::from_value(0xAABC), Some(OpCode::LOADI { nnn: 0xABC }));
    assert_eq!(OpCode::from_value(0xBABC), Some(OpCode::JUMPI { nnn: 0xABC }));
    assert_eq!(OpCode::from_value(0xCA42), Some(OpCode::RAND { x: 0xA, nn: 0x42 }));
    assert_eq!(OpCode::from_value(0xEA9E), Some(OpCode::SKPR { x: 0xA }));
    assert_eq!(OpCode::from_value(0xEAA1), Some(OpCode::SKUP { x: 0xA }));
    assert_eq!(OpCode::from_value(0xFA07), Some(OpCode::MOVED { x: 0xA }));
    assert_eq!(OpCode::from_value(0xFA0A), Some(OpCode::KEYD { x: 0xA }));
    assert_eq!(OpCode::from_value(0xFA15), Some(OpCode::LOADD { x: 0xA }));
    assert_eq!(OpCode::from_value(0xFA18), Some(OpCode::LOADS { x: 0xA }));
    assert_eq!(OpCode::from_value(0xFA1E), Some(OpCode::ADDI { x: 0xA }));
    assert_eq!(OpCode::from_value(0xFA29), Some(OpCode::LDSPR { x: 0xA }));
    assert_eq!(OpCode::from_value(0xFA33), Some(OpCode::BCD { x: 0xA }));
    assert_eq!(OpCode::from_value(0xFA55), Some(OpCode::STOR { x: 0xA }));
    assert_eq!(OpCode::from_value(0xFA65), Some(OpCode::READ { x: 0xA }));
}

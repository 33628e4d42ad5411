use chip8::opcode::OpCodeSymbols;

#[test]
fn opcodes_test_opcode_symbols_from_value() {
    let OpCodeSymbols { n, nn, nnn, x, y, .. } = OpCodeSymbols::from_value(0xABCD);

    assert_eq!(n, 0xD);
    assert_eq!(nn, 0xCD);
    assert_eq!(nnn, 0xBCD);
    assert_eq!(x, 0xB);
    assert_eq!(y, 0xC);
}

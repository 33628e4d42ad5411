use chip8::utils::{get_address, get_byte, hex, match_opcode, OpCode};

#[test]
fn utils_test_opcodes() {
    let opcode_tests = [
        (0x00E0, OpCode::Clear),
        (0xD123, OpCode::Draw(1, 2, 3)),
        (0x00EE, OpCode::Return),
    ];

    for (input, opcode) in opcode_tests.iter() {
        assert!(match_opcode(*input) == *opcode)
    }
}

#[test]
fn test_get_address() {
    assert_eq!(get_address(0x0300), 0x300);
    assert_eq!(get_address(0x1111), 0x111);
    assert_eq!(get_address(0xABCD), 0xBCD);
}

#[test]
fn test_get_byte() {
    assert_eq!(get_byte(0x0300), 0x00);
    assert_eq!(get_byte(0x1111), 0x11);
    assert_eq!(get_byte(0xABCD), 0xCD);
}

#[test]
fn match_opcode_other_patterns() {
    assert_eq!(match_opcode(0x0123), OpCode::SysAddr(0x123));
    assert_eq!(match_opcode(0x2000), OpCode::CallAddr(0x000));
    assert_eq!(match_opcode(0xB123), OpCode::GotoAddrV0(0x123));
    assert_eq!(match_opcode(0x3A42), OpCode::SkipEq(0xA, 0x42));
}

#[test]
fn hex_renders_uppercase_with_padding() {
    assert_eq!(hex(0x0), "0x00");
    assert_eq!(hex(0x5), "0x05");
    assert_eq!(hex(0xAB), "0xAB");
    assert_eq!(hex(0xABC), "0xABC");
    assert_eq!(hex(0xABCD), "0xABCD");
    assert_eq!(hex(0x200), "0x200");
}

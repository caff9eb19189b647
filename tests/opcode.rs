use chip8::opcode::{Opcode, ParseOpcodeError};

#[test]
fn decoding_is_total() {
    for w in 0..=u16::MAX {
        match Opcode::decode(w) {
            Ok(_) => {}
            Err(ParseOpcodeError::UnknownOpcode(v)) => assert_eq!(v, w),
        }
    }
}

#[test]
fn decodes_each_family() {
    assert_eq!(Opcode::decode(0x00E0), Ok(Opcode::ClearScreen));
    assert_eq!(Opcode::decode(0x00EE), Ok(Opcode::Return));
    assert_eq!(Opcode::decode(0x1ABC), Ok(Opcode::Jump { addr: 0xABC }));
    assert_eq!(Opcode::decode(0x2ABC), Ok(Opcode::Call { addr: 0xABC }));
    assert_eq!(Opcode::decode(0x3A12), Ok(Opcode::SkipEqualByte { x: 0xA, kk: 0x12 }));
    assert_eq!(Opcode::decode(0x4A12), Ok(Opcode::SkipNotEqualByte { x: 0xA, kk: 0x12 }));
    assert_eq!(Opcode::decode(0x5AB0), Ok(Opcode::SkipEqual { x: 0xA, y: 0xB }));
    assert_eq!(Opcode::decode(0x6A12), Ok(Opcode::LoadByte { x: 0xA, kk: 0x12 }));
    assert_eq!(Opcode::decode(0x7A12), Ok(Opcode::AddByte { x: 0xA, kk: 0x12 }));
    assert_eq!(Opcode::decode(0x8AB0), Ok(Opcode::Load { x: 0xA, y: 0xB }));
    assert_eq!(Opcode::decode(0x8AB4), Ok(Opcode::Add { x: 0xA, y: 0xB }));
    assert_eq!(Opcode::decode(0x8AB7), Ok(Opcode::Subn { x: 0xA, y: 0xB }));
    assert_eq!(Opcode::decode(0x8ABE), Ok(Opcode::Shl { x: 0xA, y: 0xB }));
    assert_eq!(Opcode::decode(0x9AB0), Ok(Opcode::SkipNotEqual { x: 0xA, y: 0xB }));
    assert_eq!(Opcode::decode(0xA123), Ok(Opcode::LoadI { addr: 0x123 }));
    assert_eq!(Opcode::decode(0xB123), Ok(Opcode::JumpV0 { addr: 0x123 }));
    assert_eq!(Opcode::decode(0xC1FF), Ok(Opcode::Random { x: 1, kk: 0xFF }));
    assert_eq!(Opcode::decode(0xD12F), Ok(Opcode::Draw { x: 1, y: 2, n: 0xF }));
    assert_eq!(Opcode::decode(0xE19E), Ok(Opcode::SkipKeyPressed { x: 1 }));
    assert_eq!(Opcode::decode(0xE1A1), Ok(Opcode::SkipKeyNotPressed { x: 1 }));
    assert_eq!(Opcode::decode(0xF107), Ok(Opcode::LoadDelayTimer { x: 1 }));
    assert_eq!(Opcode::decode(0xF10A), Ok(Opcode::WaitKeyPressed { x: 1 }));
    assert_eq!(Opcode::decode(0xF115), Ok(Opcode::LoadToDelayTimer { x: 1 }));
    assert_eq!(Opcode::decode(0xF118), Ok(Opcode::LoadToSoundTimer { x: 1 }));
    assert_eq!(Opcode::decode(0xF11E), Ok(Opcode::AddI { x: 1 }));
    assert_eq!(Opcode::decode(0xF129), Ok(Opcode::LoadSprite { x: 1 }));
    assert_eq!(Opcode::decode(0xF133), Ok(Opcode::LoadBCD { x: 1 }));
    assert_eq!(Opcode::decode(0xF155), Ok(Opcode::SaveRegisters { x: 1 }));
    assert_eq!(Opcode::decode(0xF165), Ok(Opcode::LoadRegisters { x: 1 }));
}

#[test]
fn rejects_unknown_words() {
    for w in [0x8AB8u16, 0x800F, 0xE100, 0xF1FF, 0xF100] {
        assert_eq!(Opcode::decode(w), Err(ParseOpcodeError::UnknownOpcode(w)));
    }
}

#[test]
fn mnemonics() {
    assert_eq!(Opcode::ClearScreen.mnemonic(), "CLR");
    assert_eq!(Opcode::Return.mnemonic(), "RET");
    assert_eq!(Opcode::Jump { addr: 0x300 }.mnemonic(), "JP 0x300");
    assert_eq!(Opcode::Call { addr: 0xABC }.mnemonic(), "CALL 0xABC");
    assert_eq!(Opcode::SkipEqualByte { x: 0xA, kk: 0x1F }.mnemonic(), "SE VA, 0x1F");
    assert_eq!(Opcode::LoadByte { x: 0, kk: 0 }.mnemonic(), "LD V0, 0x0");
    assert_eq!(Opcode::Sub { x: 3, y: 0xE }.mnemonic(), "SUB V3, VE");
    assert_eq!(Opcode::JumpV0 { addr: 0x10 }.mnemonic(), "JP V0, 0x10");
    assert_eq!(Opcode::Draw { x: 1, y: 2, n: 15 }.mnemonic(), "DRW V1, V2, 15");
    assert_eq!(Opcode::Draw { x: 1, y: 2, n: 5 }.mnemonic(), "DRW V1, V2, 5");
    assert_eq!(Opcode::LoadDelayTimer { x: 7 }.mnemonic(), "LD V7, DT");
    assert_eq!(Opcode::WaitKeyPressed { x: 7 }.mnemonic(), "LD V7, K");
    assert_eq!(Opcode::SaveRegisters { x: 7 }.mnemonic(), "LD [I], V7");
    assert_eq!(Opcode::LoadRegisters { x: 3 }.mnemonic(), "LD V3, [I]");
}

#[test]
fn mnemonic_operands_read_back() {
    for x in 0..16usize {
        for kk in [0u8, 1, 0x0F, 0x10, 0xAB, 0xFF] {
            let text = Opcode::LoadByte { x, kk }.mnemonic();
            let rest = text.strip_prefix("LD V").unwrap();
            let (reg, imm) = rest.split_once(", 0x").unwrap();
            assert_eq!(usize::from_str_radix(reg, 16).unwrap(), x);
            assert_eq!(u8::from_str_radix(imm, 16).unwrap(), kk);
        }
    }
    for addr in [0u16, 0x200, 0xFFF] {
        let text = Opcode::Call { addr }.mnemonic();
        assert_eq!(u16::from_str_radix(text.strip_prefix("CALL 0x").unwrap(), 16).unwrap(), addr);
    }
}

#[test]
fn mnemonics_of_decoded_words_are_distinct() {
    let mut seen: std::collections::HashMap<String, Opcode> = std::collections::HashMap::new();
    for w in 0..=u16::MAX {
        if let Ok(op) = Opcode::decode(w) {
            let text = op.mnemonic();
            if let Some(prev) = seen.insert(text, op) {
                assert_eq!(prev, op);
            }
        }
    }
}

use chip8::decoder::{decode, disassemble, encode, Instruction};

#[test]
fn test_no_arg_instr() {
    assert_eq!(Some(Instruction::ClearDisplay), decode(0x00e0));
    assert_eq!(Some(Instruction::Return), decode(0x00ee));
}

#[test]
fn test_addr_instr() {
    assert_eq!(Some(Instruction::Jump(0x123)), decode(0x1123));
    assert_eq!(Some(Instruction::Call(0xabc)), decode(0x2abc));
    assert_eq!(Some(Instruction::LoadIAddr(0x777)), decode(0xa777));
    assert_eq!(Some(Instruction::JumpV0Addr(0x987)), decode(0xb987));
}

#[test]
fn test_reg_byte_instr() {
    assert_eq!(Some(Instruction::SkipEqVxByte(1, 0xff)), decode(0x31ff));
    assert_eq!(Some(Instruction::SkipNeqVxByte(2, 0xee)), decode(0x42ee));
    assert_eq!(Some(Instruction::LoadVxByte(4, 0xcc)), decode(0x64cc));
    assert_eq!(Some(Instruction::AddVxByte(5, 0xbb)), decode(0x75bb));
    assert_eq!(Some(Instruction::RandVxAndByte(6, 0xaa)), decode(0xc6aa));
}

#[test]
fn test_reg_reg_instr() {
    assert_eq!(Some(Instruction::SkipEqVxVy(1, 2)), decode(0x5120));
    assert_eq!(Some(Instruction::LoadVxVy(1, 2)), decode(0x8120));
    assert_eq!(Some(Instruction::OrVxVy(3, 4)), decode(0x8341));
    assert_eq!(Some(Instruction::AndVxVy(3, 4)), decode(0x8342));
    assert_eq!(Some(Instruction::XorVxVy(5, 6)), decode(0x8563));
    assert_eq!(Some(Instruction::AddVxVy(5, 6)), decode(0x8564));
    assert_eq!(Some(Instruction::SubVxVy(7, 8)), decode(0x8785));
    assert_eq!(Some(Instruction::SubnVxVy(0xa, 0xa)), decode(0x8aa7));
    assert_eq!(Some(Instruction::SkipNeqVxVy(0xf, 0xf)), decode(0x9ff0));
}

#[test]
fn test_reg_reg_nibble_instr() {
    assert_eq!(
        Some(Instruction::DisplaySpriteVxVyNibble(0xa, 0xb, 0xc)),
        decode(0xdabc)
    );
}

#[test]
fn test_reg_instr() {
    assert_eq!(Some(Instruction::ShrVxby1(0)), decode(0x8006));
    assert_eq!(Some(Instruction::ShlVxby1(1)), decode(0x810e));
    assert_eq!(Some(Instruction::SkipKeyPressedVx(2)), decode(0xe29e));
    assert_eq!(Some(Instruction::SkipKeyNotPressedVx(3)), decode(0xe3a1));
    assert_eq!(Some(Instruction::LoadVxDT(4)), decode(0xf407));
    assert_eq!(Some(Instruction::LoadVxKey(5)), decode(0xf50a));
    assert_eq!(Some(Instruction::LoadDTVx(6)), decode(0xf615));
    assert_eq!(Some(Instruction::LoadSTVx(7)), decode(0xf718));
    assert_eq!(Some(Instruction::AddIVx(8)), decode(0xf81e));
    assert_eq!(Some(Instruction::LoadSpriteAddrVx(9)), decode(0xf929));
    assert_eq!(Some(Instruction::LoadBVx(0xa)), decode(0xfa33));
    assert_eq!(Some(Instruction::StoreRegsVx(0xc)), decode(0xfc55));
    assert_eq!(Some(Instruction::LoadRegsVx(0xb)), decode(0xfb65));
}

#[test]
fn test_unknown_nistr() {
    assert_eq!(None, decode(0xf00d));
}

#[test]
fn decode_documented_examples() {
    assert_eq!(Some(Instruction::ClearDisplay), decode(0x00e0));
    assert_eq!(Some(Instruction::Jump(0x123)), decode(0x1123));
    assert_eq!(Some(Instruction::LoadVxByte(0xa, 0xcc)), decode(0x6acc));
    assert_eq!(
        Some(Instruction::DisplaySpriteVxVyNibble(0xa, 0xb, 0xc)),
        decode(0xdabc)
    );
    assert_eq!(None, decode(0xf00d));
}

#[test]
fn encode_decode_round_trip_all_opcodes() {
    let all = vec![
        Instruction::ClearDisplay,
        Instruction::Return,
        Instruction::Jump(0x123),
        Instruction::JumpV0Addr(0xfff),
        Instruction::Call(0x208),
        Instruction::SkipEqVxByte(1, 0xff),
        Instruction::SkipEqVxVy(1, 2),
        Instruction::SkipKeyPressedVx(2),
        Instruction::SkipKeyNotPressedVx(3),
        Instruction::SkipNeqVxByte(2, 0xee),
        Instruction::SkipNeqVxVy(0xf, 0xe),
        Instruction::LoadRegsVx(0xb),
        Instruction::StoreRegsVx(0xc),
        Instruction::LoadBVx(0xa),
        Instruction::LoadDTVx(6),
        Instruction::LoadIAddr(0x777),
        Instruction::LoadSTVx(7),
        Instruction::LoadSpriteAddrVx(9),
        Instruction::LoadVxByte(4, 0xcc),
        Instruction::LoadVxDT(4),
        Instruction::LoadVxKey(5),
        Instruction::LoadVxVy(1, 2),
        Instruction::AddIVx(8),
        Instruction::AddVxByte(5, 0xbb),
        Instruction::AddVxVy(5, 6),
        Instruction::SubVxVy(7, 8),
        Instruction::SubnVxVy(0xa, 0x9),
        Instruction::XorVxVy(5, 6),
        Instruction::AndVxVy(3, 4),
        Instruction::OrVxVy(3, 4),
        Instruction::ShlVxby1(1),
        Instruction::ShrVxby1(0),
        Instruction::RandVxAndByte(6, 0xaa),
        Instruction::DisplaySpriteVxVyNibble(0xa, 0xb, 0xc),
    ];
    assert_eq!(all.len(), 34);
    for i in all {
        assert_eq!(Some(i), decode(encode(i)));
    }
}

#[test]
fn disassemble_renders_mnemonics() {
    assert_eq!(disassemble(0x00e0), "CLS");
    assert_eq!(disassemble(0x00ee), "RET");
    assert_eq!(disassemble(0x1123), "JP 0123");
    assert_eq!(disassemble(0x2abc), "CALL 0abc");
    assert_eq!(disassemble(0x31ff), "SE V1, ff");
    assert_eq!(disassemble(0x42ee), "SNE V2, ee");
    assert_eq!(disassemble(0x5120), "SE V1, V2");
    assert_eq!(disassemble(0x6acc), "LD Va, cc");
    assert_eq!(disassemble(0x75bb), "ADD V5, bb");
    assert_eq!(disassemble(0x8120), "LD V1, V2");
    assert_eq!(disassemble(0x8341), "OR V3, V4");
    assert_eq!(disassemble(0x8342), "AND V3, V4");
    assert_eq!(disassemble(0x8563), "XOR V5, V6");
    assert_eq!(disassemble(0x8564), "ADD V5, V6");
    assert_eq!(disassemble(0x8785), "SUB V7, V8");
    assert_eq!(disassemble(0x8406), "SHR V4");
    assert_eq!(disassemble(0x8aa7), "SUBN Va, Va");
    assert_eq!(disassemble(0x830e), "SHL 3");
    assert_eq!(disassemble(0x9ff0), "SNE Vf, Vf");
    assert_eq!(disassemble(0xa777), "LD I, 0777");
    assert_eq!(disassemble(0xb987), "JP V0, 0987");
    assert_eq!(disassemble(0xc6aa), "RND V6, 00aa");
    assert_eq!(disassemble(0xdabc), "DRW Va, Vb, c");
    assert_eq!(disassemble(0xe29e), "SKP V2");
    assert_eq!(disassemble(0xe3a1), "SKNP V3");
    assert_eq!(disassemble(0xf407), "LD V4, DT");
    assert_eq!(disassemble(0xf50a), "LD V5, K");
    assert_eq!(disassemble(0xf615), "LD DT, V6");
    assert_eq!(disassemble(0xf718), "LD ST, V7");
    assert_eq!(disassemble(0xf81e), "ADD I, V8");
    assert_eq!(disassemble(0xf929), "LD F, V9");
    assert_eq!(disassemble(0xfa33), "LD B, Va");
    assert_eq!(disassemble(0xfc55), "LD [I], Vc");
    assert_eq!(disassemble(0xfb65), "LD Vb, [I]");
    assert_eq!(disassemble(0xf00d), "NO DISASM");
}

//! The opcode decoder: a pure function from a 16-bit instruction word to a
//! tagged instruction variant, or `None` for an unrecognized word. A
//! companion disassembler renders the canonical mnemonic of a word.

use vstd::prelude::*;

use crate::hex::{
    all_ascii, ascii_to_string, chars_of, hex1_lower, hex2_lower, hex4_lower, push_hex1_lower,
    push_hex2_lower, push_hex4_lower, push_lit,
};

verus! {

/// The 34 recognized instructions, with their decoded operand fields:
/// register indices (0-15), 8-bit immediates, 12-bit addresses and the
/// 4-bit sprite row count.
#[derive(Clone, Copy, Debug, PartialEq, Eq, Structural)]
pub enum Instruction {
    ClearDisplay,
    Return,
    Jump(u16),
    JumpV0Addr(u16),
    Call(u16),
    SkipEqVxByte(usize, u8),
    SkipEqVxVy(usize, usize),
    SkipKeyPressedVx(usize),
    SkipKeyNotPressedVx(usize),
    SkipNeqVxByte(usize, u8),
    SkipNeqVxVy(usize, usize),
    LoadRegsVx(usize),
    StoreRegsVx(usize),
    LoadBVx(usize),
    LoadDTVx(usize),
    LoadIAddr(u16),
    LoadSTVx(usize),
    LoadSpriteAddrVx(usize),
    LoadVxByte(usize, u8),
    LoadVxDT(usize),
    LoadVxKey(usize),
    LoadVxVy(usize, usize),
    AddIVx(usize),
    AddVxByte(usize, u8),
    AddVxVy(usize, usize),
    SubVxVy(usize, usize),
    SubnVxVy(usize, usize),
    XorVxVy(usize, usize),
    AndVxVy(usize, usize),
    OrVxVy(usize, usize),
    ShlVxby1(usize),
    ShrVxby1(usize),
    RandVxAndByte(usize, u8),
    DisplaySpriteVxVyNibble(usize, usize, u8),
}

/// The register index in bits 8-11 of a word.
pub open spec fn op_vx(w: u16) -> usize {
    ((w >> 8) & 0xf) as usize
}

/// The register index in bits 4-7 of a word.
pub open spec fn op_vy(w: u16) -> usize {
    ((w >> 4) & 0xf) as usize
}

/// The 4-bit count in bits 0-3 of a word.
pub open spec fn op_n(w: u16) -> u8 {
    (w & 0xf) as u8
}

/// The 8-bit immediate in bits 0-7 of a word.
pub open spec fn op_nn(w: u16) -> u8 {
    (w & 0xff) as u8
}

/// The 12-bit address in bits 0-11 of a word.
pub open spec fn op_nnn(w: u16) -> u16 {
    w & 0xfff
}

/// Every operand field a decoded instruction can carry is in range:
/// register indices and counts below 16, addresses below 0x1000.
pub open spec fn wf_instr(i: Instruction) -> bool {
    match i {
        Instruction::ClearDisplay => true,
        Instruction::Return => true,
        Instruction::Jump(a) => a < 0x1000,
        Instruction::JumpV0Addr(a) => a < 0x1000,
        Instruction::Call(a) => a < 0x1000,
        Instruction::SkipEqVxByte(x, _nn) => x < 16,
        Instruction::SkipEqVxVy(x, y) => x < 16 && y < 16,
        Instruction::SkipKeyPressedVx(x) => x < 16,
        Instruction::SkipKeyNotPressedVx(x) => x < 16,
        Instruction::SkipNeqVxByte(x, _nn) => x < 16,
        Instruction::SkipNeqVxVy(x, y) => x < 16 && y < 16,
        Instruction::LoadRegsVx(x) => x < 16,
        Instruction::StoreRegsVx(x) => x < 16,
        Instruction::LoadBVx(x) => x < 16,
        Instruction::LoadDTVx(x) => x < 16,
        Instruction::LoadIAddr(a) => a < 0x1000,
        Instruction::LoadSTVx(x) => x < 16,
        Instruction::LoadSpriteAddrVx(x) => x < 16,
        Instruction::LoadVxByte(x, _nn) => x < 16,
        Instruction::LoadVxDT(x) => x < 16,
        Instruction::LoadVxKey(x) => x < 16,
        Instruction::LoadVxVy(x, y) => x < 16 && y < 16,
        Instruction::AddIVx(x) => x < 16,
        Instruction::AddVxByte(x, _nn) => x < 16,
        Instruction::AddVxVy(x, y) => x < 16 && y < 16,
        Instruction::SubVxVy(x, y) => x < 16 && y < 16,
        Instruction::SubnVxVy(x, y) => x < 16 && y < 16,
        Instruction::XorVxVy(x, y) => x < 16 && y < 16,
        Instruction::AndVxVy(x, y) => x < 16 && y < 16,
        Instruction::OrVxVy(x, y) => x < 16 && y < 16,
        Instruction::ShlVxby1(x) => x < 16,
        Instruction::ShrVxby1(x) => x < 16,
        Instruction::RandVxAndByte(x, _nn) => x < 16,
        Instruction::DisplaySpriteVxVyNibble(x, y, n) => x < 16 && y < 16 && n < 16,
    }
}

/// What a 16-bit word decodes to. Fully-specified opcodes (the 0x00E0 and
/// 0x00EE words) are told apart by their whole word; each remaining family
/// is keyed by its high nibble and, where the family demands it, by fixed
/// low bits, so the most specific pattern always decides.
pub open spec fn spec_decode(w: u16) -> Option<Instruction> {
    let hi = w >> 12;
    if hi == 0x0 {
        if w == 0x00e0 {
            Some(Instruction::ClearDisplay)
        } else if w == 0x00ee {
            Some(Instruction::Return)
        } else {
            None
        }
    } else if hi == 0x1 {
        Some(Instruction::Jump(op_nnn(w)))
    } else if hi == 0x2 {
        Some(Instruction::Call(op_nnn(w)))
    } else if hi == 0x3 {
        Some(Instruction::SkipEqVxByte(op_vx(w), op_nn(w)))
    } else if hi == 0x4 {
        Some(Instruction::SkipNeqVxByte(op_vx(w), op_nn(w)))
    } else if hi == 0x5 {
        if w & 0xf == 0x0 {
            Some(Instruction::SkipEqVxVy(op_vx(w), op_vy(w)))
        } else {
            None
        }
    } else if hi == 0x6 {
        Some(Instruction::LoadVxByte(op_vx(w), op_nn(w)))
    } else if hi == 0x7 {
        Some(Instruction::AddVxByte(op_vx(w), op_nn(w)))
    } else if hi == 0x8 {
        let low = w & 0xf;
        if low == 0x0 {
            Some(Instruction::LoadVxVy(op_vx(w), op_vy(w)))
        } else if low == 0x1 {
            Some(Instruction::OrVxVy(op_vx(w), op_vy(w)))
        } else if low == 0x2 {
            Some(Instruction::AndVxVy(op_vx(w), op_vy(w)))
        } else if low == 0x3 {
            Some(Instruction::XorVxVy(op_vx(w), op_vy(w)))
        } else if low == 0x4 {
            Some(Instruction::AddVxVy(op_vx(w), op_vy(w)))
        } else if low == 0x5 {
            Some(Instruction::SubVxVy(op_vx(w), op_vy(w)))
        } else if low == 0x6 {
            Some(Instruction::ShrVxby1(op_vx(w)))
        } else if low == 0x7 {
            Some(Instruction::SubnVxVy(op_vx(w), op_vy(w)))
        } else if low == 0xe {
            Some(Instruction::ShlVxby1(op_vx(w)))
        } else {
            None
        }
    } else if hi == 0x9 {
        if w & 0xf == 0x0 {
            Some(Instruction::SkipNeqVxVy(op_vx(w), op_vy(w)))
        } else {
            None
        }
    } else if hi == 0xa {
        Some(Instruction::LoadIAddr(op_nnn(w)))
    } else if hi == 0xb {
        Some(Instruction::JumpV0Addr(op_nnn(w)))
    } else if hi == 0xc {
        Some(Instruction::RandVxAndByte(op_vx(w), op_nn(w)))
    } else if hi == 0xd {
        Some(Instruction::DisplaySpriteVxVyNibble(op_vx(w), op_vy(w), op_n(w)))
    } else if hi == 0xe {
        let low = w & 0xff;
        if low == 0x9e {
            Some(Instruction::SkipKeyPressedVx(op_vx(w)))
        } else if low == 0xa1 {
            Some(Instruction::SkipKeyNotPressedVx(op_vx(w)))
        } else {
            None
        }
    } else {
        let low = w & 0xff;
        if low == 0x07 {
            Some(Instruction::LoadVxDT(op_vx(w)))
        } else if low == 0x0a {
            Some(Instruction::LoadVxKey(op_vx(w)))
        } else if low == 0x15 {
            Some(Instruction::LoadDTVx(op_vx(w)))
        } else if low == 0x18 {
            Some(Instruction::LoadSTVx(op_vx(w)))
        } else if low == 0x1e {
            Some(Instruction::AddIVx(op_vx(w)))
        } else if low == 0x29 {
            Some(Instruction::LoadSpriteAddrVx(op_vx(w)))
        } else if low == 0x33 {
            Some(Instruction::LoadBVx(op_vx(w)))
        } else if low == 0x55 {
            Some(Instruction::StoreRegsVx(op_vx(w)))
        } else if low == 0x65 {
            Some(Instruction::LoadRegsVx(op_vx(w)))
        } else {
            None
        }
    }
}

/// The word that should decode to an instruction: each family's fixed bits
/// ORed with its operand fields at their positions. Meaningful for
/// instructions whose operands are in range (`wf_instr`).
pub open spec fn spec_encode(i: Instruction) -> u16 {
    match i {
        Instruction::ClearDisplay => 0x00e0,
        Instruction::Return => 0x00ee,
        Instruction::Jump(a) => 0x1000 | a,
        Instruction::JumpV0Addr(a) => 0xb000 | a,
        Instruction::Call(a) => 0x2000 | a,
        Instruction::SkipEqVxByte(x, nn) => 0x3000 | ((x as u16) << 8) | (nn as u16),
        Instruction::SkipEqVxVy(x, y) => 0x5000 | ((x as u16) << 8) | ((y as u16) << 4),
        Instruction::SkipKeyPressedVx(x) => 0xe09e | ((x as u16) << 8),
        Instruction::SkipKeyNotPressedVx(x) => 0xe0a1 | ((x as u16) << 8),
        Instruction::SkipNeqVxByte(x, nn) => 0x4000 | ((x as u16) << 8) | (nn as u16),
        Instruction::SkipNeqVxVy(x, y) => 0x9000 | ((x as u16) << 8) | ((y as u16) << 4),
        Instruction::LoadRegsVx(x) => 0xf065 | ((x as u16) << 8),
        Instruction::StoreRegsVx(x) => 0xf055 | ((x as u16) << 8),
        Instruction::LoadBVx(x) => 0xf033 | ((x as u16) << 8),
        Instruction::LoadDTVx(x) => 0xf015 | ((x as u16) << 8),
        Instruction::LoadIAddr(a) => 0xa000 | a,
        Instruction::LoadSTVx(x) => 0xf018 | ((x as u16) << 8),
        Instruction::LoadSpriteAddrVx(x) => 0xf029 | ((x as u16) << 8),
        Instruction::LoadVxByte(x, nn) => 0x6000 | ((x as u16) << 8) | (nn as u16),
        Instruction::LoadVxDT(x) => 0xf007 | ((x as u16) << 8),
        Instruction::LoadVxKey(x) => 0xf00a | ((x as u16) << 8),
        Instruction::LoadVxVy(x, y) => 0x8000 | ((x as u16) << 8) | ((y as u16) << 4),
        Instruction::AddIVx(x) => 0xf01e | ((x as u16) << 8),
        Instruction::AddVxByte(x, nn) => 0x7000 | ((x as u16) << 8) | (nn as u16),
        Instruction::AddVxVy(x, y) => 0x8004 | ((x as u16) << 8) | ((y as u16) << 4),
        Instruction::SubVxVy(x, y) => 0x8005 | ((x as u16) << 8) | ((y as u16) << 4),
        Instruction::SubnVxVy(x, y) => 0x8007 | ((x as u16) << 8) | ((y as u16) << 4),
        Instruction::XorVxVy(x, y) => 0x8003 | ((x as u16) << 8) | ((y as u16) << 4),
        Instruction::AndVxVy(x, y) => 0x8002 | ((x as u16) << 8) | ((y as u16) << 4),
        Instruction::OrVxVy(x, y) => 0x8001 | ((x as u16) << 8) | ((y as u16) << 4),
        Instruction::ShlVxby1(x) => 0x800e | ((x as u16) << 8),
        Instruction::ShrVxby1(x) => 0x8006 | ((x as u16) << 8),
        Instruction::RandVxAndByte(x, nn) => 0xc000 | ((x as u16) << 8) | (nn as u16),
        Instruction::DisplaySpriteVxVyNibble(x, y, n) => 0xd000 | ((x as u16) << 8) | ((y as u16)
            << 4) | (n as u16),
    }
}

/// Builds the word that decodes to `i`: the round-trip partner of `decode`,
/// meant for constructing programs and tests.
pub fn encode(i: Instruction) -> (w: u16)
    requires
        wf_instr(i),
    ensures
        w == spec_encode(i),
        spec_decode(w) == Some(i),
{
    proof {
        lemma_decode_encode(i);
    }
    match i {
        Instruction::ClearDisplay => 0x00e0,
        Instruction::Return => 0x00ee,
        Instruction::Jump(a) => 0x1000 | a,
        Instruction::JumpV0Addr(a) => 0xb000 | a,
        Instruction::Call(a) => 0x2000 | a,
        Instruction::SkipEqVxByte(x, nn) => 0x3000 | ((x as u16) << 8) | (nn as u16),
        Instruction::SkipEqVxVy(x, y) => 0x5000 | ((x as u16) << 8) | ((y as u16) << 4),
        Instruction::SkipKeyPressedVx(x) => 0xe09e | ((x as u16) << 8),
        Instruction::SkipKeyNotPressedVx(x) => 0xe0a1 | ((x as u16) << 8),
        Instruction::SkipNeqVxByte(x, nn) => 0x4000 | ((x as u16) << 8) | (nn as u16),
        Instruction::SkipNeqVxVy(x, y) => 0x9000 | ((x as u16) << 8) | ((y as u16) << 4),
        Instruction::LoadRegsVx(x) => 0xf065 | ((x as u16) << 8),
        Instruction::StoreRegsVx(x) => 0xf055 | ((x as u16) << 8),
        Instruction::LoadBVx(x) => 0xf033 | ((x as u16) << 8),
        Instruction::LoadDTVx(x) => 0xf015 | ((x as u16) << 8),
        Instruction::LoadIAddr(a) => 0xa000 | a,
        Instruction::LoadSTVx(x) => 0xf018 | ((x as u16) << 8),
        Instruction::LoadSpriteAddrVx(x) => 0xf029 | ((x as u16) << 8),
        Instruction::LoadVxByte(x, nn) => 0x6000 | ((x as u16) << 8) | (nn as u16),
        Instruction::LoadVxDT(x) => 0xf007 | ((x as u16) << 8),
        Instruction::LoadVxKey(x) => 0xf00a | ((x as u16) << 8),
        Instruction::LoadVxVy(x, y) => 0x8000 | ((x as u16) << 8) | ((y as u16) << 4),
        Instruction::AddIVx(x) => 0xf01e | ((x as u16) << 8),
        Instruction::AddVxByte(x, nn) => 0x7000 | ((x as u16) << 8) | (nn as u16),
        Instruction::AddVxVy(x, y) => 0x8004 | ((x as u16) << 8) | ((y as u16) << 4),
        Instruction::SubVxVy(x, y) => 0x8005 | ((x as u16) << 8) | ((y as u16) << 4),
        Instruction::SubnVxVy(x, y) => 0x8007 | ((x as u16) << 8) | ((y as u16) << 4),
        Instruction::XorVxVy(x, y) => 0x8003 | ((x as u16) << 8) | ((y as u16) << 4),
        Instruction::AndVxVy(x, y) => 0x8002 | ((x as u16) << 8) | ((y as u16) << 4),
        Instruction::OrVxVy(x, y) => 0x8001 | ((x as u16) << 8) | ((y as u16) << 4),
        Instruction::ShlVxby1(x) => 0x800e | ((x as u16) << 8),
        Instruction::ShrVxby1(x) => 0x8006 | ((x as u16) << 8),
        Instruction::RandVxAndByte(x, nn) => 0xc000 | ((x as u16) << 8) | (nn as u16),
        Instruction::DisplaySpriteVxVyNibble(x, y, n) => 0xd000 | ((x as u16) << 8) | ((y as u16)
            << 4) | (n as u16),
    }
}

/// The ranges of the operand fields extracted from any word.
pub proof fn lemma_op_bounds(w: u16)
    ensures
        (w >> 8) & 0xf < 16,
        (w >> 4) & 0xf < 16,
        w & 0xf < 16,
        w & 0xff < 256,
        w & 0xfff < 0x1000,
        w >> 12 < 16,
{
    assert((w >> 8) & 0xf < 16 && (w >> 4) & 0xf < 16 && w & 0xf < 16 && w & 0xff < 256 && w
        & 0xfff < 0x1000 && w >> 12 < 16) by (bit_vector);
}

/// Field extraction from a word of the address families: a high nibble over
/// a 12-bit address.
proof fn lemma_word_addr(hi: u16, a: u16)
    requires
        hi < 16,
        a < 0x1000,
    ensures
        (((hi * 0x1000) as u16) | a) >> 12 == hi,
        (((hi * 0x1000) as u16) | a) & 0xfff == a,
{
    assert((((hi * 0x1000) as u16) | a) >> 12 == hi && (((hi * 0x1000) as u16) | a) & 0xfff == a)
        by (bit_vector)
        requires
            hi < 16,
            a < 0x1000,
    ;
}

/// Field extraction from a word of the register-immediate families: a high
/// nibble, a register index and an 8-bit immediate.
proof fn lemma_word_xnn(hi: u16, xv: u16, nv: u16)
    requires
        hi < 16,
        xv < 16,
        nv < 256,
    ensures
        (((hi * 0x1000) as u16) | (xv << 8) | nv) >> 12 == hi,
        ((((hi * 0x1000) as u16) | (xv << 8) | nv) >> 8) & 0xf == xv,
        (((hi * 0x1000) as u16) | (xv << 8) | nv) & 0xff == nv,
    {
    assert((((hi * 0x1000) as u16) | (xv << 8) | nv) >> 12 == hi && ((((hi * 0x1000) as u16) | (xv
        << 8) | nv) >> 8) & 0xf == xv && (((hi * 0x1000) as u16) | (xv << 8) | nv) & 0xff == nv)
        by (bit_vector)
        requires
            hi < 16,
            xv < 16,
            nv < 256,
    ;
}

/// Field extraction from a word of the families keyed by a fixed low byte:
/// a high nibble, a fixed low byte and a register index.
proof fn lemma_word_xkk(hi: u16, kk: u16, xv: u16)
    requires
        hi < 16,
        kk < 256,
        xv < 16,
    ensures
        (((hi * 0x1000 + kk) as u16) | (xv << 8)) >> 12 == hi,
        (((hi * 0x1000 + kk) as u16) | (xv << 8)) & 0xff == kk,
        ((((hi * 0x1000 + kk) as u16) | (xv << 8)) >> 8) & 0xf == xv,
        kk < 16 ==> (((hi * 0x1000 + kk) as u16) | (xv << 8)) & 0xf == kk,
{
    assert((((hi * 0x1000 + kk) as u16) | (xv << 8)) >> 12 == hi && (((hi * 0x1000 + kk) as u16) | (
    xv << 8)) & 0xff == kk && ((((hi * 0x1000 + kk) as u16) | (xv << 8)) >> 8) & 0xf == xv && (kk
        < 16 ==> (((hi * 0x1000 + kk) as u16) | (xv << 8)) & 0xf == kk)) by (bit_vector)
        requires
            hi < 16,
            kk < 256,
            xv < 16,
    ;
}

/// Field extraction from a word of the register-register families: a high
/// nibble, two register indices and a fixed low nibble.
proof fn lemma_word_xyk(hi: u16, k: u16, xv: u16, yv: u16)
    requires
        hi < 16,
        k < 16,
        xv < 16,
        yv < 16,
    ensures
        (((hi * 0x1000 + k) as u16) | (xv << 8) | (yv << 4)) >> 12 == hi,
        ((((hi * 0x1000 + k) as u16) | (xv << 8) | (yv << 4)) >> 8) & 0xf == xv,
        ((((hi * 0x1000 + k) as u16) | (xv << 8) | (yv << 4)) >> 4) & 0xf == yv,
        (((hi * 0x1000 + k) as u16) | (xv << 8) | (yv << 4)) & 0xf == k,
{
    assert((((hi * 0x1000 + k) as u16) | (xv << 8) | (yv << 4)) >> 12 == hi && ((((hi * 0x1000 + k)
        as u16) | (xv << 8) | (yv << 4)) >> 8) & 0xf == xv && ((((hi * 0x1000 + k) as u16) | (xv
        << 8) | (yv << 4)) >> 4) & 0xf == yv && (((hi * 0x1000 + k) as u16) | (xv << 8) | (yv << 4))
        & 0xf == k) by (bit_vector)
        requires
            hi < 16,
            k < 16,
            xv < 16,
            yv < 16,
    ;
}

/// Field extraction from the sprite-draw family: a high nibble, two register
/// indices and a 4-bit count.
proof fn lemma_word_xyn(hi: u16, xv: u16, yv: u16, nv: u16)
    requires
        hi < 16,
        xv < 16,
        yv < 16,
        nv < 16,
    ensures
        (((hi * 0x1000) as u16) | (xv << 8) | (yv << 4) | nv) >> 12 == hi,
        ((((hi * 0x1000) as u16) | (xv << 8) | (yv << 4) | nv) >> 8) & 0xf == xv,
        ((((hi * 0x1000) as u16) | (xv << 8) | (yv << 4) | nv) >> 4) & 0xf == yv,
        (((hi * 0x1000) as u16) | (xv << 8) | (yv << 4) | nv) & 0xf == nv,
{
    assert((((hi * 0x1000) as u16) | (xv << 8) | (yv << 4) | nv) >> 12 == hi && ((((hi * 0x1000)
        as u16) | (xv << 8) | (yv << 4) | nv) >> 8) & 0xf == xv && ((((hi * 0x1000) as u16) | (xv
        << 8) | (yv << 4) | nv) >> 4) & 0xf == yv && (((hi * 0x1000) as u16) | (xv << 8) | (yv << 4)
        | nv) & 0xf == nv) by (bit_vector)
        requires
            hi < 16,
            xv < 16,
            yv < 16,
            nv < 16,
    ;
}

/// Constructing the word that should decode to an instruction and decoding
/// it yields exactly that instruction with the same operand values, for
/// every recognized opcode and every in-range choice of operands.
pub proof fn lemma_decode_encode(i: Instruction)
    requires
        wf_instr(i),
    ensures
        spec_decode(spec_encode(i)) == Some(i),
{
    assert(0x00e0u16 >> 12 == 0 && 0x00eeu16 >> 12 == 0) by (bit_vector);
    match i {
        Instruction::ClearDisplay => {
        },
        Instruction::Return => {
        },
        Instruction::Jump(a) => {
            lemma_word_addr(1, a);
        },
        Instruction::JumpV0Addr(a) => {
            lemma_word_addr(0xb, a);
        },
        Instruction::Call(a) => {
            lemma_word_addr(2, a);
        },
        Instruction::LoadIAddr(a) => {
            lemma_word_addr(0xa, a);
        },
        Instruction::SkipEqVxByte(x, nn) => {
            lemma_word_xnn(3, x as u16, nn as u16);
        },
        Instruction::SkipNeqVxByte(x, nn) => {
            lemma_word_xnn(4, x as u16, nn as u16);
        },
        Instruction::LoadVxByte(x, nn) => {
            lemma_word_xnn(6, x as u16, nn as u16);
        },
        Instruction::AddVxByte(x, nn) => {
            lemma_word_xnn(7, x as u16, nn as u16);
        },
        Instruction::RandVxAndByte(x, nn) => {
            lemma_word_xnn(0xc, x as u16, nn as u16);
        },
        Instruction::SkipEqVxVy(x, y) => {
            lemma_word_xyk(5, 0, x as u16, y as u16);
        },
        Instruction::SkipNeqVxVy(x, y) => {
            lemma_word_xyk(9, 0, x as u16, y as u16);
        },
        Instruction::LoadVxVy(x, y) => {
            lemma_word_xyk(8, 0, x as u16, y as u16);
        },
        Instruction::OrVxVy(x, y) => {
            lemma_word_xyk(8, 1, x as u16, y as u16);
        },
        Instruction::AndVxVy(x, y) => {
            lemma_word_xyk(8, 2, x as u16, y as u16);
        },
        Instruction::XorVxVy(x, y) => {
            lemma_word_xyk(8, 3, x as u16, y as u16);
        },
        Instruction::AddVxVy(x, y) => {
            lemma_word_xyk(8, 4, x as u16, y as u16);
        },
        Instruction::SubVxVy(x, y) => {
            lemma_word_xyk(8, 5, x as u16, y as u16);
        },
        Instruction::SubnVxVy(x, y) => {
            lemma_word_xyk(8, 7, x as u16, y as u16);
        },
        Instruction::ShrVxby1(x) => {
            lemma_word_xkk(8, 6, x as u16);
        },
        Instruction::ShlVxby1(x) => {
            lemma_word_xkk(8, 0xe, x as u16);
        },
        Instruction::DisplaySpriteVxVyNibble(x, y, n) => {
            lemma_word_xyn(0xd, x as u16, y as u16, n as u16);
        },
        Instruction::SkipKeyPressedVx(x) => {
            lemma_word_xkk(0xe, 0x9e, x as u16);
        },
        Instruction::SkipKeyNotPressedVx(x) => {
            lemma_word_xkk(0xe, 0xa1, x as u16);
        },
        Instruction::LoadVxDT(x) => {
            lemma_word_xkk(0xf, 0x07, x as u16);
        },
        Instruction::LoadVxKey(x) => {
            lemma_word_xkk(0xf, 0x0a, x as u16);
        },
        Instruction::LoadDTVx(x) => {
            lemma_word_xkk(0xf, 0x15, x as u16);
        },
        Instruction::LoadSTVx(x) => {
            lemma_word_xkk(0xf, 0x18, x as u16);
        },
        Instruction::AddIVx(x) => {
            lemma_word_xkk(0xf, 0x1e, x as u16);
        },
        Instruction::LoadSpriteAddrVx(x) => {
            lemma_word_xkk(0xf, 0x29, x as u16);
        },
        Instruction::LoadBVx(x) => {
            lemma_word_xkk(0xf, 0x33, x as u16);
        },
        Instruction::StoreRegsVx(x) => {
            lemma_word_xkk(0xf, 0x55, x as u16);
        },
        Instruction::LoadRegsVx(x) => {
            lemma_word_xkk(0xf, 0x65, x as u16);
        },
    }
}

/// Every instruction a word decodes to carries in-range operand fields.
pub proof fn lemma_decode_wf(w: u16)
    ensures
        spec_decode(w) matches Some(i) ==> wf_instr(i),
{
    lemma_op_bounds(w);
}

/// Decodes a 16-bit word: the matched instruction with its extracted
/// operands, or `None` if the word matches no pattern. Never raises;
/// callers decide fatality.
pub fn decode(instr: u16) -> (r: Option<Instruction>)
    ensures
        r == spec_decode(instr),
        r matches Some(i) ==> wf_instr(i),
{
    proof {
        lemma_op_bounds(instr);
    }
    let vx = ((instr >> 8) & 0xf) as usize;
    let vy = ((instr >> 4) & 0xf) as usize;
    let nnn = instr & 0xfff;
    let nn = (instr & 0xff) as u8;
    let n = (instr & 0xf) as u8;
    let hi = instr >> 12;
    if hi == 0x0 {
        if instr == 0x00e0 {
            Some(Instruction::ClearDisplay)
        } else if instr == 0x00ee {
            Some(Instruction::Return)
        } else {
            None
        }
    } else if hi == 0x1 {
        Some(Instruction::Jump(nnn))
    } else if hi == 0x2 {
        Some(Instruction::Call(nnn))
    } else if hi == 0x3 {
        Some(Instruction::SkipEqVxByte(vx, nn))
    } else if hi == 0x4 {
        Some(Instruction::SkipNeqVxByte(vx, nn))
    } else if hi == 0x5 {
        if instr & 0xf == 0x0 {
            Some(Instruction::SkipEqVxVy(vx, vy))
        } else {
            None
        }
    } else if hi == 0x6 {
        Some(Instruction::LoadVxByte(vx, nn))
    } else if hi == 0x7 {
        Some(Instruction::AddVxByte(vx, nn))
    } else if hi == 0x8 {
        let low = instr & 0xf;
        if low == 0x0 {
            Some(Instruction::LoadVxVy(vx, vy))
        } else if low == 0x1 {
            Some(Instruction::OrVxVy(vx, vy))
        } else if low == 0x2 {
            Some(Instruction::AndVxVy(vx, vy))
        } else if low == 0x3 {
            Some(Instruction::XorVxVy(vx, vy))
        } else if low == 0x4 {
            Some(Instruction::AddVxVy(vx, vy))
        } else if low == 0x5 {
            Some(Instruction::SubVxVy(vx, vy))
        } else if low == 0x6 {
            Some(Instruction::ShrVxby1(vx))
        } else if low == 0x7 {
            Some(Instruction::SubnVxVy(vx, vy))
        } else if low == 0xe {
            Some(Instruction::ShlVxby1(vx))
        } else {
            None
        }
    } else if hi == 0x9 {
        if instr & 0xf == 0x0 {
            Some(Instruction::SkipNeqVxVy(vx, vy))
        } else {
            None
        }
    } else if hi == 0xa {
        Some(Instruction::LoadIAddr(nnn))
    } else if hi == 0xb {
        Some(Instruction::JumpV0Addr(nnn))
    } else if hi == 0xc {
        Some(Instruction::RandVxAndByte(vx, nn))
    } else if hi == 0xd {
        Some(Instruction::DisplaySpriteVxVyNibble(vx, vy, n))
    } else if hi == 0xe {
        let low = instr & 0xff;
        if low == 0x9e {
            Some(Instruction::SkipKeyPressedVx(vx))
        } else if low == 0xa1 {
            Some(Instruction::SkipKeyNotPressedVx(vx))
        } else {
            None
        }
    } else {
        let low = instr & 0xff;
        if low == 0x07 {
            Some(Instruction::LoadVxDT(vx))
        } else if low == 0x0a {
            Some(Instruction::LoadVxKey(vx))
        } else if low == 0x15 {
            Some(Instruction::LoadDTVx(vx))
        } else if low == 0x18 {
            Some(Instruction::LoadSTVx(vx))
        } else if low == 0x1e {
            Some(Instruction::AddIVx(vx))
        } else if low == 0x29 {
            Some(Instruction::LoadSpriteAddrVx(vx))
        } else if low == 0x33 {
            Some(Instruction::LoadBVx(vx))
        } else if low == 0x55 {
            Some(Instruction::StoreRegsVx(vx))
        } else if low == 0x65 {
            Some(Instruction::LoadRegsVx(vx))
        } else {
            None
        }
    }
}

/// The text of a register operand: `V` then one hex digit.
pub open spec fn reg_txt(x: int) -> Seq<u8> {
    seq![0x56u8] + hex1_lower(x)
}

/// The separator between two operands.
pub open spec fn sep_txt() -> Seq<u8> {
    seq![0x2cu8, 0x20u8]
}

/// The canonical mnemonic of an instruction, as ASCII bytes.
pub open spec fn spec_mnemonic(i: Instruction) -> Seq<u8> {
    match i {
        // CLS
        Instruction::ClearDisplay => seq![0x43u8, 0x4cu8, 0x53u8],
        // RET
        Instruction::Return => seq![0x52u8, 0x45u8, 0x54u8],
        // JP nnnn
        Instruction::Jump(a) => seq![0x4au8, 0x50u8, 0x20u8] + hex4_lower(a as int),
        // JP V0, nnnn
        Instruction::JumpV0Addr(a) => seq![0x4au8, 0x50u8, 0x20u8, 0x56u8, 0x30u8, 0x2cu8, 0x20u8] + hex4_lower(a as int),
        // CALL nnnn
        Instruction::Call(a) => seq![0x43u8, 0x41u8, 0x4cu8, 0x4cu8, 0x20u8] + hex4_lower(a as int),
        // SE Vx, nn
        Instruction::SkipEqVxByte(x, nn) => seq![0x53u8, 0x45u8, 0x20u8] + reg_txt(x as int) + sep_txt() + hex2_lower(nn as int),
        // SE Vx, Vy
        Instruction::SkipEqVxVy(x, y) => seq![0x53u8, 0x45u8, 0x20u8] + reg_txt(x as int) + sep_txt() + reg_txt(y as int),
        // SKP Vx
        Instruction::SkipKeyPressedVx(x) => seq![0x53u8, 0x4bu8, 0x50u8, 0x20u8] + reg_txt(x as int),
        // SKNP Vx
        Instruction::SkipKeyNotPressedVx(x) => seq![0x53u8, 0x4bu8, 0x4eu8, 0x50u8, 0x20u8] + reg_txt(x as int),
        // SNE Vx, nn
        Instruction::SkipNeqVxByte(x, nn) => seq![0x53u8, 0x4eu8, 0x45u8, 0x20u8] + reg_txt(x as int) + sep_txt() + hex2_lower(nn as int),
        // SNE Vx, Vy
        Instruction::SkipNeqVxVy(x, y) => seq![0x53u8, 0x4eu8, 0x45u8, 0x20u8] + reg_txt(x as int) + sep_txt() + reg_txt(y as int),
        // LD Vx, [I]
        Instruction::LoadRegsVx(x) => seq![0x4cu8, 0x44u8, 0x20u8] + reg_txt(x as int) + sep_txt() + seq![0x5bu8, 0x49u8, 0x5du8],
        // LD [I], Vx
        Instruction::StoreRegsVx(x) => seq![0x4cu8, 0x44u8, 0x20u8, 0x5bu8, 0x49u8, 0x5du8, 0x2cu8, 0x20u8] + reg_txt(x as int),
        // LD B, Vx
        Instruction::LoadBVx(x) => seq![0x4cu8, 0x44u8, 0x20u8, 0x42u8, 0x2cu8, 0x20u8] + reg_txt(x as int),
        // LD DT, Vx
        Instruction::LoadDTVx(x) => seq![0x4cu8, 0x44u8, 0x20u8, 0x44u8, 0x54u8, 0x2cu8, 0x20u8] + reg_txt(x as int),
        // LD I, nnnn
        Instruction::LoadIAddr(a) => seq![0x4cu8, 0x44u8, 0x20u8, 0x49u8, 0x2cu8, 0x20u8] + hex4_lower(a as int),
        // LD ST, Vx
        Instruction::LoadSTVx(x) => seq![0x4cu8, 0x44u8, 0x20u8, 0x53u8, 0x54u8, 0x2cu8, 0x20u8] + reg_txt(x as int),
        // LD F, Vx
        Instruction::LoadSpriteAddrVx(x) => seq![0x4cu8, 0x44u8, 0x20u8, 0x46u8, 0x2cu8, 0x20u8] + reg_txt(x as int),
        // LD Vx, nn
        Instruction::LoadVxByte(x, nn) => seq![0x4cu8, 0x44u8, 0x20u8] + reg_txt(x as int) + sep_txt() + hex2_lower(nn as int),
        // LD Vx, DT
        Instruction::LoadVxDT(x) => seq![0x4cu8, 0x44u8, 0x20u8] + reg_txt(x as int) + sep_txt() + seq![0x44u8, 0x54u8],
        // LD Vx, K
        Instruction::LoadVxKey(x) => seq![0x4cu8, 0x44u8, 0x20u8] + reg_txt(x as int) + sep_txt() + seq![0x4bu8],
        // LD Vx, Vy
        Instruction::LoadVxVy(x, y) => seq![0x4cu8, 0x44u8, 0x20u8] + reg_txt(x as int) + sep_txt() + reg_txt(y as int),
        // ADD I, Vx
        Instruction::AddIVx(x) => seq![0x41u8, 0x44u8, 0x44u8, 0x20u8, 0x49u8, 0x2cu8, 0x20u8] + reg_txt(x as int),
        // ADD Vx, nn
        Instruction::AddVxByte(x, nn) => seq![0x41u8, 0x44u8, 0x44u8, 0x20u8] + reg_txt(x as int) + sep_txt() + hex2_lower(nn as int),
        // ADD Vx, Vy
        Instruction::AddVxVy(x, y) => seq![0x41u8, 0x44u8, 0x44u8, 0x20u8] + reg_txt(x as int) + sep_txt() + reg_txt(y as int),
        // SUB Vx, Vy
        Instruction::SubVxVy(x, y) => seq![0x53u8, 0x55u8, 0x42u8, 0x20u8] + reg_txt(x as int) + sep_txt() + reg_txt(y as int),
        // SUBN Vx, Vy
        Instruction::SubnVxVy(x, y) => seq![0x53u8, 0x55u8, 0x42u8, 0x4eu8, 0x20u8] + reg_txt(x as int) + sep_txt() + reg_txt(y as int),
        // XOR Vx, Vy
        Instruction::XorVxVy(x, y) => seq![0x58u8, 0x4fu8, 0x52u8, 0x20u8] + reg_txt(x as int) + sep_txt() + reg_txt(y as int),
        // AND Vx, Vy
        Instruction::AndVxVy(x, y) => seq![0x41u8, 0x4eu8, 0x44u8, 0x20u8] + reg_txt(x as int) + sep_txt() + reg_txt(y as int),
        // OR Vx, Vy
        Instruction::OrVxVy(x, y) => seq![0x4fu8, 0x52u8, 0x20u8] + reg_txt(x as int) + sep_txt() + reg_txt(y as int),
        // SHL x
        Instruction::ShlVxby1(x) => seq![0x53u8, 0x48u8, 0x4cu8, 0x20u8] + hex1_lower(x as int),
        // SHR Vx
        Instruction::ShrVxby1(x) => seq![0x53u8, 0x48u8, 0x52u8, 0x20u8] + reg_txt(x as int),
        // RND Vx, 00nn
        Instruction::RandVxAndByte(x, nn) => seq![0x52u8, 0x4eu8, 0x44u8, 0x20u8] + reg_txt(x as int) + sep_txt() + hex4_lower(nn as int),
        // DRW Vx, Vy, n
        Instruction::DisplaySpriteVxVyNibble(x, y, n) => seq![0x44u8, 0x52u8, 0x57u8, 0x20u8] + reg_txt(x as int) + sep_txt() + reg_txt(y as int) + sep_txt() + hex1_lower(n as int),
    }
}

/// What `disassemble` prints for a word: the mnemonic of the decoded
/// instruction, or `NO DISASM` for an unrecognized word.
pub open spec fn spec_disasm(w: u16) -> Seq<u8> {
    match spec_decode(w) {
        Some(i) => spec_mnemonic(i),
        None => seq![0x4eu8, 0x4fu8, 0x20u8, 0x44u8, 0x49u8, 0x53u8, 0x41u8, 0x53u8, 0x4du8],
    }
}

/// Appends a register operand.
fn push_reg(v: &mut Vec<u8>, x: usize)
    requires
        x < 16,
    ensures
        final(v)@ == old(v)@ + reg_txt(x as int),
        all_ascii(old(v)@) ==> all_ascii(final(v)@),
{
    push_lit(v, 0x56u8);
    push_hex1_lower(v, x as u8);
    proof {
        assert(v@ =~= old(v)@ + reg_txt(x as int));
    }
}

/// Appends the operand separator.
fn push_sep(v: &mut Vec<u8>)
    ensures
        final(v)@ == old(v)@ + sep_txt(),
        all_ascii(old(v)@) ==> all_ascii(final(v)@),
{
    push_lit(v, 0x2cu8);
    push_lit(v, 0x20u8);
    proof {
        assert(v@ =~= old(v)@ + sep_txt());
    }
}

/// Renders the canonical text mnemonic of a word, staying in step with the
/// decoder: same match order, same operand extraction. Diagnostic only.
pub fn disassemble(instr: u16) -> (r: String)
    ensures
        r@ == chars_of(spec_disasm(instr)),
{
    let d = decode(instr);
    let mut v: Vec<u8> = Vec::new();
    proof {
        assert(all_ascii(v@));
    }
    match d {
        None => {
            push_lit(&mut v, 0x4eu8);
            push_lit(&mut v, 0x4fu8);
            push_lit(&mut v, 0x20u8);
            push_lit(&mut v, 0x44u8);
            push_lit(&mut v, 0x49u8);
            push_lit(&mut v, 0x53u8);
            push_lit(&mut v, 0x41u8);
            push_lit(&mut v, 0x53u8);
            push_lit(&mut v, 0x4du8);
            proof {
                assert(v@ =~= spec_disasm(instr));
            }
        },
        Some(decoded) => {
            match decoded {
                Instruction::ClearDisplay => {
                    push_lit(&mut v, 0x43u8);
                    push_lit(&mut v, 0x4cu8);
                    push_lit(&mut v, 0x53u8);
                    proof {
                        assert(v@ =~= spec_mnemonic(Instruction::ClearDisplay));
                    }
                },
                Instruction::Return => {
                    push_lit(&mut v, 0x52u8);
                    push_lit(&mut v, 0x45u8);
                    push_lit(&mut v, 0x54u8);
                    proof {
                        assert(v@ =~= spec_mnemonic(Instruction::Return));
                    }
                },
                Instruction::Jump(a) => {
                    push_lit(&mut v, 0x4au8);
                    push_lit(&mut v, 0x50u8);
                    push_lit(&mut v, 0x20u8);
                    push_hex4_lower(&mut v, a);
                    proof {
                        assert(v@ =~= spec_mnemonic(Instruction::Jump(a)));
                    }
                },
                Instruction::JumpV0Addr(a) => {
                    push_lit(&mut v, 0x4au8);
                    push_lit(&mut v, 0x50u8);
                    push_lit(&mut v, 0x20u8);
                    push_lit(&mut v, 0x56u8);
                    push_lit(&mut v, 0x30u8);
                    push_lit(&mut v, 0x2cu8);
                    push_lit(&mut v, 0x20u8);
                    push_hex4_lower(&mut v, a);
                    proof {
                        assert(v@ =~= spec_mnemonic(Instruction::JumpV0Addr(a)));
                    }
                },
                Instruction::Call(a) => {
                    push_lit(&mut v, 0x43u8);
                    push_lit(&mut v, 0x41u8);
                    push_lit(&mut v, 0x4cu8);
                    push_lit(&mut v, 0x4cu8);
                    push_lit(&mut v, 0x20u8);
                    push_hex4_lower(&mut v, a);
                    proof {
                        assert(v@ =~= spec_mnemonic(Instruction::Call(a)));
                    }
                },
                Instruction::SkipEqVxByte(x, nn) => {
                    push_lit(&mut v, 0x53u8);
                    push_lit(&mut v, 0x45u8);
                    push_lit(&mut v, 0x20u8);
                    push_reg(&mut v, x);
                    push_sep(&mut v);
                    push_hex2_lower(&mut v, nn);
                    proof {
                        assert(v@ =~= spec_mnemonic(Instruction::SkipEqVxByte(x, nn)));
                    }
                },
                Instruction::SkipEqVxVy(x, y) => {
                    push_lit(&mut v, 0x53u8);
                    push_lit(&mut v, 0x45u8);
                    push_lit(&mut v, 0x20u8);
                    push_reg(&mut v, x);
                    push_sep(&mut v);
                    push_reg(&mut v, y);
                    proof {
                        assert(v@ =~= spec_mnemonic(Instruction::SkipEqVxVy(x, y)));
                    }
                },
                Instruction::SkipKeyPressedVx(x) => {
                    push_lit(&mut v, 0x53u8);
                    push_lit(&mut v, 0x4bu8);
                    push_lit(&mut v, 0x50u8);
                    push_lit(&mut v, 0x20u8);
                    push_reg(&mut v, x);
                    proof {
                        assert(v@ =~= spec_mnemonic(Instruction::SkipKeyPressedVx(x)));
                    }
                },
                Instruction::SkipKeyNotPressedVx(x) => {
                    push_lit(&mut v, 0x53u8);
                    push_lit(&mut v, 0x4bu8);
                    push_lit(&mut v, 0x4eu8);
                    push_lit(&mut v, 0x50u8);
                    push_lit(&mut v, 0x20u8);
                    push_reg(&mut v, x);
                    proof {
                        assert(v@ =~= spec_mnemonic(Instruction::SkipKeyNotPressedVx(x)));
                    }
                },
                Instruction::SkipNeqVxByte(x, nn) => {
                    push_lit(&mut v, 0x53u8);
                    push_lit(&mut v, 0x4eu8);
                    push_lit(&mut v, 0x45u8);
                    push_lit(&mut v, 0x20u8);
                    push_reg(&mut v, x);
                    push_sep(&mut v);
                    push_hex2_lower(&mut v, nn);
                    proof {
                        assert(v@ =~= spec_mnemonic(Instruction::SkipNeqVxByte(x, nn)));
                    }
                },
                Instruction::SkipNeqVxVy(x, y) => {
                    push_lit(&mut v, 0x53u8);
                    push_lit(&mut v, 0x4eu8);
                    push_lit(&mut v, 0x45u8);
                    push_lit(&mut v, 0x20u8);
                    push_reg(&mut v, x);
                    push_sep(&mut v);
                    push_reg(&mut v, y);
                    proof {
                        assert(v@ =~= spec_mnemonic(Instruction::SkipNeqVxVy(x, y)));
                    }
                },
                Instruction::LoadRegsVx(x) => {
                    push_lit(&mut v, 0x4cu8);
                    push_lit(&mut v, 0x44u8);
                    push_lit(&mut v, 0x20u8);
                    push_reg(&mut v, x);
                    push_sep(&mut v);
                    push_lit(&mut v, 0x5bu8);
                    push_lit(&mut v, 0x49u8);
                    push_lit(&mut v, 0x5du8);
                    proof {
                        assert(v@ =~= spec_mnemonic(Instruction::LoadRegsVx(x)));
                    }
                },
                Instruction::StoreRegsVx(x) => {
                    push_lit(&mut v, 0x4cu8);
                    push_lit(&mut v, 0x44u8);
                    push_lit(&mut v, 0x20u8);
                    push_lit(&mut v, 0x5bu8);
                    push_lit(&mut v, 0x49u8);
                    push_lit(&mut v, 0x5du8);
                    push_lit(&mut v, 0x2cu8);
                    push_lit(&mut v, 0x20u8);
                    push_reg(&mut v, x);
                    proof {
                        assert(v@ =~= spec_mnemonic(Instruction::StoreRegsVx(x)));
                    }
                },
                Instruction::LoadBVx(x) => {
                    push_lit(&mut v, 0x4cu8);
                    push_lit(&mut v, 0x44u8);
                    push_lit(&mut v, 0x20u8);
                    push_lit(&mut v, 0x42u8);
                    push_lit(&mut v, 0x2cu8);
                    push_lit(&mut v, 0x20u8);
                    push_reg(&mut v, x);
                    proof {
                        assert(v@ =~= spec_mnemonic(Instruction::LoadBVx(x)));
                    }
                },
                Instruction::LoadDTVx(x) => {
                    push_lit(&mut v, 0x4cu8);
                    push_lit(&mut v, 0x44u8);
                    push_lit(&mut v, 0x20u8);
                    push_lit(&mut v, 0x44u8);
                    push_lit(&mut v, 0x54u8);
                    push_lit(&mut v, 0x2cu8);
                    push_lit(&mut v, 0x20u8);
                    push_reg(&mut v, x);
                    proof {
                        assert(v@ =~= spec_mnemonic(Instruction::LoadDTVx(x)));
                    }
                },
                Instruction::LoadIAddr(a) => {
                    push_lit(&mut v, 0x4cu8);
                    push_lit(&mut v, 0x44u8);
                    push_lit(&mut v, 0x20u8);
                    push_lit(&mut v, 0x49u8);
                    push_lit(&mut v, 0x2cu8);
                    push_lit(&mut v, 0x20u8);
                    push_hex4_lower(&mut v, a);
                    proof {
                        assert(v@ =~= spec_mnemonic(Instruction::LoadIAddr(a)));
                    }
                },
                Instruction::LoadSTVx(x) => {
                    push_lit(&mut v, 0x4cu8);
                    push_lit(&mut v, 0x44u8);
                    push_lit(&mut v, 0x20u8);
                    push_lit(&mut v, 0x53u8);
                    push_lit(&mut v, 0x54u8);
                    push_lit(&mut v, 0x2cu8);
                    push_lit(&mut v, 0x20u8);
                    push_reg(&mut v, x);
                    proof {
                        assert(v@ =~= spec_mnemonic(Instruction::LoadSTVx(x)));
                    }
                },
                Instruction::LoadSpriteAddrVx(x) => {
                    push_lit(&mut v, 0x4cu8);
                    push_lit(&mut v, 0x44u8);
                    push_lit(&mut v, 0x20u8);
                    push_lit(&mut v, 0x46u8);
                    push_lit(&mut v, 0x2cu8);
                    push_lit(&mut v, 0x20u8);
                    push_reg(&mut v, x);
                    proof {
                        assert(v@ =~= spec_mnemonic(Instruction::LoadSpriteAddrVx(x)));
                    }
                },
                Instruction::LoadVxByte(x, nn) => {
                    push_lit(&mut v, 0x4cu8);
                    push_lit(&mut v, 0x44u8);
                    push_lit(&mut v, 0x20u8);
                    push_reg(&mut v, x);
                    push_sep(&mut v);
                    push_hex2_lower(&mut v, nn);
                    proof {
                        assert(v@ =~= spec_mnemonic(Instruction::LoadVxByte(x, nn)));
                    }
                },
                Instruction::LoadVxDT(x) => {
                    push_lit(&mut v, 0x4cu8);
                    push_lit(&mut v, 0x44u8);
                    push_lit(&mut v, 0x20u8);
                    push_reg(&mut v, x);
                    push_sep(&mut v);
                    push_lit(&mut v, 0x44u8);
                    push_lit(&mut v, 0x54u8);
                    proof {
                        assert(v@ =~= spec_mnemonic(Instruction::LoadVxDT(x)));
                    }
                },
                Instruction::LoadVxKey(x) => {
                    push_lit(&mut v, 0x4cu8);
                    push_lit(&mut v, 0x44u8);
                    push_lit(&mut v, 0x20u8);
                    push_reg(&mut v, x);
                    push_sep(&mut v);
                    push_lit(&mut v, 0x4bu8);
                    proof {
                        assert(v@ =~= spec_mnemonic(Instruction::LoadVxKey(x)));
                    }
                },
                Instruction::LoadVxVy(x, y) => {
                    push_lit(&mut v, 0x4cu8);
                    push_lit(&mut v, 0x44u8);
                    push_lit(&mut v, 0x20u8);
                    push_reg(&mut v, x);
                    push_sep(&mut v);
                    push_reg(&mut v, y);
                    proof {
                        assert(v@ =~= spec_mnemonic(Instruction::LoadVxVy(x, y)));
                    }
                },
                Instruction::AddIVx(x) => {
                    push_lit(&mut v, 0x41u8);
                    push_lit(&mut v, 0x44u8);
                    push_lit(&mut v, 0x44u8);
                    push_lit(&mut v, 0x20u8);
                    push_lit(&mut v, 0x49u8);
                    push_lit(&mut v, 0x2cu8);
                    push_lit(&mut v, 0x20u8);
                    push_reg(&mut v, x);
                    proof {
                        assert(v@ =~= spec_mnemonic(Instruction::AddIVx(x)));
                    }
                },
                Instruction::AddVxByte(x, nn) => {
                    push_lit(&mut v, 0x41u8);
                    push_lit(&mut v, 0x44u8);
                    push_lit(&mut v, 0x44u8);
                    push_lit(&mut v, 0x20u8);
                    push_reg(&mut v, x);
                    push_sep(&mut v);
                    push_hex2_lower(&mut v, nn);
                    proof {
                        assert(v@ =~= spec_mnemonic(Instruction::AddVxByte(x, nn)));
                    }
                },
                Instruction::AddVxVy(x, y) => {
                    push_lit(&mut v, 0x41u8);
                    push_lit(&mut v, 0x44u8);
                    push_lit(&mut v, 0x44u8);
                    push_lit(&mut v, 0x20u8);
                    push_reg(&mut v, x);
                    push_sep(&mut v);
                    push_reg(&mut v, y);
                    proof {
                        assert(v@ =~= spec_mnemonic(Instruction::AddVxVy(x, y)));
                    }
                },
                Instruction::SubVxVy(x, y) => {
                    push_lit(&mut v, 0x53u8);
                    push_lit(&mut v, 0x55u8);
                    push_lit(&mut v, 0x42u8);
                    push_lit(&mut v, 0x20u8);
                    push_reg(&mut v, x);
                    push_sep(&mut v);
                    push_reg(&mut v, y);
                    proof {
                        assert(v@ =~= spec_mnemonic(Instruction::SubVxVy(x, y)));
                    }
                },
                Instruction::SubnVxVy(x, y) => {
                    push_lit(&mut v, 0x53u8);
                    push_lit(&mut v, 0x55u8);
                    push_lit(&mut v, 0x42u8);
                    push_lit(&mut v, 0x4eu8);
                    push_lit(&mut v, 0x20u8);
                    push_reg(&mut v, x);
                    push_sep(&mut v);
                    push_reg(&mut v, y);
                    proof {
                        assert(v@ =~= spec_mnemonic(Instruction::SubnVxVy(x, y)));
                    }
                },
                Instruction::XorVxVy(x, y) => {
                    push_lit(&mut v, 0x58u8);
                    push_lit(&mut v, 0x4fu8);
                    push_lit(&mut v, 0x52u8);
                    push_lit(&mut v, 0x20u8);
                    push_reg(&mut v, x);
                    push_sep(&mut v);
                    push_reg(&mut v, y);
                    proof {
                        assert(v@ =~= spec_mnemonic(Instruction::XorVxVy(x, y)));
                    }
                },
                Instruction::AndVxVy(x, y) => {
                    push_lit(&mut v, 0x41u8);
                    push_lit(&mut v, 0x4eu8);
                    push_lit(&mut v, 0x44u8);
                    push_lit(&mut v, 0x20u8);
                    push_reg(&mut v, x);
                    push_sep(&mut v);
                    push_reg(&mut v, y);
                    proof {
                        assert(v@ =~= spec_mnemonic(Instruction::AndVxVy(x, y)));
                    }
                },
                Instruction::OrVxVy(x, y) => {
                    push_lit(&mut v, 0x4fu8);
                    push_lit(&mut v, 0x52u8);
                    push_lit(&mut v, 0x20u8);
                    push_reg(&mut v, x);
                    push_sep(&mut v);
                    push_reg(&mut v, y);
                    proof {
                        assert(v@ =~= spec_mnemonic(Instruction::OrVxVy(x, y)));
                    }
                },
                Instruction::ShlVxby1(x) => {
                    push_lit(&mut v, 0x53u8);
                    push_lit(&mut v, 0x48u8);
                    push_lit(&mut v, 0x4cu8);
                    push_lit(&mut v, 0x20u8);
                    push_hex1_lower(&mut v, x as u8);
                    proof {
                        assert(v@ =~= spec_mnemonic(Instruction::ShlVxby1(x)));
                    }
                },
                Instruction::ShrVxby1(x) => {
                    push_lit(&mut v, 0x53u8);
                    push_lit(&mut v, 0x48u8);
                    push_lit(&mut v, 0x52u8);
                    push_lit(&mut v, 0x20u8);
                    push_reg(&mut v, x);
                    proof {
                        assert(v@ =~= spec_mnemonic(Instruction::ShrVxby1(x)));
                    }
                },
                Instruction::RandVxAndByte(x, nn) => {
                    push_lit(&mut v, 0x52u8);
                    push_lit(&mut v, 0x4eu8);
                    push_lit(&mut v, 0x44u8);
                    push_lit(&mut v, 0x20u8);
                    push_reg(&mut v, x);
                    push_sep(&mut v);
                    push_hex4_lower(&mut v, nn as u16);
                    proof {
                        assert(v@ =~= spec_mnemonic(Instruction::RandVxAndByte(x, nn)));
                    }
                },
                Instruction::DisplaySpriteVxVyNibble(x, y, n) => {
                    push_lit(&mut v, 0x44u8);
                    push_lit(&mut v, 0x52u8);
                    push_lit(&mut v, 0x57u8);
                    push_lit(&mut v, 0x20u8);
                    push_reg(&mut v, x);
                    push_sep(&mut v);
                    push_reg(&mut v, y);
                    push_sep(&mut v);
                    push_hex1_lower(&mut v, n as u8);
                    proof {
                        assert(v@ =~= spec_mnemonic(Instruction::DisplaySpriteVxVyNibble(x, y, n)));
                    }
                },
            }
            proof {
                assert(v@ =~= spec_disasm(instr));
            }
        },
    }
    ascii_to_string(v)
}

} // verus!

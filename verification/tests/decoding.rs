//! The word decoder: field extraction and rejection of unknown words.

use chip8::decode::{decode, Fault, Instruction};

#[test]
fn decode_extracts_fields() {
    assert_eq!(decode(0x00E0), Ok(Instruction::Clear));
    assert_eq!(decode(0x00EE), Ok(Instruction::Ret));
    assert_eq!(decode(0x1ABC), Ok(Instruction::Jump(0xABC)));
    assert_eq!(decode(0x2123), Ok(Instruction::Call(0x123)));
    assert_eq!(decode(0x3A42), Ok(Instruction::SkipEqImm(0xA, 0x42)));
    assert_eq!(decode(0x4A42), Ok(Instruction::SkipNeImm(0xA, 0x42)));
    assert_eq!(decode(0x5AB0), Ok(Instruction::SkipEqReg(0xA, 0xB)));
    assert_eq!(decode(0x9AB0), Ok(Instruction::SkipNeReg(0xA, 0xB)));
    assert_eq!(decode(0x6C07), Ok(Instruction::SetImm(0xC, 0x07)));
    assert_eq!(decode(0x70FF), Ok(Instruction::AddImm(0x0, 0xFF)));
    assert_eq!(decode(0x8120), Ok(Instruction::SetReg(1, 2)));
    assert_eq!(decode(0x8121), Ok(Instruction::OrReg(1, 2)));
    assert_eq!(decode(0x8122), Ok(Instruction::AndReg(1, 2)));
    assert_eq!(decode(0x8123), Ok(Instruction::XorReg(1, 2)));
    assert_eq!(decode(0x8124), Ok(Instruction::AddReg(1, 2)));
    assert_eq!(decode(0x8125), Ok(Instruction::SubReg(1, 2)));
    assert_eq!(decode(0x8126), Ok(Instruction::Shr(1, 2)));
    assert_eq!(decode(0x8127), Ok(Instruction::SubRev(1, 2)));
    assert_eq!(decode(0x812E), Ok(Instruction::Shl(1, 2)));
    assert_eq!(decode(0xA050), Ok(Instruction::SetIndex(0x050)));
    assert_eq!(decode(0xB321), Ok(Instruction::JumpOffset(3, 0x321)));
    assert_eq!(decode(0xC2F0), Ok(Instruction::Random(2, 0xF0)));
    assert_eq!(decode(0xD125), Ok(Instruction::Draw(1, 2, 5)));
    assert_eq!(decode(0xE39E), Ok(Instruction::SkipKeyPressed(3)));
    assert_eq!(decode(0xE3A1), Ok(Instruction::SkipKeyNotPressed(3)));
    assert_eq!(decode(0xF407), Ok(Instruction::GetDelay(4)));
    assert_eq!(decode(0xF415), Ok(Instruction::SetDelay(4)));
    assert_eq!(decode(0xF418), Ok(Instruction::SetSound(4)));
    assert_eq!(decode(0xF41E), Ok(Instruction::AddIndex(4)));
    assert_eq!(decode(0xF40A), Ok(Instruction::GetKey(4)));
    assert_eq!(decode(0xF429), Ok(Instruction::FontChar(4)));
    assert_eq!(decode(0xF433), Ok(Instruction::Bcd(4)));
    assert_eq!(decode(0xF455), Ok(Instruction::Store(4)));
    assert_eq!(decode(0xF465), Ok(Instruction::Load(4)));
}

#[test]
fn decode_rejects_unknown_words() {
    assert_eq!(decode(0x0000), Err(Fault::UnknownOpcode));
    assert_eq!(decode(0x0123), Err(Fault::UnknownOpcode));
    // 00E0/00EE with a nonzero X nibble are machine calls, not clear/return.
    assert_eq!(decode(0x01E0), Err(Fault::UnknownOpcode));
    assert_eq!(decode(0x01EE), Err(Fault::UnknownOpcode));
    assert_eq!(decode(0x5AB1), Err(Fault::UnknownOpcode));
    assert_eq!(decode(0x9AB7), Err(Fault::UnknownOpcode));
    assert_eq!(decode(0x8AB8), Err(Fault::UnknownOpcode));
    assert_eq!(decode(0x8ABF), Err(Fault::UnknownOpcode));
    assert_eq!(decode(0xE000), Err(Fault::UnknownOpcode));
    assert_eq!(decode(0xE39F), Err(Fault::UnknownOpcode));
    assert_eq!(decode(0xF400), Err(Fault::UnknownOpcode));
    assert_eq!(decode(0xF466), Err(Fault::UnknownOpcode));
}

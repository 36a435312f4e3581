//! Instruction words, their decoded form, and the machine's fault values.
//!
//! A CHIP-8 instruction is a big-endian 16-bit word.  `decode` turns a
//! word into a typed [`Instruction`] once, so that the executor can match
//! exhaustively and an unrecognized word is rejected up front as a
//! [`Fault::UnknownOpcode`].

use vstd::prelude::*;

verus! {

/// A fatal machine fault, or the rejection of an oversized program image.
///
/// Faults mean the loaded program (or the caller) broke its contract; the
/// machine never recovers from one, and the step that raised it leaves the
/// state unchanged.
#[derive(Clone, Copy, Debug, PartialEq, Eq)]
pub enum Fault {
    /// A `call` was executed with all 16 stack slots in use.
    StackOverflow,
    /// A `return` was executed with an empty call stack.
    StackUnderflow,
    /// The fetched word is not a CHIP-8 instruction.
    UnknownOpcode,
    /// The program counter points outside loadable memory.
    PcOutOfBounds,
    /// An effective address through the index register fell outside memory.
    IndexOutOfBounds,
    /// The program image does not fit in memory starting at 0x200.
    ProgramTooLarge,
}

/// One decoded CHIP-8 instruction.
///
/// Register operands are 4-bit indices (`x`, `y`), immediates are the low
/// nibble `n`, the low byte `nn`, or the low 12 bits `nnn` of the word.
#[derive(Clone, Copy, Debug, PartialEq, Eq)]
pub enum Instruction {
    /// 00E0: blank the whole display.
    Clear,
    /// 00EE: pop the call stack into the program counter.
    Ret,
    /// 1NNN: jump to NNN.
    Jump(u16),
    /// 2NNN: push the program counter, then jump to NNN.
    Call(u16),
    /// 3XNN: skip the next instruction if VX == NN.
    SkipEqImm(u8, u8),
    /// 4XNN: skip the next instruction if VX != NN.
    SkipNeImm(u8, u8),
    /// 5XY0: skip the next instruction if VX == VY.
    SkipEqReg(u8, u8),
    /// 9XY0: skip the next instruction if VX != VY.
    SkipNeReg(u8, u8),
    /// 6XNN: VX := NN.
    SetImm(u8, u8),
    /// 7XNN: VX := VX + NN, wrapping, flags untouched.
    AddImm(u8, u8),
    /// 8XY0: VX := VY.
    SetReg(u8, u8),
    /// 8XY1: VX := VX | VY.
    OrReg(u8, u8),
    /// 8XY2: VX := VX & VY.
    AndReg(u8, u8),
    /// 8XY3: VX := VX ^ VY.
    XorReg(u8, u8),
    /// 8XY4: VX := VX + VY wrapping; VF := carry.
    AddReg(u8, u8),
    /// 8XY5: VX := VX - VY wrapping; VF := 1 when no borrow.
    SubReg(u8, u8),
    /// 8XY7: VX := VY - VX wrapping; VF := 1 when no borrow.
    SubRev(u8, u8),
    /// 8XY6: shift right by one; VF := bit shifted out.
    Shr(u8, u8),
    /// 8XYE: shift left by one; VF := bit shifted out.
    Shl(u8, u8),
    /// ANNN: I := NNN.
    SetIndex(u16),
    /// BNNN: jump to NNN plus an offset register.
    JumpOffset(u8, u16),
    /// CXNN: VX := random byte & NN.
    Random(u8, u8),
    /// DXYN: draw an N-row sprite from memory[I..] at (VX, VY).
    Draw(u8, u8, u8),
    /// EX9E: skip the next instruction if key VX is pressed.
    SkipKeyPressed(u8),
    /// EXA1: skip the next instruction if key VX is not pressed.
    SkipKeyNotPressed(u8),
    /// FX07: VX := delay timer.
    GetDelay(u8),
    /// FX15: delay timer := VX.
    SetDelay(u8),
    /// FX18: sound timer := VX.
    SetSound(u8),
    /// FX1E: I := I + VX; VF := 1 when I leaves the 12-bit address space.
    AddIndex(u8),
    /// FX0A: block until a key is pressed; VX receives the key.
    GetKey(u8),
    /// FX29: I := address of the built-in glyph for the low nibble of VX.
    FontChar(u8),
    /// FX33: store the three decimal digits of VX at memory[I..I+3].
    Bcd(u8),
    /// FX55: memory[I..I+X+1] := V0..VX.
    Store(u8),
    /// FX65: V0..VX := memory[I..I+X+1].
    Load(u8),
}

/// Every register operand is a 4-bit index and every address is 12 bits.
/// `decode` only produces instructions of this shape.
pub open spec fn ins_wf(ins: Instruction) -> bool {
    match ins {
        Instruction::Clear => true,
        Instruction::Ret => true,
        Instruction::Jump(nnn) => nnn < 0x1000,
        Instruction::Call(nnn) => nnn < 0x1000,
        Instruction::SkipEqImm(x, _nn) => x < 16,
        Instruction::SkipNeImm(x, _nn) => x < 16,
        Instruction::SkipEqReg(x, y) => x < 16 && y < 16,
        Instruction::SkipNeReg(x, y) => x < 16 && y < 16,
        Instruction::SetImm(x, _nn) => x < 16,
        Instruction::AddImm(x, _nn) => x < 16,
        Instruction::SetReg(x, y) => x < 16 && y < 16,
        Instruction::OrReg(x, y) => x < 16 && y < 16,
        Instruction::AndReg(x, y) => x < 16 && y < 16,
        Instruction::XorReg(x, y) => x < 16 && y < 16,
        Instruction::AddReg(x, y) => x < 16 && y < 16,
        Instruction::SubReg(x, y) => x < 16 && y < 16,
        Instruction::SubRev(x, y) => x < 16 && y < 16,
        Instruction::Shr(x, y) => x < 16 && y < 16,
        Instruction::Shl(x, y) => x < 16 && y < 16,
        Instruction::SetIndex(nnn) => nnn < 0x1000,
        Instruction::JumpOffset(x, nnn) => x < 16 && nnn < 0x1000,
        Instruction::Random(x, _nn) => x < 16,
        Instruction::Draw(x, y, n) => x < 16 && y < 16 && n < 16,
        Instruction::SkipKeyPressed(x) => x < 16,
        Instruction::SkipKeyNotPressed(x) => x < 16,
        Instruction::GetDelay(x) => x < 16,
        Instruction::SetDelay(x) => x < 16,
        Instruction::SetSound(x) => x < 16,
        Instruction::AddIndex(x) => x < 16,
        Instruction::GetKey(x) => x < 16,
        Instruction::FontChar(x) => x < 16,
        Instruction::Bcd(x) => x < 16,
        Instruction::Store(x) => x < 16,
        Instruction::Load(x) => x < 16,
    }
}

/// The meaning of a 16-bit instruction word: its decoded form, or `None`
/// for a word that is not a CHIP-8 instruction.
pub open spec fn spec_decode(w: u16) -> Option<Instruction> {
    let op = w / 0x1000;
    let x = ((w / 0x100) % 0x10) as u8;
    let y = ((w / 0x10) % 0x10) as u8;
    let n = (w % 0x10) as u8;
    let nn = (w % 0x100) as u8;
    let nnn = w % 0x1000;
    if w == 0x00E0 {
        Some(Instruction::Clear)
    } else if w == 0x00EE {
        Some(Instruction::Ret)
    } else if op == 0x1 {
        Some(Instruction::Jump(nnn))
    } else if op == 0x2 {
        Some(Instruction::Call(nnn))
    } else if op == 0x3 {
        Some(Instruction::SkipEqImm(x, nn))
    } else if op == 0x4 {
        Some(Instruction::SkipNeImm(x, nn))
    } else if op == 0x5 && n == 0 {
        Some(Instruction::SkipEqReg(x, y))
    } else if op == 0x6 {
        Some(Instruction::SetImm(x, nn))
    } else if op == 0x7 {
        Some(Instruction::AddImm(x, nn))
    } else if op == 0x8 && n == 0x0 {
        Some(Instruction::SetReg(x, y))
    } else if op == 0x8 && n == 0x1 {
        Some(Instruction::OrReg(x, y))
    } else if op == 0x8 && n == 0x2 {
        Some(Instruction::AndReg(x, y))
    } else if op == 0x8 && n == 0x3 {
        Some(Instruction::XorReg(x, y))
    } else if op == 0x8 && n == 0x4 {
        Some(Instruction::AddReg(x, y))
    } else if op == 0x8 && n == 0x5 {
        Some(Instruction::SubReg(x, y))
    } else if op == 0x8 && n == 0x6 {
        Some(Instruction::Shr(x, y))
    } else if op == 0x8 && n == 0x7 {
        Some(Instruction::SubRev(x, y))
    } else if op == 0x8 && n == 0xE {
        Some(Instruction::Shl(x, y))
    } else if op == 0x9 && n == 0 {
        Some(Instruction::SkipNeReg(x, y))
    } else if op == 0xA {
        Some(Instruction::SetIndex(nnn))
    } else if op == 0xB {
        Some(Instruction::JumpOffset(x, nnn))
    } else if op == 0xC {
        Some(Instruction::Random(x, nn))
    } else if op == 0xD {
        Some(Instruction::Draw(x, y, n))
    } else if op == 0xE && nn == 0x9E {
        Some(Instruction::SkipKeyPressed(x))
    } else if op == 0xE && nn == 0xA1 {
        Some(Instruction::SkipKeyNotPressed(x))
    } else if op == 0xF && nn == 0x07 {
        Some(Instruction::GetDelay(x))
    } else if op == 0xF && nn == 0x15 {
        Some(Instruction::SetDelay(x))
    } else if op == 0xF && nn == 0x18 {
        Some(Instruction::SetSound(x))
    } else if op == 0xF && nn == 0x1E {
        Some(Instruction::AddIndex(x))
    } else if op == 0xF && nn == 0x0A {
        Some(Instruction::GetKey(x))
    } else if op == 0xF && nn == 0x29 {
        Some(Instruction::FontChar(x))
    } else if op == 0xF && nn == 0x33 {
        Some(Instruction::Bcd(x))
    } else if op == 0xF && nn == 0x55 {
        Some(Instruction::Store(x))
    } else if op == 0xF && nn == 0x65 {
        Some(Instruction::Load(x))
    } else {
        None
    }
}

/// A decoded instruction always has 4-bit registers and 12-bit addresses.
pub proof fn lemma_spec_decode_wf(w: u16)
    ensures
        spec_decode(w) matches Some(ins) ==> ins_wf(ins),
{
}

/// Decode one instruction word, rejecting anything the machine does not
/// recognize.
pub fn decode(w: u16) -> (r: Result<Instruction, Fault>)
    ensures
        (match spec_decode(w) {
            Some(ins) => r == Ok::<Instruction, Fault>(ins) && ins_wf(ins),
            None => r == Err::<Instruction, Fault>(Fault::UnknownOpcode),
        }),
{
    proof {
        lemma_spec_decode_wf(w);
    }
    let op = w / 0x1000;
    let x = ((w / 0x100) % 0x10) as u8;
    let y = ((w / 0x10) % 0x10) as u8;
    let n = (w % 0x10) as u8;
    let nn = (w % 0x100) as u8;
    let nnn = w % 0x1000;
    if w == 0x00E0 {
        Ok(Instruction::Clear)
    } else if w == 0x00EE {
        Ok(Instruction::Ret)
    } else if op == 0x1 {
        Ok(Instruction::Jump(nnn))
    } else if op == 0x2 {
        Ok(Instruction::Call(nnn))
    } else if op == 0x3 {
        Ok(Instruction::SkipEqImm(x, nn))
    } else if op == 0x4 {
        Ok(Instruction::SkipNeImm(x, nn))
    } else if op == 0x5 && n == 0 {
        Ok(Instruction::SkipEqReg(x, y))
    } else if op == 0x6 {
        Ok(Instruction::SetImm(x, nn))
    } else if op == 0x7 {
        Ok(Instruction::AddImm(x, nn))
    } else if op == 0x8 && n == 0x0 {
        Ok(Instruction::SetReg(x, y))
    } else if op == 0x8 && n == 0x1 {
        Ok(Instruction::OrReg(x, y))
    } else if op == 0x8 && n == 0x2 {
        Ok(Instruction::AndReg(x, y))
    } else if op == 0x8 && n == 0x3 {
        Ok(Instruction::XorReg(x, y))
    } else if op == 0x8 && n == 0x4 {
        Ok(Instruction::AddReg(x, y))
    } else if op == 0x8 && n == 0x5 {
        Ok(Instruction::SubReg(x, y))
    } else if op == 0x8 && n == 0x6 {
        Ok(Instruction::Shr(x, y))
    } else if op == 0x8 && n == 0x7 {
        Ok(Instruction::SubRev(x, y))
    } else if op == 0x8 && n == 0xE {
        Ok(Instruction::Shl(x, y))
    } else if op == 0x9 && n == 0 {
        Ok(Instruction::SkipNeReg(x, y))
    } else if op == 0xA {
        Ok(Instruction::SetIndex(nnn))
    } else if op == 0xB {
        Ok(Instruction::JumpOffset(x, nnn))
    } else if op == 0xC {
        Ok(Instruction::Random(x, nn))
    } else if op == 0xD {
        Ok(Instruction::Draw(x, y, n))
    } else if op == 0xE && nn == 0x9E {
        Ok(Instruction::SkipKeyPressed(x))
    } else if op == 0xE && nn == 0xA1 {
        Ok(Instruction::SkipKeyNotPressed(x))
    } else if op == 0xF && nn == 0x07 {
        Ok(Instruction::GetDelay(x))
    } else if op == 0xF && nn == 0x15 {
        Ok(Instruction::SetDelay(x))
    } else if op == 0xF && nn == 0x18 {
        Ok(Instruction::SetSound(x))
    } else if op == 0xF && nn == 0x1E {
        Ok(Instruction::AddIndex(x))
    } else if op == 0xF && nn == 0x0A {
        Ok(Instruction::GetKey(x))
    } else if op == 0xF && nn == 0x29 {
        Ok(Instruction::FontChar(x))
    } else if op == 0xF && nn == 0x33 {
        Ok(Instruction::Bcd(x))
    } else if op == 0xF && nn == 0x55 {
        Ok(Instruction::Store(x))
    } else if op == 0xF && nn == 0x65 {
        Ok(Instruction::Load(x))
    } else {
        Err(Fault::UnknownOpcode)
    }
}

} // verus!

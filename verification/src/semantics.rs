//! The mathematical model of the machine and of every instruction.
//!
//! [`MachineView`] is the abstract state: plain sequences and integers.
//! Each opcode has a transition function from view to view, and
//! [`step_spec`] assembles them into the meaning of one executed
//! instruction, including its fault and redraw-signal outcomes.  The
//! executable machine in [`crate::machine`] is proved against these
//! functions clause by clause.

use vstd::prelude::*;

use crate::decode::{Fault, Instruction, spec_decode};
use crate::display;

verus! {

/// The three compatibility switches, fixed for the lifetime of a
/// machine.  They encode documented divergences between the original
/// interpreter and later ones, so that programs written against either
/// convention replay faithfully.
#[derive(Clone, Copy, Debug, PartialEq, Eq, Structural)]
pub struct Quirks {
    /// When set, 8XY6/8XYE shift VX in place; when clear, VY is first
    /// copied into VX (the legacy shift source).
    pub modern_shift: bool,
    /// When set, BNNN jumps to NNN + VX; when clear, to NNN + V0.
    pub modern_jump_offset: bool,
    /// When set, FX55/FX65 leave I unchanged; when clear, I advances by
    /// X + 1 (the legacy auto-increment).
    pub modern_load_store: bool,
}

/// The abstract state of a machine.
///
/// `stack` holds only the frames in use, most recent last, so the stack
/// pointer of the concrete machine is its length.  `waiting` is the
/// register of a pending FX0A key wait, if one is in progress.
#[verifier::ext_equal]
pub struct MachineView {
    /// 4096 bytes of addressable memory.
    pub mem: Seq<u8>,
    /// 2048 pixels, row-major, 64 per row.
    pub screen: Seq<bool>,
    /// The program counter.
    pub pc: u16,
    /// The index register I.
    pub index: u16,
    /// The return addresses in use, at most 16.
    pub stack: Seq<u16>,
    /// The delay timer.
    pub delay: u8,
    /// The sound timer.
    pub sound: u8,
    /// The 16 general-purpose registers V0..VF.
    pub regs: Seq<u8>,
    /// The 16 key flags.
    pub keys: Seq<bool>,
    /// The register of a pending key wait, if any.
    pub waiting: Option<u8>,
    /// The compatibility configuration.
    pub quirks: Quirks,
    /// The instruction clock rate the caller was configured with, in Hz.
    pub clock_hz: u64,
}

/// The shape every reachable machine state has.
pub open spec fn view_wf(m: MachineView) -> bool {
    &&& m.mem.len() == 4096
    &&& m.screen.len() == 2048
    &&& m.regs.len() == 16
    &&& m.keys.len() == 16
    &&& m.stack.len() <= 16
    &&& (m.waiting matches Some(x) ==> x < 16)
}

/// A 16-bit value reduced modulo 2^16.
pub open spec fn wrap16(v: int) -> u16 {
    (v % 0x10000) as u16
}

/// An 8-bit value reduced modulo 2^8.
pub open spec fn wrap8(v: int) -> u8 {
    (v % 0x100) as u8
}

/// Memory after a program image is copied in verbatim at 0x200.
pub open spec fn loaded_mem(mem: Seq<u8>, program: Seq<u8>) -> Seq<u8> {
    Seq::new(4096, |a: int| if 0x200 <= a < 0x200 + program.len() {
        program[a - 0x200]
    } else {
        mem[a]
    })
}

/// Both timers count down once, saturating at zero.
pub open spec fn tick_spec(pre: MachineView) -> MachineView {
    MachineView { delay: sat_dec(pre.delay), sound: sat_dec(pre.sound), ..pre }
}

/// One saturating 8-bit decrement.
pub open spec fn sat_dec(v: u8) -> u8 {
    if v > 0 {
        (v - 1) as u8
    } else {
        0u8
    }
}

/// The big-endian instruction word at address `pc`.
pub open spec fn word_at(mem: Seq<u8>, pc: int) -> u16 {
    (mem[pc] * 256 + mem[pc + 1]) as u16
}

/// 00E0: every pixel off.
pub open spec fn clear_spec(pre: MachineView) -> MachineView {
    MachineView { screen: Seq::new(2048, |p: int| false), ..pre }
}

/// 00EE: pop the most recent return address into the program counter.
pub open spec fn ret_spec(pre: MachineView) -> MachineView {
    MachineView { pc: pre.stack.last(), stack: pre.stack.drop_last(), ..pre }
}

/// 1NNN.
pub open spec fn jump_spec(pre: MachineView, nnn: u16) -> MachineView {
    MachineView { pc: nnn, ..pre }
}

/// 2NNN: push the program counter, then jump.
pub open spec fn call_spec(pre: MachineView, nnn: u16) -> MachineView {
    MachineView { stack: pre.stack.push(pre.pc), pc: nnn, ..pre }
}

/// The program counter after skipping one 2-byte instruction.
pub open spec fn skipped(pre: MachineView) -> MachineView {
    MachineView { pc: wrap16(pre.pc + 2), ..pre }
}

/// 3XNN.
pub open spec fn skip_eq_imm_spec(pre: MachineView, x: u8, nn: u8) -> MachineView {
    if pre.regs[x as int] == nn {
        skipped(pre)
    } else {
        pre
    }
}

/// 4XNN.
pub open spec fn skip_ne_imm_spec(pre: MachineView, x: u8, nn: u8) -> MachineView {
    if pre.regs[x as int] != nn {
        skipped(pre)
    } else {
        pre
    }
}

/// 5XY0.
pub open spec fn skip_eq_reg_spec(pre: MachineView, x: u8, y: u8) -> MachineView {
    if pre.regs[x as int] == pre.regs[y as int] {
        skipped(pre)
    } else {
        pre
    }
}

/// 9XY0.
pub open spec fn skip_ne_reg_spec(pre: MachineView, x: u8, y: u8) -> MachineView {
    if pre.regs[x as int] != pre.regs[y as int] {
        skipped(pre)
    } else {
        pre
    }
}

/// 6XNN.
pub open spec fn set_imm_spec(pre: MachineView, x: u8, nn: u8) -> MachineView {
    MachineView { regs: pre.regs.update(x as int, nn), ..pre }
}

/// 7XNN: wrapping add, no flag change.
pub open spec fn add_imm_spec(pre: MachineView, x: u8, nn: u8) -> MachineView {
    MachineView { regs: pre.regs.update(x as int, wrap8(pre.regs[x as int] + nn)), ..pre }
}

/// 8XY0.
pub open spec fn set_reg_spec(pre: MachineView, x: u8, y: u8) -> MachineView {
    MachineView { regs: pre.regs.update(x as int, pre.regs[y as int]), ..pre }
}

/// 8XY1.
pub open spec fn or_spec(pre: MachineView, x: u8, y: u8) -> MachineView {
    MachineView { regs: pre.regs.update(x as int, pre.regs[x as int] | pre.regs[y as int]), ..pre }
}

/// 8XY2.
pub open spec fn and_spec(pre: MachineView, x: u8, y: u8) -> MachineView {
    MachineView { regs: pre.regs.update(x as int, pre.regs[x as int] & pre.regs[y as int]), ..pre }
}

/// 8XY3.
pub open spec fn xor_spec(pre: MachineView, x: u8, y: u8) -> MachineView {
    MachineView { regs: pre.regs.update(x as int, pre.regs[x as int] ^ pre.regs[y as int]), ..pre }
}

/// 8XY4: VX takes the wrapping sum; VF becomes 1 exactly when the
/// unsigned sum exceeds 255.  VF is written last, so it wins when X = F.
pub open spec fn add_reg_spec(pre: MachineView, x: u8, y: u8) -> MachineView {
    let sum = pre.regs[x as int] + pre.regs[y as int];
    MachineView {
        regs: pre.regs.update(x as int, wrap8(sum)).update(15, if sum > 255 { 1u8 } else { 0u8 }),
        ..pre
    }
}

/// 8XY5: VX := VX - VY wrapping; VF becomes 1 exactly when there is no
/// borrow, that is when VX >= VY before the subtraction.
pub open spec fn sub_reg_spec(pre: MachineView, x: u8, y: u8) -> MachineView {
    let a = pre.regs[x as int];
    let b = pre.regs[y as int];
    MachineView {
        regs: pre.regs.update(x as int, wrap8(a - b)).update(15, if a >= b { 1u8 } else { 0u8 }),
        ..pre
    }
}

/// 8XY7: VX := VY - VX wrapping; VF is the no-borrow flag of VY >= VX.
pub open spec fn sub_rev_spec(pre: MachineView, x: u8, y: u8) -> MachineView {
    let a = pre.regs[x as int];
    let b = pre.regs[y as int];
    MachineView {
        regs: pre.regs.update(x as int, wrap8(b - a)).update(15, if b >= a { 1u8 } else { 0u8 }),
        ..pre
    }
}

/// The operand an 8XY6/8XYE shift works on: VX in place under the
/// modern quirk, VY copied in under the legacy one.
pub open spec fn shift_src(pre: MachineView, x: u8, y: u8) -> u8 {
    if pre.quirks.modern_shift {
        pre.regs[x as int]
    } else {
        pre.regs[y as int]
    }
}

/// 8XY6: VX := source >> 1; VF := the bit shifted out (bit 0).
pub open spec fn shr_spec(pre: MachineView, x: u8, y: u8) -> MachineView {
    let src = shift_src(pre, x, y);
    MachineView { regs: pre.regs.update(x as int, src >> 1u8).update(15, src & 1), ..pre }
}

/// 8XYE: VX := source << 1 truncated; VF := the bit shifted out (bit 7).
pub open spec fn shl_spec(pre: MachineView, x: u8, y: u8) -> MachineView {
    let src = shift_src(pre, x, y);
    MachineView { regs: pre.regs.update(x as int, src << 1u8).update(15, src >> 7u8), ..pre }
}

/// ANNN.
pub open spec fn set_index_spec(pre: MachineView, nnn: u16) -> MachineView {
    MachineView { index: nnn, ..pre }
}

/// BNNN: the offset register is VX under the modern quirk, V0 otherwise.
pub open spec fn jump_offset_spec(pre: MachineView, x: u8, nnn: u16) -> MachineView {
    let off = if pre.quirks.modern_jump_offset {
        pre.regs[x as int]
    } else {
        pre.regs[0]
    };
    MachineView { pc: (nnn + off) as u16, ..pre }
}

/// CXNN with random byte `rb`: VX := rb & NN.
pub open spec fn random_spec(pre: MachineView, x: u8, nn: u8, rb: u8) -> MachineView {
    MachineView { regs: pre.regs.update(x as int, rb & nn), ..pre }
}

/// The draw anchor column: VX modulo the screen width.
pub open spec fn draw_x0(pre: MachineView, x: u8) -> int {
    (pre.regs[x as int] % 64) as int
}

/// The draw anchor row: VY modulo the screen height.
pub open spec fn draw_y0(pre: MachineView, y: u8) -> int {
    (pre.regs[y as int] % 32) as int
}

/// How many sprite rows a DXYN draw actually reads from memory: the
/// sprite height, clipped at the bottom edge of the screen.
pub open spec fn draw_rows(pre: MachineView, y: u8, n: u8) -> int {
    if n <= 32 - draw_y0(pre, y) {
        n as int
    } else {
        32 - draw_y0(pre, y)
    }
}

/// A DXYN draw faults when some sprite row it reads lies outside memory.
pub open spec fn draw_oob(pre: MachineView, y: u8, n: u8) -> bool {
    draw_rows(pre, y, n) > 0 && pre.index + draw_rows(pre, y, n) > 4096
}

/// DXYN: XOR the sprite into the screen; VF reports whether any lit
/// pixel was turned off.  VF is reset first, so it is exactly the
/// collision flag of this one draw.
pub open spec fn draw_spec(pre: MachineView, x: u8, y: u8, n: u8) -> MachineView {
    let x0 = draw_x0(pre, x);
    let y0 = draw_y0(pre, y);
    MachineView {
        screen: display::screen_after(pre.screen, pre.mem, pre.index as int, x0, y0, n as int),
        regs: pre.regs.update(
            15,
            if display::collides(pre.screen, pre.mem, pre.index as int, x0, y0, n as int) {
                1u8
            } else {
                0u8
            },
        ),
        ..pre
    }
}

/// The key a register value selects: only the low nibble is significant.
pub open spec fn key_of(v: u8) -> int {
    (v % 16) as int
}

/// EX9E / EXA1: skip when key VX is (or is not) pressed.
pub open spec fn skip_key_spec(pre: MachineView, x: u8, want_pressed: bool) -> MachineView {
    if pre.keys[key_of(pre.regs[x as int])] == want_pressed {
        skipped(pre)
    } else {
        pre
    }
}

/// FX07.
pub open spec fn get_delay_spec(pre: MachineView, x: u8) -> MachineView {
    MachineView { regs: pre.regs.update(x as int, pre.delay), ..pre }
}

/// FX15.
pub open spec fn set_delay_spec(pre: MachineView, x: u8) -> MachineView {
    MachineView { delay: pre.regs[x as int], ..pre }
}

/// FX18.
pub open spec fn set_sound_spec(pre: MachineView, x: u8) -> MachineView {
    MachineView { sound: pre.regs[x as int], ..pre }
}

/// FX1E: I grows by VX modulo 2^16; VF is set to 1 when the result
/// leaves the 12-bit address space (and is otherwise left alone).
pub open spec fn add_index_spec(pre: MachineView, x: u8) -> MachineView {
    let ni = wrap16(pre.index + pre.regs[x as int]);
    MachineView {
        index: ni,
        regs: if ni > 0x0FFF {
            pre.regs.update(15, 1u8)
        } else {
            pre.regs
        },
        ..pre
    }
}

/// The lowest-numbered pressed key at or above index `k`, if any.
pub open spec fn first_pressed_from(keys: Seq<bool>, k: int) -> Option<u8>
    decreases 16 - k,
{
    if k < 0 || k >= 16 {
        None
    } else if keys[k] {
        Some(k as u8)
    } else {
        first_pressed_from(keys, k + 1)
    }
}

/// FX0A: when a key is already down, VX receives the lowest such key;
/// otherwise the machine enters the halted-awaiting-key state and the
/// instruction does not retire.
pub open spec fn get_key_spec(pre: MachineView, x: u8) -> MachineView {
    match first_pressed_from(pre.keys, 0) {
        Some(k) => MachineView { regs: pre.regs.update(x as int, k), ..pre },
        None => MachineView { waiting: Some(x), ..pre },
    }
}

/// FX29: I := the address of the built-in glyph for VX.
pub open spec fn font_char_spec(pre: MachineView, x: u8) -> MachineView {
    MachineView { index: (0x50 + pre.regs[x as int] * 5) as u16, ..pre }
}

/// An FX33 faults when memory[I..I+3] is not entirely inside memory.
pub open spec fn bcd_oob(pre: MachineView) -> bool {
    pre.index + 2 > 4095
}

/// FX33: the three decimal digits of VX, hundreds first, at memory[I..].
pub open spec fn bcd_spec(pre: MachineView, x: u8) -> MachineView {
    let v = pre.regs[x as int];
    let i = pre.index as int;
    MachineView {
        mem: pre.mem.update(i, (v / 100) as u8).update(i + 1, ((v / 10) % 10) as u8).update(
            i + 2,
            (v % 10) as u8,
        ),
        ..pre
    }
}

/// An FX55/FX65 faults when memory[I..I+X+1] is not entirely inside
/// memory.
pub open spec fn block_oob(pre: MachineView, x: u8) -> bool {
    pre.index + x > 4095
}

/// The index register after a block load or store: unchanged under the
/// modern quirk, advanced past the block under the legacy one.
pub open spec fn block_index(pre: MachineView, x: u8) -> u16 {
    if pre.quirks.modern_load_store {
        pre.index
    } else {
        (pre.index + x + 1) as u16
    }
}

/// FX55: memory[I..I+X+1] := V0..VX.
pub open spec fn store_spec(pre: MachineView, x: u8) -> MachineView {
    let i = pre.index as int;
    MachineView {
        mem: Seq::new(4096, |a: int| if i <= a <= i + x {
            pre.regs[a - i]
        } else {
            pre.mem[a]
        }),
        index: block_index(pre, x),
        ..pre
    }
}

/// FX65: V0..VX := memory[I..I+X+1].
pub open spec fn load_spec(pre: MachineView, x: u8) -> MachineView {
    let i = pre.index as int;
    MachineView {
        regs: Seq::new(16, |k: int| if 0 <= k <= x {
            pre.mem[i + k]
        } else {
            pre.regs[k]
        }),
        index: block_index(pre, x),
        ..pre
    }
}

/// The outcome of executing one decoded instruction: the next state,
/// whether the display changed, and the fault if the step aborted.
pub struct Step {
    /// The state after the step; on a fault, the state before it.
    pub post: MachineView,
    /// Whether the display was mutated, so a redraw is warranted.
    pub redraw: bool,
    /// The fatal fault, if the step aborted.
    pub fault: Option<Fault>,
}

/// A completed step without display change.
pub open spec fn step_ok(post: MachineView) -> Step {
    Step { post, redraw: false, fault: None }
}

/// An aborted step: the state is untouched.
pub open spec fn step_fault(pre: MachineView, f: Fault) -> Step {
    Step { post: pre, redraw: false, fault: Some(f) }
}

/// The meaning of one executed instruction.  `rb` is the byte the random
/// source produced, used only by CXNN.
pub open spec fn step_spec(pre: MachineView, ins: Instruction, rb: u8) -> Step {
    match ins {
        Instruction::Clear => Step { post: clear_spec(pre), redraw: true, fault: None },
        Instruction::Ret => if pre.stack.len() == 0 {
            step_fault(pre, Fault::StackUnderflow)
        } else {
            step_ok(ret_spec(pre))
        },
        Instruction::Jump(nnn) => step_ok(jump_spec(pre, nnn)),
        Instruction::Call(nnn) => if pre.stack.len() >= 16 {
            step_fault(pre, Fault::StackOverflow)
        } else {
            step_ok(call_spec(pre, nnn))
        },
        Instruction::SkipEqImm(x, nn) => step_ok(skip_eq_imm_spec(pre, x, nn)),
        Instruction::SkipNeImm(x, nn) => step_ok(skip_ne_imm_spec(pre, x, nn)),
        Instruction::SkipEqReg(x, y) => step_ok(skip_eq_reg_spec(pre, x, y)),
        Instruction::SkipNeReg(x, y) => step_ok(skip_ne_reg_spec(pre, x, y)),
        Instruction::SetImm(x, nn) => step_ok(set_imm_spec(pre, x, nn)),
        Instruction::AddImm(x, nn) => step_ok(add_imm_spec(pre, x, nn)),
        Instruction::SetReg(x, y) => step_ok(set_reg_spec(pre, x, y)),
        Instruction::OrReg(x, y) => step_ok(or_spec(pre, x, y)),
        Instruction::AndReg(x, y) => step_ok(and_spec(pre, x, y)),
        Instruction::XorReg(x, y) => step_ok(xor_spec(pre, x, y)),
        Instruction::AddReg(x, y) => step_ok(add_reg_spec(pre, x, y)),
        Instruction::SubReg(x, y) => step_ok(sub_reg_spec(pre, x, y)),
        Instruction::SubRev(x, y) => step_ok(sub_rev_spec(pre, x, y)),
        Instruction::Shr(x, y) => step_ok(shr_spec(pre, x, y)),
        Instruction::Shl(x, y) => step_ok(shl_spec(pre, x, y)),
        Instruction::SetIndex(nnn) => step_ok(set_index_spec(pre, nnn)),
        Instruction::JumpOffset(x, nnn) => step_ok(jump_offset_spec(pre, x, nnn)),
        Instruction::Random(x, nn) => step_ok(random_spec(pre, x, nn, rb)),
        Instruction::Draw(x, y, n) => if draw_oob(pre, y, n) {
            step_fault(pre, Fault::IndexOutOfBounds)
        } else {
            Step { post: draw_spec(pre, x, y, n), redraw: true, fault: None }
        },
        Instruction::SkipKeyPressed(x) => step_ok(skip_key_spec(pre, x, true)),
        Instruction::SkipKeyNotPressed(x) => step_ok(skip_key_spec(pre, x, false)),
        Instruction::GetDelay(x) => step_ok(get_delay_spec(pre, x)),
        Instruction::SetDelay(x) => step_ok(set_delay_spec(pre, x)),
        Instruction::SetSound(x) => step_ok(set_sound_spec(pre, x)),
        Instruction::AddIndex(x) => step_ok(add_index_spec(pre, x)),
        Instruction::GetKey(x) => step_ok(get_key_spec(pre, x)),
        Instruction::FontChar(x) => step_ok(font_char_spec(pre, x)),
        Instruction::Bcd(x) => if bcd_oob(pre) {
            step_fault(pre, Fault::IndexOutOfBounds)
        } else {
            step_ok(bcd_spec(pre, x))
        },
        Instruction::Store(x) => if block_oob(pre, x) {
            step_fault(pre, Fault::IndexOutOfBounds)
        } else {
            step_ok(store_spec(pre, x))
        },
        Instruction::Load(x) => if block_oob(pre, x) {
            step_fault(pre, Fault::IndexOutOfBounds)
        } else {
            step_ok(load_spec(pre, x))
        },
    }
}

/// Whether an executed step left the machine in state `post` and
/// returned `r`: the redraw signal on success, the fault on an abort.
pub open spec fn step_result(s: Step, post: MachineView, r: Result<bool, Fault>) -> bool {
    post == s.post && match r {
        Ok(b) => s.fault is None && b == s.redraw,
        Err(f) => s.fault == Some(f),
    }
}

/// The meaning of decoding and executing one raw word.
pub open spec fn decode_execute_spec(pre: MachineView, w: u16, rb: u8) -> Step {
    match spec_decode(w) {
        Some(ins) => step_spec(pre, ins, rb),
        None => step_fault(pre, Fault::UnknownOpcode),
    }
}

/// The meaning of one whole machine step, the fetch-decode-execute
/// operation.  While a key wait is pending the step retires nothing: it
/// either resolves the wait from the current key flags or does nothing
/// at all.  Otherwise the word at the program counter is fetched (the
/// counter advancing by 2) and executed.  A step is atomic: when any
/// stage faults, the machine is exactly as it was before the step, the
/// advanced counter included.
pub open spec fn step_outcome(pre: MachineView, rb: u8) -> Step {
    match pre.waiting {
        Some(x) => match first_pressed_from(pre.keys, 0) {
            Some(k) => step_ok(
                MachineView { regs: pre.regs.update(x as int, k), waiting: None, ..pre },
            ),
            None => step_ok(pre),
        },
        None => if pre.pc >= 4094 {
            step_fault(pre, Fault::PcOutOfBounds)
        } else {
            let s = decode_execute_spec(
                MachineView { pc: (pre.pc + 2) as u16, ..pre },
                word_at(pre.mem, pre.pc as int),
                rb,
            );
            if s.fault is Some {
                Step { post: pre, redraw: false, fault: s.fault }
            } else {
                s
            }
        },
    }
}

/// The machine as it is constructed: font in memory, counter at 0x200,
/// everything else zeroed or empty.
pub open spec fn init_view(quirks: Quirks, clock_hz: u64) -> MachineView {
    MachineView {
        mem: crate::font::init_mem(),
        screen: Seq::new(2048, |p: int| false),
        pc: 0x200,
        index: 0,
        stack: Seq::empty(),
        delay: 0,
        sound: 0,
        regs: Seq::new(16, |k: int| 0u8),
        keys: Seq::new(16, |k: int| false),
        waiting: None,
        quirks,
        clock_hz,
    }
}

} // verus!

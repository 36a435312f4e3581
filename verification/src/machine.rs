//! The interpreter engine: the machine state and every opcode.
//!
//! A [`CHIP8`] owns all interpreter state.  The caller drives it through
//! three operations: [`CHIP8::load_program`], the per-instruction step
//! [`CHIP8::fetch_decode_execute`], and the 60 Hz [`CHIP8::tick_timers`];
//! key flags arrive through [`CHIP8::set_key`] and the framebuffer is
//! read back through [`CHIP8::pixel`].  Every mutation is specified
//! against the transition functions of [`crate::semantics`].

use vstd::prelude::*;

use crate::decode::{self, Fault, Instruction};
use crate::display;
use crate::font;
use crate::semantics::{self, MachineView, Quirks};

verus! {

/// Screen width in pixels.
pub const SCREEN_SIZE_X: usize = 64;

/// Screen height in pixels.
pub const SCREEN_SIZE_Y: usize = 32;

/// The default instruction clock rate, in instructions per second.
pub const CLOCK_SPEED: u64 = 700;

/// A CHIP-8 machine: memory, registers, stack, timers, display, keypad,
/// and the fixed compatibility configuration.
pub struct CHIP8 {
    memory: Vec<u8>,
    screen: Vec<bool>,
    pc: u16,
    i: u16,
    stack: Vec<u16>,
    delay_timer: u8,
    sound_timer: u8,
    registers: Vec<u8>,
    keys: Vec<bool>,
    waiting: Option<u8>,
    quirks: Quirks,
    clock_hz: u64,
}

impl View for CHIP8 {
    type V = MachineView;

    closed spec fn view(&self) -> MachineView {
        MachineView {
            mem: self.memory@,
            screen: self.screen@,
            pc: self.pc,
            index: self.i,
            stack: self.stack@,
            delay: self.delay_timer,
            sound: self.sound_timer,
            regs: self.registers@,
            keys: self.keys@,
            waiting: self.waiting,
            quirks: self.quirks,
            clock_hz: self.clock_hz,
        }
    }
}

/// A vector of `n` copies of `false`.
fn false_vec(n: usize) -> (v: Vec<bool>)
    ensures
        v@ == Seq::new(n as nat, |p: int| false),
{
    let mut v: Vec<bool> = Vec::new();
    let mut j: usize = 0;
    while j < n
        invariant
            j <= n,
            v@.len() == j,
            forall|k: int| 0 <= k < j ==> !v@[k],
        decreases n - j,
    {
        v.push(false);
        j += 1;
    }
    proof {
        assert(v@ =~= Seq::new(n as nat, |p: int| false));
    }
    v
}

/// A vector of `n` zero bytes.
fn zero_vec(n: usize) -> (v: Vec<u8>)
    ensures
        v@ == Seq::new(n as nat, |p: int| 0u8),
{
    let mut v: Vec<u8> = Vec::new();
    let mut j: usize = 0;
    while j < n
        invariant
            j <= n,
            v@.len() == j,
            forall|k: int| 0 <= k < j ==> v@[k] == 0u8,
        decreases n - j,
    {
        v.push(0u8);
        j += 1;
    }
    proof {
        assert(v@ =~= Seq::new(n as nat, |p: int| 0u8));
    }
    v
}

impl CHIP8 {
    /// Every reachable machine satisfies this shape invariant.
    pub open spec fn wf(&self) -> bool {
        semantics::view_wf(self@)
    }

    /// Construct a machine with the given compatibility configuration
    /// and instruction clock rate: font loaded, program counter at
    /// 0x200, everything else zeroed.
    pub fn with_quirks(quirks: Quirks, clock_hz: u64) -> (m: Self)
        ensures
            m.wf(),
            m@ == semantics::init_view(quirks, clock_hz),
    {
        let glyphs = font::font_vec();
        let mut memory = zero_vec(4096);
        let mut j: usize = 0;
        while j < 80
            invariant
                glyphs@ == font::font_data(),
                memory@.len() == 4096,
                j <= 80,
                forall|k: int| 0 <= k < 0x50 ==> memory@[k] == 0u8,
                forall|k: int| 0x50 <= k < 0x50 + j ==> memory@[k] == font::font_data()[k - 0x50],
                forall|k: int| 0x50 + j <= k < 4096 ==> memory@[k] == 0u8,
            decreases 80 - j,
        {
            memory.set(0x50 + j, glyphs[j]);
            j += 1;
        }
        let m = CHIP8 {
            memory,
            screen: false_vec(2048),
            pc: 0x200,
            i: 0,
            stack: Vec::new(),
            delay_timer: 0,
            sound_timer: 0,
            registers: zero_vec(16),
            keys: false_vec(16),
            waiting: None,
            quirks,
            clock_hz,
        };
        proof {
            assert(m@.mem =~= font::init_mem());
            assert(m@ =~= semantics::init_view(quirks, clock_hz));
        }
        m
    }

    /// Construct a machine with the default configuration: modern shift
    /// and load/store behaviour, legacy jump-with-offset, 700 Hz clock.
    pub fn new() -> (m: Self)
        ensures
            m.wf(),
            m@ == semantics::init_view(
                (Quirks { modern_shift: true, modern_jump_offset: false, modern_load_store: true }),
                CLOCK_SPEED,
            ),
    {
        CHIP8::with_quirks(
            Quirks { modern_shift: true, modern_jump_offset: false, modern_load_store: true },
            CLOCK_SPEED,
        )
    }

    /// Copy a program image verbatim into memory starting at 0x200.
    /// An image that does not fit is rejected outright and the machine
    /// is untouched: loading is all-or-nothing.
    pub fn load_program(&mut self, program: &[u8]) -> (r: Result<(), Fault>)
        requires
            old(self).wf(),
        ensures
            final(self).wf(),
            program@.len() <= 3584 ==> r == Ok::<(), Fault>(()) && final(self)@ == (MachineView {
                mem: semantics::loaded_mem(old(self)@.mem, program@),
                ..old(self)@
            }),
            program@.len() > 3584 ==> r == Err::<(), Fault>(Fault::ProgramTooLarge) && final(self)@ == old(self)@,
    {
        if program.len() > 3584 {
            return Err(Fault::ProgramTooLarge);
        }
        let mut j: usize = 0;
        while j < program.len()
            invariant
                old(self).wf(),
                program@.len() <= 3584,
                j <= program@.len(),
                self@ == (MachineView { mem: self@.mem, ..old(self)@ }),
                self@.mem.len() == 4096,
                forall|a: int|
                    0x200 <= a < 0x200 + j ==> self@.mem[a] == program@[a - 0x200],
                forall|a: int|
                    0 <= a < 4096 && !(0x200 <= a < 0x200 + j) ==> self@.mem[a] == old(self)@.mem[a],
            decreases program@.len() - j,
        {
            self.memory.set(0x200 + j, program[j]);
            j += 1;
        }
        proof {
            assert(self@.mem =~= semantics::loaded_mem(old(self)@.mem, program@));
            assert(self@ =~= (MachineView {
                mem: semantics::loaded_mem(old(self)@.mem, program@),
                ..old(self)@
            }));
        }
        Ok(())
    }

    /// Read the big-endian instruction word at the program counter and
    /// advance the counter by 2.  A counter at or past 4094 cannot hold
    /// a whole instruction: the step faults and the machine is untouched.
    pub fn fetch(&mut self) -> (r: Result<u16, Fault>)
        requires
            old(self).wf(),
        ensures
            final(self).wf(),
            old(self)@.pc >= 4094 ==> r == Err::<u16, Fault>(Fault::PcOutOfBounds) && final(self)@
                == old(self)@,
            old(self)@.pc < 4094 ==> r == Ok::<u16, Fault>(
                semantics::word_at(old(self)@.mem, old(self)@.pc as int),
            ) && final(self)@ == (MachineView { pc: (old(self)@.pc + 2) as u16, ..old(self)@ }),
    {
        if self.pc >= 4094 {
            return Err(Fault::PcOutOfBounds);
        }
        let hi = self.memory[self.pc as usize];
        let lo = self.memory[self.pc as usize + 1];
        self.pc = self.pc + 2;
        Ok((hi as u16) * 256 + (lo as u16))
    }

    /// Push a return address.  A full stack is a fatal overflow fault;
    /// the machine is untouched by a failed push.
    fn push_stack(&mut self, value: u16) -> (r: Result<(), Fault>)
        requires
            old(self).wf(),
        ensures
            final(self).wf(),
            old(self)@.stack.len() < 16 ==> r == Ok::<(), Fault>(()) && final(self)@
                == (MachineView { stack: old(self)@.stack.push(value), ..old(self)@ }),
            old(self)@.stack.len() >= 16 ==> r == Err::<(), Fault>(Fault::StackOverflow) && final(self)@ == old(self)@,
    {
        if self.stack.len() >= 16 {
            return Err(Fault::StackOverflow);
        }
        self.stack.push(value);
        Ok(())
    }

    /// Pop the most recent return address.  An empty stack is a fatal
    /// underflow fault; the machine is untouched by a failed pop.
    fn pop_stack(&mut self) -> (r: Result<u16, Fault>)
        requires
            old(self).wf(),
        ensures
            final(self).wf(),
            old(self)@.stack.len() > 0 ==> r == Ok::<u16, Fault>(old(self)@.stack.last()) && final(self)@ == (MachineView { stack: old(self)@.stack.drop_last(), ..old(self)@ }),
            old(self)@.stack.len() == 0 ==> r == Err::<u16, Fault>(Fault::StackUnderflow) && final(self)@ == old(self)@,
    {
        match self.stack.pop() {
            Some(v) => Ok(v),
            None => Err(Fault::StackUnderflow),
        }
    }

    /// 00E0: blank the display.
    pub fn clear_screen(&mut self)
        requires
            old(self).wf(),
        ensures
            final(self).wf(),
            final(self)@ == semantics::clear_spec(old(self)@),
    {
        let mut p: usize = 0;
        while p < 2048
            invariant
                old(self).wf(),
                p <= 2048,
                self@ == (MachineView { screen: self@.screen, ..old(self)@ }),
                self@.screen.len() == 2048,
                forall|k: int| 0 <= k < p ==> !self@.screen[k],
                forall|k: int| p <= k < 2048 ==> self@.screen[k] == old(self)@.screen[k],
            decreases 2048 - p,
        {
            self.screen.set(p, false);
            p += 1;
        }
        proof {
            assert(self@.screen =~= Seq::new(2048, |q: int| false));
            assert(self@ =~= semantics::clear_spec(old(self)@));
        }
    }

    /// 00EE: return from a subroutine.
    pub fn return_from_sub(&mut self) -> (r: Result<(), Fault>)
        requires
            old(self).wf(),
        ensures
            final(self).wf(),
            old(self)@.stack.len() > 0 ==> r == Ok::<(), Fault>(()) && final(self)@
                == semantics::ret_spec(old(self)@),
            old(self)@.stack.len() == 0 ==> r == Err::<(), Fault>(Fault::StackUnderflow) && final(self)@ == old(self)@,
    {
        match self.pop_stack() {
            Ok(addr) => {
                self.pc = addr;
                Ok(())
            },
            Err(f) => Err(f),
        }
    }

    /// 1NNN: jump.
    pub fn jump(&mut self, nnn: u16)
        requires
            old(self).wf(),
        ensures
            final(self).wf(),
            final(self)@ == semantics::jump_spec(old(self)@, nnn),
    {
        self.pc = nnn;
    }

    /// 2NNN: call a subroutine.  All 16 stack slots in use is a fatal
    /// overflow fault and the machine is untouched.
    pub fn call_sub(&mut self, nnn: u16) -> (r: Result<(), Fault>)
        requires
            old(self).wf(),
        ensures
            final(self).wf(),
            old(self)@.stack.len() < 16 ==> r == Ok::<(), Fault>(()) && final(self)@
                == semantics::call_spec(old(self)@, nnn),
            old(self)@.stack.len() >= 16 ==> r == Err::<(), Fault>(Fault::StackOverflow) && final(self)@ == old(self)@,
    {
        match self.push_stack(self.pc) {
            Ok(()) => {
                self.pc = nnn;
                Ok(())
            },
            Err(f) => Err(f),
        }
    }

    /// Advance the program counter past one 2-byte instruction.
    fn skip_instruction(&mut self)
        requires
            old(self).wf(),
        ensures
            final(self).wf(),
            final(self)@ == semantics::skipped(old(self)@),
    {
        let npc: u32 = self.pc as u32 + 2;
        self.pc = (npc % 0x10000) as u16;
    }

    /// 3XNN: skip when VX equals the immediate.
    pub fn skip_if_equal_literal(&mut self, x: u8, nn: u8)
        requires
            old(self).wf(),
            x < 16,
        ensures
            final(self).wf(),
            final(self)@ == semantics::skip_eq_imm_spec(old(self)@, x, nn),
    {
        if self.registers[x as usize] == nn {
            self.skip_instruction();
        }
    }

    /// 4XNN: skip when VX differs from the immediate.
    pub fn skip_if_not_equal_literal(&mut self, x: u8, nn: u8)
        requires
            old(self).wf(),
            x < 16,
        ensures
            final(self).wf(),
            final(self)@ == semantics::skip_ne_imm_spec(old(self)@, x, nn),
    {
        if self.registers[x as usize] != nn {
            self.skip_instruction();
        }
    }

    /// 5XY0: skip when VX equals VY.
    pub fn skip_if_equal(&mut self, x: u8, y: u8)
        requires
            old(self).wf(),
            x < 16,
            y < 16,
        ensures
            final(self).wf(),
            final(self)@ == semantics::skip_eq_reg_spec(old(self)@, x, y),
    {
        if self.registers[x as usize] == self.registers[y as usize] {
            self.skip_instruction();
        }
    }

    /// 9XY0: skip when VX differs from VY.
    pub fn skip_if_not_equal(&mut self, x: u8, y: u8)
        requires
            old(self).wf(),
            x < 16,
            y < 16,
        ensures
            final(self).wf(),
            final(self)@ == semantics::skip_ne_reg_spec(old(self)@, x, y),
    {
        if self.registers[x as usize] != self.registers[y as usize] {
            self.skip_instruction();
        }
    }

    /// 6XNN: VX := NN.
    pub fn set_literal(&mut self, x: u8, nn: u8)
        requires
            old(self).wf(),
            x < 16,
        ensures
            final(self).wf(),
            final(self)@ == semantics::set_imm_spec(old(self)@, x, nn),
    {
        self.registers.set(x as usize, nn);
    }

    /// 7XNN: VX := VX + NN wrapping; no flag is touched.
    pub fn add_literal(&mut self, x: u8, nn: u8)
        requires
            old(self).wf(),
            x < 16,
        ensures
            final(self).wf(),
            final(self)@ == semantics::add_imm_spec(old(self)@, x, nn),
    {
        let sum: u16 = self.registers[x as usize] as u16 + nn as u16;
        self.registers.set(x as usize, (sum % 256) as u8);
    }

    /// 8XY0: VX := VY.
    pub fn set(&mut self, x: u8, y: u8)
        requires
            old(self).wf(),
            x < 16,
            y < 16,
        ensures
            final(self).wf(),
            final(self)@ == semantics::set_reg_spec(old(self)@, x, y),
    {
        let v = self.registers[y as usize];
        self.registers.set(x as usize, v);
    }

    /// 8XY1: VX := VX | VY.
    pub fn binary_or(&mut self, x: u8, y: u8)
        requires
            old(self).wf(),
            x < 16,
            y < 16,
        ensures
            final(self).wf(),
            final(self)@ == semantics::or_spec(old(self)@, x, y),
    {
        let v = self.registers[x as usize] | self.registers[y as usize];
        self.registers.set(x as usize, v);
    }

    /// 8XY2: VX := VX & VY.
    pub fn binary_and(&mut self, x: u8, y: u8)
        requires
            old(self).wf(),
            x < 16,
            y < 16,
        ensures
            final(self).wf(),
            final(self)@ == semantics::and_spec(old(self)@, x, y),
    {
        let v = self.registers[x as usize] & self.registers[y as usize];
        self.registers.set(x as usize, v);
    }

    /// 8XY3: VX := VX ^ VY.
    pub fn logical_xor(&mut self, x: u8, y: u8)
        requires
            old(self).wf(),
            x < 16,
            y < 16,
        ensures
            final(self).wf(),
            final(self)@ == semantics::xor_spec(old(self)@, x, y),
    {
        let v = self.registers[x as usize] ^ self.registers[y as usize];
        self.registers.set(x as usize, v);
    }

    /// 8XY4: VX := VX + VY wrapping; VF := 1 exactly when the unsigned
    /// sum exceeds 255, else 0.  VF is written last, so when X is F the
    /// flag survives.
    pub fn add(&mut self, x: u8, y: u8)
        requires
            old(self).wf(),
            x < 16,
            y < 16,
        ensures
            final(self).wf(),
            final(self)@ == semantics::add_reg_spec(old(self)@, x, y),
    {
        let sum: u16 = self.registers[x as usize] as u16 + self.registers[y as usize] as u16;
        self.registers.set(x as usize, (sum % 256) as u8);
        self.registers.set(15, if sum > 255 { 1 } else { 0 });
    }

    /// 8XY5: VX := VX - VY wrapping; VF := 1 exactly when VX >= VY
    /// before the subtraction (no borrow), else 0.
    pub fn subtract1(&mut self, x: u8, y: u8)
        requires
            old(self).wf(),
            x < 16,
            y < 16,
        ensures
            final(self).wf(),
            final(self)@ == semantics::sub_reg_spec(old(self)@, x, y),
    {
        let a = self.registers[x as usize];
        let b = self.registers[y as usize];
        let diff: u16 = (a as u16 + 256 - b as u16) % 256;
        self.registers.set(x as usize, diff as u8);
        self.registers.set(15, if a >= b { 1 } else { 0 });
        proof {
            assert(self@ == semantics::sub_reg_spec(old(self)@, x, y));
        }
    }

    /// 8XY7: VX := VY - VX wrapping; VF := 1 exactly when VY >= VX.
    pub fn subtract2(&mut self, x: u8, y: u8)
        requires
            old(self).wf(),
            x < 16,
            y < 16,
        ensures
            final(self).wf(),
            final(self)@ == semantics::sub_rev_spec(old(self)@, x, y),
    {
        let a = self.registers[x as usize];
        let b = self.registers[y as usize];
        let diff: u16 = (b as u16 + 256 - a as u16) % 256;
        self.registers.set(x as usize, diff as u8);
        self.registers.set(15, if b >= a { 1 } else { 0 });
        proof {
            assert(self@ == semantics::sub_rev_spec(old(self)@, x, y));
        }
    }

    /// 8XY6: shift right by one.  Under the legacy-shift quirk VY is
    /// first copied into VX; the shifted-out bit 0 lands in VF.
    pub fn shift_right(&mut self, x: u8, y: u8)
        requires
            old(self).wf(),
            x < 16,
            y < 16,
        ensures
            final(self).wf(),
            final(self)@ == semantics::shr_spec(old(self)@, x, y),
    {
        let src = if self.quirks.modern_shift {
            self.registers[x as usize]
        } else {
            self.registers[y as usize]
        };
        self.registers.set(x as usize, src >> 1u8);
        self.registers.set(15, src & 1);
    }

    /// 8XYE: shift left by one.  Under the legacy-shift quirk VY is
    /// first copied into VX; the shifted-out bit 7 lands in VF.
    pub fn shift_left(&mut self, x: u8, y: u8)
        requires
            old(self).wf(),
            x < 16,
            y < 16,
        ensures
            final(self).wf(),
            final(self)@ == semantics::shl_spec(old(self)@, x, y),
    {
        let src = if self.quirks.modern_shift {
            self.registers[x as usize]
        } else {
            self.registers[y as usize]
        };
        self.registers.set(x as usize, src << 1u8);
        self.registers.set(15, src >> 7u8);
    }

    /// ANNN: I := NNN.
    pub fn set_index_register(&mut self, nnn: u16)
        requires
            old(self).wf(),
        ensures
            final(self).wf(),
            final(self)@ == semantics::set_index_spec(old(self)@, nnn),
    {
        self.i = nnn;
    }

    /// BNNN: jump to NNN plus VX under the modern quirk, NNN plus V0
    /// otherwise.
    pub fn jump_with_offset(&mut self, x: u8, nnn: u16)
        requires
            old(self).wf(),
            x < 16,
            nnn < 0x1000,
        ensures
            final(self).wf(),
            final(self)@ == semantics::jump_offset_spec(old(self)@, x, nnn),
    {
        let off = if self.quirks.modern_jump_offset {
            self.registers[x as usize]
        } else {
            self.registers[0]
        };
        self.pc = nnn + off as u16;
    }

    /// CXNN: VX := random byte & NN.  The byte comes from the host
    /// randomness source; everything that holds of the state afterwards
    /// holds whatever byte came back.
    pub fn random(&mut self, x: u8, nn: u8)
        requires
            old(self).wf(),
            x < 16,
        ensures
            final(self).wf(),
            exists|rb: u8|
                rb < 255 && final(self)@ == #[trigger] semantics::random_spec(
                    old(self)@,
                    x,
                    nn,
                    rb,
                ),
    {
        let rb = crate::rng::random_byte();
        self.registers.set(x as usize, rb & nn);
        proof {
            assert(self@ == semantics::random_spec(old(self)@, x, nn, rb));
        }
    }

    /// DXYN: XOR an `n`-row sprite read from memory[I..] onto the
    /// screen at (VX mod 64, VY mod 32), clipping at the right and
    /// bottom edges.  VF is reset first, then set to 1 exactly when a
    /// lit pixel was turned off by this draw.  A sprite row outside
    /// memory is a fatal fault that leaves the machine untouched.
    #[verifier::loop_isolation(false)]
    #[verifier::rlimit(80)]
    pub fn display(&mut self, x: u8, y: u8, n: u8) -> (r: Result<(), Fault>)
        requires
            old(self).wf(),
            x < 16,
            y < 16,
        ensures
            final(self).wf(),
            semantics::draw_oob(old(self)@, y, n) ==> r == Err::<(), Fault>(Fault::IndexOutOfBounds)
                && final(self)@ == old(self)@,
            !semantics::draw_oob(old(self)@, y, n) ==> r == Ok::<(), Fault>(()) && final(self)@
                == semantics::draw_spec(old(self)@, x, y, n),
    {
        let ghost pre = old(self)@;
        let ghost s0 = pre.screen;
        let ghost mem0 = pre.mem;
        let ghost i0 = pre.index as int;
        let x0 = (self.registers[x as usize] % 64) as usize;
        let y0 = (self.registers[y as usize] % 32) as usize;
        let ghost x0i = x0 as int;
        let ghost y0i = y0 as int;
        let rows: usize = if (n as usize) <= 32 - y0 {
            n as usize
        } else {
            32 - y0
        };
        proof {
            assert(x0i == semantics::draw_x0(pre, x));
            assert(y0i == semantics::draw_y0(pre, y));
            assert(rows as int == semantics::draw_rows(pre, y, n));
        }
        if rows > 0 && self.i as usize + rows > 4096 {
            return Err(Fault::IndexOutOfBounds);
        }
        self.registers.set(15, 0);
        proof {
            assert(!display::hit_in_rows(s0, mem0, i0, x0i, y0i, 0));
        }
        let mut r: usize = 0;
        while r < rows
            invariant
                r <= rows,
                self@.mem == pre.mem,
                self@.pc == pre.pc,
                self@.index == pre.index,
                self@.stack == pre.stack,
                self@.delay == pre.delay,
                self@.sound == pre.sound,
                self@.keys == pre.keys,
                self@.waiting == pre.waiting,
                self@.quirks == pre.quirks,
                self@.clock_hz == pre.clock_hz,
                self@.screen.len() == 2048,
                self@.regs == pre.regs.update(
                    15,
                    if display::hit_in_rows(s0, mem0, i0, x0i, y0i, r as int) {
                        1u8
                    } else {
                        0u8
                    },
                ),
                forall|px: int, py: int|
                    0 <= px < 64 && 0 <= py < 32 ==> #[trigger] display::pix(self@.screen, px, py)
                        == (if x0i <= px < x0i + 8 && y0i <= py < y0i + r {
                        display::pix(s0, px, py) != display::sprite_bit(
                            mem0[i0 + (py - y0i)],
                            px - x0i,
                        )
                    } else {
                        display::pix(s0, px, py)
                    }),
            decreases rows - r,
        {
            let row_byte = self.memory[self.i as usize + r];
            let cols: usize = if 64 - x0 >= 8 {
                8
            } else {
                64 - x0
            };
            proof {
                assert(display::hit_upto(s0, mem0, i0, x0i, y0i, r as int, 0)
                    == display::hit_in_rows(s0, mem0, i0, x0i, y0i, r as int));
            }
            let mut c: usize = 0;
            while c < cols
                invariant
                    c <= cols,
                    self@.mem == pre.mem,
                    self@.pc == pre.pc,
                    self@.index == pre.index,
                    self@.stack == pre.stack,
                    self@.delay == pre.delay,
                    self@.sound == pre.sound,
                    self@.keys == pre.keys,
                    self@.waiting == pre.waiting,
                    self@.quirks == pre.quirks,
                    self@.clock_hz == pre.clock_hz,
                    self@.screen.len() == 2048,
                    self@.regs == pre.regs.update(
                        15,
                        if display::hit_upto(s0, mem0, i0, x0i, y0i, r as int, c as int) {
                            1u8
                        } else {
                            0u8
                        },
                    ),
                    forall|px: int, py: int|
                        0 <= px < 64 && 0 <= py < 32 ==> #[trigger] display::pix(
                            self@.screen,
                            px,
                            py,
                        ) == (if (x0i <= px < x0i + 8 && y0i <= py < y0i + r) || (py == y0i + r
                            && x0i <= px < x0i + c) {
                            display::pix(s0, px, py) != display::sprite_bit(
                                mem0[i0 + (py - y0i)],
                                px - x0i,
                            )
                        } else {
                            display::pix(s0, px, py)
                        }),
                decreases cols - c,
            {
                let ghost scr_at_c = self@.screen;
                let ghost ri = r as int;
                let ghost ci = c as int;
                let mask = row_byte & (0x80u8 >> (c as u8));
                proof {
                    assert((mask != 0) == display::sprite_bit(mem0[i0 + ri], ci));
                }
                if mask != 0 {
                    let idx = (y0 + r) * 64 + (x0 + c);
                    let cur = self.screen[idx];
                    proof {
                        display::lemma_pixel_index(x0i + ci, y0i + ri);
                        assert(display::pix(scr_at_c, x0i + ci, y0i + ri) == cur);
                        assert(display::pix(s0, x0i + ci, y0i + ri) == cur);
                    }
                    if cur {
                        self.registers.set(15, 1);
                        proof {
                            assert(display::hit(s0, mem0, i0, x0i, y0i, ri, ci));
                            assert(display::hit_upto(s0, mem0, i0, x0i, y0i, ri, ci + 1));
                            assert(self@.regs =~= pre.regs.update(15, 1u8));
                        }
                    } else {
                        proof {
                            assert(!display::hit(s0, mem0, i0, x0i, y0i, ri, ci));
                        }
                    }
                    self.screen.set(idx, !cur);
                    proof {
                        assert forall|px: int, py: int| 0 <= px < 64 && 0 <= py < 32 implies
                            #[trigger] display::pix(self@.screen, px, py) == (if (x0i <= px < x0i
                            + 8 && y0i <= py < y0i + r) || (py == y0i + r && x0i <= px < x0i + ci
                            + 1) {
                            display::pix(s0, px, py) != display::sprite_bit(
                                mem0[i0 + (py - y0i)],
                                px - x0i,
                            )
                        } else {
                            display::pix(s0, px, py)
                        }) by {
                            display::lemma_pixel_index(px, py);
                            if py * 64 + px == idx as int {
                                assert(py == y0i + ri && px == x0i + ci);
                            } else {
                                assert(display::pix(self@.screen, px, py) == display::pix(
                                    scr_at_c,
                                    px,
                                    py,
                                ));
                            }
                        }
                    }
                } else {
                    proof {
                        assert(!display::hit(s0, mem0, i0, x0i, y0i, ri, ci));
                        assert forall|px: int, py: int| 0 <= px < 64 && 0 <= py < 32 implies
                            #[trigger] display::pix(self@.screen, px, py) == (if (x0i <= px < x0i
                            + 8 && y0i <= py < y0i + r) || (py == y0i + r && x0i <= px < x0i + ci
                            + 1) {
                            display::pix(s0, px, py) != display::sprite_bit(
                                mem0[i0 + (py - y0i)],
                                px - x0i,
                            )
                        } else {
                            display::pix(s0, px, py)
                        }) by {
                        }
                    }
                }
                proof {
                    if display::hit_upto(s0, mem0, i0, x0i, y0i, ri, ci + 1) && !display::hit_upto(
                        s0,
                        mem0,
                        i0,
                        x0i,
                        y0i,
                        ri,
                        ci,
                    ) {
                        if !display::hit_in_rows(s0, mem0, i0, x0i, y0i, ri) {
                            let cw = choose|cw: int|
                                0 <= cw < ci + 1 && x0i + cw < 64 && #[trigger] display::hit(
                                    s0,
                                    mem0,
                                    i0,
                                    x0i,
                                    y0i,
                                    ri,
                                    cw,
                                );
                            assert(cw == ci);
                            assert(display::hit(s0, mem0, i0, x0i, y0i, ri, ci));
                        }
                    }
                    assert(display::hit_upto(s0, mem0, i0, x0i, y0i, ri, ci + 1)
                        == display::hit_upto(s0, mem0, i0, x0i, y0i, ri, ci) || display::hit(
                        s0,
                        mem0,
                        i0,
                        x0i,
                        y0i,
                        ri,
                        ci,
                    ));
                }
                c += 1;
            }
            proof {
                let ri = r as int;
                assert(display::hit_in_rows(s0, mem0, i0, x0i, y0i, ri + 1) == display::hit_upto(
                    s0,
                    mem0,
                    i0,
                    x0i,
                    y0i,
                    ri,
                    cols as int,
                )) by {
                    if display::hit_in_rows(s0, mem0, i0, x0i, y0i, ri + 1) {
                        let (rw, cw) = choose|rw: int, cw: int|
                            0 <= rw < ri + 1 && 0 <= cw < 8 && x0i + cw < 64 && #[trigger] display::hit(
                                s0,
                                mem0,
                                i0,
                                x0i,
                                y0i,
                                rw,
                                cw,
                            );
                        if rw < ri {
                            assert(display::hit_in_rows(s0, mem0, i0, x0i, y0i, ri));
                        } else {
                            assert(rw == ri && cw < cols);
                        }
                    }
                    if display::hit_upto(s0, mem0, i0, x0i, y0i, ri, cols as int) {
                        if display::hit_in_rows(s0, mem0, i0, x0i, y0i, ri) {
                            let (rw, cw) = choose|rw: int, cw: int|
                                0 <= rw < ri && 0 <= cw < 8 && x0i + cw < 64 && #[trigger] display::hit(
                                    s0,
                                    mem0,
                                    i0,
                                    x0i,
                                    y0i,
                                    rw,
                                    cw,
                                );
                            assert(display::hit_in_rows(s0, mem0, i0, x0i, y0i, ri + 1));
                        } else {
                            let cw = choose|cw: int|
                                0 <= cw < cols && x0i + cw < 64 && #[trigger] display::hit(
                                    s0,
                                    mem0,
                                    i0,
                                    x0i,
                                    y0i,
                                    ri,
                                    cw,
                                );
                            assert(cw < 8);
                            assert(display::hit_in_rows(s0, mem0, i0, x0i, y0i, ri + 1));
                        }
                    }
                };
                assert forall|px: int, py: int| 0 <= px < 64 && 0 <= py < 32 implies #[trigger] display::pix(
                    self@.screen,
                    px,
                    py,
                ) == (if x0i <= px < x0i + 8 && y0i <= py < y0i + (r + 1) {
                    display::pix(s0, px, py) != display::sprite_bit(mem0[i0 + (py - y0i)], px - x0i)
                } else {
                    display::pix(s0, px, py)
                }) by {
                }
            }
            r += 1;
        }
        proof {
            let nn = n as int;
            assert forall|p: int| 0 <= p < 2048 implies self@.screen[p] == display::screen_after(
                s0,
                mem0,
                i0,
                x0i,
                y0i,
                nn,
            )[p] by {
                vstd::arithmetic::div_mod::lemma_fundamental_div_mod(p, 64);
                vstd::arithmetic::div_mod::lemma_mod_bound(p, 64);
                let py = p / 64;
                let px = p % 64;
                assert(0 <= py < 32);
                assert(display::pix(self@.screen, px, py) == self@.screen[p]);
                assert(y0i <= py < y0i + rows ==> py < y0i + nn);
                assert((y0i <= py < y0i + nn) ==> py < y0i + rows);
            }
            assert(self@.screen =~= display::screen_after(s0, mem0, i0, x0i, y0i, nn));
            assert(display::hit_in_rows(s0, mem0, i0, x0i, y0i, rows as int) == display::collides(
                s0,
                mem0,
                i0,
                x0i,
                y0i,
                nn,
            )) by {
                if display::hit_in_rows(s0, mem0, i0, x0i, y0i, rows as int) {
                    let (rw, cw) = choose|rw: int, cw: int|
                        0 <= rw < rows && 0 <= cw < 8 && x0i + cw < 64 && #[trigger] display::hit(
                            s0,
                            mem0,
                            i0,
                            x0i,
                            y0i,
                            rw,
                            cw,
                        );
                    assert(y0i + rw < 32);
                    assert(display::collides(s0, mem0, i0, x0i, y0i, nn));
                }
                if display::collides(s0, mem0, i0, x0i, y0i, nn) {
                    let (rw, cw) = choose|rw: int, cw: int|
                        0 <= rw < nn && y0i + rw < 32 && 0 <= cw < 8 && x0i + cw < 64
                            && #[trigger] display::hit(s0, mem0, i0, x0i, y0i, rw, cw);
                    assert(rw < rows);
                    assert(display::hit_in_rows(s0, mem0, i0, x0i, y0i, rows as int));
                }
            };
            assert(self@ =~= semantics::draw_spec(pre, x, y, n));
        }
        Ok(())
    }

    /// EX9E: skip when the key named by the low nibble of VX is down.
    pub fn skip_if_key_pressed(&mut self, x: u8)
        requires
            old(self).wf(),
            x < 16,
        ensures
            final(self).wf(),
            final(self)@ == semantics::skip_key_spec(old(self)@, x, true),
    {
        let key = (self.registers[x as usize] % 16) as usize;
        if self.keys[key] {
            self.skip_instruction();
        }
    }

    /// EXA1: skip when the key named by the low nibble of VX is up.
    pub fn skip_if_key_not_pressed(&mut self, x: u8)
        requires
            old(self).wf(),
            x < 16,
        ensures
            final(self).wf(),
            final(self)@ == semantics::skip_key_spec(old(self)@, x, false),
    {
        let key = (self.registers[x as usize] % 16) as usize;
        if !self.keys[key] {
            self.skip_instruction();
        }
    }

    /// FX07: VX := delay timer.
    pub fn get_delay_timer(&mut self, x: u8)
        requires
            old(self).wf(),
            x < 16,
        ensures
            final(self).wf(),
            final(self)@ == semantics::get_delay_spec(old(self)@, x),
    {
        let v = self.delay_timer;
        self.registers.set(x as usize, v);
    }

    /// FX15: delay timer := VX.
    pub fn set_delay_timer(&mut self, x: u8)
        requires
            old(self).wf(),
            x < 16,
        ensures
            final(self).wf(),
            final(self)@ == semantics::set_delay_spec(old(self)@, x),
    {
        self.delay_timer = self.registers[x as usize];
    }

    /// FX18: sound timer := VX.
    pub fn set_sound_timer(&mut self, x: u8)
        requires
            old(self).wf(),
            x < 16,
        ensures
            final(self).wf(),
            final(self)@ == semantics::set_sound_spec(old(self)@, x),
    {
        self.sound_timer = self.registers[x as usize];
    }

    /// FX1E: I := I + VX modulo 2^16; VF is set to 1 when the new I
    /// leaves the 12-bit address space, and otherwise left alone.
    pub fn add_to_index(&mut self, x: u8)
        requires
            old(self).wf(),
            x < 16,
        ensures
            final(self).wf(),
            final(self)@ == semantics::add_index_spec(old(self)@, x),
    {
        let ni: u32 = self.i as u32 + self.registers[x as usize] as u32;
        self.i = (ni % 0x10000) as u16;
        if self.i > 0x0FFF {
            self.registers.set(15, 1);
        }
        proof {
            assert(self@ == semantics::add_index_spec(old(self)@, x));
        }
    }

    /// The lowest-numbered key currently pressed, if any.
    #[verifier::loop_isolation(false)]
    fn first_pressed(&self) -> (r: Option<u8>)
        requires
            self.wf(),
        ensures
            r == semantics::first_pressed_from(self@.keys, 0),
    {
        let mut k: usize = 0;
        while k < 16
            invariant
                k <= 16,
                semantics::first_pressed_from(self@.keys, 0) == semantics::first_pressed_from(
                    self@.keys,
                    k as int,
                ),
            decreases 16 - k,
        {
            if self.keys[k] {
                return Some(k as u8);
            }
            k += 1;
        }
        None
    }

    /// FX0A: when a key is already down, VX receives the lowest such
    /// key; otherwise the machine enters the halted-awaiting-key state
    /// and stays there until a key press is observed.
    pub fn get_key(&mut self, x: u8)
        requires
            old(self).wf(),
            x < 16,
        ensures
            final(self).wf(),
            final(self)@ == semantics::get_key_spec(old(self)@, x),
    {
        match self.first_pressed() {
            Some(k) => {
                self.registers.set(x as usize, k);
            },
            None => {
                self.waiting = Some(x);
            },
        }
    }

    /// FX29: point I at the built-in glyph for VX.
    pub fn get_font_character(&mut self, x: u8)
        requires
            old(self).wf(),
            x < 16,
        ensures
            final(self).wf(),
            final(self)@ == semantics::font_char_spec(old(self)@, x),
    {
        self.i = 0x50 + self.registers[x as usize] as u16 * 5;
    }

    /// FX33: store the three decimal digits of VX, hundreds first, at
    /// memory[I..I+3].  A block outside memory is a fatal fault that
    /// leaves the machine untouched.
    pub fn convert_bcd(&mut self, x: u8) -> (r: Result<(), Fault>)
        requires
            old(self).wf(),
            x < 16,
        ensures
            final(self).wf(),
            semantics::bcd_oob(old(self)@) ==> r == Err::<(), Fault>(Fault::IndexOutOfBounds)
                && final(self)@ == old(self)@,
            !semantics::bcd_oob(old(self)@) ==> r == Ok::<(), Fault>(()) && final(self)@
                == semantics::bcd_spec(old(self)@, x),
    {
        if self.i as usize + 2 > 4095 {
            return Err(Fault::IndexOutOfBounds);
        }
        let v = self.registers[x as usize];
        let i = self.i as usize;
        self.memory.set(i, v / 100);
        self.memory.set(i + 1, (v / 10) % 10);
        self.memory.set(i + 2, v % 10);
        proof {
            assert(self@ == semantics::bcd_spec(old(self)@, x));
        }
        Ok(())
    }

    /// FX55: memory[I..I+X+1] := V0..VX.  Under the legacy quirk I then
    /// advances past the block.  A block outside memory is a fatal
    /// fault that leaves the machine untouched.
    #[verifier::loop_isolation(false)]
    pub fn store_memory(&mut self, x: u8) -> (r: Result<(), Fault>)
        requires
            old(self).wf(),
            x < 16,
        ensures
            final(self).wf(),
            semantics::block_oob(old(self)@, x) ==> r == Err::<(), Fault>(Fault::IndexOutOfBounds)
                && final(self)@ == old(self)@,
            !semantics::block_oob(old(self)@, x) ==> r == Ok::<(), Fault>(()) && final(self)@
                == semantics::store_spec(old(self)@, x),
    {
        let ghost pre = old(self)@;
        if self.i as usize + x as usize > 4095 {
            return Err(Fault::IndexOutOfBounds);
        }
        let i = self.i as usize;
        let mut k: usize = 0;
        while k < x as usize + 1
            invariant
                k <= x as usize + 1,
                self@ == (MachineView { mem: self@.mem, ..pre }),
                self@.mem.len() == 4096,
                forall|a: int| i <= a < i + k ==> self@.mem[a] == pre.regs[a - i],
                forall|a: int| 0 <= a < 4096 && !(i <= a < i + k) ==> self@.mem[a] == pre.mem[a],
            decreases x as usize + 1 - k,
        {
            let v = self.registers[k];
            self.memory.set(i + k, v);
            k += 1;
        }
        if !self.quirks.modern_load_store {
            self.i = self.i + x as u16 + 1;
        }
        proof {
            assert(self@.mem =~= semantics::store_spec(pre, x).mem);
            assert(self@ =~= semantics::store_spec(pre, x));
        }
        Ok(())
    }

    /// FX65: V0..VX := memory[I..I+X+1].  Under the legacy quirk I then
    /// advances past the block.  A block outside memory is a fatal
    /// fault that leaves the machine untouched.
    #[verifier::loop_isolation(false)]
    pub fn load_memory(&mut self, x: u8) -> (r: Result<(), Fault>)
        requires
            old(self).wf(),
            x < 16,
        ensures
            final(self).wf(),
            semantics::block_oob(old(self)@, x) ==> r == Err::<(), Fault>(Fault::IndexOutOfBounds)
                && final(self)@ == old(self)@,
            !semantics::block_oob(old(self)@, x) ==> r == Ok::<(), Fault>(()) && final(self)@
                == semantics::load_spec(old(self)@, x),
    {
        let ghost pre = old(self)@;
        if self.i as usize + x as usize > 4095 {
            return Err(Fault::IndexOutOfBounds);
        }
        let i = self.i as usize;
        let mut k: usize = 0;
        while k < x as usize + 1
            invariant
                k <= x as usize + 1,
                self@ == (MachineView { regs: self@.regs, ..pre }),
                self@.regs.len() == 16,
                forall|kk: int| 0 <= kk < k ==> self@.regs[kk] == pre.mem[i + kk],
                forall|kk: int| k <= kk < 16 ==> self@.regs[kk] == pre.regs[kk],
            decreases x as usize + 1 - k,
        {
            let v = self.memory[i + k];
            self.registers.set(k, v);
            k += 1;
        }
        if !self.quirks.modern_load_store {
            self.i = self.i + x as u16 + 1;
        }
        proof {
            assert(self@.regs =~= semantics::load_spec(pre, x).regs);
            assert(self@ =~= semantics::load_spec(pre, x));
        }
        Ok(())
    }

    /// One 60 Hz timer tick: both timers count down, saturating at 0.
    /// The instruction clock never moves the timers.
    pub fn tick_timers(&mut self)
        requires
            old(self).wf(),
        ensures
            final(self).wf(),
            final(self)@ == semantics::tick_spec(old(self)@),
    {
        if self.delay_timer > 0 {
            self.delay_timer = self.delay_timer - 1;
        }
        if self.sound_timer > 0 {
            self.sound_timer = self.sound_timer - 1;
        }
    }

    /// Record a key state reported by the input collaborator.
    pub fn set_key(&mut self, key: u8, pressed: bool)
        requires
            old(self).wf(),
            key < 16,
        ensures
            final(self).wf(),
            final(self)@ == (MachineView {
                keys: old(self)@.keys.update(key as int, pressed),
                ..old(self)@
            }),
    {
        self.keys.set(key as usize, pressed);
    }

    /// The program counter.
    pub fn pc(&self) -> (r: u16)
        ensures
            r == self@.pc,
    {
        self.pc
    }

    /// Register VX.
    pub fn register(&self, x: u8) -> (r: u8)
        requires
            self.wf(),
            x < 16,
        ensures
            r == self@.regs[x as int],
    {
        self.registers[x as usize]
    }

    /// The index register I.
    pub fn index_register(&self) -> (r: u16)
        ensures
            r == self@.index,
    {
        self.i
    }

    /// The delay timer value.
    pub fn delay_timer(&self) -> (r: u8)
        ensures
            r == self@.delay,
    {
        self.delay_timer
    }

    /// The sound timer value; the audio collaborator emits sound while
    /// it is nonzero.
    pub fn sound_timer(&self) -> (r: u8)
        ensures
            r == self@.sound,
    {
        self.sound_timer
    }

    /// How many return addresses are on the call stack.
    pub fn stack_depth(&self) -> (r: usize)
        ensures
            r == self@.stack.len(),
    {
        self.stack.len()
    }

    /// The register of a pending FX0A key wait, if one is in progress.
    pub fn waiting_on(&self) -> (r: Option<u8>)
        ensures
            r == self@.waiting,
    {
        self.waiting
    }

    /// The compatibility configuration the machine was built with.
    pub fn quirks(&self) -> (r: Quirks)
        ensures
            r == self@.quirks,
    {
        self.quirks
    }

    /// The instruction clock rate the machine was configured with.
    pub fn clock_hz(&self) -> (r: u64)
        ensures
            r == self@.clock_hz,
    {
        self.clock_hz
    }

    /// Execute one decoded instruction, reporting whether the display
    /// was mutated so the caller knows a redraw is warranted.  A fatal
    /// fault aborts the whole step and leaves the machine untouched.
    pub fn execute(&mut self, ins: Instruction) -> (r: Result<bool, Fault>)
        requires
            old(self).wf(),
            decode::ins_wf(ins),
        ensures
            final(self).wf(),
            exists|rb: u8|
                rb < 255 && #[trigger] semantics::step_result(
                    semantics::step_spec(old(self)@, ins, rb),
                    final(self)@,
                    r,
                ),
    {
        match ins {
            Instruction::Clear => {
                self.clear_screen();
                proof {
                    assert(semantics::step_result(
                        semantics::step_spec(old(self)@, ins, 0u8),
                        self@,
                        Ok::<bool, Fault>(true),
                    ));
                }
                Ok(true)
            },
            Instruction::Ret => {
                match self.return_from_sub() {
                    Ok(()) => {
                        proof {
                            assert(semantics::step_result(
                                semantics::step_spec(old(self)@, ins, 0u8),
                                self@,
                                Ok::<bool, Fault>(false),
                            ));
                        }
                        Ok(false)
                    },
                    Err(f) => {
                        proof {
                            assert(semantics::step_result(
                                semantics::step_spec(old(self)@, ins, 0u8),
                                self@,
                                Err::<bool, Fault>(f),
                            ));
                        }
                        Err(f)
                    },
                }
            },
            Instruction::Jump(nnn) => {
                self.jump(nnn);
                proof {
                    assert(semantics::step_result(
                        semantics::step_spec(old(self)@, ins, 0u8),
                        self@,
                        Ok::<bool, Fault>(false),
                    ));
                }
                Ok(false)
            },
            Instruction::Call(nnn) => {
                match self.call_sub(nnn) {
                    Ok(()) => {
                        proof {
                            assert(semantics::step_result(
                                semantics::step_spec(old(self)@, ins, 0u8),
                                self@,
                                Ok::<bool, Fault>(false),
                            ));
                        }
                        Ok(false)
                    },
                    Err(f) => {
                        proof {
                            assert(semantics::step_result(
                                semantics::step_spec(old(self)@, ins, 0u8),
                                self@,
                                Err::<bool, Fault>(f),
                            ));
                        }
                        Err(f)
                    },
                }
            },
            Instruction::SkipEqImm(xx, nn) => {
                self.skip_if_equal_literal(xx, nn);
                proof {
                    assert(semantics::step_result(
                        semantics::step_spec(old(self)@, ins, 0u8),
                        self@,
                        Ok::<bool, Fault>(false),
                    ));
                }
                Ok(false)
            },
            Instruction::SkipNeImm(xx, nn) => {
                self.skip_if_not_equal_literal(xx, nn);
                proof {
                    assert(semantics::step_result(
                        semantics::step_spec(old(self)@, ins, 0u8),
                        self@,
                        Ok::<bool, Fault>(false),
                    ));
                }
                Ok(false)
            },
            Instruction::SkipEqReg(xx, yy) => {
                self.skip_if_equal(xx, yy);
                proof {
                    assert(semantics::step_result(
                        semantics::step_spec(old(self)@, ins, 0u8),
                        self@,
                        Ok::<bool, Fault>(false),
                    ));
                }
                Ok(false)
            },
            Instruction::SkipNeReg(xx, yy) => {
                self.skip_if_not_equal(xx, yy);
                proof {
                    assert(semantics::step_result(
                        semantics::step_spec(old(self)@, ins, 0u8),
                        self@,
                        Ok::<bool, Fault>(false),
                    ));
                }
                Ok(false)
            },
            Instruction::SetImm(xx, nn) => {
                self.set_literal(xx, nn);
                proof {
                    assert(semantics::step_result(
                        semantics::step_spec(old(self)@, ins, 0u8),
                        self@,
                        Ok::<bool, Fault>(false),
                    ));
                }
                Ok(false)
            },
            Instruction::AddImm(xx, nn) => {
                self.add_literal(xx, nn);
                proof {
                    assert(semantics::step_result(
                        semantics::step_spec(old(self)@, ins, 0u8),
                        self@,
                        Ok::<bool, Fault>(false),
                    ));
                }
                Ok(false)
            },
            Instruction::SetReg(xx, yy) => {
                self.set(xx, yy);
                proof {
                    assert(semantics::step_result(
                        semantics::step_spec(old(self)@, ins, 0u8),
                        self@,
                        Ok::<bool, Fault>(false),
                    ));
                }
                Ok(false)
            },
            Instruction::OrReg(xx, yy) => {
                self.binary_or(xx, yy);
                proof {
                    assert(semantics::step_result(
                        semantics::step_spec(old(self)@, ins, 0u8),
                        self@,
                        Ok::<bool, Fault>(false),
                    ));
                }
                Ok(false)
            },
            Instruction::AndReg(xx, yy) => {
                self.binary_and(xx, yy);
                proof {
                    assert(semantics::step_result(
                        semantics::step_spec(old(self)@, ins, 0u8),
                        self@,
                        Ok::<bool, Fault>(false),
                    ));
                }
                Ok(false)
            },
            Instruction::XorReg(xx, yy) => {
                self.logical_xor(xx, yy);
                proof {
                    assert(semantics::step_result(
                        semantics::step_spec(old(self)@, ins, 0u8),
                        self@,
                        Ok::<bool, Fault>(false),
                    ));
                }
                Ok(false)
            },
            Instruction::AddReg(xx, yy) => {
                self.add(xx, yy);
                proof {
                    assert(semantics::step_result(
                        semantics::step_spec(old(self)@, ins, 0u8),
                        self@,
                        Ok::<bool, Fault>(false),
                    ));
                }
                Ok(false)
            },
            Instruction::SubReg(xx, yy) => {
                self.subtract1(xx, yy);
                proof {
                    assert(semantics::step_result(
                        semantics::step_spec(old(self)@, ins, 0u8),
                        self@,
                        Ok::<bool, Fault>(false),
                    ));
                }
                Ok(false)
            },
            Instruction::SubRev(xx, yy) => {
                self.subtract2(xx, yy);
                proof {
                    assert(semantics::step_result(
                        semantics::step_spec(old(self)@, ins, 0u8),
                        self@,
                        Ok::<bool, Fault>(false),
                    ));
                }
                Ok(false)
            },
            Instruction::Shr(xx, yy) => {
                self.shift_right(xx, yy);
                proof {
                    assert(semantics::step_result(
                        semantics::step_spec(old(self)@, ins, 0u8),
                        self@,
                        Ok::<bool, Fault>(false),
                    ));
                }
                Ok(false)
            },
            Instruction::Shl(xx, yy) => {
                self.shift_left(xx, yy);
                proof {
                    assert(semantics::step_result(
                        semantics::step_spec(old(self)@, ins, 0u8),
                        self@,
                        Ok::<bool, Fault>(false),
                    ));
                }
                Ok(false)
            },
            Instruction::SetIndex(nnn) => {
                self.set_index_register(nnn);
                proof {
                    assert(semantics::step_result(
                        semantics::step_spec(old(self)@, ins, 0u8),
                        self@,
                        Ok::<bool, Fault>(false),
                    ));
                }
                Ok(false)
            },
            Instruction::JumpOffset(xx, nnn) => {
                self.jump_with_offset(xx, nnn);
                proof {
                    assert(semantics::step_result(
                        semantics::step_spec(old(self)@, ins, 0u8),
                        self@,
                        Ok::<bool, Fault>(false),
                    ));
                }
                Ok(false)
            },
            Instruction::Random(xx, nn) => {
                self.random(xx, nn);
                proof {
                    let rb = choose|rb: u8|
                        rb < 255 && self@ == #[trigger] semantics::random_spec(
                            old(self)@,
                            xx,
                            nn,
                            rb,
                        );
                    assert(semantics::step_result(
                        semantics::step_spec(old(self)@, ins, rb),
                        self@,
                        Ok::<bool, Fault>(false),
                    ));
                }
                Ok(false)
            },
            Instruction::Draw(xx, yy, nn) => {
                match self.display(xx, yy, nn) {
                    Ok(()) => {
                        proof {
                            assert(semantics::step_result(
                                semantics::step_spec(old(self)@, ins, 0u8),
                                self@,
                                Ok::<bool, Fault>(true),
                            ));
                        }
                        Ok(true)
                    },
                    Err(f) => {
                        proof {
                            assert(semantics::step_result(
                                semantics::step_spec(old(self)@, ins, 0u8),
                                self@,
                                Err::<bool, Fault>(f),
                            ));
                        }
                        Err(f)
                    },
                }
            },
            Instruction::SkipKeyPressed(xx) => {
                self.skip_if_key_pressed(xx);
                proof {
                    assert(semantics::step_result(
                        semantics::step_spec(old(self)@, ins, 0u8),
                        self@,
                        Ok::<bool, Fault>(false),
                    ));
                }
                Ok(false)
            },
            Instruction::SkipKeyNotPressed(xx) => {
                self.skip_if_key_not_pressed(xx);
                proof {
                    assert(semantics::step_result(
                        semantics::step_spec(old(self)@, ins, 0u8),
                        self@,
                        Ok::<bool, Fault>(false),
                    ));
                }
                Ok(false)
            },
            Instruction::GetDelay(xx) => {
                self.get_delay_timer(xx);
                proof {
                    assert(semantics::step_result(
                        semantics::step_spec(old(self)@, ins, 0u8),
                        self@,
                        Ok::<bool, Fault>(false),
                    ));
                }
                Ok(false)
            },
            Instruction::SetDelay(xx) => {
                self.set_delay_timer(xx);
                proof {
                    assert(semantics::step_result(
                        semantics::step_spec(old(self)@, ins, 0u8),
                        self@,
                        Ok::<bool, Fault>(false),
                    ));
                }
                Ok(false)
            },
            Instruction::SetSound(xx) => {
                self.set_sound_timer(xx);
                proof {
                    assert(semantics::step_result(
                        semantics::step_spec(old(self)@, ins, 0u8),
                        self@,
                        Ok::<bool, Fault>(false),
                    ));
                }
                Ok(false)
            },
            Instruction::AddIndex(xx) => {
                self.add_to_index(xx);
                proof {
                    assert(semantics::step_result(
                        semantics::step_spec(old(self)@, ins, 0u8),
                        self@,
                        Ok::<bool, Fault>(false),
                    ));
                }
                Ok(false)
            },
            Instruction::GetKey(xx) => {
                self.get_key(xx);
                proof {
                    assert(semantics::step_result(
                        semantics::step_spec(old(self)@, ins, 0u8),
                        self@,
                        Ok::<bool, Fault>(false),
                    ));
                }
                Ok(false)
            },
            Instruction::FontChar(xx) => {
                self.get_font_character(xx);
                proof {
                    assert(semantics::step_result(
                        semantics::step_spec(old(self)@, ins, 0u8),
                        self@,
                        Ok::<bool, Fault>(false),
                    ));
                }
                Ok(false)
            },
            Instruction::Bcd(xx) => {
                match self.convert_bcd(xx) {
                    Ok(()) => {
                        proof {
                            assert(semantics::step_result(
                                semantics::step_spec(old(self)@, ins, 0u8),
                                self@,
                                Ok::<bool, Fault>(false),
                            ));
                        }
                        Ok(false)
                    },
                    Err(f) => {
                        proof {
                            assert(semantics::step_result(
                                semantics::step_spec(old(self)@, ins, 0u8),
                                self@,
                                Err::<bool, Fault>(f),
                            ));
                        }
                        Err(f)
                    },
                }
            },
            Instruction::Store(xx) => {
                match self.store_memory(xx) {
                    Ok(()) => {
                        proof {
                            assert(semantics::step_result(
                                semantics::step_spec(old(self)@, ins, 0u8),
                                self@,
                                Ok::<bool, Fault>(false),
                            ));
                        }
                        Ok(false)
                    },
                    Err(f) => {
                        proof {
                            assert(semantics::step_result(
                                semantics::step_spec(old(self)@, ins, 0u8),
                                self@,
                                Err::<bool, Fault>(f),
                            ));
                        }
                        Err(f)
                    },
                }
            },
            Instruction::Load(xx) => {
                match self.load_memory(xx) {
                    Ok(()) => {
                        proof {
                            assert(semantics::step_result(
                                semantics::step_spec(old(self)@, ins, 0u8),
                                self@,
                                Ok::<bool, Fault>(false),
                            ));
                        }
                        Ok(false)
                    },
                    Err(f) => {
                        proof {
                            assert(semantics::step_result(
                                semantics::step_spec(old(self)@, ins, 0u8),
                                self@,
                                Err::<bool, Fault>(f),
                            ));
                        }
                        Err(f)
                    },
                }
            },
        }
    }

    /// Decode one raw instruction word and execute it.  An unrecognized
    /// word is a fatal decode fault that leaves the machine untouched.
    pub fn decode_and_execute(&mut self, instruction: u16) -> (r: Result<bool, Fault>)
        requires
            old(self).wf(),
        ensures
            final(self).wf(),
            exists|rb: u8|
                rb < 255 && #[trigger] semantics::step_result(
                    semantics::decode_execute_spec(old(self)@, instruction, rb),
                    final(self)@,
                    r,
                ),
    {
        match decode::decode(instruction) {
            Ok(ins) => {
                let res = self.execute(ins);
                proof {
                    let rb = choose|rb: u8|
                        rb < 255 && #[trigger] semantics::step_result(
                            semantics::step_spec(old(self)@, ins, rb),
                            self@,
                            res,
                        );
                    assert(semantics::step_result(
                        semantics::decode_execute_spec(old(self)@, instruction, rb),
                        self@,
                        res,
                    ));
                }
                res
            },
            Err(f) => {
                proof {
                    assert(semantics::step_result(
                        semantics::decode_execute_spec(old(self)@, instruction, 0u8),
                        self@,
                        Err::<bool, Fault>(Fault::UnknownOpcode),
                    ));
                }
                Err(f)
            },
        }
    }

    /// One whole machine step.  While a key wait is pending the step
    /// retires nothing: it resolves the wait from the current key flags
    /// if it can, and otherwise does nothing.  Otherwise the word at
    /// the program counter is fetched and executed.  The returned flag
    /// says whether the display changed; a fatal fault aborts the whole
    /// step with the machine untouched, the program counter included.
    pub fn fetch_decode_execute(&mut self) -> (r: Result<bool, Fault>)
        requires
            old(self).wf(),
        ensures
            final(self).wf(),
            exists|rb: u8|
                rb < 255 && #[trigger] semantics::step_result(
                    semantics::step_outcome(old(self)@, rb),
                    final(self)@,
                    r,
                ),
    {
        if let Some(xr) = self.waiting {
            match self.first_pressed() {
                Some(k) => {
                    self.registers.set(xr as usize, k);
                    self.waiting = None;
                },
                None => {},
            }
            proof {
                assert(semantics::step_result(
                    semantics::step_outcome(old(self)@, 0u8),
                    self@,
                    Ok::<bool, Fault>(false),
                ));
            }
            return Ok(false);
        }
        match self.fetch() {
            Ok(w) => {
                let ghost mid = self@;
                match self.decode_and_execute(w) {
                    Ok(b) => {
                        proof {
                            let rb = choose|rb: u8|
                                rb < 255 && #[trigger] semantics::step_result(
                                    semantics::decode_execute_spec(mid, w, rb),
                                    self@,
                                    Ok::<bool, Fault>(b),
                                );
                            assert(semantics::step_result(
                                semantics::step_outcome(old(self)@, rb),
                                self@,
                                Ok::<bool, Fault>(b),
                            ));
                        }
                        Ok(b)
                    },
                    Err(f) => {
                        let ghost rbw = choose|rb: u8|
                            rb < 255 && #[trigger] semantics::step_result(
                                semantics::decode_execute_spec(mid, w, rb),
                                self@,
                                Err::<bool, Fault>(f),
                            );
                        // The faulting instruction did not retire: undo the fetch.
                        self.pc = self.pc - 2;
                        proof {
                            assert(self@ =~= old(self)@);
                            assert(semantics::step_result(
                                semantics::step_outcome(old(self)@, rbw),
                                self@,
                                Err::<bool, Fault>(f),
                            ));
                        }
                        Err(f)
                    },
                }
            },
            Err(f) => {
                proof {
                    assert(semantics::step_result(
                        semantics::step_outcome(old(self)@, 0u8),
                        self@,
                        Err::<bool, Fault>(Fault::PcOutOfBounds),
                    ));
                }
                Err(f)
            },
        }
    }

    /// The memory byte at `addr`.
    pub fn mem_byte(&self, addr: usize) -> (r: u8)
        requires
            self.wf(),
            addr < 4096,
        ensures
            r == self@.mem[addr as int],
    {
        self.memory[addr]
    }

    /// The framebuffer pixel at column `px`, row `py`.
    pub fn pixel(&self, px: usize, py: usize) -> (r: bool)
        requires
            self.wf(),
            px < 64,
            py < 32,
        ensures
            r == display::pix(self@.screen, px as int, py as int),
    {
        proof {
            display::lemma_pixel_index(px as int, py as int);
        }
        self.screen[py * 64 + px]
    }
}

} // verus!

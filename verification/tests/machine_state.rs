//! Construction, loading, stepping, faults, timers, keys, and memory
//! block instructions.

use chip8::decode::Fault;
use chip8::machine::CHIP8;
use chip8::semantics::Quirks;

fn legacy_machine() -> CHIP8 {
    CHIP8::with_quirks(
        Quirks { modern_shift: false, modern_jump_offset: false, modern_load_store: false },
        700,
    )
}

#[test]
fn new_machine_initial_state() {
    let m = CHIP8::new();
    assert_eq!(m.pc(), 0x200);
    assert_eq!(m.index_register(), 0);
    assert_eq!(m.stack_depth(), 0);
    assert_eq!(m.delay_timer(), 0);
    assert_eq!(m.sound_timer(), 0);
    assert_eq!(m.waiting_on(), None);
    assert_eq!(m.clock_hz(), 700);
    for x in 0..16u8 {
        assert_eq!(m.register(x), 0);
    }
    for py in 0..32 {
        for px in 0..64 {
            assert!(!m.pixel(px, py));
        }
    }
    // The first bytes of glyphs 0 and F, and the edges of the font region.
    assert_eq!(m.mem_byte(0x4F), 0x00);
    assert_eq!(m.mem_byte(0x50), 0xF0);
    assert_eq!(m.mem_byte(0x9B), 0xF0);
    assert_eq!(m.mem_byte(0x9F), 0x80);
    assert_eq!(m.mem_byte(0xA0), 0x00);
}

#[test]
fn load_program_copies_verbatim_at_0x200() {
    let mut m = CHIP8::new();
    assert_eq!(m.load_program(&[0x60, 0x05, 0xAB]), Ok(()));
    assert_eq!(m.mem_byte(0x1FF), 0);
    assert_eq!(m.mem_byte(0x200), 0x60);
    assert_eq!(m.mem_byte(0x201), 0x05);
    assert_eq!(m.mem_byte(0x202), 0xAB);
    assert_eq!(m.mem_byte(0x203), 0);
}

#[test]
fn load_program_too_large_is_rejected_whole() {
    let mut m = CHIP8::new();
    let image = vec![0xFFu8; 3585];
    assert_eq!(m.load_program(&image), Err(Fault::ProgramTooLarge));
    assert_eq!(m.mem_byte(0x200), 0);
    assert_eq!(m.pc(), 0x200);
    let exact = vec![0xEEu8; 3584];
    assert_eq!(m.load_program(&exact), Ok(()));
    assert_eq!(m.mem_byte(0xFFF), 0xEE);
}

#[test]
fn end_to_end_set_immediate_step() {
    let mut m = CHIP8::new();
    m.load_program(&[0x60, 0x05]).unwrap();
    assert_eq!(m.fetch_decode_execute(), Ok(false));
    assert_eq!(m.register(0), 5);
    assert_eq!(m.pc(), 0x202);
}

#[test]
fn end_to_end_add_immediate_wraps() {
    let mut m = CHIP8::new();
    m.load_program(&[0x60, 0x02, 0x70, 0xFF]).unwrap();
    m.fetch_decode_execute().unwrap();
    assert_eq!(m.register(0), 2);
    m.fetch_decode_execute().unwrap();
    assert_eq!(m.register(0), 1);
    assert_eq!(m.register(15), 0);
    assert_eq!(m.pc(), 0x204);
}

#[test]
fn fetch_past_end_of_memory_faults() {
    let mut m = CHIP8::new();
    m.jump(4094);
    assert_eq!(m.fetch(), Err(Fault::PcOutOfBounds));
    assert_eq!(m.pc(), 4094);
    m.jump(4092);
    assert_eq!(m.fetch(), Ok(0));
    assert_eq!(m.pc(), 4094);
}

#[test]
fn unknown_opcodes_fault_without_state_change() {
    let mut m = CHIP8::new();
    assert_eq!(m.decode_and_execute(0x0000), Err(Fault::UnknownOpcode));
    assert_eq!(m.decode_and_execute(0x5121), Err(Fault::UnknownOpcode));
    assert_eq!(m.decode_and_execute(0x8008), Err(Fault::UnknownOpcode));
    assert_eq!(m.decode_and_execute(0xE100), Err(Fault::UnknownOpcode));
    assert_eq!(m.decode_and_execute(0xF1FF), Err(Fault::UnknownOpcode));
    assert_eq!(m.pc(), 0x200);
}

#[test]
fn stack_allows_16_nested_calls_and_faults_on_the_17th() {
    let mut m = CHIP8::new();
    for _ in 0..16 {
        assert_eq!(m.call_sub(0x300), Ok(()));
    }
    assert_eq!(m.stack_depth(), 16);
    assert_eq!(m.call_sub(0x300), Err(Fault::StackOverflow));
    assert_eq!(m.stack_depth(), 16);
}

#[test]
fn nested_call_instructions_overflow_on_the_17th_step() {
    let mut m = CHIP8::new();
    // Seventeen call instructions, each calling the next one.
    let mut program: Vec<u8> = Vec::new();
    for k in 0..17u16 {
        let target = 0x202 + 2 * k;
        program.push(0x20 | (target >> 8) as u8);
        program.push((target & 0xFF) as u8);
    }
    m.load_program(&program).unwrap();
    for k in 0..16u16 {
        assert_eq!(m.fetch_decode_execute(), Ok(false));
        assert_eq!(m.pc(), 0x202 + 2 * k);
    }
    assert_eq!(m.stack_depth(), 16);
    let pc_before = m.pc();
    assert_eq!(m.fetch_decode_execute(), Err(Fault::StackOverflow));
    assert_eq!(m.stack_depth(), 16);
    // The faulting step aborted whole: even the fetch was undone.
    assert_eq!(m.pc(), pc_before);
}

#[test]
fn step_into_unwritten_memory_is_a_decode_fault() {
    let mut m = CHIP8::new();
    m.load_program(&[]).unwrap();
    assert_eq!(m.fetch_decode_execute(), Err(Fault::UnknownOpcode));
}

#[test]
fn return_with_empty_stack_faults() {
    let mut m = CHIP8::new();
    assert_eq!(m.return_from_sub(), Err(Fault::StackUnderflow));
    assert_eq!(m.pc(), 0x200);
}

#[test]
fn call_and_return_round_trip() {
    let mut m = CHIP8::new();
    m.jump(0x234);
    assert_eq!(m.call_sub(0x300), Ok(()));
    assert_eq!(m.pc(), 0x300);
    assert_eq!(m.stack_depth(), 1);
    assert_eq!(m.return_from_sub(), Ok(()));
    assert_eq!(m.pc(), 0x234);
    assert_eq!(m.stack_depth(), 0);
}

#[test]
fn timers_tick_down_and_saturate() {
    let mut m = CHIP8::new();
    m.set_literal(0, 2);
    m.set_delay_timer(0);
    m.set_literal(1, 1);
    m.set_sound_timer(1);
    assert_eq!(m.delay_timer(), 2);
    assert_eq!(m.sound_timer(), 1);
    m.tick_timers();
    assert_eq!(m.delay_timer(), 1);
    assert_eq!(m.sound_timer(), 0);
    m.tick_timers();
    assert_eq!(m.delay_timer(), 0);
    assert_eq!(m.sound_timer(), 0);
    m.tick_timers();
    assert_eq!(m.delay_timer(), 0);
    m.get_delay_timer(5);
    assert_eq!(m.register(5), 0);
}

#[test]
fn key_wait_halts_until_a_key_arrives() {
    let mut m = CHIP8::new();
    m.load_program(&[0xF5, 0x0A, 0x61, 0x09]).unwrap();
    assert_eq!(m.fetch_decode_execute(), Ok(false));
    assert_eq!(m.waiting_on(), Some(5));
    assert_eq!(m.pc(), 0x202);
    // Still waiting: the step retires nothing.
    assert_eq!(m.fetch_decode_execute(), Ok(false));
    assert_eq!(m.pc(), 0x202);
    assert_eq!(m.register(1), 0);
    m.set_key(7, true);
    assert_eq!(m.fetch_decode_execute(), Ok(false));
    assert_eq!(m.register(5), 7);
    assert_eq!(m.waiting_on(), None);
    assert_eq!(m.pc(), 0x202);
    // The machine now proceeds with the next instruction.
    assert_eq!(m.fetch_decode_execute(), Ok(false));
    assert_eq!(m.register(1), 9);
}

#[test]
fn get_key_takes_lowest_pressed_key_immediately() {
    let mut m = CHIP8::new();
    m.set_key(9, true);
    m.set_key(3, true);
    m.get_key(0);
    assert_eq!(m.register(0), 3);
    assert_eq!(m.waiting_on(), None);
}

#[test]
fn skip_on_key_state() {
    let mut m = CHIP8::new();
    m.set_literal(0, 4);
    m.set_key(4, true);
    m.skip_if_key_pressed(0);
    assert_eq!(m.pc(), 0x202);
    m.skip_if_key_not_pressed(0);
    assert_eq!(m.pc(), 0x202);
    m.set_key(4, false);
    m.skip_if_key_pressed(0);
    assert_eq!(m.pc(), 0x202);
    m.skip_if_key_not_pressed(0);
    assert_eq!(m.pc(), 0x204);
}

#[test]
fn bcd_stores_three_digits_hundreds_first() {
    let mut m = CHIP8::new();
    m.set_index_register(0x300);
    m.set_literal(2, 234);
    assert_eq!(m.convert_bcd(2), Ok(()));
    assert_eq!(m.mem_byte(0x300), 2);
    assert_eq!(m.mem_byte(0x301), 3);
    assert_eq!(m.mem_byte(0x302), 4);
    m.set_literal(3, 7);
    m.set_index_register(0x310);
    assert_eq!(m.convert_bcd(3), Ok(()));
    assert_eq!(m.mem_byte(0x310), 0);
    assert_eq!(m.mem_byte(0x311), 0);
    assert_eq!(m.mem_byte(0x312), 7);
}

#[test]
fn bcd_near_end_of_memory_faults() {
    let mut m = CHIP8::new();
    m.set_index_register(4094);
    assert_eq!(m.convert_bcd(0), Err(Fault::IndexOutOfBounds));
    m.set_index_register(4093);
    assert_eq!(m.convert_bcd(0), Ok(()));
}

#[test]
fn store_and_load_round_trip_modern_keeps_index() {
    let mut m = CHIP8::new();
    m.set_index_register(0x400);
    m.set_literal(0, 11);
    m.set_literal(1, 22);
    m.set_literal(2, 33);
    assert_eq!(m.store_memory(2), Ok(()));
    assert_eq!(m.index_register(), 0x400);
    assert_eq!(m.mem_byte(0x400), 11);
    assert_eq!(m.mem_byte(0x401), 22);
    assert_eq!(m.mem_byte(0x402), 33);
    assert_eq!(m.mem_byte(0x403), 0);
    m.set_literal(0, 0);
    m.set_literal(1, 0);
    m.set_literal(2, 0);
    m.set_literal(3, 99);
    assert_eq!(m.load_memory(2), Ok(()));
    assert_eq!(m.register(0), 11);
    assert_eq!(m.register(1), 22);
    assert_eq!(m.register(2), 33);
    assert_eq!(m.register(3), 99);
    assert_eq!(m.index_register(), 0x400);
}

#[test]
fn store_and_load_legacy_advance_index_past_block() {
    let mut m = legacy_machine();
    m.set_index_register(0x400);
    m.set_literal(0, 5);
    assert_eq!(m.store_memory(1), Ok(()));
    assert_eq!(m.index_register(), 0x402);
    m.set_index_register(0x400);
    assert_eq!(m.load_memory(1), Ok(()));
    assert_eq!(m.index_register(), 0x402);
}

#[test]
fn block_instructions_outside_memory_fault() {
    let mut m = CHIP8::new();
    m.set_index_register(4095);
    assert_eq!(m.store_memory(1), Err(Fault::IndexOutOfBounds));
    assert_eq!(m.load_memory(1), Err(Fault::IndexOutOfBounds));
    assert_eq!(m.store_memory(0), Ok(()));
}

#[test]
fn font_character_addresses() {
    let mut m = CHIP8::new();
    m.set_literal(0, 0x0);
    m.get_font_character(0);
    assert_eq!(m.index_register(), 0x50);
    m.set_literal(0, 0xA);
    m.get_font_character(0);
    assert_eq!(m.index_register(), 0x50 + 50);
    m.set_literal(0, 0xF);
    m.get_font_character(0);
    assert_eq!(m.index_register(), 0x50 + 75);
}

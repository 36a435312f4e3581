//! Arithmetic, logic, and flag behaviour of the register family.

use chip8::machine::CHIP8;
use chip8::semantics::Quirks;

fn legacy_machine() -> CHIP8 {
    CHIP8::with_quirks(
        Quirks { modern_shift: false, modern_jump_offset: false, modern_load_store: false },
        700,
    )
}

fn modern_machine() -> CHIP8 {
    CHIP8::with_quirks(
        Quirks { modern_shift: true, modern_jump_offset: true, modern_load_store: true },
        700,
    )
}

#[test]
fn add_overflow_sets_vf_and_wraps() {
    let mut m = CHIP8::new();
    m.set_literal(1, 200);
    m.set_literal(2, 100);
    m.add(1, 2);
    assert_eq!(m.register(1), 44);
    assert_eq!(m.register(15), 1);
}

#[test]
fn add_without_overflow_clears_vf() {
    let mut m = CHIP8::new();
    m.set_literal(15, 1);
    m.set_literal(1, 10);
    m.set_literal(2, 20);
    m.add(1, 2);
    assert_eq!(m.register(1), 30);
    assert_eq!(m.register(15), 0);
}

#[test]
fn add_boundary_sum_255_is_no_overflow() {
    let mut m = CHIP8::new();
    m.set_literal(1, 255);
    m.set_literal(2, 0);
    m.add(1, 2);
    assert_eq!(m.register(1), 255);
    assert_eq!(m.register(15), 0);
    m.set_literal(2, 1);
    m.add(1, 2);
    assert_eq!(m.register(1), 0);
    assert_eq!(m.register(15), 1);
}

#[test]
fn add_with_vf_as_target_keeps_flag_not_sum() {
    let mut m = CHIP8::new();
    m.set_literal(15, 200);
    m.set_literal(2, 100);
    m.add(15, 2);
    assert_eq!(m.register(15), 1);
}

#[test]
fn sub_no_borrow_sets_vf() {
    let mut m = CHIP8::new();
    m.set_literal(1, 50);
    m.set_literal(2, 20);
    m.subtract1(1, 2);
    assert_eq!(m.register(1), 30);
    assert_eq!(m.register(15), 1);
}

#[test]
fn sub_with_borrow_clears_vf() {
    let mut m = CHIP8::new();
    m.set_literal(1, 20);
    m.set_literal(2, 50);
    m.subtract1(1, 2);
    assert_eq!(m.register(1), 226);
    assert_eq!(m.register(15), 0);
}

#[test]
fn sub_equal_operands_is_no_borrow() {
    let mut m = CHIP8::new();
    m.set_literal(1, 77);
    m.set_literal(2, 77);
    m.subtract1(1, 2);
    assert_eq!(m.register(1), 0);
    assert_eq!(m.register(15), 1);
}

#[test]
fn sub_reversed_uses_vy_minus_vx() {
    let mut m = CHIP8::new();
    m.set_literal(1, 20);
    m.set_literal(2, 50);
    m.subtract2(1, 2);
    assert_eq!(m.register(1), 30);
    assert_eq!(m.register(15), 1);
    m.set_literal(3, 50);
    m.set_literal(4, 20);
    m.subtract2(3, 4);
    assert_eq!(m.register(3), 226);
    assert_eq!(m.register(15), 0);
}

#[test]
fn add_literal_wraps_and_never_touches_vf() {
    let mut m = CHIP8::new();
    m.set_literal(0, 2);
    m.set_literal(15, 7);
    m.add_literal(0, 255);
    assert_eq!(m.register(0), 1);
    assert_eq!(m.register(15), 7);
}

#[test]
fn set_or_and_xor() {
    let mut m = CHIP8::new();
    m.set_literal(1, 0b1100);
    m.set_literal(2, 0b1010);
    m.set(3, 1);
    assert_eq!(m.register(3), 0b1100);
    m.binary_or(3, 2);
    assert_eq!(m.register(3), 0b1110);
    m.set(4, 1);
    m.binary_and(4, 2);
    assert_eq!(m.register(4), 0b1000);
    m.set(5, 1);
    m.logical_xor(5, 2);
    assert_eq!(m.register(5), 0b0110);
}

#[test]
fn shift_right_modern_ignores_vy() {
    let mut m = modern_machine();
    m.set_literal(1, 0b1011);
    m.set_literal(2, 0xFF);
    m.shift_right(1, 2);
    assert_eq!(m.register(1), 0b101);
    assert_eq!(m.register(15), 1);
}

#[test]
fn shift_right_legacy_copies_vy_first() {
    let mut m = legacy_machine();
    m.set_literal(1, 0xFF);
    m.set_literal(2, 0b0110);
    m.shift_right(1, 2);
    assert_eq!(m.register(1), 0b011);
    assert_eq!(m.register(15), 0);
}

#[test]
fn shift_left_modern_shifts_vx_in_place() {
    let mut m = modern_machine();
    m.set_literal(1, 0b1000_0001);
    m.set_literal(2, 0);
    m.shift_left(1, 2);
    assert_eq!(m.register(1), 0b0000_0010);
    assert_eq!(m.register(15), 1);
}

#[test]
fn shift_left_legacy_copies_vy_first() {
    let mut m = legacy_machine();
    m.set_literal(1, 0xFF);
    m.set_literal(2, 0b0100_0000);
    m.shift_left(1, 2);
    assert_eq!(m.register(1), 0b1000_0000);
    assert_eq!(m.register(15), 0);
}

#[test]
fn jump_with_offset_legacy_adds_v0() {
    let mut m = CHIP8::new();
    m.set_literal(0, 4);
    m.set_literal(3, 9);
    m.jump_with_offset(3, 0x300);
    assert_eq!(m.pc(), 0x304);
}

#[test]
fn jump_with_offset_modern_adds_vx() {
    let mut m = modern_machine();
    m.set_literal(0, 4);
    m.set_literal(3, 9);
    m.jump_with_offset(3, 0x300);
    assert_eq!(m.pc(), 0x309);
}

#[test]
fn skip_if_equal_literal_advances_pc_only_on_match() {
    let mut m = CHIP8::new();
    m.set_literal(4, 42);
    m.skip_if_equal_literal(4, 42);
    assert_eq!(m.pc(), 0x202);
    m.skip_if_equal_literal(4, 43);
    assert_eq!(m.pc(), 0x202);
    m.skip_if_not_equal_literal(4, 43);
    assert_eq!(m.pc(), 0x204);
    m.skip_if_not_equal_literal(4, 42);
    assert_eq!(m.pc(), 0x204);
}

#[test]
fn skip_register_comparisons() {
    let mut m = CHIP8::new();
    m.set_literal(1, 5);
    m.set_literal(2, 5);
    m.set_literal(3, 6);
    m.skip_if_equal(1, 2);
    assert_eq!(m.pc(), 0x202);
    m.skip_if_equal(1, 3);
    assert_eq!(m.pc(), 0x202);
    m.skip_if_not_equal(1, 3);
    assert_eq!(m.pc(), 0x204);
    m.skip_if_not_equal(1, 2);
    assert_eq!(m.pc(), 0x204);
}

#[test]
fn random_respects_mask() {
    let mut m = CHIP8::new();
    for _ in 0..32 {
        m.random(3, 0x0F);
        assert_eq!(m.register(3) & 0xF0, 0);
    }
    m.set_literal(4, 0xAA);
    m.random(4, 0x00);
    assert_eq!(m.register(4), 0);
}

#[test]
fn add_to_index_flags_address_space_overflow() {
    let mut m = CHIP8::new();
    m.set_index_register(0x0FFE);
    m.set_literal(1, 1);
    m.add_to_index(1);
    assert_eq!(m.index_register(), 0x0FFF);
    assert_eq!(m.register(15), 0);
    m.add_to_index(1);
    assert_eq!(m.index_register(), 0x1000);
    assert_eq!(m.register(15), 1);
}

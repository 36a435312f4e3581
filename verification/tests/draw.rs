//! Display compositing: XOR drawing, collision, clipping, clearing.

use chip8::decode::Fault;
use chip8::machine::CHIP8;

/// The glyph "0" as rows of set columns, relative to the draw anchor.
const GLYPH_0: [[bool; 4]; 5] = [
    [true, true, true, true],
    [true, false, false, true],
    [true, false, false, true],
    [true, false, false, true],
    [true, true, true, true],
];

#[test]
fn end_to_end_draw_font_glyph_top_left() {
    let mut m = CHIP8::new();
    // Set I to the font base, then draw the 5-row glyph "0" at V0 = V1 = 0.
    m.load_program(&[0xA0, 0x50, 0xD0, 0x05]).unwrap();
    assert_eq!(m.fetch_decode_execute(), Ok(false));
    assert_eq!(m.index_register(), 0x050);
    assert_eq!(m.fetch_decode_execute(), Ok(true));
    assert_eq!(m.register(15), 0);
    for (row, cols) in GLYPH_0.iter().enumerate() {
        for (col, lit) in cols.iter().enumerate() {
            assert_eq!(m.pixel(col, row), *lit);
        }
        // The low nibble of each font byte is clear.
        for col in 4..8 {
            assert!(!m.pixel(col, row));
        }
    }
    for px in 8..64 {
        assert!(!m.pixel(px, 0));
    }
    for py in 5..32 {
        assert!(!m.pixel(0, py));
    }
}

#[test]
fn draw_clips_at_right_edge_instead_of_wrapping() {
    let mut m = CHIP8::new();
    m.set_index_register(0x50);
    m.set_literal(0, 60);
    m.set_literal(1, 0);
    assert_eq!(m.display(0, 1, 5), Ok(()));
    // Row 0 of the glyph is 0xF0: columns 60..64 light up.
    for px in 60..64 {
        assert!(m.pixel(px, 0));
    }
    // Nothing wraps onto columns 0..4.
    for px in 0..8 {
        assert!(!m.pixel(px, 0));
        assert!(!m.pixel(px, 1));
    }
}

#[test]
fn draw_clips_at_bottom_edge() {
    let mut m = CHIP8::new();
    m.set_index_register(0x50);
    m.set_literal(0, 0);
    m.set_literal(1, 30);
    assert_eq!(m.display(0, 1, 5), Ok(()));
    assert!(m.pixel(0, 30));
    assert!(m.pixel(0, 31));
    // The clipped rows never wrap to the top.
    for py in 0..3 {
        assert!(!m.pixel(0, py));
    }
}

#[test]
fn draw_anchor_wraps_modulo_screen_size() {
    let mut m = CHIP8::new();
    m.set_index_register(0x50);
    m.set_literal(0, 64);
    m.set_literal(1, 32);
    assert_eq!(m.display(0, 1, 5), Ok(()));
    // An anchor of (64, 32) is (0, 0).
    assert!(m.pixel(0, 0));
    assert!(m.pixel(3, 0));
}

#[test]
fn double_draw_restores_screen_and_reports_collision() {
    let mut m = CHIP8::new();
    m.set_index_register(0x50);
    m.set_literal(0, 10);
    m.set_literal(1, 7);
    assert_eq!(m.display(0, 1, 5), Ok(()));
    assert_eq!(m.register(15), 0);
    assert!(m.pixel(10, 7));
    assert_eq!(m.display(0, 1, 5), Ok(()));
    // Every sprite bit hit its own freshly drawn pixel.
    assert_eq!(m.register(15), 1);
    for py in 0..32 {
        for px in 0..64 {
            assert!(!m.pixel(px, py));
        }
    }
}

#[test]
fn collision_flag_reflects_only_the_most_recent_draw() {
    let mut m = CHIP8::new();
    m.set_index_register(0x50);
    m.set_literal(0, 0);
    m.set_literal(1, 0);
    assert_eq!(m.display(0, 1, 5), Ok(()));
    assert_eq!(m.display(0, 1, 5), Ok(()));
    assert_eq!(m.register(15), 1);
    // A third draw lands on an empty screen again: no collision.
    assert_eq!(m.display(0, 1, 5), Ok(()));
    assert_eq!(m.register(15), 0);
    assert!(m.pixel(0, 0));
}

#[test]
fn sprite_fetch_outside_memory_faults_without_drawing() {
    let mut m = CHIP8::new();
    m.set_index_register(4095);
    m.set_literal(0, 0);
    m.set_literal(1, 0);
    assert_eq!(m.display(0, 1, 2), Err(Fault::IndexOutOfBounds));
    for px in 0..8 {
        assert!(!m.pixel(px, 0));
    }
    // A single row at the last byte of memory is fine.
    assert_eq!(m.display(0, 1, 1), Ok(()));
}

#[test]
fn zero_row_draw_changes_nothing() {
    let mut m = CHIP8::new();
    m.set_index_register(4095);
    m.set_literal(15, 1);
    assert_eq!(m.display(0, 1, 0), Ok(()));
    assert_eq!(m.register(15), 0);
    for py in 0..32 {
        for px in 0..64 {
            assert!(!m.pixel(px, py));
        }
    }
}

#[test]
fn clear_screen_blanks_everything_and_signals_redraw() {
    let mut m = CHIP8::new();
    m.set_index_register(0x50);
    m.set_literal(0, 0);
    m.set_literal(1, 0);
    m.display(0, 1, 5).unwrap();
    assert!(m.pixel(0, 0));
    assert_eq!(m.decode_and_execute(0x00E0), Ok(true));
    for py in 0..32 {
        for px in 0..64 {
            assert!(!m.pixel(px, py));
        }
    }
}

#[test]
fn step_redraw_signal_tracks_display_mutation() {
    let mut m = CHIP8::new();
    m.load_program(&[0x60, 0x00, 0xD0, 0x01]).unwrap();
    assert_eq!(m.fetch_decode_execute(), Ok(false));
    assert_eq!(m.fetch_decode_execute(), Ok(true));
}

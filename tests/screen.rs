use trashos::interrupts::{Heartbeat, InterruptVectors, PIC_1_OFFSET, PIC_2_OFFSET};
use trashos::vga::{Color, ColorCode, ScreenChar, Writer, BUFFER_HEIGHT, BUFFER_WIDTH};

#[test]
fn interrupt_vectors() {
    assert_eq!(InterruptVectors::Timer.as_u8(), PIC_1_OFFSET);
    assert_eq!(InterruptVectors::Keyboard.as_u8(), 33);
    assert_eq!(InterruptVectors::Serial.as_usize(), 34);
    assert_eq!(InterruptVectors::Mouse.as_u8(), PIC_2_OFFSET + 4);
    assert_eq!(InterruptVectors::Panic.as_usize(), 99);
    assert_eq!(InterruptVectors::Spurious.as_u8(), 255);
}

#[test]
fn heartbeat_cycles() {
    let mut h = Heartbeat::new();
    let glyphs: Vec<u8> = (0..6).map(|_| h.advance()).collect();
    assert_eq!(glyphs, vec![b'|', b'/', b'-', b'\\', b'|', b'/']);
}

#[test]
fn color_code_packs_background_high() {
    assert_eq!(ColorCode::new(Color::Green, Color::Black), ColorCode(0x02));
    assert_eq!(ColorCode::new(Color::White, Color::Blue), ColorCode(0x1f));
    assert_eq!(Color::Yellow.as_u8(), 14);
}

#[test]
fn write_string_fills_bottom_row_and_scrolls() {
    let color = ColorCode::new(Color::Green, Color::Black);
    let mut w = Writer::new(color);
    let bottom = BUFFER_HEIGHT - 1;
    w.write_string("ab");
    assert_eq!(w.cell(bottom, 0), ScreenChar { ascii_character: b'a', color_code: color });
    assert_eq!(w.cell(bottom, 1), ScreenChar { ascii_character: b'b', color_code: color });
    assert_eq!(w.cursor_position(), (bottom * BUFFER_WIDTH + 2) as u16);
    w.write_string("\rc\nd");
    assert_eq!(w.cell(bottom - 1, 0).ascii_character, b'c');
    assert_eq!(w.cell(bottom - 1, 1).ascii_character, b'b');
    assert_eq!(w.cell(bottom, 0).ascii_character, b'd');
    assert_eq!(w.cell(bottom, 1).ascii_character, b' ');
    w.write_at(b'X', 0, 79);
    assert_eq!(w.cell(0, 79).ascii_character, b'X');
}

#[test]
fn full_row_wraps_to_new_line() {
    let color = ColorCode::new(Color::White, Color::Black);
    let mut w = Writer::new(color);
    for _ in 0..BUFFER_WIDTH {
        w.write_byte(b'x');
    }
    assert_eq!(w.cursor_position(), ((BUFFER_HEIGHT - 1) * BUFFER_WIDTH + BUFFER_WIDTH) as u16);
    w.write_byte(b'y');
    assert_eq!(w.cell(BUFFER_HEIGHT - 2, 79).ascii_character, b'x');
    assert_eq!(w.cell(BUFFER_HEIGHT - 1, 0).ascii_character, b'y');
    assert_eq!(w.cursor_position(), ((BUFFER_HEIGHT - 1) * BUFFER_WIDTH + 1) as u16);
}

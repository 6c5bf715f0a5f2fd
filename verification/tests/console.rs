use bootstub::vga::{make_vgaentry, Color, Console, VGA_HEIGHT, VGA_WIDTH};

fn snapshot(c: &Console) -> Vec<u16> {
    let mut cells = Vec::new();
    for y in 0..VGA_HEIGHT {
        for x in 0..VGA_WIDTH {
            cells.push(c.read_cell(x, y));
        }
    }
    cells
}

#[test]
fn putc_readback() {
    let mut c = Console::new(Color::White, Color::Black);
    c.putc('x');
    // foreground 15 in the low nibble, background 0 in the high nibble
    let expected = ('x' as u16) | 15u16 << 8;
    assert_eq!(c.read_cell(0, 0), expected);
    assert_eq!(c.read_cell(0, 0), make_vgaentry('x', Color::White, Color::Black));
    assert_eq!(c.cursor_x(), 1);
    assert_eq!(c.cursor_y(), 0);
}

#[test]
fn put_char_at_readback_colors() {
    let mut c = Console::new(Color::Green, Color::Blue);
    c.put_char_at(5, 3, 'A');
    // attribute byte: foreground 2, background 1
    let attr = 2u16 | 1u16 << 4;
    assert_eq!(c.read_cell(5, 3), ('A' as u16) | attr << 8);
}

#[test]
fn cursor_wraps_once_per_row() {
    let mut c = Console::new(Color::White, Color::Black);
    for _ in 0..VGA_WIDTH {
        c.putc('a');
    }
    // the column rests past the last one until the next write wraps it
    assert_eq!(c.cursor_x(), VGA_WIDTH);
    assert_eq!(c.cursor_y(), 0);
    c.putc('b');
    assert_eq!(c.cursor_x(), 1);
    assert_eq!(c.cursor_y(), 1);
    assert_eq!(c.read_cell(0, 1), make_vgaentry('b', Color::White, Color::Black));
    for _ in 0..VGA_WIDTH - 1 {
        c.putc('c');
    }
    assert_eq!(c.cursor_x(), VGA_WIDTH);
    assert_eq!(c.cursor_y(), 1);
}

#[test]
fn overfilling_the_screen_saturates() {
    let mut c = Console::new(Color::White, Color::Black);
    // width * height characters and a full extra row beyond the screen
    for _ in 0..VGA_WIDTH * (VGA_HEIGHT + 1) {
        c.putc('z');
    }
    assert_eq!(c.cursor_y(), VGA_HEIGHT);
    let z = make_vgaentry('z', Color::White, Color::Black);
    for y in 0..VGA_HEIGHT {
        for x in 0..VGA_WIDTH {
            assert_eq!(c.read_cell(x, y), z);
        }
    }
}

#[test]
fn clear_is_idempotent() {
    let mut c = Console::new(Color::Yellow, Color::Red);
    c.puts("some text");
    c.clear();
    let once = snapshot(&c);
    c.clear();
    let twice = snapshot(&c);
    assert_eq!(once, twice);
    let blank = make_vgaentry('\0', Color::Yellow, Color::Red);
    for cell in twice {
        assert_eq!(cell, blank);
    }
    assert_eq!(c.cursor_x(), 0);
    assert_eq!(c.cursor_y(), 0);
}

#[test]
fn backspace_at_origin_is_clamped() {
    let mut c = Console::new(Color::White, Color::Black);
    c.put_char_at(1, 0, 'x');
    let kept = c.read_cell(1, 0);
    c.backspace();
    assert_eq!(c.cursor_x(), 0);
    assert_eq!(c.cursor_y(), 0);
    assert_eq!(c.read_cell(0, 0), make_vgaentry('\0', Color::White, Color::Black));
    assert_eq!(c.read_cell(1, 0), kept);
}

#[test]
fn backspace_rubs_out_previous_character() {
    let mut c = Console::new(Color::White, Color::Black);
    c.puts("ab");
    c.backspace();
    assert_eq!(c.cursor_x(), 1);
    assert_eq!(c.cursor_y(), 0);
    assert_eq!(c.read_cell(1, 0), make_vgaentry('\0', Color::White, Color::Black));
    assert_eq!(c.read_cell(0, 0), make_vgaentry('a', Color::White, Color::Black));
}

#[test]
fn backspace_wraps_to_previous_row() {
    let mut c = Console::new(Color::White, Color::Black);
    c.putc('a');
    c.newline();
    c.backspace();
    assert_eq!(c.cursor_x(), VGA_WIDTH - 1);
    assert_eq!(c.cursor_y(), 0);
}

#[test]
fn put_char_at_out_of_bounds_is_a_no_op() {
    let mut c = Console::new(Color::White, Color::Black);
    c.puts("guard");
    let before = snapshot(&c);
    c.put_char_at(VGA_WIDTH, 0, 'x');
    c.put_char_at(0, VGA_HEIGHT, 'x');
    assert_eq!(snapshot(&c), before);
}

#[test]
fn puts_writes_in_order() {
    let mut c = Console::new(Color::White, Color::Black);
    c.puts("hi");
    assert_eq!(c.read_cell(0, 0), make_vgaentry('h', Color::White, Color::Black));
    assert_eq!(c.read_cell(1, 0), make_vgaentry('i', Color::White, Color::Black));
    assert_eq!(c.cursor_x(), 2);
    assert_eq!(c.cursor_y(), 0);
}

#[test]
fn newline_saturates_at_the_bottom() {
    let mut c = Console::new(Color::White, Color::Black);
    c.putc('a');
    c.newline();
    assert_eq!(c.cursor_x(), 0);
    assert_eq!(c.cursor_y(), 1);
    for _ in 0..2 * VGA_HEIGHT {
        c.newline();
    }
    assert_eq!(c.cursor_y(), VGA_HEIGHT);
}

#[test]
fn write_treats_bytes_as_characters() {
    let mut c = Console::new(Color::White, Color::Black);
    c.write(&[b'O', b'K']);
    assert_eq!(c.read_cell(0, 0), make_vgaentry('O', Color::White, Color::Black));
    assert_eq!(c.read_cell(1, 0), make_vgaentry('K', Color::White, Color::Black));
}

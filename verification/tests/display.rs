use chibi_os::vga::Cell;
use chibi_os::vga::Color;
use chibi_os::vga::HEIGHT;
use chibi_os::vga::WIDTH;
use chibi_os::vga::Writer;
use chibi_os::vga::attr_byte;

const ATTR: u8 = 0x0e; // yellow on black

fn yellow_writer() -> Writer {
    Writer::new(Color::Yellow, Color::Black)
}

fn blank(attr: u8) -> Cell {
    Cell { glyph: 0x20, attr }
}

#[test]
fn attr_byte_packs_nibbles() {
    assert_eq!(attr_byte(Color::Yellow, Color::Black), 0x0e);
    assert_eq!(attr_byte(Color::White, Color::Blue), 0x1f);
    assert_eq!(attr_byte(Color::Black, Color::White), 0xf0);
}

#[test]
fn new_writer_is_blank() {
    let w = yellow_writer();
    assert_eq!(w.col, 0);
    assert_eq!(w.cells.len(), WIDTH * HEIGHT);
    assert_eq!(w.cell_at(0, 0), blank(ATTR));
    assert_eq!(w.cell_at(12, 40), blank(ATTR));
    assert_eq!(w.cell_at(HEIGHT - 1, WIDTH - 1), blank(ATTR));
}

#[test]
fn print_within_row_advances_cursor() {
    let mut w = yellow_writer();
    w.write_str(b"hello");
    assert_eq!(w.col, 5);
    let expected = b"hello";
    for k in 0..5 {
        assert_eq!(w.cell_at(HEIGHT - 1, k), Cell { glyph: expected[k], attr: ATTR });
    }
    // nothing outside the written span changed
    assert_eq!(w.cell_at(HEIGHT - 1, 5), blank(ATTR));
    assert_eq!(w.cell_at(HEIGHT - 2, 0), blank(ATTR));
    assert_eq!(w.cell_at(0, 0), blank(ATTR));
}

#[test]
fn print_from_mid_row_lands_after_cursor() {
    let mut w = yellow_writer();
    w.write_str(b"ab");
    w.write_str(b"cde");
    assert_eq!(w.col, 5);
    assert_eq!(w.cell_at(HEIGHT - 1, 2), Cell { glyph: b'c', attr: ATTR });
    assert_eq!(w.cell_at(HEIGHT - 1, 4), Cell { glyph: b'e', attr: ATTR });
}

#[test]
fn newline_resets_column() {
    let mut w = yellow_writer();
    w.write_str(b"abc");
    assert_eq!(w.col, 3);
    w.write_byte(0x0a);
    assert_eq!(w.col, 0);
    // a newline at column 0 keeps it at 0
    w.write_byte(0x0a);
    assert_eq!(w.col, 0);
}

#[test]
fn newline_scrolls_content_up() {
    let mut w = yellow_writer();
    w.write_str(b"hi");
    w.write_byte(0x0a);
    assert_eq!(w.cell_at(HEIGHT - 2, 0), Cell { glyph: b'h', attr: ATTR });
    assert_eq!(w.cell_at(HEIGHT - 2, 1), Cell { glyph: b'i', attr: ATTR });
    for c in 0..WIDTH {
        assert_eq!(w.cell_at(HEIGHT - 1, c), blank(ATTR));
    }
}

#[test]
fn overflow_wraps_with_exactly_one_scroll() {
    let mut w = yellow_writer();
    let row = [b'x'; 80];
    w.write_str(&row);
    assert_eq!(w.col, WIDTH);
    w.write_byte(b'y');
    assert_eq!(w.col, 1);
    // the full row moved up exactly one row, and the byte landed on the
    // now-cleared last row
    assert_eq!(w.cell_at(HEIGHT - 2, 0), Cell { glyph: b'x', attr: ATTR });
    assert_eq!(w.cell_at(HEIGHT - 2, WIDTH - 1), Cell { glyph: b'x', attr: ATTR });
    assert_eq!(w.cell_at(HEIGHT - 3, 0), blank(ATTR));
    assert_eq!(w.cell_at(HEIGHT - 1, 0), Cell { glyph: b'y', attr: ATTR });
    assert_eq!(w.cell_at(HEIGHT - 1, 1), blank(ATTR));
}

#[test]
fn full_row_newlines_scroll_once_each() {
    let mut w = yellow_writer();
    let row = [b'x'; 80];
    w.write_str(&row);
    w.write_byte(0x0a);
    assert_eq!(w.cell_at(HEIGHT - 2, 0), Cell { glyph: b'x', attr: ATTR });
    assert_eq!(w.cell_at(HEIGHT - 3, 0), blank(ATTR));
    w.write_byte(0x0a);
    assert_eq!(w.cell_at(HEIGHT - 3, 0), Cell { glyph: b'x', attr: ATTR });
    assert_eq!(w.cell_at(HEIGHT - 2, 0), blank(ATTR));
}

#[test]
fn unprintable_byte_becomes_fallback_glyph() {
    let mut w = yellow_writer();
    w.write_str(&[0x01, 0x7f, 0x09]);
    assert_eq!(w.cell_at(HEIGHT - 1, 0), Cell { glyph: 0xfe, attr: ATTR });
    assert_eq!(w.cell_at(HEIGHT - 1, 1), Cell { glyph: 0xfe, attr: ATTR });
    assert_eq!(w.cell_at(HEIGHT - 1, 2), Cell { glyph: 0xfe, attr: ATTR });
}

#[test]
fn printable_range_bounds_pass_through() {
    let mut w = yellow_writer();
    w.write_str(&[0x20, 0x7e]);
    assert_eq!(w.cell_at(HEIGHT - 1, 0), Cell { glyph: 0x20, attr: ATTR });
    assert_eq!(w.cell_at(HEIGHT - 1, 1), Cell { glyph: 0x7e, attr: ATTR });
}

#[test]
fn empty_string_is_a_noop() {
    let mut w = yellow_writer();
    w.write_str(b"");
    assert_eq!(w.col, 0);
    assert_eq!(w.cell_at(HEIGHT - 1, 0), blank(ATTR));
}

#[test]
fn clear_row_blanks_only_that_row() {
    let mut w = yellow_writer();
    w.write_str(b"abc");
    w.clear_row(HEIGHT - 1);
    assert_eq!(w.cell_at(HEIGHT - 1, 0), blank(ATTR));
    assert_eq!(w.cell_at(HEIGHT - 1, 2), blank(ATTR));
    // the cursor is untouched by clear_row alone
    assert_eq!(w.col, 3);
}

#[test]
fn round_trip_raw_grid_memory() {
    let mut w = Writer::new(Color::White, Color::Blue);
    let attr = 0x1f;
    w.write_str(b"Az 9~");
    let expected = b"Az 9~";
    // read the raw grid back at the expected row-major offsets
    for k in 0..5 {
        let offset = (HEIGHT - 1) * WIDTH + k;
        assert_eq!(w.cells[offset], Cell { glyph: expected[k], attr });
    }
    // a neighbouring offset still holds a blank pair
    assert_eq!(w.cells[(HEIGHT - 1) * WIDTH + 5], Cell { glyph: 0x20, attr });
    assert_eq!(w.cells[0], Cell { glyph: 0x20, attr });
}

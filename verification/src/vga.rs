//! Text-mode display writer: a fixed 80x25 grid of cells (glyph byte plus
//! color attribute byte), written in place, with a cursor that always sits on
//! the last row. New lines scroll every row up by one and clear the last row.

use vstd::prelude::*;

verus! {

/// Number of character columns on the text-mode grid.
pub const WIDTH: usize = 80;

/// Number of character rows on the text-mode grid.
pub const HEIGHT: usize = 25;

/// Total number of cells in the grid, laid out row-major.
pub const GRID_SIZE: usize = WIDTH * HEIGHT;

/// The newline control byte.
pub const NEWLINE: u8 = 0x0a;

/// Glyph substituted for a byte outside the printable code page.
pub const FALLBACK_GLYPH: u8 = 0xfe;

/// The blank glyph used for cleared cells.
pub const BLANK: u8 = 0x20;

/// The closed palette of text-mode colors, in hardware numbering order
/// (`Black` is color 0, `White` is color 15).
#[derive(Clone, Copy, PartialEq, Eq, Structural, Debug)]
pub enum Color {
    Black,
    Blue,
    Green,
    Cyan,
    Red,
    Magenta,
    Brown,
    LightGray,
    DarkGray,
    LightBlue,
    LightGreen,
    LightCyan,
    LightRed,
    Pink,
    Yellow,
    White,
}

/// The hardware color number of a palette entry.
pub open spec fn color_code(c: Color) -> u8 {
    match c {
        Color::Black => 0,
        Color::Blue => 1,
        Color::Green => 2,
        Color::Cyan => 3,
        Color::Red => 4,
        Color::Magenta => 5,
        Color::Brown => 6,
        Color::LightGray => 7,
        Color::DarkGray => 8,
        Color::LightBlue => 9,
        Color::LightGreen => 10,
        Color::LightCyan => 11,
        Color::LightRed => 12,
        Color::Pink => 13,
        Color::Yellow => 14,
        Color::White => 15,
    }
}

/// The attribute byte packing a foreground and a background color:
/// low nibble foreground, high nibble background.
pub open spec fn attr_value(fg: Color, bg: Color) -> u8 {
    (color_code(bg) * 16 + color_code(fg)) as u8
}

/// Packs a foreground and a background color into one attribute byte.
pub fn attr_byte(fg: Color, bg: Color) -> (r: u8)
    ensures
        r == attr_value(fg, bg),
{
    let b = color_index(bg);
    let f = color_index(fg);
    b * 16 + f
}

/// Returns the hardware color number of a palette entry.
pub fn color_index(c: Color) -> (r: u8)
    ensures
        r == color_code(c),
{
    match c {
        Color::Black => 0,
        Color::Blue => 1,
        Color::Green => 2,
        Color::Cyan => 3,
        Color::Red => 4,
        Color::Magenta => 5,
        Color::Brown => 6,
        Color::LightGray => 7,
        Color::DarkGray => 8,
        Color::LightBlue => 9,
        Color::LightGreen => 10,
        Color::LightCyan => 11,
        Color::LightRed => 12,
        Color::Pink => 13,
        Color::Yellow => 14,
        Color::White => 15,
    }
}

/// One displayable unit of the grid: a glyph byte and an attribute byte.
#[derive(Clone, Copy, PartialEq, Eq, Structural, Debug)]
pub struct Cell {
    pub glyph: u8,
    pub attr: u8,
}

/// A cleared cell: a blank glyph under the given attribute.
pub open spec fn blank_cell(attr: u8) -> Cell {
    Cell { glyph: BLANK, attr }
}

/// Flat index of the cell at `row`, `col` in the row-major grid.
pub open spec fn grid_index(row: int, col: int) -> int {
    row * (WIDTH as int) + col
}

/// The grid after one scroll: each row takes the contents of the row below
/// it, and the last row is cleared to blanks under `attr`.
pub open spec fn scrolled(g: Seq<Cell>, attr: u8) -> Seq<Cell> {
    Seq::new(g.len(), |i: int| if i + (WIDTH as int) < g.len() { g[i + (WIDTH as int)] } else { blank_cell(attr) })
}

/// Whether a byte lies in the supported printable code page.
pub open spec fn printable(b: u8) -> bool {
    0x20 <= b <= 0x7e
}

/// The glyph actually placed for a byte handed to `Writer::write_str`:
/// printable bytes and the newline pass through, anything else becomes the
/// fallback glyph.
pub open spec fn glyph_for(b: u8) -> u8 {
    if printable(b) || b == NEWLINE {
        b
    } else {
        FALLBACK_GLYPH
    }
}

/// Grid and cursor column after one byte goes through `Writer::write_byte`
/// under attribute `attr`: a newline scrolls and resets the column; a full
/// row wraps through the same scroll before the byte is placed; otherwise the
/// byte lands at the cursor on the last row and the column advances.
pub open spec fn byte_step(g: Seq<Cell>, col: int, attr: u8, b: u8) -> (Seq<Cell>, int) {
    if b == NEWLINE {
        (scrolled(g, attr), 0)
    } else if col < WIDTH {
        (g.update(grid_index(HEIGHT - 1, col), Cell { glyph: b, attr }), col + 1)
    } else {
        (scrolled(g, attr).update(grid_index(HEIGHT - 1, 0), Cell { glyph: b, attr }), 1)
    }
}

/// Grid and cursor column after every byte of `s` goes through
/// `Writer::write_str`: each byte is first mapped by `glyph_for`, then fed to
/// `byte_step` in order.
pub open spec fn str_step(g: Seq<Cell>, col: int, attr: u8, s: Seq<u8>) -> (Seq<Cell>, int)
    decreases s.len(),
{
    if s.len() == 0 {
        (g, col)
    } else {
        let mid = byte_step(g, col, attr, glyph_for(s[0]));
        str_step(mid.0, mid.1, attr, s.skip(1))
    }
}

/// The display writer: exclusive owner of the cell grid, with the cursor
/// column and the attribute byte applied to every placed glyph.
pub struct Writer {
    /// Cursor column on the last row; at most `WIDTH`, where `WIDTH` means
    /// the row is full and the next placed glyph wraps.
    pub col: usize,
    /// Attribute byte stamped on every cell this writer places or clears.
    pub attr: u8,
    /// The cell grid, row-major, always exactly `GRID_SIZE` cells.
    pub cells: Vec<Cell>,
}

impl Writer {
    /// The writer owns a whole grid and its cursor never passes the row end.
    pub open spec fn wf(self) -> bool {
        &&& self.cells@.len() == GRID_SIZE
        &&& self.col <= WIDTH
    }

    /// A fresh writer over an all-blank grid, cursor at column 0.
    pub fn new(fg: Color, bg: Color) -> (w: Writer)
        ensures
            w.wf(),
            w.col == 0,
            w.attr == attr_value(fg, bg),
            forall|i: int| 0 <= i < GRID_SIZE ==> w.cells@[i] == blank_cell(attr_value(fg, bg)),
    {
        let attr = attr_byte(fg, bg);
        let mut cells: Vec<Cell> = Vec::new();
        let mut i: usize = 0;
        while i < GRID_SIZE
            invariant
                i <= GRID_SIZE,
                cells@.len() == i,
                forall|j: int| 0 <= j < i ==> cells@[j] == blank_cell(attr),
            decreases GRID_SIZE - i,
        {
            cells.push(Cell { glyph: BLANK, attr });
            i += 1;
        }
        Writer { col: 0, attr, cells }
    }

    /// Fills one row with blank cells under the writer's attribute; nothing
    /// else changes.
    pub fn clear_row(&mut self, row: usize)
        requires
            old(self).wf(),
            row < HEIGHT,
        ensures
            final(self).wf(),
            final(self).col == old(self).col,
            final(self).attr == old(self).attr,
            final(self).cells@.len() == GRID_SIZE,
            forall|j: int|
                0 <= j < GRID_SIZE ==> final(self).cells@[j] == (if grid_index(row as int, 0) <= j
                    < grid_index(row as int + 1, 0) {
                    blank_cell(old(self).attr)
                } else {
                    old(self).cells@[j]
                }),
    {
        let base = row * WIDTH;
        let mut c: usize = 0;
        while c < WIDTH
            invariant
                old(self).wf(),
                row < HEIGHT,
                base == row * WIDTH,
                c <= WIDTH,
                self.col == old(self).col,
                self.attr == old(self).attr,
                self.cells@.len() == GRID_SIZE,
                forall|j: int|
                    0 <= j < GRID_SIZE ==> self.cells@[j] == (if base <= j < base + c {
                        blank_cell(old(self).attr)
                    } else {
                        old(self).cells@[j]
                    }),
            decreases WIDTH - c,
        {
            assert(base + c < GRID_SIZE) by {
                assert(row * WIDTH + WIDTH <= HEIGHT * WIDTH) by (nonlinear_arith)
                    requires row < HEIGHT;
            }
            let attr = self.attr;
            self.cells.set(base + c, Cell { glyph: BLANK, attr });
            c += 1;
        }
    }

    /// Scrolls: every row takes the contents of the row below it, the last
    /// row is cleared to blanks, and the cursor returns to column 0.
    pub fn new_line(&mut self)
        requires
            old(self).wf(),
        ensures
            final(self).wf(),
            final(self).attr == old(self).attr,
            final(self).col == 0,
            final(self).cells@ == scrolled(old(self).cells@, old(self).attr),
    {
        let limit = WIDTH * (HEIGHT - 1);
        let mut i: usize = 0;
        while i < limit
            invariant
                limit == WIDTH * (HEIGHT - 1),
                i <= limit,
                self.attr == old(self).attr,
                self.col == old(self).col,
                old(self).wf(),
                self.cells@.len() == GRID_SIZE,
                forall|j: int| 0 <= j < i ==> self.cells@[j] == old(self).cells@[j + WIDTH],
                forall|j: int| i <= j < GRID_SIZE ==> self.cells@[j] == old(self).cells@[j],
            decreases limit - i,
        {
            let shifted = self.cells[i + WIDTH];
            self.cells.set(i, shifted);
            i += 1;
        }
        self.clear_row(HEIGHT - 1);
        self.col = 0;
        proof {
            assert(self.cells@ =~= scrolled(old(self).cells@, old(self).attr));
        }
    }

    /// Feeds one raw byte to the display: a newline scrolls and resets the
    /// column; otherwise the byte is placed at the cursor on the last row,
    /// wrapping through a single scroll first when the row is already full.
    pub fn write_byte(&mut self, b: u8)
        requires
            old(self).wf(),
        ensures
            final(self).wf(),
            final(self).attr == old(self).attr,
            (final(self).cells@, final(self).col as int) == byte_step(
                old(self).cells@,
                old(self).col as int,
                old(self).attr,
                b,
            ),
            b == NEWLINE ==> final(self).col == 0 && final(self).cells@ == scrolled(
                old(self).cells@,
                old(self).attr,
            ),
    {
        if b == NEWLINE {
            self.new_line();
        } else {
            if self.col >= WIDTH {
                self.new_line();
            }
            let target = (HEIGHT - 1) * WIDTH + self.col;
            let attr = self.attr;
            self.cells.set(target, Cell { glyph: b, attr });
            self.col = self.col + 1;
        }
    }

    /// Feeds every byte of `s` to the display in order, substituting the
    /// fallback glyph for any byte outside the printable code page (the
    /// newline passes through). A zero-length string changes nothing.
    pub fn write_str(&mut self, s: &[u8])
        requires
            old(self).wf(),
        ensures
            final(self).wf(),
            final(self).attr == old(self).attr,
            (final(self).cells@, final(self).col as int) == str_step(
                old(self).cells@,
                old(self).col as int,
                old(self).attr,
                s@,
            ),
    {
        let n = s.len();
        let mut i: usize = 0;
        proof {
            assert(s@.skip(0) =~= s@);
        }
        while i < n
            invariant
                old(self).wf(),
                self.wf(),
                n == s@.len(),
                i <= n,
                self.attr == old(self).attr,
                str_step(self.cells@, self.col as int, self.attr, s@.skip(i as int)) == str_step(
                    old(self).cells@,
                    old(self).col as int,
                    old(self).attr,
                    s@,
                ),
            decreases n - i,
        {
            let b = s[i];
            let mapped = if b == NEWLINE || (0x20 <= b && b <= 0x7e) {
                b
            } else {
                FALLBACK_GLYPH
            };
            proof {
                assert(mapped == glyph_for(s@[i as int]));
                assert(s@.skip(i as int)[0] == s@[i as int]);
                assert(s@.skip(i as int).skip(1) =~= s@.skip(i as int + 1));
            }
            self.write_byte(mapped);
            i += 1;
        }
        proof {
            assert(s@.skip(n as int) =~= Seq::<u8>::empty());
        }
    }

    /// Reads the cell at `row`, `col` back from the grid.
    pub fn cell_at(&self, row: usize, col: usize) -> (c: Cell)
        requires
            self.wf(),
            row < HEIGHT,
            col < WIDTH,
        ensures
            c == self.cells@[grid_index(row as int, col as int)],
    {
        assert(row * WIDTH + col < GRID_SIZE) by {
            assert(row * WIDTH + WIDTH <= HEIGHT * WIDTH) by (nonlinear_arith)
                requires row < HEIGHT;
        }
        self.cells[row * WIDTH + col]
    }

    /// Reads one row's glyph bytes back from the grid, in column order.
    pub fn row_text(&self, row: usize) -> (r: Vec<u8>)
        requires
            self.wf(),
            row < HEIGHT,
        ensures
            r@.len() == WIDTH,
            forall|c: int|
                0 <= c < WIDTH ==> r@[c] == self.cells@[grid_index(row as int, c)].glyph,
    {
        let mut r: Vec<u8> = Vec::new();
        let mut c: usize = 0;
        while c < WIDTH
            invariant
                self.wf(),
                row < HEIGHT,
                c <= WIDTH,
                r@.len() == c,
                forall|k: int|
                    0 <= k < c ==> r@[k] == self.cells@[grid_index(row as int, k)].glyph,
            decreases WIDTH - c,
        {
            let cell = self.cell_at(row, c);
            r.push(cell.glyph);
            c += 1;
        }
        r
    }
}

/// Law: a scroll moves the contents of row `i + 1` to row `i` for every row
/// but the last (in the flat row-major grid, the cell at index `j` takes
/// the cell one row, that is `WIDTH` cells, further on), and leaves the
/// last row all blanks.
pub proof fn lemma_scrolled_rows(g: Seq<Cell>, attr: u8)
    requires
        g.len() == GRID_SIZE,
    ensures
        scrolled(g, attr).len() == GRID_SIZE,
        forall|j: int|
            0 <= j < WIDTH * (HEIGHT - 1) ==> #[trigger] scrolled(g, attr)[j] == g[j + WIDTH],
        forall|j: int|
            WIDTH * (HEIGHT - 1) <= j < GRID_SIZE ==> #[trigger] scrolled(g, attr)[j]
                == blank_cell(attr),
{
}

/// Law: printing a printable, newline-free byte sequence that fits in the
/// rest of the row advances the cursor by exactly its length, places its
/// bytes in order at the cursor on the last row, and changes no cell
/// outside that span.
pub proof fn lemma_write_within_row(g: Seq<Cell>, col: int, attr: u8, s: Seq<u8>)
    requires
        g.len() == GRID_SIZE,
        0 <= col,
        col + s.len() <= WIDTH,
        forall|i: int| 0 <= i < s.len() ==> printable(#[trigger] s[i]),
    ensures
        str_step(g, col, attr, s).1 == col + s.len(),
        str_step(g, col, attr, s).0.len() == GRID_SIZE,
        forall|j: int|
            grid_index(HEIGHT - 1, col) <= j < grid_index(HEIGHT - 1, col) + s.len()
                ==> #[trigger] str_step(g, col, attr, s).0[j] == (Cell {
                glyph: s[j - grid_index(HEIGHT - 1, col)],
                attr,
            }),
        forall|j: int|
            0 <= j < GRID_SIZE && !(grid_index(HEIGHT - 1, col) <= j < grid_index(HEIGHT - 1, col)
                + s.len()) ==> #[trigger] str_step(g, col, attr, s).0[j] == g[j],
    decreases s.len(),
{
    if s.len() > 0 {
        let b = s[0];
        assert(printable(b));
        assert(glyph_for(b) == b);
        let mid = byte_step(g, col, attr, b);
        assert(col < WIDTH);
        assert(mid.0 == g.update(grid_index(HEIGHT - 1, col), Cell { glyph: b, attr }));
        assert(forall|i: int| 0 <= i < s.skip(1).len() ==> printable(#[trigger] s.skip(1)[i]));
        lemma_write_within_row(mid.0, col + 1, attr, s.skip(1));
        let fin = str_step(g, col, attr, s);
        assert(fin == str_step(mid.0, mid.1, attr, s.skip(1)));
        let base = grid_index(HEIGHT - 1, col);
        assert(grid_index(HEIGHT - 1, col + 1) == base + 1);
        assert forall|j: int| base <= j < base + s.len() implies #[trigger] fin.0[j] == (Cell {
            glyph: s[j - base],
            attr,
        }) by {
            if j == base {
                assert(fin.0[j] == mid.0[j]);
                assert(mid.0[base] == (Cell { glyph: b, attr }));
            } else {
                assert(s.skip(1)[j - (base + 1)] == s[j - base]);
            }
        }
    }
}

/// Law: printing a printable, newline-free byte sequence that overflows the
/// last row scrolls exactly once. The result is exactly: the bytes that
/// fill the row placed, one scroll applied, and the remaining bytes placed
/// from column 0 with no further scroll, leaving the cursor past them.
pub proof fn lemma_write_overflow_scrolls_once(g: Seq<Cell>, col: int, attr: u8, s: Seq<u8>)
    requires
        g.len() == GRID_SIZE,
        0 <= col <= WIDTH,
        WIDTH < col + s.len(),
        col + s.len() <= 2 * WIDTH,
        forall|i: int| 0 <= i < s.len() ==> printable(#[trigger] s[i]),
    ensures
        ({
            let filled = str_step(g, col, attr, s.take(WIDTH - col)).0;
            str_step(g, col, attr, s) == str_step(
                scrolled(filled, attr),
                0,
                attr,
                s.skip(WIDTH - col),
            )
        }),
        str_step(g, col, attr, s).1 == col + s.len() - WIDTH,
{
    let fill = WIDTH - col;
    let head = s.take(fill);
    let rest = s.skip(fill);
    assert(forall|i: int| 0 <= i < head.len() ==> printable(#[trigger] head[i]));
    assert(forall|i: int| 0 <= i < rest.len() ==> printable(#[trigger] rest[i]));
    lemma_str_step_split(g, col, attr, s, fill);
    let mid = str_step(g, col, attr, head);
    lemma_write_within_row(g, col, attr, head);
    assert(mid.1 == WIDTH);
    // the first remaining byte wraps: one scroll, then it lands at column 0,
    // exactly as if it had been written on the already scrolled grid
    assert(rest.len() > 0);
    let b = glyph_for(rest[0]);
    let wrapped = byte_step(mid.0, WIDTH as int, attr, b);
    let direct = byte_step(scrolled(mid.0, attr), 0, attr, b);
    assert(wrapped == direct);
    assert(str_step(g, col, attr, s) == str_step(wrapped.0, wrapped.1, attr, rest.skip(1)));
    assert(str_step(scrolled(mid.0, attr), 0, attr, rest) == str_step(
        direct.0,
        direct.1,
        attr,
        rest.skip(1),
    ));
    lemma_write_within_row(scrolled(mid.0, attr), 0, attr, rest);
    assert(str_step(scrolled(mid.0, attr), 0, attr, rest).1 == rest.len());
}

/// The grid after `n` scrolls in a row.
pub open spec fn scrolled_n(g: Seq<Cell>, attr: u8, n: nat) -> Seq<Cell>
    decreases n,
{
    if n == 0 {
        g
    } else {
        scrolled_n(scrolled(g, attr), attr, (n - 1) as nat)
    }
}

/// Law: however full the display already is, printing newline bytes
/// scrolls exactly once per newline — a sequence of `n` newlines applies
/// the scroll exactly `n` times and leaves the cursor at column 0.
pub proof fn lemma_newlines_scroll_once_each(g: Seq<Cell>, col: int, attr: u8, s: Seq<u8>)
    requires
        s.len() > 0,
        forall|i: int| 0 <= i < s.len() ==> #[trigger] s[i] == NEWLINE,
    ensures
        str_step(g, col, attr, s).0 == scrolled_n(g, attr, s.len()),
        str_step(g, col, attr, s).1 == 0,
    decreases s.len(),
{
    assert(s[0] == NEWLINE);
    assert(glyph_for(s[0]) == NEWLINE);
    assert(byte_step(g, col, attr, NEWLINE).0 == scrolled(g, attr));
    assert(byte_step(g, col, attr, NEWLINE).1 == 0);
    assert(str_step(g, col, attr, s) == str_step(scrolled(g, attr), 0, attr, s.skip(1)));
    assert(s.skip(1).len() == s.len() - 1);
    assert(scrolled_n(g, attr, s.len()) == scrolled_n(scrolled(g, attr), attr, (s.len() - 1) as nat));
    if s.len() == 1 {
        assert(s.skip(1).len() == 0);
        assert(str_step(scrolled(g, attr), 0, attr, s.skip(1)).0 == scrolled(g, attr));
        assert(scrolled_n(scrolled(g, attr), attr, 0) == scrolled(g, attr));
    } else {
        assert(forall|i: int| 0 <= i < s.skip(1).len() ==> #[trigger] s.skip(1)[i] == NEWLINE);
        lemma_newlines_scroll_once_each(scrolled(g, attr), 0, attr, s.skip(1));
    }
}

/// Splitting a printed byte sequence anywhere changes nothing: writing `s`
/// is writing its first `m` bytes and then the rest.
pub proof fn lemma_str_step_split(g: Seq<Cell>, col: int, attr: u8, s: Seq<u8>, m: int)
    requires
        0 <= m <= s.len(),
    ensures
        ({
            let mid = str_step(g, col, attr, s.take(m));
            str_step(g, col, attr, s) == str_step(mid.0, mid.1, attr, s.skip(m))
        }),
    decreases m,
{
    if m == 0 {
        assert(s.take(0).len() == 0);
        assert(s.skip(0) =~= s);
    } else {
        let b = glyph_for(s[0]);
        assert(s.take(m)[0] == s[0]);
        let first = byte_step(g, col, attr, b);
        lemma_str_step_split(first.0, first.1, attr, s.skip(1), m - 1);
        assert(s.skip(1).take(m - 1) =~= s.take(m).skip(1));
        assert(s.skip(1).skip(m - 1) =~= s.skip(m));
    }
}

} // verus!

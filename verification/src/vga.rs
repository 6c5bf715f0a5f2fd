//! VGA text-mode console.
//!
//! The screen is a fixed grid of `VGA_WIDTH * VGA_HEIGHT` cells, two bytes
//! each: the low byte holds the character code, the high byte packs a
//! foreground and a background color into one attribute byte. On real
//! hardware the grid lives at a fixed physical address; here the console
//! owns a plain in-memory copy of the same layout, so rendering can be
//! verified and tested without hardware. At most one console should exist
//! per screen, since every console addresses the whole grid.

use vstd::prelude::*;

verus! {

use vstd::pervasive::VecAdditionalExecFns;
use vstd::string::StrSliceExecFns;

/// Number of character columns on the screen.
pub const VGA_WIDTH: usize = 80;

/// Number of character rows on the screen.
pub const VGA_HEIGHT: usize = 25;

/// The 16 colors of the standard 4-bit VGA palette.
#[derive(Clone, Copy, PartialEq, Eq, Structural, Debug)]
pub enum Color {
    Black,
    Blue,
    Green,
    Cyan,
    Red,
    Pink,
    Brown,
    LightGray,
    DarkGray,
    LightBlue,
    LightGreen,
    LightCyan,
    LightRed,
    LightPink,
    Yellow,
    White,
}

impl Color {
    /// The 4-bit palette index of this color.
    pub open spec fn spec_code(self) -> int {
        match self {
            Color::Black => 0,
            Color::Blue => 1,
            Color::Green => 2,
            Color::Cyan => 3,
            Color::Red => 4,
            Color::Pink => 5,
            Color::Brown => 6,
            Color::LightGray => 7,
            Color::DarkGray => 8,
            Color::LightBlue => 9,
            Color::LightGreen => 10,
            Color::LightCyan => 11,
            Color::LightRed => 12,
            Color::LightPink => 13,
            Color::Yellow => 14,
            Color::White => 15,
        }
    }

    /// The palette index as a byte.
    pub fn code(self) -> (r: u8)
        ensures
            r == self.spec_code(),
            r < 16,
    {
        match self {
            Color::Black => 0,
            Color::Blue => 1,
            Color::Green => 2,
            Color::Cyan => 3,
            Color::Red => 4,
            Color::Pink => 5,
            Color::Brown => 6,
            Color::LightGray => 7,
            Color::DarkGray => 8,
            Color::LightBlue => 9,
            Color::LightGreen => 10,
            Color::LightCyan => 11,
            Color::LightRed => 12,
            Color::LightPink => 13,
            Color::Yellow => 14,
            Color::White => 15,
        }
    }
}

/// The attribute byte: foreground index in the low nibble, background
/// index in the high nibble.
pub open spec fn spec_attr_byte(fg: Color, bg: Color) -> int {
    fg.spec_code() + 16 * bg.spec_code()
}

/// The packed 16-bit cell: character code in the low byte (higher code
/// points are truncated to their low byte, as the hardware format keeps
/// only eight bits per character), attribute byte in the high byte.
pub open spec fn spec_cell(c: char, fg: Color, bg: Color) -> int {
    (c as int) % 256 + 256 * spec_attr_byte(fg, bg)
}

/// The cell a cleared screen is filled with: a null character with the
/// given colors.
pub open spec fn blank_cell(fg: Color, bg: Color) -> u16 {
    (256 * spec_attr_byte(fg, bg)) as u16
}

/// Builds the packed cell value written to the frame buffer for one
/// character in the given colors.
pub fn make_vgaentry(c: char, fg: Color, bg: Color) -> (r: u16)
    ensures
        r == spec_cell(c, fg, bg),
{
    let code: u16 = (c as u32 % 256) as u16;
    let attr: u16 = fg.code() as u16 + 16 * (bg.code() as u16);
    code + 256 * attr
}

/// The mathematical state of a console: the grid of packed cells, the
/// cursor, and the two current colors.
#[verifier::ext_equal]
pub struct ConsoleView {
    pub grid: Seq<u16>,
    pub x: nat,
    pub y: nat,
    pub fg: Color,
    pub bg: Color,
}

impl ConsoleView {
    /// Well-formedness: the grid covers the whole screen, and the cursor
    /// sits in the grid or just past its right or bottom edge (the column
    /// may rest at `VGA_WIDTH` until the next write wraps it).
    pub open spec fn wf(self) -> bool {
        &&& self.grid.len() == VGA_WIDTH * VGA_HEIGHT
        &&& self.x <= VGA_WIDTH
        &&& self.y <= VGA_HEIGHT
    }
}

/// Index of the cell at column `x`, row `y` in the row-major grid.
pub open spec fn grid_index(x: nat, y: nat) -> int {
    y * VGA_WIDTH + x
}

/// One bounds-checked cell write: off-grid coordinates leave the screen
/// untouched.
pub open spec fn spec_put_char_at(m: ConsoleView, x: nat, y: nat, c: char) -> ConsoleView {
    if x < VGA_WIDTH && y < VGA_HEIGHT {
        ConsoleView { grid: m.grid.update(grid_index(x, y), spec_cell(c, m.fg, m.bg) as u16), ..m }
    } else {
        m
    }
}

/// Cursor normalization before a write: a column resting past the last
/// one wraps to the start of the next row; the row saturates at
/// `VGA_HEIGHT`, where every write is a no-op.
pub open spec fn spec_wrap(m: ConsoleView) -> ConsoleView {
    if m.x >= VGA_WIDTH {
        ConsoleView { x: 0, y: if m.y < VGA_HEIGHT { (m.y + 1) as nat } else { m.y }, ..m }
    } else {
        m
    }
}

/// Writing one character: wrap the cursor if it rests past the last
/// column, write the cell under it (a no-op below the last row), then
/// advance the column.
pub open spec fn spec_putc(m: ConsoleView, c: char) -> ConsoleView {
    let w = spec_wrap(m);
    let written = spec_put_char_at(w, w.x, w.y, c);
    ConsoleView { x: (w.x + 1) as nat, ..written }
}

/// Writing a sequence of characters, one `spec_putc` per character in
/// order.
pub open spec fn spec_puts(m: ConsoleView, s: Seq<char>) -> ConsoleView
    decreases s.len(),
{
    if s.len() == 0 {
        m
    } else {
        spec_puts(spec_putc(m, s[0]), s.drop_first())
    }
}

/// A cleared screen: every cell blank in the current colors, cursor at
/// the origin.
pub open spec fn spec_clear(m: ConsoleView) -> ConsoleView {
    ConsoleView {
        grid: Seq::new((VGA_WIDTH * VGA_HEIGHT) as nat, |i: int| blank_cell(m.fg, m.bg)),
        x: 0,
        y: 0,
        fg: m.fg,
        bg: m.bg,
    }
}

/// A line break: column back to the start, row advanced by one. The row
/// saturates at `VGA_HEIGHT` so the cursor never leaves its stated
/// bounds; at that row every write is already a no-op, so saturating
/// changes nothing a write could observe.
pub open spec fn spec_newline(m: ConsoleView) -> ConsoleView {
    ConsoleView { x: 0, y: if m.y < VGA_HEIGHT { (m.y + 1) as nat } else { m.y }, ..m }
}

/// Rubbing out the previous character: the cursor steps back (to the last
/// column of the previous row from column zero, clamped at the origin so
/// the row never underflows), then a null character is written at the new
/// position.
pub open spec fn spec_backspace(m: ConsoleView) -> ConsoleView {
    let moved = if m.x == 0 {
        if m.y == 0 {
            m
        } else {
            ConsoleView { x: (VGA_WIDTH - 1) as nat, y: (m.y - 1) as nat, ..m }
        }
    } else {
        ConsoleView { x: (m.x - 1) as nat, ..m }
    };
    spec_put_char_at(moved, moved.x, moved.y, '\0')
}

/// A VGA text console: the simulated frame buffer it owns, the write
/// cursor, and the colors every new cell is drawn with.
pub struct Console {
    cells: Vec<u16>,
    curr_x: usize,
    curr_y: usize,
    fg_color: Color,
    bg_color: Color,
}

impl View for Console {
    type V = ConsoleView;

    closed spec fn view(&self) -> ConsoleView {
        ConsoleView {
            grid: self.cells@,
            x: self.curr_x as nat,
            y: self.curr_y as nat,
            fg: self.fg_color,
            bg: self.bg_color,
        }
    }
}

impl Console {
    /// Constructs a console over a fresh blank screen in the given
    /// colors, cursor at the origin.
    pub fn new(fg: Color, bg: Color) -> (c: Console)
        ensures
            c@.wf(),
            c@ == spec_clear(c@),
            c@.fg == fg,
            c@.bg == bg,
    {
        let blank = make_vgaentry('\0', fg, bg);
        let mut cells: Vec<u16> = Vec::new();
        let mut i: usize = 0;
        while i < VGA_WIDTH * VGA_HEIGHT
            invariant
                i <= VGA_WIDTH * VGA_HEIGHT,
                cells@.len() == i,
                blank == blank_cell(fg, bg),
                forall|j: int| 0 <= j < i ==> cells@[j] == blank_cell(fg, bg),
            decreases VGA_WIDTH * VGA_HEIGHT - i,
        {
            cells.push(blank);
            i = i + 1;
        }
        let c = Console { cells, curr_x: 0, curr_y: 0, fg_color: fg, bg_color: bg };
        proof {
            assert(c@ =~~= spec_clear(c@));
        }
        c
    }

    /// Writes one character at the given grid position in the current
    /// colors, leaving the cursor alone. Off-grid positions are a silent
    /// no-op: the screen is never touched outside its bounds.
    pub fn put_char_at(&mut self, x: usize, y: usize, c: char)
        requires
            old(self)@.wf(),
        ensures
            final(self)@.wf(),
            final(self)@ == spec_put_char_at(old(self)@, x as nat, y as nat, c),
    {
        if x < VGA_WIDTH && y < VGA_HEIGHT {
            let idx: usize = y * VGA_WIDTH + x;
            let cell = make_vgaentry(c, self.fg_color, self.bg_color);
            self.cells.set(idx, cell);
        }
    }

    /// Reads the packed cell at the given grid position.
    pub fn read_cell(&self, x: usize, y: usize) -> (r: u16)
        requires
            self@.wf(),
            x < VGA_WIDTH,
            y < VGA_HEIGHT,
        ensures
            r == self@.grid[grid_index(x as nat, y as nat)],
    {
        self.cells[y * VGA_WIDTH + x]
    }

    /// The cursor's current column; may rest at `VGA_WIDTH` until the
    /// next write wraps it.
    pub fn cursor_x(&self) -> (r: usize)
        ensures
            r == self@.x,
    {
        self.curr_x
    }

    /// The cursor's current row.
    pub fn cursor_y(&self) -> (r: usize)
        ensures
            r == self@.y,
    {
        self.curr_y
    }

    /// Writes one character at the cursor and advances it, wrapping to
    /// the next row after the last column; below the last row the write
    /// is a silent no-op.
    pub fn putc(&mut self, c: char)
        requires
            old(self)@.wf(),
        ensures
            final(self)@.wf(),
            final(self)@ == spec_putc(old(self)@, c),
    {
        if self.curr_x >= VGA_WIDTH {
            self.curr_x = 0;
            if self.curr_y < VGA_HEIGHT {
                self.curr_y = self.curr_y + 1;
            }
        }
        let x = self.curr_x;
        let y = self.curr_y;
        self.put_char_at(x, y, c);
        self.curr_x = self.curr_x + 1;
    }

    /// Moves the cursor to the start of the next row without writing.
    pub fn newline(&mut self)
        requires
            old(self)@.wf(),
        ensures
            final(self)@.wf(),
            final(self)@ == spec_newline(old(self)@),
    {
        self.curr_x = 0;
        if self.curr_y < VGA_HEIGHT {
            self.curr_y = self.curr_y + 1;
        }
    }

    /// Steps the cursor back one position (clamped at the origin) and
    /// blanks the cell there.
    pub fn backspace(&mut self)
        requires
            old(self)@.wf(),
        ensures
            final(self)@.wf(),
            final(self)@ == spec_backspace(old(self)@),
    {
        if self.curr_x == 0 {
            if self.curr_y > 0 {
                self.curr_y = self.curr_y - 1;
                self.curr_x = VGA_WIDTH - 1;
            }
        } else {
            self.curr_x = self.curr_x - 1;
        }
        let x = self.curr_x;
        let y = self.curr_y;
        self.put_char_at(x, y, '\0');
    }

    /// Writes every character of the string in order through `putc`,
    /// with no separators.
    pub fn puts(&mut self, s: &str)
        requires
            old(self)@.wf(),
        ensures
            final(self)@.wf(),
            final(self)@ == spec_puts(old(self)@, s@),
    {
        let n = s.unicode_len();
        let mut i: usize = 0;
        while i < n
            invariant
                n == s@.len(),
                i <= n,
                self@.wf(),
                self@ == spec_puts(old(self)@, s@.take(i as int)),
            decreases n - i,
        {
            let c = s.get_char(i);
            self.putc(c);
            proof {
                lemma_puts_snoc(old(self)@, s@.take(i as int), c);
                assert(s@.take(i + 1) =~= s@.take(i as int).push(c));
            }
            i = i + 1;
        }
        proof {
            assert(s@.take(n as int) =~= s@);
        }
    }

    /// Writes every byte of the slice in order through `putc`, each byte
    /// taken as the character with that code.
    pub fn write(&mut self, bytes: &[u8])
        requires
            old(self)@.wf(),
        ensures
            final(self)@.wf(),
            final(self)@ == spec_puts(old(self)@, bytes@.map_values(|b: u8| b as char)),
    {
        let n = bytes.len();
        let mut i: usize = 0;
        while i < n
            invariant
                n == bytes@.len(),
                i <= n,
                self@.wf(),
                self@ == spec_puts(old(self)@, bytes@.take(i as int).map_values(|b: u8| b as char)),
            decreases n - i,
        {
            let c = bytes[i] as char;
            self.putc(c);
            proof {
                lemma_puts_snoc(
                    old(self)@,
                    bytes@.take(i as int).map_values(|b: u8| b as char),
                    c,
                );
                assert(bytes@.take(i + 1).map_values(|b: u8| b as char) =~= bytes@.take(
                    i as int,
                ).map_values(|b: u8| b as char).push(c));
            }
            i = i + 1;
        }
        proof {
            assert(bytes@.take(n as int) =~= bytes@);
        }
    }

    /// Resets the cursor to the origin and blanks every one of the
    /// `VGA_WIDTH * VGA_HEIGHT` cells in the current colors, visiting
    /// each cell exactly once.
    pub fn clear(&mut self)
        requires
            old(self)@.wf(),
        ensures
            final(self)@.wf(),
            final(self)@ == spec_clear(old(self)@),
    {
        self.curr_x = 0;
        self.curr_y = 0;
        let blank = make_vgaentry('\0', self.fg_color, self.bg_color);
        let mut i: usize = 0;
        while i < VGA_WIDTH * VGA_HEIGHT
            invariant
                i <= VGA_WIDTH * VGA_HEIGHT,
                self@.grid.len() == VGA_WIDTH * VGA_HEIGHT,
                self@.x == 0,
                self@.y == 0,
                self@.fg == old(self)@.fg,
                self@.bg == old(self)@.bg,
                blank == blank_cell(old(self)@.fg, old(self)@.bg),
                forall|j: int| 0 <= j < i ==> self@.grid[j] == blank_cell(old(self)@.fg, old(self)@.bg),
            decreases VGA_WIDTH * VGA_HEIGHT - i,
        {
            self.cells.set(i, blank);
            i = i + 1;
        }
        proof {
            assert(self@ =~~= spec_clear(old(self)@));
        }
    }
}

/// Read-back after a write: whenever `spec_putc` lands inside the grid,
/// the cell under the (wrapped) cursor afterwards decodes to the written
/// character's code in its low byte and the then-current colors in its
/// high byte.
pub proof fn lemma_putc_readback(m: ConsoleView, c: char)
    requires
        m.wf(),
        spec_wrap(m).y < VGA_HEIGHT,
    ensures
        ({
            let w = spec_wrap(m);
            let cell = spec_putc(m, c).grid[grid_index(w.x, w.y)];
            &&& cell % 256 == (c as int) % 256
            &&& cell / 256 == spec_attr_byte(m.fg, m.bg)
        }),
{
    let w = spec_wrap(m);
    assert(0 <= m.fg.spec_code() < 16);
    assert(0 <= m.bg.spec_code() < 16);
    assert(0 <= (c as int) % 256 < 256);
    assert(0 <= spec_cell(c, m.fg, m.bg) < 0x10000);
    assert(grid_index(w.x, w.y) < VGA_WIDTH * VGA_HEIGHT);
}

/// The cursor's walk under repeated `putc` from the origin: the column
/// wraps exactly once every `VGA_WIDTH` characters, and the row advances
/// once per wrap until it saturates at `VGA_HEIGHT`.
pub proof fn lemma_puts_cursor(m: ConsoleView, s: Seq<char>)
    requires
        m.wf(),
        m.x == 0,
        m.y == 0,
        s.len() >= 1,
    ensures
        spec_puts(m, s).x == (s.len() - 1) % (VGA_WIDTH as int) + 1,
        spec_puts(m, s).y == if (s.len() - 1) / (VGA_WIDTH as int) < VGA_HEIGHT {
            (s.len() - 1) / (VGA_WIDTH as int)
        } else {
            VGA_HEIGHT as int
        },
    decreases s.len(),
{
    if s.len() == 1 {
        assert(s =~= Seq::empty().push(s[0]));
        lemma_puts_snoc(m, Seq::empty(), s[0]);
    } else {
        let t = s.drop_last();
        lemma_puts_cursor(m, t);
        lemma_puts_snoc(m, t, s.last());
        assert(s =~= t.push(s.last()));
        let n = t.len() as int;
        let w = VGA_WIDTH as int;
        assert(n % w == 0 ==> n / w == (n - 1) / w + 1 && n % w == (n - 1) % w + 1 - w);
        assert(n % w != 0 ==> n / w == (n - 1) / w && n % w == (n - 1) % w + 1);
    }
}

/// Clearing is idempotent: a second `clear` changes nothing, and a
/// cleared screen holds the blank cell everywhere with the cursor at the
/// origin.
pub proof fn lemma_clear_idempotent(m: ConsoleView)
    ensures
        spec_clear(spec_clear(m)) == spec_clear(m),
        spec_clear(m).x == 0,
        spec_clear(m).y == 0,
        forall|i: int|
            0 <= i < VGA_WIDTH * VGA_HEIGHT ==> spec_clear(m).grid[i] == blank_cell(m.fg, m.bg),
{
    assert(spec_clear(spec_clear(m)) =~~= spec_clear(m));
}

/// Backspace at the origin clamps: the cursor stays at `(0, 0)` instead
/// of underflowing the row, and the only cell that can change is the one
/// at the origin — nothing outside the grid is written.
pub proof fn lemma_backspace_at_origin(m: ConsoleView)
    requires
        m.wf(),
        m.x == 0,
        m.y == 0,
    ensures
        spec_backspace(m).x == 0,
        spec_backspace(m).y == 0,
        spec_backspace(m).grid.len() == m.grid.len(),
        forall|i: int| 1 <= i < m.grid.len() ==> spec_backspace(m).grid[i] == m.grid[i],
{
}

/// Writing a sequence and then one more character is the same as writing
/// the extended sequence in one go.
pub proof fn lemma_puts_snoc(m: ConsoleView, s: Seq<char>, c: char)
    ensures
        spec_puts(m, s.push(c)) == spec_putc(spec_puts(m, s), c),
    decreases s.len(),
{
    if s.len() == 0 {
        assert(s.push(c)[0] == c);
        assert(s.push(c).drop_first() =~= Seq::<char>::empty());
        assert(spec_puts(spec_putc(m, c), Seq::<char>::empty()) == spec_putc(m, c));
    } else {
        assert(s.push(c)[0] == s[0]);
        assert(s.push(c).drop_first() =~= s.drop_first().push(c));
        lemma_puts_snoc(spec_putc(m, s[0]), s.drop_first(), c);
    }
}

} // verus!

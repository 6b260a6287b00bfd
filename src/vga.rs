//! The text screen: a grid of 25 rows of 80 cells, each a byte and a colour
//! attribute. Text is written on the bottom row; a new line scrolls the
//! grid up by one row. The cells are kept here; copying them to the screen
//! memory is left to the caller.
use vstd::prelude::*;
use vstd::string::StringSliceAdditionalSpecFns;

verus! {

pub const BUFFER_HEIGHT: usize = 25;

pub const BUFFER_WIDTH: usize = 80;

/// Cells in the grid, row after row.
pub const BUFFER_CELLS: usize = 2000;

/// The sixteen text-mode colours.
#[derive(Clone, Copy, Debug, PartialEq, Eq, Structural)]
pub enum Color {
    Black,
    Blue,
    Green,
    Cyan,
    Red,
    Magenta,
    Brown,
    LightGray,
    DarkGray,
    LightBlue,
    LightGreen,
    LightCyan,
    LightRed,
    Pink,
    Yellow,
    White,
}

impl Color {
    /// The colour's 4-bit number.
    pub open spec fn code(self) -> u8 {
        match self {
            Color::Black => 0,
            Color::Blue => 1,
            Color::Green => 2,
            Color::Cyan => 3,
            Color::Red => 4,
            Color::Magenta => 5,
            Color::Brown => 6,
            Color::LightGray => 7,
            Color::DarkGray => 8,
            Color::LightBlue => 9,
            Color::LightGreen => 10,
            Color::LightCyan => 11,
            Color::LightRed => 12,
            Color::Pink => 13,
            Color::Yellow => 14,
            Color::White => 15,
        }
    }

    pub fn as_u8(self) -> (r: u8)
        ensures
            r == self.code(),
            r < 16,
    {
        match self {
            Color::Black => 0,
            Color::Blue => 1,
            Color::Green => 2,
            Color::Cyan => 3,
            Color::Red => 4,
            Color::Magenta => 5,
            Color::Brown => 6,
            Color::LightGray => 7,
            Color::DarkGray => 8,
            Color::LightBlue => 9,
            Color::LightGreen => 10,
            Color::LightCyan => 11,
            Color::LightRed => 12,
            Color::Pink => 13,
            Color::Yellow => 14,
            Color::White => 15,
        }
    }
}

/// A colour attribute: background in the high four bits, foreground in the low four.
#[derive(Clone, Copy, Debug, PartialEq, Eq, Structural)]
pub struct ColorCode(pub u8);

impl ColorCode {
    pub fn new(foreground: Color, background: Color) -> (r: ColorCode)
        ensures
            r.0 == background.code() * 16 + foreground.code(),
    {
        ColorCode(background.as_u8() * 16 + foreground.as_u8())
    }
}

/// One cell of the grid.
#[derive(Clone, Copy, Debug, PartialEq, Eq, Structural)]
pub struct ScreenChar {
    pub ascii_character: u8,
    pub color_code: ColorCode,
}

/// An empty cell in the given colour.
pub open spec fn blank(color: ColorCode) -> ScreenChar {
    ScreenChar { ascii_character: 0x20, color_code: color }
}

/// The grid after a new line: every row moves up one, the top row is lost
/// and the bottom row is blank.
pub open spec fn scrolled(cells: Seq<ScreenChar>, color: ColorCode) -> Seq<ScreenChar> {
    cells.subrange(BUFFER_WIDTH as int, BUFFER_CELLS as int) + Seq::new(
        BUFFER_WIDTH as nat,
        |i: int| blank(color),
    )
}

/// Grid and column after writing `byte`: a newline scrolls; any other
/// byte goes to the bottom row at the column, scrolling first when the row
/// is full.
pub open spec fn after_byte(
    cells: Seq<ScreenChar>,
    column: nat,
    color: ColorCode,
    byte: u8,
) -> (Seq<ScreenChar>, nat) {
    if byte == 0x0a {
        (scrolled(cells, color), 0)
    } else {
        let (c, col) = if column >= BUFFER_WIDTH {
            (scrolled(cells, color), 0nat)
        } else {
            (cells, column)
        };
        (
            c.update(
                ((BUFFER_HEIGHT - 1) * BUFFER_WIDTH + col) as int,
                ScreenChar { ascii_character: byte, color_code: color },
            ),
            col + 1,
        )
    }
}

/// Grid and column after writing `bytes` in order; a carriage return
/// moves back to the start of the row.
pub open spec fn after_bytes(
    cells: Seq<ScreenChar>,
    column: nat,
    color: ColorCode,
    bytes: Seq<u8>,
) -> (Seq<ScreenChar>, nat)
    decreases bytes.len(),
{
    if bytes.len() == 0 {
        (cells, column)
    } else {
        let (c, col) = after_bytes(cells, column, color, bytes.drop_last());
        if bytes.last() == 0x0d {
            (c, 0)
        } else {
            after_byte(c, col, color, bytes.last())
        }
    }
}

/// The text screen's cells, the write column on the bottom row, and the
/// colour of what is written.
pub struct Writer {
    column_position: usize,
    color_code: ColorCode,
    buffer: Vec<ScreenChar>,
}

impl Writer {
    /// The cells, row after row.
    pub closed spec fn cells(&self) -> Seq<ScreenChar> {
        self.buffer@
    }

    pub closed spec fn column(&self) -> nat {
        self.column_position as nat
    }

    pub closed spec fn color(&self) -> ColorCode {
        self.color_code
    }

    pub open spec fn wf(&self) -> bool {
        &&& self.cells().len() == BUFFER_CELLS
        &&& self.column() <= BUFFER_WIDTH
    }

    /// A blank screen written in `color_code`.
    pub fn new(color_code: ColorCode) -> (r: Self)
        ensures
            r.wf(),
            r.cells() == Seq::new(BUFFER_CELLS as nat, |i: int| blank(color_code)),
            r.column() == 0,
            r.color() == color_code,
    {
        let mut buffer: Vec<ScreenChar> = Vec::new();
        while buffer.len() < BUFFER_CELLS
            invariant
                buffer@.len() <= BUFFER_CELLS,
                buffer@ == Seq::new(buffer@.len(), |i: int| blank(color_code)),
            decreases BUFFER_CELLS - buffer@.len(),
        {
            buffer.push(ScreenChar { ascii_character: 0x20, color_code });
            proof {
                assert(buffer@ =~= Seq::new(buffer@.len(), |i: int| blank(color_code)));
            }
        }
        proof {
            assert(buffer@ =~= Seq::new(BUFFER_CELLS as nat, |i: int| blank(color_code)));
        }
        Writer { column_position: 0, color_code, buffer }
    }

    /// The cell at `row`, `column`.
    pub fn cell(&self, row: usize, column: usize) -> (r: ScreenChar)
        requires
            self.wf(),
            row < BUFFER_HEIGHT,
            column < BUFFER_WIDTH,
        ensures
            r == self.cells()[row * BUFFER_WIDTH + column],
    {
        self.buffer[row * BUFFER_WIDTH + column]
    }

    /// Puts `byte` at `row`, `column` in the current colour.
    pub fn write_at(&mut self, byte: u8, row: usize, column: usize)
        requires
            old(self).wf(),
            row < BUFFER_HEIGHT,
            column < BUFFER_WIDTH,
        ensures
            final(self).wf(),
            final(self).color() == old(self).color(),
            final(self).column() == old(self).column(),
            final(self).cells() == old(self).cells().update(
                row * BUFFER_WIDTH + column,
                ScreenChar { ascii_character: byte, color_code: old(self).color() },
            ),
    {
        let color_code = self.color_code;
        self.buffer.set(row * BUFFER_WIDTH + column, ScreenChar { ascii_character: byte, color_code });
    }

    fn new_line(&mut self)
        requires
            old(self).wf(),
        ensures
            final(self).wf(),
            final(self).color() == old(self).color(),
            final(self).column() == 0,
            final(self).cells() == scrolled(old(self).cells(), old(self).color()),
    {
        let mut i: usize = BUFFER_WIDTH;
        while i < BUFFER_CELLS
            invariant
                BUFFER_WIDTH <= i <= BUFFER_CELLS,
                self.buffer@.len() == BUFFER_CELLS,
                self.color_code == old(self).color_code,
                self.column_position == old(self).column_position,
                forall|j: int|
                    0 <= j < i - BUFFER_WIDTH ==> #[trigger] self.buffer@[j] == old(self).buffer@[j
                        + BUFFER_WIDTH],
                forall|j: int| i - BUFFER_WIDTH <= j < BUFFER_CELLS ==> #[trigger] self.buffer@[j] == old(self).buffer@[j],
            decreases BUFFER_CELLS - i,
        {
            let character = self.buffer[i];
            self.buffer.set(i - BUFFER_WIDTH, character);
            i = i + 1;
        }
        let blank_cell = ScreenChar { ascii_character: 0x20, color_code: self.color_code };
        let mut col: usize = 0;
        while col < BUFFER_WIDTH
            invariant
                col <= BUFFER_WIDTH,
                self.buffer@.len() == BUFFER_CELLS,
                self.color_code == old(self).color_code,
                blank_cell == blank(self.color_code),
                forall|j: int|
                    0 <= j < BUFFER_CELLS - BUFFER_WIDTH ==> #[trigger] self.buffer@[j] == old(
                        self,
                    ).buffer@[j + BUFFER_WIDTH],
                forall|j: int|
                    BUFFER_CELLS - BUFFER_WIDTH <= j < BUFFER_CELLS - BUFFER_WIDTH + col
                        ==> #[trigger] self.buffer@[j] == blank_cell,
            decreases BUFFER_WIDTH - col,
        {
            self.buffer.set(BUFFER_CELLS - BUFFER_WIDTH + col, blank_cell);
            col = col + 1;
        }
        self.column_position = 0;
        proof {
            assert(self.buffer@ =~= scrolled(old(self).cells(), old(self).color()));
        }
    }

    /// Writes one byte as `after_byte` describes.
    pub fn write_byte(&mut self, byte: u8)
        requires
            old(self).wf(),
        ensures
            final(self).wf(),
            final(self).color() == old(self).color(),
            (final(self).cells(), final(self).column()) == after_byte(
                old(self).cells(),
                old(self).column(),
                old(self).color(),
                byte,
            ),
    {
        let row = BUFFER_HEIGHT - 1;
        if byte == 0x0a {
            self.new_line();
        } else {
            if self.column_position >= BUFFER_WIDTH {
                self.new_line();
            }
            let col = self.column_position;
            self.write_at(byte, row, col);
            self.column_position = col + 1;
        }
    }

    /// Writes the bytes of `s` as `after_bytes` describes.
    pub fn write_string(&mut self, s: &str)
        requires
            old(self).wf(),
        ensures
            final(self).wf(),
            final(self).color() == old(self).color(),
            (final(self).cells(), final(self).column()) == after_bytes(
                old(self).cells(),
                old(self).column(),
                old(self).color(),
                s.spec_bytes(),
            ),
    {
        let bytes = s.as_bytes();
        let mut i: usize = 0;
        while i < bytes.len()
            invariant
                i <= bytes@.len(),
                bytes@ == s.spec_bytes(),
                self.wf(),
                self.color() == old(self).color(),
                (self.cells(), self.column()) == after_bytes(
                    old(self).cells(),
                    old(self).column(),
                    old(self).color(),
                    bytes@.subrange(0, i as int),
                ),
            decreases bytes@.len() - i,
        {
            let b = bytes[i];
            proof {
                assert(bytes@.subrange(0, i + 1).drop_last() =~= bytes@.subrange(0, i as int));
            }
            if b == 0x0d {
                self.column_position = 0;
            } else {
                self.write_byte(b);
            }
            i = i + 1;
        }
        proof {
            assert(bytes@.subrange(0, i as int) =~= bytes@);
        }
    }

    /// Linear position of the hardware cursor: the write column on the
    /// bottom row.
    pub fn cursor_position(&self) -> (r: u16)
        requires
            self.wf(),
        ensures
            r == (BUFFER_HEIGHT - 1) * BUFFER_WIDTH + self.column(),
    {
        ((BUFFER_HEIGHT - 1) * BUFFER_WIDTH + self.column_position) as u16
    }
}

} // verus!

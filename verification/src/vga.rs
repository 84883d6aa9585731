//! The text screen: 25 rows of 80 cells, each a character with its colours.
use vstd::prelude::*;
use vstd::string::StringSliceAdditionalSpecFns;

verus! {

/// The sixteen colours of the text mode, in the order of their codes.
#[derive(Debug, Copy, Clone, Hash, PartialEq, Eq)]
pub enum Color {
    Black,
    Blue,
    Green,
    Cyan,
    Red,
    Magenta,
    Brown,
    Gray,
    DarkGray,
    LightBlue,
    LightGreen,
    LightCyan,
    LightRed,
    LightMagenta,
    Yellow,
    White,
}

impl Color {
    /// The colour's code, from 0 for black to 15 for white.
    pub open spec fn spec_code(self) -> u8 {
        match self {
            Color::Black => 0,
            Color::Blue => 1,
            Color::Green => 2,
            Color::Cyan => 3,
            Color::Red => 4,
            Color::Magenta => 5,
            Color::Brown => 6,
            Color::Gray => 7,
            Color::DarkGray => 8,
            Color::LightBlue => 9,
            Color::LightGreen => 10,
            Color::LightCyan => 11,
            Color::LightRed => 12,
            Color::LightMagenta => 13,
            Color::Yellow => 14,
            Color::White => 15,
        }
    }

    #[verifier::when_used_as_spec(spec_code)]
    pub fn code(self) -> (code: u8)
        ensures
            code == self.spec_code(),
            code < 16,
    {
        match self {
            Color::Black => 0,
            Color::Blue => 1,
            Color::Green => 2,
            Color::Cyan => 3,
            Color::Red => 4,
            Color::Magenta => 5,
            Color::Brown => 6,
            Color::Gray => 7,
            Color::DarkGray => 8,
            Color::LightBlue => 9,
            Color::LightGreen => 10,
            Color::LightCyan => 11,
            Color::LightRed => 12,
            Color::LightMagenta => 13,
            Color::Yellow => 14,
            Color::White => 15,
        }
    }
}

/// Number of cells in a row.
pub const BUFFER_WIDTH: usize = 80;

/// Number of rows.
pub const BUFFER_HEIGHT: usize = 25;

/// Number of cells on the screen.
pub const BUFFER_CELLS: usize = 2000;

/// The space character.
pub const SPACE: u8 = 32;

/// The line feed.
pub const LINE_FEED: u8 = 10;

/// What stands in for a byte that is no ASCII character: a filled box.
pub const REPLACEMENT: u8 = 254;

/// A cell: the character in the low byte, above it four bits for the
/// foreground and four for the background.
pub open spec fn spec_make_code(character: u8, foreground: Color, background: Color) -> u16 {
    (background.code() * 0x1000 + foreground.code() * 0x100 + character) as u16
}

#[verifier::when_used_as_spec(spec_make_code)]
pub fn make_code(character: u8, foreground: Color, background: Color) -> (code: u16)
    ensures
        code == spec_make_code(character, foreground, background),
        code % 256 == character,
{
    let bg: u16 = background.code() as u16;
    let fg: u16 = foreground.code() as u16;
    let ch: u16 = character as u16;
    assert(bg < 16 && fg < 16 && ch < 256 ==> ((bg << 12) | (fg << 8) | ch) == bg * 0x1000 + fg
        * 0x100 + ch) by (bit_vector);
    (bg << 12) | (fg << 8) | ch
}

/// The byte that is shown for `byte`: itself if it is ASCII.
pub open spec fn shown(byte: u8) -> u8 {
    if byte < 128 {
        byte
    } else {
        REPLACEMENT
    }
}

/// The screen and the writer's state as mathematics: the cells row after row,
/// the colours in use, and the column and row of the cursor.
pub struct WriterView {
    pub cells: Seq<u16>,
    pub foreground: Color,
    pub background: Color,
    pub x: nat,
    pub y: nat,
}

impl WriterView {
    /// The screen is whole and the cursor is on it; the column may be one
    /// past the last, when a row has just been filled.
    pub open spec fn wf(self) -> bool {
        &&& self.cells.len() == BUFFER_CELLS
        &&& self.x <= BUFFER_WIDTH
        &&& self.y < BUFFER_HEIGHT
    }

    /// The cell that shows `character` in the colours in use.
    pub open spec fn cell_for(self, character: u8) -> u16 {
        make_code(character, self.foreground, self.background)
    }

    /// After `character` is put in column `x` of row `y`.
    pub open spec fn put(self, character: u8, x: nat, y: nat) -> WriterView {
        WriterView { cells: self.cells.update((y * 80 + x) as int, self.cell_for(character)), ..self }
    }

    /// After the screen is cleared: every cell a space, the cursor at the top
    /// left.
    pub open spec fn cleared(self) -> WriterView {
        WriterView {
            cells: Seq::new(BUFFER_CELLS as nat, |k: int| self.cell_for(SPACE)),
            x: 0,
            y: 0,
            ..self
        }
    }

    /// After the screen is moved up by one row: each row but the last shows
    /// the characters of the row below it, in the colours in use; the last
    /// row stays; the cursor goes up with its row.
    pub open spec fn scrolled(self) -> WriterView {
        WriterView {
            cells: Seq::new(
                BUFFER_CELLS as nat,
                |k: int|
                    if k < 1920 {
                        self.cell_for((self.cells[k + 80] % 256) as u8)
                    } else {
                        self.cells[k]
                    },
            ),
            y: (self.y - 1) as nat,
            ..self
        }
    }

    /// After the rest of the cursor's row is filled with spaces.
    pub open spec fn row_filled(self) -> WriterView {
        WriterView {
            cells: Seq::new(
                BUFFER_CELLS as nat,
                |k: int|
                    if self.y * 80 + self.x <= k < self.y * 80 + 80 {
                        self.cell_for(SPACE)
                    } else {
                        self.cells[k]
                    },
            ),
            x: BUFFER_WIDTH as nat,
            ..self
        }
    }

    /// After the line is ended: the rest of the row is filled with spaces and
    /// the cursor goes to the start of the next row; from the last row the
    /// screen is moved up instead.
    pub open spec fn newline(self) -> WriterView {
        let filled = self.row_filled();
        let next = WriterView { x: 0, y: self.y + 1, ..filled };
        if next.y == BUFFER_HEIGHT {
            next.scrolled()
        } else {
            next
        }
    }

    /// After one byte is written: a line feed ends the line; any other byte is
    /// put at the cursor, on the next row if the row is full, and the cursor
    /// moves right.
    pub open spec fn write_byte(self, byte: u8) -> WriterView {
        if byte == LINE_FEED {
            self.newline()
        } else {
            let at = if self.x == BUFFER_WIDTH {
                self.newline()
            } else {
                self
            };
            WriterView { x: at.x + 1, ..at.put(byte, at.x, at.y) }
        }
    }

    /// After the bytes are written one by one, each that is not ASCII as the
    /// replacement.
    pub open spec fn write_bytes(self, bytes: Seq<u8>) -> WriterView
        decreases bytes.len(),
    {
        if bytes.len() == 0 {
            self
        } else {
            self.write_bytes(bytes.drop_last()).write_byte(shown(bytes.last()))
        }
    }
}

/// The text screen with a cursor and the colours to write in.
pub struct Writer {
    buffer: Vec<u16>,
    foreground: Color,
    background: Color,
    x: usize,
    y: usize,
}

impl View for Writer {
    type V = WriterView;

    closed spec fn view(&self) -> WriterView {
        WriterView {
            cells: self.buffer@,
            foreground: self.foreground,
            background: self.background,
            x: self.x as nat,
            y: self.y as nat,
        }
    }
}

fn low_byte(code: u16) -> (byte: u8)
    ensures
        byte == code % 256,
{
    assert(code as u8 == code % 256) by (bit_vector);
    code as u8
}

impl Writer {
    /// A writer on the screen that `buffer` holds, with the cursor at the top
    /// left.
    pub fn new(buffer: Vec<u16>, foreground: Color, background: Color) -> (writer: Self)
        requires
            buffer@.len() == BUFFER_CELLS,
        ensures
            writer@ == (WriterView { cells: buffer@, foreground, background, x: 0, y: 0 }),
            writer@.wf(),
    {
        Self { buffer, foreground, background, x: 0, y: 0 }
    }

    /// The cells of the screen, row after row.
    pub fn cells(&self) -> (cells: &Vec<u16>)
        ensures
            cells@ == self@.cells,
    {
        &self.buffer
    }

    /// Column and row of the cursor.
    pub fn cursor(&self) -> (at: (usize, usize))
        ensures
            at.0 == self@.x,
            at.1 == self@.y,
    {
        (self.x, self.y)
    }

    pub fn clear(&mut self)
        requires
            old(self)@.wf(),
        ensures
            final(self)@ == old(self)@.cleared(),
            final(self)@.wf(),
    {
        let ghost space = self@.cell_for(SPACE);
        for x in 0..BUFFER_WIDTH
            invariant
                self.buffer@.len() == BUFFER_CELLS,
                self.foreground == old(self).foreground,
                self.background == old(self).background,
                space == self@.cell_for(SPACE),
                forall|k: int| 0 <= k < BUFFER_CELLS && k % 80 < x ==> self.buffer@[k] == space,
        {
            for y in 0..BUFFER_HEIGHT
                invariant
                    x < BUFFER_WIDTH,
                    self.buffer@.len() == BUFFER_CELLS,
                    self.foreground == old(self).foreground,
                    self.background == old(self).background,
                    space == self@.cell_for(SPACE),
                    forall|k: int|
                        0 <= k < BUFFER_CELLS && (k % 80 < x || (k % 80 == x && k / 80 < y))
                            ==> self.buffer@[k] == space,
            {
                self.write_byte_at(SPACE, x, y);
            }
        }
        self.x = 0;
        self.y = 0;
        assert(self@.cells =~= old(self)@.cleared().cells);
    }

    pub fn scroll(&mut self)
        requires
            old(self)@.cells.len() == BUFFER_CELLS,
            old(self)@.y >= 1,
        ensures
            final(self)@ == old(self)@.scrolled(),
    {
        let ghost before = self@;
        for x in 0..BUFFER_WIDTH
            invariant
                self.buffer@.len() == BUFFER_CELLS,
                self.foreground == before.foreground,
                self.background == before.background,
                self.x == before.x,
                self.y == before.y,
                before.cells.len() == BUFFER_CELLS,
                forall|k: int|
                    0 <= k < BUFFER_CELLS ==> self.buffer@[k] == if k < 1920 && k % 80 < x {
                        before.cell_for((before.cells[k + 80] % 256) as u8)
                    } else {
                        before.cells[k]
                    },
        {
            for y in 0..(BUFFER_HEIGHT - 1)
                invariant
                    x < BUFFER_WIDTH,
                    self.buffer@.len() == BUFFER_CELLS,
                    self.foreground == before.foreground,
                    self.background == before.background,
                    self.x == before.x,
                    self.y == before.y,
                    before.cells.len() == BUFFER_CELLS,
                    forall|k: int|
                        0 <= k < BUFFER_CELLS ==> self.buffer@[k] == if k < 1920 && (k % 80 < x
                            || (k % 80 == x && k / 80 < y)) {
                            before.cell_for((before.cells[k + 80] % 256) as u8)
                        } else {
                            before.cells[k]
                        },
            {
                let c = self.read_byte_at(x, y + 1);
                self.write_byte_at(c, x, y);
            }
        }
        self.y -= 1;
        assert(self@.cells =~= before.scrolled().cells);
    }

    /// The character in column `x` of row `y`.
    pub fn read_byte_at(&self, x: usize, y: usize) -> (character: u8)
        requires
            self@.cells.len() == BUFFER_CELLS,
            x < BUFFER_WIDTH,
            y < BUFFER_HEIGHT,
        ensures
            character == self@.cells[y * 80 + x] % 256,
    {
        low_byte(self.buffer[y * BUFFER_WIDTH + x])
    }

    /// Puts `c` in column `x` of row `y`, in the colours in use.
    pub fn write_byte_at(&mut self, c: u8, x: usize, y: usize)
        requires
            old(self)@.cells.len() == BUFFER_CELLS,
            x < BUFFER_WIDTH,
            y < BUFFER_HEIGHT,
        ensures
            final(self)@ == old(self)@.put(c, x as nat, y as nat),
    {
        let code = make_code(c, self.foreground, self.background);
        self.buffer.set(y * BUFFER_WIDTH + x, code);
    }

    pub fn newline(&mut self)
        requires
            old(self)@.wf(),
        ensures
            final(self)@ == old(self)@.newline(),
            final(self)@.wf(),
            final(self)@.x == 0,
    {
        let ghost before = self@;
        while self.x < BUFFER_WIDTH
            invariant
                self.buffer@.len() == BUFFER_CELLS,
                self.foreground == before.foreground,
                self.background == before.background,
                self.y == before.y,
                before.wf(),
                before.x <= self.x <= BUFFER_WIDTH,
                forall|k: int|
                    0 <= k < BUFFER_CELLS ==> self.buffer@[k] == if before.y * 80 + before.x <= k
                        < before.y * 80 + self.x {
                        before.cell_for(SPACE)
                    } else {
                        before.cells[k]
                    },
            decreases BUFFER_WIDTH - self.x,
        {
            self.write_byte_at(SPACE, self.x, self.y);
            self.x += 1;
        }
        assert(self@.cells =~= before.row_filled().cells);
        self.x = 0;
        self.y += 1;
        if self.y == BUFFER_HEIGHT {
            self.scroll();
        }
    }

    pub fn write_byte(&mut self, c: u8)
        requires
            old(self)@.wf(),
        ensures
            final(self)@ == old(self)@.write_byte(c),
            final(self)@.wf(),
    {
        if c == LINE_FEED {
            self.newline();
        } else {
            if self.x == BUFFER_WIDTH {
                self.newline();
            }
            self.write_byte_at(c, self.x, self.y);
            self.x += 1;
        }
    }

    /// Writes the bytes of `s` one by one; a byte that is not ASCII is written
    /// as the replacement.
    pub fn write_string(&mut self, s: &str)
        requires
            old(self)@.wf(),
        ensures
            final(self)@ == old(self)@.write_bytes(s.spec_bytes()),
            final(self)@.wf(),
    {
        let bytes = s.as_bytes();
        let mut i: usize = 0;
        while i < bytes.len()
            invariant
                i <= bytes@.len(),
                bytes@ == s.spec_bytes(),
                self@.wf(),
                self@ == old(self)@.write_bytes(bytes@.take(i as int)),
            decreases bytes.len() - i,
        {
            assert(bytes@.take(i + 1).drop_last() == bytes@.take(i as int));
            let c = bytes[i];
            let c = if c < 128 {
                c
            } else {
                REPLACEMENT
            };
            self.write_byte(c);
            i += 1;
        }
        assert(bytes@.take(i as int) == bytes@);
    }
}

} // verus!

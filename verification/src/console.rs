use vstd::prelude::*;
use crate::graphics::{with_cell_dots, Font, Framebuffer, GraphicsSettings};
use crate::text::{chars_of, push_char};

verus! {

/// Colour of the screen where nothing is drawn.
pub const BACKGROUND_COLOR: u32 = 0x000000;

/// Colour of the characters.
pub const FOREGROUND_COLOR: u32 = 0xffffff;

/// A cell of the console, counted in characters from the top left.
#[derive(PartialEq, Eq, Clone, Copy, Debug, Structural)]
pub struct Position {
    pub column: u32,
    pub row: u32,
}

/// Why the console refused a request.
#[derive(Debug, Clone, Copy, PartialEq, Eq, Structural)]
pub enum ConsoleError {
    /// The position does not lie on the console.
    OutOfBounds(Position),
}

/// The text on the screen: `height` rows of `width` cells, each empty or
/// holding a character.
pub struct Console {
    pub width: u32,
    pub height: u32,
    pub screen_buffer: Vec<Vec<Option<char>>>,
}

/// The row after a text was printed into it from column `x` on: one
/// character to a cell, and, once the last cell is reached, every further
/// character over the one before it in that last cell.
pub open spec fn printed_row(row: Seq<Option<char>>, text: Seq<char>, x: int) -> Seq<
    Option<char>,
> {
    Seq::new(
        row.len(),
        |column: int|
            if column < x {
                row[column]
            } else if column < row.len() - 1 {
                if column - x < text.len() {
                    Some(text[column - x])
                } else {
                    row[column]
                }
            } else if text.len() > column - x {
                Some(text.last())
            } else {
                row[column]
            },
    )
}

impl Position {
    /// Place of the position when the cells are counted row by row.
    pub open spec fn linear(self, width: u32) -> int {
        self.row * width + self.column
    }
}

impl Console {
    /// The buffer has `height` rows of `width` cells.
    pub open spec fn wf(&self) -> bool {
        &&& self.screen_buffer@.len() == self.height
        &&& forall|row: int|
            0 <= row < self.height ==> (#[trigger] self.screen_buffer@[row])@.len() == self.width
    }

    /// What the cell at a column and row holds.
    pub open spec fn at(&self, column: int, row: int) -> Option<char> {
        self.screen_buffer@[row]@[column]
    }

    /// The cells of a row.
    pub open spec fn row(&self, row: int) -> Seq<Option<char>> {
        self.screen_buffer@[row]@
    }

    /// Whether a column and row lie on the console.
    pub open spec fn holds(&self, column: int, row: int) -> bool {
        0 <= column < self.width && 0 <= row < self.height
    }

    /// Whether a position lies on the console.
    pub open spec fn within_bounds(&self, position: Position) -> bool {
        self.holds(position.column as int, position.row as int)
    }

    /// The character shown at a place counted row by row: a blank for an
    /// empty cell.
    pub open spec fn shown(&self, linear: int) -> char {
        match self.at(linear % (self.width as int), linear / (self.width as int)) {
            Some(c) => c,
            None => ' ',
        }
    }

    /// The characters shown from `start` to `end`, both included, row by
    /// row.
    pub open spec fn text_between(&self, start: Position, end: Position) -> Seq<char> {
        Seq::new(
            (end.linear(self.width) - start.linear(self.width) + 1) as nat,
            |k: int| self.shown(start.linear(self.width) + k),
        )
    }

    /// Whether two consoles differ at most in one row.
    pub open spec fn same_but_row(&self, other: &Console, row: int) -> bool {
        &&& self.width == other.width
        &&& self.height == other.height
        &&& forall|r: int| 0 <= r < self.height && r != row ==> self.row(r) == other.row(r)
    }

    /// An empty console of the given size.
    pub fn new(width: u32, height: u32) -> (console: Console)
        ensures
            console.wf(),
            console.width == width,
            console.height == height,
            forall|column: int, row: int|
                console.holds(column, row) ==> console.at(column, row) is None,
    {
        let mut screen_buffer: Vec<Vec<Option<char>>> = Vec::new();
        let mut y: u32 = 0;
        while y < height
            invariant
                y <= height,
                screen_buffer@.len() == y,
                forall|r: int|
                    0 <= r < y ==> (#[trigger] screen_buffer@[r])@.len() == width && forall|
                        c: int,
                    |
                        0 <= c < width ==> screen_buffer@[r]@[c] is None,
            decreases height - y,
        {
            let mut line: Vec<Option<char>> = Vec::new();
            let mut x: u32 = 0;
            while x < width
                invariant
                    x <= width,
                    line@.len() == x,
                    forall|c: int| 0 <= c < x ==> line@[c] is None,
                decreases width - x,
            {
                line.push(None);
                x += 1;
            }
            screen_buffer.push(line);
            y += 1;
        }
        Console { width, height, screen_buffer }
    }

    /// Width of the console in characters.
    pub fn width(&self) -> (width: u32)
        ensures
            width == self.width,
    {
        self.width
    }

    /// Height of the console in characters.
    pub fn height(&self) -> (height: u32)
        ensures
            height == self.height,
    {
        self.height
    }

    /// Whether a position lies on the console.
    pub fn is_within_bounds(&self, position: Position) -> (within: bool)
        ensures
            within == self.within_bounds(position),
    {
        position.column < self.width && position.row < self.height
    }

    /// Puts a character into a cell.
    pub fn put_char(&mut self, c: char, x: u32, y: u32)
        requires
            old(self).wf(),
            old(self).holds(x as int, y as int),
        ensures
            final(self).wf(),
            final(self).same_but_row(old(self), y as int),
            final(self).row(y as int) == old(self).row(y as int).update(x as int, Some(c)),
    {
        self.set_cell(Some(c), x, y);
    }

    /// Empties a cell.
    pub fn delete_char(&mut self, x: u32, y: u32)
        requires
            old(self).wf(),
            old(self).holds(x as int, y as int),
        ensures
            final(self).wf(),
            final(self).same_but_row(old(self), y as int),
            final(self).row(y as int) == old(self).row(y as int).update(x as int, None),
    {
        self.set_cell(None, x, y);
    }

    /// Sets what a cell holds.
    fn set_cell(&mut self, cell: Option<char>, x: u32, y: u32)
        requires
            old(self).wf(),
            old(self).holds(x as int, y as int),
        ensures
            final(self).wf(),
            final(self).same_but_row(old(self), y as int),
            final(self).row(y as int) == old(self).row(y as int).update(x as int, cell),
    {
        self.screen_buffer[y as usize][x as usize] = cell;
    }

    /// Prints a text into row `y` from column `x` on. The text does not wrap:
    /// what does not fit ends in the last cell of the row.
    pub fn print(&mut self, string: &str, x: u32, y: u32)
        requires
            old(self).wf(),
            string@.len() > 0 ==> old(self).holds(x as int, y as int),
        ensures
            final(self).wf(),
            final(self).same_but_row(old(self), y as int),
            string@.len() > 0 ==> final(self).row(y as int) == printed_row(
                old(self).row(y as int),
                string@,
                x as int,
            ),
            string@.len() == 0 ==> final(self).screen_buffer == old(self).screen_buffer,
    {
        let chars = chars_of(string);
        let mut x: u32 = x;
        let ghost first = x as int;
        let ghost before = old(self).row(y as int);
        let mut i: usize = 0;
        while i < chars.len()
            invariant
                i <= chars@.len(),
                chars@ == string@,
                self.wf(),
                self.same_but_row(old(self), y as int),
                chars@.len() > 0 ==> self.holds(x as int, y as int),
                chars@.len() > 0 ==> x == if first + i < self.width - 1 {
                    first + i
                } else {
                    self.width - 1
                },
                i > 0 ==> self.row(y as int) == printed_row(
                    before,
                    chars@.subrange(0, i as int),
                    first,
                ),
                i == 0 ==> self.screen_buffer == old(self).screen_buffer,
                chars@.len() > 0 ==> before.len() == self.width && first < self.width,
                before == old(self).row(y as int),
            decreases chars@.len() - i,
        {
            let ghost row_before = self.row(y as int);
            self.put_char(chars[i], x, y);
            proof {
                let done = chars@.subrange(0, i as int);
                let more = chars@.subrange(0, i + 1);
                assert forall|column: int| 0 <= column < self.width implies self.row(y as int)[column]
                    == printed_row(before, more, first)[column] by {
                    if i > 0 {
                        assert(row_before[column] == printed_row(before, done, first)[column]);
                    }
                    if 0 <= column - first < i {
                        assert(more[column - first] == done[column - first]);
                    }
                }
                assert(self.row(y as int) =~= printed_row(before, more, first));
            }
            if x != self.width - 1 {
                x += 1;
            }
            i += 1;
        }
        assert(chars@.subrange(0, i as int) =~= chars@);
    }

    /// The characters from `start` to `end`, both included, read row by row
    /// with a blank for every empty cell; nothing at all when the two are
    /// the same cell. `end` must not lie before `start`.
    pub fn get_range_as_string(&self, start: Position, end: Position) -> (text: Result<
        String,
        ConsoleError,
    >)
        requires
            self.wf(),
            self.within_bounds(start) && self.within_bounds(end) ==> start.linear(self.width)
                <= end.linear(self.width),
        ensures
            !self.within_bounds(start) ==> text == Err::<String, ConsoleError>(
                ConsoleError::OutOfBounds(start),
            ),
            self.within_bounds(start) && !self.within_bounds(end) ==> text == Err::<
                String,
                ConsoleError,
            >(ConsoleError::OutOfBounds(end)),
            self.within_bounds(start) && self.within_bounds(end) ==> text is Ok && text.unwrap()@
                == if start == end {
                Seq::<char>::empty()
            } else {
                self.text_between(start, end)
            },
    {
        if !self.is_within_bounds(start) {
            return Err(ConsoleError::OutOfBounds(start));
        }
        if !self.is_within_bounds(end) {
            return Err(ConsoleError::OutOfBounds(end));
        }
        let mut string = String::new();
        if start.column == end.column && start.row == end.row {
            return Ok(string);
        }
        let width: u64 = self.width as u64;
        assert(start.row * self.width <= 0xffff_ffff * 0xffff_ffff) by (nonlinear_arith)
            requires
                start.row <= 0xffff_ffff,
                self.width <= 0xffff_ffff,
        ;
        assert(end.row * self.width <= 0xffff_ffff * 0xffff_ffff) by (nonlinear_arith)
            requires
                end.row <= 0xffff_ffff,
                self.width <= 0xffff_ffff,
        ;
        let first: u64 = start.row as u64 * width + start.column as u64;
        let last: u64 = end.row as u64 * width + end.column as u64;
        let mut place: u64 = first;
        while place <= last
            invariant
                self.wf(),
                width == self.width,
                width > 0,
                first == start.linear(self.width),
                last == end.linear(self.width),
                self.within_bounds(end),
                first <= place <= last + 1,
                last < 0xffff_ffff_0000_0000,
                string@ == Seq::new((place - first) as nat, |k: int| self.shown(first + k)),
            decreases last + 1 - place,
        {
            let row: u64 = place / width;
            let column: u64 = place % width;
            proof {
                assert(row <= end.row) by (nonlinear_arith)
                    requires
                        place <= end.row * width + end.column,
                        end.column < width,
                        row == place / width,
                        width > 0,
                ;
            }
            let c = match self.screen_buffer[row as usize][column as usize] {
                Some(c) => c,
                None => ' ',
            };
            push_char(&mut string, c);
            place += 1;
            assert(string@ =~= Seq::new((place - first) as nat, |k: int| self.shown(first + k)));
        }
        assert(string@ =~= self.text_between(start, end));
        Ok(string)
    }

    /// Whether the cell at a position lies where screen coordinates reach.
    pub open spec fn reachable(font: &Font, position: Position) -> bool {
        &&& (font.width + 1) * (position.column + 1) <= u32::MAX
        &&& font.height * (position.row + 1) <= u32::MAX
    }

    /// Whether every cell of the console lies where screen coordinates
    /// reach.
    pub open spec fn fits(&self, font: &Font) -> bool {
        &&& (font.width + 1) * self.width <= u32::MAX
        &&& font.height * self.height <= u32::MAX
    }

    /// Colour of the character in a cell: that of the background where the
    /// cursor stands, which is drawn in the colour of the characters.
    pub open spec fn ink(column: int, row: int, cursor: Position) -> u32 {
        if column == cursor.column && row == cursor.row {
            BACKGROUND_COLOR
        } else {
            FOREGROUND_COLOR
        }
    }

    /// A buffer after the first `count` cells of the console were drawn,
    /// row by row: a cell that holds a character the font has a glyph for
    /// gets the glyph's dots.
    pub open spec fn with_cells(
        &self,
        buffer: Seq<u8>,
        scanline: usize,
        font: &Font,
        cursor: Position,
        count: nat,
    ) -> Seq<u8>
        decreases count,
    {
        if count == 0 || self.width == 0 {
            buffer
        } else {
            let k = (count - 1) as int;
            let before = self.with_cells(buffer, scanline, font, cursor, k as nat);
            let column = k % (self.width as int);
            let row = k / (self.width as int);
            match self.at(column, row) {
                Some(c) => match font.glyph(c) {
                    Some(dots) => with_cell_dots(
                        before,
                        scanline,
                        Some(dots),
                        font.width,
                        font.height,
                        column as u32,
                        row as u32,
                        Self::ink(column, row, cursor),
                        (font.width * font.height) as nat,
                    ),
                    None => before,
                },
                None => before,
            }
        }
    }

    /// What the screen shows after a redraw: on a blank screen the cursor's
    /// cell, filled, and over it the characters of the console.
    pub open spec fn screen_image(
        &self,
        fb_size: usize,
        scanline: usize,
        font: &Font,
        cursor: Position,
    ) -> Seq<u8> {
        self.with_cells(
            with_cell_dots(
                Seq::new(fb_size as nat, |i: int| 0u8),
                scanline,
                None,
                font.width,
                font.height,
                cursor.column,
                cursor.row,
                FOREGROUND_COLOR,
                (font.width * font.height) as nat,
            ),
            scanline,
            font,
            cursor,
            (self.width * self.height) as nat,
        )
    }

    /// A console for a screen and a font: as many columns as glyphs fit
    /// beside each other with one dot between them, as many rows as fit
    /// below each other. The console is empty and the screen is redrawn.
    pub fn init(
        gfx_settings: &GraphicsSettings,
        framebuffer: &mut Framebuffer,
        font: &Font,
        screen: &mut [u8],
    ) -> (console: Console)
        requires
            font.wf(),
            old(framebuffer).wf(),
            old(screen)@.len() == old(framebuffer).fb_size,
        ensures
            console.wf(),
            console.fits(font),
            console.width == gfx_settings.width / ((font.width + 1) as u32),
            console.height == gfx_settings.height / font.height,
            forall|column: int, row: int|
                console.holds(column, row) ==> console.at(column, row) is None,
            final(framebuffer).wf(),
            final(framebuffer).fb_size == old(framebuffer).fb_size,
            final(framebuffer).fb_scanline == old(framebuffer).fb_scanline,
            final(framebuffer).back_buffer@ == console.screen_image(
                old(framebuffer).fb_size,
                old(framebuffer).fb_scanline,
                font,
                Position { column: 0, row: 0 },
            ),
            final(screen)@ == final(framebuffer).back_buffer@,
    {
        let width: u32 = gfx_settings.width / (font.width() + 1);
        let height: u32 = gfx_settings.height / font.height();
        proof {
            let cell = (font.width + 1) as int;
            assert(cell * (gfx_settings.width as int / cell) <= gfx_settings.width) by {
                vstd::arithmetic::div_mod::lemma_fundamental_div_mod(gfx_settings.width as int, cell);
                vstd::arithmetic::div_mod::lemma_mod_bound(gfx_settings.width as int, cell);
            }
            let line = font.height as int;
            assert(line * (gfx_settings.height as int / line) <= gfx_settings.height) by {
                vstd::arithmetic::div_mod::lemma_fundamental_div_mod(gfx_settings.height as int, line);
                vstd::arithmetic::div_mod::lemma_mod_bound(gfx_settings.height as int, line);
            }
        }
        proof {
            assert((font.width + 1) * (0 + 1) == font.width + 1) by (nonlinear_arith);
            assert(font.height * (0 + 1) == font.height) by (nonlinear_arith);
        }
        let this = Console::new(width, height);
        this.redraw_screen(framebuffer, font, Position { row: 0, column: 0 }, screen);
        this
    }

    /// Fills the cell where the cursor stands.
    pub fn draw_cursor(
        &self,
        framebuffer: &mut Framebuffer,
        font: &Font,
        cursor_position: Position,
        color: u32,
    )
        requires
            old(framebuffer).wf(),
            font.wf(),
            Self::reachable(font, cursor_position),
        ensures
            final(framebuffer).wf(),
            final(framebuffer).fb_size == old(framebuffer).fb_size,
            final(framebuffer).fb_scanline == old(framebuffer).fb_scanline,
            final(framebuffer).back_buffer@ == with_cell_dots(
                old(framebuffer).back_buffer@,
                old(framebuffer).fb_scanline,
                None,
                font.width,
                font.height,
                cursor_position.column,
                cursor_position.row,
                color,
                (font.width * font.height) as nat,
            ),
    {
        framebuffer.draw_cell(
            None,
            font.width(),
            font.height(),
            cursor_position.column,
            cursor_position.row,
            color,
        );
    }

    /// Draws a character into the cell at a column and row. A character
    /// that the font has no glyph for is not drawn.
    pub fn draw_char(
        &self,
        framebuffer: &mut Framebuffer,
        font: &Font,
        c: char,
        x: u32,
        y: u32,
        foreground_color: u32,
    )
        requires
            old(framebuffer).wf(),
            font.wf(),
            Self::reachable(font, Position { column: x, row: y }),
        ensures
            final(framebuffer).wf(),
            final(framebuffer).fb_size == old(framebuffer).fb_size,
            final(framebuffer).fb_scanline == old(framebuffer).fb_scanline,
            final(framebuffer).back_buffer@ == match font.glyph(c) {
                Some(dots) => with_cell_dots(
                    old(framebuffer).back_buffer@,
                    old(framebuffer).fb_scanline,
                    Some(dots),
                    font.width,
                    font.height,
                    x,
                    y,
                    foreground_color,
                    (font.width * font.height) as nat,
                ),
                None => old(framebuffer).back_buffer@,
            },
    {
        let glyph = match font.get_char(c) {
            Some(glyph) => glyph,
            None => {
                return ;
            },
        };
        framebuffer.draw_cell(Some(glyph), font.width(), font.height(), x, y, foreground_color);
    }

    /// Draws the whole console into the back buffer, on a blank screen and
    /// over the cursor's cell, and copies the back buffer to the screen.
    pub fn redraw_screen(
        &self,
        framebuffer: &mut Framebuffer,
        font: &Font,
        cursor_position: Position,
        screen: &mut [u8],
    )
        requires
            self.wf(),
            font.wf(),
            self.fits(font),
            Self::reachable(font, cursor_position),
            old(framebuffer).wf(),
            old(screen)@.len() == old(framebuffer).fb_size,
        ensures
            final(framebuffer).wf(),
            final(framebuffer).fb_size == old(framebuffer).fb_size,
            final(framebuffer).fb_scanline == old(framebuffer).fb_scanline,
            final(framebuffer).back_buffer@ == self.screen_image(
                old(framebuffer).fb_size,
                old(framebuffer).fb_scanline,
                font,
                cursor_position,
            ),
            final(screen)@ == final(framebuffer).back_buffer@,
    {
        framebuffer.clear();
        assert(framebuffer.back_buffer@ =~= Seq::new(framebuffer.fb_size as nat, |i: int| 0u8));
        self.draw_cursor(framebuffer, font, cursor_position, FOREGROUND_COLOR);
        let ghost base = framebuffer.back_buffer@;
        let ghost scanline = framebuffer.fb_scanline;
        let mut y: u32 = 0;
        while y < self.height
            invariant
                y <= self.height,
                self.wf(),
                font.wf(),
                self.fits(font),
                framebuffer.wf(),
                framebuffer.fb_size == old(framebuffer).fb_size,
                framebuffer.fb_scanline == scanline,
                framebuffer.back_buffer@ == self.with_cells(
                    base,
                    scanline,
                    font,
                    cursor_position,
                    (y * self.width) as nat,
                ),
            decreases self.height - y,
        {
            let mut x: u32 = 0;
            while x < self.width
                invariant
                    y < self.height,
                    x <= self.width,
                    self.wf(),
                    font.wf(),
                    self.fits(font),
                    framebuffer.wf(),
                    framebuffer.fb_size == old(framebuffer).fb_size,
                    framebuffer.fb_scanline == scanline,
                    framebuffer.back_buffer@ == self.with_cells(
                        base,
                        scanline,
                        font,
                        cursor_position,
                        (y * self.width + x) as nat,
                    ),
                decreases self.width - x,
            {
                proof {
                    let k = (y * self.width + x) as int;
                    assert(k / (self.width as int) == y && k % (self.width as int) == x) by {
                        vstd::arithmetic::div_mod::lemma_fundamental_div_mod_converse(
                            k,
                            self.width as int,
                            y as int,
                            x as int,
                        );
                    }
                    assert((font.width + 1) * (x + 1) <= (font.width + 1) * self.width)
                        by (nonlinear_arith)
                        requires
                            x + 1 <= self.width,
                    ;
                    assert(font.height * (y + 1) <= font.height * self.height) by (nonlinear_arith)
                        requires
                            y + 1 <= self.height,
                    ;
                }
                match self.screen_buffer[y as usize][x as usize] {
                    Some(character) => {
                        let foreground_color = if x == cursor_position.column && y
                            == cursor_position.row {
                            BACKGROUND_COLOR
                        } else {
                            FOREGROUND_COLOR
                        };
                        self.draw_char(framebuffer, font, character, x, y, foreground_color);
                    },
                    None => {},
                }
                x += 1;
            }
            proof {
                assert(y * self.width + self.width == (y + 1) * self.width) by (nonlinear_arith);
            }
            y += 1;
        }
        proof {
            assert(self.height * self.width == self.width * self.height) by (nonlinear_arith);
            if self.width == 0 {
                assert(self.with_cells(
                    base,
                    scanline,
                    font,
                    cursor_position,
                    (self.width * self.height) as nat,
                ) == base);
            }
        }
        framebuffer.flip(screen);
    }
}

} // verus!

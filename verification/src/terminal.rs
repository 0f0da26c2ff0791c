use vstd::prelude::*;
use crate::builtins::lines;
use crate::console::{printed_row, Console, Position};
use crate::graphics::{Font, Framebuffer};
use crate::keyboard::{DecodedKey, KeyCode, KeyEvent, KeyState, KeyboardHandler};
use crate::shell::Shell;
use crate::text::string_of;

verus! {

/// Number of characters of the prompt.
pub const PROMPT_LENGTH: u32 = 6;

/// The prompt that starts every input line.
pub open spec fn prompt() -> Seq<char> {
    "bmos> "@
}

/// The row after the `count` cells behind the prompt were written anew:
/// each holds the character of the input that belongs there, or nothing
/// where the input has ended.
pub open spec fn rewritten_row(row: Seq<Option<char>>, input: Seq<char>, count: int) -> Seq<
    Option<char>,
> {
    Seq::new(
        row.len(),
        |column: int|
            if 6 <= column < 6 + count {
                if column - 6 < input.len() {
                    Some(input[column - 6])
                } else {
                    None
                }
            } else {
                row[column]
            },
    )
}

/// The row after each of the texts was printed into it from its first
/// cell on, one over the other.
pub open spec fn printed_all(row: Seq<Option<char>>, outputs: Seq<Seq<char>>) -> Seq<Option<char>>
    decreases outputs.len(),
{
    if outputs.len() == 0 {
        row
    } else {
        printed_row(printed_all(row, outputs.drop_last()), outputs.last(), 0)
    }
}

/// A row that shows the prompt and behind it a typed line, and nothing
/// else.
pub open spec fn line_shown(width: u32, typed: Seq<char>) -> Seq<Option<char>> {
    Seq::new(
        width as nat,
        |column: int|
            if column < 6 {
                Some(prompt()[column])
            } else if column - 6 < typed.len() {
                Some(typed[column - 6])
            } else {
                None
            },
    )
}

/// Whether two consoles are of one size and hold the same in every row but
/// the two named.
pub open spec fn rows_kept(before: &Console, after: &Console, first: int, second: int) -> bool {
    &&& after.width == before.width
    &&& after.height == before.height
    &&& forall|r: int|
        0 <= r < before.height && r != first && r != second ==> after.row(r) == before.row(r)
}

/// Whether the event is the press of the given key.
pub open spec fn is_press(event: KeyEvent, code: KeyCode) -> bool {
    event.key_code == code && event.key_state == KeyState::Down
}

/// The smaller of two numbers.
pub open spec fn smaller(a: int, b: int) -> int {
    if a < b {
        a
    } else {
        b
    }
}

/// A line editor on a console: the cursor, the line typed so far, the
/// shell that takes the finished lines, and the cursor position of a
/// redraw that is still to be made.
pub struct Terminal<S: Shell> {
    pub cursor: Position,
    pub console: Console,
    pub input_buffer: Vec<char>,
    pub shell: Option<S>,
    pub redraw: Option<Position>,
}

impl<S: Shell> Terminal<S> {
    /// The cursor's column.
    pub open spec fn col(&self) -> int {
        self.cursor.column as int
    }

    /// The cursor's row.
    pub open spec fn line(&self) -> int {
        self.cursor.row as int
    }

    /// The line typed so far.
    pub open spec fn typed(&self) -> Seq<char> {
        self.input_buffer@
    }

    /// Whether a press of the backspace key can be taken: where there is
    /// something to delete, the cursor stands in the typed line and the
    /// line fits the console.
    pub open spec fn backspace_accepted(&self) -> bool {
        self.col() > 6 ==> self.col() - 7 < self.typed().len() && 6 + self.typed().len()
            <= self.console.width
    }

    /// Whether `after` is the terminal once backspace was pressed: at the
    /// start of the input nothing happens; else the character before the
    /// cursor is gone, the cursor has moved left, and the input line is
    /// written anew for its old length.
    pub open spec fn backspaced(&self, after: &Self) -> bool {
        if self.col() <= 6 {
            *after == *self
        } else {
            &&& after.input_buffer@ == self.typed().remove(self.col() - 7)
            &&& after.cursor == (Position {
                column: (self.col() - 1) as u32,
                row: self.cursor.row,
            })
            &&& rows_kept(&self.console, &after.console, self.line(), self.line())
            &&& after.console.row(self.line()) == rewritten_row(
                self.console.row(self.line()),
                after.input_buffer@,
                self.typed().len() as int,
            )
            &&& after.redraw == Some(after.cursor)
            &&& after.shell == self.shell
        }
    }

    /// The row that the shell prints into when enter is pressed: the next
    /// row, or the last, when a line was typed; without one, the cursor's.
    pub open spec fn entered_row(&self) -> int {
        if self.typed().len() > 0 {
            smaller(self.line() + 1, self.console.height - 1)
        } else {
            self.line()
        }
    }

    /// What the shell prints for the typed line: nothing for an empty line
    /// or without a shell.
    pub open spec fn shell_output(&self) -> Seq<Seq<char>> {
        if self.typed().len() > 0 && self.shell is Some {
            self.shell.unwrap().output(self.typed())
        } else {
            Seq::empty()
        }
    }

    /// Whether a press of the enter key can be taken: there is a row for
    /// the new prompt, and the shell can take the typed line.
    pub open spec fn enter_accepted(&self) -> bool {
        &&& self.entered_row() + 1 < self.console.height
        &&& self.typed().len() > 0 && self.shell is Some ==> self.shell.unwrap().accepts(
            self.typed(),
        )
    }

    /// Whether `after` is the terminal once enter was pressed: the typed
    /// line is gone, the shell has printed into the row below, and a new
    /// prompt stands in the row below that, with the cursor behind it.
    pub open spec fn entered(&self, after: &Self) -> bool {
        let row = self.entered_row();
        &&& after.input_buffer@ == Seq::<char>::empty()
        &&& after.cursor == (Position {
            column: smaller(6, self.console.width - 1) as u32,
            row: (row + 1) as u32,
        })
        &&& rows_kept(&self.console, &after.console, row, row + 1)
        &&& after.console.row(row) == printed_all(self.console.row(row), self.shell_output())
        &&& after.console.row(row + 1) == printed_row(self.console.row(row + 1), prompt(), 0)
        &&& after.redraw == Some(after.cursor)
        &&& after.shell == self.shell
    }

    /// Whether a key leaves everything as it is: the left arrow at the
    /// start of the input, the right arrow at its end.
    pub open spec fn returns_early(&self, event: KeyEvent) -> bool {
        (is_press(event, KeyCode::ArrowLeft) && self.col() == 6) || (is_press(
            event,
            KeyCode::ArrowRight,
        ) && self.col() - 6 == self.typed().len())
    }

    /// The cursor's column after an arrow key has moved it.
    pub open spec fn moved_column(&self, event: KeyEvent) -> int {
        if is_press(event, KeyCode::ArrowLeft) {
            self.col() - 1
        } else if is_press(event, KeyCode::ArrowRight) {
            if self.col() == self.console.width - 1 {
                self.col()
            } else {
                self.col() + 1
            }
        } else {
            self.col()
        }
    }

    /// The character that a key adds to the input: the one it decodes to,
    /// unless the cursor stands in the last column.
    pub open spec fn types(&self, event: KeyEvent) -> Option<char> {
        match event.decoded_key {
            Some(DecodedKey::Unicode(key)) => if !self.returns_early(event) && self.moved_column(
                event,
            ) < self.console.width - 1 {
                Some(key)
            } else {
                None
            },
            _ => None,
        }
    }

    /// Whether a key other than backspace and enter can be taken: an arrow
    /// needs the cursor behind the prompt, and a character needs it within
    /// the typed line, with room on the console for what is written anew.
    pub open spec fn key_accepted(&self, event: KeyEvent) -> bool {
        &&& is_press(event, KeyCode::ArrowLeft) || is_press(event, KeyCode::ArrowRight)
            ==> self.col() >= 6
        &&& self.types(event) is Some ==> {
            &&& self.moved_column(event) >= 6
            &&& self.moved_column(event) - 6 <= self.typed().len()
            &&& 13 + self.typed().len() <= self.console.width
        }
    }

    /// Whether `after` is the terminal once a key other than backspace
    /// and enter was taken: an arrow moves the cursor, a character is put
    /// in at the cursor, which moves on, and a press asks for a redraw.
    pub open spec fn keyed(&self, event: KeyEvent, after: &Self) -> bool {
        if self.returns_early(event) {
            *after == *self
        } else {
            let moved = self.moved_column(event);
            &&& match self.types(event) {
                Some(key) => {
                    &&& after.input_buffer@ == self.typed().insert(moved - 6, key)
                    &&& after.cursor == (Position {
                        column: (moved + 1) as u32,
                        row: self.cursor.row,
                    })
                    &&& rows_kept(&self.console, &after.console, self.line(), self.line())
                    &&& after.console.row(self.line()) == rewritten_row(
                        self.console.row(self.line()),
                        after.input_buffer@,
                        7 + self.typed().len() as int,
                    )
                },
                None => {
                    &&& after.input_buffer@ == self.typed()
                    &&& after.cursor == (Position { column: moved as u32, row: self.cursor.row })
                    &&& after.console == self.console
                },
            }
            &&& after.redraw == if event.key_state == KeyState::Down {
                Some(after.cursor)
            } else {
                self.redraw
            }
            &&& after.shell == self.shell
        }
    }

    /// Whether the terminal is as its keys leave it: the console is at
    /// least seven cells wide, the cursor's row shows the prompt and behind
    /// it the typed line, the cursor stands in the typed line or at its
    /// end, a line that is not empty leaves twelve cells free, and every
    /// row below the cursor is empty.
    pub open spec fn tidy(&self) -> bool {
        &&& self.wf()
        &&& self.console.width >= 7
        &&& 6 <= self.col() <= 6 + self.typed().len()
        &&& self.typed().len() > 0 ==> 12 + self.typed().len() <= self.console.width
        &&& self.console.row(self.line()) == line_shown(self.console.width, self.typed())
        &&& forall|column: int, row: int|
            self.line() < row < self.console.height && 0 <= column < self.console.width
                ==> (#[trigger] self.console.at(column, row)) is None
    }

    /// A terminal on a console, with the first prompt drawn.
    pub fn new(console: Console) -> (terminal: Self)
        requires
            console.wf(),
            console.width >= 1,
            console.height >= 1,
        ensures
            terminal.wf(),
            terminal.cursor == (Position {
                column: smaller(6, console.width - 1) as u32,
                row: 0,
            }),
            terminal.input_buffer@ == Seq::<char>::empty(),
            terminal.shell is None,
            terminal.redraw == Some(terminal.cursor),
            rows_kept(&console, &terminal.console, 0, 0),
            terminal.console.row(0) == printed_row(console.row(0), prompt(), 0),
    {
        let mut this = Terminal {
            cursor: Position { row: 0, column: 0 },
            console,
            input_buffer: Vec::new(),
            shell: None,
            redraw: None,
        };
        this.draw_prompt();
        this
    }

    /// Gives the terminal the shell that takes its lines.
    pub fn launch_shell(&mut self, shell: S)
        ensures
            *final(self) == (Terminal { shell: Some(shell), ..*old(self) }),
    {
        self.shell = Some(shell);
    }

    /// Prints the prompt at the cursor, moves the cursor behind it, and
    /// asks for a redraw.
    pub fn draw_prompt(&mut self)
        requires
            old(self).wf(),
        ensures
            final(self).wf(),
            final(self).cursor == (Position {
                column: smaller(old(self).col() + 6, old(self).console.width - 1) as u32,
                row: old(self).cursor.row,
            }),
            rows_kept(&old(self).console, &final(self).console, old(self).line(), old(self).line()),
            final(self).console.row(old(self).line()) == printed_row(
                old(self).console.row(old(self).line()),
                prompt(),
                old(self).col(),
            ),
            final(self).redraw == Some(final(self).cursor),
            final(self).input_buffer == old(self).input_buffer,
            final(self).shell == old(self).shell,
    {
        proof {
            reveal_strlit("bmos> ");
        }
        self.console.print("bmos> ", self.cursor.column, self.cursor.row);
        let behind: u64 = self.cursor.column as u64 + PROMPT_LENGTH as u64;
        let last: u32 = self.console.width() - 1;
        if behind < last as u64 {
            self.cursor.column = behind as u32;
        } else {
            self.cursor.column = last;
        }
        self.redraw = Some(self.cursor);
    }

    /// Moves the cursor one cell to the right, unless it stands in the last
    /// column.
    pub fn move_cursor_right(&mut self) -> (cursor: Position)
        requires
            old(self).wf(),
        ensures
            cursor == final(self).cursor,
            cursor == (Position {
                column: if old(self).col() == old(self).console.width - 1 {
                    old(self).cursor.column
                } else {
                    (old(self).col() + 1) as u32
                },
                row: old(self).cursor.row,
            }),
            *final(self) == (Terminal { cursor, ..*old(self) }),
    {
        if self.cursor.column != self.console.width() - 1 {
            self.cursor.column += 1;
        }
        self.cursor
    }

    /// Moves the cursor one cell to the left, unless it stands in the first
    /// column.
    pub fn move_cursor_left(&mut self) -> (cursor: Position)
        ensures
            cursor == final(self).cursor,
            cursor == (Position {
                column: if old(self).col() == 0 {
                    0
                } else {
                    (old(self).col() - 1) as u32
                },
                row: old(self).cursor.row,
            }),
            *final(self) == (Terminal { cursor, ..*old(self) }),
    {
        if self.cursor.column != 0 {
            self.cursor.column -= 1;
        }
        self.cursor
    }

    /// Moves the cursor one row down, unless it stands in the last row.
    pub fn move_cursor_down(&mut self) -> (cursor: Position)
        requires
            old(self).wf(),
        ensures
            cursor == final(self).cursor,
            cursor == (Position {
                column: old(self).cursor.column,
                row: smaller(old(self).line() + 1, old(self).console.height - 1) as u32,
            }),
            *final(self) == (Terminal { cursor, ..*old(self) }),
    {
        if self.cursor.row != self.console.height() - 1 {
            self.cursor.row += 1;
        }
        self.cursor
    }

    /// Moves the cursor to the first column.
    pub fn move_cursor_to_start(&mut self) -> (cursor: Position)
        ensures
            cursor == final(self).cursor,
            cursor == (Position { column: 0, row: old(self).cursor.row }),
            *final(self) == (Terminal { cursor, ..*old(self) }),
    {
        self.cursor.column = 0;
        self.cursor
    }

    /// The cursor.
    pub fn cursor_position(&self) -> (cursor: Position)
        ensures
            cursor == self.cursor,
    {
        self.cursor
    }

    /// The cursor as counted from the end of the prompt; nothing when it
    /// stands within the prompt.
    pub fn relative_cursor_position(&self) -> (relative: Option<Position>)
        ensures
            self.col() < 6 ==> relative is None,
            self.col() >= 6 ==> relative == Some(
                Position { column: (self.col() - 6) as u32, row: self.cursor.row },
            ),
    {
        if self.cursor.column >= PROMPT_LENGTH {
            Some(Position { column: self.cursor.column - PROMPT_LENGTH, row: self.cursor.row })
        } else {
            None
        }
    }

    /// Writes anew the cells behind the prompt in the row of `position`, as
    /// many as its column says: each gets its character of the input, or
    /// is emptied.
    pub fn redraw_line_until(&mut self, position: Position)
        requires
            old(self).wf(),
            position.column > 0 ==> 6 + position.column <= old(self).console.width && position.row
                < old(self).console.height,
        ensures
            final(self).wf(),
            final(self).cursor == old(self).cursor,
            final(self).input_buffer == old(self).input_buffer,
            final(self).shell == old(self).shell,
            final(self).redraw == old(self).redraw,
            rows_kept(
                &old(self).console,
                &final(self).console,
                position.row as int,
                position.row as int,
            ),
            position.column > 0 ==> final(self).console.row(position.row as int) == rewritten_row(
                old(self).console.row(position.row as int),
                old(self).typed(),
                position.column as int,
            ),
            position.column == 0 ==> final(self).console == old(self).console,
    {
        let ghost before = old(self).console.row(position.row as int);
        let mut index: u32 = PROMPT_LENGTH;
        let mut done: u32 = 0;
        while done < position.column
            invariant
                index == 6 + done,
                done <= position.column,
                position.column > 0 ==> 6 + position.column <= self.console.width && position.row
                    < self.console.height,
                self.wf(),
                self.cursor == old(self).cursor,
                self.input_buffer == old(self).input_buffer,
                self.shell == old(self).shell,
                self.redraw == old(self).redraw,
                rows_kept(&old(self).console, &self.console, position.row as int, position.row as int),
                before == old(self).console.row(position.row as int),
                position.column > 0 ==> before.len() == self.console.width,
                done > 0 ==> self.console.row(position.row as int) == rewritten_row(
                    before,
                    self.input_buffer@,
                    done as int,
                ),
                done == 0 ==> self.console == old(self).console,
            decreases position.column - done,
        {
            let ghost row_before = self.console.row(position.row as int);
            self.console.delete_char(index, position.row);
            let place: usize = done as usize;
            if place < self.input_buffer.len() {
                self.console.put_char(self.input_buffer[place], index, position.row);
            }
            proof {
                if done == 0 {
                    assert(row_before == before);
                }
                assert(self.console.row(position.row as int) =~= rewritten_row(
                    before,
                    self.input_buffer@,
                    done + 1,
                ));
            }
            index += 1;
            done += 1;
        }
    }

    /// Puts the cursor at a position.
    pub fn set_cursor_position(&mut self, position: Position)
        ensures
            *final(self) == (Terminal { cursor: position, ..*old(self) }),
    {
        self.cursor.row = position.row;
        self.cursor.column = position.column;
    }

    /// Hands a finished line to the shell: the cursor goes to the start of
    /// the next row, where the shell's prints appear. An empty line is not
    /// handed on.
    pub fn handle_input(&mut self, string: Vec<char>)
        requires
            old(self).wf(),
            string@.len() > 0 && old(self).shell is Some ==> old(self).shell.unwrap().accepts(
                string@,
            ),
        ensures
            final(self).wf(),
            final(self).input_buffer == old(self).input_buffer,
            final(self).shell == old(self).shell,
            final(self).redraw == old(self).redraw,
            string@.len() == 0 ==> *final(self) == *old(self),
            string@.len() > 0 ==> {
                let row = smaller(old(self).line() + 1, old(self).console.height - 1);
                &&& final(self).cursor == (Position { column: 0, row: row as u32 })
                &&& rows_kept(&old(self).console, &final(self).console, row, row)
                &&& final(self).console.row(row) == printed_all(
                    old(self).console.row(row),
                    if old(self).shell is Some {
                        old(self).shell.unwrap().output(string@)
                    } else {
                        Seq::empty()
                    },
                )
            },
    {
        if string.len() == 0 {
            return ;
        }
        self.move_cursor_down();
        self.move_cursor_to_start();
        let ghost row = self.line();
        let ghost before = self.console.row(row);
        match &self.shell {
            Some(shell) => {
                let input = string_of(&string, 0, string.len());
                assert(input@ =~= string@);
                let printed = shell.process_input(input);
                let ghost outputs = lines(printed@);
                let mut k: usize = 0;
                while k < printed.len()
                    invariant
                        k <= printed@.len(),
                        outputs == lines(printed@),
                        self.console.wf(),
                        self.input_buffer == old(self).input_buffer,
                        self.shell == old(self).shell,
                        self.redraw == old(self).redraw,
                        self.cursor == (Position { column: 0, row: row as u32 }),
                        0 <= row < self.console.height,
                        self.console.width >= 1,
                        before == old(self).console.row(row),
                        rows_kept(&old(self).console, &self.console, row, row),
                        self.console.row(row) == printed_all(before, outputs.subrange(0, k as int)),
                    decreases printed@.len() - k,
                {
                    let ghost row_before = self.console.row(row);
                    self.console.print(printed[k].as_str(), self.cursor.column, self.cursor.row);
                    proof {
                        let sofar = outputs.subrange(0, k + 1);
                        assert(sofar.drop_last() =~= outputs.subrange(0, k as int));
                        assert(sofar.last() == printed@[k as int]@);
                        if printed@[k as int]@.len() == 0 {
                            assert(printed_row(row_before, sofar.last(), 0) =~= row_before);
                        }
                    }
                    k += 1;
                }
                assert(outputs.subrange(0, k as int) =~= outputs);
            },
            None => {},
        }
    }

    /// Makes the redraw that is asked for, if one is: draws the console
    /// with the cursor where it stood when the redraw was asked for, and
    /// copies it to the screen. Says whether it drew.
    pub fn render(&mut self, framebuffer: &mut Framebuffer, font: &Font, screen: &mut [u8]) -> (drawn:
        bool)
        requires
            old(self).wf(),
            font.wf(),
            old(self).console.fits(font),
            old(framebuffer).wf(),
            old(screen)@.len() == old(framebuffer).fb_size,
        ensures
            *final(self) == (Terminal { redraw: None, ..*old(self) }),
            final(self).wf(),
            drawn == old(self).redraw is Some,
            final(framebuffer).wf(),
            final(framebuffer).fb_size == old(framebuffer).fb_size,
            final(framebuffer).fb_scanline == old(framebuffer).fb_scanline,
            match old(self).redraw {
                Some(cursor) => {
                    &&& final(framebuffer).back_buffer@ == old(self).console.screen_image(
                        old(framebuffer).fb_size,
                        old(framebuffer).fb_scanline,
                        font,
                        cursor,
                    )
                    &&& final(screen)@ == final(framebuffer).back_buffer@
                },
                None => {
                    &&& final(framebuffer).back_buffer@ == old(framebuffer).back_buffer@
                    &&& final(screen)@ == old(screen)@
                },
            },
    {
        match self.redraw {
            Some(cursor) => {
                proof {
                    assert((font.width + 1) * (cursor.column + 1) <= (font.width + 1)
                        * self.console.width) by (nonlinear_arith)
                        requires
                            cursor.column + 1 <= self.console.width,
                    ;
                    assert(font.height * (cursor.row + 1) <= font.height * self.console.height)
                        by (nonlinear_arith)
                        requires
                            cursor.row + 1 <= self.console.height,
                    ;
                }
                self.console.redraw_screen(framebuffer, font, cursor, screen);
                self.redraw = None;
                true
            },
            None => false,
        }
    }

    /// Takes the event if the terminal can, and says whether it did.
    pub fn try_handle_key_event(&mut self, event: KeyEvent) -> (taken: bool)
        requires
            old(self).wf(),
        ensures
            taken == old(self).accepts(event),
            taken ==> old(self).handles(event, final(self)),
            !taken ==> *final(self) == *old(self),
            final(self).wf(),
    {
        if self.can_handle(event) {
            self.handle_key_event(event);
            true
        } else {
            false
        }
    }
}

impl<S: Shell> KeyboardHandler for Terminal<S> {
    /// The console has at least one cell, and the cursor and the position
    /// of a redraw that is asked for lie on it.
    open spec fn wf(&self) -> bool {
        &&& self.console.wf()
        &&& self.console.width >= 1
        &&& self.console.height >= 1
        &&& self.console.within_bounds(self.cursor)
        &&& self.redraw is Some ==> self.console.within_bounds(self.redraw.unwrap())
    }

    /// Whether the key finds what it needs.
    open spec fn accepts(&self, event: KeyEvent) -> bool {
        if is_press(event, KeyCode::Backspace) {
            self.backspace_accepted()
        } else if is_press(event, KeyCode::Enter) || is_press(event, KeyCode::NumpadEnter) {
            self.enter_accepted()
        } else {
            self.key_accepted(event)
        }
    }

    /// Whether the key has had its effect.
    open spec fn handles(&self, event: KeyEvent, after: &Self) -> bool {
        if is_press(event, KeyCode::Backspace) {
            self.backspaced(after)
        } else if is_press(event, KeyCode::Enter) || is_press(event, KeyCode::NumpadEnter) {
            self.entered(after)
        } else {
            self.keyed(event, after)
        }
    }

    fn can_handle(&self, event: KeyEvent) -> (can: bool) {
        let column: u64 = self.cursor.column as u64;
        let length: u64 = self.input_buffer.len() as u64;
        let width: u64 = self.console.width() as u64;
        let pressed = match event.key_state() {
            KeyState::Down => true,
            _ => false,
        };
        match (event.key_code(), pressed) {
            (KeyCode::Backspace, true) => {
                column <= 6 || (column - 7 < length && length <= width && 6 + length <= width)
            },
            (KeyCode::Enter, true) | (KeyCode::NumpadEnter, true) => {
                let height: u64 = self.console.height() as u64;
                let below: u64 = if length > 0 && self.cursor.row as u64 + 1 < height - 1 {
                    self.cursor.row as u64 + 1
                } else if length > 0 {
                    height - 1
                } else {
                    self.cursor.row as u64
                };
                if below + 1 >= height {
                    return false;
                }
                if length == 0 {
                    return true;
                }
                match &self.shell {
                    Some(shell) => {
                        let input = string_of(&self.input_buffer, 0, self.input_buffer.len());
                        assert(input@ =~= self.typed());
                        shell.can_process(input.as_str())
                    },
                    None => true,
                }
            },
            (code, _) => {
                let left = pressed && match code {
                    KeyCode::ArrowLeft => true,
                    _ => false,
                };
                let right = pressed && match code {
                    KeyCode::ArrowRight => true,
                    _ => false,
                };
                if (left || right) && column < 6 {
                    return false;
                }
                if (left && column == 6) || (right && column - 6 == length) {
                    return true;
                }
                let moved: u64 = if left {
                    (column - 1) as u64
                } else if right && column != width - 1 {
                    column + 1
                } else {
                    column
                };
                match event.decoded_key() {
                    Some(DecodedKey::Unicode(_)) => {
                        moved >= width - 1 || (moved >= 6 && moved - 6 <= length && length <= width
                            && 13 + length <= width)
                    },
                    _ => true,
                }
            },
        }
    }


    fn handle_key_event(&mut self, event: KeyEvent) {
        let mut cursor = self.cursor;
        match (event.key_code(), event.key_state()) {
            (KeyCode::Backspace, KeyState::Down) => {
                match self.relative_cursor_position() {
                    Some(relative_cursor) => {
                        if relative_cursor.column == 0 {
                            return ;
                        }
                    },
                    None => {
                        return ;
                    },
                }
                cursor = self.move_cursor_left();
                let relative_cursor = self.relative_cursor_position().unwrap();
                let char_amount = self.input_buffer.len();
                let _ = self.input_buffer.remove(relative_cursor.column as usize);
                self.redraw_line_until(
                    Position { column: char_amount as u32, row: relative_cursor.row },
                );
                self.redraw = Some(cursor);
                return ;
            },
            (KeyCode::ArrowLeft, KeyState::Down) => {
                let relative_cursor = self.relative_cursor_position().unwrap();
                if relative_cursor.column == 0 {
                    return ;
                }
                cursor = self.move_cursor_left();
            },
            (KeyCode::ArrowRight, KeyState::Down) => {
                let relative_cursor = self.relative_cursor_position().unwrap();
                if relative_cursor.column as usize == self.input_buffer.len() {
                    return ;
                }
                cursor = self.move_cursor_right();
            },
            (KeyCode::Enter, KeyState::Down) | (KeyCode::NumpadEnter, KeyState::Down) => {
                let mut input: Vec<char> = Vec::new();
                std::mem::swap(&mut input, &mut self.input_buffer);
                self.handle_input(input);
                let new_cursor_position = Position { column: 0, row: self.cursor.row + 1 };
                self.set_cursor_position(new_cursor_position);
                self.draw_prompt();
                return ;
            },
            _ => {},
        }
        match event.decoded_key() {
            Some(DecodedKey::Unicode(key)) => {
                if cursor.column < self.console.width() - 1 {
                    let relative_cursor = self.relative_cursor_position().unwrap();
                    self.input_buffer.insert(relative_cursor.column as usize, key);
                    let char_amount = self.input_buffer.len();
                    self.redraw_line_until(
                        Position {
                            row: relative_cursor.row,
                            column: PROMPT_LENGTH + char_amount as u32,
                        },
                    );
                    cursor = self.move_cursor_right();
                }
            },
            _ => {},
        }
        match event.key_state() {
            KeyState::Down => {
                self.redraw = Some(cursor);
            },
            _ => {},
        }
    }
}

/// A terminal on an empty console of at least seven columns is tidy from
/// the start.
pub proof fn law_fresh_terminal_is_tidy<S: Shell>(console: &Console, terminal: &Terminal<S>)
    requires
        console.wf(),
        console.width >= 7,
        console.height >= 1,
        forall|column: int, row: int|
            console.holds(column, row) ==> (#[trigger] console.at(column, row)) is None,
        terminal.wf(),
        terminal.cursor == (Position { column: 6, row: 0 }),
        terminal.input_buffer@ == Seq::<char>::empty(),
        rows_kept(console, &terminal.console, 0, 0),
        terminal.console.row(0) == printed_row(console.row(0), prompt(), 0),
    ensures
        terminal.tidy(),
{
    reveal_strlit("bmos> ");
    assert(terminal.console.row(0) =~= line_shown(terminal.console.width, terminal.typed())) by {
        let top = console.row(0);
        assert forall|column: int| 0 <= column < console.width implies (#[trigger] top[column])
            == None::<char> by {
            assert(console.holds(column, 0));
            assert(console.at(column, 0) is None);
        }
    }
    assert forall|column: int, row: int|
        0 < row < terminal.console.height && 0 <= column
            < terminal.console.width implies (#[trigger] terminal.console.at(column, row))
        is None by {
        assert(terminal.console.row(row) == console.row(row));
        assert(console.holds(column, row));
        assert(console.at(column, row) is None);
    }
}

/// A tidy terminal can take every backspace, and every other key that
/// types nothing, the arrows among them; it can take a key that types a
/// character while thirteen cells more than the typed line fit the
/// console; and it can take enter while there is a row for the new prompt
/// and the shell takes the line.
pub proof fn law_tidy_terminal_takes_keys<S: Shell>(terminal: &Terminal<S>, event: KeyEvent)
    requires
        terminal.tidy(),
    ensures
        is_press(event, KeyCode::Backspace) ==> terminal.accepts(event),
        !is_press(event, KeyCode::Backspace) && !is_press(event, KeyCode::Enter) && !is_press(
            event,
            KeyCode::NumpadEnter,
        ) ==> (terminal.accepts(event) <==> terminal.types(event) is None || 13
            + terminal.typed().len() <= terminal.console.width),
        is_press(event, KeyCode::Enter) || is_press(event, KeyCode::NumpadEnter) ==> (
        terminal.accepts(event) <==> terminal.enter_accepted()),
{
}

/// The keys keep a terminal tidy: after any key that it could take, the
/// cursor's row shows the prompt and the line as it is then typed, and the
/// rows below are empty.
pub proof fn law_keys_keep_the_line<S: Shell>(
    before: &Terminal<S>,
    event: KeyEvent,
    after: &Terminal<S>,
)
    requires
        before.tidy(),
        before.accepts(event),
        before.handles(event, after),
        after.wf(),
    ensures
        after.tidy(),
{
    reveal_strlit("bmos> ");
    let width = before.console.width;
    let line = before.line();
    if is_press(event, KeyCode::Backspace) {
        if before.col() > 6 {
            assert(after.console.row(line) =~= line_shown(width, after.typed()));
            lemma_rows_below_stay_empty(before, after, line, line);
        }
    } else if is_press(event, KeyCode::Enter) || is_press(event, KeyCode::NumpadEnter) {
        let row = before.entered_row();
        let below = before.console.row(row + 1);
        assert forall|column: int| 0 <= column < width implies (#[trigger] below[column])
            == None::<char> by {
            assert(before.console.at(column, row + 1) is None);
        }
        assert(after.console.row(row + 1) =~= line_shown(width, after.typed()));
        lemma_rows_below_stay_empty(before, after, row, row + 1);
    } else if !before.returns_early(event) {
        match before.types(event) {
            Some(key) => {
                assert(after.console.row(line) =~= line_shown(width, after.typed()));
                lemma_rows_below_stay_empty(before, after, line, line);
            },
            None => {},
        }
    }
}

/// Rows that were empty below the cursor, and that are kept, are empty
/// below the rows that changed.
proof fn lemma_rows_below_stay_empty<S: Shell>(
    before: &Terminal<S>,
    after: &Terminal<S>,
    first: int,
    second: int,
)
    requires
        before.tidy(),
        rows_kept(&before.console, &after.console, first, second),
        before.line() <= first <= second,
    ensures
        forall|column: int, row: int|
            second < row < after.console.height && 0 <= column < after.console.width
                ==> (#[trigger] after.console.at(column, row)) is None,
{
    assert forall|column: int, row: int|
        second < row < after.console.height && 0 <= column
            < after.console.width implies (#[trigger] after.console.at(column, row)) is None by {
        assert(after.console.row(row) == before.console.row(row));
        assert(before.console.at(column, row) is None);
    }
}

} // verus!

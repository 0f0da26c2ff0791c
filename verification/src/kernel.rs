use vstd::prelude::*;
use std::collections::VecDeque;
use crate::builtins::{builtin_names, table_entries};
use crate::console::{printed_row, Console, Position, FOREGROUND_COLOR};
use crate::events::{event_offered, new_event_queue, offered_all, process_events, turn_length, SystemEvent};
use crate::graphics::{with_cell_dots, Font, Framebuffer, FramebufferInfo, GraphicsSettings};
use crate::keyboard::{KeyboardEventRegistry, KeyboardHandler};
use crate::scheduler::{Scheduler, MAX_TICKS};
use crate::serial::SerialLine;
use crate::shell::BmShell;
use crate::terminal::{prompt, smaller, Terminal};
use crate::threading::{build, valid_stack_page, BuildError, EntryPoints};

verus! {

/// Why the kernel could not be brought up.
#[derive(Clone, Copy, Debug, PartialEq, Eq, Structural)]
pub enum BootError {
    /// The boot loader set up no frame buffer.
    NoFramebuffer,
    /// The screen is not of the size that the boot loader reports, or a
    /// line's length in bytes does not fit a machine word.
    InvalidFramebuffer,
    /// The font is not well formed.
    InvalidFont,
    /// The screen has no room for a single character.
    ScreenTooSmall,
    /// The startup thread could not be built.
    NoStartupThread(BuildError),
}

/// Everything that the kernel keeps for as long as it runs: the scheduler,
/// the keyboard handlers with the terminal in their first slot, the events
/// that wait for the event thread, the serial line, and the back buffer
/// with the font that is drawn into it.
pub struct Kernel {
    pub scheduler: Scheduler,
    pub registry: Option<KeyboardEventRegistry<Terminal<BmShell>>>,
    pub events: VecDeque<SystemEvent>,
    pub serial: SerialLine,
    pub framebuffer: Framebuffer,
    pub font: Font,
}

/// Name of the startup thread.
pub open spec fn idle_name() -> Seq<char> {
    "__idle"@
}

/// Columns of the console on a screen of that resolution.
pub open spec fn console_columns(info: FramebufferInfo, font: Font) -> int {
    ((info.horizontal_resolution as int) % 0x1_0000_0000) / (font.width + 1)
}

/// Rows of the console on a screen of that resolution.
pub open spec fn console_rows(info: FramebufferInfo, font: Font) -> int {
    ((info.vertical_resolution as int) % 0x1_0000_0000) / (font.height as int)
}

/// Whether the frame buffer can be shadowed and the font can be drawn.
pub open spec fn can_draw(info: Option<FramebufferInfo>, screen_length: nat, font: Font) -> bool {
    &&& info is Some
    &&& screen_length == info.unwrap().byte_len
    &&& info.unwrap().stride * info.unwrap().bytes_per_pixel <= usize::MAX
    &&& font.wf()
}

/// What keeps the kernel from coming up, where something does. What is
/// named first is found first.
pub open spec fn boot_failure(
    info: Option<FramebufferInfo>,
    screen_length: nat,
    font: Font,
    idle_page: Option<u64>,
) -> Option<BootError> {
    if info is None {
        Some(BootError::NoFramebuffer)
    } else if screen_length != info.unwrap().byte_len || info.unwrap().stride
        * info.unwrap().bytes_per_pixel > usize::MAX {
        Some(BootError::InvalidFramebuffer)
    } else if !font.wf() {
        Some(BootError::InvalidFont)
    } else if console_columns(info.unwrap(), font) == 0 || console_rows(info.unwrap(), font) == 0 {
        Some(BootError::ScreenTooSmall)
    } else if idle_page is None {
        Some(BootError::NoStartupThread(BuildError::OutOfMemory))
    } else if !valid_stack_page(idle_page.unwrap()) {
        Some(BootError::NoStartupThread(BuildError::InvalidPage))
    } else {
        None
    }
}

/// A blank screen with the cell at the cursor filled.
pub open spec fn blank_screen(fb_size: usize, scanline: usize, font: Font, cursor: Position) -> Seq<
    u8,
> {
    with_cell_dots(
        Seq::new(fb_size as nat, |i: int| 0u8),
        scanline,
        None,
        font.width,
        font.height,
        cursor.column,
        cursor.row,
        FOREGROUND_COLOR,
        (font.width * font.height) as nat,
    )
}

/// Drawing the cells of a console that holds no character draws nothing.
proof fn lemma_empty_console_draws_nothing(
    console: &Console,
    buffer: Seq<u8>,
    scanline: usize,
    font: &Font,
    cursor: Position,
    count: nat,
)
    requires
        console.wf(),
        count <= console.width * console.height,
        forall|column: int, row: int|
            console.holds(column, row) ==> (#[trigger] console.at(column, row)) is None,
    ensures
        console.with_cells(buffer, scanline, font, cursor, count) == buffer,
    decreases count,
{
    if count > 0 && console.width > 0 {
        lemma_empty_console_draws_nothing(
            console,
            buffer,
            scanline,
            font,
            cursor,
            (count - 1) as nat,
        );
        let k = (count - 1) as int;
        let width = console.width as int;
        assert(0 <= k % width < width) by {
            vstd::arithmetic::div_mod::lemma_mod_bound(k, width);
        }
        assert(0 <= k / width < console.height) by {
            vstd::arithmetic::div_mod::lemma_fundamental_div_mod(k, width);
            assert(k / width < console.height) by (nonlinear_arith)
                requires
                    k == width * (k / width) + k % width,
                    0 <= k % width,
                    k < width * console.height,
                    width > 0,
            ;
            assert(0 <= k / width) by (nonlinear_arith)
                requires
                    k >= 0,
                    width > 0,
            ;
        }
        assert(console.holds(k % width, k / width));
        assert(console.at(k % width, k / width) is None);
    }
}

/// Whether every terminal in the slots has a console that the font's
/// cells fit on, so that it can be drawn.
pub open spec fn all_fit(slots: Seq<Option<Terminal<BmShell>>>, font: &Font) -> bool {
    forall|i: int|
        0 <= i < slots.len() && (#[trigger] slots[i]) is Some ==> slots[i].unwrap().console.fits(
            font,
        )
}

/// Offering an event to terminals leaves the sizes of their consoles.
proof fn lemma_offer_keeps_fit(
    before: Seq<Option<Terminal<BmShell>>>,
    event: SystemEvent,
    after: Seq<Option<Terminal<BmShell>>>,
    font: &Font,
)
    requires
        event_offered(before, event, after),
        all_fit(before, font),
    ensures
        all_fit(after, font),
{
    assert forall|i: int| 0 <= i < after.len() && (#[trigger] after[i]) is Some implies after[i].unwrap().console.fits(
        font,
    ) by {
        assert(before[i] is Some);
    }
}

/// Offering events to terminals leaves the sizes of their consoles.
proof fn lemma_offers_keep_fit(
    before: Seq<Option<Terminal<BmShell>>>,
    events: Seq<SystemEvent>,
    after: Seq<Option<Terminal<BmShell>>>,
    font: &Font,
)
    requires
        offered_all(before, events, after),
        all_fit(before, font),
    ensures
        all_fit(after, font),
    decreases events.len(),
{
    if events.len() > 0 {
        let between = choose|between: Seq<Option<Terminal<BmShell>>>|
            offered_all(before, events.drop_last(), between) && #[trigger] event_offered(
                between,
                events.last(),
                after,
            );
        lemma_offers_keep_fit(before, events.drop_last(), between, font);
        lemma_offer_keeps_fit(between, events.last(), after, font);
    }
}

impl Kernel {
    /// The scheduler, the handlers, the back buffer and the font are well
    /// formed, and every terminal can be drawn with the font.
    pub open spec fn wf(&self) -> bool {
        &&& self.scheduler@.wf()
        &&& self.framebuffer.wf()
        &&& self.font.wf()
        &&& self.registry is Some ==> self.registry.unwrap().wf() && all_fit(
            self.registry.unwrap().handlers@,
            &self.font,
        )
    }

    /// The terminal that was registered when the kernel came up.
    pub open spec fn terminal(&self) -> Terminal<BmShell> {
        self.registry.unwrap().handlers@[0].unwrap()
    }

    /// Whether this is the kernel as it comes up on that screen, with that
    /// font and with the startup thread on that page: the startup thread
    /// runs and no other thread exists; the one handler is a terminal with
    /// the shell, an empty console but for the prompt, and the cursor
    /// behind the prompt; no event waits, nothing is to be sent, and the
    /// back buffer shows a blank screen with the first cell filled.
    pub open spec fn is_booted(
        &self,
        info: FramebufferInfo,
        font: Font,
        idle_page: u64,
        idle_entry: u64,
        points: EntryPoints,
    ) -> bool {
        let columns = console_columns(info, font);
        let rows = console_rows(info, font);
        &&& self.scheduler@.current.is_initial(idle_name(), idle_entry, idle_page, points)
        &&& self.scheduler@.ready.len() == 0
        &&& self.scheduler@.dead.len() == 0
        &&& !self.scheduler@.in_doubt
        &&& self.scheduler@.ticks == 0
        &&& self.scheduler@.quantum == MAX_TICKS
        &&& self.scheduler@.idle_name == idle_name()
        &&& self.registry is Some
        &&& self.registry.unwrap().handlers@[0] is Some
        &&& forall|i: int| 1 <= i < 8 ==> self.registry.unwrap().handlers@[i] is None
        &&& self.terminal().shell is Some
        &&& table_entries(self.terminal().shell.unwrap().builtins) == builtin_names()
        &&& self.terminal().cursor == (Position { column: smaller(6, columns - 1) as u32, row: 0 })
        &&& self.terminal().redraw == Some(self.terminal().cursor)
        &&& self.terminal().input_buffer@.len() == 0
        &&& self.terminal().console.width == columns
        &&& self.terminal().console.height == rows
        &&& self.terminal().console.row(0) == printed_row(
            Seq::new(columns as nat, |i: int| None::<char>),
            prompt(),
            0,
        )
        &&& forall|column: int, row: int|
            0 <= column < columns && 1 <= row < rows ==> self.terminal().console.at(column, row)
                is None
        &&& self.events@.len() == 0
        &&& self.serial.pending@.len() == 0
        &&& self.font == font
        &&& self.framebuffer.fb_size == info.byte_len
        &&& self.framebuffer.fb_scanline == info.stride * info.bytes_per_pixel
        &&& self.framebuffer.back_buffer@ == blank_screen(
            info.byte_len,
            self.framebuffer.fb_scanline,
            font,
            Position { column: 0, row: 0 },
        )
    }

    /// Brings the kernel up: shadows the frame buffer, sizes the console by
    /// the font and draws it, starts the terminal with its shell and
    /// registers it for key events, and puts the startup thread, on the
    /// page given for its stack, into a scheduler of its own. The screen is
    /// drawn as soon as the frame buffer and the font are found in order.
    pub fn boot(
        info: Option<FramebufferInfo>,
        screen: &mut [u8],
        font: Font,
        idle_page: Option<u64>,
        idle_entry: u64,
        points: EntryPoints,
    ) -> (booted: Result<Kernel, BootError>)
        ensures
            match boot_failure(info, old(screen)@.len(), font, idle_page) {
                Some(error) => booted == Err::<Kernel, BootError>(error),
                None => booted is Ok && booted.unwrap().wf() && booted.unwrap().is_booted(
                    info.unwrap(),
                    font,
                    idle_page.unwrap(),
                    idle_entry,
                    points,
                ),
            },
            final(screen)@ == if can_draw(info, old(screen)@.len(), font) {
                blank_screen(
                    info.unwrap().byte_len,
                    (info.unwrap().stride * info.unwrap().bytes_per_pixel) as usize,
                    font,
                    Position { column: 0, row: 0 },
                )
            } else {
                old(screen)@
            },
    {
        let info = match info {
            Some(info) => info,
            None => {
                return Err(BootError::NoFramebuffer);
            },
        };
        let mut framebuffer = match Framebuffer::from_boot_info_framebuffer(info, screen) {
            Some(framebuffer) => framebuffer,
            None => {
                return Err(BootError::InvalidFramebuffer);
            },
        };
        if !font.is_well_formed() {
            return Err(BootError::InvalidFont);
        }
        let gfx_settings = GraphicsSettings::from_info(&info);
        let console = Console::init(&gfx_settings, &mut framebuffer, &font, screen);
        proof {
            lemma_empty_console_draws_nothing(
                &console,
                blank_screen(
                    framebuffer.fb_size,
                    framebuffer.fb_scanline,
                    font,
                    Position { column: 0, row: 0 },
                ),
                framebuffer.fb_scanline,
                &font,
                Position { column: 0, row: 0 },
                (console.width * console.height) as nat,
            );
        }
        if console.width() == 0 || console.height() == 0 {
            return Err(BootError::ScreenTooSmall);
        }
        let ghost empty_row = console.row(0);
        assert(empty_row =~= Seq::new(console.width as nat, |i: int| None::<char>)) by {
            assert forall|i: int| 0 <= i < console.width implies empty_row[i] == None::<char> by {
                assert(console.holds(i, 0));
                assert(console.at(i, 0) is None);
            }
        }
        let ghost empty = console;
        let mut terminal = Terminal::new(console);
        assert forall|column: int, row: int|
            0 <= column < terminal.console.width && 1 <= row
                < terminal.console.height implies terminal.console.at(column, row) is None by {
            assert(empty.holds(column, row));
            assert(empty.at(column, row) is None);
            assert(terminal.console.row(row) == empty.row(row));
        }
        terminal.launch_shell(BmShell::new());
        let mut registry: KeyboardEventRegistry<Terminal<BmShell>> = KeyboardEventRegistry::new();
        let _ = registry.register(terminal);
        let idle_thread = match build("__idle", idle_entry, idle_page, points) {
            Ok(thread) => thread,
            Err(error) => {
                return Err(BootError::NoStartupThread(error));
            },
        };
        let scheduler = Scheduler::new(idle_thread);
        Ok(
            Kernel {
                scheduler,
                registry: Some(registry),
                events: new_event_queue(),
                serial: SerialLine::new(),
                framebuffer,
                font,
            },
        )
    }

    /// One turn of the event thread: offers up to ten waiting events to the
    /// keyboard handlers, and then makes the redraw that the terminal asks
    /// for, if it asks for one. Returns how many events were taken.
    pub fn event_turn(&mut self, screen: &mut [u8]) -> (taken: usize)
        requires
            old(self).wf(),
            old(screen)@.len() == old(self).framebuffer.fb_size,
        ensures
            final(self).wf(),
            taken == turn_length(old(self).events@.len() as int),
            final(self).events@ == old(self).events@.subrange(
                taken as int,
                old(self).events@.len() as int,
            ),
            final(self).scheduler == old(self).scheduler,
            final(self).serial == old(self).serial,
            final(self).font == old(self).font,
            final(self).framebuffer.fb_size == old(self).framebuffer.fb_size,
            final(self).framebuffer.fb_scanline == old(self).framebuffer.fb_scanline,
            old(self).registry is None ==> final(self).registry is None && final(self).framebuffer.back_buffer@ == old(self).framebuffer.back_buffer@ && final(screen)@
                == old(screen)@,
            old(self).registry is Some ==> final(self).registry is Some && exists|
                handled: Seq<Option<Terminal<BmShell>>>,
            |
                {
                    &&& #[trigger] offered_all(
                        old(self).registry.unwrap().handlers@,
                        old(self).events@.subrange(0, taken as int),
                        handled,
                    )
                    &&& final(self).shown(
                        handled,
                        old(self).framebuffer.back_buffer@,
                        old(screen)@,
                        final(screen)@,
                    )
                },
    {
        let taken = process_events(&mut self.events, &mut self.registry);
        let font = &self.font;
        match &mut self.registry {
            Some(registry) => {
                proof {
                    lemma_offers_keep_fit(
                        old(self).registry.unwrap().handlers@,
                        old(self).events@.subrange(0, taken as int),
                        registry.handlers@,
                        font,
                    );
                }
                let ghost handled = registry.handlers@;
                let mut first: Option<Terminal<BmShell>> = None;
                std::mem::swap(&mut first, &mut registry.handlers[0]);
                match first {
                    Some(mut terminal) => {
                        let _ = terminal.render(&mut self.framebuffer, font, screen);
                        registry.handlers[0] = Some(terminal);
                    },
                    None => {},
                }
                assert(handled[0] is None ==> registry.handlers@ =~= handled);
                assert(all_fit(registry.handlers@, font)) by {
                    assert forall|i: int|
                        0 <= i < registry.handlers@.len() && (
                        #[trigger] registry.handlers@[i]) is Some implies registry.handlers@[i].unwrap().console.fits(
                        font,
                    ) by {
                        assert(handled[i] is Some);
                    }
                }
            },
            None => {},
        }
        taken
    }

    /// Whether the kernel holds the handlers of `handled` once the redraw
    /// that the first of them asked for was made, and the screen shows it:
    /// the console of that terminal with the cursor where it stood when
    /// the redraw was asked for. Without a redraw to make, the back buffer
    /// and the screen are as they were.
    pub open spec fn shown(
        &self,
        handled: Seq<Option<Terminal<BmShell>>>,
        back_buffer: Seq<u8>,
        screen_before: Seq<u8>,
        screen: Seq<u8>,
    ) -> bool {
        let handlers = self.registry.unwrap().handlers@;
        &&& handlers.len() == handled.len()
        &&& forall|i: int| 1 <= i < handled.len() ==> handlers[i] == handled[i]
        &&& match handled[0] {
            Some(terminal) => {
                &&& handlers[0] == Some(Terminal { redraw: None, ..terminal })
                &&& match terminal.redraw {
                    Some(cursor) => {
                        &&& self.framebuffer.back_buffer@ == terminal.console.screen_image(
                            self.framebuffer.fb_size,
                            self.framebuffer.fb_scanline,
                            &self.font,
                            cursor,
                        )
                        &&& screen == self.framebuffer.back_buffer@
                    },
                    None => self.framebuffer.back_buffer@ == back_buffer && screen == screen_before,
                }
            },
            None => handlers[0] is None && self.framebuffer.back_buffer@ == back_buffer && screen
                == screen_before,
        }
    }
}

} // verus!

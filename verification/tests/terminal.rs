use std::collections::VecDeque;

use bmos::console::{Console, Position};
use bmos::events::{new_event_queue, process_events, SystemEvent, EVENTS_PER_TURN, EVENT_QUEUE_CAPACITY};
use bmos::graphics::{Font, Framebuffer, FramebufferInfo};
use bmos::keyboard::{DecodedKey, KeyCode, KeyEvent, KeyState, KeyboardEventRegistry, KeyboardHandler, RegistryError, HANDLER_SLOTS};
use bmos::shell::BmShell;
use bmos::terminal::{Terminal, PROMPT_LENGTH};

fn at(column: u32, row: u32) -> Position {
    Position { column, row }
}

fn row_text(terminal: &Terminal<BmShell>, row: usize) -> String {
    terminal.console.screen_buffer[row].iter().map(|cell| cell.unwrap_or('.')).collect()
}

fn typed(terminal: &Terminal<BmShell>) -> String {
    terminal.input_buffer.iter().collect()
}

fn press(code: KeyCode) -> KeyEvent {
    KeyEvent::new(code, KeyState::Down, Some(DecodedKey::RawKey(code)))
}

fn key(c: char) -> KeyEvent {
    KeyEvent::new(KeyCode::Other, KeyState::Down, Some(DecodedKey::Unicode(c)))
}

fn terminal(width: u32, height: u32) -> Terminal<BmShell> {
    let mut terminal = Terminal::new(Console::new(width, height));
    terminal.launch_shell(BmShell::new());
    terminal.redraw = None;
    terminal
}

fn type_text(terminal: &mut Terminal<BmShell>, text: &str) {
    for c in text.chars() {
        assert!(terminal.try_handle_key_event(key(c)), "typing {:?}", c);
    }
}

#[test]
fn new_terminal_draws_the_prompt() {
    let terminal: Terminal<BmShell> = Terminal::new(Console::new(20, 4));
    assert_eq!(PROMPT_LENGTH, 6);
    assert_eq!(row_text(&terminal, 0), "bmos> ..............");
    assert_eq!(terminal.cursor_position(), at(6, 0));
    assert_eq!(terminal.redraw, Some(at(6, 0)));
    assert!(terminal.input_buffer.is_empty());
    assert!(terminal.shell.is_none());
}

#[test]
fn prompt_on_a_narrow_console_stops_at_the_last_column() {
    let terminal: Terminal<BmShell> = Terminal::new(Console::new(4, 2));
    assert_eq!(row_text(&terminal, 0), "bmo ");
    assert_eq!(terminal.cursor_position(), at(3, 0));
    let tiny: Terminal<BmShell> = Terminal::new(Console::new(1, 1));
    assert_eq!(row_text(&tiny, 0), " ");
    assert_eq!(tiny.cursor_position(), at(0, 0));
}

#[test]
fn cursor_moves_stop_at_the_edges() {
    let mut t = terminal(8, 2);
    assert_eq!(t.move_cursor_right(), at(7, 0));
    assert_eq!(t.move_cursor_right(), at(7, 0));
    assert_eq!(t.move_cursor_down(), at(7, 1));
    assert_eq!(t.move_cursor_down(), at(7, 1));
    assert_eq!(t.move_cursor_left(), at(6, 1));
    assert_eq!(t.move_cursor_to_start(), at(0, 1));
    assert_eq!(t.move_cursor_left(), at(0, 1));
    t.set_cursor_position(at(3, 0));
    assert_eq!(t.cursor_position(), at(3, 0));
}

#[test]
fn relative_cursor_counts_from_the_prompt() {
    let mut t = terminal(20, 2);
    assert_eq!(t.relative_cursor_position(), Some(at(0, 0)));
    t.set_cursor_position(at(9, 1));
    assert_eq!(t.relative_cursor_position(), Some(at(3, 1)));
    t.set_cursor_position(at(5, 1));
    assert_eq!(t.relative_cursor_position(), None);
}

#[test]
fn typing_inserts_at_the_cursor() {
    let mut t = terminal(30, 4);
    type_text(&mut t, "ehco");
    assert_eq!(typed(&t), "ehco");
    assert_eq!(row_text(&t, 0), "bmos> ehco....................");
    assert_eq!(t.cursor_position(), at(10, 0));
    assert_eq!(t.redraw, Some(at(10, 0)));
    for _ in 0..3 {
        assert!(t.try_handle_key_event(press(KeyCode::ArrowLeft)));
    }
    assert_eq!(t.cursor_position(), at(7, 0));
    type_text(&mut t, "X");
    assert_eq!(typed(&t), "eXhco");
    assert_eq!(row_text(&t, 0), "bmos> eXhco...................");
    assert_eq!(t.cursor_position(), at(8, 0));
}

#[test]
fn arrows_stay_within_the_typed_line() {
    let mut t = terminal(30, 4);
    type_text(&mut t, "ab");
    t.redraw = None;
    assert!(t.try_handle_key_event(press(KeyCode::ArrowRight)));
    assert_eq!(t.cursor_position(), at(8, 0));
    assert_eq!(t.redraw, None);
    assert!(t.try_handle_key_event(press(KeyCode::ArrowLeft)));
    assert_eq!(t.redraw, Some(at(7, 0)));
    assert!(t.try_handle_key_event(press(KeyCode::ArrowLeft)));
    assert_eq!(t.cursor_position(), at(6, 0));
    t.redraw = None;
    assert!(t.try_handle_key_event(press(KeyCode::ArrowLeft)));
    assert_eq!(t.cursor_position(), at(6, 0));
    assert_eq!(t.redraw, None);
    assert!(t.try_handle_key_event(press(KeyCode::ArrowRight)));
    assert_eq!(t.cursor_position(), at(7, 0));
    assert_eq!(typed(&t), "ab");
}

#[test]
fn backspace_deletes_before_the_cursor() {
    let mut t = terminal(30, 4);
    type_text(&mut t, "abc");
    assert!(t.try_handle_key_event(press(KeyCode::ArrowLeft)));
    assert!(t.try_handle_key_event(press(KeyCode::Backspace)));
    assert_eq!(typed(&t), "ac");
    assert_eq!(row_text(&t, 0), "bmos> ac......................");
    assert_eq!(t.cursor_position(), at(7, 0));
    assert_eq!(t.redraw, Some(at(7, 0)));
    assert!(t.try_handle_key_event(press(KeyCode::Backspace)));
    assert_eq!(typed(&t), "c");
    assert_eq!(row_text(&t, 0), "bmos> c.......................");
    t.redraw = None;
    assert!(t.try_handle_key_event(press(KeyCode::Backspace)));
    assert_eq!(typed(&t), "c");
    assert_eq!(t.cursor_position(), at(6, 0));
    assert_eq!(t.redraw, None);
}

#[test]
fn releases_and_other_keys_change_nothing_but_may_type() {
    let mut t = terminal(30, 4);
    let release = KeyEvent::new(KeyCode::Backspace, KeyState::Up, None);
    assert!(t.try_handle_key_event(release));
    assert_eq!((typed(&t), t.cursor_position(), t.redraw), (String::new(), at(6, 0), None));
    assert!(t.try_handle_key_event(KeyEvent::new(KeyCode::Other, KeyState::Down, None)));
    assert_eq!(t.redraw, Some(at(6, 0)));
    t.redraw = None;
    let odd = KeyEvent::new(KeyCode::Enter, KeyState::Up, Some(DecodedKey::Unicode('q')));
    assert!(t.try_handle_key_event(odd));
    assert_eq!((typed(&t), t.cursor_position(), t.redraw), ("q".to_string(), at(7, 0), None));
}

#[test]
fn enter_runs_the_line_and_draws_a_new_prompt() {
    let mut t = terminal(30, 6);
    type_text(&mut t, "echo hi there");
    assert!(t.try_handle_key_event(press(KeyCode::Enter)));
    assert_eq!(row_text(&t, 0), "bmos> echo hi there...........");
    assert_eq!(row_text(&t, 1), "hi there......................");
    assert_eq!(row_text(&t, 2), "bmos> ........................");
    assert_eq!(t.cursor_position(), at(6, 2));
    assert_eq!(t.redraw, Some(at(6, 2)));
    assert_eq!(typed(&t), "");
    type_text(&mut t, "nope");
    assert!(t.try_handle_key_event(press(KeyCode::NumpadEnter)));
    assert_eq!(row_text(&t, 3), "Command not found.............");
    assert_eq!(row_text(&t, 4), "bmos> ........................");
    assert_eq!(t.cursor_position(), at(6, 4));
}

#[test]
fn enter_on_an_empty_line_only_draws_a_prompt() {
    let mut t = terminal(30, 3);
    assert!(t.try_handle_key_event(press(KeyCode::Enter)));
    assert_eq!(row_text(&t, 1), "bmos> ........................");
    assert_eq!(t.cursor_position(), at(6, 1));
    assert!(t.try_handle_key_event(press(KeyCode::Enter)));
    assert_eq!(t.cursor_position(), at(6, 2));
}

#[test]
fn keys_that_cannot_be_taken_leave_the_terminal_alone() {
    // at the bottom of the console there is no row for a new prompt
    let mut t = terminal(30, 2);
    type_text(&mut t, "echo x");
    assert!(!t.can_handle(press(KeyCode::Enter)));
    assert!(!t.try_handle_key_event(press(KeyCode::Enter)));
    assert_eq!((typed(&t), t.cursor_position()), ("echo x".to_string(), at(12, 0)));
    // a blank line is not for the shell
    let mut t = terminal(30, 5);
    type_text(&mut t, "  ");
    assert!(!t.try_handle_key_event(press(KeyCode::Enter)));
    assert_eq!(typed(&t), "  ");
    // what is written anew after a character needs seven cells more than the line has
    let mut t = terminal(20, 5);
    type_text(&mut t, "12345678");
    assert!(!t.try_handle_key_event(key('9')));
    assert_eq!(typed(&t), "12345678");
    assert_eq!(row_text(&t, 0), "bmos> 12345678......");
    // within the prompt the arrows find no place
    let mut t: Terminal<BmShell> = Terminal::new(Console::new(4, 2));
    assert!(!t.try_handle_key_event(press(KeyCode::ArrowLeft)));
    assert!(!t.try_handle_key_event(press(KeyCode::ArrowRight)));
    assert!(t.try_handle_key_event(key('a')));
    assert!(t.input_buffer.is_empty());
    assert!(t.try_handle_key_event(press(KeyCode::Backspace)));
}

#[test]
fn last_character_that_fits() {
    let mut t = terminal(20, 5);
    type_text(&mut t, "1234567");
    assert!(t.can_handle(key('8')));
    type_text(&mut t, "8");
    assert_eq!(row_text(&t, 0), "bmos> 12345678......");
    assert!(!t.can_handle(key('9')));
    assert!(t.try_handle_key_event(press(KeyCode::Backspace)));
    assert_eq!(row_text(&t, 0), "bmos> 1234567.......");
}

#[test]
fn without_a_shell_enter_prints_nothing() {
    let mut t: Terminal<BmShell> = Terminal::new(Console::new(30, 5));
    for c in "  ".chars() {
        assert!(t.try_handle_key_event(key(c)));
    }
    assert!(t.try_handle_key_event(press(KeyCode::Enter)));
    assert_eq!(row_text(&t, 1), "..............................");
    assert_eq!(row_text(&t, 2), "bmos> ........................");
}

#[test]
fn handle_input_prints_below_the_cursor() {
    let mut t = terminal(30, 5);
    t.handle_input(Vec::new());
    assert_eq!(t.cursor_position(), at(6, 0));
    t.handle_input("echo a b".chars().collect());
    assert_eq!(t.cursor_position(), at(0, 1));
    assert_eq!(row_text(&t, 1), "a b...........................");
    t.handle_input("something".chars().collect());
    assert_eq!(t.cursor_position(), at(0, 2));
    assert_eq!(row_text(&t, 2), "..............................");
}

#[test]
fn redraw_line_rewrites_the_cells_behind_the_prompt() {
    let mut t = terminal(20, 2);
    t.console.print("bmos> garbage here", 0, 0);
    t.input_buffer = "ab".chars().collect();
    t.redraw_line_until(at(0, 0));
    assert_eq!(row_text(&t, 0), "bmos> garbage here..");
    t.redraw_line_until(at(5, 0));
    assert_eq!(row_text(&t, 0), "bmos> ab...ge here..");
    t.redraw_line_until(at(14, 0));
    assert_eq!(row_text(&t, 0), "bmos> ab............");
}

#[test]
fn render_makes_the_pending_redraw_once() {
    let font = Font { width: 1, height: 1, glyphs: vec![] };
    let info = FramebufferInfo { byte_len: 2 * 60 * 4, horizontal_resolution: 60, vertical_resolution: 2, stride: 60, bytes_per_pixel: 4 };
    let mut screen = vec![9u8; info.byte_len];
    let mut fb = Framebuffer::from_boot_info_framebuffer(info, &screen).unwrap();
    let mut t: Terminal<BmShell> = Terminal::new(Console::new(30, 2));
    assert!(t.render(&mut fb, &font, &mut screen));
    assert_eq!(t.redraw, None);
    // only the cursor's cell at column 6 is lit: its one dot stands at x = 12
    let lit: Vec<usize> = (0..120).filter(|i| screen[i * 4] != 0).collect();
    assert_eq!(lit, vec![12]);
    screen[0] = 5;
    assert!(!t.render(&mut fb, &font, &mut screen));
    assert_eq!(screen[0], 5);
}

#[test]
fn registry_fills_slots_in_order() {
    let mut registry: KeyboardEventRegistry<Terminal<BmShell>> = KeyboardEventRegistry::new();
    assert_eq!(HANDLER_SLOTS, 8);
    assert!(registry.handlers.iter().all(|slot| slot.is_none()));
    for n in 0..8u32 {
        assert_eq!(registry.register(terminal(20 + n, 4)), Ok(()));
        assert_eq!(registry.handlers.iter().filter(|slot| slot.is_some()).count() as u32, n + 1);
        assert_eq!(registry.handlers[n as usize].as_ref().unwrap().console.width(), 20 + n);
    }
    assert_eq!(registry.register(terminal(99, 4)), Err(RegistryError::NoAvailableSlot));
    registry.handlers[3] = None;
    assert_eq!(registry.register(terminal(99, 4)), Ok(()));
    assert_eq!(registry.handlers[3].as_ref().unwrap().console.width(), 99);
}

#[test]
fn dispatch_reaches_every_handler() {
    let mut registry: KeyboardEventRegistry<Terminal<BmShell>> = KeyboardEventRegistry::new();
    registry.register(terminal(30, 4)).unwrap();
    registry.register(terminal(40, 4)).unwrap();
    assert!(registry.can_dispatch(key('a')));
    registry.dispatch_event(key('a'));
    assert!(registry.try_dispatch_event(key('b')));
    for slot in 0..2 {
        assert_eq!(typed(registry.handlers[slot].as_ref().unwrap()), "ab");
    }
    // one handler that cannot take the event keeps it from all
    registry.register(terminal(20, 1)).unwrap();
    assert!(!registry.can_dispatch(press(KeyCode::Enter)));
    assert!(!registry.try_dispatch_event(press(KeyCode::Enter)));
    assert_eq!(typed(registry.handlers[0].as_ref().unwrap()), "ab");
}

#[test]
fn event_thread_takes_ten_events_a_turn() {
    assert_eq!((EVENT_QUEUE_CAPACITY, EVENTS_PER_TURN), (32, 10));
    let mut queue = new_event_queue();
    assert!(queue.is_empty());
    for c in "echo abcdefghijk".chars() {
        queue.push_back(SystemEvent::KeyboardEvent(key(c)));
    }
    let mut registry: KeyboardEventRegistry<Terminal<BmShell>> = KeyboardEventRegistry::new();
    registry.register(terminal(40, 4)).unwrap();
    let mut registry = Some(registry);
    assert_eq!(process_events(&mut queue, &mut registry), 10);
    assert_eq!(queue.len(), 6);
    assert_eq!(typed(registry.as_ref().unwrap().handlers[0].as_ref().unwrap()), "echo abcde");
    assert_eq!(process_events(&mut queue, &mut registry), 6);
    assert_eq!(process_events(&mut queue, &mut registry), 0);
    assert_eq!(typed(registry.as_ref().unwrap().handlers[0].as_ref().unwrap()), "echo abcdefghijk");
}

#[test]
fn events_without_a_registry_are_dropped() {
    let mut queue: VecDeque<SystemEvent> = (0..12).map(|_| SystemEvent::KeyboardEvent(key('x'))).collect();
    let mut none: Option<KeyboardEventRegistry<Terminal<BmShell>>> = None;
    assert_eq!(process_events(&mut queue, &mut none), 10);
    assert_eq!(queue.len(), 2);
    assert!(none.is_none());
}

#[test]
fn events_that_cannot_be_taken_are_skipped() {
    let mut queue: VecDeque<SystemEvent> = VecDeque::new();
    queue.push_back(SystemEvent::KeyboardEvent(key('a')));
    queue.push_back(SystemEvent::KeyboardEvent(press(KeyCode::Enter)));
    queue.push_back(SystemEvent::KeyboardEvent(key('b')));
    let mut registry: KeyboardEventRegistry<Terminal<BmShell>> = KeyboardEventRegistry::new();
    registry.register(terminal(40, 1)).unwrap();
    let mut registry = Some(registry);
    assert_eq!(process_events(&mut queue, &mut registry), 3);
    let handler = registry.as_ref().unwrap().handlers[0].as_ref().unwrap();
    assert_eq!(typed(handler), "ab");
    assert_eq!(handler.cursor_position(), at(8, 0));
}

#[test]
fn the_line_on_the_console_is_the_prompt_and_what_was_typed() {
    let mut t = terminal(40, 8);
    let keys = [
        key('e'), key('c'), key('x'), press(KeyCode::Backspace), key('o'), press(KeyCode::ArrowLeft),
        key('h'), press(KeyCode::ArrowRight), press(KeyCode::ArrowRight),
        press(KeyCode::ArrowRight), key(' '), key('1'), press(KeyCode::Enter), key('l'), key('s'),
        press(KeyCode::ArrowLeft), press(KeyCode::Backspace), press(KeyCode::Backspace),
        press(KeyCode::NumpadEnter), press(KeyCode::Enter),
    ];
    let mut lines = Vec::new();
    for event in keys {
        assert!(t.try_handle_key_event(event));
        let row = t.cursor_position().row as usize;
        let expected = format!("{:.<40}", format!("bmos> {}", typed(&t)));
        assert_eq!(row_text(&t, row), expected);
        for below in row + 1..8 {
            assert_eq!(row_text(&t, below), ".".repeat(40));
        }
        lines.push(typed(&t));
    }
    assert_eq!(lines[11], "echo 1");
    assert_eq!(row_text(&t, 0), format!("{:.<40}", "bmos> echo 1"));
    assert_eq!(row_text(&t, 1), format!("{:.<40}", "1"));
    assert_eq!(row_text(&t, 2), format!("{:.<40}", "bmos> s"));
    assert_eq!(row_text(&t, 3), format!("{:.<40}", "Command not found."));
    assert_eq!(row_text(&t, 4), format!("{:.<40}", "bmos> "));
    assert_eq!(row_text(&t, 5), format!("{:.<40}", "bmos> "));
    assert_eq!(t.cursor_position(), at(6, 5));
}

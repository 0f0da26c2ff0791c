use bmos::console::{Console, ConsoleError, Position, BACKGROUND_COLOR, FOREGROUND_COLOR};
use bmos::graphics::{Font, Framebuffer, FramebufferInfo, GraphicsSettings};

fn at(column: u32, row: u32) -> Position {
    Position { column, row }
}

fn row_text(console: &Console, row: usize) -> String {
    console.screen_buffer[row].iter().map(|cell| cell.unwrap_or('.')).collect()
}

#[test]
fn new_console_is_empty() {
    let console = Console::new(4, 2);
    assert_eq!((console.width(), console.height()), (4, 2));
    assert_eq!(console.screen_buffer, vec![vec![None; 4]; 2]);
    let none = Console::new(0, 3);
    assert_eq!(none.screen_buffer, vec![Vec::<Option<char>>::new(); 3]);
}

#[test]
fn bounds() {
    let console = Console::new(4, 2);
    assert!(console.is_within_bounds(at(0, 0)));
    assert!(console.is_within_bounds(at(3, 1)));
    assert!(!console.is_within_bounds(at(4, 1)));
    assert!(!console.is_within_bounds(at(3, 2)));
    assert!(!console.is_within_bounds(at(u32::MAX, 0)));
    assert!(!Console::new(0, 0).is_within_bounds(at(0, 0)));
    assert!(!Console::new(0, 5).is_within_bounds(at(0, 0)));
}

#[test]
fn put_and_delete() {
    let mut console = Console::new(3, 2);
    console.put_char('a', 0, 0);
    console.put_char('b', 2, 1);
    assert_eq!(console.screen_buffer, vec![vec![Some('a'), None, None], vec![None, None, Some('b')]]);
    console.put_char('c', 0, 0);
    console.delete_char(2, 1);
    console.delete_char(1, 1);
    assert_eq!(console.screen_buffer, vec![vec![Some('c'), None, None], vec![None, None, None]]);
}

#[test]
fn print_does_not_wrap() {
    let mut console = Console::new(6, 2);
    console.print("ab", 1, 0);
    assert_eq!(row_text(&console, 0), ".ab...");
    console.print("wxyz!", 3, 1);
    assert_eq!(row_text(&console, 1), "...wx!");
    console.print("", 5, 0);
    console.print("", 77, 99);
    assert_eq!(row_text(&console, 0), ".ab...");
    console.print("Q", 5, 0);
    assert_eq!(row_text(&console, 0), ".ab..Q");
    console.print("123456", 0, 0);
    assert_eq!(row_text(&console, 0), "123456");
    console.print("abcdefgh", 0, 0);
    assert_eq!(row_text(&console, 0), "abcdeh");
    assert_eq!(row_text(&console, 1), "...wx!");
}

#[test]
fn range_as_string_reads_row_by_row() {
    let mut console = Console::new(4, 3);
    console.print("abcd", 0, 0);
    console.print("ef", 0, 1);
    console.print("z", 3, 2);
    assert_eq!(console.get_range_as_string(at(0, 0), at(3, 0)).unwrap(), "abcd");
    assert_eq!(console.get_range_as_string(at(1, 0), at(2, 0)).unwrap(), "bc");
    assert_eq!(console.get_range_as_string(at(2, 0), at(1, 1)).unwrap(), "cdef");
    assert_eq!(console.get_range_as_string(at(0, 0), at(3, 2)).unwrap(), "abcdef     z");
    assert_eq!(console.get_range_as_string(at(3, 1), at(0, 2)).unwrap(), "  ");
}

#[test]
fn range_of_one_cell_is_empty() {
    let mut console = Console::new(4, 3);
    console.print("abcd", 0, 0);
    assert_eq!(console.get_range_as_string(at(1, 0), at(1, 0)).unwrap(), "");
    assert_eq!(console.get_range_as_string(at(1, 0), at(2, 0)).unwrap(), "bc");
}

#[test]
fn range_out_of_bounds_names_the_position() {
    let console = Console::new(4, 3);
    assert_eq!(console.get_range_as_string(at(4, 0), at(9, 9)).unwrap_err(), ConsoleError::OutOfBounds(at(4, 0)));
    assert_eq!(console.get_range_as_string(at(0, 3), at(0, 0)).unwrap_err(), ConsoleError::OutOfBounds(at(0, 3)));
    assert_eq!(console.get_range_as_string(at(0, 0), at(0, 3)).unwrap_err(), ConsoleError::OutOfBounds(at(0, 3)));
    assert_eq!(console.get_range_as_string(at(3, 2), at(4, 2)).unwrap_err(), ConsoleError::OutOfBounds(at(4, 2)));
}

fn tiny_font() -> Font {
    // two by two dots; glyph 1 is a diagonal, glyph 2 is full
    Font {
        width: 2,
        height: 2,
        glyphs: vec![vec![false; 4], vec![true, false, false, true], vec![true; 4]],
    }
}

fn framebuffer(width_pixels: usize, height_pixels: usize) -> (Framebuffer, Vec<u8>) {
    let info = FramebufferInfo { byte_len: width_pixels * height_pixels * 4, horizontal_resolution: width_pixels, vertical_resolution: height_pixels, stride: width_pixels, bytes_per_pixel: 4 };
    let screen = vec![0xaa; info.byte_len];
    (Framebuffer::from_boot_info_framebuffer(info, &screen).unwrap(), screen)
}

fn pixel(buffer: &[u8], width_pixels: usize, x: usize, y: usize) -> u32 {
    let offset = (y * width_pixels + x) * 4;
    u32::from_le_bytes([buffer[offset], buffer[offset + 1], buffer[offset + 2], buffer[offset + 3]])
}

#[test]
fn init_sizes_the_console_by_the_font() {
    let (mut fb, mut screen) = framebuffer(7, 5);
    let console = Console::init(&GraphicsSettings { width: 7, height: 5 }, &mut fb, &tiny_font(), &mut screen);
    assert_eq!((console.width(), console.height()), (2, 2));
    assert_eq!(console.screen_buffer, vec![vec![None; 2]; 2]);
    // the cursor's cell is filled, everything else is blank
    for y in 0..5 {
        for x in 0..7 {
            let expected = if x < 2 && y < 2 { FOREGROUND_COLOR } else { BACKGROUND_COLOR };
            assert_eq!(pixel(&screen, 7, x, y), expected, "at {} {}", x, y);
        }
    }
    assert_eq!(screen, fb.back_buffer);
}

#[test]
fn redraw_draws_glyphs_and_inverts_the_cursor_cell() {
    let (mut fb, mut screen) = framebuffer(6, 4);
    let font = tiny_font();
    let mut console = Console::new(2, 2);
    console.put_char('\u{1}', 0, 0);
    console.put_char('\u{1}', 1, 1);
    console.put_char('\u{9}', 1, 0);
    console.redraw_screen(&mut fb, &font, at(1, 1), &mut screen);
    let white = FOREGROUND_COLOR;
    let mut expected = vec![vec![0u32; 6]; 4];
    // glyph 1 at cell (0, 0): dots (0,0) and (1,1)
    expected[0][0] = white;
    expected[1][1] = white;
    // the cursor's cell (1, 1) starts at x = 3, y = 2: filled, with the glyph's dots in the background colour
    expected[2][4] = white;
    expected[3][3] = white;
    for y in 0..4 {
        for x in 0..6 {
            assert_eq!(pixel(&screen, 6, x, y), expected[y][x], "at {} {}", x, y);
        }
    }
    assert_eq!(screen, fb.back_buffer);
}

#[test]
fn draw_char_without_glyph_draws_nothing() {
    let (mut fb, _) = framebuffer(6, 4);
    let console = Console::new(2, 2);
    let before = fb.back_buffer.clone();
    console.draw_char(&mut fb, &tiny_font(), 'x', 0, 0, 0x123456);
    assert_eq!(fb.back_buffer, before);
    console.draw_char(&mut fb, &tiny_font(), '\u{2}', 1, 0, 0x123456);
    assert_eq!(pixel(&fb.back_buffer, 6, 3, 0), 0x123456);
    assert_eq!(pixel(&fb.back_buffer, 6, 4, 1), 0x123456);
    assert_eq!(pixel(&fb.back_buffer, 6, 2, 0), 0xaaaaaaaa);
    assert_eq!(pixel(&fb.back_buffer, 6, 5, 0), 0xaaaaaaaa);
    console.draw_cursor(&mut fb, &tiny_font(), at(0, 1), 0x0000ff);
    assert_eq!(pixel(&fb.back_buffer, 6, 0, 2), 0xff);
    assert_eq!(pixel(&fb.back_buffer, 6, 1, 3), 0xff);
    assert_eq!(pixel(&fb.back_buffer, 6, 2, 2), 0xaaaaaaaa);
}

use bmos::graphics::{psf2_t, Font, Framebuffer, FramebufferInfo, GraphicsSettings};

fn framebuffer(stride: usize, lines: usize) -> Framebuffer {
    let info = FramebufferInfo { byte_len: stride * lines * 4, horizontal_resolution: stride, vertical_resolution: lines, stride, bytes_per_pixel: 4 };
    let screen: Vec<u8> = (0..info.byte_len).map(|i| i as u8).collect();
    Framebuffer::from_boot_info_framebuffer(info, &screen).unwrap()
}

#[test]
fn back_buffer_copies_the_screen() {
    let fb = framebuffer(3, 2);
    assert_eq!(fb.fb_size, 24);
    assert_eq!(fb.fb_scanline, 12);
    assert_eq!(fb.back_buffer, (0..24).collect::<Vec<u8>>());
}

#[test]
fn back_buffer_needs_a_screen_of_the_reported_size() {
    let info = FramebufferInfo { byte_len: 8, horizontal_resolution: 2, vertical_resolution: 1, stride: 2, bytes_per_pixel: 4 };
    assert!(Framebuffer::from_boot_info_framebuffer(info, &[0; 7]).is_none());
    assert!(Framebuffer::from_boot_info_framebuffer(info, &[0; 9]).is_none());
    assert!(Framebuffer::from_boot_info_framebuffer(info, &[0; 8]).is_some());
    let huge = FramebufferInfo { byte_len: 0, horizontal_resolution: 0, vertical_resolution: 0, stride: usize::MAX, bytes_per_pixel: 2 };
    assert!(Framebuffer::from_boot_info_framebuffer(huge, &[]).is_none());
}

#[test]
fn pixel_is_four_bytes_lowest_first() {
    let mut fb = framebuffer(3, 2);
    fb.draw_pixel(1, 1, 0x11223344);
    let mut expected: Vec<u8> = (0..24).collect();
    expected[16..20].copy_from_slice(&[0x44, 0x33, 0x22, 0x11]);
    assert_eq!(fb.back_buffer, expected);
}

#[test]
fn pixel_outside_the_buffer_is_not_drawn() {
    let mut fb = framebuffer(3, 2);
    let before = fb.back_buffer.clone();
    fb.draw_pixel(0, 2, 0xffffffff);
    fb.draw_pixel(6, 0, 0xffffffff);
    fb.draw_pixel(u32::MAX, u32::MAX, 0xffffffff);
    assert_eq!(fb.back_buffer, before);
    // a pixel beyond the end of its line lands in the next line
    fb.draw_pixel(3, 0, 0);
    assert_eq!(&fb.back_buffer[12..16], &[0, 0, 0, 0]);
}

#[test]
fn rect_fills_its_pixels() {
    let mut fb = framebuffer(4, 3);
    fb.clear();
    fb.draw_rect(1, 1, 2, 2, 0x00c0ffee);
    for y in 0..3usize {
        for x in 0..4usize {
            let offset = (y * 4 + x) * 4;
            let inside = (1..3).contains(&x) && (1..3).contains(&y);
            let expected: [u8; 4] = if inside { [0xee, 0xff, 0xc0, 0x00] } else { [0; 4] };
            assert_eq!(&fb.back_buffer[offset..offset + 4], &expected, "at {} {}", x, y);
        }
    }
}

#[test]
fn empty_rect_draws_nothing() {
    let mut fb = framebuffer(4, 3);
    let before = fb.back_buffer.clone();
    fb.draw_rect(1, 1, 0, 5, 1);
    fb.draw_rect(1, 1, 5, 0, 1);
    fb.draw_rect(u32::MAX, u32::MAX, 3, 3, 1);
    assert_eq!(fb.back_buffer, before);
}

#[test]
fn rect_is_clipped_at_the_end_of_the_buffer() {
    let mut fb = framebuffer(2, 2);
    fb.clear();
    fb.draw_rect(1, 1, 3, 3, 0x01010101);
    assert_eq!(fb.back_buffer, [vec![0u8; 12], vec![1u8; 4]].concat());
}

#[test]
fn clear_and_flip() {
    let mut fb = framebuffer(2, 2);
    fb.draw_pixel(0, 0, 0xdeadbeef);
    let mut screen = vec![7u8; 16];
    fb.flip(&mut screen);
    assert_eq!(screen, fb.back_buffer);
    assert_eq!(&screen[..4], &[0xef, 0xbe, 0xad, 0xde]);
    fb.clear();
    assert_eq!(fb.back_buffer, vec![0u8; 16]);
    assert_eq!(&screen[..4], &[0xef, 0xbe, 0xad, 0xde]);
}

#[test]
fn font_glyphs_by_character_number() {
    let font = Font { width: 1, height: 2, glyphs: vec![vec![false, true], vec![true, true]] };
    assert_eq!((font.width(), font.height()), (1, 2));
    assert_eq!(font.get_char('\u{0}'), Some(&vec![false, true]));
    assert_eq!(font.get_char('\u{1}'), Some(&vec![true, true]));
    assert_eq!(font.get_char('\u{2}'), None);
    assert_eq!(font.get_char('a'), None);
}

#[test]
fn cell_without_glyph_is_filled() {
    let mut fb = framebuffer(5, 2);
    fb.clear();
    fb.draw_cell(None, 1, 2, 2, 0, 0xffffffff);
    let lit: Vec<usize> = (0..10).filter(|i| fb.back_buffer[i * 4] == 0xff).collect();
    assert_eq!(lit, vec![4, 9]);
}

#[test]
fn plain_records() {
    let settings = GraphicsSettings { width: 640, height: 480 };
    assert_eq!(settings, GraphicsSettings { width: 640, height: 480 });
    let header = psf2_t { magic: 0x864ab572, version: 0, headersize: 32, flags: 0, numglyph: 256, bytesperglyph: 16, height: 16, width: 8, glyphs: 0 };
    let copy = header;
    assert_eq!((copy.magic, copy.numglyph, header.width), (0x864ab572, 256, 8));
}

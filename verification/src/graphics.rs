use vstd::prelude::*;

verus! {

/// Resolution of the screen, in pixels.
#[derive(Debug, Clone, Copy, PartialEq, Eq, Structural)]
pub struct GraphicsSettings {
    pub width: u32,
    pub height: u32,
}

/// What the boot loader reports of the frame buffer it set up.
#[derive(Debug, Clone, Copy, PartialEq, Eq, Structural)]
pub struct FramebufferInfo {
    /// Size of the frame buffer in bytes.
    pub byte_len: usize,
    /// Pixels in a line of the screen.
    pub horizontal_resolution: usize,
    /// Lines of the screen.
    pub vertical_resolution: usize,
    /// Pixels from the start of one line to the start of the next.
    pub stride: usize,
    /// Bytes that one pixel takes.
    pub bytes_per_pixel: usize,
}

impl GraphicsSettings {
    /// The resolution that the boot loader reports, each number cut to its
    /// lower 32 bits.
    pub fn from_info(info: &FramebufferInfo) -> (settings: GraphicsSettings)
        ensures
            settings.width == (info.horizontal_resolution as int) % 0x1_0000_0000,
            settings.height == (info.vertical_resolution as int) % 0x1_0000_0000,
    {
        GraphicsSettings {
            width: (info.horizontal_resolution as u64 % 0x1_0000_0000) as u32,
            height: (info.vertical_resolution as u64 % 0x1_0000_0000) as u32,
        }
    }
}

/// Header of a version 2 PC screen font, as it lies in the font's file.
#[allow(non_camel_case_types)]
#[derive(Debug, Copy, Clone)]
pub struct psf2_t {
    pub magic: u32,
    pub version: u32,
    pub headersize: u32,
    pub flags: u32,
    pub numglyph: u32,
    pub bytesperglyph: u32,
    pub height: u32,
    pub width: u32,
    pub glyphs: u8,
}

/// The back buffer that everything is drawn into before it is copied to
/// the screen: `fb_size` bytes, `fb_scanline` of them to a line, four to a
/// pixel.
pub struct Framebuffer {
    pub back_buffer: Vec<u8>,
    pub fb_size: usize,
    pub fb_scanline: usize,
}

/// The four bytes of a pixel as they lie in memory, lowest byte first.
pub open spec fn color_bytes(color: u32) -> Seq<u8> {
    seq![
        (color & 0xff) as u8,
        ((color >> 8) & 0xff) as u8,
        ((color >> 16) & 0xff) as u8,
        ((color >> 24) & 0xff) as u8,
    ]
}

/// Offset of a pixel's first byte in a buffer with that many bytes a line.
pub open spec fn pixel_offset(scanline: usize, x: int, y: int) -> int {
    scanline * y + x * 4
}

/// A buffer after one pixel was drawn: its four bytes hold the colour. A
/// pixel whose bytes do not all lie in the buffer leaves it as it is.
pub open spec fn with_pixel(buffer: Seq<u8>, scanline: usize, x: int, y: int, color: u32) -> Seq<
    u8,
> {
    let offset = pixel_offset(scanline, x, y);
    if 0 <= offset && offset + 4 <= buffer.len() && offset + 4 <= usize::MAX {
        Seq::new(
            buffer.len(),
            |i: int|
                if offset <= i < offset + 4 {
                    color_bytes(color)[i - offset]
                } else {
                    buffer[i]
                },
        )
    } else {
        buffer
    }
}

/// A buffer after the first `count` pixels of a rectangle were drawn. The
/// pixels are drawn column by column, each column from the top down.
pub open spec fn with_rect_pixels(
    buffer: Seq<u8>,
    scanline: usize,
    x: u32,
    y: u32,
    height: u32,
    color: u32,
    count: nat,
) -> Seq<u8>
    decreases count,
{
    if count == 0 || height == 0 {
        buffer
    } else {
        let k = (count - 1) as int;
        with_pixel(
            with_rect_pixels(buffer, scanline, x, y, height, color, k as nat),
            scanline,
            x + k / (height as int),
            y + k % (height as int),
            color,
        )
    }
}

/// A screen font: every glyph is `height` rows of `width` dots, and the
/// glyph of a character stands at the place of the character's number.
pub struct Font {
    pub width: u32,
    pub height: u32,
    pub glyphs: Vec<Vec<bool>>,
}

impl Font {
    /// The glyphs are not empty, and each has a dot for every place.
    pub open spec fn wf(&self) -> bool {
        &&& 1 <= self.width < u32::MAX
        &&& 1 <= self.height
        &&& forall|i: int|
            0 <= i < self.glyphs@.len() ==> (#[trigger] self.glyphs@[i])@.len() == self.width
                * self.height
    }

    /// The dots of a character's glyph, row by row; nothing for a
    /// character that the font does not have.
    pub open spec fn glyph(&self, c: char) -> Option<Seq<bool>> {
        if (c as u32) < self.glyphs@.len() {
            Some(self.glyphs@[c as u32 as int]@)
        } else {
            None
        }
    }

    /// Whether the font is well formed.
    pub fn is_well_formed(&self) -> (well_formed: bool)
        ensures
            well_formed == self.wf(),
    {
        if self.width < 1 || self.width == u32::MAX || self.height < 1 {
            return false;
        }
        assert(self.width * self.height <= 0xffff_ffff * 0xffff_ffff) by (nonlinear_arith)
            requires
                self.width <= 0xffff_ffff,
                self.height <= 0xffff_ffff,
        ;
        let dots: u64 = self.width as u64 * self.height as u64;
        let mut i: usize = 0;
        while i < self.glyphs.len()
            invariant
                i <= self.glyphs@.len(),
                dots == self.width * self.height,
                1 <= self.width < u32::MAX,
                1 <= self.height,
                forall|j: int| 0 <= j < i ==> (#[trigger] self.glyphs@[j])@.len() == dots,
            decreases self.glyphs@.len() - i,
        {
            if self.glyphs[i].len() as u64 != dots {
                return false;
            }
            i += 1;
        }
        true
    }

    /// Width of every glyph, in dots.
    pub fn width(&self) -> (width: u32)
        ensures
            width == self.width,
    {
        self.width
    }

    /// Height of every glyph, in dots.
    pub fn height(&self) -> (height: u32)
        ensures
            height == self.height,
    {
        self.height
    }

    /// The glyph of a character, if the font has one.
    pub fn get_char(&self, c: char) -> (glyph: Option<&Vec<bool>>)
        ensures
            match glyph {
                Some(dots) => self.glyph(c) == Some(dots@),
                None => self.glyph(c) is None,
            },
    {
        let number: usize = c as u32 as usize;
        if number < self.glyphs.len() {
            Some(&self.glyphs[number])
        } else {
            None
        }
    }
}

/// A buffer after the first `count` dots of a character cell were gone
/// through, row by row. The cell at a column and row of the console lies
/// one dot apart from the next. With a glyph, its set dots are drawn;
/// without one, every dot is.
pub open spec fn with_cell_dots(
    buffer: Seq<u8>,
    scanline: usize,
    glyph: Option<Seq<bool>>,
    width: u32,
    height: u32,
    column: u32,
    row: u32,
    color: u32,
    count: nat,
) -> Seq<u8>
    decreases count,
{
    if count == 0 || width == 0 {
        buffer
    } else {
        let k = (count - 1) as int;
        let before = with_cell_dots(
            buffer,
            scanline,
            glyph,
            width,
            height,
            column,
            row,
            color,
            k as nat,
        );
        if glyph is None || glyph.unwrap()[k] {
            with_pixel(
                before,
                scanline,
                (width + 1) * column + k % (width as int),
                height * row + k / (width as int),
                color,
            )
        } else {
            before
        }
    }
}

impl Framebuffer {
    /// Goes through the dots of a character cell row by row and draws the
    /// set dots of the glyph, or every dot where no glyph is given.
    pub fn draw_cell(
        &mut self,
        glyph: Option<&Vec<bool>>,
        width: u32,
        height: u32,
        column: u32,
        row: u32,
        color: u32,
    )
        requires
            old(self).wf(),
            width >= 1,
            glyph is Some ==> glyph.unwrap()@.len() == width * height,
            (width + 1) * (column + 1) <= u32::MAX,
            height * (row + 1) <= u32::MAX,
        ensures
            final(self).wf(),
            final(self).fb_size == old(self).fb_size,
            final(self).fb_scanline == old(self).fb_scanline,
            final(self).back_buffer@ == with_cell_dots(
                old(self).back_buffer@,
                old(self).fb_scanline,
                match glyph {
                    Some(dots) => Some(dots@),
                    None => None,
                },
                width,
                height,
                column,
                row,
                color,
                (width * height) as nat,
            ),
    {
        let ghost before = self.back_buffer@;
        let ghost scanline = self.fb_scanline;
        let ghost dots: Option<Seq<bool>> = match glyph {
            Some(dots) => Some(dots@),
            None => None,
        };
        proof {
            assert((width + 1) * column + width < (width + 1) * (column + 1)) by (nonlinear_arith);
            assert(height * row + height == height * (row + 1)) by (nonlinear_arith);
        }
        let left: u64 = (width as u64 + 1) * column as u64;
        let top: u64 = height as u64 * row as u64;
        let mut dot_y: u32 = 0;
        while dot_y < height
            invariant
                dot_y <= height,
                width >= 1,
                self.wf(),
                self.fb_size == old(self).fb_size,
                self.fb_scanline == scanline,
                left == (width + 1) * column,
                top == height * row,
                left + width <= u32::MAX,
                top + height <= u32::MAX,
                glyph is Some ==> glyph.unwrap()@.len() == width * height,
                dots == match glyph {
                    Some(dots) => Some(dots@),
                    None => None::<Seq<bool>>,
                },
                self.back_buffer@ == with_cell_dots(
                    before,
                    scanline,
                    dots,
                    width,
                    height,
                    column,
                    row,
                    color,
                    (dot_y * width) as nat,
                ),
            decreases height - dot_y,
        {
            let mut dot_x: u32 = 0;
            while dot_x < width
                invariant
                    dot_y < height,
                    dot_x <= width,
                    width >= 1,
                    self.wf(),
                    self.fb_size == old(self).fb_size,
                    self.fb_scanline == scanline,
                    left == (width + 1) * column,
                    top == height * row,
                    left + width <= u32::MAX,
                    top + height <= u32::MAX,
                    glyph is Some ==> glyph.unwrap()@.len() == width * height,
                    dots == match glyph {
                        Some(dots) => Some(dots@),
                        None => None::<Seq<bool>>,
                    },
                    self.back_buffer@ == with_cell_dots(
                        before,
                        scanline,
                        dots,
                        width,
                        height,
                        column,
                        row,
                        color,
                        (dot_y * width + dot_x) as nat,
                    ),
                decreases width - dot_x,
            {
                proof {
                    let k = (dot_y * width + dot_x) as int;
                    assert(k / (width as int) == dot_y && k % (width as int) == dot_x) by {
                        vstd::arithmetic::div_mod::lemma_fundamental_div_mod_converse(
                            k,
                            width as int,
                            dot_y as int,
                            dot_x as int,
                        );
                    }
                    assert(dot_y * width + dot_x < width * height) by (nonlinear_arith)
                        requires
                            dot_y < height,
                            dot_x < width,
                    ;
                }
                proof {
                    assert(dot_y * width <= 0xffff_ffff * 0xffff_ffff) by (nonlinear_arith)
                        requires
                            dot_y <= 0xffff_ffff,
                            width <= 0xffff_ffff,
                    ;
                }
                let place: u64 = dot_y as u64 * width as u64 + dot_x as u64;
                let set = match glyph {
                    Some(bits) => {
                        let length: usize = bits.len();
                        assert(place < length);
                        let index: usize = place as usize;
                        bits[index]
                    },
                    None => true,
                };
                if set {
                    self.draw_pixel_at(left + dot_x as u64, top + dot_y as u64, color);
                }
                dot_x += 1;
            }
            proof {
                assert(dot_y * width + width == (dot_y + 1) * width) by (nonlinear_arith);
            }
            dot_y += 1;
        }
        proof {
            assert(height * width == width * height) by (nonlinear_arith);
        }
    }

    /// The buffer holds as many bytes as the frame buffer it shadows.
    pub open spec fn wf(&self) -> bool {
        self.back_buffer@.len() == self.fb_size
    }

    /// A back buffer for the boot loader's frame buffer, holding a copy of
    /// what the screen shows. Nothing is made when the screen's contents are
    /// not of the reported size, or when a line's length in bytes does not
    /// fit a machine word.
    pub fn from_boot_info_framebuffer(info: FramebufferInfo, screen: &[u8]) -> (made: Option<
        Framebuffer,
    >)
        ensures
            made is Some <==> screen@.len() == info.byte_len && info.stride * info.bytes_per_pixel
                <= usize::MAX,
            made is Some ==> {
                &&& made.unwrap().wf()
                &&& made.unwrap().back_buffer@ == screen@
                &&& made.unwrap().fb_size == info.byte_len
                &&& made.unwrap().fb_scanline == info.stride * info.bytes_per_pixel
            },
    {
        if screen.len() != info.byte_len {
            return None;
        }
        let fb_scanline: usize = match info.stride.checked_mul(info.bytes_per_pixel) {
            Some(scanline) => scanline,
            None => {
                return None;
            },
        };
        let mut back_buffer: Vec<u8> = Vec::new();
        let mut i: usize = 0;
        while i < screen.len()
            invariant
                i <= screen@.len(),
                back_buffer@ == screen@.subrange(0, i as int),
            decreases screen@.len() - i,
        {
            back_buffer.push(screen[i]);
            i += 1;
            assert(back_buffer@ =~= screen@.subrange(0, i as int));
        }
        assert(screen@.subrange(0, i as int) =~= screen@);
        Some(Framebuffer { fb_size: info.byte_len, back_buffer, fb_scanline })
    }

    /// Draws one pixel into the back buffer. A pixel that lies outside the
    /// buffer is not drawn.
    pub fn draw_pixel(&mut self, x: u32, y: u32, color: u32)
        requires
            old(self).wf(),
        ensures
            final(self).wf(),
            final(self).fb_size == old(self).fb_size,
            final(self).fb_scanline == old(self).fb_scanline,
            final(self).back_buffer@ == with_pixel(
                old(self).back_buffer@,
                old(self).fb_scanline,
                x as int,
                y as int,
                color,
            ),
    {
        self.draw_pixel_at(x as u64, y as u64, color);
    }

    /// Draws the pixel at coordinates that may lie beyond the range of a
    /// screen coordinate, where nothing is drawn.
    pub(crate) fn draw_pixel_at(&mut self, x: u64, y: u64, color: u32)
        requires
            old(self).wf(),
            x <= 2 * u32::MAX,
            y <= 2 * u32::MAX,
        ensures
            final(self).wf(),
            final(self).fb_size == old(self).fb_size,
            final(self).fb_scanline == old(self).fb_scanline,
            final(self).back_buffer@ == with_pixel(
                old(self).back_buffer@,
                old(self).fb_scanline,
                x as int,
                y as int,
                color,
            ),
    {
        let ghost before = self.back_buffer@;
        let ghost offset_spec = pixel_offset(self.fb_scanline, x as int, y as int);
        assert(self.fb_scanline * y <= 0xffff_ffff_ffff_ffff * 0x2_0000_0000) by (nonlinear_arith)
            requires
                self.fb_scanline <= 0xffff_ffff_ffff_ffff,
                y <= 0x2_0000_0000,
        ;
        let line: u128 = (self.fb_scanline as u128) * (y as u128);
        let offset: u128 = line + (x as u128) * 4;
        if offset + 4 <= self.back_buffer.len() as u128 {
            let first: usize = offset as usize;
            self.back_buffer[first] = (color & 0xff) as u8;
            self.back_buffer[first + 1] = ((color >> 8) & 0xff) as u8;
            self.back_buffer[first + 2] = ((color >> 16) & 0xff) as u8;
            self.back_buffer[first + 3] = ((color >> 24) & 0xff) as u8;
            assert(self.back_buffer@ =~= with_pixel(
                before,
                self.fb_scanline,
                x as int,
                y as int,
                color,
            ));
        }
    }

    /// Fills a rectangle, column by column. Pixels outside the buffer are
    /// not drawn.
    pub fn draw_rect(&mut self, x: u32, y: u32, width: u32, height: u32, color: u32)
        requires
            old(self).wf(),
        ensures
            final(self).wf(),
            final(self).fb_size == old(self).fb_size,
            final(self).fb_scanline == old(self).fb_scanline,
            final(self).back_buffer@ == with_rect_pixels(
                old(self).back_buffer@,
                old(self).fb_scanline,
                x,
                y,
                height,
                color,
                (width * height) as nat,
            ),
    {
        let ghost before = self.back_buffer@;
        let ghost scanline = self.fb_scanline;
        let mut xo: u32 = 0;
        while xo < width
            invariant
                xo <= width,
                self.wf(),
                self.fb_size == old(self).fb_size,
                self.fb_scanline == scanline,
                self.back_buffer@ == with_rect_pixels(
                    before,
                    scanline,
                    x,
                    y,
                    height,
                    color,
                    (xo * height) as nat,
                ),
            decreases width - xo,
        {
            let mut yo: u32 = 0;
            while yo < height
                invariant
                    xo < width,
                    yo <= height,
                    self.wf(),
                    self.fb_size == old(self).fb_size,
                    self.fb_scanline == scanline,
                    self.back_buffer@ == with_rect_pixels(
                        before,
                        scanline,
                        x,
                        y,
                        height,
                        color,
                        (xo * height + yo) as nat,
                    ),
                decreases height - yo,
            {
                proof {
                    let k = (xo * height + yo) as int;
                    assert(k / (height as int) == xo && k % (height as int) == yo) by {
                        vstd::arithmetic::div_mod::lemma_fundamental_div_mod_converse(
                            k,
                            height as int,
                            xo as int,
                            yo as int,
                        );
                    }
                }
                self.draw_pixel_at(x as u64 + xo as u64, y as u64 + yo as u64, color);
                yo += 1;
            }
            proof {
                assert(xo * height + height == (xo + 1) * height) by (nonlinear_arith);
            }
            xo += 1;
        }
        proof {
            if height == 0 {
                assert(width * height == 0) by (nonlinear_arith)
                    requires
                        height == 0,
                ;
            }
        }
    }

    /// Blanks the back buffer.
    pub fn clear(&mut self)
        requires
            old(self).wf(),
        ensures
            final(self).wf(),
            final(self).fb_size == old(self).fb_size,
            final(self).fb_scanline == old(self).fb_scanline,
            forall|i: int| 0 <= i < final(self).back_buffer@.len() ==> final(self).back_buffer@[i] == 0,
    {
        let mut i: usize = 0;
        while i < self.back_buffer.len()
            invariant
                self.wf(),
                self.fb_size == old(self).fb_size,
                self.fb_scanline == old(self).fb_scanline,
                i <= self.back_buffer@.len(),
                forall|j: int| 0 <= j < i ==> self.back_buffer@[j] == 0,
            decreases self.back_buffer@.len() - i,
        {
            self.back_buffer[i] = 0;
            i += 1;
        }
    }

    /// Copies the back buffer to the screen, which must be of its size.
    pub fn flip(&self, screen: &mut [u8])
        requires
            self.wf(),
            old(screen)@.len() == self.fb_size,
        ensures
            final(screen)@ == self.back_buffer@,
    {
        let mut i: usize = 0;
        while i < self.back_buffer.len()
            invariant
                i <= self.back_buffer@.len(),
                screen@.len() == self.back_buffer@.len(),
                forall|j: int| 0 <= j < i ==> screen@[j] == self.back_buffer@[j],
            decreases self.back_buffer@.len() - i,
        {
            screen[i] = self.back_buffer[i];
            i += 1;
        }
        assert(screen@ =~= self.back_buffer@);
    }
}

/// Column of the pixel that a byte of the buffer belongs to.
pub open spec fn pixel_column(scanline: usize, i: int) -> int {
    (i % (scanline as int)) / 4
}

/// Line of the pixel that a byte of the buffer belongs to.
pub open spec fn pixel_line(scanline: usize, i: int) -> int {
    i / (scanline as int)
}

/// Whether a pixel lies in a rectangle.
pub open spec fn in_rect(column: int, line: int, x: u32, y: u32, width: u32, height: u32) -> bool {
    x <= column < x + width && y <= line < y + height
}

/// Drawing a pixel that lies on its line and in the buffer sets the bytes
/// of that pixel and no others.
proof fn lemma_pixel_on_screen(
    buffer: Seq<u8>,
    scanline: usize,
    column: int,
    line: int,
    color: u32,
    i: int,
)
    requires
        0 <= column,
        0 <= line,
        4 * column + 4 <= scanline,
        scanline * (line + 1) <= buffer.len() <= usize::MAX,
        0 <= i < buffer.len(),
    ensures
        with_pixel(buffer, scanline, column, line, color).len() == buffer.len(),
        with_pixel(buffer, scanline, column, line, color)[i] == if pixel_column(scanline, i)
            == column && pixel_line(scanline, i) == line {
            color_bytes(color)[(i % (scanline as int)) % 4]
        } else {
            buffer[i]
        },
{
    let s = scanline as int;
    let offset = pixel_offset(scanline, column, line);
    assert(s * (line + 1) == s * line + s) by (nonlinear_arith);
    assert(0 <= s * line) by (nonlinear_arith)
        requires
            0 <= s,
            0 <= line,
    ;
    assert(offset == s * line + 4 * column);
    vstd::arithmetic::div_mod::lemma_fundamental_div_mod(i, s);
    vstd::arithmetic::div_mod::lemma_mod_bound(i, s);
    let r = i % s;
    let q = i / s;
    assert(i == s * q + r);
    if offset <= i < offset + 4 {
        let d = i - offset;
        assert(line * s == s * line) by (nonlinear_arith);
        vstd::arithmetic::div_mod::lemma_fundamental_div_mod_converse(i, s, line, 4 * column + d);
        assert(q == line && r == 4 * column + d);
        assert(r / 4 == column && r % 4 == d) by {
            vstd::arithmetic::div_mod::lemma_fundamental_div_mod_converse(r, 4, column, d);
        }
    } else {
        if q == line && r / 4 == column {
            vstd::arithmetic::div_mod::lemma_fundamental_div_mod(r, 4);
            vstd::arithmetic::div_mod::lemma_mod_bound(r, 4);
            assert(r == 4 * column + r % 4);
            assert(i == s * line + r);
            assert(false);
        }
    }
}

/// The bytes of a buffer after the first `count` pixels of a rectangle
/// that lies on the screen were drawn.
proof fn lemma_rect_pixels(
    buffer: Seq<u8>,
    scanline: usize,
    x: u32,
    y: u32,
    width: u32,
    height: u32,
    color: u32,
    count: nat,
    i: int,
)
    requires
        4 * (x + width) <= scanline,
        scanline * (y + height) <= buffer.len() <= usize::MAX,
        count <= width * height,
        0 <= i < buffer.len(),
    ensures
        with_rect_pixels(buffer, scanline, x, y, height, color, count).len() == buffer.len(),
        with_rect_pixels(buffer, scanline, x, y, height, color, count)[i] == if in_rect(
            pixel_column(scanline, i),
            pixel_line(scanline, i),
            x,
            y,
            width,
            height,
        ) && (pixel_column(scanline, i) - x) * height + (pixel_line(scanline, i) - y) < count {
            color_bytes(color)[(i % (scanline as int)) % 4]
        } else {
            buffer[i]
        },
    decreases count,
{
    if count > 0 && height > 0 {
        let k = (count - 1) as int;
        let h = height as int;
        lemma_rect_pixels(buffer, scanline, x, y, width, height, color, k as nat, i);
        let before = with_rect_pixels(buffer, scanline, x, y, height, color, k as nat);
        vstd::arithmetic::div_mod::lemma_fundamental_div_mod(k, h);
        vstd::arithmetic::div_mod::lemma_mod_bound(k, h);
        let a = k / h;
        let b = k % h;
        assert(0 <= a) by (nonlinear_arith)
            requires
                0 <= k,
                0 < h,
                a == k / h,
        ;
        assert(a < width) by (nonlinear_arith)
            requires
                k == h * a + b,
                0 <= b,
                k < width * h,
                0 < h,
        ;
        let column = x + a;
        let line = y + b;
        let s = scanline as int;
        assert(s * (line + 1) <= s * (y + height)) by (nonlinear_arith)
            requires
                line + 1 <= y + height,
                0 <= s,
        ;
        lemma_pixel_on_screen(before, scanline, column, line, color, i);
        let c = pixel_column(scanline, i);
        let l = pixel_line(scanline, i);
        if in_rect(c, l, x, y, width, height) {
            let place = (c - x) * h + (l - y);
            if c == column && l == line {
                assert(place == h * a + b) by (nonlinear_arith)
                    requires
                        place == (c - x) * h + (l - y),
                        c - x == a,
                        l - y == b,
                ;
            } else {
                if place == k {
                    vstd::arithmetic::div_mod::lemma_fundamental_div_mod_converse(
                        k,
                        h,
                        c - x,
                        l - y,
                    );
                    assert(false);
                }
            }
        }
    } else if count > 0 {
        assert(width * height == 0) by (nonlinear_arith)
            requires
                height == 0,
        ;
    }
}

/// A rectangle that lies on the screen, with every line of it within a
/// line of the buffer, is filled with the colour, and nothing else is
/// drawn over: a byte of the buffer holds its byte of the colour if its
/// pixel lies in the rectangle, and what it held before if not.
pub proof fn law_rect_is_filled(
    buffer: Seq<u8>,
    scanline: usize,
    x: u32,
    y: u32,
    width: u32,
    height: u32,
    color: u32,
    i: int,
)
    requires
        4 * (x + width) <= scanline,
        scanline * (y + height) <= buffer.len() <= usize::MAX,
        0 <= i < buffer.len(),
    ensures
        with_rect_pixels(buffer, scanline, x, y, height, color, (width * height) as nat).len()
            == buffer.len(),
        with_rect_pixels(buffer, scanline, x, y, height, color, (width * height) as nat)[i]
            == if in_rect(
            pixel_column(scanline, i),
            pixel_line(scanline, i),
            x,
            y,
            width,
            height,
        ) {
            color_bytes(color)[(i % (scanline as int)) % 4]
        } else {
            buffer[i]
        },
{
    assert(0 <= width * height) by (nonlinear_arith);
    lemma_rect_pixels(buffer, scanline, x, y, width, height, color, (width * height) as nat, i);
    let c = pixel_column(scanline, i);
    let l = pixel_line(scanline, i);
    if in_rect(c, l, x, y, width, height) {
        assert((c - x) * height + (l - y) < width * height) by (nonlinear_arith)
            requires
                0 <= c - x < width,
                0 <= l - y < height,
        ;
    }
}

} // verus!

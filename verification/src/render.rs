use vstd::prelude::*;

use crate::attributed_char::AttributedChar;
use crate::buffer::{buffer_char, Buffer};
use crate::fonts::BitFont;
use crate::geometry::{rect_in_range, Position, Rectangle, Size};
use crate::palette::Color;
use crate::text_attribute::TextAttribute;

verus! {

/// The palette index that a cell's foreground is drawn in: a bold cell on
/// one of the eight basic colors is drawn in the bright one.
pub open spec fn drawn_foreground(a: TextAttribute) -> int {
    if a.bold && a.foreground_color < 8 { a.foreground_color + 8 } else { a.foreground_color as int }
}

/// The smaller of two sizes.
pub open spec fn min_nat(a: nat, b: nat) -> nat {
    if a < b { a } else { b }
}

/// Whether pixel `cx` of a glyph row is set; the leftmost pixel is the
/// highest bit.
pub open spec fn glyph_bit(row: u8, cx: int) -> bool {
    row & (128u8 >> (cx as u8)) != 0
}

/// The cell of the buffer at `x`, `y` counted from the corner of `rect`.
pub open spec fn rect_char(b: Buffer, rect: Rectangle, x: int, y: int) -> AttributedChar {
    buffer_char(b, Position { x: (rect.start.x + x) as i32, y: (rect.start.y + y) as i32 })
}

/// Whether pixel `cx`, `cy` of a cell is drawn: the cell's font has a glyph
/// for it and the pixel lies in both that font's size and `fs`.
pub open spec fn pixel_drawn(f: BitFont, ch: AttributedChar, fs: Size, cx: int, cy: int) -> bool {
    &&& (ch.ch as int) < f.glyphs@.len()
    &&& cy < min_nat(f.size.height as nat, fs.height as nat)
    &&& cx < min_nat(f.size.width as nat, fs.width as nat)
}

/// The four bytes (red, green, blue, alpha) of pixel `cx`, `cy` of cell
/// `ch` in cells of `fs` pixels: the foreground or background color where
/// the glyph is drawn, all zero elsewhere.
pub open spec fn pixel_bytes(b: Buffer, ch: AttributedChar, fs: Size, cx: int, cy: int) -> Seq<u8> {
    let f = b.font_table@[ch.font_page];
    if pixel_drawn(f, ch, fs, cx, cy) {
        let c: Color = if glyph_bit(f.glyphs@[ch.ch as int].data@[cy], cx) {
            b.palette.colors@[drawn_foreground(ch.attribute)]
        } else {
            b.palette.colors@[ch.attribute.background_color as int]
        };
        seq![c.r, c.g, c.b, 0xFFu8]
    } else {
        seq![0u8, 0u8, 0u8, 0u8]
    }
}

/// The first `n` pixels of pixel row `cy` of cell `ch`.
pub open spec fn cell_line(b: Buffer, ch: AttributedChar, fs: Size, cy: int, n: int) -> Seq<u8>
    decreases n,
{
    if n <= 0 {
        Seq::empty()
    } else {
        cell_line(b, ch, fs, cy, n - 1) + pixel_bytes(b, ch, fs, n - 1, cy)
    }
}

/// Pixel row `cy` of text row `y` of `rect`, over its first `n` cells.
pub open spec fn text_line(b: Buffer, rect: Rectangle, fs: Size, y: int, cy: int, n: int) -> Seq<u8>
    decreases n,
{
    if n <= 0 {
        Seq::empty()
    } else {
        text_line(b, rect, fs, y, cy, n - 1) + cell_line(b, rect_char(b, rect, n - 1, y), fs, cy, fs.width as int)
    }
}

/// The first `n` pixel rows of text row `y` of `rect`.
pub open spec fn text_row(b: Buffer, rect: Rectangle, fs: Size, y: int, n: int) -> Seq<u8>
    decreases n,
{
    if n <= 0 {
        Seq::empty()
    } else {
        text_row(b, rect, fs, y, n - 1) + text_line(b, rect, fs, y, n - 1, rect.size.width as int)
    }
}

/// The pixels of the first `n` text rows of `rect`, row after row.
pub open spec fn rgba_rows(b: Buffer, rect: Rectangle, fs: Size, n: int) -> Seq<u8>
    decreases n,
{
    if n <= 0 {
        Seq::empty()
    } else {
        rgba_rows(b, rect, fs, n - 1) + text_row(b, rect, fs, n - 1, fs.height as int)
    }
}

/// A cell can be drawn: its font is in the table, its colors are in the
/// palette, and where its font has a glyph for it, the glyph has the rows
/// that are drawn and the drawn width fits a byte.
pub open spec fn cell_drawable(b: Buffer, ch: AttributedChar, fs: Size) -> bool {
    let f = b.font_table@[ch.font_page];
    &&& b.font_table@.contains_key(ch.font_page)
    &&& drawn_foreground(ch.attribute) < b.palette.colors@.len()
    &&& ch.attribute.background_color < b.palette.colors@.len()
    &&& (ch.ch as int) < f.glyphs@.len() ==> {
        &&& min_nat(f.size.height as nat, fs.height as nat) <= f.glyphs@[ch.ch as int].data@.len()
        &&& min_nat(f.size.width as nat, fs.width as nat) <= 8
    }
}

/// `rect` of the buffer can be drawn: the first font page has a font, whose
/// size is the size of each cell, every cell in `rect` can be drawn and the
/// picture's size fits the machine.
pub open spec fn rect_drawable(b: Buffer, rect: Rectangle) -> bool {
    let fs = b.font_table@[0].size;
    &&& b.font_table@.contains_key(0)
    &&& rect_in_range(rect)
    &&& rect.size.width * fs.width <= usize::MAX
    &&& rect.size.height * fs.height <= usize::MAX
    &&& forall|x: int, y: int|
        0 <= x < rect.size.width && 0 <= y < rect.size.height ==> cell_drawable(b, #[trigger] rect_char(b, rect, x, y), fs)
}

proof fn lemma_cell_line_len(b: Buffer, ch: AttributedChar, fs: Size, cy: int, n: int)
    requires
        n >= 0,
    ensures
        cell_line(b, ch, fs, cy, n).len() == 4 * n,
    decreases n,
{
    if n > 0 {
        lemma_cell_line_len(b, ch, fs, cy, n - 1);
    }
}

proof fn lemma_text_line_len(b: Buffer, rect: Rectangle, fs: Size, y: int, cy: int, n: int)
    requires
        n >= 0,
    ensures
        text_line(b, rect, fs, y, cy, n).len() == 4 * fs.width * n,
    decreases n,
{
    if n > 0 {
        lemma_text_line_len(b, rect, fs, y, cy, n - 1);
        lemma_cell_line_len(b, rect_char(b, rect, n - 1, y), fs, cy, fs.width as int);
        let k = 4 * fs.width;
        assert(k * (n - 1) + k == k * n) by (nonlinear_arith);
    } else {
        let k = 4 * fs.width;
        assert(k * n == 0) by (nonlinear_arith) requires n == 0;
    }
}

proof fn lemma_text_row_len(b: Buffer, rect: Rectangle, fs: Size, y: int, n: int)
    requires
        n >= 0,
    ensures
        text_row(b, rect, fs, y, n).len() == 4 * fs.width * rect.size.width * n,
    decreases n,
{
    if n > 0 {
        lemma_text_row_len(b, rect, fs, y, n - 1);
        lemma_text_line_len(b, rect, fs, y, n - 1, rect.size.width as int);
        let k = 4 * fs.width * rect.size.width;
        assert(k * (n - 1) + k == k * n) by (nonlinear_arith);
    } else {
        let k = 4 * fs.width * rect.size.width;
        assert(k * n == 0) by (nonlinear_arith) requires n == 0;
    }
}

proof fn lemma_rgba_rows_len(b: Buffer, rect: Rectangle, fs: Size, n: int)
    requires
        n >= 0,
    ensures
        rgba_rows(b, rect, fs, n).len() == 4 * fs.width * rect.size.width * fs.height * n,
    decreases n,
{
    if n > 0 {
        lemma_rgba_rows_len(b, rect, fs, n - 1);
        lemma_text_row_len(b, rect, fs, n - 1, fs.height as int);
        let k = 4 * fs.width * rect.size.width * fs.height;
        assert(k * (n - 1) + k == k * n) by (nonlinear_arith);
    } else {
        let k = 4 * fs.width * rect.size.width * fs.height;
        assert(k * n == 0) by (nonlinear_arith) requires n == 0;
    }
}

impl Buffer {
    /// The four bytes of pixel `cx`, `cy` of cell `ch`.
    fn draw_pixel(&self, ch: AttributedChar, fs: Size, cx: usize, cy: usize) -> (res: [u8; 4])
        requires
            cell_drawable(*self, ch, fs),
        ensures
            res@ == pixel_bytes(*self, ch, fs, cx as int, cy as int),
    {
        let f = match self.font_table.get(&ch.font_page) {
            Some(f) => f,
            None => {
                return [0u8, 0u8, 0u8, 0u8];
            },
        };
        let code = ch.ch as u32 as usize;
        let h = if f.size.height < fs.height { f.size.height } else { fs.height };
        let w = if f.size.width < fs.width { f.size.width } else { fs.width };
        if code < f.glyphs.len() && cy < h && cx < w {
            let row = f.glyphs[code].data[cy];
            let c = if row & (128u8 >> (cx as u8)) != 0 {
                let a = ch.attribute;
                let fg = if a.is_bold() && a.get_foreground() < 8 { a.get_foreground() + 8 } else { a.get_foreground() };
                self.palette.colors[fg as usize]
            } else {
                self.palette.colors[ch.attribute.get_background() as usize]
            };
            let res = [c.r, c.g, c.b, 0xFFu8];
            assert(res@ =~= pixel_bytes(*self, ch, fs, cx as int, cy as int));
            res
        } else {
            let res = [0u8, 0u8, 0u8, 0u8];
            assert(res@ =~= pixel_bytes(*self, ch, fs, cx as int, cy as int));
            res
        }
    }

    /// Appends pixel row `cy` of cell `ch` to `pixels`.
    fn draw_cell_line(&self, pixels: &mut Vec<u8>, ch: AttributedChar, fs: Size, cy: usize)
        requires
            cell_drawable(*self, ch, fs),
        ensures
            final(pixels)@ == old(pixels)@ + cell_line(*self, ch, fs, cy as int, fs.width as int),
    {
        let mut cx: usize = 0;
        while cx < fs.width
            invariant
                cell_drawable(*self, ch, fs),
                cx <= fs.width,
                pixels@ == old(pixels)@ + cell_line(*self, ch, fs, cy as int, cx as int),
            decreases fs.width - cx,
        {
            let p = self.draw_pixel(ch, fs, cx, cy);
            let ghost before = pixels@;
            pixels.push(p[0]);
            pixels.push(p[1]);
            pixels.push(p[2]);
            pixels.push(p[3]);
            cx += 1;
            assert(pixels@ =~= old(pixels)@ + cell_line(*self, ch, fs, cy as int, cx as int)) by {
                assert(pixels@ =~= before + p@);
            }
        }
    }

    /// `rect` of the buffer drawn with its fonts: each cell drawn in the size
    /// of the font of the first page, rows of pixels from top to bottom, four
    /// bytes (red, green, blue, alpha) per pixel. The layers' sixel pictures
    /// are not drawn.
    pub fn render_to_rgba(&self, rect: Rectangle) -> (res: (Size, Vec<u8>))
        requires
            rect_drawable(*self, rect),
        ensures
            res.0.width == rect.size.width * self.font_table@[0].size.width,
            res.0.height == rect.size.height * self.font_table@[0].size.height,
            res.1@ == rgba_rows(*self, rect, self.font_table@[0].size, rect.size.height as int),
            res.1@.len() == 4 * res.0.width * res.0.height,
    {
        let fs = match self.font_table.get(&0) {
            Some(f) => f.size,
            None => Size { width: 0, height: 0 },
        };
        let px_width = rect.size.width * fs.width;
        let px_height = rect.size.height * fs.height;
        let mut pixels: Vec<u8> = Vec::new();
        let mut y: usize = 0;
        while y < rect.size.height
            invariant
                rect_drawable(*self, rect),
                fs == self.font_table@[0].size,
                y <= rect.size.height,
                pixels@ == rgba_rows(*self, rect, fs, y as int),
            decreases rect.size.height - y,
        {
            let mut cells: Vec<AttributedChar> = Vec::new();
            let mut x: usize = 0;
            while x < rect.size.width
                invariant
                    rect_drawable(*self, rect),
                    y < rect.size.height,
                    x <= rect.size.width,
                    cells@.len() == x,
                    forall|i: int| 0 <= i < x ==> cells@[i] == rect_char(*self, rect, i, y as int),
                decreases rect.size.width - x,
            {
                let pos = Position { x: rect.start.x + x as i32, y: rect.start.y + y as i32 };
                cells.push(self.get_char(pos));
                x += 1;
            }
            let ghost start = pixels@;
            let mut cy: usize = 0;
            while cy < fs.height
                invariant
                    rect_drawable(*self, rect),
                    fs == self.font_table@[0].size,
                    y < rect.size.height,
                    cells@.len() == rect.size.width,
                    forall|i: int| 0 <= i < rect.size.width ==> cells@[i] == rect_char(*self, rect, i, y as int),
                    cy <= fs.height,
                    pixels@ == start + text_row(*self, rect, fs, y as int, cy as int),
                decreases fs.height - cy,
            {
                let ghost row_start = pixels@;
                let mut x: usize = 0;
                while x < rect.size.width
                    invariant
                        rect_drawable(*self, rect),
                        fs == self.font_table@[0].size,
                        y < rect.size.height,
                        cells@.len() == rect.size.width,
                        forall|i: int| 0 <= i < rect.size.width ==> cells@[i] == rect_char(*self, rect, i, y as int),
                        x <= rect.size.width,
                        pixels@ == row_start + text_line(*self, rect, fs, y as int, cy as int, x as int),
                    decreases rect.size.width - x,
                {
                    let ch = cells[x];
                    assert(cell_drawable(*self, rect_char(*self, rect, x as int, y as int), fs));
                    self.draw_cell_line(&mut pixels, ch, fs, cy);
                    x += 1;
                    assert(pixels@ =~= row_start + text_line(*self, rect, fs, y as int, cy as int, x as int));
                }
                cy += 1;
                assert(pixels@ =~= start + text_row(*self, rect, fs, y as int, cy as int));
            }
            y += 1;
            assert(pixels@ =~= rgba_rows(*self, rect, fs, y as int));
        }
        proof {
            lemma_rgba_rows_len(*self, rect, fs, rect.size.height as int);
            assert(4 * fs.width * rect.size.width * fs.height * rect.size.height == 4 * (rect.size.width * fs.width) * (
            rect.size.height * fs.height)) by (nonlinear_arith);
        }
        (Size { width: px_width, height: px_height }, pixels)
    }
}

} // verus!

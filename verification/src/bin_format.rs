use vstd::prelude::*;

use crate::ascii_format::{asc_fits, lemma_line_count_unique, line_count};
use crate::buffer::{buffer_char, Buffer};
use crate::fonts::{glyph_rows, glyphs_flat};
use crate::formats::{SaveOptions, SavingError};
use crate::geometry::{Position, Size};
use crate::palette::{cycle_ega, dac_bytes_of, ega_with, Color};
use crate::text_attribute::dos_byte;
use crate::xbin::char_byte;

verus! {

/// The first `n` cells of row `y` as Bin data: the character byte and the
/// DOS attribute byte of each.
pub open spec fn bin_cells(b: Buffer, y: int, n: nat) -> Seq<u8>
    decreases n,
{
    if n == 0 {
        Seq::empty()
    } else {
        let c = buffer_char(b, Position { x: (n - 1) as i32, y: y as i32 });
        bin_cells(b, y, (n - 1) as nat).push(char_byte(c)).push(dos_byte(c.attribute) as u8)
    }
}

/// The first `k` rows as Bin data, each over the whole width.
pub open spec fn bin_rows(b: Buffer, k: nat) -> Seq<u8>
    decreases k,
{
    if k == 0 {
        Seq::empty()
    } else {
        bin_rows(b, (k - 1) as nat) + bin_cells(b, k - 1, b.size.width as nat)
    }
}

/// The Bin file format: the cells of the screen, two bytes each, with no
/// header.
pub struct Bin {}

/// Appends the first `rows` rows of the buffer as Bin data.
fn push_bin_rows(result: &mut Vec<u8>, buf: &Buffer, rows: usize)
    requires
        buf.size.width <= i32::MAX,
        rows <= i32::MAX,
    ensures
        final(result)@ == old(result)@ + bin_rows(*buf, rows as nat),
{
    let width = buf.get_width();
    let ghost start0 = result@;
    let mut y: usize = 0;
    assert(start0 + bin_rows(*buf, 0) =~= start0);
    while y < rows
        invariant
            y <= rows <= i32::MAX,
            width == buf.size.width <= i32::MAX,
            result@ == start0 + bin_rows(*buf, y as nat),
        decreases rows - y,
    {
        let ghost start = result@;
        let mut x: usize = 0;
        assert(start + bin_cells(*buf, y as int, 0) =~= start);
        while x < width
            invariant
                x <= width == buf.size.width <= i32::MAX,
                y < rows <= i32::MAX,
                result@ == start + bin_cells(*buf, y as int, x as nat),
            decreases width - x,
        {
            let ch = buf.get_char(Position::new(x as i32, y as i32));
            result.push((ch.ch as u32) as u8);
            result.push(ch.attribute.as_u8(buf.buffer_type));
            x += 1;
            assert(result@ =~= start + bin_cells(*buf, y as int, x as nat));
        }
        assert(result@ =~= start0 + bin_rows(*buf, (y + 1) as nat));
        y += 1;
    }
}

impl Bin {
    /// The buffer as Bin data: every row of its height over its width. No
    /// SAUCE record is written.
    pub fn to_bytes(&self, buf: &Buffer, options: &SaveOptions) -> (res: Vec<u8>)
        requires
            buf.size.width <= i32::MAX,
            buf.size.height <= i32::MAX,
        ensures
            res@ == bin_rows(*buf, buf.size.height as nat),
    {
        let mut result: Vec<u8> = Vec::new();
        push_bin_rows(&mut result, buf, buf.get_height());
        assert(result@ =~= bin_rows(*buf, buf.size.height as nat));
        result
    }
}

/// The palette as the Artworx format stores it: the DAC bytes of its EGA
/// colors.
pub open spec fn ega_palette_bytes(colors: Seq<Color>) -> Seq<u8> {
    if colors.len() == 64 {
        dac_bytes_of(cycle_ega(colors, 16))
    } else {
        dac_bytes_of(ega_with(colors, if colors.len() < 16 { colors.len() as int } else { 16 }))
    }
}

/// An Artworx file: the version byte 1, the palette, the rows of the glyphs
/// of the first font, then every row of the buffer as Bin data.
pub open spec fn adf_bytes(b: Buffer) -> Seq<u8> {
    let f = b.font_table@[0];
    Seq::empty().push(1u8) + ega_palette_bytes(b.palette.colors@) + glyphs_flat(
        glyph_rows(f.glyphs@).subrange(0, f.length as int),
    ) + bin_rows(b, line_count(b) as nat)
}

/// The Artworx file format, for 8x16 fonts.
pub struct Artworx {}

impl Artworx {
    /// The buffer as an Artworx file; refused where the first font is not
    /// 8x16. No SAUCE record is written.
    pub fn to_bytes(&self, buf: &Buffer, options: &SaveOptions) -> (res: Result<Vec<u8>, SavingError>)
        requires
            buf.font_table@.contains_key(0),
            buf.font_table@[0].length <= buf.font_table@[0].glyphs@.len(),
            asc_fits(*buf),
        ensures
            buf.font_table@[0].size != (Size { width: 8, height: 16 }) ==> res == Err::<Vec<u8>, SavingError>(
                SavingError::Only8x16FontsSupported,
            ),
            buf.font_table@[0].size == (Size { width: 8, height: 16 }) ==> (res matches Ok(v) && v@ == adf_bytes(
                *buf,
            )),
    {
        let mut result: Vec<u8> = Vec::new();
        result.push(1);
        let mut pal = buf.palette.to_ega_palette();
        result.append(&mut pal);
        let dims = buf.get_font_dimensions();
        if dims.width != 8 || dims.height != 16 {
            return Err(SavingError::Only8x16FontsSupported);
        }
        match buf.get_font(0) {
            Some(font) => font.convert_to_u8_data(&mut result),
            None => {
                return Err(SavingError::NoFontFound);
            },
        }
        let lines = buf.get_line_count();
        proof {
            lemma_line_count_unique(*buf, lines as int, line_count(*buf));
            if buf.layers@.len() > 0 {
                let i = choose|i: int| 0 <= i < buf.layers@.len() && buf.layers@[i].lines@.len() == lines;
                assert(buf.layers@[i].lines@.len() <= i32::MAX);
            }
        }
        push_bin_rows(&mut result, buf, lines);
        assert(result@ =~= adf_bytes(*buf));
        Ok(result)
    }
}

} // verus!

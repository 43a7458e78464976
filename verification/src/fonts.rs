use vstd::prelude::*;

use crate::geometry::Size;

verus! {

/// Where a font comes from.
#[derive(Clone, Copy, Debug, PartialEq, Eq, Structural)]
pub enum BitFontType {
    BuiltIn,
    Library,
    Custom,
}

/// Why font data could not be read.
#[derive(Clone, Copy, Debug, PartialEq, Eq, Structural)]
pub enum FontError {
    FontNotFound,
    MagicNumberMismatch,
    UnsupportedVersion(u32),
    LengthMismatch(usize, usize),
}

/// The bitmap of one character: a byte per pixel row, the leftmost pixel in
/// the highest bit.
#[derive(Clone, Debug)]
pub struct Glyph {
    pub data: Vec<u8>,
}

/// A bitmap font: `length` glyphs of `size` pixels, the glyph of character
/// code `c` at index `c`. Every font holds a glyph for each of the codes
/// `0..length` and for no other code, so the glyphs are kept in code order.
#[derive(Clone)]
pub struct BitFont {
    pub name: String,
    pub size: Size,
    pub length: usize,
    pub font_type: BitFontType,
    pub glyphs: Vec<Glyph>,
}

/// What a font holds: its size, its number of glyphs, its kind and the rows
/// of each glyph.
pub struct FontModel {
    pub width: nat,
    pub height: nat,
    pub length: nat,
    pub font_type: BitFontType,
    pub glyphs: Seq<Seq<u8>>,
}

/// The glyph rows of a font.
pub open spec fn glyph_rows(glyphs: Seq<Glyph>) -> Seq<Seq<u8>> {
    glyphs.map_values(|g: Glyph| g.data@)
}

pub open spec fn font_model(f: BitFont) -> FontModel {
    FontModel {
        width: f.size.width as nat,
        height: f.size.height as nat,
        length: f.length as nat,
        font_type: f.font_type,
        glyphs: glyph_rows(f.glyphs@),
    }
}

/// `n` glyphs of `h` bytes each, read one after the other from `start`.
pub open spec fn glyph_slices(data: Seq<u8>, start: int, h: int, n: int) -> Seq<Seq<u8>> {
    Seq::new(n as nat, |i: int| data.subrange(start + i * h, start + i * h + h))
}

/// The little-endian 16-bit number at `i`.
pub open spec fn le16(d: Seq<u8>, i: int) -> int {
    d[i] + d[i + 1] * 256
}

/// The little-endian 32-bit number at `i`.
pub open spec fn le32(d: Seq<u8>, i: int) -> int {
    d[i] + d[i + 1] * 256 + d[i + 2] * 65536 + d[i + 3] * 16777216
}

/// The four little-endian bytes of `v`.
pub open spec fn le32_bytes(v: u32) -> Seq<u8> {
    seq![(v % 256) as u8, ((v / 256) % 256) as u8, ((v / 65536) % 256) as u8, (v / 16777216) as u8]
}

pub const PSF1_MAGIC: u32 = 0x0436;

pub const PSF2_MAGIC: u32 = 0x864a_b572;

/// The glyph count of a PSF1 font of mode byte `mode`.
pub open spec fn psf1_length(mode: u8) -> nat {
    if mode % 2 == 1 { 512 } else { 256 }
}

/// A PSF1 font: a 4 byte header (magic, mode, glyph height) and the glyphs.
pub open spec fn psf1_model(d: Seq<u8>) -> FontModel {
    let n = psf1_length(d[2]);
    FontModel { width: 8, height: d[3] as nat, length: n, font_type: BitFontType::BuiltIn, glyphs: glyph_slices(d, 4, d[3] as int, n as int) }
}

/// The glyph height of headerless font data, which holds 256 glyphs.
pub open spec fn plain_height(len: int) -> int {
    let h = len / 256;
    if h == 8 || h == 14 || h == 16 || h == 19 { h } else { 0 }
}

/// A PSF2 font: a 32 byte header of little-endian numbers (magic, version,
/// header size, flags, glyph count, glyph size, height, width) and the
/// glyphs after the header. Width and height keep their low byte.
pub open spec fn psf2_model(d: Seq<u8>) -> Result<FontModel, FontError> {
    let version = le32(d, 4);
    let header = le32(d, 8);
    let length = le32(d, 16);
    let charsize = le32(d, 20);
    let expected = length * charsize + header;
    if version > 0 {
        Err(FontError::UnsupportedVersion(version as u32))
    } else if expected != d.len() {
        Err(FontError::LengthMismatch(d.len() as usize, expected as usize))
    } else {
        let height = le32(d, 24) % 256;
        let width = le32(d, 28) % 256;
        Ok(FontModel {
            width: width as nat,
            height: height as nat,
            length: length as nat,
            font_type: BitFontType::BuiltIn,
            glyphs: glyph_slices(d, header, height, length),
        })
    }
}

/// The font that `data` holds: PSF1 or PSF2 by their magic numbers, else
/// headerless glyphs of 8, 14, 16 or 19 rows.
pub open spec fn font_from_bytes(d: Seq<u8>) -> Result<FontModel, FontError> {
    if le16(d, 0) == PSF1_MAGIC {
        Ok(psf1_model(d))
    } else if le32(d, 0) == PSF2_MAGIC {
        psf2_model(d)
    } else if plain_height(d.len() as int) == 0 {
        Err(FontError::MagicNumberMismatch)
    } else {
        let h = plain_height(d.len() as int);
        Ok(FontModel { width: 8, height: h as nat, length: 256, font_type: BitFontType::BuiltIn, glyphs: glyph_slices(d, 0, h, 256) })
    }
}

/// `data` holds every glyph that its header announces, so that reading it
/// does not run past its end.
pub open spec fn font_data_complete(d: Seq<u8>) -> bool {
    &&& d.len() >= 4
    &&& le16(d, 0) == PSF1_MAGIC ==> 4 + psf1_length(d[2]) * d[3] <= d.len()
    &&& (le16(d, 0) != PSF1_MAGIC && le32(d, 0) == PSF2_MAGIC) ==> psf2_complete(d)
}

/// PSF2 `data` is long enough for what is read of it: the version; where
/// the version is known the header's numbers; and where the announced
/// length matches, the size and every glyph.
pub open spec fn psf2_complete(d: Seq<u8>) -> bool {
    &&& d.len() >= 8
    &&& le32(d, 4) == 0 ==> d.len() >= 24
    &&& (le32(d, 4) == 0 && le32(d, 16) * le32(d, 20) + le32(d, 8) == d.len()) ==> d.len() >= 32 && le32(d, 8) + le32(
        d,
        16,
    ) * (le32(d, 24) % 256) <= d.len()
}

/// The PSF2 encoding of a font.
pub open spec fn psf2_bytes(m: FontModel) -> Seq<u8> {
    le32_bytes(PSF2_MAGIC) + le32_bytes(0) + le32_bytes(32) + le32_bytes(0) + le32_bytes(m.length as u32)
        + le32_bytes(m.height as u32) + le32_bytes(m.height as u32) + le32_bytes(m.width as u32) + glyphs_flat(m.glyphs)
}

/// The glyphs' rows one after the other.
pub open spec fn glyphs_flat(g: Seq<Seq<u8>>) -> Seq<u8>
    decreases g.len(),
{
    if g.len() == 0 { Seq::empty() } else { glyphs_flat(g.drop_last()) + g.last() }
}

fn le16_at(data: &[u8], i: usize) -> (res: u32)
    requires
        i + 2 <= data@.len(),
    ensures
        res == le16(data@, i as int),
{
    data[i] as u32 + data[i + 1] as u32 * 256
}

fn le32_at(data: &[u8], i: usize) -> (res: u32)
    requires
        i + 4 <= data@.len(),
    ensures
        res == le32(data@, i as int),
{
    data[i] as u32 + data[i + 1] as u32 * 256 + data[i + 2] as u32 * 65536 + data[i + 3] as u32 * 16777216
}

fn push_le32(out: &mut Vec<u8>, v: u32)
    ensures
        final(out)@ == old(out)@ + le32_bytes(v),
{
    out.push((v % 256) as u8);
    out.push(((v / 256) % 256) as u8);
    out.push(((v / 65536) % 256) as u8);
    out.push((v / 16777216) as u8);
    assert(out@ =~= old(out)@ + le32_bytes(v));
}

/// Reads `n` glyphs of `h` bytes from `data` at `start`.
fn read_glyphs(data: &[u8], start: usize, h: usize, n: usize) -> (res: Vec<Glyph>)
    requires
        start + n * h <= data@.len(),
    ensures
        glyph_rows(res@) == glyph_slices(data@, start as int, h as int, n as int),
{
    let dlen = data.len();
    let mut glyphs: Vec<Glyph> = Vec::new();
    let mut i: usize = 0;
    let mut o: usize = start;
    while i < n
        invariant
            dlen == data@.len(),
            start + n * h <= data@.len(),
            i <= n,
            o == start + i * h,
            glyph_rows(glyphs@) == glyph_slices(data@, start as int, h as int, i as int),
        decreases n - i,
    {
        proof {
            assert(i * h + h <= n * h) by (nonlinear_arith)
                requires
                    i < n,
            ;
            assert((i + 1) * h == i * h + h) by (nonlinear_arith);
        }
        let mut bytes: Vec<u8> = Vec::new();
        let mut k: usize = 0;
        while k < h
            invariant
                k <= h,
                dlen == data@.len(),
                o + h <= data@.len(),
                bytes@ == data@.subrange(o as int, o + k),
            decreases h - k,
        {
            bytes.push(data[o + k]);
            k += 1;
            assert(bytes@ =~= data@.subrange(o as int, o + k));
        }
        let g = Glyph { data: bytes };
        let ghost before = glyphs@;
        glyphs.push(g);
        i += 1;
        o = o + h;
        assert(glyph_rows(glyphs@) =~= glyph_slices(data@, start as int, h as int, i as int)) by {
            assert(glyph_rows(glyphs@) =~= glyph_rows(before).push(g.data@));
        }
    }
    glyphs
}

/// The name of the standard VGA font.
pub const DEFAULT_FONT_NAME: &'static str = "IBM VGA";

/// The other name that the standard VGA font goes by.
pub const ALT_DEFAULT_FONT_NAME: &'static str = "IBM VGA 437";

impl BitFont {
    /// Whether the font is the standard VGA font, by its name.
    pub fn is_default(&self) -> (res: bool)
        ensures
            res == (self.name@ == DEFAULT_FONT_NAME@ || self.name@ == ALT_DEFAULT_FONT_NAME@),
    {
        self.name == DEFAULT_FONT_NAME.to_owned() || self.name == ALT_DEFAULT_FONT_NAME.to_owned()
    }

    pub fn font_type(&self) -> (res: BitFontType)
        ensures
            res == self.font_type,
    {
        self.font_type
    }

    /// The glyph of character `ch`, if the font has one.
    pub fn get_glyph(&self, ch: char) -> (res: Option<&Glyph>)
        ensures
            (ch as int) < self.glyphs@.len() ==> res == Some(&self.glyphs@[ch as int]),
            (ch as int) >= self.glyphs@.len() ==> res is None,
    {
        let i = ch as u32 as usize;
        if i < self.glyphs.len() {
            Some(&self.glyphs[i])
        } else {
            None
        }
    }

    /// Sets the glyphs from `data`: `length` glyphs of the font's height,
    /// one after the other.
    pub fn set_glyphs_from_u8_data(&mut self, data: &[u8])
        requires
            old(self).length * old(self).size.height <= data@.len(),
        ensures
            font_model(*final(self)) == (FontModel { glyphs: glyph_slices(data@, 0, old(self).size.height as int, old(self).length as int), ..font_model(*old(self)) }),
            final(self).name@ == old(self).name@,
    {
        self.glyphs = read_glyphs(data, 0, self.size.height, self.length);
    }

    /// Appends the rows of the glyphs `0..length` to `data`.
    pub fn convert_to_u8_data(&self, data: &mut Vec<u8>)
        requires
            self.length <= self.glyphs@.len(),
        ensures
            final(data)@ == old(data)@ + glyphs_flat(glyph_rows(self.glyphs@).subrange(0, self.length as int)),
    {
        let mut i: usize = 0;
        while i < self.length
            invariant
                i <= self.length <= self.glyphs@.len(),
                data@ == old(data)@ + glyphs_flat(glyph_rows(self.glyphs@).subrange(0, i as int)),
            decreases self.length - i,
        {
            let g = &self.glyphs[i];
            let ghost before = data@;
            let mut k: usize = 0;
            while k < g.data.len()
                invariant
                    k <= g.data@.len(),
                    data@ == before + g.data@.subrange(0, k as int),
                decreases g.data@.len() - k,
            {
                data.push(g.data[k]);
                k += 1;
                assert(data@ =~= before + g.data@.subrange(0, k as int));
            }
            proof {
                let rows = glyph_rows(self.glyphs@);
                assert(rows.subrange(0, i + 1).drop_last() =~= rows.subrange(0, i as int));
                assert(g.data@.subrange(0, k as int) =~= g.data@);
            }
            i += 1;
            assert(data@ =~= old(data)@ + glyphs_flat(glyph_rows(self.glyphs@).subrange(0, i as int)));
        }
    }

    /// A copy of this font: the same name, size, kind and glyphs.
    pub fn duplicate(&self) -> (res: BitFont)
        ensures
            font_model(res) == font_model(*self),
            res.name@ == self.name@,
    {
        let mut glyphs: Vec<Glyph> = Vec::new();
        let mut i: usize = 0;
        while i < self.glyphs.len()
            invariant
                i <= self.glyphs@.len(),
                glyph_rows(glyphs@) == glyph_rows(self.glyphs@).subrange(0, i as int),
            decreases self.glyphs@.len() - i,
        {
            let mut data: Vec<u8> = Vec::new();
            let src = &self.glyphs[i].data;
            let mut j: usize = 0;
            while j < src.len()
                invariant
                    j <= src@.len(),
                    data@ == src@.subrange(0, j as int),
                decreases src@.len() - j,
            {
                data.push(src[j]);
                j += 1;
            }
            assert(data@ =~= src@);
            let ghost before = glyphs@;
            glyphs.push(Glyph { data });
            i += 1;
            assert(glyph_rows(glyphs@) =~= glyph_rows(self.glyphs@).subrange(0, i as int)) by {
                assert(glyph_rows(glyphs@) =~= glyph_rows(before).push(self.glyphs@[i - 1].data@));
            }
        }
        assert(glyph_rows(self.glyphs@).subrange(0, i as int) =~= glyph_rows(self.glyphs@));
        BitFont {
            name: self.name.clone(),
            size: self.size,
            length: self.length,
            font_type: self.font_type,
            glyphs,
        }
    }

    /// A font of 256 glyphs of `width` by `height` pixels read from `data`.
    pub fn create_8(name: String, width: u8, height: u8, data: &[u8]) -> (res: Self)
        requires
            256 * height <= data@.len(),
        ensures
            res.name@ == name@,
            font_model(res) == (FontModel {
                width: width as nat,
                height: height as nat,
                length: 256,
                font_type: BitFontType::Custom,
                glyphs: glyph_slices(data@, 0, height as int, 256),
            }),
    {
        BitFont {
            name,
            size: Size { width: width as usize, height: height as usize },
            length: 256,
            font_type: BitFontType::Custom,
            glyphs: read_glyphs(data, 0, height as usize, 256),
        }
    }

    /// A font without a name of 256 glyphs of `width` by `height` pixels.
    pub fn from_basic(width: u8, height: u8, data: &[u8]) -> (res: Self)
        requires
            256 * height <= data@.len(),
        ensures
            res.name@ == Seq::<char>::empty(),
            font_model(res) == (FontModel {
                width: width as nat,
                height: height as nat,
                length: 256,
                font_type: BitFontType::Custom,
                glyphs: glyph_slices(data@, 0, height as int, 256),
            }),
    {
        BitFont::create_8(String::new(), width, height, data)
    }

    fn load_psf1(font_name: String, data: &[u8]) -> (res: Self)
        requires
            data@.len() >= 4,
            4 + psf1_length(data@[2]) * data@[3] <= data@.len(),
        ensures
            res.name@ == font_name@,
            font_model(res) == psf1_model(data@),
    {
        let mode = data[2];
        let charsize = data[3];
        let length: usize = if mode % 2 == 1 { 512 } else { 256 };
        BitFont {
            name: font_name,
            size: Size { width: 8, height: charsize as usize },
            length,
            font_type: BitFontType::BuiltIn,
            glyphs: read_glyphs(data, 4, charsize as usize, length),
        }
    }

    fn load_plain_font(font_name: String, data: &[u8]) -> (res: Result<Self, FontError>)
        ensures
            plain_height(data@.len() as int) == 0 ==> res == Err::<BitFont, FontError>(FontError::MagicNumberMismatch),
            plain_height(data@.len() as int) != 0 ==> (res matches Ok(f) && f.name@ == font_name@ && font_model(f) == (FontModel {
                width: 8,
                height: plain_height(data@.len() as int) as nat,
                length: 256,
                font_type: BitFontType::BuiltIn,
                glyphs: glyph_slices(data@, 0, plain_height(data@.len() as int), 256),
            })),
    {
        let h = data.len() / 256;
        if h != 8 && h != 14 && h != 16 && h != 19 {
            return Err(FontError::MagicNumberMismatch);
        }
        Ok(BitFont {
            name: font_name,
            size: Size { width: 8, height: h },
            length: 256,
            font_type: BitFontType::BuiltIn,
            glyphs: read_glyphs(data, 0, h, 256),
        })
    }

    fn load_psf2(font_name: String, data: &[u8]) -> (res: Result<Self, FontError>)
        requires
            psf2_complete(data@),
        ensures
            match psf2_model(data@) {
                Ok(m) => res matches Ok(f) && f.name@ == font_name@ && font_model(f) == m,
                Err(e) => res == Err::<BitFont, FontError>(e),
            },
    {
        let version = le32_at(data, 4);
        if version > 0 {
            return Err(FontError::UnsupportedVersion(version));
        }
        let header = le32_at(data, 8);
        let length = le32_at(data, 16);
        let charsize = le32_at(data, 20);
        let l128 = length as u128;
        let c128 = charsize as u128;
        proof {
            assert(l128 * c128 <= 0xFFFF_FFFFu128 * 0xFFFF_FFFFu128) by (nonlinear_arith)
                requires
                    l128 <= 0xFFFF_FFFF,
                    c128 <= 0xFFFF_FFFF,
            ;
        }
        let expected: u128 = l128 * c128 + header as u128;
        if expected != data.len() as u128 {
            return Err(FontError::LengthMismatch(data.len(), #[verifier::truncate] (expected as usize)));
        }
        let height = le32_at(data, 24) % 256;
        let width = le32_at(data, 28) % 256;
        Ok(BitFont {
            name: font_name,
            size: Size { width: width as usize, height: height as usize },
            length: length as usize,
            font_type: BitFontType::BuiltIn,
            glyphs: read_glyphs(data, header as usize, height as usize, length as usize),
        })
    }

    /// Reads a font from `data`; see `font_from_bytes`.
    pub fn from_bytes(font_name: String, data: &[u8]) -> (res: Result<Self, FontError>)
        requires
            font_data_complete(data@),
        ensures
            match font_from_bytes(data@) {
                Ok(m) => res matches Ok(f) && f.name@ == font_name@ && font_model(f) == m,
                Err(e) => res == Err::<BitFont, FontError>(e),
            },
    {
        let magic16 = le16_at(data, 0);
        if magic16 == PSF1_MAGIC {
            return Ok(BitFont::load_psf1(font_name, data));
        }
        let magic32 = le32_at(data, 0);
        if magic32 == PSF2_MAGIC {
            return BitFont::load_psf2(font_name, data);
        }
        BitFont::load_plain_font(font_name, data)
    }

    /// The font in PSF2 encoding; see `psf2_bytes`.
    pub fn to_bytes(&self) -> (res: Vec<u8>)
        requires
            self.length <= self.glyphs@.len(),
        ensures
            res@ == psf2_bytes(FontModel { glyphs: glyph_rows(self.glyphs@).subrange(0, self.length as int), ..font_model(*self) }),
    {
        let mut data: Vec<u8> = Vec::new();
        push_le32(&mut data, PSF2_MAGIC);
        push_le32(&mut data, 0);
        push_le32(&mut data, 32);
        push_le32(&mut data, 0);
        push_le32(&mut data, self.length as u32);
        push_le32(&mut data, self.size.height as u32);
        push_le32(&mut data, self.size.height as u32);
        push_le32(&mut data, self.size.width as u32);
        let ghost header = data@;
        self.convert_to_u8_data(&mut data);
        data
    }
}


proof fn lemma_le32_roundtrip(v: u32, d: Seq<u8>, i: int)
    requires
        0 <= i,
        i + 4 <= d.len(),
        d.subrange(i, i + 4) == le32_bytes(v),
    ensures
        le32(d, i) == v,
{
    assert(d[i] == le32_bytes(v)[0]);
    assert(d[i + 1] == le32_bytes(v)[1]);
    assert(d[i + 2] == le32_bytes(v)[2]);
    assert(d[i + 3] == le32_bytes(v)[3]);
    let b0 = v % 256;
    let b1 = (v / 256) % 256;
    let b2 = (v / 65536) % 256;
    let b3 = v / 16777216;
    assert(b0 + b1 * 256 + b2 * 65536 + b3 * 16777216 == v) by (nonlinear_arith)
        requires
            b0 == v % 256,
            b1 == (v / 256) % 256,
            b2 == (v / 65536) % 256,
            b3 == v / 16777216,
            v < 0x1_0000_0000,
    {
        assert(v == (v / 256) * 256 + v % 256);
        assert(v / 256 == ((v / 256) / 256) * 256 + (v / 256) % 256);
        assert((v / 256) / 256 == v / 65536);
        assert(v / 65536 == ((v / 65536) / 256) * 256 + (v / 65536) % 256);
        assert((v / 65536) / 256 == v / 16777216);
    }
}

proof fn lemma_flat_len(g: Seq<Seq<u8>>, h: int)
    requires
        forall|i: int| 0 <= i < g.len() ==> #[trigger] g[i].len() == h,
    ensures
        glyphs_flat(g).len() == g.len() * h,
    decreases g.len(),
{
    if g.len() > 0 {
        lemma_flat_len(g.drop_last(), h);
        assert(glyphs_flat(g).len() == (g.len() - 1) * h + h);
        assert((g.len() - 1) * h + h == g.len() * h) by (nonlinear_arith);
    }
}

proof fn lemma_flat_slice(g: Seq<Seq<u8>>, h: int, i: int)
    requires
        h >= 0,
        0 <= i < g.len(),
        forall|k: int| 0 <= k < g.len() ==> #[trigger] g[k].len() == h,
    ensures
        glyphs_flat(g).subrange(i * h, i * h + h) == g[i],
    decreases g.len(),
{
    let n = g.len();
    let prev = g.drop_last();
    lemma_flat_len(prev, h);
    assert(glyphs_flat(g) == glyphs_flat(prev) + g.last());
    assert((n - 1) * h + h == n * h) by (nonlinear_arith);
    if i == n - 1 {
        assert(glyphs_flat(g).subrange(i * h, i * h + h) =~= g[i]);
    } else {
        lemma_flat_slice(prev, h, i);
        assert(i * h + h <= (n - 1) * h) by (nonlinear_arith)
            requires
                i < n - 1,
                h >= 0,
        ;
        assert(glyphs_flat(g).subrange(i * h, i * h + h) =~= glyphs_flat(prev).subrange(i * h, i * h + h));
    }
}

/// A font whose glyphs all have the font's height, whose sizes fit in a
/// byte and whose glyph count fits in 32 bits.
pub open spec fn encodable_font(m: FontModel) -> bool {
    &&& m.width < 256
    &&& m.height < 256
    &&& m.length <= u32::MAX
    &&& m.glyphs.len() == m.length
    &&& forall|i: int| 0 <= i < m.glyphs.len() ==> #[trigger] m.glyphs[i].len() == m.height
}

/// Reading back the PSF2 encoding of a font gives the font: the same size,
/// glyph count and glyphs (the kind of a font read from bytes is built in).
pub proof fn law_psf2_roundtrip(m: FontModel)
    requires
        encodable_font(m),
    ensures
        font_data_complete(psf2_bytes(m)),
        font_from_bytes(psf2_bytes(m)) == Ok::<FontModel, FontError>(FontModel { font_type: BitFontType::BuiltIn, ..m }),
{
    let d = psf2_bytes(m);
    let h = m.height as int;
    let n = m.length as int;
    let header = le32_bytes(PSF2_MAGIC) + le32_bytes(0) + le32_bytes(32) + le32_bytes(0) + le32_bytes(m.length as u32)
        + le32_bytes(m.height as u32) + le32_bytes(m.height as u32) + le32_bytes(m.width as u32);
    assert(header.len() == 32);
    assert(d == header + glyphs_flat(m.glyphs));
    lemma_flat_len(m.glyphs, h);
    assert(d.len() == 32 + n * h);
    assert(d.subrange(0, 4) =~= le32_bytes(PSF2_MAGIC));
    assert(d.subrange(4, 8) =~= le32_bytes(0));
    assert(d.subrange(8, 12) =~= le32_bytes(32));
    assert(d.subrange(16, 20) =~= le32_bytes(m.length as u32));
    assert(d.subrange(20, 24) =~= le32_bytes(m.height as u32));
    assert(d.subrange(24, 28) =~= le32_bytes(m.height as u32));
    assert(d.subrange(28, 32) =~= le32_bytes(m.width as u32));
    lemma_le32_roundtrip(PSF2_MAGIC, d, 0);
    lemma_le32_roundtrip(0, d, 4);
    lemma_le32_roundtrip(32, d, 8);
    lemma_le32_roundtrip(m.length as u32, d, 16);
    lemma_le32_roundtrip(m.height as u32, d, 20);
    lemma_le32_roundtrip(m.height as u32, d, 24);
    lemma_le32_roundtrip(m.width as u32, d, 28);
    assert(d[0] == 0x72 && d[1] == 0xb5);
    assert(le16(d, 0) != PSF1_MAGIC);
    let g = glyph_slices(d, 32, h, n);
    assert forall|i: int| 0 <= i < n implies #[trigger] g[i] == m.glyphs[i] by {
        lemma_flat_slice(m.glyphs, h, i);
        assert(i * h + h <= n * h) by (nonlinear_arith)
            requires
                i < n,
                h >= 0,
        ;
        assert(d.subrange(32 + i * h, 32 + i * h + h) =~= glyphs_flat(m.glyphs).subrange(i * h, i * h + h));
    }
    assert(g =~= m.glyphs);
}

} // verus!

use vstd::prelude::*;

verus! {

/// An RGB color with eight bits per channel.
#[derive(Clone, Copy, Debug, Default, PartialEq, Eq, Structural)]
pub struct Color {
    pub r: u8,
    pub g: u8,
    pub b: u8,
}

impl Color {
    pub fn new(r: u8, g: u8, b: u8) -> (res: Self)
        ensures
            res == (Color { r, g, b }),
    {
        Color { r, g, b }
    }

    pub fn get_rgb(self) -> (res: (u8, u8, u8))
        ensures
            res == (self.r, self.g, self.b),
    {
        (self.r, self.g, self.b)
    }
}

/// The sixteen colors of the DOS text mode.
pub open spec fn dos_default_color(i: int) -> Color {
    if i == 0 { Color { r: 0x00, g: 0x00, b: 0x00 } }
    else if i == 1 { Color { r: 0x00, g: 0x00, b: 0xAA } }
    else if i == 2 { Color { r: 0x00, g: 0xAA, b: 0x00 } }
    else if i == 3 { Color { r: 0x00, g: 0xAA, b: 0xAA } }
    else if i == 4 { Color { r: 0xAA, g: 0x00, b: 0x00 } }
    else if i == 5 { Color { r: 0xAA, g: 0x00, b: 0xAA } }
    else if i == 6 { Color { r: 0xAA, g: 0x55, b: 0x00 } }
    else if i == 7 { Color { r: 0xAA, g: 0xAA, b: 0xAA } }
    else if i == 8 { Color { r: 0x55, g: 0x55, b: 0x55 } }
    else if i == 9 { Color { r: 0x55, g: 0x55, b: 0xFF } }
    else if i == 10 { Color { r: 0x55, g: 0xFF, b: 0x55 } }
    else if i == 11 { Color { r: 0x55, g: 0xFF, b: 0xFF } }
    else if i == 12 { Color { r: 0xFF, g: 0x55, b: 0x55 } }
    else if i == 13 { Color { r: 0xFF, g: 0x55, b: 0xFF } }
    else if i == 14 { Color { r: 0xFF, g: 0xFF, b: 0x55 } }
    else { Color { r: 0xFF, g: 0xFF, b: 0xFF } }
}

pub open spec fn dos_default_colors() -> Seq<Color> {
    Seq::new(16, |i: int| dos_default_color(i))
}

/// Color `i` of the 64 color EGA palette: bits 0 to 2 give two thirds of
/// blue, green and red, bits 3 to 5 one third.
pub open spec fn ega_color(i: int) -> Color {
    Color {
        r: (170 * ((i / 4) % 2) + 85 * ((i / 32) % 2)) as u8,
        g: (170 * ((i / 2) % 2) + 85 * ((i / 16) % 2)) as u8,
        b: (170 * (i % 2) + 85 * ((i / 8) % 2)) as u8,
    }
}

/// The eight bit value of a six bit VGA DAC value.
pub open spec fn dac_to_8bit(v: u8) -> u8 {
    (v << 2u8) | (v >> 4u8)
}

/// The six bit VGA DAC value of an eight bit channel, with the same bit
/// folding that the palette files use.
pub open spec fn eight_bit_to_dac(v: u8) -> u8 {
    (v >> 2u8) | (v << 4u8)
}

pub open spec fn dac_bytes(c: Color) -> Seq<u8> {
    seq![eight_bit_to_dac(c.r), eight_bit_to_dac(c.g), eight_bit_to_dac(c.b)]
}

/// The bytes of a list of colors, three per color.
pub open spec fn dac_bytes_of(cs: Seq<Color>) -> Seq<u8>
    decreases cs.len(),
{
    if cs.len() == 0 {
        Seq::empty()
    } else {
        dac_bytes_of(cs.drop_last()) + dac_bytes(cs.last())
    }
}

/// The color level of coordinate `v` (0 to 5) of the xterm color cube.
pub open spec fn cube_level(v: int) -> u8 {
    if v == 0 { 0 } else { (55 + 40 * v) as u8 }
}

/// The sixteen system colors of the xterm palette.
pub open spec fn xterm_system_color(i: int) -> Color {
    if i == 0 { Color { r: 0, g: 0, b: 0 } }
    else if i == 1 { Color { r: 128, g: 0, b: 0 } }
    else if i == 2 { Color { r: 0, g: 128, b: 0 } }
    else if i == 3 { Color { r: 128, g: 128, b: 0 } }
    else if i == 4 { Color { r: 0, g: 0, b: 128 } }
    else if i == 5 { Color { r: 128, g: 0, b: 128 } }
    else if i == 6 { Color { r: 0, g: 128, b: 128 } }
    else if i == 7 { Color { r: 192, g: 192, b: 192 } }
    else if i == 8 { Color { r: 128, g: 128, b: 128 } }
    else if i == 9 { Color { r: 255, g: 0, b: 0 } }
    else if i == 10 { Color { r: 0, g: 255, b: 0 } }
    else if i == 11 { Color { r: 255, g: 255, b: 0 } }
    else if i == 12 { Color { r: 0, g: 0, b: 255 } }
    else if i == 13 { Color { r: 255, g: 0, b: 255 } }
    else if i == 14 { Color { r: 0, g: 255, b: 255 } }
    else { Color { r: 255, g: 255, b: 255 } }
}

/// Color `n` of the xterm 256 color palette: sixteen system colors, a
/// 6x6x6 color cube and 24 grays.
pub open spec fn xterm_color(n: u8) -> Color {
    if n < 16 {
        xterm_system_color(n as int)
    } else if n < 232 {
        let i = n - 16;
        Color { r: cube_level(i / 36), g: cube_level((i / 6) % 6), b: cube_level(i % 6) }
    } else {
        let g = (8 + 10 * (n - 232)) as u8;
        Color { r: g, g: g, b: g }
    }
}

/// The position in the 64 color EGA palette where color `i` of the 16 color
/// palette is stored.
pub open spec fn ega_offset(i: int) -> int {
    if i < 6 { i } else if i == 6 { 20 } else if i == 7 { 7 } else { i + 48 }
}

pub(crate) fn dos_default_color_exec(i: usize) -> (res: Color)
    ensures
        res == dos_default_color(i as int),
{
    match i {
        0 => Color { r: 0x00, g: 0x00, b: 0x00 },
        1 => Color { r: 0x00, g: 0x00, b: 0xAA },
        2 => Color { r: 0x00, g: 0xAA, b: 0x00 },
        3 => Color { r: 0x00, g: 0xAA, b: 0xAA },
        4 => Color { r: 0xAA, g: 0x00, b: 0x00 },
        5 => Color { r: 0xAA, g: 0x00, b: 0xAA },
        6 => Color { r: 0xAA, g: 0x55, b: 0x00 },
        7 => Color { r: 0xAA, g: 0xAA, b: 0xAA },
        8 => Color { r: 0x55, g: 0x55, b: 0x55 },
        9 => Color { r: 0x55, g: 0x55, b: 0xFF },
        10 => Color { r: 0x55, g: 0xFF, b: 0x55 },
        11 => Color { r: 0x55, g: 0xFF, b: 0xFF },
        12 => Color { r: 0xFF, g: 0x55, b: 0x55 },
        13 => Color { r: 0xFF, g: 0x55, b: 0xFF },
        14 => Color { r: 0xFF, g: 0xFF, b: 0x55 },
        _ => Color { r: 0xFF, g: 0xFF, b: 0xFF },
    }
}

/// Color `i` (0 to 63) of the EGA palette.
pub fn get_ega_color(i: usize) -> (res: Color)
    requires
        i < 64,
    ensures
        res == ega_color(i as int),
{
    let r = 170 * ((i / 4) % 2) + 85 * ((i / 32) % 2);
    let g = 170 * ((i / 2) % 2) + 85 * ((i / 16) % 2);
    let b = 170 * (i % 2) + 85 * ((i / 8) % 2);
    Color { r: r as u8, g: g as u8, b: b as u8 }
}

/// Color `n` of the xterm 256 color palette.
pub fn get_xterm_color(n: u8) -> (res: Color)
    ensures
        res == xterm_color(n),
{
    if n < 16 {
        match n {
            0 => Color { r: 0, g: 0, b: 0 },
            1 => Color { r: 128, g: 0, b: 0 },
            2 => Color { r: 0, g: 128, b: 0 },
            3 => Color { r: 128, g: 128, b: 0 },
            4 => Color { r: 0, g: 0, b: 128 },
            5 => Color { r: 128, g: 0, b: 128 },
            6 => Color { r: 0, g: 128, b: 128 },
            7 => Color { r: 192, g: 192, b: 192 },
            8 => Color { r: 128, g: 128, b: 128 },
            9 => Color { r: 255, g: 0, b: 0 },
            10 => Color { r: 0, g: 255, b: 0 },
            11 => Color { r: 255, g: 255, b: 0 },
            12 => Color { r: 0, g: 0, b: 255 },
            13 => Color { r: 255, g: 0, b: 255 },
            14 => Color { r: 0, g: 255, b: 255 },
            _ => Color { r: 255, g: 255, b: 255 },
        }
    } else if n < 232 {
        let i = n - 16;
        Color { r: level(i / 36), g: level((i / 6) % 6), b: level(i % 6) }
    } else {
        let g = (8 + 10 * (n - 232) as u32) as u8;
        Color { r: g, g: g, b: g }
    }
}

fn level(v: u8) -> (res: u8)
    requires
        v < 6,
    ensures
        res == cube_level(v as int),
{
    if v == 0 { 0 } else { 55 + 40 * v }
}

fn ega_offset_exec(i: usize) -> (res: usize)
    requires
        i < 16,
    ensures
        res == ega_offset(i as int),
{
    if i < 6 { i } else if i == 6 { 20 } else if i == 7 { 7 } else { i + 48 }
}

fn push_dac(res: &mut Vec<u8>, c: Color)
    ensures
        final(res)@ == old(res)@ + dac_bytes(c),
{
    res.push((c.r >> 2u8) | (c.r << 4u8));
    res.push((c.g >> 2u8) | (c.g << 4u8));
    res.push((c.b >> 2u8) | (c.b << 4u8));
    assert(res@ =~= old(res)@ + dac_bytes(c));
}

/// An ordered list of colors; a palette index selects one of them.
#[derive(Clone, Debug)]
pub struct Palette {
    pub colors: Vec<Color>,
}

/// Each color of `cs` at index `i` swapped with the color at `ega_offset(i)`,
/// for `i` from 0 to 15 in turn.
pub open spec fn cycle_ega(cs: Seq<Color>, n: int) -> Seq<Color>
    decreases n,
{
    if n <= 0 {
        cs
    } else {
        let prev = cycle_ega(cs, n - 1);
        let i = n - 1;
        let o = ega_offset(i);
        if i == o { prev } else { prev.update(i, prev[o]).update(o, prev[i]) }
    }
}

pub proof fn lemma_cycle_ega_len(cs: Seq<Color>, n: int)
    requires
        cs.len() >= 64,
        n <= 16,
    ensures
        cycle_ega(cs, n).len() == cs.len(),
    decreases n,
{
    if n > 0 {
        lemma_cycle_ega_len(cs, n - 1);
    }
}

/// The palette stored in the EGA palette: the first sixteen colors placed
/// in their EGA slots of the standard EGA palette.
pub open spec fn ega_with(cs: Seq<Color>, n: int) -> Seq<Color>
    decreases n,
{
    if n <= 0 {
        Seq::new(64, |i: int| ega_color(i))
    } else {
        ega_with(cs, n - 1).update(ega_offset(n - 1), cs[n - 1])
    }
}

pub proof fn lemma_ega_with_len(cs: Seq<Color>, n: int)
    requires
        n <= 16,
    ensures
        ega_with(cs, n).len() == 64,
    decreases n,
{
    if n > 0 {
        lemma_ega_with_len(cs, n - 1);
    }
}

/// The index at which `color` first occurs in `cs`, if it does.
pub open spec fn first_index_of(cs: Seq<Color>, color: Color) -> int {
    choose|i: int| 0 <= i < cs.len() && cs[i] == color && forall|j: int| 0 <= j < i ==> cs[j] != color
}

impl Palette {
    /// The sixteen DOS colors.
    pub fn new() -> (res: Self)
        ensures
            res.colors@ == dos_default_colors(),
    {
        let mut colors = Vec::new();
        let mut i: usize = 0;
        while i < 16
            invariant
                i <= 16,
                colors@ == dos_default_colors().subrange(0, i as int),
            decreases 16 - i,
        {
            colors.push(dos_default_color_exec(i));
            i += 1;
            assert(colors@ =~= dos_default_colors().subrange(0, i as int));
        }
        assert(colors@ =~= dos_default_colors());
        Palette { colors }
    }

    pub fn len(&self) -> (res: u32)
        ensures
            res == self.colors@.len() as u32,
    {
        self.colors.len() as u32
    }

    pub fn is_empty(&self) -> (res: bool)
        ensures
            res == (self.colors@.len() == 0),
    {
        self.colors.len() == 0
    }

    pub fn clear(&mut self)
        ensures
            final(self).colors@ == Seq::<Color>::empty(),
    {
        self.colors.clear();
    }

    /// Completes a palette of fewer than sixteen colors with the DOS colors
    /// that follow its last color.
    pub fn fill_to_16(&mut self)
        ensures
            old(self).colors@.len() >= 16 ==> final(self).colors@ == old(self).colors@,
            old(self).colors@.len() < 16 ==> final(self).colors@ == old(self).colors@ + dos_default_colors().subrange(
                old(self).colors@.len() as int,
                16,
            ),
    {
        let ghost start = self.colors@;
        let mut i = self.colors.len();
        while i < 16
            invariant
                start.len() <= 16 ==> start.len() <= i <= 16,
                start.len() > 16 ==> i == start.len(),
                start.len() < 16 ==> self.colors@ == start + dos_default_colors().subrange(start.len() as int, i as int),
                start.len() >= 16 ==> self.colors@ == start,
            decreases 16 - i,
        {
            self.colors.push(dos_default_color_exec(i));
            i += 1;
            assert(self.colors@ =~= start + dos_default_colors().subrange(start.len() as int, i as int));
        }
        proof {
            if start.len() == 16 {
                assert(self.colors@ =~= start);
            }
        }
    }

    /// Whether the palette holds exactly the sixteen DOS colors.
    pub fn is_default(&self) -> (res: bool)
        ensures
            res == (self.colors@ == dos_default_colors()),
    {
        if self.colors.len() != 16 {
            return false;
        }
        let mut i: usize = 0;
        while i < 16
            invariant
                i <= 16,
                self.colors@.len() == 16,
                forall|j: int| 0 <= j < i ==> self.colors@[j] == dos_default_color(j),
            decreases 16 - i,
        {
            if self.colors[i] != dos_default_color_exec(i) {
                return false;
            }
            i += 1;
        }
        assert(self.colors@ =~= dos_default_colors());
        true
    }

    /// Sets color `number`, growing the palette with black where it is
    /// shorter.
    pub fn set_color_rgb(&mut self, number: usize, r: u8, g: u8, b: u8)
        requires
            number < usize::MAX,
        ensures
            final(self).colors@.len() == if number < old(self).colors@.len() { old(self).colors@.len() as int } else { number + 1 },
            final(self).colors@[number as int] == (Color { r, g, b }),
            forall|i: int| 0 <= i < old(self).colors@.len() && i != number ==> final(self).colors@[i] == old(self).colors@[i],
            forall|i: int| old(self).colors@.len() <= i < number ==> final(self).colors@[i] == Color::default_spec(),
    {
        let ghost start = self.colors@;
        while self.colors.len() <= number
            invariant
                start.len() <= self.colors@.len() <= number + 1 || self.colors@.len() == start.len(),
                forall|i: int| 0 <= i < start.len() ==> self.colors@[i] == start[i],
                forall|i: int| start.len() <= i < self.colors@.len() ==> self.colors@[i] == Color::default_spec(),
                number < usize::MAX,
            decreases number + 1 - self.colors@.len(),
        {
            self.colors.push(Color { r: 0, g: 0, b: 0 });
        }
        self.colors.set(number, Color { r, g, b });
    }

    /// The index of `color`, appending it where the palette does not hold it
    /// yet.
    pub fn insert_color(&mut self, color: Color) -> (res: u32)
        requires
            old(self).colors@.len() < u32::MAX,
        ensures
            old(self).colors@.contains(color) ==> final(self).colors@ == old(self).colors@ && res == first_index_of(
                old(self).colors@,
                color,
            ),
            !old(self).colors@.contains(color) ==> final(self).colors@ == old(self).colors@.push(color) && res
                == old(self).colors@.len(),
            res < final(self).colors@.len(),
            final(self).colors@[res as int] == color,
    {
        let mut i: usize = 0;
        while i < self.colors.len()
            invariant
                i <= self.colors@.len(),
                self.colors@ == old(self).colors@,
                old(self).colors@.len() < u32::MAX,
                forall|j: int| 0 <= j < i ==> self.colors@[j] != color,
            decreases self.colors@.len() - i,
        {
            if self.colors[i] == color {
                let ghost cs = self.colors@;
                assert(cs.contains(color));
                assert(first_index_of(cs, color) == i) by {
                    let k = first_index_of(cs, color);
                    assert(0 <= i < cs.len() && cs[i as int] == color && forall|j: int| 0 <= j < i ==> cs[j] != color);
                    assert(0 <= k < cs.len() && cs[k] == color && forall|j: int| 0 <= j < k ==> cs[j] != color);
                    if k < i {
                    } else if k > i {
                        assert(cs[i as int] != color);
                    }
                }
                return i as u32;
            }
            i += 1;
        }
        assert(!self.colors@.contains(color));
        self.colors.push(color);
        (self.colors.len() - 1) as u32
    }

    pub fn insert_color_rgb(&mut self, r: u8, g: u8, b: u8) -> (res: u32)
        requires
            old(self).colors@.len() < u32::MAX,
        ensures
            old(self).colors@.contains(Color { r, g, b }) ==> final(self).colors@ == old(self).colors@ && res
                == first_index_of(old(self).colors@, Color { r, g, b }),
            !old(self).colors@.contains(Color { r, g, b }) ==> final(self).colors@ == old(self).colors@.push(
                Color { r, g, b },
            ) && res == old(self).colors@.len(),
            res < final(self).colors@.len(),
            final(self).colors@[res as int] == (Color { r, g, b }),
    {
        self.insert_color(Color::new(r, g, b))
    }

    /// A palette read from six bit VGA DAC values, three bytes per color.
    pub fn from(pal: &[u8]) -> (res: Self)
        requires
            pal@.len() % 3 == 0,
        ensures
            res.colors@.len() == pal@.len() / 3,
            forall|i: int|
                0 <= i < res.colors@.len() ==> #[trigger] res.colors@[i] == (Color {
                    r: dac_to_8bit(pal@[3 * i]),
                    g: dac_to_8bit(pal@[3 * i + 1]),
                    b: dac_to_8bit(pal@[3 * i + 2]),
                }),
    {
        let mut colors: Vec<Color> = Vec::new();
        let mut o: usize = 0;
        while o < pal.len()
            invariant
                pal@.len() % 3 == 0,
                o % 3 == 0,
                o <= pal@.len(),
                colors@.len() == o / 3,
                forall|i: int|
                    0 <= i < colors@.len() ==> #[trigger] colors@[i] == (Color {
                        r: dac_to_8bit(pal@[3 * i]),
                        g: dac_to_8bit(pal@[3 * i + 1]),
                        b: dac_to_8bit(pal@[3 * i + 2]),
                    }),
            decreases pal@.len() - o,
        {
            let r = pal[o];
            let g = pal[o + 1];
            let b = pal[o + 2];
            colors.push(Color { r: (r << 2u8) | (r >> 4u8), g: (g << 2u8) | (g >> 4u8), b: (b << 2u8) | (b >> 4u8) });
            o += 3;
        }
        Palette { colors }
    }

    /// The palette with its first sixteen colors swapped into their slots of
    /// the 64 color EGA palette.
    pub fn cycle_ega_colors(&self) -> (res: Palette)
        requires
            self.colors@.len() >= 64,
        ensures
            res.colors@ == cycle_ega(self.colors@, 16),
    {
        let mut colors = Vec::new();
        let mut k: usize = 0;
        while k < self.colors.len()
            invariant
                k <= self.colors@.len(),
                colors@ == self.colors@.subrange(0, k as int),
            decreases self.colors@.len() - k,
        {
            colors.push(self.colors[k]);
            k += 1;
            assert(colors@ =~= self.colors@.subrange(0, k as int));
        }
        assert(colors@ =~= self.colors@);
        let mut i: usize = 0;
        while i < 16
            invariant
                i <= 16,
                self.colors@.len() >= 64,
                colors@ == cycle_ega(self.colors@, i as int),
            decreases 16 - i,
        {
            proof {
                lemma_cycle_ega_len(self.colors@, i as int);
            }
            let offset = ega_offset_exec(i);
            if i != offset {
                let a = colors[i];
                let b = colors[offset];
                colors.set(i, b);
                colors.set(offset, a);
            }
            i += 1;
        }
        Palette { colors }
    }

    /// The palette as 64 six bit EGA entries: a 64 color palette is taken as
    /// EGA colors; otherwise the first sixteen colors are placed into the
    /// standard EGA palette.
    pub fn to_ega_palette(&self) -> (res: Vec<u8>)
        ensures
            self.colors@.len() == 64 ==> res@ == dac_bytes_of(cycle_ega(self.colors@, 16)),
            self.colors@.len() != 64 ==> res@ == dac_bytes_of(
                ega_with(self.colors@, if self.colors@.len() < 16 { self.colors@.len() as int } else { 16 }),
            ),
    {
        let ega_colors = if self.colors.len() == 64 {
            self.cycle_ega_colors().colors
        } else {
            let mut cs: Vec<Color> = Vec::new();
            let mut k: usize = 0;
            while k < 64
                invariant
                    k <= 64,
                    cs@ == Seq::new(64, |i: int| ega_color(i)).subrange(0, k as int),
                decreases 64 - k,
            {
                cs.push(get_ega_color(k));
                k += 1;
                assert(cs@ =~= Seq::new(64, |i: int| ega_color(i)).subrange(0, k as int));
            }
            assert(cs@ =~= ega_with(self.colors@, 0));
            let mut i: usize = 0;
            while i < 16 && i < self.colors.len()
                invariant
                    i <= 16,
                    i <= self.colors@.len(),
                    cs@ == ega_with(self.colors@, i as int),
                decreases 16 - i,
            {
                proof {
                    lemma_ega_with_len(self.colors@, i as int);
                }
                cs.set(ega_offset_exec(i), self.colors[i]);
                i += 1;
            }
            cs
        };
        let mut res = Vec::new();
        let mut j: usize = 0;
        while j < ega_colors.len()
            invariant
                j <= ega_colors@.len(),
                res@ == dac_bytes_of(ega_colors@.subrange(0, j as int)),
            decreases ega_colors@.len() - j,
        {
            push_dac(&mut res, ega_colors[j]);
            j += 1;
            assert(ega_colors@.subrange(0, j as int).drop_last() =~= ega_colors@.subrange(0, j - 1));
        }
        assert(ega_colors@.subrange(0, j as int) =~= ega_colors@);
        res
    }

    /// The first sixteen colors as six bit DAC values, completed with the
    /// DOS colors.
    pub fn to_16color_vec(&self) -> (res: Vec<u8>)
        ensures
            res@ == dac_bytes_of(
                Seq::new(16, |i: int| if i < self.colors@.len() { self.colors@[i] } else { dos_default_color(i) }),
            ),
    {
        let ghost cs = Seq::new(16, |i: int| if i < self.colors@.len() { self.colors@[i] } else { dos_default_color(i) });
        let mut res = Vec::new();
        let mut i: usize = 0;
        while i < 16
            invariant
                i <= 16,
                cs == Seq::new(16, |i: int| if i < self.colors@.len() { self.colors@[i] } else { dos_default_color(i) }),
                res@ == dac_bytes_of(cs.subrange(0, i as int)),
            decreases 16 - i,
        {
            let col = if i < self.colors.len() { self.colors[i] } else { dos_default_color_exec(i) };
            push_dac(&mut res, col);
            i += 1;
            assert(cs.subrange(0, i as int).drop_last() =~= cs.subrange(0, i - 1));
        }
        assert(cs.subrange(0, 16) =~= cs);
        res
    }

    /// Zero bytes for every color, followed by the six bit DAC values of
    /// the colors.
    pub fn to_vec(&self) -> (res: Vec<u8>)
        requires
            3 * self.colors@.len() <= usize::MAX,
        ensures
            res@ == Seq::new((3 * self.colors@.len()) as nat, |i: int| 0u8) + dac_bytes_of(self.colors@),
    {
        let n = 3 * self.colors.len();
        let mut res: Vec<u8> = Vec::new();
        let mut k: usize = 0;
        while k < n
            invariant
                k <= n,
                res@ == Seq::new(k as nat, |i: int| 0u8),
            decreases n - k,
        {
            res.push(0);
            k += 1;
            assert(res@ =~= Seq::new(k as nat, |i: int| 0u8));
        }
        let ghost zeros = res@;
        let mut j: usize = 0;
        while j < self.colors.len()
            invariant
                j <= self.colors@.len(),
                zeros == Seq::new(n as nat, |i: int| 0u8),
                res@ == zeros + dac_bytes_of(self.colors@.subrange(0, j as int)),
            decreases self.colors@.len() - j,
        {
            push_dac(&mut res, self.colors[j]);
            j += 1;
            assert(self.colors@.subrange(0, j as int).drop_last() =~= self.colors@.subrange(0, j - 1));
            assert(res@ =~= zeros + dac_bytes_of(self.colors@.subrange(0, j as int)));
        }
        assert(self.colors@.subrange(0, j as int) =~= self.colors@);
        res
    }
}

impl Color {
    pub open spec fn default_spec() -> Color {
        Color { r: 0, g: 0, b: 0 }
    }
}

impl Default for Palette {
    fn default() -> (res: Self)
        ensures
            res.colors@ == dos_default_colors(),
    {
        Palette::new()
    }
}

/// A color that a palette holds has a first index, and that index holds it.
pub proof fn lemma_first_index_of_holds_color(cs: Seq<Color>, color: Color)
    requires
        cs.contains(color),
    ensures
        0 <= first_index_of(cs, color) < cs.len(),
        cs[first_index_of(cs, color)] == color,
{
    let k = choose|k: int| 0 <= k < cs.len() && cs[k] == color;
    lemma_first_index_exists(cs, color, k);
}

proof fn lemma_first_index_exists(cs: Seq<Color>, color: Color, k: int)
    requires
        0 <= k < cs.len(),
        cs[k] == color,
    ensures
        exists|i: int| 0 <= i < cs.len() && cs[i] == color && forall|j: int| 0 <= j < i ==> cs[j] != color,
    decreases k,
{
    if exists|j: int| 0 <= j < k && cs[j] == color {
        let j = choose|j: int| 0 <= j < k && cs[j] == color;
        lemma_first_index_exists(cs, color, j);
    } else {
        assert(0 <= k < cs.len() && cs[k] == color && forall|j: int| 0 <= j < k ==> cs[j] != color);
    }
}

} // verus!

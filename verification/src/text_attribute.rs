use vstd::prelude::*;

use crate::buffer_type::BufferType;

verus! {

/// Colors and rendition flags of a character cell.
///
/// Colors are palette indices. The foreground of a bold attribute is shown in
/// its bright variant where the color is one of the eight basic ones.
#[derive(Clone, Copy, Debug, PartialEq, Eq, Structural)]
pub struct TextAttribute {
    pub foreground_color: u32,
    pub background_color: u32,
    pub font_page: usize,
    pub bold: bool,
    pub faint: bool,
    pub italic: bool,
    pub blink: bool,
    pub underline: bool,
    pub double_underline: bool,
    pub concealed: bool,
    pub crossed_out: bool,
    pub double_height: bool,
    pub overline: bool,
    pub invisible: bool,
}

/// Light gray on black with no flags set and the first font page.
pub open spec fn default_attribute() -> TextAttribute {
    TextAttribute {
        foreground_color: 7,
        background_color: 0,
        font_page: 0,
        bold: false,
        faint: false,
        italic: false,
        blink: false,
        underline: false,
        double_underline: false,
        concealed: false,
        crossed_out: false,
        double_height: false,
        overline: false,
        invisible: false,
    }
}

/// The DOS attribute byte of an attribute: the low nibble is the foreground
/// (bright where the attribute is bold), the high nibble the background; the
/// top bit also marks blinking on one of the eight basic backgrounds.
pub open spec fn dos_byte(a: TextAttribute) -> int {
    let fg: int = if a.bold && a.foreground_color < 8 { a.foreground_color + 8 } else { a.foreground_color as int };
    let bg: int = (a.background_color % 16) as int;
    fg % 16 + bg * 16 + if a.blink && bg < 8 { 128int } else { 0int }
}

/// The attribute that a DOS attribute byte describes.
pub open spec fn attribute_of_dos_byte(v: u8) -> TextAttribute {
    TextAttribute {
        foreground_color: (v % 8) as u32,
        background_color: ((v / 16) % 8) as u32,
        bold: (v / 8) % 2 == 1,
        blink: v >= 128,
        ..default_attribute()
    }
}

impl Default for TextAttribute {
    fn default() -> (res: Self)
        ensures
            res == default_attribute(),
    {
        TextAttribute::new_default()
    }
}

impl TextAttribute {
    /// Light gray on black with no flags set.
    pub fn new_default() -> (res: Self)
        ensures
            res == default_attribute(),
    {
        TextAttribute {
            foreground_color: 7,
            background_color: 0,
            font_page: 0,
            bold: false,
            faint: false,
            italic: false,
            blink: false,
            underline: false,
            double_underline: false,
            concealed: false,
            crossed_out: false,
            double_height: false,
            overline: false,
            invisible: false,
        }
    }

    /// An attribute from DOS colors: a foreground of 8 to 15 is the bright
    /// variant of color `fg - 8`, that is the basic color shown bold.
    pub fn from_color(fg: u32, bg: u32) -> (res: Self)
        ensures
            (8 <= fg < 16) ==> res == (TextAttribute { foreground_color: (fg - 8) as u32, background_color: bg, bold: true, ..default_attribute() }),
            !(8 <= fg < 16) ==> res == (TextAttribute { foreground_color: fg, background_color: bg, ..default_attribute() }),
    {
        let mut res = TextAttribute::new_default();
        if 8 <= fg && fg < 16 {
            res.foreground_color = fg - 8;
            res.bold = true;
        } else {
            res.foreground_color = fg;
        }
        res.background_color = bg;
        res
    }

    /// The attribute that a DOS attribute byte describes.
    pub fn from_u8(value: u8, buffer_type: BufferType) -> (res: Self)
        ensures
            res == attribute_of_dos_byte(value),
    {
        let mut res = TextAttribute::new_default();
        res.foreground_color = (value % 8) as u32;
        res.bold = (value / 8) % 2 == 1;
        res.background_color = ((value / 16) % 8) as u32;
        res.blink = value >= 128;
        res
    }

    /// The DOS attribute byte of this attribute; every buffer type shares the
    /// same byte layout.
    pub fn as_u8(self, buffer_type: BufferType) -> (res: u8)
        ensures
            res == dos_byte(self),
    {
        let fg: u32 = if self.bold && self.foreground_color < 8 { self.foreground_color + 8 } else { self.foreground_color };
        let bg: u32 = self.background_color % 16;
        let blink: u32 = if self.blink && bg < 8 { 128 } else { 0 };
        ((fg % 16) + bg * 16 + blink) as u8
    }

    pub fn get_foreground(self) -> (res: u32)
        ensures
            res == self.foreground_color,
    {
        self.foreground_color
    }

    pub fn set_foreground(&mut self, color: u32)
        ensures
            *final(self) == (TextAttribute { foreground_color: color, ..*old(self) }),
    {
        self.foreground_color = color;
    }

    pub fn get_background(self) -> (res: u32)
        ensures
            res == self.background_color,
    {
        self.background_color
    }

    pub fn set_background(&mut self, color: u32)
        ensures
            *final(self) == (TextAttribute { background_color: color, ..*old(self) }),
    {
        self.background_color = color;
    }

    pub fn get_font_page(self) -> (res: usize)
        ensures
            res == self.font_page,
    {
        self.font_page
    }

    pub fn set_font_page(&mut self, page: usize)
        ensures
            *final(self) == (TextAttribute { font_page: page, ..*old(self) }),
    {
        self.font_page = page;
    }

    pub fn is_bold(self) -> (res: bool)
        ensures
            res == self.bold,
    {
        self.bold
    }

    pub fn set_is_bold(&mut self, on: bool)
        ensures
            *final(self) == (TextAttribute { bold: on, ..*old(self) }),
    {
        self.bold = on;
    }

    pub fn is_faint(self) -> (res: bool)
        ensures
            res == self.faint,
    {
        self.faint
    }

    pub fn set_is_faint(&mut self, on: bool)
        ensures
            *final(self) == (TextAttribute { faint: on, ..*old(self) }),
    {
        self.faint = on;
    }

    pub fn is_italic(self) -> (res: bool)
        ensures
            res == self.italic,
    {
        self.italic
    }

    pub fn set_is_italic(&mut self, on: bool)
        ensures
            *final(self) == (TextAttribute { italic: on, ..*old(self) }),
    {
        self.italic = on;
    }

    pub fn is_blinking(self) -> (res: bool)
        ensures
            res == self.blink,
    {
        self.blink
    }

    pub fn set_is_blinking(&mut self, on: bool)
        ensures
            *final(self) == (TextAttribute { blink: on, ..*old(self) }),
    {
        self.blink = on;
    }

    pub fn is_underlined(self) -> (res: bool)
        ensures
            res == self.underline,
    {
        self.underline
    }

    pub fn set_is_underlined(&mut self, on: bool)
        ensures
            *final(self) == (TextAttribute { underline: on, ..*old(self) }),
    {
        self.underline = on;
    }

    pub fn is_double_underlined(self) -> (res: bool)
        ensures
            res == self.double_underline,
    {
        self.double_underline
    }

    pub fn set_is_double_underlined(&mut self, on: bool)
        ensures
            *final(self) == (TextAttribute { double_underline: on, ..*old(self) }),
    {
        self.double_underline = on;
    }

    pub fn is_concealed(self) -> (res: bool)
        ensures
            res == self.concealed,
    {
        self.concealed
    }

    pub fn set_is_concealed(&mut self, on: bool)
        ensures
            *final(self) == (TextAttribute { concealed: on, ..*old(self) }),
    {
        self.concealed = on;
    }

    pub fn is_crossed_out(self) -> (res: bool)
        ensures
            res == self.crossed_out,
    {
        self.crossed_out
    }

    pub fn set_is_crossed_out(&mut self, on: bool)
        ensures
            *final(self) == (TextAttribute { crossed_out: on, ..*old(self) }),
    {
        self.crossed_out = on;
    }

    pub fn is_double_height(self) -> (res: bool)
        ensures
            res == self.double_height,
    {
        self.double_height
    }

    pub fn is_overlined(self) -> (res: bool)
        ensures
            res == self.overline,
    {
        self.overline
    }

    pub fn is_invisible(self) -> (res: bool)
        ensures
            res == self.invisible,
    {
        self.invisible
    }
}

/// Reading a DOS attribute byte and writing it back gives the same byte.
pub proof fn law_dos_byte_roundtrip(v: u8)
    ensures
        dos_byte(attribute_of_dos_byte(v)) == v,
{
    let a = attribute_of_dos_byte(v);
    assert(v == v % 8 + ((v / 8) % 2) * 8 + ((v / 16) % 8) * 16 + (if v >= 128 { 128int } else { 0int }));
}

} // verus!

use vstd::prelude::*;

verus! {

/// The character set that a buffer's characters are drawn from.
#[derive(Clone, Copy, Debug, PartialEq, Eq, Structural)]
pub enum BufferType {
    Unicode,
    CP437,
    Petscii,
    Atascii,
    Viewdata,
}

pub open spec fn buffer_type_byte(t: BufferType) -> u8 {
    match t {
        BufferType::Unicode => 0,
        BufferType::CP437 => 1,
        BufferType::Petscii => 2,
        BufferType::Atascii => 3,
        BufferType::Viewdata => 4,
    }
}

impl BufferType {
    /// Bytes 1 to 4 name the non-unicode types; every other byte is `Unicode`.
    pub fn from_byte(b: u8) -> (res: Self)
        ensures
            res == buffer_type_from_byte(b),
    {
        match b {
            1 => BufferType::CP437,
            2 => BufferType::Petscii,
            3 => BufferType::Atascii,
            4 => BufferType::Viewdata,
            _ => BufferType::Unicode,
        }
    }

    pub fn to_byte(self) -> (res: u8)
        ensures
            res == buffer_type_byte(self),
    {
        match self {
            BufferType::Unicode => 0,
            BufferType::CP437 => 1,
            BufferType::Petscii => 2,
            BufferType::Atascii => 3,
            BufferType::Viewdata => 4,
        }
    }
}

/// How the high bit of a background color is used: blinking, bright
/// backgrounds (ice colors) or both.
#[derive(Clone, Copy, Debug, PartialEq, Eq, Structural)]
pub enum IceMode {
    Unlimited,
    Blink,
    Ice,
}

pub open spec fn ice_mode_byte(m: IceMode) -> u8 {
    match m {
        IceMode::Unlimited => 0,
        IceMode::Blink => 1,
        IceMode::Ice => 2,
    }
}

impl IceMode {
    pub fn from_byte(b: u8) -> (res: Self)
        ensures
            res == ice_mode_from_byte(b),
    {
        match b {
            0 => IceMode::Unlimited,
            1 => IceMode::Blink,
            _ => IceMode::Ice,
        }
    }

    pub fn to_byte(self) -> (res: u8)
        ensures
            res == ice_mode_byte(self),
    {
        match self {
            IceMode::Unlimited => 0,
            IceMode::Blink => 1,
            IceMode::Ice => 2,
        }
    }

    pub fn has_blink(self) -> (res: bool)
        ensures
            res == (self != IceMode::Ice),
    {
        !matches!(self, IceMode::Ice)
    }

    pub fn has_high_bg_colors(self) -> (res: bool)
        ensures
            res == (self != IceMode::Blink),
    {
        !matches!(self, IceMode::Blink)
    }
}

/// Which colors a buffer may use.
#[derive(Clone, Copy, Debug, PartialEq, Eq, Structural)]
pub enum PaletteMode {
    RGB,
    Fixed16,
    /// Extended font mode in XB + Blink limits to 8 colors
    Free8,
    Free16,
}

pub open spec fn palette_mode_byte(m: PaletteMode) -> u8 {
    match m {
        PaletteMode::RGB => 0,
        PaletteMode::Fixed16 => 1,
        PaletteMode::Free8 => 2,
        PaletteMode::Free16 => 3,
    }
}

impl PaletteMode {
    pub fn from_byte(b: u8) -> (res: Self)
        ensures
            res == palette_mode_from_byte(b),
    {
        match b {
            1 => PaletteMode::Fixed16,
            2 => PaletteMode::Free8,
            3 => PaletteMode::Free16,
            _ => PaletteMode::RGB,
        }
    }

    pub fn to_byte(self) -> (res: u8)
        ensures
            res == palette_mode_byte(self),
    {
        match self {
            PaletteMode::RGB => 0,
            PaletteMode::Fixed16 => 1,
            PaletteMode::Free8 => 2,
            PaletteMode::Free16 => 3,
        }
    }
}

/// How many fonts a buffer may use.
#[derive(Clone, Copy, Debug, PartialEq, Eq, Structural)]
pub enum FontMode {
    /// Multiple fonts in the same document are possible without limit.
    Unlimited,
    /// Single font only sauce fonts apply
    Sauce,
    /// Single font all fonts are possible
    Single,
    /// Used to limit the the font pages
    /// For example 2 fonts for XB enhanced font mode.
    FixedSize,
}

pub open spec fn font_mode_byte(m: FontMode) -> u8 {
    match m {
        FontMode::Unlimited => 0,
        FontMode::Sauce => 1,
        FontMode::Single => 2,
        FontMode::FixedSize => 3,
    }
}

impl FontMode {
    pub fn from_byte(b: u8) -> (res: Self)
        ensures
            res == font_mode_from_byte(b),
    {
        match b {
            1 => FontMode::Sauce,
            2 => FontMode::Single,
            3 => FontMode::FixedSize,
            _ => FontMode::Unlimited,
        }
    }

    pub fn to_byte(self) -> (res: u8)
        ensures
            res == font_mode_byte(self),
    {
        match self {
            FontMode::Unlimited => 0,
            FontMode::Sauce => 1,
            FontMode::Single => 2,
            FontMode::FixedSize => 3,
        }
    }

    pub fn has_high_fg_colors(self) -> (res: bool)
        ensures
            res == (self != FontMode::FixedSize),
    {
        !matches!(self, FontMode::FixedSize)
    }
}

/// Writing a mode to its byte and reading the byte back gives the same mode,
/// for each of the four modes that have a byte.
pub proof fn law_mode_bytes_roundtrip(t: BufferType, i: IceMode, p: PaletteMode, f: FontMode)
    ensures
        buffer_type_from_byte(buffer_type_byte(t)) == t,
        ice_mode_from_byte(ice_mode_byte(i)) == i,
        palette_mode_from_byte(palette_mode_byte(p)) == p,
        font_mode_from_byte(font_mode_byte(f)) == f,
{
}

pub open spec fn buffer_type_from_byte(b: u8) -> BufferType {
    if b == 1 { BufferType::CP437 } else if b == 2 { BufferType::Petscii } else if b == 3 { BufferType::Atascii } else if b == 4 { BufferType::Viewdata } else { BufferType::Unicode }
}

pub open spec fn ice_mode_from_byte(b: u8) -> IceMode {
    if b == 0 { IceMode::Unlimited } else if b == 1 { IceMode::Blink } else { IceMode::Ice }
}

pub open spec fn palette_mode_from_byte(b: u8) -> PaletteMode {
    if b == 1 { PaletteMode::Fixed16 } else if b == 2 { PaletteMode::Free8 } else if b == 3 { PaletteMode::Free16 } else { PaletteMode::RGB }
}

pub open spec fn font_mode_from_byte(b: u8) -> FontMode {
    if b == 1 { FontMode::Sauce } else if b == 2 { FontMode::Single } else if b == 3 { FontMode::FixedSize } else { FontMode::Unlimited }
}

} // verus!

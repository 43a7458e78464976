use vstd::prelude::*;
use vstd::utf8::{decode_utf8, valid_utf8};

use crate::buffer_type::BufferType;
use crate::text::push_char;

verus! {

/// What a saved file does to the screen before its content.
#[derive(Clone, Copy, Debug, Default, PartialEq, Eq, Structural)]
pub enum ScreenPreperation {
    #[default]
    Unchanged,
    ClearScreen,
    Home,
}

/// How a buffer is written to a file.
#[derive(Clone, Debug)]
pub struct SaveOptions {
    pub screen_preparation: ScreenPreperation,
    pub buffer_type: BufferType,
    pub modern_terminal_output: bool,
    pub save_sauce: bool,
    pub compress: bool,
    pub output_line_length: Option<usize>,
    pub preserve_invisible_chars: bool,
}

/// The options a file is written with unless told otherwise: no screen
/// preparation, code page 437, compressed, without SAUCE record.
pub open spec fn default_save_options() -> SaveOptions {
    SaveOptions {
        screen_preparation: ScreenPreperation::Unchanged,
        buffer_type: BufferType::CP437,
        modern_terminal_output: false,
        save_sauce: false,
        compress: true,
        output_line_length: None,
        preserve_invisible_chars: false,
    }
}

impl SaveOptions {
    pub fn new() -> (res: Self)
        ensures
            res == default_save_options(),
    {
        SaveOptions {
            screen_preparation: ScreenPreperation::Unchanged,
            buffer_type: BufferType::CP437,
            modern_terminal_output: false,
            save_sauce: false,
            compress: true,
            output_line_length: None,
            preserve_invisible_chars: false,
        }
    }
}

impl Default for SaveOptions {
    fn default() -> (res: Self)
        ensures
            res == default_save_options(),
    {
        SaveOptions::new()
    }
}

/// Why a file could not be loaded.
#[derive(Clone, Debug)]
pub enum LoadingError {
    OpenFileError(String),
    Error(String),
    ReadFileError(String),
    FileTooShort,
    IcyDrawUnsupportedLayerMode(u8),
    InvalidPng(String),
    UnsupportedADFVersion(u8),
    FileLengthNeedsToBeEven,
    IDMismatch,
    OutOfBounds,
}

/// Why a buffer could not be saved in a format.
#[derive(Clone, Copy, Debug, PartialEq, Eq, Structural)]
pub enum SavingError {
    NoFontFound,
    Only8x16FontsSupported,
    InvalidXBinFont,
}

/// What two buffers are compared by.
#[derive(Clone, Copy, Debug, PartialEq, Eq, Structural)]
pub struct CompareOptions {
    pub compare_palette: bool,
}

impl CompareOptions {
    /// Compare everything, the palette included.
    pub fn all() -> (res: Self)
        ensures
            res.compare_palette,
    {
        CompareOptions { compare_palette: true }
    }
}

/// `String::from_utf8`: the text that `bytes` encode in UTF-8, where they
/// are valid UTF-8 (the result's view is then vstd's decoding of them),
/// nothing otherwise.
#[verifier::external_body]
fn string_from_utf8(bytes: Vec<u8>) -> (res: Option<String>)
    ensures
        res is Some <==> valid_utf8(bytes@),
        res matches Some(s) ==> s@ == decode_utf8(bytes@),
{
    String::from_utf8(bytes).ok()
}

/// Each byte taken as the character of the same number.
pub open spec fn bytes_as_chars(data: Seq<u8>) -> Seq<char> {
    data.map_values(|b: u8| b as char)
}

/// The byte order mark that starts a UTF-8 file.
pub open spec fn has_utf8_bom(data: Seq<u8>) -> bool {
    data.len() >= 3 && data[0] == 0xEF && data[1] == 0xBB && data[2] == 0xBF
}

/// Reads file data as text: data that starts with a UTF-8 byte order mark
/// and is valid UTF-8 is decoded (the mark kept) and reported as such;
/// anything else is read byte by byte, each byte the character of its
/// number.
pub fn convert_ansi_to_utf8(data: &[u8]) -> (res: (String, bool))
    ensures
        has_utf8_bom(data@) && valid_utf8(data@) ==> res.0@ == decode_utf8(data@) && res.1,
        !(has_utf8_bom(data@) && valid_utf8(data@)) ==> res.0@ == bytes_as_chars(data@) && !res.1,
{
    if data.len() >= 3 && data[0] == 0xEF && data[1] == 0xBB && data[2] == 0xBF {
        let mut copy: Vec<u8> = Vec::new();
        let mut i: usize = 0;
        while i < data.len()
            invariant
                i <= data@.len(),
                copy@ == data@.subrange(0, i as int),
            decreases data@.len() - i,
        {
            copy.push(data[i]);
            i += 1;
            assert(copy@ =~= data@.subrange(0, i as int));
        }
        assert(copy@ =~= data@);
        if let Some(result) = string_from_utf8(copy) {
            return (result, true);
        }
    }
    let mut result = String::new();
    let mut i: usize = 0;
    while i < data.len()
        invariant
            i <= data@.len(),
            result@ == bytes_as_chars(data@.subrange(0, i as int)),
        decreases data@.len() - i,
    {
        push_char(&mut result, data[i] as char);
        i += 1;
        assert(result@ =~= bytes_as_chars(data@.subrange(0, i as int)));
    }
    assert(data@.subrange(0, i as int) =~= data@);
    (result, false)
}

} // verus!

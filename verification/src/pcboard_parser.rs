use vstd::prelude::*;

use crate::ansi_parser::{ansi_char_ok, ansi_step, initial_ansi_parser, AnsiParser};
use crate::buffer::Buffer;
use crate::caret::Caret;
use crate::parser_errors::ParserError;
use crate::text_attribute::{attribute_of_dos_byte, TextAttribute};

verus! {

/// A parser for PCBoard text: ANSI output where `@X` and two hex digits set
/// the attribute and other `@` codes are left out.
pub struct PCBoardParser {
    pub ansi_parser: AnsiParser,
    pub pcb_code: bool,
    pub pcb_color: bool,
    pub pcb_value: u8,
    pub pcb_pos: i32,
}

/// The value of a hexadecimal digit; 0 for any other character.
pub open spec fn hex_value(ch: char) -> u8 {
    if '0' <= ch <= '9' {
        (ch as int - '0' as int) as u8
    } else if 'a' <= ch <= 'f' {
        (10 + ch as int - 'a' as int) as u8
    } else if 'A' <= ch <= 'F' {
        (10 + ch as int - 'A' as int) as u8
    } else {
        0
    }
}

/// See `hex_value`.
pub fn conv_ch(ch: char) -> (res: u8)
    ensures
        res == hex_value(ch),
        res < 16,
{
    if '0' <= ch && ch <= '9' {
        return (ch as u32 - '0' as u32) as u8;
    }
    if 'a' <= ch && ch <= 'f' {
        return (10 + ch as u32 - 'a' as u32) as u8;
    }
    if 'A' <= ch && ch <= 'F' {
        return (10 + ch as u32 - 'A' as u32) as u8;
    }
    0
}

/// What a character does: inside `@X`, the two following characters give
/// the attribute byte (high nibble first); after another `@` everything up
/// to the next `@` is left out (an `X` there starts a color); an `@` starts
/// a code; anything else goes to the ANSI parser.
pub open spec fn pcboard_step(
    p0: PCBoardParser,
    b0: Buffer,
    c0: Caret,
    ch: char,
    p1: PCBoardParser,
    b1: Buffer,
    c1: Caret,
    res: Result<Option<String>, ParserError>,
) -> bool {
    let ok = res == Ok::<Option<String>, ParserError>(None);
    if p0.pcb_color {
        let pos = p0.pcb_pos + 1;
        &&& ok && b1 == b0
        &&& p1.ansi_parser@ == p0.ansi_parser@
        &&& if pos == 1 {
            p1 == (PCBoardParser { pcb_pos: pos as i32, pcb_value: hex_value(ch), ansi_parser: p1.ansi_parser, ..p0 }) && c1 == c0
        } else {
            let v = if pos == 2 { ((p0.pcb_value * 16) % 256 + hex_value(ch)) as u8 } else { p0.pcb_value };
            &&& p1 == (PCBoardParser { pcb_pos: pos as i32, pcb_value: v, pcb_color: false, pcb_code: false, ansi_parser: p1.ansi_parser, ..p0 })
            &&& c1 == if pos == 2 { Caret { attribute: attribute_of_dos_byte(v), ..c0 } } else { c0 }
        }
    } else if p0.pcb_code {
        &&& ok && b1 == b0 && c1 == c0
        &&& p1.ansi_parser@ == p0.ansi_parser@
        &&& p1 == if ch == '@' {
            PCBoardParser { pcb_code: false, ansi_parser: p1.ansi_parser, ..p0 }
        } else if ch == 'X' {
            PCBoardParser { pcb_color: true, pcb_pos: 0, ansi_parser: p1.ansi_parser, ..p0 }
        } else {
            PCBoardParser { ansi_parser: p1.ansi_parser, ..p0 }
        }
    } else if ch == '@' {
        &&& ok && b1 == b0 && c1 == c0
        &&& p1.ansi_parser@ == p0.ansi_parser@
        &&& p1 == (PCBoardParser { pcb_code: true, ansi_parser: p1.ansi_parser, ..p0 })
    } else {
        &&& p1 == (PCBoardParser { ansi_parser: p1.ansi_parser, ..p0 })
        &&& ansi_step(p0.ansi_parser@, b0, c0, ch, p1.ansi_parser@, b1, c1, res)
    }
}

impl PCBoardParser {
    pub fn new() -> (res: Self)
        ensures
            !res.pcb_code && !res.pcb_color && res.pcb_value == 0 && res.pcb_pos == 0,
            res.ansi_parser@ == initial_ansi_parser(),
    {
        PCBoardParser { ansi_parser: AnsiParser::new(), pcb_code: false, pcb_color: false, pcb_value: 0, pcb_pos: 0 }
    }

    /// Reads one character; see `pcboard_step`.
    pub fn print_char(&mut self, buf: &mut Buffer, caret: &mut Caret, ch: char) -> (res: Result<Option<String>, ParserError>)
        requires
            old(buf).layers@.len() > 0,
            old(self).pcb_pos < i32::MAX,
            !old(self).pcb_color && !old(self).pcb_code && ch != '@' ==> ansi_char_ok(old(self).ansi_parser@, *old(buf), *old(caret), ch),
        ensures
            final(buf).layers@.len() == old(buf).layers@.len(),
            pcboard_step(*old(self), *old(buf), *old(caret), ch, *final(self), *final(buf), *final(caret), res),
    {
        if self.pcb_color {
            self.pcb_pos = self.pcb_pos + 1;
            if self.pcb_pos == 1 {
                self.pcb_value = conv_ch(ch);
                return Ok(None);
            }
            if self.pcb_pos == 2 {
                self.pcb_value = ((self.pcb_value as u32 * 16) % 256 + conv_ch(ch) as u32) as u8;
                caret.attribute = TextAttribute::from_u8(self.pcb_value, buf.buffer_type);
            }
            self.pcb_color = false;
            self.pcb_code = false;
            return Ok(None);
        }
        if self.pcb_code {
            if ch == '@' {
                self.pcb_code = false;
            } else if ch == 'X' {
                self.pcb_color = true;
                self.pcb_pos = 0;
            }
            return Ok(None);
        }
        if ch == '@' {
            self.pcb_code = true;
            Ok(None)
        } else {
            self.ansi_parser.print_char(buf, caret, ch)
        }
    }
}

} // verus!

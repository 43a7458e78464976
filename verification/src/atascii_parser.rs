use vstd::prelude::*;

use crate::ansi_csi::{clear_screen_effect, inserted_line_cells, removed_line_cells};
use crate::ansi_parser::{bs_effect, del_cells, ins_cells, lf_effect, moved_effect, print_effect};
use crate::attributed_char::AttributedChar;
use crate::buffer::{all_cells, geom, last_editable_line, limited_pos, same_except_cells, Buffer};
use crate::caret::Caret;
use crate::geometry::Position;
use crate::layer::sat_i32;
use crate::parser_errors::ParserError;
use crate::terminal_ops::{moved_down, moved_up};

verus! {

/// Reads the byte stream of an Atari 8-bit terminal (ATASCII).
pub struct AtasciiParser {
    /// The byte before was ESC: the next byte is printed as it is.
    pub got_escape: bool,
}

/// What one ATASCII byte does.
pub enum AtasciiAction {
    /// Show the byte as a character.
    Print,
    /// Print the next byte as it is.
    Escape,
    Up,
    Down,
    Left,
    Right,
    ClearScreen,
    Backspace,
    LineFeed,
    DeleteLine,
    InsertLine,
    DeleteChar,
    InsertChar,
    /// Tab, tab stops and the buzzer: nothing is done.
    Ignore,
}

/// The action of byte `ch`; after ESC every byte is printed.
pub open spec fn atascii_action(got_escape: bool, ch: u8) -> AtasciiAction {
    if got_escape {
        AtasciiAction::Print
    } else if ch == 0x1c {
        AtasciiAction::Up
    } else if ch == 0x1d {
        AtasciiAction::Down
    } else if ch == 0x1e {
        AtasciiAction::Left
    } else if ch == 0x1f {
        AtasciiAction::Right
    } else if ch == 0x7d {
        AtasciiAction::ClearScreen
    } else if ch == 0x7e {
        AtasciiAction::Backspace
    } else if ch == 0x9b {
        AtasciiAction::LineFeed
    } else if ch == 0x9c {
        AtasciiAction::DeleteLine
    } else if ch == 0x9d {
        AtasciiAction::InsertLine
    } else if ch == 0xfe {
        AtasciiAction::DeleteChar
    } else if ch == 0xff {
        AtasciiAction::InsertChar
    } else if ch == 0x1b {
        AtasciiAction::Escape
    } else if ch == 0x7f || ch == 0x9e || ch == 0x9f || ch == 0xfd {
        AtasciiAction::Ignore
    } else {
        AtasciiAction::Print
    }
}

/// The buffer and caret after byte `ch` did `action`.
pub open spec fn atascii_effect(action: AtasciiAction, ch: u8, b0: Buffer, c0: Caret, b1: Buffer, c1: Caret) -> bool {
    match action {
        AtasciiAction::Print => print_effect(b0, c0, AttributedChar::spec_new(ch as char, c0.attribute), b1, c1),
        AtasciiAction::Escape | AtasciiAction::Ignore => b1 == b0 && c1 == c0,
        AtasciiAction::Up => {
            let (cs, p) = moved_up(geom(b0), all_cells(b0), c0.pos.x as int, sat_i32(c0.pos.y - 1), false);
            moved_effect(b0, c0, b1, c1, cs, p)
        },
        AtasciiAction::Down => {
            let (cs, p) = moved_down(geom(b0), all_cells(b0), c0.pos.x as int, sat_i32(c0.pos.y + 1), false);
            moved_effect(b0, c0, b1, c1, cs, p)
        },
        AtasciiAction::Left => b1 == b0 && c1 == (Caret {
            pos: limited_pos(b0, Position { x: sat_i32(c0.pos.x - 1) as i32, y: c0.pos.y }),
            ..c0
        }),
        AtasciiAction::Right => {
            let w = sat_i32(b0.size.width as int);
            let x1 = sat_i32(c0.pos.x + 1);
            let y0 = c0.pos.y as int;
            let p = if x1 > w && y0 < last_editable_line(b0) && w > 0 {
                Position { x: (x1 % w) as i32, y: sat_i32(y0 + x1 / w) as i32 }
            } else {
                Position { x: x1 as i32, y: y0 as i32 }
            };
            b1 == b0 && c1 == (Caret { pos: limited_pos(b0, p), ..c0 })
        },
        AtasciiAction::ClearScreen => clear_screen_effect(b0, c0, b1, c1),
        AtasciiAction::Backspace => bs_effect(b0, c0, b1, c1),
        AtasciiAction::LineFeed => lf_effect(b0, c0, b1, c1),
        AtasciiAction::DeleteLine => c1 == c0 && same_except_cells(b0, b1) && all_cells(b1) == removed_line_cells(
            b0.layers@[0],
            b0.terminal_state.margins,
            all_cells(b0),
            c0.pos.y as int,
        ),
        AtasciiAction::InsertLine => c1 == c0 && same_except_cells(b0, b1) && all_cells(b1) == inserted_line_cells(
            b0.layers@[0],
            b0.terminal_state.margins,
            all_cells(b0),
            c0.pos.y as int,
        ),
        AtasciiAction::DeleteChar => c1 == c0 && same_except_cells(b0, b1) && all_cells(b1) == del_cells(
            all_cells(b0),
            c0.pos.x as int,
            c0.pos.y as int,
        ),
        AtasciiAction::InsertChar => c1 == c0 && same_except_cells(b0, b1) && all_cells(b1) == ins_cells(
            all_cells(b0),
            c0.pos.x as int,
            c0.pos.y as int,
        ),
    }
}

/// The character that ATASCII code `b` stands for.
pub open spec fn atari_char(b: u8) -> char {
    match b {
        0 => '\u{2665}',
        1 => '\u{251c}',
        2 => '\u{1fb87}',
        3 => '\u{2518}',
        4 => '\u{2524}',
        5 => '\u{2510}',
        6 => '\u{2571}',
        7 => '\u{2572}',
        8 => '\u{25e2}',
        9 => '\u{2597}',
        10 => '\u{25e3}',
        11 => '\u{259d}',
        12 => '\u{2598}',
        13 => '\u{1fb82}',
        14 => '\u{2582}',
        15 => '\u{2596}',
        16 => '\u{2663}',
        17 => '\u{250c}',
        18 => '\u{2500}',
        19 => '\u{253c}',
        20 => '\u{2022}',
        21 => '\u{2584}',
        22 => '\u{258e}',
        23 => '\u{252c}',
        24 => '\u{2534}',
        25 => '\u{258c}',
        26 => '\u{2514}',
        27 => '\u{241b}',
        28 => '\u{2191}',
        29 => '\u{2193}',
        30 => '\u{2190}',
        31 => '\u{2192}',
        32 => ' ',
        33 => '!',
        34 => '"',
        35 => '#',
        36 => '$',
        37 => '%',
        38 => '&',
        39 => '\'',
        40 => '(',
        41 => ')',
        42 => '*',
        43 => '+',
        44 => ',',
        45 => '-',
        46 => '.',
        47 => '/',
        48 => '0',
        49 => '1',
        50 => '2',
        51 => '3',
        52 => '4',
        53 => '5',
        54 => '6',
        55 => '7',
        56 => '8',
        57 => '9',
        58 => ':',
        59 => ';',
        60 => '<',
        61 => '=',
        62 => '>',
        63 => '?',
        64 => '@',
        65 => 'A',
        66 => 'B',
        67 => 'C',
        68 => 'D',
        69 => 'E',
        70 => 'F',
        71 => 'G',
        72 => 'H',
        73 => 'I',
        74 => 'J',
        75 => 'K',
        76 => 'L',
        77 => 'M',
        78 => 'N',
        79 => 'O',
        80 => 'P',
        81 => 'Q',
        82 => 'R',
        83 => 'S',
        84 => 'T',
        85 => 'U',
        86 => 'V',
        87 => 'W',
        88 => 'X',
        89 => 'Y',
        90 => 'Z',
        91 => '[',
        92 => '\\',
        93 => ']',
        94 => '^',
        95 => '_',
        96 => '\u{2666}',
        97 => 'a',
        98 => 'b',
        99 => 'c',
        100 => 'd',
        101 => 'e',
        102 => 'f',
        103 => 'g',
        104 => 'h',
        105 => 'i',
        106 => 'j',
        107 => 'k',
        108 => 'l',
        109 => 'm',
        110 => 'n',
        111 => 'o',
        112 => 'p',
        113 => 'q',
        114 => 'r',
        115 => 's',
        116 => 't',
        117 => 'u',
        118 => 'v',
        119 => 'w',
        120 => 'x',
        121 => 'y',
        122 => 'z',
        123 => '\u{2660}',
        124 => '|',
        125 => '\u{1f8b0}',
        126 => '\u{25c0}',
        127 => '\u{25b6}',
        128 => '\u{2665}',
        129 => '\u{251c}',
        130 => '\u{258a}',
        131 => '\u{2518}',
        132 => '\u{2524}',
        133 => '\u{2510}',
        134 => '\u{2571}',
        135 => '\u{2572}',
        136 => '\u{25e4}',
        137 => '\u{259b}',
        138 => '\u{25e5}',
        139 => '\u{2599}',
        140 => '\u{259f}',
        141 => '\u{2586}',
        142 => '\u{2582}',
        143 => '\u{259c}',
        144 => '\u{2663}',
        145 => '\u{250c}',
        146 => '\u{2500}',
        147 => '\u{253c}',
        148 => '\u{2022}',
        149 => '\u{2580}',
        150 => '\u{258e}',
        151 => '\u{252c}',
        152 => '\u{2534}',
        153 => '\u{2590}',
        154 => '\u{2514}',
        155 => '\u{8}',
        156 => '\u{2191}',
        157 => '\u{2193}',
        158 => '\u{2190}',
        159 => '\u{2192}',
        160 => '\u{2588}',
        161 => '!',
        162 => '"',
        163 => '#',
        164 => '$',
        165 => '%',
        166 => '&',
        167 => '\'',
        168 => '(',
        169 => ')',
        170 => '*',
        171 => '+',
        172 => ',',
        173 => '-',
        174 => '.',
        175 => '/',
        176 => '0',
        177 => '1',
        178 => '2',
        179 => '3',
        180 => '4',
        181 => '5',
        182 => '6',
        183 => '7',
        184 => '8',
        185 => '9',
        186 => ':',
        187 => ';',
        188 => '<',
        189 => '=',
        190 => '>',
        191 => '?',
        192 => '@',
        193 => 'A',
        194 => 'B',
        195 => 'C',
        196 => 'D',
        197 => 'E',
        198 => 'F',
        199 => 'G',
        200 => 'H',
        201 => 'I',
        202 => 'J',
        203 => 'K',
        204 => 'L',
        205 => 'M',
        206 => 'N',
        207 => 'O',
        208 => 'P',
        209 => 'Q',
        210 => 'R',
        211 => 'S',
        212 => 'T',
        213 => 'U',
        214 => 'V',
        215 => 'W',
        216 => 'X',
        217 => 'Y',
        218 => 'Z',
        219 => '[',
        220 => '\\',
        221 => ']',
        222 => '^',
        223 => '_',
        224 => '\u{2666}',
        225 => 'a',
        226 => 'b',
        227 => 'c',
        228 => 'd',
        229 => 'e',
        230 => 'f',
        231 => 'g',
        232 => 'h',
        233 => 'i',
        234 => 'j',
        235 => 'k',
        236 => 'l',
        237 => 'm',
        238 => 'n',
        239 => 'o',
        240 => 'p',
        241 => 'q',
        242 => 'r',
        243 => 's',
        244 => 't',
        245 => 'u',
        246 => 'v',
        247 => 'w',
        248 => 'x',
        249 => 'y',
        250 => 'z',
        251 => '\u{2660}',
        252 => '-',
        253 => '\u{1f8b0}',
        254 => '\u{25c0}',
        _ => '\u{25b6}',
    }
}

/// The character that ATASCII code `b` stands for.
pub fn atari_to_unicode(b: u8) -> (res: char)
    ensures
        res == atari_char(b),
{
    match b {
        0 => '\u{2665}',
        1 => '\u{251c}',
        2 => '\u{1fb87}',
        3 => '\u{2518}',
        4 => '\u{2524}',
        5 => '\u{2510}',
        6 => '\u{2571}',
        7 => '\u{2572}',
        8 => '\u{25e2}',
        9 => '\u{2597}',
        10 => '\u{25e3}',
        11 => '\u{259d}',
        12 => '\u{2598}',
        13 => '\u{1fb82}',
        14 => '\u{2582}',
        15 => '\u{2596}',
        16 => '\u{2663}',
        17 => '\u{250c}',
        18 => '\u{2500}',
        19 => '\u{253c}',
        20 => '\u{2022}',
        21 => '\u{2584}',
        22 => '\u{258e}',
        23 => '\u{252c}',
        24 => '\u{2534}',
        25 => '\u{258c}',
        26 => '\u{2514}',
        27 => '\u{241b}',
        28 => '\u{2191}',
        29 => '\u{2193}',
        30 => '\u{2190}',
        31 => '\u{2192}',
        32 => ' ',
        33 => '!',
        34 => '"',
        35 => '#',
        36 => '$',
        37 => '%',
        38 => '&',
        39 => '\'',
        40 => '(',
        41 => ')',
        42 => '*',
        43 => '+',
        44 => ',',
        45 => '-',
        46 => '.',
        47 => '/',
        48 => '0',
        49 => '1',
        50 => '2',
        51 => '3',
        52 => '4',
        53 => '5',
        54 => '6',
        55 => '7',
        56 => '8',
        57 => '9',
        58 => ':',
        59 => ';',
        60 => '<',
        61 => '=',
        62 => '>',
        63 => '?',
        64 => '@',
        65 => 'A',
        66 => 'B',
        67 => 'C',
        68 => 'D',
        69 => 'E',
        70 => 'F',
        71 => 'G',
        72 => 'H',
        73 => 'I',
        74 => 'J',
        75 => 'K',
        76 => 'L',
        77 => 'M',
        78 => 'N',
        79 => 'O',
        80 => 'P',
        81 => 'Q',
        82 => 'R',
        83 => 'S',
        84 => 'T',
        85 => 'U',
        86 => 'V',
        87 => 'W',
        88 => 'X',
        89 => 'Y',
        90 => 'Z',
        91 => '[',
        92 => '\\',
        93 => ']',
        94 => '^',
        95 => '_',
        96 => '\u{2666}',
        97 => 'a',
        98 => 'b',
        99 => 'c',
        100 => 'd',
        101 => 'e',
        102 => 'f',
        103 => 'g',
        104 => 'h',
        105 => 'i',
        106 => 'j',
        107 => 'k',
        108 => 'l',
        109 => 'm',
        110 => 'n',
        111 => 'o',
        112 => 'p',
        113 => 'q',
        114 => 'r',
        115 => 's',
        116 => 't',
        117 => 'u',
        118 => 'v',
        119 => 'w',
        120 => 'x',
        121 => 'y',
        122 => 'z',
        123 => '\u{2660}',
        124 => '|',
        125 => '\u{1f8b0}',
        126 => '\u{25c0}',
        127 => '\u{25b6}',
        128 => '\u{2665}',
        129 => '\u{251c}',
        130 => '\u{258a}',
        131 => '\u{2518}',
        132 => '\u{2524}',
        133 => '\u{2510}',
        134 => '\u{2571}',
        135 => '\u{2572}',
        136 => '\u{25e4}',
        137 => '\u{259b}',
        138 => '\u{25e5}',
        139 => '\u{2599}',
        140 => '\u{259f}',
        141 => '\u{2586}',
        142 => '\u{2582}',
        143 => '\u{259c}',
        144 => '\u{2663}',
        145 => '\u{250c}',
        146 => '\u{2500}',
        147 => '\u{253c}',
        148 => '\u{2022}',
        149 => '\u{2580}',
        150 => '\u{258e}',
        151 => '\u{252c}',
        152 => '\u{2534}',
        153 => '\u{2590}',
        154 => '\u{2514}',
        155 => '\u{8}',
        156 => '\u{2191}',
        157 => '\u{2193}',
        158 => '\u{2190}',
        159 => '\u{2192}',
        160 => '\u{2588}',
        161 => '!',
        162 => '"',
        163 => '#',
        164 => '$',
        165 => '%',
        166 => '&',
        167 => '\'',
        168 => '(',
        169 => ')',
        170 => '*',
        171 => '+',
        172 => ',',
        173 => '-',
        174 => '.',
        175 => '/',
        176 => '0',
        177 => '1',
        178 => '2',
        179 => '3',
        180 => '4',
        181 => '5',
        182 => '6',
        183 => '7',
        184 => '8',
        185 => '9',
        186 => ':',
        187 => ';',
        188 => '<',
        189 => '=',
        190 => '>',
        191 => '?',
        192 => '@',
        193 => 'A',
        194 => 'B',
        195 => 'C',
        196 => 'D',
        197 => 'E',
        198 => 'F',
        199 => 'G',
        200 => 'H',
        201 => 'I',
        202 => 'J',
        203 => 'K',
        204 => 'L',
        205 => 'M',
        206 => 'N',
        207 => 'O',
        208 => 'P',
        209 => 'Q',
        210 => 'R',
        211 => 'S',
        212 => 'T',
        213 => 'U',
        214 => 'V',
        215 => 'W',
        216 => 'X',
        217 => 'Y',
        218 => 'Z',
        219 => '[',
        220 => '\\',
        221 => ']',
        222 => '^',
        223 => '_',
        224 => '\u{2666}',
        225 => 'a',
        226 => 'b',
        227 => 'c',
        228 => 'd',
        229 => 'e',
        230 => 'f',
        231 => 'g',
        232 => 'h',
        233 => 'i',
        234 => 'j',
        235 => 'k',
        236 => 'l',
        237 => 'm',
        238 => 'n',
        239 => 'o',
        240 => 'p',
        241 => 'q',
        242 => 'r',
        243 => 's',
        244 => 't',
        245 => 'u',
        246 => 'v',
        247 => 'w',
        248 => 'x',
        249 => 'y',
        250 => 'z',
        251 => '\u{2660}',
        252 => '-',
        253 => '\u{1f8b0}',
        254 => '\u{25c0}',
        _ => '\u{25b6}',
    }
}

impl AtasciiParser {
    /// The character for `ch` on an Atari: the character of its ATASCII code
    /// below 128 where it has one, `ch` itself otherwise.
    pub fn from_unicode(&self, ch: char) -> (res: char)
        ensures
            (exists|a: u8| a < 128 && atari_char(a) == ch) ==> atari_char(res as u8) == ch && (res as u32) < 128,
            !(exists|a: u8| a < 128 && atari_char(a) == ch) ==> res == ch,
    {
        let mut a: u8 = 0;
        while a < 128
            invariant
                a <= 128,
                forall|b: u8| b < a ==> atari_char(b) != ch,
            decreases 128 - a,
        {
            if atari_to_unicode(a) == ch {
                return a as char;
            }
            a += 1;
        }
        ch
    }

    /// The character that code `ch` stands for where it is below 256, `ch`
    /// itself otherwise.
    pub fn to_unicode(&self, ch: char) -> (res: char)
        ensures
            (ch as u32) < 256 ==> res == atari_char(ch as u8),
            (ch as u32) >= 256 ==> res == ch,
    {
        if (ch as u32) < 256 {
            atari_to_unicode(ch as u32 as u8)
        } else {
            ch
        }
    }

    pub fn new() -> (res: Self)
        ensures
            !res.got_escape,
    {
        AtasciiParser { got_escape: false }
    }

    /// The action of byte `ch`; see `atascii_action`.
    pub fn action(&self, ch: u8) -> (res: AtasciiAction)
        ensures
            res == atascii_action(self.got_escape, ch),
    {
        if self.got_escape {
            AtasciiAction::Print
        } else if ch == 0x1c {
            AtasciiAction::Up
        } else if ch == 0x1d {
            AtasciiAction::Down
        } else if ch == 0x1e {
            AtasciiAction::Left
        } else if ch == 0x1f {
            AtasciiAction::Right
        } else if ch == 0x7d {
            AtasciiAction::ClearScreen
        } else if ch == 0x7e {
            AtasciiAction::Backspace
        } else if ch == 0x9b {
            AtasciiAction::LineFeed
        } else if ch == 0x9c {
            AtasciiAction::DeleteLine
        } else if ch == 0x9d {
            AtasciiAction::InsertLine
        } else if ch == 0xfe {
            AtasciiAction::DeleteChar
        } else if ch == 0xff {
            AtasciiAction::InsertChar
        } else if ch == 0x1b {
            AtasciiAction::Escape
        } else if ch == 0x7f || ch == 0x9e || ch == 0x9f || ch == 0xfd {
            AtasciiAction::Ignore
        } else {
            AtasciiAction::Print
        }
    }

    /// Interprets byte `ch`: the parser remembers an ESC, and the buffer
    /// and caret change as `atascii_effect` says. Nothing is answered.
    pub fn print_char(&mut self, buf: &mut Buffer, caret: &mut Caret, ch: u8) -> (res: Result<Option<String>, ParserError>)
        requires
            old(buf).layers@.len() > 0,
        ensures
            res == Ok::<Option<String>, ParserError>(None),
            final(self).got_escape == (atascii_action(old(self).got_escape, ch) is Escape),
            atascii_effect(atascii_action(old(self).got_escape, ch), ch, *old(buf), *old(caret), *final(buf), *final(caret)),
    {
        let action = self.action(ch);
        self.got_escape = false;
        match action {
            AtasciiAction::Print => {
                let attr = caret.attribute;
                buf.print_char(caret, AttributedChar::new(ch as char, attr));
            },
            AtasciiAction::Escape => {
                self.got_escape = true;
            },
            AtasciiAction::Up => caret.up(buf, 1),
            AtasciiAction::Down => caret.down(buf, 1),
            AtasciiAction::Left => caret.left(buf, 1),
            AtasciiAction::Right => caret.right(buf, 1),
            AtasciiAction::ClearScreen => buf.clear_screen(caret),
            AtasciiAction::Backspace => caret.bs(buf),
            AtasciiAction::LineFeed => caret.lf(buf),
            AtasciiAction::DeleteLine => buf.remove_terminal_line(caret.pos.y),
            AtasciiAction::InsertLine => buf.insert_terminal_line(caret.pos.y),
            AtasciiAction::DeleteChar => caret.del(buf),
            AtasciiAction::InsertChar => caret.ins(buf),
            AtasciiAction::Ignore => {},
        }
        Ok(None)
    }
}


/// Delete line (0x9C) and insert line (0x9D), without an ESC before them, on
/// a buffer without margins whose first layer can be written: 0x9C takes the
/// caret's row out of the first layer, every row below it moving up one;
/// 0x9D puts an empty row in at the caret's row, that row and every row below
/// it moving down one. Rows above the caret, the other layers and the caret
/// stay as they were.
pub proof fn law_atascii_line_delete_insert(ch: u8, b0: Buffer, c0: Caret, b1: Buffer, c1: Caret)
    requires
        ch == 0x9c || ch == 0x9d,
        b0.layers@.len() > 0,
        b0.terminal_state.margins.is_none(),
        !b0.layers@[0].is_locked,
        b0.layers@[0].is_visible,
        0 <= c0.pos.y < all_cells(b0)[0].len(),
        atascii_effect(atascii_action(false, ch), ch, b0, c0, b1, c1),
    ensures
        ({
            let r0 = all_cells(b0)[0];
            let r1 = all_cells(b1)[0];
            let y = c0.pos.y as int;
            &&& c1 == c0
            &&& all_cells(b1).len() == all_cells(b0).len()
            &&& forall|k: int| 1 <= k < all_cells(b0).len() ==> all_cells(b1)[k] == all_cells(b0)[k]
            &&& forall|i: int| 0 <= i < y ==> r1[i] == r0[i]
            &&& ch == 0x9c ==> {
                &&& r1.len() == r0.len() - 1
                &&& forall|i: int| y <= i < r1.len() ==> r1[i] == r0[i + 1]
            }
            &&& ch == 0x9d ==> {
                &&& r1.len() == r0.len() + 1
                &&& r1[y] == Seq::<AttributedChar>::empty()
                &&& forall|i: int| y < i < r1.len() ==> r1[i] == r0[i - 1]
            }
        }),
{
}


/// The ATASCII control codes: 0x1C cursor up, 0x1D down, 0x1E left, 0x1F
/// right, 0x7D clear screen, 0x7E backspace, 0x9B end of line, 0x9C delete
/// line, 0x9D insert line, 0xFE delete character, 0xFF insert character,
/// 0x1B escape; tab, tab stops and the buzzer (0x7F, 0x9E, 0x9F, 0xFD) do
/// nothing; any other byte, and every byte after an escape, is printed.
pub proof fn law_atascii_control_codes(ch: u8)
    ensures
        atascii_action(true, ch) is Print,
        atascii_action(false, 0x1c) is Up,
        atascii_action(false, 0x1d) is Down,
        atascii_action(false, 0x1e) is Left,
        atascii_action(false, 0x1f) is Right,
        atascii_action(false, 0x7d) is ClearScreen,
        atascii_action(false, 0x7e) is Backspace,
        atascii_action(false, 0x9b) is LineFeed,
        atascii_action(false, 0x9c) is DeleteLine,
        atascii_action(false, 0x9d) is InsertLine,
        atascii_action(false, 0xfe) is DeleteChar,
        atascii_action(false, 0xff) is InsertChar,
        atascii_action(false, 0x1b) is Escape,
        atascii_action(false, 0x7f) is Ignore,
        atascii_action(false, 0x9e) is Ignore,
        atascii_action(false, 0x9f) is Ignore,
        atascii_action(false, 0xfd) is Ignore,
        !(ch == 0x1b || ch == 0x1c || ch == 0x1d || ch == 0x1e || ch == 0x1f || ch == 0x7d || ch == 0x7e || ch == 0x7f
            || ch == 0x9b || ch == 0x9c || ch == 0x9d || ch == 0x9e || ch == 0x9f || ch == 0xfd || ch == 0xfe || ch
            == 0xff) ==> atascii_action(false, ch) is Print,
{
}

} // verus!

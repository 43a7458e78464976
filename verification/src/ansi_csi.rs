use vstd::prelude::*;

use crate::ansi_parser::{ansi_step, first_or, is_digit, read_param, AnsiParser, AnsiParserView, AnsiState};
use crate::ansi_parser::{del_cells, ins_cells, moved_effect};
use crate::attributed_char::default_char;
use crate::buffer::{all_cells, first_editable_line, first_visible_line, geom, last_editable_line, limited_pos, same_except_cells, upper_left, Buffer};
use crate::geometry::Position;
use crate::layer::{sat_i32, Layer};
use crate::line::line_length;
use crate::terminal_ops::{fill_row, fill_rows, moved_down, moved_up, Cells};
use crate::caret::Caret;
use crate::palette::{first_index_of, xterm_color, Color};
use crate::parser_errors::{is_unsupported_sequence, ParserError};
use crate::terminal_state::TerminalState;
use crate::text::{decimal, push_char, push_decimal};
use crate::text_attribute::{default_attribute, TextAttribute};

verus! {

/// The color of the eight basic ANSI colors `i` in the DOS palette.
pub open spec fn color_offset(i: int) -> u32 {
    if i == 0 { 0 }
    else if i == 1 { 4 }
    else if i == 2 { 2 }
    else if i == 3 { 6 }
    else if i == 4 { 1 }
    else if i == 5 { 5 }
    else if i == 6 { 3 }
    else { 7 }
}

/// The attribute and font page after a rendition parameter below 30, or
/// `None` where it is not supported.
pub open spec fn sgr_flag(n: i32, a: TextAttribute, page: usize) -> Option<(TextAttribute, usize)> {
    if n == 0 { Some((default_attribute(), page)) }
    else if n == 1 { Some((TextAttribute { bold: true, ..a }, page)) }
    else if n == 2 { Some((TextAttribute { faint: true, ..a }, page)) }
    else if n == 3 { Some((TextAttribute { italic: true, ..a }, page)) }
    else if n == 4 { Some((TextAttribute { underline: true, ..a }, page)) }
    else if n == 5 || n == 6 { Some((TextAttribute { blink: true, ..a }, page)) }
    else if n == 7 { Some((TextAttribute { foreground_color: a.background_color, background_color: a.foreground_color, ..a }, page)) }
    else if n == 8 { Some((TextAttribute { concealed: true, ..a }, page)) }
    else if n == 9 { Some((TextAttribute { crossed_out: true, ..a }, page)) }
    else if n == 10 { Some((a, 0)) }
    else if 11 <= n <= 19 { Some((a, page)) }
    else if n == 21 { Some((TextAttribute { double_underline: true, ..a }, page)) }
    else if n == 22 { Some((TextAttribute { bold: false, faint: false, ..a }, page)) }
    else if n == 23 { Some((TextAttribute { italic: false, ..a }, page)) }
    else if n == 24 { Some((TextAttribute { underline: false, ..a }, page)) }
    else if n == 25 { Some((TextAttribute { blink: false, ..a }, page)) }
    else if n == 28 { Some((TextAttribute { concealed: false, ..a }, page)) }
    else if n == 29 { Some((TextAttribute { crossed_out: false, ..a }, page)) }
    else { None }
}

/// The attribute after a color parameter from 30 on (38 and 48 aside), or
/// `None` where it is not supported.
pub open spec fn sgr_color(n: i32, a: TextAttribute) -> Option<TextAttribute> {
    if 30 <= n <= 37 { Some(TextAttribute { foreground_color: color_offset(n - 30), ..a }) }
    else if n == 39 { Some(TextAttribute { foreground_color: 7, ..a }) }
    else if 40 <= n <= 47 { Some(TextAttribute { background_color: color_offset(n - 40), ..a }) }
    else if n == 49 { Some(TextAttribute { background_color: 0, ..a }) }
    else { None }
}

/// The attribute and font page after one rendition parameter other than 38
/// and 48, or `None` where the parameter is not supported.
pub open spec fn sgr_simple(n: i32, a: TextAttribute, page: usize) -> Option<(TextAttribute, usize)> {
    if n < 30 {
        sgr_flag(n, a, page)
    } else {
        match sgr_color(n, a) {
            Some(a2) => Some((a2, page)),
            None => None,
        }
    }
}

/// The palette after `c` was looked up in it, appending it where it is not
/// there yet, and the index of `c`; `None` where a full palette can take no
/// more colors.
pub open spec fn palette_inserted(cs: Seq<Color>, c: Color) -> Option<(Seq<Color>, int)> {
    if cs.len() >= u32::MAX {
        None
    } else if cs.contains(c) {
        Some((cs, first_index_of(cs, c)))
    } else {
        Some((cs.push(c), cs.len() as int))
    }
}

/// The color index, palette and position of the next parameter after the
/// extended color at parameter `i` (`38;5;n` or `38;2;r;g;b`, the same for
/// 48); `None` where the parameters do not make one. The position is one
/// past the last number read, and the caller steps past it once more.
pub open spec fn extended_color(nums: Seq<i32>, i: int, cs: Seq<Color>) -> Option<(int, Seq<Color>, int)> {
    if i + 1 >= nums.len() {
        None
    } else if nums[i + 1] == 5 {
        if i + 3 > nums.len() {
            None
        } else {
            let n = nums[i + 2];
            if 0 <= n <= 255 {
                match palette_inserted(cs, xterm_color(n as u8)) {
                    Some((cs2, idx)) => Some((idx, cs2, i + 3)),
                    None => None,
                }
            } else {
                None
            }
        }
    } else if nums[i + 1] == 2 {
        if i + 5 > nums.len() {
            None
        } else {
            let r = nums[i + 2];
            let g = nums[i + 3];
            let b = nums[i + 4];
            if 0 <= r <= 255 && 0 <= g <= 255 && 0 <= b <= 255 {
                match palette_inserted(cs, Color { r: r as u8, g: g as u8, b: b as u8 }) {
                    Some((cs2, idx)) => Some((idx, cs2, i + 5)),
                    None => None,
                }
            } else {
                None
            }
        }
    } else {
        None
    }
}

/// Select Graphic Rendition from parameter `i` on: whether all parameters
/// were understood, and the attribute, font page and palette after the
/// parameters up to the first one that was not.
pub open spec fn sgr_fold(nums: Seq<i32>, i: int, a: TextAttribute, page: usize, cs: Seq<Color>) -> (bool, TextAttribute, usize, Seq<Color>)
    decreases nums.len() + 1 - i,
{
    if i < 0 || i >= nums.len() {
        (true, a, page, cs)
    } else if nums[i] == 38 || nums[i] == 48 {
        match extended_color(nums, i, cs) {
            Some((idx, cs2, j)) => {
                let a2 = if nums[i] == 38 {
                    TextAttribute { foreground_color: idx as u32, ..a }
                } else {
                    TextAttribute { background_color: idx as u32, ..a }
                };
                sgr_fold(nums, j + 1, a2, page, cs2)
            },
            None => (false, a, page, cs),
        }
    } else {
        match sgr_simple(nums[i], a, page) {
            Some((a2, p2)) => sgr_fold(nums, i + 1, a2, p2, cs),
            None => (false, a, page, cs),
        }
    }
}

/// `CSI ... m` with the sequence read so far in `q`.
pub open spec fn sgr_step(
    q: AnsiParserView,
    b0: Buffer,
    c0: Caret,
    p1: AnsiParserView,
    b1: Buffer,
    c1: Caret,
    res: Result<Option<String>, ParserError>,
) -> bool {
    let nums = q.parsed_numbers;
    let init = if nums.len() == 0 { default_attribute() } else { c0.attribute };
    let (ok, a, page, cs) = sgr_fold(nums, 0, init, q.current_font_page, b0.palette.colors@);
    &&& p1 == AnsiParserView { state: AnsiState::Default, current_font_page: page, ..q }
    &&& c1 == (Caret { attribute: a, ..c0 })
    &&& b1 == (Buffer { palette: b1.palette, ..b0 })
    &&& b1.palette.colors@ == cs
    &&& if ok { res == Ok::<Option<String>, ParserError>(None) } else { is_unsupported_sequence(res, q.current_sequence) }
}


pub open spec fn max0(v: int) -> int {
    if v > 0 { v } else { 0 }
}

pub open spec fn min_int(a: int, b: int) -> int {
    if a < b { a } else { b }
}

/// Where `CSI row ; column H` puts the caret (before it is held to the
/// screen): rows count from the first visible row, both from 1; a negative
/// parameter leaves its coordinate, a missing column means the first.
pub open spec fn cup_target(b: Buffer, pos: Position, nums: Seq<i32>) -> Position {
    if nums.len() == 0 {
        upper_left(b)
    } else {
        let y = if nums[0] >= 0 { sat_i32(first_visible_line(b) + max0(nums[0] - 1)) } else { pos.y as int };
        let x = if nums.len() > 1 { if nums[1] >= 0 { max0(nums[1] - 1) } else { pos.x as int } } else { 0 };
        Position { x: x as i32, y: y as i32 }
    }
}

/// Where `right(num)` puts the caret (before it is held to the screen).
pub open spec fn right_target(b: Buffer, pos: Position, num: int) -> Position {
    let w = sat_i32(b.size.width as int);
    let x1 = sat_i32(pos.x + num);
    let y0 = pos.y as int;
    if x1 > w && y0 < last_editable_line(b) && w > 0 {
        Position { x: (x1 % w) as i32, y: sat_i32(y0 + x1 / w) as i32 }
    } else {
        Position { x: x1 as i32, y: y0 as i32 }
    }
}

/// The caret moved to `p` and held to the screen; nothing else changes.
pub open spec fn placed(b0: Buffer, c0: Caret, b1: Buffer, c1: Caret, p: Position) -> bool {
    b1 == b0 && c1 == (Caret { pos: limited_pos(b0, p), ..c0 })
}

/// The cursor controls `H f C D A B s u d e ' a G E F` with the sequence read
/// so far in `q`.
pub open spec fn cursor_step(
    q: AnsiParserView,
    b0: Buffer,
    c0: Caret,
    ch: char,
    p1: AnsiParserView,
    b1: Buffer,
    c1: Caret,
) -> bool {
    let d = AnsiParserView { state: AnsiState::Default, ..q };
    let nums = q.parsed_numbers;
    let fv = first_visible_line(b0);
    let x = c0.pos.x as int;
    let y = c0.pos.y as int;
    let cs = all_cells(b0);
    if ch == 'H' || ch == 'f' {
        p1 == d && placed(b0, c0, b1, c1, cup_target(b0, c0.pos, nums))
    } else if ch == 'C' {
        p1 == d && placed(b0, c0, b1, c1, right_target(b0, c0.pos, first_or(nums, 1)))
    } else if ch == 'D' {
        p1 == d && placed(b0, c0, b1, c1, Position { x: sat_i32(x - first_or(nums, 1)) as i32, y: y as i32 })
    } else if ch == 'A' {
        let (cs1, p) = moved_up(geom(b0), cs, x, sat_i32(y - first_or(nums, 1)), false);
        p1 == d && moved_effect(b0, c0, b1, c1, cs1, p)
    } else if ch == 'B' {
        let (cs1, p) = moved_down(geom(b0), cs, x, sat_i32(y + first_or(nums, 1)), false);
        p1 == d && moved_effect(b0, c0, b1, c1, cs1, p)
    } else if ch == 's' {
        p1 == AnsiParserView { saved_pos: c0.pos, ..d } && b1 == b0 && c1 == c0
    } else if ch == 'u' {
        p1 == d && b1 == b0 && c1 == (Caret { pos: q.saved_pos, ..c0 })
    } else if ch == 'd' {
        p1 == d && placed(b0, c0, b1, c1, Position { x: x as i32, y: sat_i32(fv + first_or(nums, 1) - 1) as i32 })
    } else if ch == 'e' {
        p1 == d && placed(b0, c0, b1, c1, Position { x: x as i32, y: sat_i32(fv + y + first_or(nums, 1)) as i32 })
    } else if ch == '\'' || ch == 'a' {
        &&& p1 == d
        &&& if 0 <= y < cs[0].len() {
            let len = line_length(cs[0][y]) as int;
            let nx = if ch == '\'' { min_int(len, max0(first_or(nums, 1) - 1)) } else { sat_i32(min_int(len, x + first_or(nums, 1))) };
            placed(b0, c0, b1, c1, Position { x: nx as i32, y: y as i32 })
        } else {
            b1 == b0 && c1 == c0
        }
    } else if ch == 'G' {
        p1 == d && placed(b0, c0, b1, c1, Position { x: sat_i32(first_or(nums, 1) - 1) as i32, y: y as i32 })
    } else if ch == 'E' {
        p1 == d && placed(b0, c0, b1, c1, Position { x: 0, y: sat_i32(fv + y + first_or(nums, 1)) as i32 })
    } else {
        p1 == d && placed(b0, c0, b1, c1, Position { x: 0, y: sat_i32(fv + y - first_or(nums, 1)) as i32 })
    }
}

pub open spec fn is_cursor_control(ch: char) -> bool {
    ch == 'H' || ch == 'f' || ch == 'C' || ch == 'D' || ch == 'A' || ch == 'B' || ch == 's' || ch == 'u' || ch == 'd'
        || ch == 'e' || ch == '\'' || ch == 'a' || ch == 'G' || ch == 'E' || ch == 'F'
}


/// The rows after `remove_terminal_line(line)` on a buffer whose first layer
/// has the properties of `l` and whose top and bottom margins are `m`.
pub open spec fn removed_line_cells(l: Layer, m: Option<(i32, i32)>, cs: Seq<Cells>, line: int) -> Seq<Cells> {
    if line < 0 || line >= cs[0].len() || l.is_locked || !l.is_visible {
        cs
    } else {
        let c1 = cs[0].remove(line);
        match m {
            Some((_, end)) => if end >= 0 {
                cs.update(0, (if end <= c1.len() { c1 } else {
                    c1 + Seq::new((end - c1.len()) as nat, |i: int| crate::line::invisible_cells(l.size.width as nat))
                }).insert(end as int, Seq::empty()))
            } else {
                cs.update(0, c1)
            },
            None => cs.update(0, c1),
        }
    }
}

/// The rows after `insert_terminal_line(line)`; see `removed_line_cells`.
pub open spec fn inserted_line_cells(l: Layer, m: Option<(i32, i32)>, cs: Seq<Cells>, line: int) -> Seq<Cells> {
    let c1 = match m {
        Some((_, end)) => if 0 <= end < cs[0].len() { cs[0].remove(end as int) } else { cs[0] },
        None => cs[0],
    };
    if line < 0 || l.is_locked || !l.is_visible {
        cs.update(0, c1)
    } else {
        cs.update(0, (if line <= c1.len() { c1 } else {
            c1 + Seq::new((line - c1.len()) as nat, |i: int| crate::line::invisible_cells(l.size.width as nat))
        }).insert(line, Seq::empty()))
    }
}

pub open spec fn repeat_removed(l: Layer, m: Option<(i32, i32)>, cs: Seq<Cells>, line: int, n: int) -> Seq<Cells>
    decreases n,
{
    if n <= 0 { cs } else { repeat_removed(l, m, removed_line_cells(l, m, cs, line), line, n - 1) }
}

pub open spec fn repeat_inserted(l: Layer, m: Option<(i32, i32)>, cs: Seq<Cells>, line: int, n: int) -> Seq<Cells>
    decreases n,
{
    if n <= 0 { cs } else { repeat_inserted(l, m, inserted_line_cells(l, m, cs, line), line, n - 1) }
}

pub open spec fn repeat_del(cs: Seq<Cells>, x: int, y: int, n: int) -> Seq<Cells>
    decreases n,
{
    if n <= 0 { cs } else { repeat_del(del_cells(cs, x, y), x, y, n - 1) }
}

pub open spec fn repeat_ins(cs: Seq<Cells>, x: int, y: int, n: int) -> Seq<Cells>
    decreases n,
{
    if n <= 0 { cs } else { repeat_ins(ins_cells(cs, x, y), x, y, n - 1) }
}

/// Only the rows of the buffer changed, to `cs`; the caret stays.
pub open spec fn edited(b0: Buffer, c0: Caret, b1: Buffer, c1: Caret, cs: Seq<Cells>) -> bool {
    same_except_cells(b0, b1) && all_cells(b1) == cs && c1 == c0
}

/// The buffer and caret after `clear_screen`.
pub open spec fn clear_screen_effect(b0: Buffer, c0: Caret, b1: Buffer, c1: Caret) -> bool {
    &&& c1 == (Caret { pos: Position { x: 0, y: 0 }, ..c0 })
    &&& crate::terminal_ops::buffer_cleared(b0, b1)
}

/// The editing controls `X @ M P L J K` with the sequence read so far in `q`.
pub open spec fn edit_step(
    q: AnsiParserView,
    b0: Buffer,
    c0: Caret,
    ch: char,
    p1: AnsiParserView,
    b1: Buffer,
    c1: Caret,
    res: Result<Option<String>, ParserError>,
) -> bool {
    let nums = q.parsed_numbers;
    let x = c0.pos.x as int;
    let y = c0.pos.y as int;
    let cs = all_cells(b0);
    let l = b0.layers@[0];
    let m = b0.terminal_state.margins;
    let w = sat_i32(b0.size.width as int);
    let ok = res == Ok::<Option<String>, ParserError>(None);
    let refused = is_unsupported_sequence(res, q.current_sequence);
    &&& p1 == AnsiParserView { state: AnsiState::Default, ..q }
    &&& if ch == 'X' {
        let num = if nums.len() > 0 { nums[0] as int } else { 1 };
        &&& edited(b0, c0, b1, c1, cs.update(0, fill_row(l, cs[0], y, x, sat_i32(x + num), default_char())))
        &&& if nums.len() > 0 { ok } else { refused }
    } else if ch == '@' {
        if nums.len() > 0 {
            edited(b0, c0, b1, c1, repeat_ins(cs, x, y, nums[0] as int)) && ok
        } else {
            edited(b0, c0, b1, c1, ins_cells(cs, x, y)) && refused
        }
    } else if nums.len() > 1 && (ch == 'M' || ch == 'P' || ch == 'L') {
        edited(b0, c0, b1, c1, cs) && refused
    } else if ch == 'M' {
        &&& ok
        &&& if nums.len() == 0 {
            edited(b0, c0, b1, c1, if y < cs[0].len() { removed_line_cells(l, m, cs, y) } else { cs })
        } else {
            edited(b0, c0, b1, c1, repeat_removed(l, m, cs, y, min_int(nums[0] as int, cs[0].len() - y)))
        }
    } else if ch == 'P' {
        ok && edited(b0, c0, b1, c1, if nums.len() == 0 { del_cells(cs, x, y) } else { repeat_del(cs, x, y, nums[0] as int) })
    } else if ch == 'L' {
        ok && edited(b0, c0, b1, c1, if nums.len() == 0 { inserted_line_cells(l, m, cs, y) } else { repeat_inserted(l, m, cs, y, nums[0] as int) })
    } else if ch == 'J' {
        let down = cs.update(0, fill_rows(l, cs[0], y, last_editable_line(b0), w, default_char()));
        if nums.len() == 0 || nums[0] == 0 {
            edited(b0, c0, b1, c1, down) && ok
        } else if nums[0] == 1 {
            edited(b0, c0, b1, c1, cs.update(0, fill_rows(l, cs[0], first_editable_line(b0), y, w, default_char()))) && ok
        } else if nums[0] == 2 || nums[0] == 3 {
            clear_screen_effect(b0, c0, b1, c1) && ok
        } else {
            edited(b0, c0, b1, c1, down) && refused
        }
    } else {
        if nums.len() == 0 || nums[0] == 0 {
            edited(b0, c0, b1, c1, cs.update(0, fill_row(l, cs[0], y, x, w, default_char()))) && ok
        } else if nums[0] == 1 {
            edited(b0, c0, b1, c1, cs.update(0, fill_row(l, cs[0], y, 0, x, default_char()))) && ok
        } else if nums[0] == 2 {
            edited(b0, c0, b1, c1, cs.update(0, fill_row(l, cs[0], y, 0, w, default_char()))) && ok
        } else {
            b1 == b0 && c1 == c0 && refused
        }
    }
}

pub open spec fn is_edit_control(ch: char) -> bool {
    ch == 'X' || ch == '@' || ch == 'M' || ch == 'P' || ch == 'L' || ch == 'J' || ch == 'K'
}


/// The answer to `CSI 6 n`: the caret's row and column counted from 1, each
/// at most the buffer's height and width.
pub open spec fn cursor_report(b: Buffer, c: Caret) -> Seq<char> {
    let row = min_int(sat_i32(b.size.height as int), sat_i32(c.pos.y + 1));
    let col = min_int(sat_i32(b.size.width as int), sat_i32(c.pos.x + 1));
    seq!['\x1b', '['] + decimal(row) + seq![';'] + decimal(col) + seq!['R']
}

/// The reports and modes `n c r h l ~` with the sequence read so far in `q`.
pub open spec fn report_mode_step(
    q: AnsiParserView,
    b0: Buffer,
    c0: Caret,
    ch: char,
    p1: AnsiParserView,
    b1: Buffer,
    c1: Caret,
    res: Result<Option<String>, ParserError>,
) -> bool {
    let nums = q.parsed_numbers;
    let cs = all_cells(b0);
    let x = c0.pos.x as int;
    let y = c0.pos.y as int;
    let ok = res == Ok::<Option<String>, ParserError>(None);
    let refused = is_unsupported_sequence(res, q.current_sequence);
    &&& p1 == AnsiParserView { state: AnsiState::Default, ..q }
    &&& if ch == 'n' {
        &&& b1 == b0 && c1 == c0
        &&& if nums.len() == 1 && nums[0] == 5 {
            res matches Ok(Some(s)) && s@ == seq!['\x1b', '[', '0', 'n']
        } else if nums.len() == 1 && nums[0] == 6 {
            res matches Ok(Some(s)) && s@ == cursor_report(b0, c0)
        } else {
            refused
        }
    } else if ch == 'c' {
        &&& b1 == b0 && c1 == c0
        &&& res matches Ok(Some(s)) && s@ == seq!['\x1b', '[', '?', '1', ';', '0', 'c']
    } else if ch == 'r' {
        if nums.len() != 2 {
            b1 == b0 && c1 == c0 && refused
        } else {
            let start = sat_i32(nums[0] - 1);
            let end = sat_i32(nums[1] - 1);
            &&& ok
            &&& if start > end {
                b1 == Buffer { terminal_state: TerminalState { margins: None, ..b0.terminal_state }, ..b0 } && c1 == c0
            } else {
                &&& b1 == Buffer { terminal_state: TerminalState { margins: Some((start as i32, end as i32)), ..b0.terminal_state }, ..b0 }
                &&& c1 == (Caret { pos: upper_left(b0), ..c0 })
            }
        }
    } else if ch == 'h' || ch == 'l' {
        &&& b1 == b0
        &&& if nums.len() == 1 && nums[0] == 4 { c1 == (Caret { insert_mode: ch == 'h', ..c0 }) && ok } else { c1 == c0 && refused }
    } else {
        if nums.len() != 1 {
            b1 == b0 && c1 == c0 && refused
        } else if nums[0] == 1 {
            b1 == b0 && c1 == (Caret { pos: Position { x: 0, y: c0.pos.y }, ..c0 }) && ok
        } else if nums[0] == 2 {
            edited(b0, c0, b1, c1, ins_cells(cs, x, y)) && ok
        } else if nums[0] == 3 {
            edited(b0, c0, b1, c1, del_cells(cs, x, y)) && ok
        } else if nums[0] == 4 {
            b1 == b0 && c1 == (Caret { pos: Position { x: (sat_i32(b0.size.width as int) - 1) as i32, y: c0.pos.y }, ..c0 }) && ok
        } else if nums[0] == 5 || nums[0] == 6 {
            b1 == b0 && c1 == c0 && ok
        } else {
            b1 == b0 && c1 == c0 && refused
        }
    }
}

pub open spec fn is_report_or_mode(ch: char) -> bool {
    ch == 'n' || ch == 'c' || ch == 'r' || ch == 'h' || ch == 'l' || ch == '~'
}

/// What a character does inside a control sequence (after `CSI`): a final
/// character runs its control, `?` and a space lead to private modes and to
/// the font selector, digits and `;` build the parameters; any other final
/// character, and anything else, is refused. The character joins the
/// sequence as read so far.
pub open spec fn sequence_step(
    p0: AnsiParserView,
    b0: Buffer,
    c0: Caret,
    ch: char,
    p1: AnsiParserView,
    b1: Buffer,
    c1: Caret,
    res: Result<Option<String>, ParserError>,
) -> bool {
    let q = AnsiParserView { current_sequence: p0.current_sequence.push(ch), ..p0 };
    if ch == 'm' {
        sgr_step(q, b0, c0, p1, b1, c1, res)
    } else if is_cursor_control(ch) {
        cursor_step(q, b0, c0, ch, p1, b1, c1) && res == Ok::<Option<String>, ParserError>(None)
    } else if is_edit_control(ch) {
        edit_step(q, b0, c0, ch, p1, b1, c1, res)
    } else if is_report_or_mode(ch) {
        report_mode_step(q, b0, c0, ch, p1, b1, c1, res)
    } else if ch == '?' || ch == ' ' {
        &&& p1 == AnsiParserView { state: if ch == '?' { AnsiState::ReadCustomCommand } else { AnsiState::StartFontSelector }, ..q }
        &&& b1 == b0 && c1 == c0 && res == Ok::<Option<String>, ParserError>(None)
    } else if ('\x40' <= ch <= '\x7e') || !(is_digit(ch) || ch == ';') {
        p1 == AnsiParserView { state: AnsiState::Default, ..q } && b1 == b0 && c1 == c0 && is_unsupported_sequence(res, q.current_sequence)
    } else {
        p1 == AnsiParserView { parsed_numbers: read_param(q.parsed_numbers, ch), ..q } && b1 == b0 && c1 == c0 && res == Ok::<Option<String>, ParserError>(None)
    }
}

pub(crate) fn color_offset_exec(i: i32) -> (res: u32)
    requires
        0 <= i < 8,
    ensures
        res == color_offset(i as int),
{
    if i == 0 { 0 }
    else if i == 1 { 4 }
    else if i == 2 { 2 }
    else if i == 3 { 6 }
    else if i == 4 { 1 }
    else if i == 5 { 5 }
    else if i == 6 { 3 }
    else { 7 }
}

#[verifier::rlimit(40)]
fn apply_sgr_flag(n: i32, a: &mut TextAttribute, page: &mut usize) -> (ok: bool)
    ensures
        match sgr_flag(n, *old(a), *old(page)) {
            Some((a2, p2)) => ok && *final(a) == a2 && *final(page) == p2,
            None => !ok && *final(a) == *old(a) && *final(page) == *old(page),
        },
{
    if n == 0 {
        *a = TextAttribute::new_default();
    } else if n == 1 {
        a.bold = true;
    } else if n == 2 {
        a.faint = true;
    } else if n == 3 {
        a.italic = true;
    } else if n == 4 {
        a.underline = true;
    } else if n == 5 || n == 6 {
        a.blink = true;
    } else if n == 7 {
        let fg = a.foreground_color;
        a.foreground_color = a.background_color;
        a.background_color = fg;
    } else if n == 8 {
        a.concealed = true;
    } else if n == 9 {
        a.crossed_out = true;
    } else if n == 10 {
        *page = 0;
    } else if 11 <= n && n <= 19 {
    } else if n == 21 {
        a.double_underline = true;
    } else if n == 22 {
        a.bold = false;
        a.faint = false;
    } else if n == 23 {
        a.italic = false;
    } else if n == 24 {
        a.underline = false;
    } else if n == 25 {
        a.blink = false;
    } else if n == 28 {
        a.concealed = false;
    } else if n == 29 {
        a.crossed_out = false;
    } else {
        return false;
    }
    true
}

fn apply_sgr_color(n: i32, a: &mut TextAttribute) -> (ok: bool)
    ensures
        match sgr_color(n, *old(a)) {
            Some(a2) => ok && *final(a) == a2,
            None => !ok && *final(a) == *old(a),
        },
{
    if 30 <= n && n <= 37 {
        a.foreground_color = color_offset_exec(n - 30);
    } else if n == 39 {
        a.foreground_color = 7;
    } else if 40 <= n && n <= 47 {
        a.background_color = color_offset_exec(n - 40);
    } else if n == 49 {
        a.background_color = 0;
    } else {
        return false;
    }
    true
}

/// Applies one rendition parameter other than 38 and 48; false where it is
/// not supported.
fn apply_sgr_simple(n: i32, a: &mut TextAttribute, page: &mut usize) -> (ok: bool)
    ensures
        match sgr_simple(n, *old(a), *old(page)) {
            Some((a2, p2)) => ok && *final(a) == a2 && *final(page) == p2,
            None => !ok && *final(a) == *old(a) && *final(page) == *old(page),
        },
{
    if n < 30 {
        apply_sgr_flag(n, a, page)
    } else {
        apply_sgr_color(n, a)
    }
}

impl AnsiParser {
    /// Reads the extended color at parameter `i` into the palette; gives its
    /// index and the position one past the last number read.
    fn parse_extended_colors(&self, buf: &mut Buffer, i: usize) -> (res: Option<(u32, usize)>)
        requires
            i < self.parsed_numbers@.len(),
        ensures
            match extended_color(self.parsed_numbers@, i as int, old(buf).palette.colors@) {
                Some((idx, cs2, j)) => res == Some((idx as u32, j as usize)) && final(buf).palette.colors@ == cs2 && idx < u32::MAX,
                None => res.is_none() && final(buf).palette.colors@ == old(buf).palette.colors@,
            },
            *final(buf) == (Buffer { palette: final(buf).palette, ..*old(buf) }),
    {
        let len = self.parsed_numbers.len();
        if i + 1 >= len {
            return None;
        }
        let mode = self.parsed_numbers[i + 1];
        if mode == 5 {
            if len - i < 3 {
                return None;
            }
            let n = self.parsed_numbers[i + 2];
            if n < 0 || n > 255 || buf.palette.colors.len() >= u32::MAX as usize {
                return None;
            }
            let color = crate::palette::get_xterm_color(n as u8);
            let idx = buf.palette.insert_color(color);
            Some((idx, i + 3))
        } else if mode == 2 {
            if len - i < 5 {
                return None;
            }
            let r = self.parsed_numbers[i + 2];
            let g = self.parsed_numbers[i + 3];
            let b = self.parsed_numbers[i + 4];
            if r < 0 || r > 255 || g < 0 || g > 255 || b < 0 || b > 255 || buf.palette.colors.len() >= u32::MAX as usize {
                return None;
            }
            let idx = buf.palette.insert_color_rgb(r as u8, g as u8, b as u8);
            Some((idx, i + 5))
        } else {
            None
        }
    }

    /// Applies the rendition parameter at `i`; gives the position of the
    /// next parameter, or `None` where the parameter is not supported.
    fn sgr_param(&mut self, buf: &mut Buffer, caret: &mut Caret, i: usize) -> (res: Option<usize>)
        requires
            i < old(self).parsed_numbers.len(),
        ensures
            final(self)@ == (AnsiParserView { current_font_page: final(self).current_font_page, ..old(self)@ }),
            *final(buf) == (Buffer { palette: final(buf).palette, ..*old(buf) }),
            *final(caret) == (Caret { attribute: final(caret).attribute, ..*old(caret) }),
            ({
                let nums = old(self).parsed_numbers@;
                let cur = sgr_fold(nums, i as int, old(caret).attribute, old(self).current_font_page, old(buf).palette.colors@);
                match res {
                    Some(k) => i < k <= nums.len() && cur == sgr_fold(nums, k as int, final(caret).attribute, final(self).current_font_page, final(buf).palette.colors@),
                    None => cur == (false, final(caret).attribute, final(self).current_font_page, final(buf).palette.colors@),
                }
            }),
    {
        let n = self.parsed_numbers[i];
        if n == 38 || n == 48 {
            self.sgr_extended(buf, caret, i)
        } else {
            let next = i + 1;
            if apply_sgr_simple(n, &mut caret.attribute, &mut self.current_font_page) {
                Some(next)
            } else {
                None
            }
        }
    }

    #[verifier::rlimit(30)]
    fn sgr_extended(&mut self, buf: &mut Buffer, caret: &mut Caret, i: usize) -> (res: Option<usize>)
        requires
            i < old(self).parsed_numbers@.len(),
            old(self).parsed_numbers@[i as int] == 38 || old(self).parsed_numbers@[i as int] == 48,
        ensures
            final(self)@ == old(self)@,
            *final(buf) == (Buffer { palette: final(buf).palette, ..*old(buf) }),
            *final(caret) == (Caret { attribute: final(caret).attribute, ..*old(caret) }),
            ({
                let nums = old(self).parsed_numbers@;
                let cur = sgr_fold(nums, i as int, old(caret).attribute, old(self).current_font_page, old(buf).palette.colors@);
                match res {
                    Some(k) => i < k <= nums.len() && cur == sgr_fold(nums, k as int, final(caret).attribute, old(self).current_font_page, final(buf).palette.colors@),
                    None => cur == (false, final(caret).attribute, old(self).current_font_page, final(buf).palette.colors@),
                }
            }),
    {
        let n = self.parsed_numbers[i];
        match self.parse_extended_colors(buf, i) {
            Some((idx, j)) => {
                if n == 38 {
                    caret.attribute.foreground_color = idx;
                } else {
                    caret.attribute.background_color = idx;
                }
                let ghost a = caret.attribute;
                let ghost pg = self.current_font_page;
                let ghost cs = buf.palette.colors@;
                if j >= self.parsed_numbers.len() {
                    proof {
                        assert(sgr_fold(self.parsed_numbers@, j + 1, a, pg, cs) == (true, a, pg, cs));
                        assert(sgr_fold(self.parsed_numbers@, self.parsed_numbers@.len() as int, a, pg, cs) == (true, a, pg, cs));
                    }
                    Some(self.parsed_numbers.len())
                } else {
                    Some(j + 1)
                }
            },
            None => None,
        }
    }

    /// Select Graphic Rendition.
    pub(crate) fn select_graphic_rendition(&mut self, buf: &mut Buffer, caret: &mut Caret) -> (res: Result<Option<String>, ParserError>)
        ensures
            sgr_step(old(self)@, *old(buf), *old(caret), final(self)@, *final(buf), *final(caret), res),
    {
        self.state = AnsiState::Default;
        if self.parsed_numbers.len() == 0 {
            caret.attribute = TextAttribute::new_default();
        }
        let ghost init = caret.attribute;
        let ghost page0 = self.current_font_page;
        let ghost cs0 = buf.palette.colors@;
        let ghost goal = sgr_fold(self.parsed_numbers@, 0, init, page0, cs0);
        let mut i: usize = 0;
        while i < self.parsed_numbers.len()
            invariant
                self@ == (AnsiParserView { state: AnsiState::Default, current_font_page: self.current_font_page, ..old(self)@ }),
                *buf == (Buffer { palette: buf.palette, ..*old(buf) }),
                *caret == (Caret { attribute: caret.attribute, ..*old(caret) }),
                goal == sgr_fold(self.parsed_numbers@, i as int, caret.attribute, self.current_font_page, buf.palette.colors@),
                goal == sgr_fold(
                    old(self).parsed_numbers@,
                    0,
                    if old(self).parsed_numbers@.len() == 0 { default_attribute() } else { old(caret).attribute },
                    old(self).current_font_page,
                    old(buf).palette.colors@,
                ),
                i <= self.parsed_numbers@.len(),
            decreases self.parsed_numbers@.len() - i,
        {
            match self.sgr_param(buf, caret, i) {
                Some(k) => {
                    i = k;
                },
                None => {
                    return Err(self.unsupported_sequence());
                },
            }
        }
        Ok(None)
    }

    /// The first parameter, or `dflt` where there is none.
    fn first_param(&self, dflt: i32) -> (res: i32)
        ensures
            res == first_or(self.parsed_numbers@, dflt as int),
    {
        if self.parsed_numbers.len() > 0 { self.parsed_numbers[0] } else { dflt }
    }

    fn cursor_move(&mut self, buf: &mut Buffer, caret: &mut Caret, ch: char)
        requires
            old(buf).layers@.len() > 0,
            ch == 'C' || ch == 'D' || ch == 'A' || ch == 'B' || ch == 's' || ch == 'u',
        ensures
            cursor_step(old(self)@, *old(buf), *old(caret), ch, final(self)@, *final(buf), *final(caret)),
    {
        self.state = AnsiState::Default;
        let n = self.first_param(1);
        if ch == 'C' {
            caret.right(buf, n);
        } else if ch == 'D' {
            caret.left(buf, n);
        } else if ch == 'A' {
            caret.up(buf, n);
        } else if ch == 'B' {
            caret.down(buf, n);
        } else if ch == 's' {
            self.saved_pos = caret.pos;
        } else {
            caret.pos = self.saved_pos;
        }
    }

    fn cursor_position(&mut self, buf: &mut Buffer, caret: &mut Caret)
        requires
            old(buf).layers@.len() > 0,
        ensures
            cursor_step(old(self)@, *old(buf), *old(caret), 'H', final(self)@, *final(buf), *final(caret)),
    {
        self.state = AnsiState::Default;
        if self.parsed_numbers.len() > 0 {
            let n0 = self.parsed_numbers[0];
            if n0 >= 0 {
                let fv = buf.get_first_visible_line();
                let dy: i32 = if n0 - 1 > 0 { n0 - 1 } else { 0 };
                caret.pos.y = crate::buffer::sat(fv as i64 + dy as i64);
            }
            if self.parsed_numbers.len() > 1 {
                let n1 = self.parsed_numbers[1];
                if n1 >= 0 {
                    caret.pos.x = if n1 - 1 > 0 { n1 - 1 } else { 0 };
                }
            } else {
                caret.pos.x = 0;
            }
        } else {
            caret.pos = buf.upper_left_position();
        }
        buf.limit_caret_pos(caret);
    }

    fn cursor_absolute(&mut self, buf: &mut Buffer, caret: &mut Caret, ch: char)
        requires
            old(buf).layers@.len() > 0,
            ch == 'd' || ch == 'e' || ch == 'G' || ch == 'E' || ch == 'F',
        ensures
            cursor_step(old(self)@, *old(buf), *old(caret), ch, final(self)@, *final(buf), *final(caret)),
    {
        self.state = AnsiState::Default;
        let n = self.first_param(1);
        let fv = buf.get_first_visible_line();
        if ch == 'd' {
            caret.pos.y = crate::buffer::sat(fv as i64 + n as i64 - 1);
        } else if ch == 'e' {
            caret.pos.y = crate::buffer::sat(fv as i64 + caret.pos.y as i64 + n as i64);
        } else if ch == 'G' {
            caret.pos.x = crate::buffer::sat(n as i64 - 1);
        } else if ch == 'E' {
            caret.pos.y = crate::buffer::sat(fv as i64 + caret.pos.y as i64 + n as i64);
            caret.pos.x = 0;
        } else {
            caret.pos.y = crate::buffer::sat(fv as i64 + caret.pos.y as i64 - n as i64);
            caret.pos.x = 0;
        }
        buf.limit_caret_pos(caret);
    }

    fn line_position(&mut self, buf: &mut Buffer, caret: &mut Caret, ch: char)
        requires
            old(buf).layers@.len() > 0,
            ch == '\'' || ch == 'a',
        ensures
            cursor_step(old(self)@, *old(buf), *old(caret), ch, final(self)@, *final(buf), *final(caret)),
    {
        self.state = AnsiState::Default;
        let n = self.first_param(1);
        if caret.pos.y >= 0 && (caret.pos.y as usize) < buf.layers[0].lines.len() {
            let len = buf.layers[0].get_line_length(caret.pos.y as usize);
            let len64: i64 = if len > i32::MAX as usize { i32::MAX as i64 + 1 } else { len as i64 };
            let target: i64 = if ch == '\'' {
                if n as i64 - 1 > 0 { n as i64 - 1 } else { 0 }
            } else {
                caret.pos.x as i64 + n as i64
            };
            caret.pos.x = crate::buffer::sat(if len64 < target { len64 } else { target });
            buf.limit_caret_pos(caret);
        }
    }

    pub(crate) fn cursor_control(&mut self, buf: &mut Buffer, caret: &mut Caret, ch: char)
        requires
            old(buf).layers@.len() > 0,
            is_cursor_control(ch),
        ensures
            cursor_step(old(self)@, *old(buf), *old(caret), ch, final(self)@, *final(buf), *final(caret)),
    {
        if ch == 'H' || ch == 'f' {
            self.cursor_position(buf, caret);
        } else if ch == '\'' || ch == 'a' {
            self.line_position(buf, caret, ch);
        } else if ch == 'd' || ch == 'e' || ch == 'G' || ch == 'E' || ch == 'F' {
            self.cursor_absolute(buf, caret, ch);
        } else {
            self.cursor_move(buf, caret, ch);
        }
    }

    fn erase_chars(&mut self, buf: &mut Buffer, caret: &mut Caret) -> (res: Result<Option<String>, ParserError>)
        requires
            old(buf).layers@.len() > 0,
        ensures
            edit_step(old(self)@, *old(buf), *old(caret), 'X', final(self)@, *final(buf), *final(caret), res),
    {
        self.state = AnsiState::Default;
        if self.parsed_numbers.len() > 0 {
            caret.erase_character(buf, self.parsed_numbers[0]);
            Ok(None)
        } else {
            caret.erase_character(buf, 1);
            Err(self.unsupported_sequence())
        }
    }

    fn insert_chars(&mut self, buf: &mut Buffer, caret: &mut Caret) -> (res: Result<Option<String>, ParserError>)
        requires
            old(buf).layers@.len() > 0,
        ensures
            edit_step(old(self)@, *old(buf), *old(caret), '@', final(self)@, *final(buf), *final(caret), res),
    {
        self.state = AnsiState::Default;
        if self.parsed_numbers.len() == 0 {
            caret.ins(buf);
            return Err(self.unsupported_sequence());
        }
        let n = self.parsed_numbers[0];
        let ghost cs0 = all_cells(*buf);
        let mut k: i32 = 0;
        while k < n
            invariant
                0 <= k,
                n > 0 ==> k <= n,
                n <= 0 ==> k == 0,
                buf.layers@.len() > 0,
                same_except_cells(*old(buf), *buf),
                *caret == *old(caret),
                repeat_ins(all_cells(*buf), caret.pos.x as int, caret.pos.y as int, n - k) == repeat_ins(cs0, caret.pos.x as int, caret.pos.y as int, n as int),
            decreases n - k,
        {
            caret.ins(buf);
            k += 1;
        }
        Ok(None)
    }

    fn delete_chars(&mut self, buf: &mut Buffer, caret: &mut Caret) -> (res: Result<Option<String>, ParserError>)
        requires
            old(buf).layers@.len() > 0,
        ensures
            edit_step(old(self)@, *old(buf), *old(caret), 'P', final(self)@, *final(buf), *final(caret), res),
    {
        self.state = AnsiState::Default;
        if self.parsed_numbers.len() == 0 {
            caret.del(buf);
            return Ok(None);
        }
        if self.parsed_numbers.len() != 1 {
            return Err(self.unsupported_sequence());
        }
        let n = self.parsed_numbers[0];
        let ghost cs0 = all_cells(*buf);
        let mut k: i32 = 0;
        while k < n
            invariant
                0 <= k,
                n > 0 ==> k <= n,
                n <= 0 ==> k == 0,
                buf.layers@.len() > 0,
                same_except_cells(*old(buf), *buf),
                *caret == *old(caret),
                repeat_del(all_cells(*buf), caret.pos.x as int, caret.pos.y as int, n - k) == repeat_del(cs0, caret.pos.x as int, caret.pos.y as int, n as int),
            decreases n - k,
        {
            caret.del(buf);
            k += 1;
        }
        Ok(None)
    }

    fn delete_lines(&mut self, buf: &mut Buffer, caret: &mut Caret) -> (res: Result<Option<String>, ParserError>)
        requires
            old(buf).layers@.len() > 0,
        ensures
            edit_step(old(self)@, *old(buf), *old(caret), 'M', final(self)@, *final(buf), *final(caret), res),
    {
        self.state = AnsiState::Default;
        let ghost l0 = buf.layers@[0];
        let ghost m = buf.terminal_state.margins;
        let ghost cs0 = all_cells(*buf);
        let len = buf.layers[0].lines.len();
        proof {
            assert(cs0[0].len() == len);
        }
        if self.parsed_numbers.len() == 0 {
            if caret.pos.y < 0 || (caret.pos.y as usize) < len {
                buf.remove_terminal_line(caret.pos.y);
            }
            return Ok(None);
        }
        if self.parsed_numbers.len() != 1 {
            return Err(self.unsupported_sequence());
        }
        let cap: u64 = 0x2_0000_0000;
        let len64: i64 = if len as u64 > cap { cap as i64 } else { len as i64 };
        let avail: i64 = len64 - caret.pos.y as i64;
        let n: i64 = if (self.parsed_numbers[0] as i64) < avail { self.parsed_numbers[0] as i64 } else { avail };
        let mut k: i64 = 0;
        while k < n
            invariant
                0 <= k,
                n > 0 ==> k <= n,
                n <= 0 ==> k == 0,
                buf.layers@.len() > 0,
                same_except_cells(*old(buf), *buf),
                *caret == *old(caret),
                l0 == old(buf).layers@[0],
                m == old(buf).terminal_state.margins,
                repeat_removed(l0, m, all_cells(*buf), caret.pos.y as int, n - k) == repeat_removed(l0, m, cs0, caret.pos.y as int, n as int),
            decreases n - k,
        {
            buf.remove_terminal_line(caret.pos.y);
            k += 1;
        }
        Ok(None)
    }

    fn insert_lines(&mut self, buf: &mut Buffer, caret: &mut Caret) -> (res: Result<Option<String>, ParserError>)
        requires
            old(buf).layers@.len() > 0,
        ensures
            edit_step(old(self)@, *old(buf), *old(caret), 'L', final(self)@, *final(buf), *final(caret), res),
    {
        self.state = AnsiState::Default;
        let ghost l0 = buf.layers@[0];
        let ghost m = buf.terminal_state.margins;
        let ghost cs0 = all_cells(*buf);
        if self.parsed_numbers.len() == 0 {
            buf.insert_terminal_line(caret.pos.y);
            return Ok(None);
        }
        if self.parsed_numbers.len() != 1 {
            return Err(self.unsupported_sequence());
        }
        let n = self.parsed_numbers[0];
        let mut k: i32 = 0;
        while k < n
            invariant
                0 <= k,
                n > 0 ==> k <= n,
                n <= 0 ==> k == 0,
                buf.layers@.len() > 0,
                same_except_cells(*old(buf), *buf),
                *caret == *old(caret),
                l0 == old(buf).layers@[0],
                m == old(buf).terminal_state.margins,
                repeat_inserted(l0, m, all_cells(*buf), caret.pos.y as int, n - k) == repeat_inserted(l0, m, cs0, caret.pos.y as int, n as int),
            decreases n - k,
        {
            buf.insert_terminal_line(caret.pos.y);
            k += 1;
        }
        Ok(None)
    }

    fn erase_display(&mut self, buf: &mut Buffer, caret: &mut Caret) -> (res: Result<Option<String>, ParserError>)
        requires
            old(buf).layers@.len() > 0,
        ensures
            edit_step(old(self)@, *old(buf), *old(caret), 'J', final(self)@, *final(buf), *final(caret), res),
    {
        self.state = AnsiState::Default;
        let n = self.first_param(0);
        if n == 0 {
            buf.clear_buffer_down(caret.pos.y);
            Ok(None)
        } else if n == 1 {
            buf.clear_buffer_up(caret.pos.y);
            Ok(None)
        } else if n == 2 || n == 3 {
            buf.clear_screen(caret);
            Ok(None)
        } else {
            buf.clear_buffer_down(caret.pos.y);
            Err(self.unsupported_sequence())
        }
    }

    fn erase_line(&mut self, buf: &mut Buffer, caret: &mut Caret) -> (res: Result<Option<String>, ParserError>)
        requires
            old(buf).layers@.len() > 0,
        ensures
            edit_step(old(self)@, *old(buf), *old(caret), 'K', final(self)@, *final(buf), *final(caret), res),
    {
        self.state = AnsiState::Default;
        let n = self.first_param(0);
        if n == 0 {
            buf.clear_line_end(&caret.pos);
        } else if n == 1 {
            buf.clear_line_start(&caret.pos);
        } else if n == 2 {
            buf.clear_line(caret.pos.y);
        } else {
            return Err(self.unsupported_sequence());
        }
        Ok(None)
    }

    pub(crate) fn edit_control(&mut self, buf: &mut Buffer, caret: &mut Caret, ch: char) -> (res: Result<Option<String>, ParserError>)
        requires
            old(buf).layers@.len() > 0,
            is_edit_control(ch),
        ensures
            edit_step(old(self)@, *old(buf), *old(caret), ch, final(self)@, *final(buf), *final(caret), res),
    {
        if ch == 'X' {
            self.erase_chars(buf, caret)
        } else if ch == '@' {
            self.insert_chars(buf, caret)
        } else if ch == 'M' {
            self.delete_lines(buf, caret)
        } else if ch == 'P' {
            self.delete_chars(buf, caret)
        } else if ch == 'L' {
            self.insert_lines(buf, caret)
        } else if ch == 'J' {
            self.erase_display(buf, caret)
        } else {
            self.erase_line(buf, caret)
        }
    }

    fn device_status_report(&mut self, buf: &Buffer, caret: &Caret) -> (res: Result<Option<String>, ParserError>)
        ensures
            report_mode_step(old(self)@, *buf, *caret, 'n', final(self)@, *buf, *caret, res),
    {
        self.state = AnsiState::Default;
        if self.parsed_numbers.len() != 1 {
            return Err(self.unsupported_sequence());
        }
        let n = self.parsed_numbers[0];
        if n == 5 {
            let mut s = String::new();
            push_char(&mut s, '\x1b');
            push_char(&mut s, '[');
            push_char(&mut s, '0');
            push_char(&mut s, 'n');
            assert(s@ =~= seq!['\x1b', '[', '0', 'n']);
            Ok(Some(s))
        } else if n == 6 {
            let h = crate::buffer::usize_to_i32_sat(buf.size.height);
            let w = crate::buffer::usize_to_i32_sat(buf.size.width);
            let y1 = crate::buffer::sat(caret.pos.y as i64 + 1);
            let x1 = crate::buffer::sat(caret.pos.x as i64 + 1);
            let mut s = String::new();
            push_char(&mut s, '\x1b');
            push_char(&mut s, '[');
            push_decimal(&mut s, if h < y1 { h } else { y1 });
            push_char(&mut s, ';');
            push_decimal(&mut s, if w < x1 { w } else { x1 });
            push_char(&mut s, 'R');
            assert(s@ =~= cursor_report(*buf, *caret));
            Ok(Some(s))
        } else {
            Err(self.unsupported_sequence())
        }
    }

    fn set_margins(&mut self, buf: &mut Buffer, caret: &mut Caret) -> (res: Result<Option<String>, ParserError>)
        requires
            old(buf).layers@.len() > 0,
        ensures
            report_mode_step(old(self)@, *old(buf), *old(caret), 'r', final(self)@, *final(buf), *final(caret), res),
    {
        self.state = AnsiState::Default;
        if self.parsed_numbers.len() != 2 {
            return Err(self.unsupported_sequence());
        }
        let start = crate::buffer::sat(self.parsed_numbers[0] as i64 - 1);
        let end = crate::buffer::sat(self.parsed_numbers[1] as i64 - 1);
        if start > end {
            buf.terminal_state.margins = None;
        } else {
            caret.pos = buf.upper_left_position();
            buf.terminal_state.margins = Some((start, end));
        }
        Ok(None)
    }

    fn special_key(&mut self, buf: &mut Buffer, caret: &mut Caret) -> (res: Result<Option<String>, ParserError>)
        requires
            old(buf).layers@.len() > 0,
        ensures
            report_mode_step(old(self)@, *old(buf), *old(caret), '~', final(self)@, *final(buf), *final(caret), res),
    {
        self.state = AnsiState::Default;
        if self.parsed_numbers.len() != 1 {
            return Err(self.unsupported_sequence());
        }
        let n = self.parsed_numbers[0];
        if n == 1 {
            caret.pos.x = 0;
        } else if n == 2 {
            caret.ins(buf);
        } else if n == 3 {
            caret.del(buf);
        } else if n == 4 {
            caret.eol(buf);
        } else if n == 5 || n == 6 {
        } else {
            return Err(self.unsupported_sequence());
        }
        Ok(None)
    }

    pub(crate) fn report_or_mode(&mut self, buf: &mut Buffer, caret: &mut Caret, ch: char) -> (res: Result<Option<String>, ParserError>)
        requires
            old(buf).layers@.len() > 0,
            is_report_or_mode(ch),
        ensures
            report_mode_step(old(self)@, *old(buf), *old(caret), ch, final(self)@, *final(buf), *final(caret), res),
    {
        if ch == 'n' {
            self.device_status_report(buf, caret)
        } else if ch == 'c' {
            self.state = AnsiState::Default;
            let mut s = String::new();
            push_char(&mut s, '\x1b');
            push_char(&mut s, '[');
            push_char(&mut s, '?');
            push_char(&mut s, '1');
            push_char(&mut s, ';');
            push_char(&mut s, '0');
            push_char(&mut s, 'c');
            assert(s@ =~= seq!['\x1b', '[', '?', '1', ';', '0', 'c']);
            Ok(Some(s))
        } else if ch == 'r' {
            self.set_margins(buf, caret)
        } else if ch == 'h' || ch == 'l' {
            self.state = AnsiState::Default;
            if self.parsed_numbers.len() == 1 && self.parsed_numbers[0] == 4 {
                caret.insert_mode = ch == 'h';
                Ok(None)
            } else {
                Err(self.unsupported_sequence())
            }
        } else {
            self.special_key(buf, caret)
        }
    }

    /// A character inside a control sequence; see `sequence_step`.
    pub(crate) fn read_sequence(&mut self, buf: &mut Buffer, caret: &mut Caret, ch: char) -> (res: Result<Option<String>, ParserError>)
        requires
            old(buf).layers@.len() > 0,
        ensures
            final(buf).layers@.len() == old(buf).layers@.len(),
            sequence_step(old(self)@, *old(buf), *old(caret), ch, final(self)@, *final(buf), *final(caret), res),
    {
        push_char(&mut self.current_sequence, ch);
        if ch == 'm' {
            self.select_graphic_rendition(buf, caret)
        } else if ch == 'H' || ch == 'f' || ch == 'C' || ch == 'D' || ch == 'A' || ch == 'B' || ch == 's' || ch == 'u'
            || ch == 'd' || ch == 'e' || ch == '\'' || ch == 'a' || ch == 'G' || ch == 'E' || ch == 'F' {
            self.cursor_control(buf, caret, ch);
            Ok(None)
        } else if ch == 'X' || ch == '@' || ch == 'M' || ch == 'P' || ch == 'L' || ch == 'J' || ch == 'K' {
            self.edit_control(buf, caret, ch)
        } else if ch == 'n' || ch == 'c' || ch == 'r' || ch == 'h' || ch == 'l' || ch == '~' {
            self.report_or_mode(buf, caret, ch)
        } else if ch == '?' {
            self.state = AnsiState::ReadCustomCommand;
            Ok(None)
        } else if ch == ' ' {
            self.state = AnsiState::StartFontSelector;
            Ok(None)
        } else if ('\x40' <= ch && ch <= '\x7e') || !(('0' <= ch && ch <= '9') || ch == ';') {
            self.state = AnsiState::Default;
            Err(self.unsupported_sequence())
        } else {
            self.read_param(ch);
            Ok(None)
        }
    }
}


/// `CSI n m` with one parameter `n` below 30 follows the rendition table:
/// 0 resets the attribute; 1 bold, 2 faint, 3 italic, 4 underline, 5 and 6
/// blink, 8 concealed, 9 crossed out and 21 double underline are switched on;
/// 22 switches bold and faint off, 23 italic, 24 underline, 25 blink, 28
/// concealed and 29 crossed out; 7 swaps foreground and background. Every
/// other field of the caret's attribute stays as it was, the caret does not
/// move, the sequence ends and nothing is answered. 20, 26 and 27, which the
/// table does not list, and negative numbers are refused and leave the
/// attribute alone. 10 selects the first font page, which no other of these
/// parameters changes.
pub proof fn law_sgr_flag_table(
    p0: AnsiParserView,
    b0: Buffer,
    c0: Caret,
    n: i32,
    p1: AnsiParserView,
    b1: Buffer,
    c1: Caret,
    res: Result<Option<String>, ParserError>,
)
    requires
        p0.state is ReadSequence,
        p0.parsed_numbers.len() == 1,
        p0.parsed_numbers[0] == n,
        ansi_step(p0, b0, c0, 'm', p1, b1, c1, res),
    ensures
        n == 0 ==> c1.attribute == default_attribute(),
        n == 1 ==> c1.attribute == (TextAttribute { bold: true, ..c0.attribute }),
        n == 2 ==> c1.attribute == (TextAttribute { faint: true, ..c0.attribute }),
        n == 3 ==> c1.attribute == (TextAttribute { italic: true, ..c0.attribute }),
        n == 4 ==> c1.attribute == (TextAttribute { underline: true, ..c0.attribute }),
        n == 5 || n == 6 ==> c1.attribute == (TextAttribute { blink: true, ..c0.attribute }),
        n == 7 ==> c1.attribute == (TextAttribute {
            foreground_color: c0.attribute.background_color,
            background_color: c0.attribute.foreground_color,
            ..c0.attribute
        }),
        n == 8 ==> c1.attribute == (TextAttribute { concealed: true, ..c0.attribute }),
        n == 9 ==> c1.attribute == (TextAttribute { crossed_out: true, ..c0.attribute }),
        10 <= n <= 19 ==> c1.attribute == c0.attribute,
        n == 21 ==> c1.attribute == (TextAttribute { double_underline: true, ..c0.attribute }),
        n == 22 ==> c1.attribute == (TextAttribute { bold: false, faint: false, ..c0.attribute }),
        n == 23 ==> c1.attribute == (TextAttribute { italic: false, ..c0.attribute }),
        n == 24 ==> c1.attribute == (TextAttribute { underline: false, ..c0.attribute }),
        n == 25 ==> c1.attribute == (TextAttribute { blink: false, ..c0.attribute }),
        n == 28 ==> c1.attribute == (TextAttribute { concealed: false, ..c0.attribute }),
        n == 29 ==> c1.attribute == (TextAttribute { crossed_out: false, ..c0.attribute }),
        n < 0 || n == 20 || n == 26 || n == 27 ==> c1.attribute == c0.attribute && res is Err,
        0 <= n < 30 && n != 20 && n != 26 && n != 27 ==> {
            &&& res == Ok::<Option<String>, ParserError>(None)
            &&& p1.state is Default
            &&& c1.pos == c0.pos
            &&& b1.palette.colors@ == b0.palette.colors@
            &&& b1.layers == b0.layers
            &&& p1.current_font_page == if n == 10 { 0 } else { p0.current_font_page }
        },
{
    reveal_with_fuel(sgr_fold, 2);
}


/// `CSI n m` with one color parameter `n`: 30 to 37 set the foreground and
/// 40 to 47 the background to black, red, green, yellow, blue, magenta, cyan
/// and white, which the DOS palette holds at 0, 4, 2, 6, 1, 5, 3 and 7; 39
/// sets the default foreground (7), 49 the default background (0). Every
/// other field of the attribute stays, and nothing is answered.
pub proof fn law_sgr_color_table(
    p0: AnsiParserView,
    b0: Buffer,
    c0: Caret,
    n: i32,
    p1: AnsiParserView,
    b1: Buffer,
    c1: Caret,
    res: Result<Option<String>, ParserError>,
)
    requires
        p0.state is ReadSequence,
        p0.parsed_numbers.len() == 1,
        p0.parsed_numbers[0] == n,
        30 <= n <= 49,
        n != 38,
        n != 48,
        ansi_step(p0, b0, c0, 'm', p1, b1, c1, res),
    ensures
        ({
            let basic = |i: int|
                if i == 0 { 0u32 }
                else if i == 1 { 4u32 }
                else if i == 2 { 2u32 }
                else if i == 3 { 6u32 }
                else if i == 4 { 1u32 }
                else if i == 5 { 5u32 }
                else if i == 6 { 3u32 }
                else { 7u32 };
            &&& 30 <= n <= 37 ==> c1.attribute == (TextAttribute { foreground_color: basic(n - 30), ..c0.attribute })
            &&& n == 39 ==> c1.attribute == (TextAttribute { foreground_color: 7, ..c0.attribute })
            &&& 40 <= n <= 47 ==> c1.attribute == (TextAttribute { background_color: basic(n - 40), ..c0.attribute })
            &&& n == 49 ==> c1.attribute == (TextAttribute { background_color: 0, ..c0.attribute })
            &&& res == Ok::<Option<String>, ParserError>(None)
            &&& c1.pos == c0.pos
        }),
{
    reveal_with_fuel(sgr_fold, 2);
}


/// `CSI m` without parameters resets the caret's attribute, as `CSI 0 m`
/// does.
pub proof fn law_sgr_no_parameter(
    p0: AnsiParserView,
    b0: Buffer,
    c0: Caret,
    p1: AnsiParserView,
    b1: Buffer,
    c1: Caret,
    res: Result<Option<String>, ParserError>,
)
    requires
        p0.state is ReadSequence,
        p0.parsed_numbers.len() == 0,
        ansi_step(p0, b0, c0, 'm', p1, b1, c1, res),
    ensures
        c1.attribute == default_attribute(),
        c1.pos == c0.pos,
        res == Ok::<Option<String>, ParserError>(None),
{
}

/// The character `m` ends a control sequence with Select Graphic Rendition.
proof fn lemma_sgr_step_of(
    p0: AnsiParserView,
    b0: Buffer,
    c0: Caret,
    p1: AnsiParserView,
    b1: Buffer,
    c1: Caret,
    res: Result<Option<String>, ParserError>,
)
    requires
        p0.state is ReadSequence,
        ansi_step(p0, b0, c0, 'm', p1, b1, c1, res),
    ensures
        sgr_step(AnsiParserView { current_sequence: p0.current_sequence.push('m'), ..p0 }, b0, c0, p1, b1, c1, res),
{
}

/// The attribute after a rendition parameter does not depend on the font
/// page.
proof fn lemma_sgr_simple_page(n: i32, a: TextAttribute, p: usize, q: usize)
    ensures
        sgr_simple(n, a, p) is Some == sgr_simple(n, a, q) is Some,
        sgr_simple(n, a, p) is Some ==> sgr_simple(n, a, p).unwrap().0 == sgr_simple(n, a, q).unwrap().0,
{
}

/// Select Graphic Rendition with one understood parameter.
proof fn lemma_sgr_one(
    n: i32,
    s: AnsiParserView,
    b0: Buffer,
    c0: Caret,
    p1: AnsiParserView,
    b1: Buffer,
    c1: Caret,
    res: Result<Option<String>, ParserError>,
)
    requires
        n != 38 && n != 48,
        s.parsed_numbers == Seq::empty().push(n),
        sgr_step(s, b0, c0, p1, b1, c1, res),
        res is Ok,
    ensures
        sgr_simple(n, c0.attribute, s.current_font_page) is Some,
        c1.attribute == sgr_simple(n, c0.attribute, s.current_font_page).unwrap().0,
        b1.palette.colors@ == b0.palette.colors@,
{
    reveal_with_fuel(sgr_fold, 2);
    assert(s.parsed_numbers[0] == n);
}

/// Select Graphic Rendition with two parameters, each understood in turn.
proof fn lemma_sgr_two(
    a: i32,
    b: i32,
    s: AnsiParserView,
    b0: Buffer,
    c0: Caret,
    p1: AnsiParserView,
    b1: Buffer,
    c1: Caret,
    res: Result<Option<String>, ParserError>,
)
    requires
        a != 38 && a != 48 && b != 38 && b != 48,
        s.parsed_numbers == Seq::empty().push(a).push(b),
        sgr_step(s, b0, c0, p1, b1, c1, res),
        sgr_simple(a, c0.attribute, s.current_font_page) is Some,
        sgr_simple(
            b,
            sgr_simple(a, c0.attribute, s.current_font_page).unwrap().0,
            sgr_simple(a, c0.attribute, s.current_font_page).unwrap().1,
        ) is Some,
    ensures
        c1.attribute == sgr_simple(
            b,
            sgr_simple(a, c0.attribute, s.current_font_page).unwrap().0,
            sgr_simple(a, c0.attribute, s.current_font_page).unwrap().1,
        ).unwrap().0,
        res == Ok::<Option<String>, ParserError>(None),
{
    reveal_with_fuel(sgr_fold, 3);
    assert(s.parsed_numbers[0] == a && s.parsed_numbers[1] == b);
}

/// The parameters of `CSI a ; b m` act in turn: where `a` and `b` are each
/// understood on their own (and are not the extended colors 38 and 48), the
/// attribute after `CSI a ; b m` is the one that `CSI a m` and then
/// `CSI b m` leave, from the same caret and buffer.
pub proof fn law_sgr_parameters_in_turn(
    a: i32,
    b: i32,
    q0: AnsiParserView,
    b0: Buffer,
    c0: Caret,
    q1: AnsiParserView,
    b1: Buffer,
    c1: Caret,
    r1: Result<Option<String>, ParserError>,
    q2: AnsiParserView,
    q3: AnsiParserView,
    b2: Buffer,
    c2: Caret,
    r2: Result<Option<String>, ParserError>,
    p0: AnsiParserView,
    p1: AnsiParserView,
    bb: Buffer,
    cc: Caret,
    rr: Result<Option<String>, ParserError>,
)
    requires
        a != 38 && a != 48 && b != 38 && b != 48,
        q0.state is ReadSequence,
        q0.parsed_numbers == Seq::empty().push(a),
        ansi_step(q0, b0, c0, 'm', q1, b1, c1, r1),
        r1 is Ok,
        q2.state is ReadSequence,
        q2.parsed_numbers == Seq::empty().push(b),
        ansi_step(q2, b1, c1, 'm', q3, b2, c2, r2),
        r2 is Ok,
        p0.state is ReadSequence,
        p0.parsed_numbers == Seq::empty().push(a).push(b),
        ansi_step(p0, b0, c0, 'm', p1, bb, cc, rr),
    ensures
        cc.attribute == c2.attribute,
        rr == Ok::<Option<String>, ParserError>(None),
{
    lemma_sgr_step_of(q0, b0, c0, q1, b1, c1, r1);
    lemma_sgr_step_of(q2, b1, c1, q3, b2, c2, r2);
    lemma_sgr_step_of(p0, b0, c0, p1, bb, cc, rr);
    let s1 = AnsiParserView { current_sequence: q0.current_sequence.push('m'), ..q0 };
    let s2 = AnsiParserView { current_sequence: q2.current_sequence.push('m'), ..q2 };
    let s0 = AnsiParserView { current_sequence: p0.current_sequence.push('m'), ..p0 };
    lemma_sgr_one(a, s1, b0, c0, q1, b1, c1, r1);
    lemma_sgr_one(b, s2, b1, c1, q3, b2, c2, r2);
    lemma_sgr_simple_page(a, c0.attribute, q0.current_font_page, p0.current_font_page);
    let sa = sgr_simple(a, c0.attribute, p0.current_font_page).unwrap();
    lemma_sgr_simple_page(b, c1.attribute, q2.current_font_page, sa.1);
    lemma_sgr_two(a, b, s0, b0, c0, p1, bb, cc, rr);
}

} // verus!

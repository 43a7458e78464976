use vstd::prelude::*;

use crate::attributed_char::{default_char, AttributedChar};
use crate::buffer::{all_cells, geom, same_except_cells, same_except_cells_and_height, Buffer};
use crate::caret::Caret;
use crate::geometry::Position;
use crate::layer::Layer;
use crate::palette::{dos_default_colors, Color, Palette};
use crate::sixel::{new_sixel, palette_with, picture_sized, pixel_drawn, sixels_view, Sixel, SixelReadStatus, SixelView};
use crate::layer::{sat_i32, set_char_cells};
use crate::parser_errors::{is_unsupported_sequence, ParserError};
use crate::terminal_ops::{line_feed, moved_down, moved_up, printed_cells, with_n0, Cells};
use crate::ansi_csi::sequence_step;
use crate::text::push_char;
use crate::terminal_state::{initial_terminal_state, AutoWrapMode, MouseMode, OriginMode, TerminalScrolling, TerminalState};
use crate::text_attribute::default_attribute;

verus! {

/// A parser that has read nothing yet.
pub open spec fn initial_ansi_parser() -> AnsiParserView {
    AnsiParserView {
        state: AnsiState::Default,
        current_font_page: 0,
        saved_pos: Position { x: 0, y: 0 },
        saved_cursor_opt: None,
        parsed_numbers: Seq::empty(),
        sixel_cursor: Position { x: 0, y: 0 },
        current_sixel_color: 0,
        current_sixel: 0,
        sixel_palette: dos_default_colors(),
        current_sequence: Seq::empty(),
    }
}

/// Where the reader of a sixel picture stands.
#[derive(Clone, Copy, Debug, PartialEq, Eq, Structural)]
pub enum SixelState {
    Read,
    ReadColor,
    ReadSize,
    Repeat,
    EndSequence,
}

/// Where the parser stands in an escape sequence.
#[derive(Clone, Copy, Debug, PartialEq, Eq, Structural)]
pub enum AnsiState {
    Default,
    GotEscape,
    ReadSequence,
    ReadCustomCommand,
    StartFontSelector,
    GotDCS,
    ReadSixel(SixelState),
}

/// A parser for ANSI terminal output: text with escape sequences that move
/// the caret, edit the buffer and set modes.
pub struct AnsiParser {
    pub state: AnsiState,
    pub current_font_page: usize,
    pub saved_pos: Position,
    pub saved_cursor_opt: Option<Caret>,
    pub parsed_numbers: Vec<i32>,
    pub sixel_cursor: Position,
    pub current_sixel_color: i32,
    pub current_sixel: usize,
    pub current_sixel_palette: Palette,
    pub current_sequence: String,
}

/// The parser with its text and numbers as sequences.
pub struct AnsiParserView {
    pub state: AnsiState,
    pub current_font_page: usize,
    pub saved_pos: Position,
    pub saved_cursor_opt: Option<Caret>,
    pub parsed_numbers: Seq<i32>,
    pub sixel_cursor: Position,
    pub current_sixel_color: i32,
    pub current_sixel: usize,
    pub sixel_palette: Seq<Color>,
    pub current_sequence: Seq<char>,
}

impl View for AnsiParser {
    type V = AnsiParserView;

    open spec fn view(&self) -> AnsiParserView {
        AnsiParserView {
            state: self.state,
            current_font_page: self.current_font_page,
            saved_pos: self.saved_pos,
            saved_cursor_opt: self.saved_cursor_opt,
            parsed_numbers: self.parsed_numbers@,
            sixel_cursor: self.sixel_cursor,
            current_sixel_color: self.current_sixel_color,
            current_sixel: self.current_sixel,
            sixel_palette: self.current_sixel_palette.colors@,
            current_sequence: self.current_sequence@,
        }
    }
}

pub open spec fn is_digit(c: char) -> bool {
    '0' <= c <= '9'
}

pub open spec fn digit_value(c: char) -> int {
    c as int - '0' as int
}

/// The numbers after the digit `d` was read: it extends the last number (a
/// new one where there is none), held to the range of `i32`.
pub open spec fn push_digit(nums: Seq<i32>, d: int) -> Seq<i32> {
    if nums.len() == 0 {
        seq![sat_i32(d) as i32]
    } else {
        nums.drop_last().push(sat_i32(nums.last() * 10 + d) as i32)
    }
}

/// The numbers after `c` was read inside a parameter list: a digit extends
/// the last number, a `;` starts a new one at 0.
pub open spec fn read_param(nums: Seq<i32>, c: char) -> Seq<i32> {
    if is_digit(c) {
        push_digit(nums, digit_value(c))
    } else if c == ';' {
        nums.push(0)
    } else {
        nums
    }
}

/// The first number, or `dflt` where there is none.
pub open spec fn first_or(nums: Seq<i32>, dflt: int) -> int {
    if nums.len() > 0 { nums[0] as int } else { dflt }
}

/// The buffer and caret after `lf`.
pub open spec fn lf_effect(b0: Buffer, c0: Caret, b1: Buffer, c1: Caret) -> bool {
    &&& same_except_cells_and_height(b0, b1)
    &&& ({
        let (cs, p, h) = line_feed(geom(b0), all_cells(b0), c0.pos.y as int);
        &&& all_cells(b1) == cs
        &&& b1.size.height == h
        &&& c1 == (Caret { pos: p, ..c0 })
    })
}

/// The buffer and caret after `ff`.
pub open spec fn ff_effect(b0: Buffer, c0: Caret, b1: Buffer, c1: Caret) -> bool {
    &&& c1 == (Caret { pos: Position { x: 0, y: 0 }, is_visible: true, attribute: default_attribute(), ..c0 })
    &&& crate::terminal_ops::buffer_cleared(
        Buffer { terminal_state: crate::terminal_state::initial_terminal_state(b0.terminal_state.size), ..b0 },
        b1,
    )
}

/// The buffer and caret after `bs`.
pub open spec fn bs_effect(b0: Buffer, c0: Caret, b1: Buffer, c1: Caret) -> bool {
    let x = if c0.pos.x - 1 > 0 { c0.pos.x - 1 } else { 0 };
    let p = Position { x: x as i32, y: c0.pos.y };
    &&& c1 == (Caret { pos: p, ..c0 })
    &&& same_except_cells(b0, b1)
    &&& all_cells(b1) == all_cells(b0).update(
        0,
        set_char_cells(b0.layers@[0], all_cells(b0)[0], p, AttributedChar::spec_new(' ', c0.attribute)),
    )
}

/// The rows after the cell at `x` of row `y` of the first layer was deleted.
pub open spec fn del_cells(cs: Seq<Cells>, x: int, y: int) -> Seq<Cells> {
    if 0 <= y < cs[0].len() && 0 <= x < cs[0][y].len() {
        cs.update(0, cs[0].update(y, cs[0][y].remove(x)))
    } else {
        cs
    }
}

/// The rows after a space was inserted at `x` of row `y` of the first layer.
pub open spec fn ins_cells(cs: Seq<Cells>, x: int, y: int) -> Seq<Cells> {
    if 0 <= y < cs[0].len() && 0 <= x {
        cs.update(0, cs[0].update(y, crate::line::cells_inserting_char(cs[0][y], x, default_char())))
    } else {
        cs
    }
}

/// The buffer and caret after a character was printed; see `print_char`.
pub open spec fn print_effect(b0: Buffer, c0: Caret, ch: AttributedChar, b1: Buffer, c1: Caret) -> bool {
    &&& same_except_cells_and_height(b0, b1)
    &&& ({
        let cs1 = all_cells(b0).update(0, printed_cells(b0, c0, ch));
        let x1 = sat_i32(c0.pos.x + 1);
        let w = sat_i32(b0.size.width as int);
        if x1 > w && b0.terminal_state.auto_wrap_mode == crate::terminal_state::AutoWrapMode::AutoWrap {
            let (cs, p, h) = line_feed(with_n0(geom(b0), cs1), cs1, c0.pos.y as int);
            &&& all_cells(b1) == cs
            &&& b1.size.height == h
            &&& c1 == (Caret { pos: p, ..c0 })
        } else {
            &&& all_cells(b1) == cs1
            &&& b1.size == b0.size
            &&& c1 == (Caret { pos: Position { x: (if x1 > w { x1 - 1 } else { x1 }) as i32, y: c0.pos.y }, ..c0 })
        }
    })
}

/// The buffer holds rows `cs` and the caret stands at `p`, all else as before.
pub open spec fn moved_effect(b0: Buffer, c0: Caret, b1: Buffer, c1: Caret, cs: Seq<Cells>, p: Position) -> bool {
    &&& same_except_cells(b0, b1)
    &&& all_cells(b1) == cs
    &&& c1 == (Caret { pos: p, ..c0 })
}

/// The buffer and caret after `index`.
pub open spec fn index_effect(b0: Buffer, c0: Caret, b1: Buffer, c1: Caret) -> bool {
    let (cs, p) = moved_down(geom(b0), all_cells(b0), c0.pos.x as int, sat_i32(c0.pos.y + 1), true);
    moved_effect(b0, c0, b1, c1, cs, p)
}

/// The buffer and caret after `reverse_index`.
pub open spec fn reverse_index_effect(b0: Buffer, c0: Caret, b1: Buffer, c1: Caret) -> bool {
    let (cs, p) = moved_up(geom(b0), all_cells(b0), c0.pos.x as int, sat_i32(c0.pos.y - 1), true);
    moved_effect(b0, c0, b1, c1, cs, p)
}

/// The buffer and caret after `next_line`.
pub open spec fn next_line_effect(b0: Buffer, c0: Caret, b1: Buffer, c1: Caret) -> bool {
    let (cs, p) = moved_down(geom(b0), all_cells(b0), 0, sat_i32(c0.pos.y + 1), true);
    moved_effect(b0, c0, b1, c1, cs, p)
}

/// What a character does outside of any sequence: ESC starts a sequence,
/// NUL and 0xFF reset the attribute, LF, FF, CR, BS and DEL act on the caret
/// and the buffer, and any other character is printed with the caret's
/// attribute on the current font page.
pub open spec fn default_step(p0: AnsiParserView, b0: Buffer, c0: Caret, ch: char, p1: AnsiParserView, b1: Buffer, c1: Caret) -> bool {
    if ch == '\x1b' {
        &&& p1 == AnsiParserView { state: AnsiState::GotEscape, current_sequence: seq!['<', 'E', 'S', 'C', '>'], ..p0 }
        &&& b1 == b0
        &&& c1 == c0
    } else if ch == '\0' || ch == '\u{ff}' {
        &&& p1 == p0
        &&& b1 == b0
        &&& c1 == (Caret { attribute: default_attribute(), ..c0 })
    } else if ch == '\n' {
        p1 == p0 && lf_effect(b0, c0, b1, c1)
    } else if ch == '\x0c' {
        p1 == p0 && ff_effect(b0, c0, b1, c1)
    } else if ch == '\r' {
        &&& p1 == p0
        &&& b1 == b0
        &&& c1 == (Caret { pos: Position { x: 0, y: c0.pos.y }, ..c0 })
    } else if ch == '\x08' {
        p1 == p0 && bs_effect(b0, c0, b1, c1)
    } else if ch == '\x7f' {
        &&& p1 == p0
        &&& same_except_cells(b0, b1)
        &&& all_cells(b1) == del_cells(all_cells(b0), c0.pos.x as int, c0.pos.y as int)
        &&& c1 == c0
    } else {
        p1 == p0 && print_effect(b0, c0, AttributedChar { ch, attribute: c0.attribute, font_page: p0.current_font_page }, b1, c1)
    }
}

/// What the character after ESC does: `[` opens a control sequence, `7` and
/// `8` save and restore the caret, `c` resets the terminal, `D`, `M` and `E`
/// move the caret a row (scrolling at the margins) and `P` opens a device
/// control string; anything else is refused.
pub open spec fn escape_step(
    p0: AnsiParserView,
    b0: Buffer,
    c0: Caret,
    ch: char,
    p1: AnsiParserView,
    b1: Buffer,
    c1: Caret,
    res: Result<Option<String>, ParserError>,
) -> bool {
    let d = AnsiParserView { state: AnsiState::Default, ..p0 };
    if ch == '[' {
        &&& p1 == AnsiParserView {
            state: AnsiState::ReadSequence,
            current_sequence: p0.current_sequence.push('['),
            parsed_numbers: Seq::empty(),
            ..p0
        }
        &&& b1 == b0 && c1 == c0 && res == Ok::<Option<String>, ParserError>(None)
    } else if ch == '7' {
        p1 == AnsiParserView { saved_cursor_opt: Some(c0), ..d } && b1 == b0 && c1 == c0 && res == Ok::<Option<String>, ParserError>(None)
    } else if ch == '8' {
        &&& p1 == d && b1 == b0 && res == Ok::<Option<String>, ParserError>(None)
        &&& c1 == match p0.saved_cursor_opt { Some(s) => s, None => c0 }
    } else if ch == 'c' {
        p1 == d && ff_effect(b0, c0, b1, c1) && res == Ok::<Option<String>, ParserError>(None)
    } else if ch == 'D' {
        p1 == d && index_effect(b0, c0, b1, c1) && res == Ok::<Option<String>, ParserError>(None)
    } else if ch == 'M' {
        p1 == d && reverse_index_effect(b0, c0, b1, c1) && res == Ok::<Option<String>, ParserError>(None)
    } else if ch == 'E' {
        p1 == d && next_line_effect(b0, c0, b1, c1) && res == Ok::<Option<String>, ParserError>(None)
    } else if ch == 'P' {
        p1 == AnsiParserView { state: AnsiState::GotDCS, ..p0 } && b1 == b0 && c1 == c0 && res == Ok::<Option<String>, ParserError>(None)
    } else {
        p1 == d && b1 == b0 && c1 == c0 && is_unsupported_sequence(res, p0.current_sequence)
    }
}



/// What one character does to the parser, the buffer and the caret, and what
/// the parser answers, by the state the parser is in.
pub open spec fn ansi_step(
    p0: AnsiParserView,
    b0: Buffer,
    c0: Caret,
    ch: char,
    p1: AnsiParserView,
    b1: Buffer,
    c1: Caret,
    res: Result<Option<String>, ParserError>,
) -> bool {
    match p0.state {
        AnsiState::Default => default_step(p0, b0, c0, ch, p1, b1, c1) && res == Ok::<Option<String>, ParserError>(None),
        AnsiState::GotEscape => escape_step(p0, b0, c0, ch, p1, b1, c1, res),
        AnsiState::ReadSequence => sequence_step(p0, b0, c0, ch, p1, b1, c1, res),
        AnsiState::ReadCustomCommand => custom_step(p0, b0, c0, ch, p1, b1, c1, res),
        AnsiState::StartFontSelector => font_step(p0, b0, ch, p1, res) && b1 == b0 && c1 == c0,
        AnsiState::GotDCS => dcs_step(p0, b0, c0, ch, p1, b1, res) && c1 == c0,
        AnsiState::ReadSixel(s) => {
            let (p, sx, e) = sixel_step(s, p0, current_sixel_of(p0, b0), ch);
            &&& p1 == p && c1 == c0
            &&& sixel_replaced(b0, b1, p0.current_sixel as int, sx)
            &&& res == match e { Some(err) => Err::<Option<String>, ParserError>(err), None => Ok(None) }
        },
    }
}

/// The terminal state and caret after `CSI ? n l`, or `None` where `n` names
/// no mode that can be reset.
pub open spec fn private_mode_reset(n: i32, ts: TerminalState, c: Caret) -> Option<(TerminalState, Caret)> {
    if n == 4 {
        Some((TerminalState { scroll_state: TerminalScrolling::Fast, ..ts }, c))
    } else if n == 6 {
        Some((ts, c))
    } else if n == 7 {
        Some((TerminalState { auto_wrap_mode: AutoWrapMode::NoWrap, ..ts }, c))
    } else if n == 25 {
        Some((ts, Caret { is_visible: false, ..c }))
    } else if n == 33 {
        Some((TerminalState { use_ice: false, ..ts }, c))
    } else {
        None
    }
}

/// The mouse mode that `CSI ? n h` switches on, if any.
pub open spec fn mouse_mode_of(n: i32) -> Option<MouseMode> {
    if n == 9 { Some(MouseMode::X10) }
    else if n == 1000 { Some(MouseMode::Default) }
    else if n == 1001 { Some(MouseMode::Highlight) }
    else if n == 1002 { Some(MouseMode::ButtonEvents) }
    else if n == 1003 { Some(MouseMode::AnyEvents) }
    else if n == 1004 { Some(MouseMode::FocusEvent) }
    else if n == 1007 { Some(MouseMode::AlternateScroll) }
    else if n == 1005 { Some(MouseMode::ExtendedMode) }
    else if n == 1006 { Some(MouseMode::SGRExtendedMode) }
    else if n == 1015 { Some(MouseMode::URXVTExtendedMode) }
    else if n == 1016 { Some(MouseMode::PixelPosition) }
    else { None }
}

/// The terminal state and caret after `CSI ? n h`, or `None` where `n` names
/// no mode that can be set.
pub open spec fn private_mode_set(n: i32, ts: TerminalState, c: Caret) -> Option<(TerminalState, Caret)> {
    if n == 4 {
        Some((TerminalState { scroll_state: TerminalScrolling::Smooth, ..ts }, c))
    } else if n == 6 {
        Some((TerminalState { origin_mode: OriginMode::UpperLeftCorner, ..ts }, c))
    } else if n == 7 {
        Some((TerminalState { auto_wrap_mode: AutoWrapMode::AutoWrap, ..ts }, c))
    } else if n == 25 {
        Some((ts, Caret { is_visible: true, ..c }))
    } else if n == 33 {
        Some((TerminalState { use_ice: true, ..ts }, c))
    } else {
        match mouse_mode_of(n) {
            Some(m) => Some((TerminalState { mouse_mode: m, ..ts }, c)),
            None => None,
        }
    }
}

/// What a character does after `CSI ?`: `p` resets the terminal state, `l`
/// and `h` reset and set the private mode named by the one parameter, digits
/// build that parameter; anything else is refused.
pub open spec fn custom_step(
    p0: AnsiParserView,
    b0: Buffer,
    c0: Caret,
    ch: char,
    p1: AnsiParserView,
    b1: Buffer,
    c1: Caret,
    res: Result<Option<String>, ParserError>,
) -> bool {
    let d = AnsiParserView { state: AnsiState::Default, ..p0 };
    let nums = p0.parsed_numbers;
    if ch == 'p' {
        &&& p1 == d && c1 == c0 && res == Ok::<Option<String>, ParserError>(None)
        &&& b1 == Buffer { terminal_state: initial_terminal_state(b0.terminal_state.size), ..b0 }
    } else if ch == 'l' || ch == 'h' {
        &&& p1 == d
        &&& if nums.len() != 1 {
            b1 == b0 && c1 == c0 && is_unsupported_sequence(res, p0.current_sequence)
        } else {
            let m = if ch == 'l' { private_mode_reset(nums[0], b0.terminal_state, c0) } else { private_mode_set(nums[0], b0.terminal_state, c0) };
            match m {
                Some((ts, c)) => b1 == Buffer { terminal_state: ts, ..b0 } && c1 == c && res == Ok::<Option<String>, ParserError>(None),
                None => b1 == b0 && c1 == c0 && if ch == 'l' {
                    is_unsupported_sequence(res, p0.current_sequence)
                } else {
                    res == Err::<Option<String>, ParserError>(ParserError::UnsupportedCustomCommand(nums[0]))
                },
            }
        }
    } else if is_digit(ch) {
        &&& p1 == AnsiParserView { parsed_numbers: read_param(nums, ch), ..p0 }
        &&& b1 == b0 && c1 == c0 && res == Ok::<Option<String>, ParserError>(None)
    } else {
        p1 == d && b1 == b0 && c1 == c0 && is_unsupported_sequence(res, p0.current_sequence)
    }
}

/// The picture that the parser draws into.
pub open spec fn current_sixel_of(p: AnsiParserView, b: Buffer) -> SixelView {
    b.layers@[0].sixels@[p.current_sixel as int]@
}

/// `b1` is `b0` with picture `i` of its first layer now `v`.
pub open spec fn sixel_replaced(b0: Buffer, b1: Buffer, i: int, v: SixelView) -> bool {
    let l0 = b0.layers@[0];
    let l1 = b1.layers@[0];
    &&& b1 == Buffer { layers: b1.layers, ..b0 }
    &&& b1.layers@ == b0.layers@.update(0, l1)
    &&& l1 == Layer { sixels: l1.sixels, ..l0 }
    &&& sixels_view(l1.sixels@) == sixels_view(l0.sixels@).update(i, v)
}

/// `b1` is `b0` with picture `v` added after the pictures of its first
/// layer.
pub open spec fn sixel_pushed(b0: Buffer, b1: Buffer, v: SixelView) -> bool {
    let l0 = b0.layers@[0];
    let l1 = b1.layers@[0];
    &&& b1 == Buffer { layers: b1.layers, ..b0 }
    &&& b1.layers@ == b0.layers@.update(0, l1)
    &&& l1 == Layer { sixels: l1.sixels, ..l0 }
    &&& sixels_view(l1.sixels@) == sixels_view(l0.sixels@).push(v)
}

/// The pixel height of a sixel picture's pixels by the first parameter of
/// `DCS ... q`.
pub open spec fn sixel_aspect_ratio(nums: Seq<i32>) -> i32 {
    if nums.len() == 0 {
        2
    } else if nums[0] == 0 || nums[0] == 1 {
        5
    } else if nums[0] == 2 {
        3
    } else if nums[0] == 7 || nums[0] == 8 || nums[0] == 9 {
        1
    } else {
        2
    }
}

/// What a character does inside a device control string: `q` starts a sixel
/// picture at the caret, on the first layer, with the palette emptied (its
/// background the caret's where the first parameter is 1); digits and `;`
/// build the parameters; anything else is refused and marks the current
/// picture as broken off.
pub open spec fn dcs_step(
    p0: AnsiParserView,
    b0: Buffer,
    c0: Caret,
    ch: char,
    p1: AnsiParserView,
    b1: Buffer,
    res: Result<Option<String>, ParserError>,
) -> bool {
    let nums = p0.parsed_numbers;
    if ch == 'q' {
        let bg = if nums.len() > 0 && nums[0] == 1 {
            Some(b0.palette.colors@[c0.attribute.background_color as int])
        } else {
            None
        };
        &&& sixel_pushed(b0, b1, SixelView { background_color: bg, ..new_sixel(c0.pos, sixel_aspect_ratio(nums)) })
        &&& p1 == AnsiParserView {
            state: AnsiState::ReadSixel(SixelState::Read),
            sixel_cursor: Position { x: 0, y: 0 },
            current_sixel: b0.layers@[0].sixels@.len() as usize,
            sixel_palette: Seq::empty(),
            ..p0
        }
        &&& res == Ok::<Option<String>, ParserError>(None)
    } else if is_digit(ch) || ch == ';' {
        p1 == AnsiParserView { parsed_numbers: read_param(p0.parsed_numbers, ch), ..p0 } && b1 == b0 && res == Ok::<Option<String>, ParserError>(None)
    } else {
        let seq = p0.current_sequence.push(ch);
        &&& p1 == AnsiParserView { state: AnsiState::Default, current_sequence: seq, ..p0 }
        &&& sixel_replaced(b0, b1, p0.current_sixel as int, SixelView { read_status: SixelReadStatus::Error, ..current_sixel_of(p0, b0) })
        &&& is_unsupported_sequence(res, seq)
    }
}

/// The color that the picture is drawn in: the current sixel color, counted
/// round the sixel palette.
pub open spec fn sixel_color(p: AnsiParserView) -> Option<Color> {
    Some(p.sixel_palette[((p.current_sixel_color as usize) as int) % (p.sixel_palette.len() as int)])
}

/// The six pixels that a sixel character sets.
pub open spec fn sixel_mask(ch: char) -> u8 {
    (((ch as u32) as u8) - 63) as u8
}

/// One sixel drawn at the sixel cursor, which moves one column on.
pub open spec fn draw_one(p: AnsiParserView, sx: SixelView, ch: char) -> (AnsiParserView, SixelView) {
    let x2 = sat_i32(p.sixel_cursor.x + 1) as i32;
    (
        AnsiParserView { sixel_cursor: Position { x: x2, y: p.sixel_cursor.y }, ..p },
        pixel_drawn(
            sx,
            p.sixel_cursor.x as int,
            p.sixel_cursor.y * 6,
            sixel_color(p),
            sixel_mask(ch),
            SixelReadStatus::Position(x2, p.sixel_cursor.y),
        ),
    )
}

/// The same sixel drawn `n` times, one column after the other.
pub open spec fn draws(p: AnsiParserView, sx: SixelView, ch: char, n: nat) -> (AnsiParserView, SixelView)
    decreases n,
{
    if n == 0 {
        (p, sx)
    } else {
        let (p1, sx1) = draws(p, sx, ch, (n - 1) as nat);
        draw_one(p1, sx1, ch)
    }
}

/// The parser, picture and error after one sixel of picture data: a
/// character below `?` is refused and breaks the picture off, one above 0x7F
/// also ends the picture.
pub open spec fn sixel_pixel(p: AnsiParserView, sx: SixelView, ch: char) -> (AnsiParserView, SixelView, Option<ParserError>) {
    let p2 = if ch > '\x7f' { AnsiParserView { state: AnsiState::Default, ..p } } else { p };
    if '?' > ch {
        (p2, SixelView { read_status: SixelReadStatus::Error, ..sx }, Some(ParserError::InvalidSixelChar(ch)))
    } else {
        let (p3, sx3) = draw_one(p2, sx, ch);
        (p3, sx3, None)
    }
}

/// The parser, picture and error after a character of picture data: ESC ends
/// the picture, `#`, `!` and `"` start a color, a repeat and a size, `-` and
/// `$` move the sixel cursor to the start of the next band or of this one;
/// anything else is a sixel.
pub open spec fn sixel_data(p: AnsiParserView, sx: SixelView, ch: char) -> (AnsiParserView, SixelView, Option<ParserError>) {
    if ch == '\x1b' {
        (AnsiParserView { state: AnsiState::ReadSixel(SixelState::EndSequence), ..p }, sx, None)
    } else if ch == '#' {
        (AnsiParserView { state: AnsiState::ReadSixel(SixelState::ReadColor), parsed_numbers: Seq::empty(), ..p }, sx, None)
    } else if ch == '!' {
        (AnsiParserView { state: AnsiState::ReadSixel(SixelState::Repeat), parsed_numbers: Seq::empty(), ..p }, sx, None)
    } else if ch == '-' {
        (AnsiParserView { sixel_cursor: Position { x: 0, y: sat_i32(p.sixel_cursor.y + 1) as i32 }, ..p }, sx, None)
    } else if ch == '$' {
        (AnsiParserView { sixel_cursor: Position { x: 0, y: p.sixel_cursor.y }, ..p }, sx, None)
    } else if ch == '"' {
        (AnsiParserView { state: AnsiState::ReadSixel(SixelState::ReadSize), parsed_numbers: Seq::empty(), ..p }, sx, None)
    } else {
        sixel_pixel(p, sx, ch)
    }
}

/// The sixel color number that a color introducer sets, where it sets one.
pub open spec fn color_number_set(p: AnsiParserView) -> AnsiParserView {
    if p.parsed_numbers.len() > 0 { AnsiParserView { current_sixel_color: p.parsed_numbers[0], ..p } } else { p }
}

/// The parser with an RGB color definition (`# n ; 2 ; r ; g ; b`, each
/// channel in percent) written into the sixel palette.
pub open spec fn rgb_defined(p: AnsiParserView) -> AnsiParserView {
    let nums = p.parsed_numbers;
    AnsiParserView {
        sixel_palette: palette_with(
            p.sixel_palette,
            (p.current_sixel_color as usize) as int,
            Color {
                r: ((nums[2] * 255) / 100) as u8,
                g: ((nums[3] * 255) / 100) as u8,
                b: ((nums[4] * 255) / 100) as u8,
            },
        ),
        ..p
    }
}

/// The parser, picture and error after a character in the sixel state `s`.
pub open spec fn sixel_step(s: SixelState, p: AnsiParserView, sx: SixelView, ch: char) -> (AnsiParserView, SixelView, Option<ParserError>) {
    let nums = p.parsed_numbers;
    let broken = SixelView { read_status: SixelReadStatus::Error, ..sx };
    match s {
        SixelState::EndSequence => {
            let done = SixelView { read_status: SixelReadStatus::Finished, ..sx };
            if ch == '\\' {
                (AnsiParserView { state: AnsiState::Default, ..p }, done, None)
            } else {
                (p, done, Some(ParserError::UnexpectedSixelEnd(ch)))
            }
        },
        SixelState::ReadColor => if is_digit(ch) || ch == ';' {
            (AnsiParserView { parsed_numbers: read_param(nums, ch), ..p }, sx, None)
        } else {
            let p2 = color_number_set(p);
            if nums.len() > 1 && nums.len() != 5 {
                (AnsiParserView { state: AnsiState::Default, ..p2 }, sx, Some(ParserError::InvalidColorInSixelSequence))
            } else if nums.len() > 1 && nums[1] != 1 && nums[1] != 2 {
                (p2, broken, Some(ParserError::UnsupportedSixelColorformat(nums[1])))
            } else if nums.len() > 1 && nums[1] == 2 {
                sixel_data(rgb_defined(p2), sx, ch)
            } else {
                sixel_data(p2, sx, ch)
            }
        },
        SixelState::ReadSize => if is_digit(ch) || ch == ';' {
            (AnsiParserView { parsed_numbers: read_param(nums, ch), ..p }, sx, None)
        } else if nums.len() != 4 {
            (AnsiParserView { state: AnsiState::ReadSixel(SixelState::Read), ..p }, broken, Some(ParserError::InvalidPictureSize))
        } else {
            sixel_data(p, picture_sized(sx, nums[2] as int, nums[3] as int), ch)
        },
        SixelState::Repeat => if is_digit(ch) {
            (AnsiParserView { parsed_numbers: read_param(nums, ch), ..p }, sx, None)
        } else if nums.len() == 0 {
            (AnsiParserView { state: AnsiState::Default, ..p }, broken, Some(ParserError::NumberMissingInSixelRepeat))
        } else if nums[0] <= 0 {
            (AnsiParserView { state: AnsiState::ReadSixel(SixelState::Read), ..p }, sx, None)
        } else if '?' > ch {
            (p, broken, Some(ParserError::InvalidSixelChar(ch)))
        } else {
            let (p2, sx2) = draws(p, sx, ch, nums[0] as nat);
            (AnsiParserView { state: AnsiState::ReadSixel(SixelState::Read), ..p2 }, sx2, None)
        },
        SixelState::Read => sixel_data(p, sx, ch),
    }
}

/// Drawing `n` sixels of `ch` stays within the machine: the sixel palette
/// has a color, the character gives a sixel, the cursor is within range and
/// the picture's count does not overflow.
pub open spec fn draw_ok(p: AnsiParserView, sx: SixelView, ch: char, n: int) -> bool {
    n <= 0 || '?' > ch || {
        &&& p.sixel_palette.len() > 0
        &&& ((ch as u32) as u8) >= 63
        &&& p.sixel_cursor.x >= 0
        &&& p.sixel_cursor.y >= 0
        &&& p.sixel_cursor.y * 6 + 6 <= usize::MAX
        &&& sx.len + n < usize::MAX
    }
}

/// A character of picture data can be read: a control character of the
/// picture, or a sixel that can be drawn.
pub open spec fn data_ok(p: AnsiParserView, sx: SixelView, ch: char) -> bool {
    ch == '\x1b' || ch == '#' || ch == '!' || ch == '-' || ch == '$' || ch == '"' || draw_ok(p, sx, ch, 1)
}

/// A character in the sixel state `s` can be read: an RGB color definition
/// has its channels within the range of the arithmetic and a color number of
/// at least 0; an HLS color definition is not read (its conversion works on
/// floating point numbers); what follows must be drawable.
pub open spec fn sixel_ok(s: SixelState, p: AnsiParserView, sx: SixelView, ch: char) -> bool {
    let nums = p.parsed_numbers;
    match s {
        SixelState::EndSequence => true,
        SixelState::ReadColor => is_digit(ch) || ch == ';' || (nums.len() > 1 && nums.len() != 5) || (nums.len() > 1
            && nums[1] != 1 && nums[1] != 2) || {
            let p2 = color_number_set(p);
            if nums.len() > 1 && nums[1] == 1 {
                false
            } else if nums.len() > 1 && nums[1] == 2 {
                &&& p2.current_sixel_color >= 0
                &&& 0 <= nums[2] <= 8421504
                &&& 0 <= nums[3] <= 8421504
                &&& 0 <= nums[4] <= 8421504
                &&& data_ok(rgb_defined(p2), sx, ch)
            } else {
                data_ok(p2, sx, ch)
            }
        },
        SixelState::ReadSize => is_digit(ch) || ch == ';' || nums.len() != 4 || data_ok(
            p,
            picture_sized(sx, nums[2] as int, nums[3] as int),
            ch,
        ),
        SixelState::Repeat => is_digit(ch) || nums.len() == 0 || draw_ok(p, sx, ch, nums[0] as int),
        SixelState::Read => data_ok(p, sx, ch),
    }
}

/// A character can be read without leaving the machine's range: inside a
/// device control string the caret's background must be a palette color
/// where it becomes the picture's, and a refused character needs the current
/// picture; in a sixel picture the current picture must exist and the
/// character be readable (`sixel_ok`).
pub open spec fn ansi_char_ok(p: AnsiParserView, b: Buffer, c: Caret, ch: char) -> bool {
    let nums = p.parsed_numbers;
    match p.state {
        AnsiState::GotDCS => {
            &&& (ch == 'q' && nums.len() > 0 && nums[0] == 1) ==> c.attribute.background_color < b.palette.colors@.len()
            &&& !(ch == 'q' || is_digit(ch) || ch == ';') ==> p.current_sixel < b.layers@[0].sixels@.len()
        },
        AnsiState::ReadSixel(s) => {
            &&& p.current_sixel < b.layers@[0].sixels@.len()
            &&& sixel_ok(s, p, current_sixel_of(p, b), ch)
        },
        _ => true,
    }
}

/// Each character of `chars` can be read in turn (`ansi_char_ok`), as far
/// as the reading goes without an error.
pub open spec fn ansi_seq_ok(p: AnsiParserView, b: Buffer, c: Caret, chars: Seq<char>) -> bool
    decreases chars.len(),
{
    chars.len() == 0 || {
        &&& ansi_char_ok(p, b, c, chars[0])
        &&& forall|p1: AnsiParserView, b1: Buffer, c1: Caret, r: Result<Option<String>, ParserError>|
            #[trigger] ansi_step(p, b, c, chars[0], p1, b1, c1, r) && r is Ok ==> ansi_seq_ok(p1, b1, c1, chars.drop_first())
    }
}

/// The number of fonts that `CSI 0 ; n SPACE D` can name.
pub const ANSI_FONT_COUNT: i32 = 43;

/// The name of the font that `CSI 0 ; n SPACE D` selects, for `n` below
/// `ANSI_FONT_COUNT`.
pub open spec fn ansi_font_name(nr: i32) -> Seq<char> {
    match nr {
        0 => "IBM VGA"@,
        1 => "IBM VGA 855"@,
        2 => "IBM VGA 866"@,
        3 => "IBM VGA 850"@,
        4 => "IBM VGA 775"@,
        5 => "IBM VGA 866"@,
        6 => "IBM VGA 857"@,
        7 => "IBM VGA"@,
        8 => "IBM VGA 862"@,
        9 => "IBM VGA"@,
        10 => "IBM VGA"@,
        11 => "IBM VGA"@,
        12 => "IBM VGA"@,
        13 => "IBM VGA"@,
        14 => "IBM VGA"@,
        15 => "IBM VGA"@,
        16 => "IBM VGA"@,
        17 => "IBM VGA 850"@,
        18 => "IBM VGA 850"@,
        19 => "IBM VGA"@,
        20 => "IBM VGA"@,
        21 => "IBM VGA"@,
        22 => "IBM VGA"@,
        23 => "IBM VGA"@,
        24 => "IBM VGA"@,
        25 => "IBM VGA 866"@,
        26 => "IBM VGA"@,
        27 => "IBM VGA"@,
        28 => "IBM VGA"@,
        29 => "IBM VGA"@,
        30 => "IBM VGA"@,
        31 => "IBM VGA"@,
        32 => "C64 PETSCII shifted"@,
        33 => "C64 PETSCII unshifted"@,
        34 => "C64 PETSCII shifted"@,
        35 => "C64 PETSCII unshifted"@,
        36 => "Atari ATASCII"@,
        37 => "Amiga P0T-NOoDLE"@,
        38 => "Amiga mOsOul"@,
        39 => "Amiga MicroKnight+"@,
        40 => "Amiga Topaz 1+"@,
        41 => "Amiga MicroKnight"@,
        42 => "Amiga Topaz 1"@,
        _ => Seq::empty(),
    }
}

/// The font page `k` of the buffer holds a font named `name`.
pub open spec fn font_page_named(b: Buffer, name: Seq<char>, k: usize) -> bool {
    b.font_table@.contains_key(k) && b.font_table@[k].name@ == name
}

/// What a character does after `CSI ... SPACE`: `D` with two parameters
/// selects the font that its second parameter names, by that font's name:
/// the lowest font page of the buffer that holds a font of the name becomes
/// the parser's page. A number past the table, and a font that the buffer
/// does not hold (the library carries no font data to add it from), are
/// refused; anything else after `SPACE` is refused as a sequence.
pub open spec fn font_step(p0: AnsiParserView, b0: Buffer, ch: char, p1: AnsiParserView, res: Result<Option<String>, ParserError>) -> bool {
    let d = AnsiParserView { state: AnsiState::Default, ..p0 };
    let nums = p0.parsed_numbers;
    if ch == 'D' && nums.len() == 2 {
        let nr = nums[1];
        let name = ansi_font_name(nr);
        if 0 <= nr < ANSI_FONT_COUNT && exists|k: usize| font_page_named(b0, name, k) {
            &&& p1 == AnsiParserView { current_font_page: p1.current_font_page, ..d }
            &&& font_page_named(b0, name, p1.current_font_page)
            &&& forall|k: usize| font_page_named(b0, name, k) ==> p1.current_font_page <= k
            &&& res == Ok::<Option<String>, ParserError>(None)
        } else {
            p1 == d && res == Err::<Option<String>, ParserError>(ParserError::UnsupportedFont(nr))
        }
    } else {
        let seq = p0.current_sequence.push(ch);
        p1 == AnsiParserView { current_sequence: seq, ..d } && is_unsupported_sequence(res, seq)
    }
}


/// Resets the private mode `n`; false where `n` names none that can be
/// reset.
fn reset_private_mode(n: i32, ts: &mut TerminalState, caret: &mut Caret) -> (ok: bool)
    ensures
        match private_mode_reset(n, *old(ts), *old(caret)) {
            Some((t, c)) => ok && *final(ts) == t && *final(caret) == c,
            None => !ok && *final(ts) == *old(ts) && *final(caret) == *old(caret),
        },
{
    if n == 4 {
        ts.scroll_state = TerminalScrolling::Fast;
    } else if n == 6 {
    } else if n == 7 {
        ts.auto_wrap_mode = AutoWrapMode::NoWrap;
    } else if n == 25 {
        caret.is_visible = false;
    } else if n == 33 {
        ts.set_use_ice_colors(false);
    } else {
        return false;
    }
    true
}

fn mouse_mode_exec(n: i32) -> (res: Option<MouseMode>)
    ensures
        res == mouse_mode_of(n),
{
    if n == 9 { Some(MouseMode::X10) }
    else if n == 1000 { Some(MouseMode::Default) }
    else if n == 1001 { Some(MouseMode::Highlight) }
    else if n == 1002 { Some(MouseMode::ButtonEvents) }
    else if n == 1003 { Some(MouseMode::AnyEvents) }
    else if n == 1004 { Some(MouseMode::FocusEvent) }
    else if n == 1007 { Some(MouseMode::AlternateScroll) }
    else if n == 1005 { Some(MouseMode::ExtendedMode) }
    else if n == 1006 { Some(MouseMode::SGRExtendedMode) }
    else if n == 1015 { Some(MouseMode::URXVTExtendedMode) }
    else if n == 1016 { Some(MouseMode::PixelPosition) }
    else { None }
}

/// Sets the private mode `n`; false where `n` names none that can be set.
fn set_private_mode(n: i32, ts: &mut TerminalState, caret: &mut Caret) -> (ok: bool)
    ensures
        match private_mode_set(n, *old(ts), *old(caret)) {
            Some((t, c)) => ok && *final(ts) == t && *final(caret) == c,
            None => !ok && *final(ts) == *old(ts) && *final(caret) == *old(caret),
        },
{
    if n == 4 {
        ts.scroll_state = TerminalScrolling::Smooth;
    } else if n == 6 {
        ts.origin_mode = OriginMode::UpperLeftCorner;
    } else if n == 7 {
        ts.auto_wrap_mode = AutoWrapMode::AutoWrap;
    } else if n == 25 {
        caret.is_visible = true;
    } else if n == 33 {
        ts.set_use_ice_colors(true);
    } else {
        match mouse_mode_exec(n) {
            Some(m) => {
                ts.mouse_mode = m;
            },
            None => {
                return false;
            },
        }
    }
    true
}


proof fn lemma_sixel_kept(b: Buffer, i: int)
    requires
        b.layers@.len() > 0,
        0 <= i < b.layers@[0].sixels@.len(),
    ensures
        sixel_replaced(b, b, i, b.layers@[0].sixels@[i]@),
{
    assert(b.layers@ =~= b.layers@.update(0, b.layers@[0]));
    assert(sixels_view(b.layers@[0].sixels@) =~= sixels_view(b.layers@[0].sixels@).update(i, b.layers@[0].sixels@[i]@));
}

proof fn lemma_sixel_at(b0: Buffer, b1: Buffer, i: int, v: SixelView)
    requires
        b0.layers@.len() > 0,
        0 <= i < b0.layers@[0].sixels@.len(),
        sixel_replaced(b0, b1, i, v),
    ensures
        b1.layers@.len() == b0.layers@.len(),
        b1.layers@[0].sixels@.len() == b0.layers@[0].sixels@.len(),
        b1.layers@[0].sixels@[i]@ == v,
{
    let s0 = b0.layers@[0].sixels@;
    let s1 = b1.layers@[0].sixels@;
    assert(sixels_view(s1).len() == s1.len());
    assert(sixels_view(s1)[i] == s1[i]@);
}

proof fn lemma_sixel_trans(b0: Buffer, b1: Buffer, b2: Buffer, i: int, v1: SixelView, v2: SixelView)
    requires
        b0.layers@.len() > 0,
        0 <= i < b0.layers@[0].sixels@.len(),
        sixel_replaced(b0, b1, i, v1),
        sixel_replaced(b1, b2, i, v2),
    ensures
        sixel_replaced(b0, b2, i, v2),
{
    lemma_sixel_at(b0, b1, i, v1);
    assert(b2.layers@ =~= b0.layers@.update(0, b2.layers@[0]));
    assert(sixels_view(b2.layers@[0].sixels@) =~= sixels_view(b0.layers@[0].sixels@).update(i, v2));
}

proof fn lemma_draws_keep(p: AnsiParserView, sx: SixelView, ch: char, n: nat)
    requires
        sx.len + n < usize::MAX,
        p.sixel_cursor.x >= 0,
    ensures
        ({
            let (pn, sn) = draws(p, sx, ch, n);
            &&& pn == AnsiParserView { sixel_cursor: pn.sixel_cursor, ..p }
            &&& pn.sixel_cursor.y == p.sixel_cursor.y
            &&& pn.sixel_cursor.x >= 0
            &&& sn.len == sx.len + n
        }),
    decreases n,
{
    if n > 0 {
        lemma_draws_keep(p, sx, ch, (n - 1) as nat);
    }
}

fn set_sixel_status(buf: &mut Buffer, i: usize, st: SixelReadStatus)
    requires
        old(buf).layers@.len() > 0,
        i < old(buf).layers@[0].sixels@.len(),
    ensures
        final(buf).layers@.len() == old(buf).layers@.len(),
        sixel_replaced(
            *old(buf),
            *final(buf),
            i as int,
            SixelView { read_status: st, ..old(buf).layers@[0].sixels@[i as int]@ },
        ),
{
    buf.layers[0].sixels[i].set_status(st);
    proof {
        assert(buf.layers@ =~= old(buf).layers@.update(0, buf.layers@[0]));
        assert(sixels_view(buf.layers@[0].sixels@) =~= sixels_view(old(buf).layers@[0].sixels@).update(
            i as int,
            SixelView { read_status: st, ..old(buf).layers@[0].sixels@[i as int]@ },
        ));
    }
}

fn draw_sixel(
    buf: &mut Buffer,
    i: usize,
    offset: usize,
    lo: usize,
    color: Option<Color>,
    mask: u8,
    status: SixelReadStatus,
)
    requires
        old(buf).layers@.len() > 0,
        i < old(buf).layers@[0].sixels@.len(),
        old(buf).layers@[0].sixels@[i as int].len < usize::MAX,
        lo + 6 <= usize::MAX,
        offset < usize::MAX,
    ensures
        final(buf).layers@.len() == old(buf).layers@.len(),
        sixel_replaced(
            *old(buf),
            *final(buf),
            i as int,
            pixel_drawn(old(buf).layers@[0].sixels@[i as int]@, offset as int, lo as int, color, mask, status),
        ),
{
    buf.layers[0].sixels[i].draw_pixel(offset, lo, color, mask, status);
    proof {
        assert(buf.layers@ =~= old(buf).layers@.update(0, buf.layers@[0]));
        assert(sixels_view(buf.layers@[0].sixels@) =~= sixels_view(old(buf).layers@[0].sixels@).update(
            i as int,
            pixel_drawn(old(buf).layers@[0].sixels@[i as int]@, offset as int, lo as int, color, mask, status),
        ));
    }
}

fn size_sixel(buf: &mut Buffer, i: usize, w: usize, h: usize)
    requires
        old(buf).layers@.len() > 0,
        i < old(buf).layers@[0].sixels@.len(),
    ensures
        final(buf).layers@.len() == old(buf).layers@.len(),
        sixel_replaced(
            *old(buf),
            *final(buf),
            i as int,
            picture_sized(old(buf).layers@[0].sixels@[i as int]@, w as int, h as int),
        ),
{
    buf.layers[0].sixels[i].size_picture(w, h);
    proof {
        assert(buf.layers@ =~= old(buf).layers@.update(0, buf.layers@[0]));
        assert(sixels_view(buf.layers@[0].sixels@) =~= sixels_view(old(buf).layers@[0].sixels@).update(
            i as int,
            picture_sized(old(buf).layers@[0].sixels@[i as int]@, w as int, h as int),
        ));
    }
}

fn push_sixel(buf: &mut Buffer, sixel: Sixel)
    requires
        old(buf).layers@.len() > 0,
    ensures
        final(buf).layers@.len() == old(buf).layers@.len(),
        sixel_pushed(*old(buf), *final(buf), sixel@),
{
    let ghost v = sixel@;
    buf.layers[0].sixels.push(sixel);
    proof {
        assert(buf.layers@ =~= old(buf).layers@.update(0, buf.layers@[0]));
        assert(sixels_view(buf.layers@[0].sixels@) =~= sixels_view(old(buf).layers@[0].sixels@).push(v));
    }
}

fn ansi_font_name_str(nr: i32) -> (res: &'static str)
    requires
        0 <= nr < ANSI_FONT_COUNT,
    ensures
        res@ == ansi_font_name(nr),
{
    match nr {
        0 => "IBM VGA",
        1 => "IBM VGA 855",
        2 => "IBM VGA 866",
        3 => "IBM VGA 850",
        4 => "IBM VGA 775",
        5 => "IBM VGA 866",
        6 => "IBM VGA 857",
        7 => "IBM VGA",
        8 => "IBM VGA 862",
        9 => "IBM VGA",
        10 => "IBM VGA",
        11 => "IBM VGA",
        12 => "IBM VGA",
        13 => "IBM VGA",
        14 => "IBM VGA",
        15 => "IBM VGA",
        16 => "IBM VGA",
        17 => "IBM VGA 850",
        18 => "IBM VGA 850",
        19 => "IBM VGA",
        20 => "IBM VGA",
        21 => "IBM VGA",
        22 => "IBM VGA",
        23 => "IBM VGA",
        24 => "IBM VGA",
        25 => "IBM VGA 866",
        26 => "IBM VGA",
        27 => "IBM VGA",
        28 => "IBM VGA",
        29 => "IBM VGA",
        30 => "IBM VGA",
        31 => "IBM VGA",
        32 => "C64 PETSCII shifted",
        33 => "C64 PETSCII unshifted",
        34 => "C64 PETSCII shifted",
        35 => "C64 PETSCII unshifted",
        36 => "Atari ATASCII",
        37 => "Amiga P0T-NOoDLE",
        38 => "Amiga mOsOul",
        39 => "Amiga MicroKnight+",
        40 => "Amiga Topaz 1+",
        41 => "Amiga MicroKnight",
        42 => "Amiga Topaz 1",
        _ => "Amiga Topaz 1",
    }
}

impl AnsiParser {
    pub fn new() -> (res: Self)
        ensures
            res@ == initial_ansi_parser(),
    {
        let res = AnsiParser {
            state: AnsiState::Default,
            current_font_page: 0,
            saved_pos: Position { x: 0, y: 0 },
            saved_cursor_opt: None,
            parsed_numbers: Vec::new(),
            sixel_cursor: Position { x: 0, y: 0 },
            current_sixel_color: 0,
            current_sixel: 0,
            current_sixel_palette: Palette::new(),
            current_sequence: String::new(),
        };
        assert(res@ =~= initial_ansi_parser());
        res
    }

    /// Reads a digit or `;` into the parameter list.
    pub(crate) fn read_param(&mut self, ch: char)
        requires
            is_digit(ch) || ch == ';',
        ensures
            final(self)@ == (AnsiParserView { parsed_numbers: read_param(old(self)@.parsed_numbers, ch), ..old(self)@ }),
    {
        if ch == ';' {
            self.parsed_numbers.push(0);
        } else {
            let d: i64 = ch as i64 - '0' as i64;
            match self.parsed_numbers.pop() {
                Some(n) => {
                    let v = crate::buffer::sat(n as i64 * 10 + d);
                    self.parsed_numbers.push(v);
                },
                None => {
                    self.parsed_numbers.push(d as i32);
                },
            }
            assert(self.parsed_numbers@ =~= read_param(old(self).parsed_numbers@, ch));
        }
    }

    pub(crate) fn unsupported_sequence(&self) -> (res: ParserError)
        ensures
            res matches ParserError::UnsupportedEscapeSequence(s) && s@ == self.current_sequence@,
    {
        ParserError::UnsupportedEscapeSequence(self.current_sequence.clone())
    }

    fn print_in_default(&mut self, buf: &mut Buffer, caret: &mut Caret, ch: char)
        requires
            old(buf).layers@.len() > 0,
        ensures
            final(buf).layers@.len() == old(buf).layers@.len(),
            default_step(old(self)@, *old(buf), *old(caret), ch, final(self)@, *final(buf), *final(caret)),
    {
        if ch == '\x1b' {
            self.current_sequence = String::new();
            push_char(&mut self.current_sequence, '<');
            push_char(&mut self.current_sequence, 'E');
            push_char(&mut self.current_sequence, 'S');
            push_char(&mut self.current_sequence, 'C');
            push_char(&mut self.current_sequence, '>');
            self.state = AnsiState::GotEscape;
            assert(self@.current_sequence =~= seq!['<', 'E', 'S', 'C', '>']);
        } else if ch == '\0' || ch == '\u{ff}' {
            caret.attribute = crate::text_attribute::TextAttribute::new_default();
        } else if ch == '\n' {
            caret.lf(buf);
        } else if ch == '\x0c' {
            caret.ff(buf);
        } else if ch == '\r' {
            caret.cr(buf);
        } else if ch == '\x08' {
            caret.bs(buf);
        } else if ch == '\x7f' {
            caret.del(buf);
        } else {
            let c = AttributedChar { ch, attribute: caret.attribute, font_page: self.current_font_page };
            buf.print_char(caret, c);
        }
    }

    fn start_sequence(&mut self, buf: &mut Buffer, caret: &mut Caret, ch: char) -> (res: Result<Option<String>, ParserError>)
        requires
            old(buf).layers@.len() > 0,
        ensures
            final(buf).layers@.len() == old(buf).layers@.len(),
            escape_step(old(self)@, *old(buf), *old(caret), ch, final(self)@, *final(buf), *final(caret), res),
    {
        self.state = AnsiState::Default;
        if ch == '[' {
            push_char(&mut self.current_sequence, '[');
            self.state = AnsiState::ReadSequence;
            self.parsed_numbers = Vec::new();
            assert(self.parsed_numbers@ =~= Seq::<i32>::empty());
            Ok(None)
        } else if ch == '7' {
            self.saved_cursor_opt = Some(*caret);
            Ok(None)
        } else if ch == '8' {
            if let Some(saved) = self.saved_cursor_opt {
                *caret = saved;
            }
            Ok(None)
        } else if ch == 'c' {
            caret.ff(buf);
            Ok(None)
        } else if ch == 'D' {
            caret.index(buf);
            Ok(None)
        } else if ch == 'M' {
            caret.reverse_index(buf);
            Ok(None)
        } else if ch == 'E' {
            caret.next_line(buf);
            Ok(None)
        } else if ch == 'P' {
            self.state = AnsiState::GotDCS;
            Ok(None)
        } else {
            Err(self.unsupported_sequence())
        }
    }

    fn read_custom_command(&mut self, buf: &mut Buffer, caret: &mut Caret, ch: char) -> (res: Result<Option<String>, ParserError>)
        ensures
            final(buf).layers@ == old(buf).layers@,
            custom_step(old(self)@, *old(buf), *old(caret), ch, final(self)@, *final(buf), *final(caret), res),
    {
        if ch == 'p' {
            self.state = AnsiState::Default;
            buf.terminal_state.reset();
            return Ok(None);
        }
        if ch == 'l' || ch == 'h' {
            self.state = AnsiState::Default;
            if self.parsed_numbers.len() != 1 {
                return Err(self.unsupported_sequence());
            }
            let n = self.parsed_numbers[0];
            let ok = if ch == 'l' {
                reset_private_mode(n, &mut buf.terminal_state, caret)
            } else {
                set_private_mode(n, &mut buf.terminal_state, caret)
            };
            if !ok {
                if ch == 'l' {
                    return Err(self.unsupported_sequence());
                } else {
                    return Err(ParserError::UnsupportedCustomCommand(n));
                }
            }
            return Ok(None);
        }
        if '0' <= ch && ch <= '9' {
            self.read_param(ch);
            return Ok(None);
        }
        self.state = AnsiState::Default;
        Err(self.unsupported_sequence())
    }

    fn read_dcs(&mut self, buf: &mut Buffer, caret: &Caret, ch: char) -> (res: Result<Option<String>, ParserError>)
        requires
            old(buf).layers@.len() > 0,
            old(self).state == AnsiState::GotDCS,
            ansi_char_ok(old(self)@, *old(buf), *caret, ch),
        ensures
            final(buf).layers@.len() == old(buf).layers@.len(),
            dcs_step(old(self)@, *old(buf), *caret, ch, final(self)@, *final(buf), res),
    {
        if ch == 'q' {
            let aspect: i32 = if self.parsed_numbers.len() == 0 {
                2
            } else {
                let n = self.parsed_numbers[0];
                if n == 0 || n == 1 {
                    5
                } else if n == 2 {
                    3
                } else if n == 7 || n == 8 || n == 9 {
                    1
                } else {
                    2
                }
            };
            let mut sixel = Sixel::new(caret.pos, aspect);
            if self.parsed_numbers.len() > 0 && self.parsed_numbers[0] == 1 {
                sixel.background_color = Some(buf.palette.colors[caret.attribute.background_color as usize]);
            }
            self.current_sixel = buf.layers[0].sixels.len();
            push_sixel(buf, sixel);
            self.sixel_cursor = Position { x: 0, y: 0 };
            self.current_sixel_palette.clear();
            self.state = AnsiState::ReadSixel(SixelState::Read);
            Ok(None)
        } else if ('0' <= ch && ch <= '9') || ch == ';' {
            self.read_param(ch);
            Ok(None)
        } else {
            self.state = AnsiState::Default;
            push_char(&mut self.current_sequence, ch);
            set_sixel_status(buf, self.current_sixel, SixelReadStatus::Error);
            Err(self.unsupported_sequence())
        }
    }

    /// Draws one sixel; see `sixel_pixel`, without its end of the picture.
    fn parse_sixel(&mut self, buf: &mut Buffer, ch: char) -> (res: Result<(), ParserError>)
        requires
            old(buf).layers@.len() > 0,
            old(self).current_sixel < old(buf).layers@[0].sixels@.len(),
            draw_ok(old(self)@, current_sixel_of(old(self)@, *old(buf)), ch, 1),
        ensures
            final(buf).layers@.len() == old(buf).layers@.len(),
            ({
                let sx = current_sixel_of(old(self)@, *old(buf));
                let (p2, sx2) = draw_one(old(self)@, sx, ch);
                &&& '?' > ch ==> final(self)@ == old(self)@ && sixel_replaced(
                    *old(buf),
                    *final(buf),
                    old(self).current_sixel as int,
                    SixelView { read_status: SixelReadStatus::Error, ..sx },
                ) && res == Err::<(), ParserError>(ParserError::InvalidSixelChar(ch))
                &&& ch >= '?' ==> final(self)@ == p2 && sixel_replaced(
                    *old(buf),
                    *final(buf),
                    old(self).current_sixel as int,
                    sx2,
                ) && res == Ok::<(), ParserError>(())
            }),
    {
        if '?' > ch {
            set_sixel_status(buf, self.current_sixel, SixelReadStatus::Error);
            return Err(ParserError::InvalidSixelChar(ch));
        }
        let mask: u8 = ((ch as u32) as u8) - 63;
        let n = self.current_sixel_palette.colors.len();
        let color = self.current_sixel_palette.colors[(self.current_sixel_color as usize) % n];
        let x = self.sixel_cursor.x;
        let y = self.sixel_cursor.y;
        let x2 = crate::buffer::sat(x as i64 + 1);
        draw_sixel(buf, self.current_sixel, x as usize, (y as usize) * 6, Some(color), mask, SixelReadStatus::Position(x2, y));
        self.sixel_cursor.x = x2;
        Ok(())
    }

    fn read_sixel_data(&mut self, buf: &mut Buffer, ch: char) -> (res: Result<(), ParserError>)
        requires
            old(buf).layers@.len() > 0,
            old(self).current_sixel < old(buf).layers@[0].sixels@.len(),
            data_ok(old(self)@, current_sixel_of(old(self)@, *old(buf)), ch),
        ensures
            final(buf).layers@.len() == old(buf).layers@.len(),
            ({
                let (p, sx, e) = sixel_data(old(self)@, current_sixel_of(old(self)@, *old(buf)), ch);
                &&& final(self)@ == p
                &&& sixel_replaced(*old(buf), *final(buf), old(self).current_sixel as int, sx)
                &&& res == match e { Some(err) => Err::<(), ParserError>(err), None => Ok(()) }
            }),
    {
        proof {
            lemma_sixel_kept(*buf, self.current_sixel as int);
        }
        if ch == '\x1b' {
            self.state = AnsiState::ReadSixel(SixelState::EndSequence);
        } else if ch == '#' {
            self.parsed_numbers = Vec::new();
            self.state = AnsiState::ReadSixel(SixelState::ReadColor);
            assert(self.parsed_numbers@ =~= Seq::<i32>::empty());
        } else if ch == '!' {
            self.parsed_numbers = Vec::new();
            self.state = AnsiState::ReadSixel(SixelState::Repeat);
            assert(self.parsed_numbers@ =~= Seq::<i32>::empty());
        } else if ch == '-' {
            self.sixel_cursor.x = 0;
            self.sixel_cursor.y = crate::buffer::sat(self.sixel_cursor.y as i64 + 1);
        } else if ch == '$' {
            self.sixel_cursor.x = 0;
        } else if ch == '"' {
            self.parsed_numbers = Vec::new();
            self.state = AnsiState::ReadSixel(SixelState::ReadSize);
            assert(self.parsed_numbers@ =~= Seq::<i32>::empty());
        } else {
            if ch > '\x7f' {
                self.state = AnsiState::Default;
            }
            return self.parse_sixel(buf, ch);
        }
        Ok(())
    }

    fn read_sixel(&mut self, s: SixelState, buf: &mut Buffer, ch: char) -> (res: Result<Option<String>, ParserError>)
        requires
            old(buf).layers@.len() > 0,
            old(self).state == AnsiState::ReadSixel(s),
            old(self).current_sixel < old(buf).layers@[0].sixels@.len(),
            sixel_ok(s, old(self)@, current_sixel_of(old(self)@, *old(buf)), ch),
        ensures
            final(buf).layers@.len() == old(buf).layers@.len(),
            ({
                let (p, sx, e) = sixel_step(s, old(self)@, current_sixel_of(old(self)@, *old(buf)), ch);
                &&& final(self)@ == p
                &&& sixel_replaced(*old(buf), *final(buf), old(self).current_sixel as int, sx)
                &&& res == match e { Some(err) => Err::<Option<String>, ParserError>(err), None => Ok(None) }
            }),
    {
        let ghost sx = current_sixel_of(self@, *buf);
        proof {
            lemma_sixel_kept(*buf, self.current_sixel as int);
        }
        match s {
            SixelState::EndSequence => {
                set_sixel_status(buf, self.current_sixel, SixelReadStatus::Finished);
                if ch == '\\' {
                    self.state = AnsiState::Default;
                    Ok(None)
                } else {
                    Err(ParserError::UnexpectedSixelEnd(ch))
                }
            },
            SixelState::ReadColor => {
                if ('0' <= ch && ch <= '9') || ch == ';' {
                    self.read_param(ch);
                    return Ok(None);
                }
                if self.parsed_numbers.len() > 0 {
                    self.current_sixel_color = self.parsed_numbers[0];
                }
                if self.parsed_numbers.len() > 1 {
                    if self.parsed_numbers.len() != 5 {
                        self.state = AnsiState::Default;
                        return Err(ParserError::InvalidColorInSixelSequence);
                    }
                    let format = self.parsed_numbers[1];
                    if format == 2 {
                        let r = ((self.parsed_numbers[2] * 255) / 100) as u8;
                        let g = ((self.parsed_numbers[3] * 255) / 100) as u8;
                        let b = ((self.parsed_numbers[4] * 255) / 100) as u8;
                        let ghost before = self@;
                        self.current_sixel_palette.set_color_rgb(self.current_sixel_color as usize, r, g, b);
                        assert(self.current_sixel_palette.colors@ =~= rgb_defined(before).sixel_palette);
                        assert(self@ == rgb_defined(before));
                    } else if format != 1 {
                        set_sixel_status(buf, self.current_sixel, SixelReadStatus::Error);
                        return Err(ParserError::UnsupportedSixelColorformat(format));
                    }
                }
                match self.read_sixel_data(buf, ch) {
                    Ok(()) => Ok(None),
                    Err(e) => Err(e),
                }
            },
            SixelState::ReadSize => {
                if ('0' <= ch && ch <= '9') || ch == ';' {
                    self.read_param(ch);
                    return Ok(None);
                }
                if self.parsed_numbers.len() != 4 {
                    self.state = AnsiState::ReadSixel(SixelState::Read);
                    set_sixel_status(buf, self.current_sixel, SixelReadStatus::Error);
                    return Err(ParserError::InvalidPictureSize);
                }
                let w = self.parsed_numbers[2];
                let h = self.parsed_numbers[3];
                let wu: usize = if w < 0 { 0 } else { w as usize };
                let hu: usize = if h < 0 { 0 } else { h as usize };
                size_sixel(buf, self.current_sixel, wu, hu);
                let ghost sx2 = picture_sized(sx, w as int, h as int);
                proof {
                    assert(crate::sixel::picture_grown(sx.picture, wu as int) == crate::sixel::picture_grown(sx.picture, w as int));
                    assert forall|c: Seq<Option<Color>>| #[trigger] crate::sixel::column_grown(c, hu as int) == crate::sixel::column_grown(c, h as int) by {}
                    assert(picture_sized(sx, wu as int, hu as int).picture =~= sx2.picture);
                    assert(picture_sized(sx, wu as int, hu as int) == sx2);
                    lemma_sixel_at(*old(buf), *buf, self.current_sixel as int, sx2);
                }
                let ghost b2 = *buf;
                let r = self.read_sixel_data(buf, ch);
                proof {
                    let (pp, sx3, e) = sixel_data(self@, sx2, ch);
                    lemma_sixel_trans(*old(buf), b2, *buf, self.current_sixel as int, sx2, sixel_data(old(self)@, sx2, ch).1);
                }
                match r {
                    Ok(()) => Ok(None),
                    Err(e) => Err(e),
                }
            },
            SixelState::Repeat => {
                if '0' <= ch && ch <= '9' {
                    self.read_param(ch);
                    return Ok(None);
                }
                if self.parsed_numbers.len() == 0 {
                    self.state = AnsiState::Default;
                    set_sixel_status(buf, self.current_sixel, SixelReadStatus::Error);
                    return Err(ParserError::NumberMissingInSixelRepeat);
                }
                let count = self.parsed_numbers[0];
                if count <= 0 {
                    self.state = AnsiState::ReadSixel(SixelState::Read);
                    return Ok(None);
                }
                if '?' > ch {
                    set_sixel_status(buf, self.current_sixel, SixelReadStatus::Error);
                    return Err(ParserError::InvalidSixelChar(ch));
                }
                let ghost p0 = self@;
                let ghost b0 = *buf;
                let mut k: i32 = 0;
                while k < count
                    invariant
                        0 <= k <= count,
                        count == p0.parsed_numbers[0],
                        ch >= '?',
                        buf.layers@.len() == b0.layers@.len(),
                        b0.layers@.len() > 0,
                        p0.current_sixel < b0.layers@[0].sixels@.len(),
                        draw_ok(p0, sx, ch, count as int),
                        sx == current_sixel_of(p0, b0),
                        ({
                            let (pk, sk) = draws(p0, sx, ch, k as nat);
                            &&& self@ == pk
                            &&& sixel_replaced(b0, *buf, p0.current_sixel as int, sk)
                        }),
                    decreases count - k,
                {
                    let ghost bk = *buf;
                    let ghost pk = draws(p0, sx, ch, k as nat).0;
                    let ghost sk = draws(p0, sx, ch, k as nat).1;
                    proof {
                        lemma_draws_keep(p0, sx, ch, k as nat);
                        lemma_sixel_at(b0, bk, p0.current_sixel as int, sk);
                    }
                    let r = self.parse_sixel(buf, ch);
                    proof {
                        lemma_sixel_trans(b0, bk, *buf, p0.current_sixel as int, sk, draw_one(pk, sk, ch).1);
                    }
                    k += 1;
                }
                self.state = AnsiState::ReadSixel(SixelState::Read);
                Ok(None)
            },
            SixelState::Read => {
                match self.read_sixel_data(buf, ch) {
                    Ok(()) => Ok(None),
                    Err(e) => Err(e),
                }
            },
        }
    }

    fn select_font(&mut self, buf: &Buffer, ch: char) -> (res: Result<Option<String>, ParserError>)
        ensures
            font_step(old(self)@, *buf, ch, final(self)@, res),
    {
        self.state = AnsiState::Default;
        if ch == 'D' && self.parsed_numbers.len() == 2 {
            let nr = self.parsed_numbers[1];
            if nr < 0 || nr >= ANSI_FONT_COUNT {
                return Err(ParserError::UnsupportedFont(nr));
            }
            let name = ansi_font_name_str(nr);
            match buf.first_font_page_named(name) {
                Some(page) => {
                    self.current_font_page = page;
                    Ok(None)
                },
                None => Err(ParserError::UnsupportedFont(nr)),
            }
        } else {
            push_char(&mut self.current_sequence, ch);
            Err(self.unsupported_sequence())
        }
    }

    /// Reads one character of terminal output: prints it, or acts on the
    /// escape sequence it belongs to; gives back what the terminal answers,
    /// if anything. See `ansi_step`.
    pub fn print_char(&mut self, buf: &mut Buffer, caret: &mut Caret, ch: char) -> (res: Result<Option<String>, ParserError>)
        requires
            old(buf).layers@.len() > 0,
            ansi_char_ok(old(self)@, *old(buf), *old(caret), ch),
        ensures
            final(buf).layers@.len() == old(buf).layers@.len(),
            ansi_step(old(self)@, *old(buf), *old(caret), ch, final(self)@, *final(buf), *final(caret), res),
    {
        match self.state {
            AnsiState::Default => {
                self.print_in_default(buf, caret, ch);
                Ok(None)
            },
            AnsiState::GotEscape => self.start_sequence(buf, caret, ch),
            AnsiState::ReadSequence => self.read_sequence(buf, caret, ch),
            AnsiState::ReadCustomCommand => self.read_custom_command(buf, caret, ch),
            AnsiState::StartFontSelector => self.select_font(buf, ch),
            AnsiState::GotDCS => self.read_dcs(buf, caret, ch),
            AnsiState::ReadSixel(s) => self.read_sixel(s, buf, ch),
        }
    }
}

} // verus!

use vstd::prelude::*;

use crate::ansi_csi::{color_offset, color_offset_exec};
use crate::attributed_char::AttributedChar;
use crate::buffer::{buffer_char, Buffer};
use crate::geometry::{rect_in_range, Position, Rectangle};
use crate::buffer_type::IceMode;
use crate::formats::{SaveOptions, ScreenPreperation};
use crate::palette::{dos_default_color, dos_default_color_exec, Color};
use crate::text_attribute::TextAttribute;

verus! {

/// The rendition that an ANSI stream has set so far: bold and blink, and the
/// foreground and background with their palette indices.
#[derive(Clone, Copy, Debug, PartialEq, Eq, Structural)]
pub struct AnsiState {
    pub is_bold: bool,
    pub is_blink: bool,
    pub fg_idx: u32,
    pub fg: Color,
    pub bg_idx: u32,
    pub bg: Color,
}

/// Light gray on black, neither bold nor blinking.
pub open spec fn initial_ansi_state() -> AnsiState {
    AnsiState {
        is_bold: false,
        is_blink: false,
        fg_idx: 7,
        fg: dos_default_color(7),
        bg_idx: 0,
        bg: dos_default_color(0),
    }
}

impl AnsiState {
    pub fn new() -> (res: Self)
        ensures
            res == initial_ansi_state(),
    {
        AnsiState {
            is_bold: false,
            is_blink: false,
            fg_idx: 7,
            fg: dos_default_color_exec(7),
            bg_idx: 0,
            bg: dos_default_color_exec(0),
        }
    }
}

/// The first index from `i` on of the DOS palette that holds the color.
pub open spec fn dos_index_from(c: Color, i: int) -> Option<int>
    decreases 16 - i,
{
    if i >= 16 {
        None
    } else if dos_default_color(i) == c {
        Some(i)
    } else {
        dos_index_from(c, i + 1)
    }
}

/// The index of the color in the DOS palette, if it is one of its colors.
pub open spec fn dos_index(c: Color) -> Option<int> {
    dos_index_from(c, 0)
}

/// Bold, and the basic color index, that show a foreground whose DOS index
/// is `fi`; a color outside the DOS palette keeps the bold flag.
pub open spec fn fore_choice(fi: Option<int>, was_bold: bool) -> (bool, Option<int>) {
    match fi {
        Some(i) => if i < 8 {
            (false, Some(i))
        } else {
            (true, Some(i - 8))
        },
        None => (was_bold, None),
    }
}

/// Blink, and the color index, that show a background whose DOS index is
/// `bi`: without ice colors blink follows the attribute and (where only
/// blinking is possible) a bright background has no index; with ice colors
/// a bright background is the basic index with blink.
pub open spec fn back_choice(ice: IceMode, bi: Option<int>, attr_blink: bool, was_blink: bool) -> (bool, Option<int>) {
    match ice {
        IceMode::Unlimited => (attr_blink, match bi {
            Some(i) => if i > 7 {
                None
            } else {
                Some(i)
            },
            None => None,
        }),
        IceMode::Blink => (attr_blink, bi),
        IceMode::Ice => match bi {
            Some(i) => if i < 8 {
                (attr_blink, Some(i))
            } else {
                (true, Some(i - 8))
            },
            None => (was_blink, None),
        },
    }
}

/// The state after the reset that the rendition needs, if any: a reset is
/// written where bold or blink must be switched off.
pub open spec fn reset_state(
    state: AnsiState,
    is_bold: bool,
    fi: Option<int>,
    is_blink: bool,
    bi: Option<int>,
) -> bool {
    (fi is Some && !is_bold && state.is_bold) || (bi is Some && !is_blink && state.is_blink)
}

/// What the attribute changes in the state, and the rendition parameters and
/// the true color sequences (`1` foreground, `0` background, then red, green
/// and blue) that switch to it.
pub open spec fn ansi_color(
    palette: Seq<Color>,
    ice: IceMode,
    attr: TextAttribute,
    state: AnsiState,
) -> (AnsiState, Seq<u8>, Seq<u8>) {
    let fg = attr.foreground_color;
    let bg = attr.background_color;
    let fore = palette[fg as int];
    let back = palette[bg as int];
    let (is_bold, fi) = fore_choice(dos_index(fore), state.is_bold);
    let (is_blink, bi) = back_choice(ice, dos_index(back), attr.blink, state.is_blink);
    let reset = reset_state(state, is_bold, fi, is_blink, bi);
    let s1 = if reset { initial_ansi_state() } else { state };
    let sgr1 = if reset { Seq::empty().push(0u8) } else { Seq::empty() };
    let bold_on = is_bold && !s1.is_bold;
    let fg_idx2 = (s1.fg_idx + 8) as u32;
    let s2 = if bold_on {
        AnsiState {
            is_bold: true,
            fg_idx: fg_idx2,
            fg: if fg_idx2 < 16 { dos_default_color(fg_idx2 as int) } else { s1.fg },
            ..s1
        }
    } else {
        s1
    };
    let sgr2 = if bold_on { sgr1.push(1u8) } else { sgr1 };
    let blink_on = is_blink && !s2.is_blink;
    let s3 = if blink_on { AnsiState { is_blink: true, ..s2 } } else { s2 };
    let sgr3 = if blink_on { sgr2.push(5u8) } else { sgr2 };
    let fore_change = fore != s3.fg;
    let sgr4 = if fore_change && fi is Some { sgr3.push((color_offset(fi->0) + 30) as u8) } else { sgr3 };
    let tc4 = if fore_change && fi is None {
        Seq::empty().push(1u8).push(fore.r).push(fore.g).push(fore.b)
    } else {
        Seq::empty()
    };
    let s4 = if fore_change { AnsiState { fg: fore, fg_idx: fg, ..s3 } } else { s3 };
    let back_change = back != s4.bg;
    let sgr5 = if back_change && bi is Some { sgr4.push((color_offset(bi->0) + 40) as u8) } else { sgr4 };
    let tc5 = if back_change && bi is None {
        tc4.push(0u8).push(back.r).push(back.g).push(back.b)
    } else {
        tc4
    };
    let s5 = if back_change { AnsiState { bg: back, bg_idx: bg, ..s4 } } else { s4 };
    (s5, sgr5, tc5)
}

/// The background index that `ansi_color` writes is one of the eight basic
/// colors: not so where only blinking is possible, the background is a
/// bright DOS color and it changes.
pub open spec fn ansi_color_defined(
    palette: Seq<Color>,
    ice: IceMode,
    attr: TextAttribute,
    state: AnsiState,
) -> bool {
    let back = palette[attr.background_color as int];
    let (is_bold, fi) = fore_choice(dos_index(palette[attr.foreground_color as int]), state.is_bold);
    let (is_blink, bi) = back_choice(ice, dos_index(back), attr.blink, state.is_blink);
    let reset = reset_state(state, is_bold, fi, is_blink, bi);
    let bg_before = if reset { dos_default_color(0) } else { state.bg };
    !(bi matches Some(i) && i >= 8 && back != bg_before)
}

fn find_dos_index(c: Color) -> (res: Option<usize>)
    ensures
        match dos_index(c) {
            Some(i) => res == Some(i as usize) && 0 <= i < 16,
            None => res is None,
        },
{
    let mut i: usize = 0;
    while i < 16
        invariant
            i <= 16,
            dos_index(c) == dos_index_from(c, i as int),
        decreases 16 - i,
    {
        if dos_default_color_exec(i) == c {
            return Some(i);
        }
        i += 1;
    }
    None
}

/// Writes a buffer as an ANSI stream: the bytes written so far, the options,
/// where the last line break stands and the longest line allowed.
pub struct StringGenerator {
    pub output: Vec<u8>,
    pub options: SaveOptions,
    pub last_line_break: usize,
    pub max_output_line_length: usize,
}

impl StringGenerator {
    /// The state after the attribute, with the rendition parameters and true
    /// color sequences that switch to it; see `ansi_color`.
    pub fn get_color(buf: &Buffer, attr: TextAttribute, state: AnsiState) -> (res: (AnsiState, Vec<u8>, Vec<u8>))
        requires
            attr.foreground_color < buf.palette.colors@.len(),
            attr.background_color < buf.palette.colors@.len(),
            state.fg_idx <= u32::MAX - 8,
            ansi_color_defined(buf.palette.colors@, buf.ice_mode, attr, state),
        ensures
            (res.0, res.1@, res.2@) == ansi_color(buf.palette.colors@, buf.ice_mode, attr, state),
    {
        let mut state = state;
        let mut sgr: Vec<u8> = Vec::new();
        let mut sgr_tc: Vec<u8> = Vec::new();

        let fg = attr.get_foreground();
        let cur_fore_color = buf.palette.colors[fg as usize];
        let bg = attr.get_background();
        let cur_back_color = buf.palette.colors[bg as usize];

        let mut fore_idx = find_dos_index(cur_fore_color);
        let mut back_idx = find_dos_index(cur_back_color);

        let mut is_bold = state.is_bold;
        let mut is_blink = state.is_blink;

        if let Some(idx) = fore_idx {
            if idx < 8 {
                is_bold = false;
            } else {
                is_bold = true;
                fore_idx = Some(idx - 8);
            }
        }

        match buf.ice_mode {
            IceMode::Unlimited => {
                is_blink = attr.blink;
                if let Some(idx) = back_idx {
                    if idx > 7 {
                        back_idx = None;
                    }
                }
            },
            IceMode::Blink => {
                is_blink = attr.blink;
            },
            IceMode::Ice => {
                if let Some(idx) = back_idx {
                    if idx < 8 {
                        is_blink = attr.blink;
                    } else {
                        is_blink = true;
                        back_idx = Some(idx - 8);
                    }
                }
            },
        }

        if fore_idx.is_some() && !is_bold && state.is_bold || back_idx.is_some() && !is_blink
            && state.is_blink {
            sgr.push(0);
            state = AnsiState::new();
        }

        if is_bold && !state.is_bold {
            sgr.push(1);
            state.fg_idx = state.fg_idx + 8;
            if state.fg_idx < 16 {
                state.fg = dos_default_color_exec(state.fg_idx as usize);
            }
            state.is_bold = true;
        }
        if is_blink && !state.is_blink {
            sgr.push(5);
            state.is_blink = true;
        }

        if cur_fore_color != state.fg {
            if let Some(fg_idx) = fore_idx {
                sgr.push((color_offset_exec(fg_idx as i32) + 30) as u8);
            } else {
                sgr_tc.push(1);
                sgr_tc.push(cur_fore_color.r);
                sgr_tc.push(cur_fore_color.g);
                sgr_tc.push(cur_fore_color.b);
            }
            state.fg = cur_fore_color;
            state.fg_idx = fg;
        }
        if cur_back_color != state.bg {
            if let Some(bg_idx) = back_idx {
                sgr.push((color_offset_exec(bg_idx as i32) + 40) as u8);
            } else {
                sgr_tc.push(0);
                sgr_tc.push(cur_back_color.r);
                sgr_tc.push(cur_back_color.g);
                sgr_tc.push(cur_back_color.b);
            }
            state.bg = cur_back_color;
            state.bg_idx = bg;
        }
        (state, sgr, sgr_tc)
    }
}

/// The bytes that start an ANSI file: a UTF-8 byte order mark where the
/// output is meant for a modern terminal.
pub open spec fn ansi_preamble(options: SaveOptions) -> Seq<u8> {
    if options.modern_terminal_output {
        Seq::empty().push(0xEFu8).push(0xBBu8).push(0xBFu8)
    } else {
        Seq::empty()
    }
}

/// The output and the position of its last line break after `result` is
/// written: where the line would grow longer than `max`, the cursor is saved,
/// a line break written and the cursor restored first.
pub open spec fn pushed_output(out: Seq<u8>, last: int, max: int, result: Seq<u8>) -> (Seq<u8>, int) {
    if out.len() + result.len() - last > max {
        let o1 = out + Seq::empty().push(0x1Bu8).push(0x5Bu8).push(0x73u8).push(13u8).push(10u8);
        (o1 + Seq::empty().push(0x1Bu8).push(0x5Bu8).push(0x75u8) + result, o1.len() as int)
    } else {
        (out + result, last)
    }
}

/// `ESC [ ? 3 3 h`, which switches ice colors on.
pub open spec fn ice_on_seq() -> Seq<u8> {
    Seq::empty().push(0x1Bu8).push(0x5Bu8).push(0x3Fu8).push(0x33u8).push(0x33u8).push(0x68u8)
}

/// `ESC [ ? 3 3 l`, which switches ice colors off.
pub open spec fn ice_off_seq() -> Seq<u8> {
    Seq::empty().push(0x1Bu8).push(0x5Bu8).push(0x3Fu8).push(0x33u8).push(0x33u8).push(0x6Cu8)
}

/// What prepares the screen: `ESC [ 2 J` clears it, `ESC [ 1 ; 1 H` moves
/// the cursor home.
pub open spec fn screen_prep_seq(p: ScreenPreperation) -> Seq<u8> {
    match p {
        ScreenPreperation::Unchanged => Seq::empty(),
        ScreenPreperation::ClearScreen => Seq::empty().push(0x1Bu8).push(0x5Bu8).push(0x32u8).push(0x4Au8),
        ScreenPreperation::Home => Seq::empty().push(0x1Bu8).push(0x5Bu8).push(0x31u8).push(0x3Bu8).push(
            0x31u8,
        ).push(0x48u8),
    }
}

impl StringGenerator {
    /// The generator's output and line break within the output.
    pub open spec fn wf(&self) -> bool {
        self.last_line_break <= self.output@.len()
    }

    pub fn new(options: SaveOptions) -> (res: Self)
        ensures
            res.output@ == ansi_preamble(options),
            res.options == options,
            res.last_line_break == 0,
            res.max_output_line_length == match options.output_line_length {
                Some(n) => n,
                None => usize::MAX,
            },
            res.wf(),
    {
        let max_output_line_length = match options.output_line_length {
            Some(n) => n,
            None => usize::MAX,
        };
        let mut output: Vec<u8> = Vec::new();
        if options.modern_terminal_output {
            output.push(0xEF);
            output.push(0xBB);
            output.push(0xBF);
        }
        proof {
            assert(output@ =~= ansi_preamble(options));
        }
        StringGenerator { output, options, last_line_break: 0, max_output_line_length }
    }

    pub fn get_data(&self) -> (res: &[u8])
        ensures
            res@ == self.output@,
    {
        self.output.as_slice()
    }

    /// Moves `result` to the output; see `pushed_output`.
    pub fn push_result(&mut self, result: &mut Vec<u8>)
        requires
            old(self).wf(),
            old(self).output@.len() + old(result)@.len() + 8 <= usize::MAX,
        ensures
            final(self).wf(),
            (final(self).output@, final(self).last_line_break as int) == pushed_output(
                old(self).output@,
                old(self).last_line_break as int,
                old(self).max_output_line_length as int,
                old(result)@,
            ),
            final(self).options == old(self).options,
            final(self).max_output_line_length == old(self).max_output_line_length,
            final(result)@ == Seq::<u8>::empty(),
    {
        let ghost out0 = self.output@;
        if self.output.len() + result.len() - self.last_line_break > self.max_output_line_length {
            self.output.push(0x1B);
            self.output.push(0x5B);
            self.output.push(0x73);
            self.output.push(13);
            self.output.push(10);
            self.last_line_break = self.output.len();
            self.output.push(0x1B);
            self.output.push(0x5B);
            self.output.push(0x75);
        }
        self.output.append(result);
        proof {
            let (o, l) = pushed_output(
                out0,
                old(self).last_line_break as int,
                self.max_output_line_length as int,
                old(result)@,
            );
            assert(self.output@ =~= o);
        }
    }

    fn push_bytes(&mut self, b: &[u8])
        requires
            old(self).wf(),
            old(self).output@.len() + b@.len() + 8 <= usize::MAX,
        ensures
            final(self).wf(),
            (final(self).output@, final(self).last_line_break as int) == pushed_output(
                old(self).output@,
                old(self).last_line_break as int,
                old(self).max_output_line_length as int,
                b@,
            ),
            final(self).options == old(self).options,
            final(self).max_output_line_length == old(self).max_output_line_length,
    {
        let mut v: Vec<u8> = Vec::new();
        let mut i: usize = 0;
        while i < b.len()
            invariant
                i <= b@.len(),
                v@ == b@.subrange(0, i as int),
            decreases b@.len() - i,
        {
            v.push(b[i]);
            i += 1;
            assert(v@ =~= b@.subrange(0, i as int));
        }
        assert(v@ =~= b@);
        self.push_result(&mut v);
    }

    /// Writes what switches ice colors on where the buffer uses them, then
    /// what the options ask to prepare the screen with.
    pub fn screen_prep(&mut self, buf: &Buffer)
        requires
            old(self).wf(),
            old(self).output@.len() + 32 <= usize::MAX,
        ensures
            final(self).wf(),
            final(self).options == old(self).options,
            final(self).max_output_line_length == old(self).max_output_line_length,
            ({
                let (o1, l1) = if buf.ice_mode == IceMode::Ice {
                    pushed_output(
                        old(self).output@,
                        old(self).last_line_break as int,
                        old(self).max_output_line_length as int,
                        ice_on_seq(),
                    )
                } else {
                    (old(self).output@, old(self).last_line_break as int)
                };
                let p = old(self).options.screen_preparation;
                (final(self).output@, final(self).last_line_break as int) == if p
                    == ScreenPreperation::Unchanged {
                    (o1, l1)
                } else {
                    pushed_output(o1, l1, old(self).max_output_line_length as int, screen_prep_seq(p))
                }
            }),
    {
        if buf.ice_mode == IceMode::Ice {
            let b: [u8; 6] = [0x1B, 0x5B, 0x3F, 0x33, 0x33, 0x68];
            assert(b@ =~= ice_on_seq());
            self.push_bytes(&b);
        }
        match self.options.screen_preparation {
            ScreenPreperation::Unchanged => {},
            ScreenPreperation::ClearScreen => {
                let b: [u8; 4] = [0x1B, 0x5B, 0x32, 0x4A];
                assert(b@ =~= screen_prep_seq(ScreenPreperation::ClearScreen));
                self.push_bytes(&b);
            },
            ScreenPreperation::Home => {
                let b: [u8; 6] = [0x1B, 0x5B, 0x31, 0x3B, 0x31, 0x48];
                assert(b@ =~= screen_prep_seq(ScreenPreperation::Home));
                self.push_bytes(&b);
            },
        }
    }

    /// Writes what switches ice colors off where the buffer uses them.
    pub fn screen_end(&mut self, buf: &Buffer)
        requires
            old(self).wf(),
            old(self).output@.len() + 32 <= usize::MAX,
        ensures
            final(self).wf(),
            final(self).options == old(self).options,
            final(self).max_output_line_length == old(self).max_output_line_length,
            (final(self).output@, final(self).last_line_break as int) == if buf.ice_mode
                == IceMode::Ice {
                pushed_output(
                    old(self).output@,
                    old(self).last_line_break as int,
                    old(self).max_output_line_length as int,
                    ice_off_seq(),
                )
            } else {
                (old(self).output@, old(self).last_line_break as int)
            },
    {
        if buf.ice_mode == IceMode::Ice {
            let b: [u8; 6] = [0x1B, 0x5B, 0x3F, 0x33, 0x33, 0x6C];
            assert(b@ =~= ice_off_seq());
            self.push_bytes(&b);
        }
    }
}

/// Law: once the rendition of an attribute has been written, the same
/// attribute writes nothing more and leaves the state as it is.
pub proof fn law_ansi_color_settles(palette: Seq<Color>, ice: IceMode, attr: TextAttribute, state: AnsiState)
    requires
        attr.foreground_color < palette.len(),
        attr.background_color < palette.len(),
    ensures
        ({
            let (s1, _, _) = ansi_color(palette, ice, attr, state);
            let (s2, sgr2, tc2) = ansi_color(palette, ice, attr, s1);
            s2 == s1 && sgr2 == Seq::<u8>::empty() && tc2 == Seq::<u8>::empty()
        }),
{
}

/// A cell of the ANSI output: its character, the rendition parameters and
/// true color sequences written before it, its font page and the rendition
/// after it.
pub struct CharCell {
    pub ch: char,
    pub sgr: Vec<u8>,
    pub sgr_tc: Vec<u8>,
    pub font_page: usize,
    pub cur_state: AnsiState,
}

pub struct CharCellView {
    pub ch: char,
    pub sgr: Seq<u8>,
    pub sgr_tc: Seq<u8>,
    pub font_page: usize,
    pub cur_state: AnsiState,
}

impl View for CharCell {
    type V = CharCellView;

    open spec fn view(&self) -> CharCellView {
        CharCellView {
            ch: self.ch,
            sgr: self.sgr@,
            sgr_tc: self.sgr_tc@,
            font_page: self.font_page,
            cur_state: self.cur_state,
        }
    }
}

pub open spec fn row_view(row: Vec<CharCell>) -> Seq<CharCellView> {
    row@.map_values(|c: CharCell| c@)
}

pub open spec fn rows_view(rows: Seq<Vec<CharCell>>) -> Seq<Seq<CharCellView>> {
    rows.map_values(|r: Vec<CharCell>| row_view(r))
}

/// `get_color` can be called with the attribute in the state.
pub open spec fn color_step_ok(palette: Seq<Color>, ice: IceMode, attr: TextAttribute, s: AnsiState) -> bool {
    &&& attr.foreground_color < palette.len()
    &&& attr.background_color < palette.len()
    &&& s.fg_idx <= u32::MAX - 8
    &&& ansi_color_defined(palette, ice, attr, s)
}

/// The `n` cells of row `y` from column `x0` on, the rendition carried from
/// one to the next starting with `s`, and the rendition after them; `None`
/// where the colors of one of them cannot be written.
pub open spec fn row_cells(b: Buffer, y: int, x0: int, n: nat, s: AnsiState) -> Option<(Seq<CharCellView>, AnsiState)>
    decreases n,
{
    if n == 0 {
        Some((Seq::empty(), s))
    } else {
        match row_cells(b, y, x0, (n - 1) as nat, s) {
            None => None,
            Some((cells, s1)) => {
                let ch = buffer_char(b, Position { x: (x0 + n - 1) as i32, y: y as i32 });
                if color_step_ok(b.palette.colors@, b.ice_mode, ch.attribute, s1) {
                    let (s2, sgr, tc) = ansi_color(b.palette.colors@, b.ice_mode, ch.attribute, s1);
                    Some(
                        (
                            cells.push(
                                CharCellView { ch: ch.ch, sgr, sgr_tc: tc, font_page: ch.font_page, cur_state: s2 },
                            ),
                            s2,
                        ),
                    )
                } else {
                    None
                }
            },
        }
    }
}

/// The first `k` rows of the area as cells, the rendition carried over the
/// whole area from the initial one.
pub open spec fn area_cells(b: Buffer, area: Rectangle, k: nat) -> Option<(Seq<Seq<CharCellView>>, AnsiState)>
    decreases k,
{
    if k == 0 {
        Some((Seq::empty(), initial_ansi_state()))
    } else {
        match area_cells(b, area, (k - 1) as nat) {
            None => None,
            Some((rows, s)) => match row_cells(b, area.start.y + k - 1, area.start.x as int, area.size.width as nat, s) {
                None => None,
                Some((row, s2)) => Some((rows.push(row), s2)),
            },
        }
    }
}

proof fn lemma_row_prefix(b: Buffer, y: int, x0: int, m: nat, n: nat, s: AnsiState)
    requires
        m <= n,
        row_cells(b, y, x0, n, s) is Some,
    ensures
        row_cells(b, y, x0, m, s) is Some,
    decreases n,
{
    if m < n {
        lemma_row_prefix(b, y, x0, m, (n - 1) as nat, s);
    }
}

proof fn lemma_area_prefix(b: Buffer, area: Rectangle, j: nat, k: nat)
    requires
        j <= k,
        area_cells(b, area, k) is Some,
    ensures
        area_cells(b, area, j) is Some,
    decreases k,
{
    if j < k {
        lemma_area_prefix(b, area, j, (k - 1) as nat);
    }
}

impl StringGenerator {
    /// The cells of the area, row by row, each with the rendition that
    /// switches to it from the cell before; see `area_cells`.
    pub fn generate_cells(buf: &Buffer, area: Rectangle) -> (res: Vec<Vec<CharCell>>)
        requires
            rect_in_range(area),
            area_cells(*buf, area, area.size.height as nat) is Some,
        ensures
            rows_view(res@) == (area_cells(*buf, area, area.size.height as nat)->0).0,
    {
        let mut result: Vec<Vec<CharCell>> = Vec::new();
        let mut state = AnsiState::new();
        let height = area.size.height;
        let width = area.size.width;
        let mut y: usize = 0;
        assert(rows_view(result@) =~= Seq::<Seq<CharCellView>>::empty());
        while y < height
            invariant
                y <= height == area.size.height,
                width == area.size.width,
                rect_in_range(area),
                area_cells(*buf, area, height as nat) is Some,
                area_cells(*buf, area, y as nat) == Some((rows_view(result@), state)),
            decreases height - y,
        {
            proof {
                lemma_area_prefix(*buf, area, (y + 1) as nat, height as nat);
            }
            let ghost s0 = state;
            let yy: i32 = area.start.y + y as i32;
            let mut line: Vec<CharCell> = Vec::new();
            let mut x: usize = 0;
            assert(row_view(line) =~= Seq::<CharCellView>::empty());
            while x < width
                invariant
                    x <= width == area.size.width,
                    y < height == area.size.height,
                    rect_in_range(area),
                    yy == area.start.y + y,
                    row_cells(*buf, yy as int, area.start.x as int, width as nat, s0) is Some,
                    row_cells(*buf, yy as int, area.start.x as int, x as nat, s0) == Some((row_view(line), state)),
                decreases width - x,
            {
                proof {
                    lemma_row_prefix(*buf, yy as int, area.start.x as int, (x + 1) as nat, width as nat, s0);
                }
                let xx: i32 = area.start.x + x as i32;
                let ch = buf.get_char(Position::new(xx, yy));
                let (new_state, sgr, sgr_tc) = StringGenerator::get_color(buf, ch.attribute, state);
                state = new_state;
                let ghost before = row_view(line);
                line.push(CharCell { ch: ch.ch, sgr, sgr_tc, font_page: ch.get_font_page(), cur_state: state });
                assert(row_view(line) =~= before.push(line@.last()@));
                x += 1;
            }
            let ghost rows_before = rows_view(result@);
            result.push(line);
            assert(rows_view(result@) =~= rows_before.push(row_view(line)));
            y += 1;
        }
        result
    }
}

} // verus!

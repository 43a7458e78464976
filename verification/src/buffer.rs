use vstd::prelude::*;

use crate::attributed_char::{default_char, invisible_char, is_transparent_char, AttributedChar};
use crate::buffer_type::{BufferType, FontMode, IceMode, PaletteMode};
use crate::caret::Caret;
use crate::geometry::{Position, Size};
use crate::layer::{char_at, layer_cells, sat_i32, Layer, Mode};
use crate::line::line_length;
use crate::palette::{dos_default_colors, Palette};
use crate::terminal_state::{initial_terminal_state, OriginMode, TerminalState};
use crate::text_attribute::TextAttribute;
use crate::fonts::BitFont;
use std::collections::HashMap;

verus! {

/// A text document: a stack of layers, a palette and, for terminal
/// buffers, a terminal screen that shows the last rows.
pub struct Buffer {
    pub size: Size,
    pub terminal_state: TerminalState,
    pub buffer_type: BufferType,
    pub ice_mode: IceMode,
    pub palette_mode: PaletteMode,
    pub font_mode: FontMode,
    pub is_terminal_buffer: bool,
    pub palette: Palette,
    pub overlay_layer: Option<Layer>,
    pub layers: Vec<Layer>,
    /// The fonts of the buffer, by font page.
    pub font_table: HashMap<usize, BitFont>,
    /// Set when the font table changed since it was last marked as seen.
    pub is_font_table_dirty: bool,
}

/// The cells of every layer of a buffer.
pub open spec fn all_cells(b: Buffer) -> Seq<Seq<Seq<AttributedChar>>> {
    b.layers@.map_values(|l: Layer| layer_cells(l))
}

/// `a` and `b` differ in at most the rows of their layers.
pub open spec fn same_except_cells(a: Buffer, b: Buffer) -> bool {
    &&& a.size == b.size
    &&& same_except_cells_and_height(a, b)
}

/// `a` and `b` differ in at most the rows of their layers and the buffer's
/// height.
pub open spec fn same_except_cells_and_height(a: Buffer, b: Buffer) -> bool {
    &&& a.size.width == b.size.width
    &&& a.terminal_state == b.terminal_state
    &&& a.buffer_type == b.buffer_type
    &&& a.ice_mode == b.ice_mode
    &&& a.palette_mode == b.palette_mode
    &&& a.font_mode == b.font_mode
    &&& a.is_terminal_buffer == b.is_terminal_buffer
    &&& a.palette.colors@ == b.palette.colors@
    &&& a.overlay_layer == b.overlay_layer
    &&& a.font_table == b.font_table
    &&& a.is_font_table_dirty == b.is_font_table_dirty
    &&& a.layers@.len() == b.layers@.len()
    &&& forall|i: int| 0 <= i < a.layers@.len() ==> crate::layer::same_layer_props(#[trigger] a.layers@[i], b.layers@[i])
}

/// `v` held to the range `lo..=hi` (`hi` at least `lo`).
pub open spec fn clamp(v: int, lo: int, hi: int) -> int {
    if v < lo { lo } else if v > hi { if hi < lo { lo } else { hi } } else { v }
}

/// What the screen geometry of a buffer depends on.
pub struct TermGeom {
    pub is_terminal: bool,
    pub width: int,
    pub height: int,
    pub term_height: int,
    pub margins: Option<(i32, i32)>,
    pub margins_lr: Option<(i32, i32)>,
    pub origin_mode: OriginMode,
    /// The number of rows of the first layer.
    pub n0: int,
}

pub open spec fn geom(b: Buffer) -> TermGeom {
    TermGeom {
        is_terminal: b.is_terminal_buffer,
        width: b.size.width as int,
        height: b.size.height as int,
        term_height: b.terminal_state.size.height as int,
        margins: b.terminal_state.margins,
        margins_lr: b.terminal_state.margins_left_right,
        origin_mode: b.terminal_state.origin_mode,
        n0: if b.layers@.len() > 0 { b.layers@[0].lines@.len() as int } else { 0 },
    }
}

/// The first row of a terminal buffer that the screen shows: the screen
/// shows the last rows of the buffer.
pub open spec fn g_first_visible(g: TermGeom) -> int {
    if g.is_terminal && g.height > g.term_height {
        sat_i32(g.height - g.term_height)
    } else {
        0
    }
}

pub open spec fn g_first_editable(g: TermGeom) -> int {
    if g.is_terminal && g.margins.is_some() {
        sat_i32(g_first_visible(g) + g.margins.unwrap().0)
    } else {
        g_first_visible(g)
    }
}

pub open spec fn g_last_editable(g: TermGeom) -> int {
    if g.is_terminal {
        if g.margins.is_some() {
            sat_i32(g_first_visible(g) + g.margins.unwrap().1)
        } else {
            sat_i32(sat_i32(g_first_visible(g) + sat_i32(g.height)) - 1)
        }
    } else {
        let n = sat_i32(g.n0);
        let h = sat_i32(g.height) - 1;
        if n >= h { n } else { h }
    }
}

/// The caret position held to the screen: to the rows between the first
/// visible row and the last row of the screen (or between the margins where
/// addressing starts at the top margin), and to the columns of the buffer.
pub open spec fn g_limited_pos(g: TermGeom, p: Position) -> Position {
    let x = clamp(p.x as int, 0, sat_i32(g.width) - 1);
    let y = match g.origin_mode {
        OriginMode::UpperLeftCorner => clamp(
            p.y as int,
            g_first_visible(g),
            sat_i32(g_first_visible(g) + sat_i32(g.term_height) - 1),
        ),
        OriginMode::WithinMargins => clamp(p.y as int, g_first_editable(g), g_last_editable(g)),
    };
    Position { x: x as i32, y: y as i32 }
}

pub open spec fn first_visible_line(b: Buffer) -> int {
    g_first_visible(geom(b))
}

pub open spec fn first_editable_line(b: Buffer) -> int {
    g_first_editable(geom(b))
}

pub open spec fn last_editable_line(b: Buffer) -> int {
    g_last_editable(geom(b))
}

pub open spec fn last_editable_column(b: Buffer) -> int {
    if b.is_terminal_buffer && b.terminal_state.margins_left_right.is_some() {
        b.terminal_state.margins_left_right.unwrap().1 as int
    } else if b.size.width == 0 {
        0
    } else {
        sat_i32(b.size.width - 1)
    }
}

/// The position that cursor addressing starts from.
pub open spec fn upper_left(b: Buffer) -> Position {
    match b.terminal_state.origin_mode {
        OriginMode::UpperLeftCorner => Position { x: 0, y: first_visible_line(b) as i32 },
        OriginMode::WithinMargins => Position { x: 0, y: first_editable_line(b) as i32 },
    }
}

pub open spec fn limited_pos(b: Buffer, p: Position) -> Position {
    g_limited_pos(geom(b), p)
}

/// A visible cell of an upper layer keeps its place, taking the character
/// and the attribute that a character layer and an attribute layer above it
/// give.
pub open spec fn merge_cell(c: AttributedChar, ch_opt: Option<char>, attr_opt: Option<TextAttribute>) -> AttributedChar {
    if c.attribute.invisible {
        c
    } else {
        let c1 = match ch_opt {
            Some(ch) => AttributedChar { ch, ..c },
            None => c,
        };
        match attr_opt {
            Some(a) => AttributedChar { attribute: a, ..c1 },
            None => c1,
        }
    }
}

/// `a - b` for positions, each coordinate capped to the range of `i32`.
pub open spec fn pos_sub(a: Position, b: Position) -> Position {
    Position { x: sat_i32(a.x - b.x) as i32, y: sat_i32(a.y - b.y) as i32 }
}

/// What the layers `0..n` of a buffer show at `pos`, walking down from
/// layer `n - 1`: the first visible cell of a normal layer, or a space on an
/// opaque normal layer; character and attribute layers contribute their
/// character or attribute to the cell found below them.
pub open spec fn layers_char(
    b: Buffer,
    pos: Position,
    n: int,
    ch_opt: Option<char>,
    attr_opt: Option<TextAttribute>,
) -> AttributedChar
    decreases n,
{
    if n <= 0 {
        if b.is_terminal_buffer { default_char() } else { invisible_char() }
    } else {
        let l = b.layers@[n - 1];
        let p = pos_sub(pos, l.offset);
        if !l.is_visible || p.x < 0 || p.y < 0 || p.x >= l.size.width || p.y >= l.size.height {
            layers_char(b, pos, n - 1, ch_opt, attr_opt)
        } else {
            let ch = char_at(l, layer_cells(l), p);
            match l.mode {
                Mode::Normal => if !ch.attribute.invisible {
                    merge_cell(ch, ch_opt, attr_opt)
                } else if !l.has_alpha_channel {
                    merge_cell(default_char(), ch_opt, attr_opt)
                } else {
                    layers_char(b, pos, n - 1, ch_opt, attr_opt)
                },
                Mode::Chars => layers_char(
                    b,
                    pos,
                    n - 1,
                    if !is_transparent_char(ch) { Some(ch.ch) } else { ch_opt },
                    attr_opt,
                ),
                Mode::Attributes => layers_char(
                    b,
                    pos,
                    n - 1,
                    ch_opt,
                    if !ch.attribute.invisible { Some(ch.attribute) } else { attr_opt },
                ),
            }
        }
    }
}

/// The cell that a buffer shows at `pos`: a visible cell of the overlay
/// layer, else what its layers show.
pub open spec fn buffer_char(b: Buffer, pos: Position) -> AttributedChar {
    let from_overlay = match b.overlay_layer {
        Some(o) => {
            let c = char_at(o, layer_cells(o), pos_sub(pos, o.offset));
            if !c.attribute.invisible { Some(c) } else { None }
        },
        None => None,
    };
    match from_overlay {
        Some(c) => c,
        None => layers_char(b, pos, b.layers@.len() as int, None, None),
    }
}

fn sub_sat(a: Position, b: Position) -> (res: Position)
    ensures
        res == pos_sub(a, b),
{
    let x = a.x as i64 - b.x as i64;
    let y = a.y as i64 - b.y as i64;
    Position { x: sat(x), y: sat(y) }
}

pub fn sat(v: i64) -> (res: i32)
    ensures
        res == sat_i32(v as int),
{
    if v > i32::MAX as i64 {
        i32::MAX
    } else if v < i32::MIN as i64 {
        i32::MIN
    } else {
        v as i32
    }
}

pub fn usize_to_i32_sat(v: usize) -> (res: i32)
    ensures
        res == sat_i32(v as int),
{
    if v > i32::MAX as usize {
        i32::MAX
    } else {
        v as i32
    }
}

fn merge(input_char: AttributedChar, ch_opt: Option<char>, attr_opt: Option<TextAttribute>) -> (res: AttributedChar)
    ensures
        res == merge_cell(input_char, ch_opt, attr_opt),
{
    if !input_char.is_visible() {
        return input_char;
    }
    let mut c = input_char;
    if let Some(ch) = ch_opt {
        c.ch = ch;
    }
    if let Some(attr) = attr_opt {
        c.attribute = attr;
    }
    c
}

impl Default for Buffer {
    /// A buffer of 80 by 25 cells; see `Buffer::new`.
    fn default() -> (res: Self)
        ensures
            res.size == (Size { width: 80, height: 25 }),
            res.terminal_state == initial_terminal_state(res.size),
            res.buffer_type == BufferType::CP437,
            res.ice_mode == IceMode::Unlimited,
            res.palette_mode == PaletteMode::Fixed16,
            res.font_mode == FontMode::Sauce,
            !res.is_terminal_buffer,
            res.palette.colors@ == dos_default_colors(),
            res.overlay_layer.is_none(),
            res.font_table@ == Map::<usize, BitFont>::empty(),
            res.layers@.len() == 1,
            res.layers@[0].size == res.size,
            res.layers@[0].is_visible,
            !res.layers@[0].is_locked,
            res.layers@[0].offset == (Position { x: 0, y: 0 }),
            layer_cells(res.layers@[0]) == Seq::new(25, |i: int| crate::line::invisible_cells(80)),
    {
        Buffer::new(Size { width: 80, height: 25 })
    }
}

impl Buffer {
    /// A buffer of `size` with one background layer of that size, the DOS
    /// palette and a terminal screen of the same size.
    pub fn new(size: Size) -> (res: Self)
        ensures
            res.size == size,
            res.terminal_state == initial_terminal_state(size),
            res.buffer_type == BufferType::CP437,
            res.ice_mode == IceMode::Unlimited,
            res.palette_mode == PaletteMode::Fixed16,
            res.font_mode == FontMode::Sauce,
            !res.is_terminal_buffer,
            res.palette.colors@ == dos_default_colors(),
            res.overlay_layer.is_none(),
            res.font_table@ == Map::<usize, BitFont>::empty(),
            !res.is_font_table_dirty,
            res.layers@.len() == 1,
            res.layers@[0].size == size,
            res.layers@[0].is_visible,
            !res.layers@[0].is_locked,
            res.layers@[0].offset == (Position { x: 0, y: 0 }),
            layer_cells(res.layers@[0]) == Seq::new(size.height as nat, |i: int| crate::line::invisible_cells(size.width as nat)),
    {
        let mut layers = Vec::new();
        layers.push(Layer::new("Background", size));
        Buffer {
            size,
            terminal_state: TerminalState::from(size),
            buffer_type: BufferType::CP437,
            ice_mode: IceMode::Unlimited,
            palette_mode: PaletteMode::Fixed16,
            font_mode: FontMode::Sauce,
            is_terminal_buffer: false,
            palette: Palette::new(),
            overlay_layer: None,
            layers,
            font_table: HashMap::new(),
            is_font_table_dirty: false,
        }
    }

    /// A buffer of `size` whose background layer holds `size.height` rows.
    pub fn create(size: Size) -> (res: Self)
        ensures
            res.size == size,
            res.layers@.len() == 1,
            !res.is_terminal_buffer,
            layer_cells(res.layers@[0]) == Seq::new(size.height as nat, |i: int| crate::line::invisible_cells(size.width as nat)),
            res.layers@[0].size == size,
            res.terminal_state == initial_terminal_state(size),
    {
        Buffer::new(size)
    }

    pub fn get_width(&self) -> (res: usize)
        ensures
            res == self.size.width,
    {
        self.size.width
    }

    pub fn get_height(&self) -> (res: usize)
        ensures
            res == self.size.height,
    {
        self.size.height
    }

    pub fn get_size(&self) -> (res: Size)
        ensures
            res == self.size,
    {
        self.size
    }

    pub fn set_size(&mut self, size: Size)
        ensures
            *final(self) == (Buffer { size, ..*old(self) }),
    {
        self.size = size;
    }

    pub fn set_width(&mut self, width: usize)
        ensures
            *final(self) == (Buffer { size: Size { width, height: old(self).size.height }, ..*old(self) }),
    {
        self.size.width = width;
    }

    pub fn set_height(&mut self, height: usize)
        ensures
            *final(self) == (Buffer { size: Size { width: old(self).size.width, height }, ..*old(self) }),
    {
        self.size.height = height;
    }

    /// The most rows that any layer has.
    pub fn get_line_count(&self) -> (res: usize)
        ensures
            self.layers@.len() == 0 ==> res == self.size.height,
            self.layers@.len() > 0 ==> (forall|i: int| 0 <= i < self.layers@.len() ==> self.layers@[i].lines@.len() <= res),
            self.layers@.len() > 0 ==> (exists|i: int| 0 <= i < self.layers@.len() && self.layers@[i].lines@.len() == res),
    {
        if self.layers.len() == 0 {
            return self.size.height;
        }
        let mut m = self.layers[0].lines.len();
        let mut i: usize = 1;
        while i < self.layers.len()
            invariant
                1 <= i <= self.layers@.len(),
                forall|j: int| 0 <= j < i ==> self.layers@[j].lines@.len() <= m,
                exists|j: int| 0 <= j < i && self.layers@[j].lines@.len() == m,
            decreases self.layers@.len() - i,
        {
            if self.layers[i].lines.len() > m {
                m = self.layers[i].lines.len();
            }
            i += 1;
        }
        m
    }

    /// The longest row length, over all layers.
    pub fn get_real_buffer_width(&self) -> (res: usize)
        ensures
            forall|i: int, j: int|
                0 <= i < self.layers@.len() && 0 <= j < self.layers@[i].lines@.len() ==> line_length(
                    #[trigger] layer_cells(self.layers@[i])[j],
                ) <= res,
            res == 0 || exists|i: int, j: int|
                0 <= i < self.layers@.len() && 0 <= j < self.layers@[i].lines@.len() && line_length(
                    layer_cells(self.layers@[i])[j],
                ) == res,
    {
        let mut w: usize = 0;
        let mut i: usize = 0;
        while i < self.layers.len()
            invariant
                i <= self.layers@.len(),
                forall|a: int, j: int|
                    0 <= a < i && 0 <= j < self.layers@[a].lines@.len() ==> line_length(
                        #[trigger] layer_cells(self.layers@[a])[j],
                    ) <= w,
                w == 0 || exists|a: int, j: int|
                    0 <= a < self.layers@.len() && 0 <= j < self.layers@[a].lines@.len() && line_length(
                        layer_cells(self.layers@[a])[j],
                    ) == w,
            decreases self.layers@.len() - i,
        {
            let layer = &self.layers[i];
            let mut k: usize = 0;
            while k < layer.lines.len()
                invariant
                    i < self.layers@.len(),
                    *layer == self.layers@[i as int],
                    k <= layer.lines@.len(),
                    forall|a: int, j: int|
                        0 <= a < i && 0 <= j < self.layers@[a].lines@.len() ==> line_length(
                            #[trigger] layer_cells(self.layers@[a])[j],
                        ) <= w,
                    forall|j: int| 0 <= j < k ==> line_length(#[trigger] layer_cells(self.layers@[i as int])[j]) <= w,
                    w == 0 || exists|a: int, j: int|
                        0 <= a < self.layers@.len() && 0 <= j < self.layers@[a].lines@.len() && line_length(
                            layer_cells(self.layers@[a])[j],
                        ) == w,
                decreases layer.lines@.len() - k,
            {
                let len = layer.lines[k].get_line_length();
                assert(layer_cells(self.layers@[i as int])[k as int] == layer.lines@[k as int].chars@);
                if len > w {
                    w = len;
                }
                k += 1;
            }
            i += 1;
        }
        w
    }

    /// Back to the terminal state of a terminal of the same size just
    /// switched on.
    pub fn reset_terminal(&mut self)
        ensures
            final(self).terminal_state == initial_terminal_state(old(self).terminal_state.size),
            final(self).layers@ == old(self).layers@,
            final(self).size == old(self).size,
            final(self).is_terminal_buffer == old(self).is_terminal_buffer,
    {
        self.terminal_state = TerminalState::from(self.terminal_state.get_size());
    }

    /// The first row that the screen of a terminal buffer shows; 0 for other
    /// buffers.
    pub fn get_first_visible_line(&self) -> (res: i32)
        ensures
            res == first_visible_line(*self),
    {
        if self.is_terminal_buffer && self.size.height > self.terminal_state.size.height {
            usize_to_i32_sat(self.size.height - self.terminal_state.size.height)
        } else {
            0
        }
    }

    pub fn get_last_visible_line(&self) -> (res: i32)
        ensures
            res == sat_i32(first_visible_line(*self) + sat_i32(self.size.height as int)),
    {
        sat(self.get_first_visible_line() as i64 + usize_to_i32_sat(self.size.height) as i64)
    }

    pub fn get_first_editable_line(&self) -> (res: i32)
        ensures
            res == first_editable_line(*self),
    {
        if self.is_terminal_buffer {
            if let Some((start, _)) = self.terminal_state.get_margins_top_bottom() {
                return sat(self.get_first_visible_line() as i64 + start as i64);
            }
        }
        self.get_first_visible_line()
    }

    pub fn get_first_editable_column(&self) -> (res: i32)
        ensures
            res == if self.is_terminal_buffer && self.terminal_state.margins_left_right.is_some() {
                self.terminal_state.margins_left_right.unwrap().0 as int
            } else {
                0
            },
    {
        if self.is_terminal_buffer {
            if let Some((start, _)) = self.terminal_state.get_margins_left_right() {
                return start;
            }
        }
        0
    }

    pub fn get_last_editable_column(&self) -> (res: i32)
        ensures
            res == last_editable_column(*self),
    {
        if self.is_terminal_buffer {
            if let Some((_, end)) = self.terminal_state.get_margins_left_right() {
                return end;
            }
        }
        if self.size.width == 0 {
            0
        } else {
            usize_to_i32_sat(self.size.width - 1)
        }
    }

    /// A terminal buffer with top and bottom margins scrolls the region
    /// between them.
    pub fn needs_scrolling(&self) -> (res: bool)
        ensures
            res == (self.is_terminal_buffer && self.terminal_state.margins.is_some()),
    {
        self.is_terminal_buffer && self.terminal_state.get_margins_top_bottom().is_some()
    }

    pub fn get_last_editable_line(&self) -> (res: i32)
        requires
            !self.is_terminal_buffer ==> self.layers@.len() > 0,
        ensures
            res == last_editable_line(*self),
    {
        if self.is_terminal_buffer {
            if let Some((_, end)) = self.terminal_state.get_margins_top_bottom() {
                sat(self.get_first_visible_line() as i64 + end as i64)
            } else {
                let v = sat(self.get_first_visible_line() as i64 + usize_to_i32_sat(self.size.height) as i64);
                sat(v as i64 - 1)
            }
        } else {
            let n = usize_to_i32_sat(self.layers[0].lines.len());
            let h = usize_to_i32_sat(self.size.height) - 1;
            if n >= h { n } else { h }
        }
    }

    pub fn upper_left_position(&self) -> (res: Position)
        ensures
            res == upper_left(*self),
    {
        match self.terminal_state.origin_mode {
            OriginMode::UpperLeftCorner => Position { x: 0, y: self.get_first_visible_line() },
            OriginMode::WithinMargins => Position { x: 0, y: self.get_first_editable_line() },
        }
    }

    /// Holds the caret to the screen; see `limited_pos`.
    pub fn limit_caret_pos(&self, caret: &mut Caret)
        requires
            !self.is_terminal_buffer ==> self.layers@.len() > 0,
        ensures
            *final(caret) == (Caret { pos: limited_pos(*self, old(caret).pos), ..*old(caret) }),
    {
        let w = usize_to_i32_sat(self.size.width);
        let x = clamp_exec(caret.pos.x, 0, w - 1);
        let y = match self.terminal_state.origin_mode {
            OriginMode::UpperLeftCorner => {
                let first = self.get_first_visible_line();
                let h = usize_to_i32_sat(self.terminal_state.size.height);
                clamp_exec(caret.pos.y, first, sat(first as i64 + h as i64 - 1))
            },
            OriginMode::WithinMargins => {
                let first = self.get_first_editable_line();
                let last = self.get_last_editable_line();
                clamp_exec(caret.pos.y, first, last)
            },
        };
        caret.pos = Position { x, y };
    }

    /// Drops the overlay layer and gives it back.
    pub fn remove_overlay(&mut self) -> (res: Option<Layer>)
        ensures
            res == old(self).overlay_layer,
            final(self).overlay_layer.is_none(),
            final(self).layers@ == old(self).layers@,
            final(self).size == old(self).size,
    {
        self.overlay_layer.take()
    }

    /// The overlay layer, created first where the buffer has none: a layer
    /// of the buffer's size with an alpha channel.
    pub fn get_overlay_layer(&mut self) -> (res: &mut Option<Layer>)
        ensures
            old(self).overlay_layer is Some ==> *res == old(self).overlay_layer,
            old(self).overlay_layer is None ==> (*res matches Some(l) && {
                &&& l.title@ == "Overlay"@
                &&& l.has_alpha_channel
                &&& l.is_visible
                &&& !l.is_locked
                &&& l.mode == Mode::Normal
                &&& l.offset == (Position { x: 0, y: 0 })
                &&& l.size == old(self).size
                &&& layer_cells(l) == Seq::new(old(self).size.height as nat, |i: int| crate::line::invisible_cells(old(self).size.width as nat))
            }),
            *final(self) == (Buffer { overlay_layer: *final(res), ..*old(self) }),
    {
        if self.overlay_layer.is_none() {
            let mut l = Layer::new("Overlay", self.size);
            l.has_alpha_channel = true;
            self.overlay_layer = Some(l);
        }
        &mut self.overlay_layer
    }

    /// Whether every cell of row `line` is transparent.
    pub fn is_line_empty(&self, line: i32) -> (res: bool)
        ensures
            res == forall|x: int| 0 <= x < self.size.width && x <= i32::MAX ==> is_transparent_char(
                #[trigger] buffer_char(*self, Position { x: x as i32, y: line }),
            ),
    {
        let mut i: usize = 0;
        while i < self.size.width
            invariant
                i <= self.size.width,
                forall|x: int| 0 <= x < i && x <= i32::MAX ==> is_transparent_char(
                    #[trigger] buffer_char(*self, Position { x: x as i32, y: line }),
                ),
            decreases self.size.width - i,
        {
            if i > i32::MAX as usize {
                return true;
            }
            if !self.get_char(Position { x: i as i32, y: line }).is_transparent() {
                return false;
            }
            i += 1;
        }
        true
    }

    /// The cell that the buffer shows at `pos`; see `buffer_char`.
    pub fn get_char(&self, pos: Position) -> (res: AttributedChar)
        ensures
            res == buffer_char(*self, pos),
    {
        if let Some(overlay) = &self.overlay_layer {
            let p = sub_sat(pos, overlay.get_offset());
            let ch = overlay.get_char(p);
            if ch.is_visible() {
                return ch;
            }
        }
        let mut ch_opt: Option<char> = None;
        let mut attr_opt: Option<TextAttribute> = None;
        let mut i = self.layers.len();
        while i > 0
            invariant
                i <= self.layers@.len(),
                buffer_char(*self, pos) == layers_char(*self, pos, i as int, ch_opt, attr_opt),
            decreases i,
        {
            let cur_layer = &self.layers[i - 1];
            let p = sub_sat(pos, cur_layer.get_offset());
            if cur_layer.is_visible && p.x >= 0 && p.y >= 0 && (p.x as usize) < cur_layer.size.width && (p.y as usize)
                < cur_layer.size.height {
                let ch = cur_layer.get_char(p);
                match cur_layer.mode {
                    Mode::Normal => {
                        if ch.is_visible() {
                            return merge(ch, ch_opt, attr_opt);
                        }
                        if !cur_layer.has_alpha_channel {
                            return merge(AttributedChar::default(), ch_opt, attr_opt);
                        }
                    },
                    Mode::Chars => {
                        if !ch.is_transparent() {
                            ch_opt = Some(ch.ch);
                        }
                    },
                    Mode::Attributes => {
                        if ch.is_visible() {
                            attr_opt = Some(ch.attribute);
                        }
                    },
                }
            }
            i -= 1;
        }
        if self.is_terminal_buffer {
            AttributedChar::default()
        } else {
            AttributedChar::invisible()
        }
    }

    /// The length of row `line`: one past its last column whose cell is not
    /// transparent, over the buffer's width.
    pub fn get_line_length(&self, line: i32) -> (res: usize)
        ensures
            res <= self.size.width,
            res > 0 ==> !is_transparent_char(buffer_char(*self, Position { x: (res - 1) as i32, y: line })),
            forall|x: int|
                res <= x < self.size.width && x <= i32::MAX ==> is_transparent_char(
                    #[trigger] buffer_char(*self, Position { x: x as i32, y: line }),
                ),
    {
        let mut length: usize = 0;
        let mut x: usize = 0;
        let w = self.size.width;
        while x < w && x <= i32::MAX as usize
            invariant
                x <= w,
                w == self.size.width,
                length <= x,
                length > 0 ==> !is_transparent_char(buffer_char(*self, Position { x: (length - 1) as i32, y: line })),
                forall|k: int|
                    length <= k < x && k <= i32::MAX ==> is_transparent_char(
                        #[trigger] buffer_char(*self, Position { x: k as i32, y: line }),
                    ),
            decreases w - x,
        {
            let ch = self.get_char(Position { x: x as i32, y: line });
            if !ch.is_transparent() {
                length = x + 1;
            }
            x += 1;
        }
        length
    }
}

fn clamp_exec(v: i32, lo: i32, hi: i32) -> (res: i32)
    ensures
        res == clamp(v as int, lo as int, hi as int),
{
    if v < lo {
        lo
    } else if v > hi {
        if hi < lo { lo } else { hi }
    } else {
        v
    }
}

} // verus!

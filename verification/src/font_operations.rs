use vstd::prelude::*;

use crate::attributed_char::AttributedChar;
use crate::buffer::Buffer;
use crate::buffer_type::{FontMode, IceMode, PaletteMode};
use crate::editor_error::EditorError;
use crate::font_table::lemma_full_pages;
use crate::fonts::{font_model, BitFont};
use crate::undo_operations::SwitchToFontPage;
use crate::caret::Caret;
use crate::layer::{cells_of, duplicate_layers, layer_cells, same_layer_props, same_layers, Layer};
use crate::line::Line;
use crate::palette::{Color, Palette};
use crate::text_attribute::TextAttribute;
use crate::undo_operations::EditState;

use crate::undo_stack::{kept, unrecorded, UndoOperation};
verus! {

/// The half block and shade glyph that shows `ch` with foreground and
/// background exchanged, if there is one.
pub open spec fn inverse_glyph(ch: char) -> Option<char> {
    if ch == '\u{b0}' { Some('\u{b2}') }
    else if ch == '\u{b1}' { Some('\u{b1}') }
    else if ch == '\u{b2}' { Some('\u{b0}') }
    else if ch == '\u{dc}' { Some('\u{df}') }
    else if ch == '\u{dd}' { Some('\u{de}') }
    else if ch == '\u{de}' { Some('\u{dd}') }
    else if ch == '\u{df}' { Some('\u{dc}') }
    else { None }
}

/// A cell with a bright background (8 to 15) drawn without one: as a full
/// block where the cell shows a single color, as the inverse glyph with the
/// colors exchanged where there is one, and otherwise blinking on the dark
/// variant of the background.
pub open spec fn ice_color_removed(c: AttributedChar) -> AttributedChar {
    let a = c.attribute;
    let fg = a.foreground_color;
    let bg = a.background_color;
    if fg == bg {
        AttributedChar::spec_new('\u{db}', TextAttribute { background_color: 0, ..a })
    } else if c.ch == '\0' || c.ch == ' ' || c.ch == '\u{ff}' {
        AttributedChar::spec_new('\u{db}', TextAttribute { foreground_color: bg, background_color: 0, ..a })
    } else if c.ch == '\u{db}' {
        AttributedChar::spec_new('\u{db}', TextAttribute { background_color: 0, ..a })
    } else if fg < 8 && inverse_glyph(c.ch) is Some {
        AttributedChar::spec_new(inverse_glyph(c.ch)->0, TextAttribute { foreground_color: bg, background_color: fg, ..a })
    } else {
        AttributedChar::spec_new(c.ch, TextAttribute { blink: true, background_color: (bg - 8) as u32, ..a })
    }
}

fn inverse_glyph_exec(ch: char) -> (res: Option<char>)
    ensures
        res == inverse_glyph(ch),
{
    if ch == '\u{b0}' { Some('\u{b2}') }
    else if ch == '\u{b1}' { Some('\u{b1}') }
    else if ch == '\u{b2}' { Some('\u{b0}') }
    else if ch == '\u{dc}' { Some('\u{df}') }
    else if ch == '\u{dd}' { Some('\u{de}') }
    else if ch == '\u{de}' { Some('\u{dd}') }
    else if ch == '\u{df}' { Some('\u{dc}') }
    else { None }
}

/// See `ice_color_removed`.
#[verifier::rlimit(40)]
pub fn remove_ice_color(ch: AttributedChar) -> (res: AttributedChar)
    requires
        ch.attribute.background_color >= 8,
    ensures
        res == ice_color_removed(ch),
{
    let fg = ch.attribute.foreground_color;
    let bg = ch.attribute.background_color;
    let mut attr = ch.attribute;
    if fg == bg {
        attr.background_color = 0;
        return AttributedChar::new('\u{db}', attr);
    }
    if ch.ch == '\0' || ch.ch == ' ' || ch.ch == '\u{ff}' {
        attr.foreground_color = bg;
        attr.background_color = 0;
        return AttributedChar::new('\u{db}', attr);
    }
    if ch.ch == '\u{db}' {
        attr.background_color = 0;
        return AttributedChar::new('\u{db}', attr);
    }
    if fg < 8 {
        if let Some(g) = inverse_glyph_exec(ch.ch) {
            attr.foreground_color = bg;
            attr.background_color = fg;
            return AttributedChar::new(g, attr);
        }
    }
    attr.blink = true;
    attr.background_color = bg - 8;
    AttributedChar::new(ch.ch, attr)
}

/// A cell converted for the ice mode `mode`: without ice colors, bright
/// backgrounds are removed; with them, blinking becomes a bright background.
pub open spec fn ice_mode_char(mode: IceMode, c: AttributedChar) -> AttributedChar {
    let a = c.attribute;
    match mode {
        IceMode::Unlimited => c,
        IceMode::Blink => if 8 <= a.background_color < 16 { ice_color_removed(c) } else { c },
        IceMode::Ice => if a.blink {
            AttributedChar {
                attribute: TextAttribute {
                    blink: false,
                    background_color: if a.background_color < 8 { (a.background_color + 8) as u32 } else { a.background_color },
                    ..a
                },
                ..c
            }
        } else {
            c
        },
    }
}

/// The caret attribute converted for the ice mode `mode`.
pub open spec fn ice_mode_attribute(mode: IceMode, a: TextAttribute) -> TextAttribute {
    match mode {
        IceMode::Unlimited => a,
        IceMode::Blink => if a.background_color > 7 {
            TextAttribute { blink: true, background_color: (a.background_color - 8) as u32, ..a }
        } else {
            a
        },
        IceMode::Ice => if a.blink {
            TextAttribute {
                blink: false,
                background_color: if a.background_color < 8 { (a.background_color + 8) as u32 } else { a.background_color },
                ..a
            }
        } else {
            a
        },
    }
}

/// The rows of a layer converted cell by cell for the ice mode `mode`.
pub open spec fn ice_mode_cells(mode: IceMode, cells: Seq<Seq<AttributedChar>>) -> Seq<Seq<AttributedChar>> {
    cells.map_values(|row: Seq<AttributedChar>| row.map_values(|c: AttributedChar| ice_mode_char(mode, c)))
}

/// The layers `b` are the layers `a` converted for the ice mode `mode`.
pub open spec fn ice_mode_layers(mode: IceMode, a: Seq<Layer>, b: Seq<Layer>) -> bool {
    &&& a.len() == b.len()
    &&& forall|i: int| 0 <= i < a.len() ==> same_layer_props(#[trigger] b[i], a[i]) && layer_cells(b[i]) == ice_mode_cells(mode, layer_cells(a[i]))
}

fn ice_mode_char_exec(mode: IceMode, c: AttributedChar) -> (res: AttributedChar)
    ensures
        res == ice_mode_char(mode, c),
{
    match mode {
        IceMode::Unlimited => c,
        IceMode::Blink => {
            if 8 <= c.attribute.background_color && c.attribute.background_color < 16 {
                remove_ice_color(c)
            } else {
                c
            }
        },
        IceMode::Ice => {
            if c.attribute.blink {
                let mut r = c;
                r.attribute.blink = false;
                if r.attribute.background_color < 8 {
                    r.attribute.background_color = r.attribute.background_color + 8;
                }
                r
            } else {
                c
            }
        },
    }
}

fn convert_attribute(a: &mut TextAttribute, mode: IceMode)
    ensures
        *final(a) == ice_mode_attribute(mode, *old(a)),
{
    match mode {
        IceMode::Unlimited => {},
        IceMode::Blink => {
            if a.background_color > 7 {
                a.blink = true;
                a.background_color = a.background_color - 8;
            }
        },
        IceMode::Ice => {
            if a.blink {
                a.blink = false;
                if a.background_color < 8 {
                    a.background_color = a.background_color + 8;
                }
            }
        },
    }
}

fn convert_line(line: &mut Line, mode: IceMode)
    ensures
        final(line).chars@ == old(line).chars@.map_values(|c: AttributedChar| ice_mode_char(mode, c)),
{
    let ghost start = line.chars@;
    let mut i: usize = 0;
    while i < line.chars.len()
        invariant
            i <= line.chars@.len(),
            line.chars@.len() == start.len(),
            start == old(line).chars@,
            forall|k: int| 0 <= k < start.len() ==> #[trigger] line.chars@[k] == if k < i { ice_mode_char(mode, start[k]) } else { start[k] },
        decreases line.chars@.len() - i,
    {
        let c = line.chars[i];
        line.chars.set(i, ice_mode_char_exec(mode, c));
        i += 1;
    }
    assert(line.chars@ =~= start.map_values(|c: AttributedChar| ice_mode_char(mode, c)));
}

fn convert_layer(layer: &mut Layer, mode: IceMode)
    ensures
        same_layer_props(*final(layer), *old(layer)),
        layer_cells(*final(layer)) == ice_mode_cells(mode, layer_cells(*old(layer))),
{
    let ghost start = layer_cells(*layer);
    let mut i: usize = 0;
    while i < layer.lines.len()
        invariant
            i <= layer.lines@.len(),
            layer.lines@.len() == start.len(),
            start == layer_cells(*old(layer)),
            same_layer_props(*layer, *old(layer)),
            forall|k: int| 0 <= k < start.len() ==> #[trigger] layer.lines@[k].chars@ == if k < i { ice_mode_cells(mode, start)[k] } else { start[k] },
        decreases layer.lines@.len() - i,
    {
        let ghost before = layer.lines@;
        convert_line(&mut layer.lines[i], mode);
        assert forall|k: int| 0 <= k < start.len() && k != i implies layer.lines@[k] == before[k] by {}
        i += 1;
    }
    assert(layer_cells(*layer) =~= ice_mode_cells(mode, start));
}

fn convert_layers(layers: &mut Vec<Layer>, mode: IceMode)
    ensures
        ice_mode_layers(mode, old(layers)@, final(layers)@),
{
    let ghost start = layers@;
    let mut i: usize = 0;
    while i < layers.len()
        invariant
            i <= layers@.len(),
            layers@.len() == start.len(),
            start == old(layers)@,
            forall|k: int| 0 <= k < i ==> same_layer_props(#[trigger] layers@[k], start[k]) && layer_cells(layers@[k]) == ice_mode_cells(mode, layer_cells(start[k])),
            forall|k: int| i <= k < start.len() ==> #[trigger] layers@[k] == start[k],
        decreases layers@.len() - i,
    {
        let ghost before = layers@;
        convert_layer(&mut layers[i], mode);
        assert forall|k: int| 0 <= k < start.len() && k != i implies layers@[k] == before[k] by {}
        i += 1;
    }
}

/// Switches the buffer between ice colors and blinking, keeping the layers
/// it had and the layers it got to go back and forth.
pub struct SetIceMode {
    pub old_mode: IceMode,
    pub old_layers: Vec<Layer>,
    pub new_mode: IceMode,
    pub new_layers: Vec<Layer>,
}

/// `es1` is `es0` with layers that show as `ls` and the ice mode `mode`.
pub open spec fn ice_mode_set(es0: EditState, es1: EditState, ls: Seq<Layer>, mode: IceMode) -> bool {
    &&& same_layers(es1.buffer.layers@, ls)
    &&& es1.buffer == (Buffer { layers: es1.buffer.layers, ice_mode: mode, ..es0.buffer })
    &&& es1 == (EditState { buffer: es1.buffer, is_buffer_dirty: true, ..es0 })
}

impl SetIceMode {
    pub fn new(old_mode: IceMode, old_layers: Vec<Layer>, new_mode: IceMode, new_layers: Vec<Layer>) -> (res: Self)
        ensures
            res.old_mode == old_mode,
            res.old_layers == old_layers,
            res.new_mode == new_mode,
            res.new_layers == new_layers,
    {
        SetIceMode { old_mode, old_layers, new_mode, new_layers }
    }

    /// What undoing this operation in `es0` does: `es1` is the state
    /// after it, `op1` the operation after it and `res` its result.
    pub open spec fn undo_post(&self, es0: EditState, op1: Self, es1: EditState, res: Result<(), crate::editor_error::EditorError>) -> bool {
        &&& op1 == *self
        &&& res is Ok
        &&& ice_mode_set(es0, es1, self.old_layers@, self.old_mode)
    }

    pub fn undo(&self, es: &mut EditState) -> (res: Result<(), crate::editor_error::EditorError>)
        ensures
            self.undo_post(*old(es), *self, *final(es), res),
    {
        es.buffer.layers = duplicate_layers(&self.old_layers);
        es.buffer.ice_mode = self.old_mode;
        es.is_buffer_dirty = true;
        Ok(())
    }

    /// What redoing this operation in `es0` does: `es1` is the state
    /// after it, `op1` the operation after it and `res` its result.
    pub open spec fn redo_post(&self, es0: EditState, op1: Self, es1: EditState, res: Result<(), crate::editor_error::EditorError>) -> bool {
        &&& op1 == *self
        &&& res is Ok
        &&& ice_mode_set(es0, es1, self.new_layers@, self.new_mode)
    }

    pub fn redo(&self, es: &mut EditState) -> (res: Result<(), crate::editor_error::EditorError>)
        ensures
            self.redo_post(*old(es), *self, *final(es), res),
    {
        es.buffer.layers = duplicate_layers(&self.new_layers);
        es.buffer.ice_mode = self.new_mode;
        es.is_buffer_dirty = true;
        Ok(())
    }
}

impl EditState {
    /// Switches the buffer to the ice mode `mode`: the caret's attribute and
    /// every cell are converted (see `ice_mode_char`), and the switch is
    /// applied; gives back the operation that undoes it.
    pub(crate) fn set_ice_mode_op(&mut self, mode: IceMode) -> (res: SetIceMode)
        ensures
            set_ice_mode_done(*old(self), mode, *final(self), res),
            final(self).undo_stack == old(self).undo_stack,
            final(self).redo_stack == old(self).redo_stack,
    {
        let old_layers = duplicate_layers(&self.buffer.layers);
        let old_mode = self.buffer.ice_mode;
        let mut new_layers = duplicate_layers(&self.buffer.layers);
        let ghost copy = new_layers@;
        convert_attribute(&mut self.caret.attribute, mode);
        convert_layers(&mut new_layers, mode);
        proof {
            assert forall|i: int| 0 <= i < new_layers@.len() implies same_layer_props(#[trigger] new_layers@[i], old(self).buffer.layers@[i])
                && layer_cells(new_layers@[i]) == ice_mode_cells(mode, layer_cells(old(self).buffer.layers@[i])) by {
                assert(same_layer_props(copy[i], old(self).buffer.layers@[i]));
            }
        }
        let op = SetIceMode::new(old_mode, old_layers, mode, new_layers);
        let _ = op.redo(self);
        op
    }

    /// Switches the buffer to the ice mode `mode`: the caret's attribute and
    /// every cell are converted (see `ice_mode_char`), and the switch is
    /// applied. The change is kept as the operation to undo next.
    pub fn set_ice_mode(&mut self, mode: IceMode) -> (res: Result<(), EditorError>)
        ensures
            res is Ok,
            (final(self).undo_stack@.last() matches UndoOperation::SetIceMode(op)
                && set_ice_mode_done(*old(self), mode, unrecorded(*final(self), *old(self)), op)
                && kept(*old(self), *final(self), UndoOperation::SetIceMode(op))),
    {
        let op = self.set_ice_mode_op(mode);
        self.record_undo(UndoOperation::SetIceMode(op));
        Ok(())
    }
}

/// The L1 distance between two colors.
pub open spec fn color_distance(a: Color, b: Color) -> int {
    let dr = a.r - b.r;
    let dg = a.g - b.g;
    let db = a.b - b.b;
    (if dr < 0 { -dr } else { dr }) + (if dg < 0 { -dg } else { dg }) + (if db < 0 { -db } else { db })
}

/// `r` is the first color of `cs` that lies nearest to `c`.
pub open spec fn is_nearest_color(cs: Seq<Color>, c: Color, r: int) -> bool {
    &&& 0 <= r < cs.len()
    &&& forall|j: int| 0 <= j < cs.len() ==> color_distance(c, cs[r]) <= color_distance(c, #[trigger] cs[j])
    &&& forall|j: int| 0 <= j < r ==> color_distance(c, cs[r]) < color_distance(c, #[trigger] cs[j])
}

/// The index in `new_palette` of the color nearest to color `color` of
/// `old_palette`; the first of equally near ones, and 0 where the new
/// palette is empty.
pub fn find_new_color(old_palette: &Palette, new_palette: &Palette, color: u32) -> (res: u32)
    requires
        color < old_palette.colors@.len(),
        new_palette.colors@.len() <= u32::MAX,
    ensures
        new_palette.colors@.len() == 0 ==> res == 0,
        new_palette.colors@.len() > 0 ==> is_nearest_color(new_palette.colors@, old_palette.colors@[color as int], res as int),
{
    let o = old_palette.colors[color as usize];
    let mut new_color: usize = 0;
    let mut delta: i32 = i32::MAX;
    let mut i: usize = 0;
    let cs = &new_palette.colors;
    while i < cs.len()
        invariant
            i <= cs@.len(),
            cs@.len() <= u32::MAX,
            i == 0 ==> new_color == 0,
            i > 0 ==> new_color < i && delta == color_distance(o, cs@[new_color as int]),
            i > 0 ==> forall|j: int| 0 <= j < i ==> delta <= color_distance(o, #[trigger] cs@[j]),
            i > 0 ==> forall|j: int| 0 <= j < new_color ==> delta < color_distance(o, #[trigger] cs@[j]),
        decreases cs@.len() - i,
    {
        let c = cs[i];
        let dr: i32 = if o.r >= c.r { (o.r - c.r) as i32 } else { (c.r - o.r) as i32 };
        let dg: i32 = if o.g >= c.g { (o.g - c.g) as i32 } else { (c.g - o.g) as i32 };
        let db: i32 = if o.b >= c.b { (o.b - c.b) as i32 } else { (c.b - o.b) as i32 };
        let d = dr + dg + db;
        if d < delta || i == 0 {
            new_color = i;
            delta = d;
        }
        i += 1;
    }
    new_color as u32
}

/// The rows with each cell's colors mapped through `table`.
pub open spec fn colors_mapped(table: Seq<u32>, cells: Seq<Seq<AttributedChar>>) -> Seq<Seq<AttributedChar>> {
    cells.map_values(|row: Seq<AttributedChar>| row.map_values(|c: AttributedChar| AttributedChar {
        attribute: TextAttribute {
            foreground_color: table[c.attribute.foreground_color as int],
            background_color: table[c.attribute.background_color as int],
            ..c.attribute
        },
        ..c
    }))
}

/// Every cell of `ls` uses colors that `table` maps.
pub open spec fn colors_within(ls: Seq<Layer>, n: int) -> bool {
    forall|i: int, y: int, x: int| 0 <= i < ls.len() && 0 <= y < layer_cells(ls[i]).len() && 0 <= x < layer_cells(ls[i])[y].len()
        ==> (#[trigger] layer_cells(ls[i])[y][x]).attribute.foreground_color < n && layer_cells(ls[i])[y][x].attribute.background_color < n
}

fn map_line_colors(line: &mut Line, table: &Vec<u32>)
    requires
        forall|x: int| 0 <= x < old(line).chars@.len() ==> (#[trigger] old(line).chars@[x]).attribute.foreground_color < table@.len()
            && old(line).chars@[x].attribute.background_color < table@.len(),
    ensures
        final(line).chars@ == colors_mapped(table@, seq![old(line).chars@])[0],
{
    let ghost start = line.chars@;
    let mut i: usize = 0;
    while i < line.chars.len()
        invariant
            i <= line.chars@.len(),
            line.chars@.len() == start.len(),
            start == old(line).chars@,
            forall|x: int| 0 <= x < start.len() ==> (#[trigger] start[x]).attribute.foreground_color < table@.len()
                && start[x].attribute.background_color < table@.len(),
            forall|k: int| 0 <= k < start.len() ==> #[trigger] line.chars@[k] == if k < i { colors_mapped(table@, seq![start])[0][k] } else { start[k] },
        decreases line.chars@.len() - i,
    {
        let mut c = line.chars[i];
        let fg = c.attribute.foreground_color;
        let bg = c.attribute.background_color;
        c.attribute.foreground_color = table[fg as usize];
        c.attribute.background_color = table[bg as usize];
        line.chars.set(i, c);
        i += 1;
    }
    assert(line.chars@ =~= colors_mapped(table@, seq![start])[0]);
}

impl EditState {
    /// Maps the colors of every cell of every layer through `table`.
    pub fn adjust_layer_colors(&mut self, table: &Vec<u32>)
        requires
            colors_within(old(self).buffer.layers@, table@.len() as int),
        ensures
            *final(self) == (EditState { buffer: Buffer { layers: final(self).buffer.layers, ..old(self).buffer }, ..*old(self) }),
            final(self).buffer.layers@.len() == old(self).buffer.layers@.len(),
            forall|i: int| 0 <= i < old(self).buffer.layers@.len() ==> same_layer_props(#[trigger] final(self).buffer.layers@[i], old(self).buffer.layers@[i])
                && layer_cells(final(self).buffer.layers@[i]) == colors_mapped(table@, layer_cells(old(self).buffer.layers@[i])),
    {
        let ghost start = self.buffer.layers@;
        let mut i: usize = 0;
        while i < self.buffer.layers.len()
            invariant
                i <= self.buffer.layers@.len(),
                self.buffer.layers@.len() == start.len(),
                start == old(self).buffer.layers@,
                colors_within(start, table@.len() as int),
                *self == (EditState { buffer: Buffer { layers: self.buffer.layers, ..old(self).buffer }, ..*old(self) }),
                forall|k: int| 0 <= k < i ==> same_layer_props(#[trigger] self.buffer.layers@[k], start[k])
                    && layer_cells(self.buffer.layers@[k]) == colors_mapped(table@, layer_cells(start[k])),
                forall|k: int| i <= k < start.len() ==> #[trigger] self.buffer.layers@[k] == start[k],
            decreases self.buffer.layers@.len() - i,
        {
            let ghost lstart = layer_cells(self.buffer.layers@[i as int]);
            let mut y: usize = 0;
            while y < self.buffer.layers[i].lines.len()
                invariant
                    i < self.buffer.layers@.len(),
                    y <= self.buffer.layers@[i as int].lines@.len(),
                    self.buffer.layers@.len() == start.len(),
                    start == old(self).buffer.layers@,
                    colors_within(start, table@.len() as int),
                    lstart == layer_cells(start[i as int]),
                    self.buffer.layers@[i as int].lines@.len() == lstart.len(),
                    same_layer_props(self.buffer.layers@[i as int], start[i as int]),
                    *self == (EditState { buffer: Buffer { layers: self.buffer.layers, ..old(self).buffer }, ..*old(self) }),
                    forall|k: int| 0 <= k < i ==> same_layer_props(#[trigger] self.buffer.layers@[k], start[k])
                        && layer_cells(self.buffer.layers@[k]) == colors_mapped(table@, layer_cells(start[k])),
                    forall|k: int| i < k < start.len() ==> #[trigger] self.buffer.layers@[k] == start[k],
                    forall|k: int| 0 <= k < lstart.len() ==> #[trigger] self.buffer.layers@[i as int].lines@[k].chars@ == if k < y { colors_mapped(table@, lstart)[k] } else { lstart[k] },
                decreases self.buffer.layers@[i as int].lines@.len() - y,
            {
                let ghost before = self.buffer.layers@;
                proof {
                    assert forall|x: int| 0 <= x < lstart[y as int].len() implies (#[trigger] lstart[y as int][x]).attribute.foreground_color < table@.len()
                        && lstart[y as int][x].attribute.background_color < table@.len() by {
                        assert(layer_cells(start[i as int])[y as int][x] == lstart[y as int][x]);
                    }
                    assert(colors_mapped(table@, seq![lstart[y as int]])[0] =~= colors_mapped(table@, lstart)[y as int]);
                }
                map_line_colors(&mut self.buffer.layers[i].lines[y], table);
                assert forall|k: int| 0 <= k < start.len() && k != i implies self.buffer.layers@[k] == before[k] by {}
                assert forall|k: int| 0 <= k < lstart.len() && k != y implies self.buffer.layers@[i as int].lines@[k] == before[i as int].lines@[k] by {}
                y += 1;
            }
            assert(layer_cells(self.buffer.layers@[i as int]) =~= colors_mapped(table@, lstart));
            i += 1;
        }
    }
}

/// Switches the palette mode: the palette, the mode and the layers change
/// together, and the old ones are kept to go back.
pub struct SwitchPalette {
    pub old_mode: PaletteMode,
    pub old_palette: Palette,
    pub old_layers: Vec<Layer>,
    pub new_mode: PaletteMode,
    pub new_palette: Palette,
    pub new_layers: Vec<Layer>,
}

/// `es1` is `es0` with the palette colors `cs`, the mode `mode` and layers
/// that show as `ls`.
pub open spec fn palette_switched(es0: EditState, es1: EditState, cs: Seq<Color>, mode: PaletteMode, ls: Seq<Layer>) -> bool {
    &&& same_layers(es1.buffer.layers@, ls)
    &&& es1.buffer.palette.colors@ == cs
    &&& es1.buffer == (Buffer { layers: es1.buffer.layers, palette: es1.buffer.palette, palette_mode: mode, ..es0.buffer })
    &&& es1 == (EditState { buffer: es1.buffer, is_palette_dirty: true, ..es0 })
}

fn duplicate_palette(p: &Palette) -> (res: Palette)
    ensures
        res.colors@ == p.colors@,
{
    let mut colors: Vec<Color> = Vec::new();
    let mut i: usize = 0;
    while i < p.colors.len()
        invariant
            i <= p.colors@.len(),
            colors@ == p.colors@.subrange(0, i as int),
        decreases p.colors@.len() - i,
    {
        colors.push(p.colors[i]);
        i += 1;
        assert(colors@ =~= p.colors@.subrange(0, i as int));
    }
    assert(colors@ =~= p.colors@);
    Palette { colors }
}

impl SwitchPalette {
    pub fn new(
        old_mode: PaletteMode,
        old_palette: Palette,
        old_layers: Vec<Layer>,
        new_mode: PaletteMode,
        new_palette: Palette,
        new_layers: Vec<Layer>,
    ) -> (res: Self)
        ensures
            res == (SwitchPalette { old_mode, old_palette, old_layers, new_mode, new_palette, new_layers }),
    {
        SwitchPalette { old_mode, old_palette, old_layers, new_mode, new_palette, new_layers }
    }

    /// What undoing this operation in `es0` does: `es1` is the state
    /// after it, `op1` the operation after it and `res` its result.
    pub open spec fn undo_post(&self, es0: EditState, op1: Self, es1: EditState, res: Result<(), crate::editor_error::EditorError>) -> bool {
        &&& op1 == *self
        &&& res is Ok
        &&& palette_switched(es0, es1, self.old_palette.colors@, self.old_mode, self.old_layers@)
    }

    pub fn undo(&self, es: &mut EditState) -> (res: Result<(), crate::editor_error::EditorError>)
        ensures
            self.undo_post(*old(es), *self, *final(es), res),
    {
        es.buffer.palette = duplicate_palette(&self.old_palette);
        es.buffer.palette_mode = self.old_mode;
        es.buffer.layers = duplicate_layers(&self.old_layers);
        es.is_palette_dirty = true;
        Ok(())
    }

    /// What redoing this operation in `es0` does: `es1` is the state
    /// after it, `op1` the operation after it and `res` its result.
    pub open spec fn redo_post(&self, es0: EditState, op1: Self, es1: EditState, res: Result<(), crate::editor_error::EditorError>) -> bool {
        &&& op1 == *self
        &&& res is Ok
        &&& palette_switched(es0, es1, self.new_palette.colors@, self.new_mode, self.new_layers@)
    }

    pub fn redo(&self, es: &mut EditState) -> (res: Result<(), crate::editor_error::EditorError>)
        ensures
            self.redo_post(*old(es), *self, *final(es), res),
    {
        es.buffer.palette = duplicate_palette(&self.new_palette);
        es.buffer.palette_mode = self.new_mode;
        es.buffer.layers = duplicate_layers(&self.new_layers);
        es.is_palette_dirty = true;
        Ok(())
    }
}

/// Two fonts with the same name, size, kind and glyphs.
pub open spec fn same_font(a: BitFont, b: BitFont) -> bool {
    &&& font_model(a) == font_model(b)
    &&& a.name@ == b.name@
}

/// The table `t1` is `t0` with a copy of `f` on page `page`.
pub open spec fn font_put(t0: Map<usize, BitFont>, t1: Map<usize, BitFont>, page: usize, f: BitFont) -> bool {
    &&& t1 == t0.insert(page, t1[page])
    &&& same_font(t1[page], f)
}

/// `es0` with the caret on font page `page`.
pub open spec fn on_font_page(es0: EditState, page: usize) -> EditState {
    EditState { caret: Caret { attribute: TextAttribute { font_page: page, ..es0.caret.attribute }, ..es0.caret }, ..es0 }
}

/// Adds a font on a new page and switches the caret to it.
pub struct AddFont {
    pub old_font_page: usize,
    pub new_font_page: usize,
    pub font: BitFont,
}

impl AddFont {
    pub fn new(old_font_page: usize, new_font_page: usize, font: BitFont) -> (res: Self)
        ensures
            res == (AddFont { old_font_page, new_font_page, font }),
    {
        AddFont { old_font_page, new_font_page, font }
    }

    /// Takes the font out again and puts the caret back on its old page.
    /// What undoing this operation in `es0` does: `es1` is the state
    /// after it, `op1` the operation after it and `res` its result.
    pub open spec fn undo_post(&self, es0: EditState, op1: Self, es1: EditState, res: Result<(), EditorError>) -> bool {
        &&& op1 == *self
        &&& res is Ok
        &&& es1.buffer.font_table@ == es0.buffer.font_table@.remove(self.new_font_page)
        &&& es1 == (EditState {
            buffer: Buffer { font_table: es1.buffer.font_table, ..es0.buffer },
            ..on_font_page(es0, self.old_font_page)
        })
    }

    pub fn undo(&self, es: &mut EditState) -> (res: Result<(), EditorError>)
        ensures
            self.undo_post(*old(es), *self, *final(es), res),
    {
        let _ = es.buffer.remove_font(self.new_font_page);
        es.caret.set_font_page(self.old_font_page);
        Ok(())
    }

    /// Puts a copy of the font on its page and the caret on that page.
    /// What redoing this operation in `es0` does: `es1` is the state
    /// after it, `op1` the operation after it and `res` its result.
    pub open spec fn redo_post(&self, es0: EditState, op1: Self, es1: EditState, res: Result<(), EditorError>) -> bool {
        &&& op1 == *self
        &&& res is Ok
        &&& font_put(es0.buffer.font_table@, es1.buffer.font_table@, self.new_font_page, self.font)
        &&& es1 == (EditState {
            buffer: Buffer { font_table: es1.buffer.font_table, is_font_table_dirty: true, ..es0.buffer },
            ..on_font_page(es0, self.new_font_page)
        })
    }

    pub fn redo(&self, es: &mut EditState) -> (res: Result<(), EditorError>)
        ensures
            self.redo_post(*old(es), *self, *final(es), res),
    {
        es.buffer.set_font(self.new_font_page, self.font.duplicate());
        es.caret.set_font_page(self.new_font_page);
        Ok(())
    }
}

/// Replaces the font of a page, keeping the font it had.
pub struct SetFont {
    pub font_page: usize,
    pub old: BitFont,
    pub new: BitFont,
}

impl SetFont {
    pub fn new(font_page: usize, old: BitFont, new: BitFont) -> (res: Self)
        ensures
            res == (SetFont { font_page, old, new }),
    {
        SetFont { font_page, old, new }
    }

    /// Puts a copy of the old font back on the page.
    /// What undoing this operation in `es0` does: `es1` is the state
    /// after it, `op1` the operation after it and `res` its result.
    pub open spec fn undo_post(&self, es0: EditState, op1: Self, es1: EditState, res: Result<(), EditorError>) -> bool {
        &&& op1 == *self
        &&& res is Ok
        &&& font_put(es0.buffer.font_table@, es1.buffer.font_table@, self.font_page, self.old)
        &&& es1 == (EditState {
            buffer: Buffer { font_table: es1.buffer.font_table, is_font_table_dirty: true, ..es0.buffer },
            ..es0
        })
    }

    pub fn undo(&self, es: &mut EditState) -> (res: Result<(), EditorError>)
        ensures
            self.undo_post(*old(es), *self, *final(es), res),
    {
        es.buffer.set_font(self.font_page, self.old.duplicate());
        Ok(())
    }

    /// Puts a copy of the new font on the page.
    /// What redoing this operation in `es0` does: `es1` is the state
    /// after it, `op1` the operation after it and `res` its result.
    pub open spec fn redo_post(&self, es0: EditState, op1: Self, es1: EditState, res: Result<(), EditorError>) -> bool {
        &&& op1 == *self
        &&& res is Ok
        &&& font_put(es0.buffer.font_table@, es1.buffer.font_table@, self.font_page, self.new)
        &&& es1 == (EditState {
            buffer: Buffer { font_table: es1.buffer.font_table, is_font_table_dirty: true, ..es0.buffer },
            ..es0
        })
    }

    pub fn redo(&self, es: &mut EditState) -> (res: Result<(), EditorError>)
        ensures
            self.redo_post(*old(es), *self, *final(es), res),
    {
        es.buffer.set_font(self.font_page, self.new.duplicate());
        Ok(())
    }
}

impl EditState {
    /// Switches the caret to font page `page`; gives back the operation that
    /// undoes it.
    pub(crate) fn switch_to_font_page_op(&mut self, page: usize) -> (res: SwitchToFontPage)
        ensures
            switch_to_font_page_done(*old(self), page, *final(self), res),
            final(self).undo_stack == old(self).undo_stack,
            final(self).redo_stack == old(self).redo_stack,
    {
        let op = SwitchToFontPage::new(self.caret.get_font_page(), page);
        let _ = op.redo(self);
        op
    }

    /// Switches the caret to font page `page`. The change is kept as the
    /// operation to undo next.
    pub fn switch_to_font_page(&mut self, page: usize) -> (res: Result<(), EditorError>)
        ensures
            res is Ok,
            (final(self).undo_stack@.last() matches UndoOperation::SwitchToFontPage(op)
                && switch_to_font_page_done(*old(self), page, unrecorded(*final(self), *old(self)), op)
                && kept(*old(self), *final(self), UndoOperation::SwitchToFontPage(op))),
    {
        let op = self.switch_to_font_page_op(page);
        self.record_undo(UndoOperation::SwitchToFontPage(op));
        Ok(())
    }

    /// Adds `new_font` on the lowest free page from 100 on and switches the
    /// caret to it; only a buffer without a limit on its fonts takes more.
    pub(crate) fn add_font_op(&mut self, new_font: BitFont) -> (res: Result<AddFont, EditorError>)
        requires
            old(self).buffer.font_table@.len() + 100 <= usize::MAX,
        ensures
            add_font_done(*old(self), new_font, *final(self), res),
            final(self).undo_stack == old(self).undo_stack,
            final(self).redo_stack == old(self).redo_stack,
    {
        match self.buffer.font_mode {
            FontMode::Unlimited => {
                let mut page: usize = 100;
                while self.buffer.has_font(page)
                    invariant
                        *self == *old(self),
                        self.buffer.font_table@.len() + 100 <= usize::MAX,
                        100 <= page <= self.buffer.font_table@.len() + 100,
                        forall|k: usize| 100 <= k < page ==> #[trigger] self.buffer.font_table@.contains_key(k),
                    decreases self.buffer.font_table@.len() + 100 - page,
                {
                    proof {
                        assert(self.buffer.font_table@.len() == self.buffer.font_table.len());
                        assert forall|k: usize| 100 <= k < page + 1 implies #[trigger] self.buffer.font_table@.contains_key(k) by {
                            if k < page {
                            }
                        }
                        lemma_full_pages(self.buffer.font_table@, 100, page + 1);
                    }
                    page += 1;
                }
                let op = AddFont::new(self.caret.get_font_page(), page, new_font);
                let _ = op.redo(self);
                Ok(op)
            },
            _ => Err(EditorError::NotSupportedForBufferType),
        }
    }

    /// Adds `new_font` on the lowest free page from 100 on and switches the
    /// caret to it; only a buffer without a limit on its fonts takes more. The
    /// change is kept as the operation to undo next.
    pub fn add_font(&mut self, new_font: BitFont) -> (res: Result<(), EditorError>)
        requires
            old(self).buffer.font_table@.len() + 100 <= usize::MAX,
        ensures
            match res {
                Ok(()) => (final(self).undo_stack@.last() matches UndoOperation::AddFont(op)
                    && add_font_done(*old(self), new_font, unrecorded(*final(self), *old(self)), Ok(op))
                    && kept(*old(self), *final(self), UndoOperation::AddFont(op))),
                Err(e) => add_font_done(*old(self), new_font, *final(self), Err(e)),
            },
    {
        match self.add_font_op(new_font) {
            Ok(op) => {
                self.record_undo(UndoOperation::AddFont(op));
                Ok(())
            },
            Err(e) => Err(e),
        }
    }

    /// Replaces a font with `new_font`: the font of the first page in the
    /// single font mode, the font of the caret's page where a buffer may have
    /// several; a sauce buffer keeps its font. The operation keeps the font
    /// of the first page as the one to go back to.
    pub(crate) fn set_font_op(&mut self, new_font: BitFont) -> (res: Result<SetFont, EditorError>)
        requires
            old(self).buffer.font_mode != FontMode::Sauce ==> old(self).buffer.font_table@.contains_key(0),
        ensures
            set_font_done(*old(self), new_font, *final(self), res),
            final(self).undo_stack == old(self).undo_stack,
            final(self).redo_stack == old(self).redo_stack,
    {
        let page = match self.buffer.font_mode {
            FontMode::Sauce => {
                return Err(EditorError::NotSupportedForSauceBuffers);
            },
            FontMode::Single => 0,
            _ => self.caret.get_font_page(),
        };
        let old_font = match self.buffer.get_font(0) {
            Some(f) => f.duplicate(),
            None => {
                return Err(EditorError::NotSupportedForSauceBuffers);
            },
        };
        let op = SetFont::new(page, old_font, new_font);
        let _ = op.redo(self);
        Ok(op)
    }

    /// Replaces a font with `new_font`: the font of the first page in the
    /// single font mode, the font of the caret's page where a buffer may have
    /// several; a sauce buffer keeps its font. The operation keeps the font of
    /// the first page as the one to go back to. The change is kept as the
    /// operation to undo next.
    pub fn set_font(&mut self, new_font: BitFont) -> (res: Result<(), EditorError>)
        requires
            old(self).buffer.font_mode != FontMode::Sauce ==> old(self).buffer.font_table@.contains_key(0),
        ensures
            match res {
                Ok(()) => (final(self).undo_stack@.last() matches UndoOperation::SetFont(op)
                    && set_font_done(*old(self), new_font, unrecorded(*final(self), *old(self)), Ok(op))
                    && kept(*old(self), *final(self), UndoOperation::SetFont(op))),
                Err(e) => set_font_done(*old(self), new_font, *final(self), Err(e)),
            },
    {
        match self.set_font_op(new_font) {
            Ok(op) => {
                self.record_undo(UndoOperation::SetFont(op));
                Ok(())
            },
            Err(e) => Err(e),
        }
    }
}

/// Adding a font on a free page and taking it out again leaves the font
/// table as it was.
pub proof fn law_add_font_undone(t0: Map<usize, BitFont>, t1: Map<usize, BitFont>, page: usize, f: BitFont)
    requires
        !t0.contains_key(page),
        font_put(t0, t1, page, f),
    ensures
        t1.remove(page) == t0,
{
    assert(t1.remove(page) =~= t0);
}

/// Replacing the font of a page and putting back a copy of the font it had
/// leaves every page with the font it had.
pub proof fn law_set_font_undone(
    t0: Map<usize, BitFont>,
    t1: Map<usize, BitFont>,
    t2: Map<usize, BitFont>,
    page: usize,
    old_font: BitFont,
    new_font: BitFont,
)
    requires
        t0.contains_key(page),
        same_font(old_font, t0[page]),
        font_put(t0, t1, page, new_font),
        font_put(t1, t2, page, old_font),
    ensures
        t2.dom() == t0.dom(),
        forall|k: usize| #[trigger] t0.contains_key(k) ==> same_font(t2[k], t0[k]),
{
    assert(t2.dom() =~= t0.dom());
    assert forall|k: usize| #[trigger] t0.contains_key(k) implies same_font(t2[k], t0[k]) by {
        if k != page {
            assert(t2[k] == t1[k]);
            assert(t1[k] == t0[k]);
        }
    }
}


/// What `set_ice_mode` does to the editor `es0`: `es1` is the editor after it
/// and `res` the operation that undoes it (see `EditState::set_ice_mode`).
pub open spec fn set_ice_mode_done(es0: EditState, mode: IceMode, es1: EditState, res: SetIceMode) -> bool {
    &&& res.old_mode == es0.buffer.ice_mode
    &&& same_layers(res.old_layers@, es0.buffer.layers@)
    &&& res.new_mode == mode
    &&& ice_mode_layers(mode, es0.buffer.layers@, res.new_layers@)
    &&& es1.caret == (Caret { attribute: ice_mode_attribute(mode, es0.caret.attribute), ..es0.caret })
    &&& ice_mode_set(EditState { caret: es1.caret, ..es0 }, es1, res.new_layers@, mode)
}

/// What `switch_to_font_page` does to the editor `es0`: `es1` is the editor after it
/// and `res` the operation that undoes it (see `EditState::switch_to_font_page`).
pub open spec fn switch_to_font_page_done(es0: EditState, page: usize, es1: EditState, res: SwitchToFontPage) -> bool {
    &&& res == (SwitchToFontPage { old: es0.caret.attribute.font_page, new: page })
    &&& es1 == on_font_page(es0, page)
}

/// What `add_font` does to the editor `es0`: `es1` is the editor after it
/// and `res` the operation that undoes it (see `EditState::add_font`).
pub open spec fn add_font_done(es0: EditState, new_font: BitFont, es1: EditState, res: Result<AddFont, EditorError>) -> bool {
    &&& res is Ok <==> es0.buffer.font_mode == FontMode::Unlimited
    &&& res is Err ==> res == Err::<AddFont, EditorError>(EditorError::NotSupportedForBufferType) && es1 == es0
    &&& res matches Ok(op) ==> {
        &&& op.old_font_page == es0.caret.attribute.font_page
        &&& op.font == new_font
        &&& op.new_font_page >= 100
        &&& !es0.buffer.font_table@.contains_key(op.new_font_page)
        &&& forall|k: usize| 100 <= k < op.new_font_page ==> #[trigger] es0.buffer.font_table@.contains_key(k)
        &&& font_put(es0.buffer.font_table@, es1.buffer.font_table@, op.new_font_page, new_font)
        &&& es1 == (EditState {
            buffer: Buffer { font_table: es1.buffer.font_table, is_font_table_dirty: true, ..es0.buffer },
            ..on_font_page(es0, op.new_font_page)
        })
    }
}

/// What `set_font` does to the editor `es0`: `es1` is the editor after it
/// and `res` the operation that undoes it (see `EditState::set_font`).
pub open spec fn set_font_done(es0: EditState, new_font: BitFont, es1: EditState, res: Result<SetFont, EditorError>) -> bool {
    &&& res is Err <==> es0.buffer.font_mode == FontMode::Sauce
    &&& res is Err ==> res == Err::<SetFont, EditorError>(EditorError::NotSupportedForSauceBuffers) && es1 == es0
    &&& res matches Ok(op) ==> {
        &&& op.font_page == if es0.buffer.font_mode == FontMode::Single { 0 } else { es0.caret.attribute.font_page }
        &&& same_font(op.old, es0.buffer.font_table@[0])
        &&& op.new == new_font
        &&& font_put(es0.buffer.font_table@, es1.buffer.font_table@, op.font_page, new_font)
        &&& es1 == (EditState {
            buffer: Buffer { font_table: es1.buffer.font_table, is_font_table_dirty: true, ..es0.buffer },
            ..es0
        })
    }
}

} // verus!

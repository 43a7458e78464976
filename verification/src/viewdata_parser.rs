use vstd::prelude::*;

use crate::ansi_parser::ff_effect;
use crate::area_operations::{at, lemma_same_props};
use crate::attributed_char::AttributedChar;
use crate::buffer::{all_cells, same_except_cells, upper_left, Buffer};
use crate::caret::Caret;
use crate::geometry::Position;
use crate::layer::{cells_grown, char_at, layer_cells, same_layer_props, set_char_cells, Layer};
use crate::parser_errors::ParserError;
use crate::line::cells_with_char;
use crate::text_attribute::{default_attribute, TextAttribute};

verus! {

/// Reads the byte stream of a Viewdata (Prestel) terminal.
#[derive(Clone, Copy, Debug)]
pub struct ViewdataParser {
    pub got_esc: bool,
    pub hold_graphics: bool,
    pub held_graphics_character: char,
    pub is_contiguous: bool,
    pub is_in_graphic_mode: bool,
    pub graphics_bg: u32,
    pub alpha_bg: u32,
}

/// The parser as a new row or screen finds it: no escape pending, no held
/// graphics, contiguous graphics, text mode.
pub open spec fn viewdata_reset() -> ViewdataParser {
    ViewdataParser {
        got_esc: false,
        hold_graphics: false,
        held_graphics_character: ' ',
        is_contiguous: true,
        is_in_graphic_mode: false,
        graphics_bg: 0,
        alpha_bg: 0,
    }
}

/// The buffer's width and height, as coordinates.
pub open spec fn vd_width(b: Buffer) -> int {
    b.size.width as int
}

pub open spec fn vd_height(b: Buffer) -> int {
    b.size.height as int
}

/// One row down, back to the top below the last row; a new row resets the
/// parser and the caret's attribute.
pub open spec fn vd_down(b: Buffer, c: Caret) -> (ViewdataParser, Caret) {
    let y = c.pos.y + 1;
    let y1 = if y >= vd_height(b) { 0 } else { y };
    (viewdata_reset(), Caret { pos: Position { x: c.pos.x, y: y1 as i32 }, attribute: default_attribute(), ..c })
}

/// One row up, to the last row above the first.
pub open spec fn vd_up(b: Buffer, c: Caret) -> Caret {
    let y1 = if c.pos.y > 0 { c.pos.y - 1 } else { vd_height(b) - 1 };
    Caret { pos: Position { x: c.pos.x, y: y1 as i32 }, ..c }
}

/// One column right; past the last column to the start of the next row.
pub open spec fn vd_right(b: Buffer, p: ViewdataParser, c: Caret) -> (ViewdataParser, Caret) {
    let x = c.pos.x + 1;
    if x >= vd_width(b) {
        vd_down(b, Caret { pos: Position { x: 0, y: c.pos.y }, ..c })
    } else {
        (p, Caret { pos: Position { x: x as i32, y: c.pos.y }, ..c })
    }
}

/// One column left; before the first column to the end of the row above.
pub open spec fn vd_left(b: Buffer, c: Caret) -> Caret {
    if c.pos.x > 0 {
        Caret { pos: Position { x: (c.pos.x - 1) as i32, y: c.pos.y }, ..c }
    } else {
        vd_up(b, Caret { pos: Position { x: (vd_width(b) - 1) as i32, y: c.pos.y }, ..c })
    }
}

/// What an escaped byte sets before its cell is drawn: a black background
/// (`\`), the foreground as background (`]`), steady (`I`) and normal
/// height (`L`) text, concealed text outside graphics (`X`), contiguous
/// (`Y`) or separated (`Z`) graphics, and held graphics (`^`).
pub open spec fn vd_before(p: ViewdataParser, a: TextAttribute, ch: u8) -> (ViewdataParser, TextAttribute) {
    if !p.got_esc {
        (p, a)
    } else if ch == 0x5c {
        (p, TextAttribute { concealed: false, background_color: 0, ..a })
    } else if ch == 0x5d {
        (p, TextAttribute { background_color: a.foreground_color, ..a })
    } else if ch == 0x49 {
        (p, TextAttribute { blink: false, ..a })
    } else if ch == 0x4c {
        (p, TextAttribute { double_height: false, ..a })
    } else if ch == 0x58 {
        (p, if !p.is_in_graphic_mode { TextAttribute { concealed: true, ..a } } else { a })
    } else if ch == 0x59 {
        (ViewdataParser { is_contiguous: true, is_in_graphic_mode: true, ..p }, a)
    } else if ch == 0x5a {
        (ViewdataParser { is_contiguous: false, ..p }, a)
    } else if ch == 0x5e {
        (ViewdataParser { hold_graphics: true, is_in_graphic_mode: true, ..p }, a)
    } else {
        (p, a)
    }
}

/// The code drawn for byte `ch`: escaped bytes and control bytes draw the
/// held graphics character (a space without held graphics); in graphics
/// mode the bytes `0x20..0x40` and `0x60..0x80` become the block graphics
/// from `0x80` (contiguous) or `0xC0` (separated) on, and what is drawn
/// becomes the held character.
pub open spec fn vd_code(p: ViewdataParser, ch: u8) -> (u8, ViewdataParser) {
    let p1 = if !p.hold_graphics { ViewdataParser { held_graphics_character: ' ', ..p } } else { p };
    if p1.got_esc || ch < 0x20 {
        (if p1.hold_graphics { p1.held_graphics_character as u8 } else { 0x20 }, p1)
    } else if p1.is_in_graphic_mode {
        let code: int = if (0x20 <= ch < 0x40) || (0x60 <= ch < 0x80) {
            (if ch < 0x40 { ch - 0x20 } else { ch - 0x40 }) + (if p1.is_contiguous { 0x80int } else { 0xC0int })
        } else {
            ch as int
        };
        (code as u8, ViewdataParser { held_graphics_character: (code as u8) as char, ..p1 })
    } else {
        (ch, p1)
    }
}

/// What an escaped byte sets after its cell was drawn: alphanumeric colors
/// (`A` to `G`, leaving graphics), graphics colors (`Q` to `W`), blinking
/// (`H`), double height (`M`) and released graphics (`_`).
pub open spec fn vd_after(p: ViewdataParser, a: TextAttribute, ch: u8) -> (ViewdataParser, TextAttribute) {
    if 0x41 <= ch <= 0x47 {
        (
            ViewdataParser { is_in_graphic_mode: false, held_graphics_character: ' ', ..p },
            TextAttribute { concealed: false, foreground_color: (1 + ch - 0x41) as u32, ..a },
        )
    } else if 0x51 <= ch <= 0x57 {
        (
            if !p.is_in_graphic_mode {
                ViewdataParser { is_in_graphic_mode: true, held_graphics_character: ' ', ..p }
            } else {
                p
            },
            TextAttribute { concealed: false, foreground_color: (1 + ch - 0x51) as u32, ..a },
        )
    } else if ch == 0x48 {
        (p, TextAttribute { blink: true, ..a })
    } else if ch == 0x4d {
        (p, TextAttribute { double_height: true, ..a })
    } else if ch == 0x5f {
        (ViewdataParser { hold_graphics: false, ..p }, a)
    } else {
        (p, a)
    }
}

/// The first layer's rows become `cells`; nothing else of the buffer
/// changes.
pub open spec fn first_layer_set(b0: Buffer, b1: Buffer, cells: Seq<Seq<AttributedChar>>) -> bool {
    &&& same_except_cells(b0, b1)
    &&& all_cells(b1) == all_cells(b0).update(0, cells)
}

/// What a printable byte does: the escaped attributes before drawing, the
/// drawn cell written at the caret on the first layer in the caret's
/// attribute, the caret one column on, the escaped attributes after
/// drawing (where the parser still has an escape pending), and no escape
/// pending afterwards.
pub open spec fn vd_interpret(
    p0: ViewdataParser,
    b0: Buffer,
    c0: Caret,
    ch: u8,
    p1: ViewdataParser,
    b1: Buffer,
    c1: Caret,
) -> bool {
    let (pa, a) = vd_before(p0, c0.attribute, ch);
    let (code, pb) = vd_code(pa, ch);
    let cm = Caret { attribute: a, ..c0 };
    let l = b0.layers@[0];
    let (pc, cc) = vd_right(b0, pb, cm);
    let (pd, ad) = if pc.got_esc { vd_after(pc, cc.attribute, ch) } else { (pc, cc.attribute) };
    &&& first_layer_set(b0, b1, set_char_cells(l, layer_cells(l), cm.pos, AttributedChar::spec_new(code as char, a)))
    &&& p1 == ViewdataParser { got_esc: false, ..pd }
    &&& c1 == Caret { attribute: ad, ..cc }
}

/// The rows of layer `l` after the `n` cells of row `y` from column `x0`
/// on, left to right, took the attribute `attr`, each through `set_char`.
pub open spec fn recolored(l: Layer, cells: Seq<Seq<AttributedChar>>, y: int, x0: int, n: nat, attr: TextAttribute) -> Seq<
    Seq<AttributedChar>,
>
    decreases n,
{
    if n == 0 {
        cells
    } else {
        let prev = recolored(l, cells, y, x0, (n - 1) as nat, attr);
        let p = at(x0 + n - 1, y);
        set_char_cells(l, prev, p, AttributedChar { attribute: attr, ..char_at(l, prev, p) })
    }
}

/// The first layer's rows after the caret's row was filled to its end with
/// the attribute of the cell left of the caret; nothing at the first
/// column.
pub open spec fn vd_filled(b: Buffer, c: Caret) -> Seq<Seq<AttributedChar>> {
    let l = b.layers@[0];
    let cells = layer_cells(l);
    if c.pos.x <= 0 || c.pos.x >= vd_width(b) {
        cells
    } else {
        let attr = char_at(l, cells, at(c.pos.x - 1, c.pos.y as int)).attribute;
        recolored(l, cells, c.pos.y as int, c.pos.x as int, (vd_width(b) - c.pos.x) as nat, attr)
    }
}

/// What byte `ch` does. Control bytes: 8 to 11 move the caret left, right,
/// down and up; 12 clears the screen and resets the parser; 13 fills the
/// row to its end and returns the caret; 17 and 20 show and hide the caret;
/// 27 starts an escape; 30 brings the caret home; 14, 15, 28 and 29 are
/// passed over with an escape left pending; the other controls are passed
/// over. Bytes from 32 on are drawn (`vd_interpret`).
pub open spec fn viewdata_step(
    p0: ViewdataParser,
    b0: Buffer,
    c0: Caret,
    ch: u8,
    p1: ViewdataParser,
    b1: Buffer,
    c1: Caret,
) -> bool {
    let done = ViewdataParser { got_esc: false, ..p0 };
    if ch >= 0x20 {
        vd_interpret(p0, b0, c0, ch, p1, b1, c1)
    } else if ch == 0x1b {
        p1 == ViewdataParser { got_esc: true, ..p0 } && b1 == b0 && c1 == c0
    } else if ch == 0x0e || ch == 0x0f || ch == 0x1c || ch == 0x1d {
        p1 == p0 && b1 == b0 && c1 == c0
    } else if ch == 0x08 {
        p1 == done && b1 == b0 && c1 == vd_left(b0, c0)
    } else if ch == 0x09 {
        let (p, c) = vd_right(b0, p0, c0);
        p1 == ViewdataParser { got_esc: false, ..p } && b1 == b0 && c1 == c
    } else if ch == 0x0a {
        let (p, c) = vd_down(b0, c0);
        p1 == p && b1 == b0 && c1 == c
    } else if ch == 0x0b {
        p1 == done && b1 == b0 && c1 == vd_up(b0, c0)
    } else if ch == 0x0c {
        p1 == viewdata_reset() && ff_effect(b0, c0, b1, c1)
    } else if ch == 0x0d {
        &&& p1 == done
        &&& first_layer_set(b0, b1, vd_filled(b0, c0))
        &&& c1 == Caret { pos: Position { x: 0, y: c0.pos.y }, ..c0 }
    } else if ch == 0x11 {
        p1 == done && b1 == b0 && c1 == Caret { is_visible: true, ..c0 }
    } else if ch == 0x14 {
        p1 == done && b1 == b0 && c1 == Caret { is_visible: false, ..c0 }
    } else if ch == 0x1e {
        p1 == done && b1 == b0 && c1 == Caret { pos: upper_left(b0), ..c0 }
    } else {
        p1 == done && b1 == b0 && c1 == c0
    }
}

/// The buffer's sizes and the caret's position leave room for every move.
pub open spec fn viewdata_fits(b: Buffer, c: Caret) -> bool {
    &&& b.layers@.len() > 0
    &&& b.size.width <= i32::MAX
    &&& b.size.height <= i32::MAX
    &&& c.pos.x < i32::MAX
    &&& c.pos.y < i32::MAX
}

impl Layer {
    /// Gives the `x1 - x0` cells of row `y` from `x0` on the attribute
    /// `attr`; see `recolored`.
    fn recolor_row(&mut self, y: i32, x0: i32, x1: i32, attr: TextAttribute)
        requires
            x0 <= x1,
        ensures
            same_layer_props(*final(self), *old(self)),
            layer_cells(*final(self)) == recolored(
                *old(self),
                layer_cells(*old(self)),
                y as int,
                x0 as int,
                (x1 - x0) as nat,
                attr,
            ),
    {
        let ghost l0 = *self;
        let mut x = x0;
        while x < x1
            invariant
                x0 <= x <= x1,
                same_layer_props(*self, l0),
                layer_cells(*self) == recolored(l0, layer_cells(l0), y as int, x0 as int, (x - x0) as nat, attr),
            decreases x1 - x,
        {
            let ghost cur = layer_cells(*self);
            let p = Position::new(x, y);
            let mut ch = self.get_char(p);
            ch.attribute = attr;
            proof {
                lemma_same_props(*self, l0, cur, p, ch);
            }
            self.set_char(p, ch);
            x += 1;
        }
    }
}

impl ViewdataParser {
    pub fn new() -> (res: Self)
        ensures
            res == viewdata_reset(),
    {
        ViewdataParser {
            got_esc: false,
            hold_graphics: false,
            held_graphics_character: ' ',
            is_contiguous: true,
            is_in_graphic_mode: false,
            graphics_bg: 0,
            alpha_bg: 0,
        }
    }

    fn reset_screen(&mut self)
        ensures
            *final(self) == viewdata_reset(),
    {
        *self = ViewdataParser::new();
    }

    fn caret_down(&mut self, buf: &Buffer, caret: &mut Caret)
        requires
            old(caret).pos.y < i32::MAX,
            buf.size.height <= i32::MAX,
        ensures
            (*final(self), *final(caret)) == vd_down(*buf, *old(caret)),
    {
        caret.pos.y = caret.pos.y + 1;
        if caret.pos.y as i64 >= buf.size.height as i64 {
            caret.pos.y = 0;
        }
        self.reset_screen();
        caret.attribute = TextAttribute::new_default();
    }

    fn caret_up(&self, buf: &Buffer, caret: &mut Caret)
        requires
            buf.size.height <= i32::MAX,
        ensures
            *final(caret) == vd_up(*buf, *old(caret)),
    {
        if caret.pos.y > 0 {
            caret.pos.y = caret.pos.y - 1;
        } else {
            caret.pos.y = (buf.size.height as i64 - 1) as i32;
        }
    }

    fn caret_right(&mut self, buf: &Buffer, caret: &mut Caret)
        requires
            old(caret).pos.x < i32::MAX,
            old(caret).pos.y < i32::MAX,
            buf.size.width <= i32::MAX,
            buf.size.height <= i32::MAX,
        ensures
            (*final(self), *final(caret)) == vd_right(*buf, *old(self), *old(caret)),
    {
        caret.pos.x = caret.pos.x + 1;
        if caret.pos.x as i64 >= buf.size.width as i64 {
            caret.pos.x = 0;
            self.caret_down(buf, caret);
        }
    }

    fn caret_left(&self, buf: &Buffer, caret: &mut Caret)
        requires
            buf.size.width <= i32::MAX,
            buf.size.height <= i32::MAX,
        ensures
            *final(caret) == vd_left(*buf, *old(caret)),
    {
        if caret.pos.x > 0 {
            caret.pos.x = caret.pos.x - 1;
        } else {
            caret.pos.x = (buf.size.width as i64 - 1) as i32;
            self.caret_up(buf, caret);
        }
    }

    /// Fills the caret's row to its end with the attribute of the cell
    /// left of the caret; see `vd_filled`.
    fn fill_to_eol(&self, buf: &mut Buffer, caret: &Caret)
        requires
            old(buf).layers@.len() > 0,
            old(buf).size.width <= i32::MAX,
        ensures
            first_layer_set(*old(buf), *final(buf), vd_filled(*old(buf), *caret)),
    {
        let ghost cs = all_cells(*buf);
        let ghost ls = buf.layers@;
        let w = buf.size.width as i32;
        if caret.pos.x <= 0 || caret.pos.x >= w {
            assert(all_cells(*buf) =~= cs.update(0, layer_cells(buf.layers@[0])));
            return;
        }
        let attr = buf.layers[0].get_char(Position::new(caret.pos.x - 1, caret.pos.y)).attribute;
        buf.layers[0].recolor_row(caret.pos.y, caret.pos.x, w, attr);
        proof {
            assert forall|k: int| 0 <= k < ls.len() && k != 0 implies buf.layers@[k] == ls[k] by {}
            assert(all_cells(*buf) =~= cs.update(0, layer_cells(buf.layers@[0])));
        }
    }

    fn before(&mut self, attr: &mut TextAttribute, ch: u8)
        ensures
            (*final(self), *final(attr)) == vd_before(*old(self), *old(attr), ch),
    {
        if !self.got_esc {
            return;
        }
        if ch == 0x5c {
            attr.set_is_concealed(false);
            attr.set_background(0);
        } else if ch == 0x5d {
            let fg = attr.get_foreground();
            attr.set_background(fg);
        } else if ch == 0x49 {
            attr.set_is_blinking(false);
        } else if ch == 0x4c {
            attr.double_height = false;
        } else if ch == 0x58 {
            if !self.is_in_graphic_mode {
                attr.set_is_concealed(true);
            }
        } else if ch == 0x59 {
            self.is_contiguous = true;
            self.is_in_graphic_mode = true;
        } else if ch == 0x5a {
            self.is_contiguous = false;
        } else if ch == 0x5e {
            self.hold_graphics = true;
            self.is_in_graphic_mode = true;
        }
    }

    fn code(&mut self, ch: u8) -> (res: u8)
        ensures
            (res, *final(self)) == vd_code(*old(self), ch),
    {
        if !self.hold_graphics {
            self.held_graphics_character = ' ';
        }
        let mut print_ch = ch;
        if self.got_esc || ch < 0x20 {
            print_ch = if self.hold_graphics { self.held_graphics_character as u32 as u8 } else { 0x20 };
        } else if self.is_in_graphic_mode {
            if (0x20 <= ch && ch < 0x40) || (0x60 <= ch && ch < 0x80) {
                if print_ch < 0x40 {
                    print_ch = print_ch - 0x20;
                } else {
                    print_ch = print_ch - 0x40;
                }
                if self.is_contiguous {
                    print_ch = print_ch + 0x80;
                } else {
                    print_ch = print_ch + 0xC0;
                }
            }
            self.held_graphics_character = print_ch as char;
        }
        print_ch
    }

    fn after(&mut self, attr: &mut TextAttribute, ch: u8)
        ensures
            (*final(self), *final(attr)) == vd_after(*old(self), *old(attr), ch),
    {
        if 0x41 <= ch && ch <= 0x47 {
            self.is_in_graphic_mode = false;
            attr.set_is_concealed(false);
            self.held_graphics_character = ' ';
            attr.set_foreground(1 + (ch - 0x41) as u32);
        } else if 0x51 <= ch && ch <= 0x57 {
            if !self.is_in_graphic_mode {
                self.is_in_graphic_mode = true;
                self.held_graphics_character = ' ';
            }
            attr.set_is_concealed(false);
            attr.set_foreground(1 + (ch - 0x51) as u32);
        } else if ch == 0x48 {
            attr.set_is_blinking(true);
        } else if ch == 0x4d {
            attr.double_height = true;
        } else if ch == 0x5f {
            self.hold_graphics = false;
        }
    }

    /// Draws byte `ch` at the caret; see `vd_interpret`.
    fn interpret_char(&mut self, buf: &mut Buffer, caret: &mut Caret, ch: u8)
        requires
            viewdata_fits(*old(buf), *old(caret)),
            ch >= 0x20,
        ensures
            vd_interpret(*old(self), *old(buf), *old(caret), ch, *final(self), *final(buf), *final(caret)),
    {
        let mut attr = caret.attribute;
        self.before(&mut attr, ch);
        caret.attribute = attr;
        let print_ch = self.code(ch);
        let ach = AttributedChar::new(print_ch as char, caret.attribute);
        let ghost ls = buf.layers@;
        let ghost cs = all_cells(*buf);
        buf.layers[0].set_char(caret.pos, ach);
        proof {
            assert forall|k: int| 0 <= k < ls.len() && k != 0 implies buf.layers@[k] == ls[k] by {}
            assert(all_cells(*buf) =~= cs.update(0, layer_cells(buf.layers@[0])));
        }
        self.caret_right(buf, caret);
        if self.got_esc {
            let mut attr = caret.attribute;
            self.after(&mut attr, ch);
            caret.attribute = attr;
        }
        self.got_esc = false;
    }

    /// Interprets byte `ch` (the low byte of the character); see
    /// `viewdata_step`. Nothing is answered.
    pub fn print_char(&mut self, buf: &mut Buffer, caret: &mut Caret, ch: char) -> (res: Result<Option<String>, ParserError>)
        requires
            viewdata_fits(*old(buf), *old(caret)),
        ensures
            res == Ok::<Option<String>, ParserError>(None),
            viewdata_step(*old(self), *old(buf), *old(caret), (ch as u32 % 256) as u8, *final(self), *final(buf), *final(caret)),
    {
        let ch = (ch as u32 % 256) as u8;
        if ch >= 0x20 {
            self.interpret_char(buf, caret, ch);
            return Ok(None);
        }
        if ch == 0x1b {
            self.got_esc = true;
            return Ok(None);
        }
        if ch == 0x0e || ch == 0x0f || ch == 0x1c || ch == 0x1d {
            return Ok(None);
        }
        if ch == 0x08 {
            self.caret_left(buf, caret);
        } else if ch == 0x09 {
            self.caret_right(buf, caret);
        } else if ch == 0x0a {
            self.caret_down(buf, caret);
        } else if ch == 0x0b {
            self.caret_up(buf, caret);
        } else if ch == 0x0c {
            caret.ff(buf);
            self.reset_screen();
        } else if ch == 0x0d {
            self.fill_to_eol(buf, caret);
            caret.cr(buf);
        } else if ch == 0x11 {
            caret.is_visible = true;
        } else if ch == 0x14 {
            caret.is_visible = false;
        } else if ch == 0x1e {
            caret.home(buf);
        }
        self.got_esc = false;
        Ok(None)
    }
}

/// The character that Viewdata code `b` stands for.
pub open spec fn viewdata_char(b: u8) -> char {
    match b {
        0 => ' ',
        1 => ' ',
        2 => ' ',
        3 => ' ',
        4 => ' ',
        5 => ' ',
        6 => ' ',
        7 => ' ',
        8 => ' ',
        9 => ' ',
        10 => ' ',
        11 => ' ',
        12 => ' ',
        13 => ' ',
        14 => ' ',
        15 => ' ',
        16 => ' ',
        17 => ' ',
        18 => ' ',
        19 => ' ',
        20 => ' ',
        21 => ' ',
        22 => ' ',
        23 => ' ',
        24 => ' ',
        25 => ' ',
        26 => ' ',
        27 => ' ',
        28 => ' ',
        29 => ' ',
        30 => ' ',
        31 => ' ',
        32 => ' ',
        33 => '!',
        34 => '"',
        35 => 'f',
        36 => '$',
        37 => '%',
        38 => '&',
        39 => '\'',
        40 => '(',
        41 => ')',
        42 => '*',
        43 => '+',
        44 => ',',
        45 => '-',
        46 => '.',
        47 => '/',
        48 => '0',
        49 => '1',
        50 => '2',
        51 => '3',
        52 => '4',
        53 => '5',
        54 => '6',
        55 => '7',
        56 => '8',
        57 => '9',
        58 => ':',
        59 => ';',
        60 => '<',
        61 => '=',
        62 => '>',
        63 => '?',
        64 => '@',
        65 => 'A',
        66 => 'B',
        67 => 'C',
        68 => 'D',
        69 => 'E',
        70 => 'F',
        71 => 'G',
        72 => 'H',
        73 => 'I',
        74 => 'J',
        75 => 'K',
        76 => 'L',
        77 => 'M',
        78 => 'N',
        79 => 'O',
        80 => 'P',
        81 => 'Q',
        82 => 'R',
        83 => 'S',
        84 => 'T',
        85 => 'U',
        86 => 'V',
        87 => 'W',
        88 => 'X',
        89 => 'Y',
        90 => 'Z',
        91 => '\u{2190}',
        92 => '\u{bd}',
        93 => '\u{2192}',
        94 => '\u{2191}',
        95 => '#',
        96 => '\u{23af}',
        97 => 'a',
        98 => 'b',
        99 => 'c',
        100 => 'd',
        101 => 'e',
        102 => 'f',
        103 => 'g',
        104 => 'h',
        105 => 'i',
        106 => 'j',
        107 => 'k',
        108 => 'l',
        109 => 'm',
        110 => 'n',
        111 => 'o',
        112 => 'p',
        113 => 'q',
        114 => 'r',
        115 => 's',
        116 => 't',
        117 => 'u',
        118 => 'v',
        119 => 'w',
        120 => 'x',
        121 => 'y',
        122 => 'z',
        123 => '\u{bc}',
        124 => '\u{23f8}',
        125 => '\u{be}',
        126 => '\u{f7}',
        127 => '\u{2589}',
        128 => ' ',
        129 => '\u{1fb00}',
        130 => '\u{1fb01}',
        131 => '\u{1fb02}',
        132 => '\u{1fb03}',
        133 => '\u{1fb04}',
        134 => '\u{1fb05}',
        135 => '\u{1fb06}',
        136 => '\u{1fb07}',
        137 => '\u{1fb08}',
        138 => '\u{1fb09}',
        139 => '\u{1fb0a}',
        140 => '\u{1fb0b}',
        141 => '\u{1fb0c}',
        142 => '\u{1fb0d}',
        143 => '\u{1fb0e}',
        144 => '\u{1fb0f}',
        145 => '\u{1fb10}',
        146 => '\u{1fb11}',
        147 => '\u{1fb12}',
        148 => '\u{1fb13}',
        149 => '\u{258c}',
        150 => '\u{1fb14}',
        151 => '\u{1fb15}',
        152 => '\u{1fb16}',
        153 => '\u{1fb17}',
        154 => '\u{1fb18}',
        155 => '\u{1fb19}',
        156 => '\u{1fb1a}',
        157 => '\u{1fb1b}',
        158 => '\u{1fb1c}',
        159 => '\u{1fb1d}',
        160 => '\u{1fb1e}',
        161 => '\u{1fb1f}',
        162 => '\u{1fb20}',
        163 => '\u{1fb21}',
        164 => '\u{1fb22}',
        165 => '\u{1fb23}',
        166 => '\u{1fb24}',
        167 => '\u{1fb25}',
        168 => '\u{1fb26}',
        169 => '\u{1fb27}',
        170 => '\u{2590}',
        171 => '\u{1fb28}',
        172 => '\u{1fb29}',
        173 => '\u{1fb2a}',
        174 => '\u{1fb2b}',
        175 => '\u{1fb2c}',
        176 => '\u{1fb2d}',
        177 => '\u{1fb2e}',
        178 => '\u{1fb2f}',
        179 => '\u{1fb30}',
        180 => '\u{1fb31}',
        181 => '\u{1fb32}',
        182 => '\u{1fb33}',
        183 => '\u{1fb34}',
        184 => '\u{1fb35}',
        185 => '\u{1fb36}',
        186 => '\u{1fb37}',
        187 => '\u{1fb38}',
        188 => '\u{1fb39}',
        189 => '\u{1fb3a}',
        190 => '\u{1fb3b}',
        191 => '\u{2588}',
        192 => ' ',
        193 => '\u{1fb00}',
        194 => '\u{1fb01}',
        195 => '\u{1fb02}',
        196 => '\u{1fb03}',
        197 => '\u{1fb04}',
        198 => '\u{1fb05}',
        199 => '\u{1fb06}',
        200 => '\u{1fb07}',
        201 => '\u{1fb08}',
        202 => '\u{1fb09}',
        203 => '\u{1fb0a}',
        204 => '\u{1fb0b}',
        205 => '\u{1fb0c}',
        206 => '\u{1fb0d}',
        207 => '\u{1fb0e}',
        208 => '\u{1fb0f}',
        209 => '\u{1fb10}',
        210 => '\u{1fb11}',
        211 => '\u{1fb12}',
        212 => '\u{1fb13}',
        213 => '\u{258c}',
        214 => '\u{1fb14}',
        215 => '\u{1fb15}',
        216 => '\u{1fb16}',
        217 => '\u{1fb17}',
        218 => '\u{1fb18}',
        219 => '\u{1fb19}',
        220 => '\u{1fb1a}',
        221 => '\u{1fb1b}',
        222 => '\u{1fb1c}',
        223 => '\u{1fb1d}',
        224 => '\u{1fb1e}',
        225 => '\u{1fb1f}',
        226 => '\u{1fb20}',
        227 => '\u{1fb21}',
        228 => '\u{1fb22}',
        229 => '\u{1fb23}',
        230 => '\u{1fb24}',
        231 => '\u{1fb25}',
        232 => '\u{1fb26}',
        233 => '\u{1fb27}',
        234 => '\u{2590}',
        235 => '\u{1fb28}',
        236 => '\u{1fb29}',
        237 => '\u{1fb2a}',
        238 => '\u{1fb2b}',
        239 => '\u{1fb2c}',
        240 => '\u{1fb2d}',
        241 => '\u{1fb2e}',
        242 => '\u{1fb2f}',
        243 => '\u{1fb30}',
        244 => '\u{1fb31}',
        245 => '\u{1fb32}',
        246 => '\u{1fb33}',
        247 => '\u{1fb34}',
        248 => '\u{1fb35}',
        249 => '\u{1fb36}',
        250 => '\u{1fb37}',
        251 => '\u{1fb38}',
        252 => '\u{1fb39}',
        253 => '\u{1fb3a}',
        254 => '\u{1fb3b}',
        _ => '\u{2588}',
    }
}

/// The character that Viewdata code `b` stands for.
pub fn viewdata_to_unicode(b: u8) -> (res: char)
    ensures
        res == viewdata_char(b),
{
    match b {
        0 => ' ',
        1 => ' ',
        2 => ' ',
        3 => ' ',
        4 => ' ',
        5 => ' ',
        6 => ' ',
        7 => ' ',
        8 => ' ',
        9 => ' ',
        10 => ' ',
        11 => ' ',
        12 => ' ',
        13 => ' ',
        14 => ' ',
        15 => ' ',
        16 => ' ',
        17 => ' ',
        18 => ' ',
        19 => ' ',
        20 => ' ',
        21 => ' ',
        22 => ' ',
        23 => ' ',
        24 => ' ',
        25 => ' ',
        26 => ' ',
        27 => ' ',
        28 => ' ',
        29 => ' ',
        30 => ' ',
        31 => ' ',
        32 => ' ',
        33 => '!',
        34 => '"',
        35 => 'f',
        36 => '$',
        37 => '%',
        38 => '&',
        39 => '\'',
        40 => '(',
        41 => ')',
        42 => '*',
        43 => '+',
        44 => ',',
        45 => '-',
        46 => '.',
        47 => '/',
        48 => '0',
        49 => '1',
        50 => '2',
        51 => '3',
        52 => '4',
        53 => '5',
        54 => '6',
        55 => '7',
        56 => '8',
        57 => '9',
        58 => ':',
        59 => ';',
        60 => '<',
        61 => '=',
        62 => '>',
        63 => '?',
        64 => '@',
        65 => 'A',
        66 => 'B',
        67 => 'C',
        68 => 'D',
        69 => 'E',
        70 => 'F',
        71 => 'G',
        72 => 'H',
        73 => 'I',
        74 => 'J',
        75 => 'K',
        76 => 'L',
        77 => 'M',
        78 => 'N',
        79 => 'O',
        80 => 'P',
        81 => 'Q',
        82 => 'R',
        83 => 'S',
        84 => 'T',
        85 => 'U',
        86 => 'V',
        87 => 'W',
        88 => 'X',
        89 => 'Y',
        90 => 'Z',
        91 => '\u{2190}',
        92 => '\u{bd}',
        93 => '\u{2192}',
        94 => '\u{2191}',
        95 => '#',
        96 => '\u{23af}',
        97 => 'a',
        98 => 'b',
        99 => 'c',
        100 => 'd',
        101 => 'e',
        102 => 'f',
        103 => 'g',
        104 => 'h',
        105 => 'i',
        106 => 'j',
        107 => 'k',
        108 => 'l',
        109 => 'm',
        110 => 'n',
        111 => 'o',
        112 => 'p',
        113 => 'q',
        114 => 'r',
        115 => 's',
        116 => 't',
        117 => 'u',
        118 => 'v',
        119 => 'w',
        120 => 'x',
        121 => 'y',
        122 => 'z',
        123 => '\u{bc}',
        124 => '\u{23f8}',
        125 => '\u{be}',
        126 => '\u{f7}',
        127 => '\u{2589}',
        128 => ' ',
        129 => '\u{1fb00}',
        130 => '\u{1fb01}',
        131 => '\u{1fb02}',
        132 => '\u{1fb03}',
        133 => '\u{1fb04}',
        134 => '\u{1fb05}',
        135 => '\u{1fb06}',
        136 => '\u{1fb07}',
        137 => '\u{1fb08}',
        138 => '\u{1fb09}',
        139 => '\u{1fb0a}',
        140 => '\u{1fb0b}',
        141 => '\u{1fb0c}',
        142 => '\u{1fb0d}',
        143 => '\u{1fb0e}',
        144 => '\u{1fb0f}',
        145 => '\u{1fb10}',
        146 => '\u{1fb11}',
        147 => '\u{1fb12}',
        148 => '\u{1fb13}',
        149 => '\u{258c}',
        150 => '\u{1fb14}',
        151 => '\u{1fb15}',
        152 => '\u{1fb16}',
        153 => '\u{1fb17}',
        154 => '\u{1fb18}',
        155 => '\u{1fb19}',
        156 => '\u{1fb1a}',
        157 => '\u{1fb1b}',
        158 => '\u{1fb1c}',
        159 => '\u{1fb1d}',
        160 => '\u{1fb1e}',
        161 => '\u{1fb1f}',
        162 => '\u{1fb20}',
        163 => '\u{1fb21}',
        164 => '\u{1fb22}',
        165 => '\u{1fb23}',
        166 => '\u{1fb24}',
        167 => '\u{1fb25}',
        168 => '\u{1fb26}',
        169 => '\u{1fb27}',
        170 => '\u{2590}',
        171 => '\u{1fb28}',
        172 => '\u{1fb29}',
        173 => '\u{1fb2a}',
        174 => '\u{1fb2b}',
        175 => '\u{1fb2c}',
        176 => '\u{1fb2d}',
        177 => '\u{1fb2e}',
        178 => '\u{1fb2f}',
        179 => '\u{1fb30}',
        180 => '\u{1fb31}',
        181 => '\u{1fb32}',
        182 => '\u{1fb33}',
        183 => '\u{1fb34}',
        184 => '\u{1fb35}',
        185 => '\u{1fb36}',
        186 => '\u{1fb37}',
        187 => '\u{1fb38}',
        188 => '\u{1fb39}',
        189 => '\u{1fb3a}',
        190 => '\u{1fb3b}',
        191 => '\u{2588}',
        192 => ' ',
        193 => '\u{1fb00}',
        194 => '\u{1fb01}',
        195 => '\u{1fb02}',
        196 => '\u{1fb03}',
        197 => '\u{1fb04}',
        198 => '\u{1fb05}',
        199 => '\u{1fb06}',
        200 => '\u{1fb07}',
        201 => '\u{1fb08}',
        202 => '\u{1fb09}',
        203 => '\u{1fb0a}',
        204 => '\u{1fb0b}',
        205 => '\u{1fb0c}',
        206 => '\u{1fb0d}',
        207 => '\u{1fb0e}',
        208 => '\u{1fb0f}',
        209 => '\u{1fb10}',
        210 => '\u{1fb11}',
        211 => '\u{1fb12}',
        212 => '\u{1fb13}',
        213 => '\u{258c}',
        214 => '\u{1fb14}',
        215 => '\u{1fb15}',
        216 => '\u{1fb16}',
        217 => '\u{1fb17}',
        218 => '\u{1fb18}',
        219 => '\u{1fb19}',
        220 => '\u{1fb1a}',
        221 => '\u{1fb1b}',
        222 => '\u{1fb1c}',
        223 => '\u{1fb1d}',
        224 => '\u{1fb1e}',
        225 => '\u{1fb1f}',
        226 => '\u{1fb20}',
        227 => '\u{1fb21}',
        228 => '\u{1fb22}',
        229 => '\u{1fb23}',
        230 => '\u{1fb24}',
        231 => '\u{1fb25}',
        232 => '\u{1fb26}',
        233 => '\u{1fb27}',
        234 => '\u{2590}',
        235 => '\u{1fb28}',
        236 => '\u{1fb29}',
        237 => '\u{1fb2a}',
        238 => '\u{1fb2b}',
        239 => '\u{1fb2c}',
        240 => '\u{1fb2d}',
        241 => '\u{1fb2e}',
        242 => '\u{1fb2f}',
        243 => '\u{1fb30}',
        244 => '\u{1fb31}',
        245 => '\u{1fb32}',
        246 => '\u{1fb33}',
        247 => '\u{1fb34}',
        248 => '\u{1fb35}',
        249 => '\u{1fb36}',
        250 => '\u{1fb37}',
        251 => '\u{1fb38}',
        252 => '\u{1fb39}',
        253 => '\u{1fb3a}',
        254 => '\u{1fb3b}',
        _ => '\u{2588}',
    }
}

impl ViewdataParser {
    /// The character for `ch` on a Viewdata terminal: a space stays; else
    /// the character of the highest code that stands for `ch`, `ch` itself
    /// where none does.
    pub fn from_unicode(&self, ch: char) -> (res: char)
        ensures
            ch == ' ' ==> res == ' ',
            ch != ' ' && (exists|a: u8| viewdata_char(a) == ch) ==> (res as u32) < 256 && viewdata_char(res as u8) == ch
                && forall|b: u8| b > res as u32 ==> viewdata_char(b) != ch,
            ch != ' ' && !(exists|a: u8| viewdata_char(a) == ch) ==> res == ch,
    {
        if ch == ' ' {
            return ' ';
        }
        let mut a: u32 = 256;
        while a > 0
            invariant
                a <= 256,
                ch != ' ',
                forall|b: u8| b >= a ==> viewdata_char(b) != ch,
            decreases a,
        {
            a -= 1;
            if viewdata_to_unicode(a as u8) == ch {
                return (a as u8) as char;
            }
        }
        ch
    }

    /// The character that code `ch` stands for where it is below 256, `ch`
    /// itself otherwise.
    pub fn to_unicode(&self, ch: char) -> (res: char)
        ensures
            (ch as u32) < 256 ==> res == viewdata_char(ch as u8),
            (ch as u32) >= 256 ==> res == ch,
    {
        if (ch as u32) < 256 {
            viewdata_to_unicode(ch as u32 as u8)
        } else {
            ch
        }
    }
}


/// Escaped attribute bytes at the caret, drawn before the cell: `]` (new
/// background) sets the background to the current foreground, `\` (black
/// background) sets it to black (0) and ends concealing, `I` ends blinking,
/// `L` ends double height, `X` conceals outside graphics mode; `Y` and `Z`
/// select contiguous (entering graphics mode) and separated graphics, `^`
/// holds graphics (entering graphics mode). The cell drawn at the caret, and
/// the caret after it where the row goes on, carry the attribute so set,
/// every other field of it as it was; the caret moves one column on, and no
/// escape is left pending.
pub proof fn law_vd_escaped_attributes(
    p0: ViewdataParser,
    b0: Buffer,
    c0: Caret,
    ch: u8,
    p1: ViewdataParser,
    b1: Buffer,
    c1: Caret,
)
    requires
        p0.got_esc,
        ch == 0x5d || ch == 0x5c || ch == 0x49 || ch == 0x4c || ch == 0x58 || ch == 0x59 || ch == 0x5a || ch == 0x5e,
        b0.layers@.len() > 0,
        !b0.layers@[0].is_locked,
        b0.layers@[0].is_visible,
        !b0.layers@[0].has_alpha_channel,
        0 <= b0.layers@[0].offset.x <= c0.pos.x,
        0 <= b0.layers@[0].offset.y <= c0.pos.y,
        viewdata_step(p0, b0, c0, ch, p1, b1, c1),
    ensures
        ({
            let a0 = c0.attribute;
            let a = if ch == 0x5d {
                TextAttribute { background_color: a0.foreground_color, ..a0 }
            } else if ch == 0x5c {
                TextAttribute { concealed: false, background_color: 0, ..a0 }
            } else if ch == 0x49 {
                TextAttribute { blink: false, ..a0 }
            } else if ch == 0x4c {
                TextAttribute { double_height: false, ..a0 }
            } else if ch == 0x58 && !p0.is_in_graphic_mode {
                TextAttribute { concealed: true, ..a0 }
            } else {
                a0
            };
            let l = b0.layers@[0];
            let x = c0.pos.x - l.offset.x;
            let y = c0.pos.y - l.offset.y;
            &&& all_cells(b1)[0][y][x].attribute == a
            &&& c0.pos.x + 1 < vd_width(b0) ==> {
                &&& c1.attribute == a
                &&& c1.pos == (Position { x: (c0.pos.x + 1) as i32, y: c0.pos.y })
                &&& ch == 0x59 ==> p1.is_contiguous && p1.is_in_graphic_mode
                &&& ch == 0x5a ==> !p1.is_contiguous && p1.is_in_graphic_mode == p0.is_in_graphic_mode
                &&& ch == 0x5e ==> p1.hold_graphics && p1.is_in_graphic_mode
                &&& ch != 0x59 && ch != 0x5a && ch != 0x5e ==> p1.is_contiguous == p0.is_contiguous
                    && p1.is_in_graphic_mode == p0.is_in_graphic_mode && p1.hold_graphics == p0.hold_graphics
            }
            &&& !p1.got_esc
        }),
{
    let l = b0.layers@[0];
    let x = c0.pos.x - l.offset.x;
    let y = c0.pos.y - l.offset.y;
    let (pa, a) = vd_before(p0, c0.attribute, ch);
    let (code, pb) = vd_code(pa, ch);
    let c = AttributedChar::spec_new(code as char, a);
    let grown = cells_grown(layer_cells(l), y, l.size.width as nat);
    let cells = set_char_cells(l, layer_cells(l), c0.pos, c);
    assert(y < grown.len());
    assert(cells == grown.update(y, cells_with_char(grown[y], x, c)));
    assert(all_cells(b1)[0] == cells);
    let row = cells_with_char(grown[y], x, c);
    if x < grown[y].len() {
        assert(row[x] == c);
    } else {
        assert(row.len() == x + 1);
        assert(row[x] == c);
    }
    assert(all_cells(b1)[0][y][x] == c);
}

} // verus!

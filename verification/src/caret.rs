use vstd::prelude::*;

use crate::geometry::Position;
use crate::text_attribute::{default_attribute, TextAttribute};

verus! {

/// The cursor: where the next character goes and with which attribute.
#[derive(Clone, Copy, Debug)]
pub struct Caret {
    pub pos: Position,
    pub attribute: TextAttribute,
    pub insert_mode: bool,
    pub is_visible: bool,
    pub is_blinking: bool,
    pub ice_mode: bool,
}

/// A visible, blinking caret at the origin with the default attribute.
pub open spec fn default_caret() -> Caret {
    Caret {
        pos: Position { x: 0, y: 0 },
        attribute: default_attribute(),
        insert_mode: false,
        is_visible: true,
        is_blinking: true,
        ice_mode: false,
    }
}

/// The attribute that characters printed at the caret get: in ice mode a
/// blinking attribute on one of the eight basic backgrounds shows the bright
/// background instead, and nothing blinks.
pub open spec fn effective_attribute(c: Caret) -> TextAttribute {
    if c.ice_mode {
        let a = c.attribute;
        let bg = if a.background_color < 8 && a.blink { (a.background_color + 8) as u32 } else { a.background_color };
        TextAttribute { background_color: bg, blink: false, ..a }
    } else {
        c.attribute
    }
}

impl Default for Caret {
    fn default() -> (res: Self)
        ensures
            res == default_caret(),
    {
        Caret::new(Position { x: 0, y: 0 })
    }
}

impl Caret {
    pub fn new(pos: Position) -> (res: Self)
        ensures
            res == (Caret { pos, ..default_caret() }),
    {
        Caret {
            pos,
            attribute: TextAttribute::new_default(),
            insert_mode: false,
            is_visible: true,
            is_blinking: true,
            ice_mode: false,
        }
    }

    pub fn new_xy(x: i32, y: i32) -> (res: Self)
        ensures
            res == (Caret { pos: Position { x, y }, ..default_caret() }),
    {
        Caret::new(Position { x, y })
    }

    pub fn get_attribute(&self) -> (res: TextAttribute)
        ensures
            res == effective_attribute(*self),
    {
        let mut result = self.attribute;
        if self.ice_mode {
            let bg = result.get_background();
            if bg < 8 && result.is_blinking() {
                result.set_background(bg + 8);
            }
            result.set_is_blinking(false);
        }
        result
    }

    pub fn get_position(&self) -> (res: Position)
        ensures
            res == self.pos,
    {
        self.pos
    }

    pub fn set_position(&mut self, pos: Position)
        ensures
            *final(self) == (Caret { pos, ..*old(self) }),
    {
        self.pos = pos;
    }

    pub fn set_position_xy(&mut self, x: i32, y: i32)
        ensures
            *final(self) == (Caret { pos: Position { x, y }, ..*old(self) }),
    {
        self.pos = Position::new(x, y);
    }

    pub fn set_x_position(&mut self, x: i32)
        ensures
            *final(self) == (Caret { pos: Position { x, y: old(self).pos.y }, ..*old(self) }),
    {
        self.pos.x = x;
    }

    pub fn set_y_position(&mut self, y: i32)
        ensures
            *final(self) == (Caret { pos: Position { x: old(self).pos.x, y }, ..*old(self) }),
    {
        self.pos.y = y;
    }

    pub fn set_attr(&mut self, attr: TextAttribute)
        ensures
            *final(self) == (Caret { attribute: attr, ..*old(self) }),
    {
        self.attribute = attr;
    }

    pub fn set_foreground(&mut self, color: u32)
        ensures
            *final(self) == (Caret { attribute: TextAttribute { foreground_color: color, ..old(self).attribute }, ..*old(self) }),
    {
        self.attribute.set_foreground(color);
    }

    pub fn set_background(&mut self, color: u32)
        ensures
            *final(self) == (Caret { attribute: TextAttribute { background_color: color, ..old(self).attribute }, ..*old(self) }),
    {
        self.attribute.set_background(color);
    }

    /// Back to the state of a new caret at the origin.
    pub fn reset(&mut self)
        ensures
            *final(self) == default_caret(),
    {
        self.pos = Position::new(0, 0);
        self.attribute = TextAttribute::new_default();
        self.insert_mode = false;
        self.is_visible = true;
        self.is_blinking = true;
        self.ice_mode = false;
    }

    pub fn get_font_page(&self) -> (res: usize)
        ensures
            res == self.attribute.font_page,
    {
        self.attribute.get_font_page()
    }

    pub fn set_font_page(&mut self, page: usize)
        ensures
            *final(self) == (Caret { attribute: TextAttribute { font_page: page, ..old(self).attribute }, ..*old(self) }),
    {
        self.attribute.set_font_page(page);
    }

    /// The default attribute, keeping the font page.
    pub fn reset_color_attribute(&mut self)
        ensures
            *final(self) == (Caret { attribute: TextAttribute { font_page: old(self).attribute.font_page, ..default_attribute() }, ..*old(self) }),
    {
        let font_page = self.attribute.get_font_page();
        self.attribute = TextAttribute::new_default();
        self.attribute.set_font_page(font_page);
    }

    pub fn ice_mode(&self) -> (res: bool)
        ensures
            res == self.ice_mode,
    {
        self.ice_mode
    }

    pub fn set_ice_mode(&mut self, ice_mode: bool)
        ensures
            *final(self) == (Caret { ice_mode, ..*old(self) }),
    {
        self.ice_mode = ice_mode;
    }
}

impl PartialEq for Caret {
    fn eq(&self, other: &Caret) -> (res: bool) {
        self.pos == other.pos && self.attribute == other.attribute
    }
}

impl vstd::std_specs::cmp::PartialEqSpecImpl for Caret {
    open spec fn obeys_eq_spec() -> bool {
        true
    }

    open spec fn eq_spec(&self, other: &Caret) -> bool {
        self.pos == other.pos && self.attribute == other.attribute
    }
}

} // verus!

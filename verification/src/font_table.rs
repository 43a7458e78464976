use vstd::prelude::*;

use crate::buffer::Buffer;
use crate::fonts::{font_model, BitFont};
use crate::layer::{duplicate_layers, same_layers};
use crate::palette::{Color, Palette};
use crate::geometry::Size;
use std::collections::HashMap;

verus! {

/// Whether the characters of `a` are those of `b`.
fn same_text(a: &str, b: &str) -> (res: bool)
    ensures
        res == (a@ == b@),
{
    let n = a.unicode_len();
    if n != b.unicode_len() {
        return false;
    }
    let mut i: usize = 0;
    while i < n
        invariant
            n == a@.len(),
            n == b@.len(),
            i <= n,
            a@.subrange(0, i as int) == b@.subrange(0, i as int),
        decreases n - i,
    {
        if a.get_char(i) != b.get_char(i) {
            return false;
        }
        i += 1;
        assert(a@.subrange(0, i as int) =~= a@.subrange(0, i - 1).push(a@[i - 1]));
        assert(b@.subrange(0, i as int) =~= b@.subrange(0, i - 1).push(b@[i - 1]));
    }
    assert(a@ =~= a@.subrange(0, n as int));
    assert(b@ =~= b@.subrange(0, n as int));
    true
}

/// The pages `lo..hi`, as a set.
pub open spec fn pages_between(lo: int, hi: int) -> Set<usize> {
    Set::new(|k: usize| lo <= k < hi)
}

proof fn lemma_pages_between_len(lo: int, hi: int)
    requires
        0 <= lo <= hi <= usize::MAX + 1,
    ensures
        pages_between(lo, hi).finite(),
        pages_between(lo, hi).len() == hi - lo,
    decreases hi - lo,
{
    if hi == lo {
        assert(pages_between(lo, hi) =~= Set::<usize>::empty());
    } else {
        lemma_pages_between_len(lo, hi - 1);
        let m = (hi - 1) as usize;
        assert(pages_between(lo, hi) =~= pages_between(lo, hi - 1).insert(m));
    }
}

/// A table that holds every page of `lo..hi` holds at least `hi - lo` fonts.
pub proof fn lemma_full_pages(t: Map<usize, BitFont>, lo: int, hi: int)
    requires
        t.dom().finite(),
        0 <= lo <= hi <= usize::MAX + 1,
        forall|k: usize| lo <= k < hi ==> #[trigger] t.contains_key(k),
    ensures
        t.dom().len() >= hi - lo,
{
    lemma_pages_between_len(lo, hi);
    assert(pages_between(lo, hi).subset_of(t.dom()));
    vstd::set_lib::lemma_len_subset(pages_between(lo, hi), t.dom());
}

/// Two font tables with the same pages, each holding a font with the same
/// name, size, kind and glyphs.
pub open spec fn same_fonts(a: Map<usize, BitFont>, b: Map<usize, BitFont>) -> bool {
    &&& a.dom() == b.dom()
    &&& forall|k: usize| #[trigger] a.contains_key(k) ==> font_model(a[k]) == font_model(b[k]) && a[k].name@ == b[k].name@
}

fn copy_palette(p: &Palette) -> (res: Palette)
    ensures
        res.colors@ == p.colors@,
{
    let mut colors: Vec<Color> = Vec::new();
    let mut i: usize = 0;
    while i < p.colors.len()
        invariant
            i <= p.colors@.len(),
            colors@ == p.colors@.subrange(0, i as int),
        decreases p.colors@.len() - i,
    {
        colors.push(p.colors[i]);
        i += 1;
        assert(colors@ =~= p.colors@.subrange(0, i as int));
    }
    assert(colors@ =~= p.colors@);
    Palette { colors }
}

impl Buffer {
    /// Removes every font.
    pub fn clear_font_table(&mut self)
        ensures
            final(self).font_table@ == Map::<usize, BitFont>::empty(),
            *final(self) == (Buffer { font_table: final(self).font_table, is_font_table_dirty: true, ..*old(self) }),
    {
        self.font_table.clear();
        self.is_font_table_dirty = true;
    }

    pub fn has_fonts(&self) -> (res: bool)
        ensures
            res == !self.font_table@.is_empty(),
    {
        !self.font_table.is_empty()
    }

    pub fn has_font(&self, id: usize) -> (res: bool)
        ensures
            res == self.font_table@.contains_key(id),
    {
        self.font_table.contains_key(&id)
    }

    pub fn is_font_table_updated(&self) -> (res: bool)
        ensures
            res == self.is_font_table_dirty,
    {
        self.is_font_table_dirty
    }

    pub fn set_font_table_is_updated(&mut self)
        ensures
            *final(self) == (Buffer { is_font_table_dirty: false, ..*old(self) }),
    {
        self.is_font_table_dirty = false;
    }

    /// The font of page `font_number`, if there is one.
    pub fn get_font(&self, font_number: usize) -> (res: Option<&BitFont>)
        ensures
            match res {
                Some(f) => self.font_table@.contains_key(font_number) && *f == self.font_table@[font_number],
                None => !self.font_table@.contains_key(font_number),
            },
    {
        self.font_table.get(&font_number)
    }

    /// Puts `font` on page `font_number`, in place of the font there.
    pub fn set_font(&mut self, font_number: usize, font: BitFont)
        ensures
            final(self).font_table@ == old(self).font_table@.insert(font_number, font),
            *final(self) == (Buffer { font_table: final(self).font_table, is_font_table_dirty: true, ..*old(self) }),
    {
        self.font_table.insert(font_number, font);
        self.is_font_table_dirty = true;
    }

    /// Takes the font of page `font_number` out of the table.
    pub fn remove_font(&mut self, font_number: usize) -> (res: Option<BitFont>)
        ensures
            final(self).font_table@ == old(self).font_table@.remove(font_number),
            *final(self) == (Buffer { font_table: final(self).font_table, ..*old(self) }),
            match res {
                Some(f) => old(self).font_table@.contains_key(font_number) && f == old(self).font_table@[font_number],
                None => !old(self).font_table@.contains_key(font_number),
            },
    {
        self.font_table.remove(&font_number)
    }

    pub fn font_count(&self) -> (res: usize)
        ensures
            res == self.font_table@.len(),
    {
        self.font_table.len()
    }

    /// A copy of the font table.
    pub fn get_font_table(&self) -> (res: HashMap<usize, BitFont>)
        ensures
            res@ == self.font_table@,
    {
        self.font_table.clone()
    }

    pub fn set_font_table(&mut self, font_table: HashMap<usize, BitFont>)
        ensures
            *final(self) == (Buffer { font_table, ..*old(self) }),
    {
        self.font_table = font_table;
    }

    /// Puts `font` on the lowest free page and gives that page.
    pub fn append_font(&mut self, font: BitFont) -> (res: usize)
        ensures
            !old(self).font_table@.contains_key(res),
            forall|k: usize| k < res ==> #[trigger] old(self).font_table@.contains_key(k),
            final(self).font_table@ == old(self).font_table@.insert(res, font),
            *final(self) == (Buffer { font_table: final(self).font_table, ..*old(self) }),
    {
        let mut i: usize = 0;
        while self.font_table.contains_key(&i)
            invariant
                *self == *old(self),
                i <= self.font_table@.len(),
                forall|k: usize| k < i ==> #[trigger] self.font_table@.contains_key(k),
            decreases self.font_table@.len() - i,
        {
            proof {
                assert(self.font_table@.len() == self.font_table.len());
                assert forall|k: usize| (k as int) < i + 1 implies #[trigger] self.font_table@.contains_key(k) by {
                    if k < i {
                    }
                }
                lemma_full_pages(self.font_table@, 0, i + 1);
            }
            i += 1;
        }
        self.font_table.insert(i, font);
        i
    }

    /// The size of the font of the first page.
    pub fn get_font_dimensions(&self) -> (res: Size)
        requires
            self.font_table@.contains_key(0),
        ensures
            res == self.font_table@[0].size,
    {
        match self.font_table.get(&0) {
            Some(f) => f.size,
            None => Size { width: 0, height: 0 },
        }
    }

    /// The font page of a font named `name`, if the table holds one; where
    /// several do, which of them is found is left to the table's order.
    pub fn search_font_by_name(&self, name: &str) -> (res: Option<usize>)
        ensures
            match res {
                Some(i) => self.font_table@.contains_key(i) && self.font_table@[i].name@ == name@,
                None => forall|k: usize| #[trigger] self.font_table@.contains_key(k) ==> self.font_table@[k].name@ != name@,
            },
    {
        for entry in it: self.font_table.iter()
            invariant
                forall|j: int| 0 <= j < it.index() ==> (*it.seq()[j].1).name@ != name@,
        {
            let (k, f) = entry;
            if same_text(f.name.as_str(), name) {
                return Some(*k);
            }
        }
        None
    }

    /// The lowest font page that holds a font named `name`, if any.
    pub(crate) fn first_font_page_named(&self, name: &str) -> (res: Option<usize>)
        ensures
            match res {
                Some(k) => crate::ansi_parser::font_page_named(*self, name@, k) && forall|j: usize|
                    crate::ansi_parser::font_page_named(*self, name@, j) ==> k <= j,
                None => forall|j: usize| !crate::ansi_parser::font_page_named(*self, name@, j),
            },
    {
        let fonts = self.font_iter();
        let mut best: Option<usize> = None;
        let mut i: usize = 0;
        while i < fonts.len()
            invariant
                i <= fonts@.len(),
                fonts@.len() == self.font_table@.len(),
                forall|t: int| 0 <= t < fonts@.len() ==> self.font_table@.contains_key(#[trigger] fonts@[t].0)
                    && *fonts@[t].1 == self.font_table@[fonts@[t].0],
                forall|k: usize| #[trigger] self.font_table@.contains_key(k) ==> exists|t: int| 0 <= t < fonts@.len() && fonts@[t].0 == k,
                match best {
                    Some(k) => crate::ansi_parser::font_page_named(*self, name@, k) && forall|t: int|
                        0 <= t < i && #[trigger] self.font_table@[fonts@[t].0].name@ == name@ ==> k <= fonts@[t].0,
                    None => forall|t: int| 0 <= t < i ==> #[trigger] self.font_table@[fonts@[t].0].name@ != name@,
                },
            decreases fonts@.len() - i,
        {
            let (k, f) = fonts[i];
            if same_text(f.name.as_str(), name) {
                match best {
                    Some(b) => {
                        if k < b {
                            best = Some(k);
                        }
                    },
                    None => {
                        best = Some(k);
                    },
                }
            }
            i += 1;
        }
        proof {
            assert forall|j: usize| crate::ansi_parser::font_page_named(*self, name@, j) implies (match best {
                Some(k) => k <= j,
                None => false,
            }) by {
                let t = choose|t: int| 0 <= t < fonts@.len() && fonts@[t].0 == j;
                assert(self.font_table@[fonts@[t].0].name@ == name@);
            }
        }
        best
    }

    /// The fonts of the table with their pages, each page once, in the
    /// table's order.
    pub fn font_iter(&self) -> (res: Vec<(usize, &BitFont)>)
        ensures
            res@.len() == self.font_table@.len(),
            forall|i: int| 0 <= i < res@.len() ==> self.font_table@.contains_key(#[trigger] res@[i].0)
                && *res@[i].1 == self.font_table@[res@[i].0],
            forall|i: int, j: int| 0 <= i < j < res@.len() ==> #[trigger] res@[i].0 != #[trigger] res@[j].0,
            forall|k: usize| #[trigger] self.font_table@.contains_key(k) ==> exists|i: int| 0 <= i < res@.len() && res@[i].0 == k,
    {
        let mut res: Vec<(usize, &BitFont)> = Vec::new();
        for entry in it: self.font_table.iter()
            invariant
                res@.len() == it.index(),
                it.seq().no_duplicates(),
                forall|i: int| 0 <= i < res@.len() ==> res@[i].0 == *it.seq()[i].0 && res@[i].1 == it.seq()[i].1,
        {
            let (k, f) = entry;
            res.push((*k, f));
        }
        assert(self.font_table@.len() == self.font_table.len());
        assert forall|i: int, j: int| 0 <= i < j < res@.len() implies #[trigger] res@[i].0 != #[trigger] res@[j].0 by {
            if res@[i].0 == res@[j].0 {
                assert(*res@[i].1 == self.font_table@[res@[i].0]);
                assert(*res@[j].1 == self.font_table@[res@[j].0]);
            }
        }
        res
    }

    /// A copy of the buffer: its size, modes, terminal screen, palette,
    /// layers and fonts, without an overlay layer.
    pub fn flat_clone(&self) -> (res: Buffer)
        ensures
            res.size == self.size,
            res.terminal_state == self.terminal_state,
            res.buffer_type == self.buffer_type,
            res.ice_mode == self.ice_mode,
            res.palette_mode == self.palette_mode,
            res.font_mode == self.font_mode,
            res.is_terminal_buffer == self.is_terminal_buffer,
            res.palette.colors@ == self.palette.colors@,
            res.overlay_layer is None,
            same_layers(res.layers@, self.layers@),
            same_fonts(res.font_table@, self.font_table@),
            res.is_font_table_dirty,
    {
        let mut frame = Buffer::new(self.size);
        frame.terminal_state = self.terminal_state;
        frame.buffer_type = self.buffer_type;
        frame.ice_mode = self.ice_mode;
        frame.palette_mode = self.palette_mode;
        frame.font_mode = self.font_mode;
        frame.is_terminal_buffer = self.is_terminal_buffer;
        frame.palette = copy_palette(&self.palette);
        frame.layers = duplicate_layers(&self.layers);
        frame.clear_font_table();
        for entry in it: self.font_table.iter()
            invariant
                frame.size == self.size,
                frame.terminal_state == self.terminal_state,
                frame.buffer_type == self.buffer_type,
                frame.ice_mode == self.ice_mode,
                frame.palette_mode == self.palette_mode,
                frame.font_mode == self.font_mode,
                frame.is_terminal_buffer == self.is_terminal_buffer,
                frame.palette.colors@ == self.palette.colors@,
                frame.overlay_layer is None,
                same_layers(frame.layers@, self.layers@),
                frame.is_font_table_dirty,
                forall|k: usize| #[trigger] self.font_table@.contains_key(k) ==> frame.font_table@.contains_key(k) || exists|j: int|
                    it.index() <= j < it.seq().len() && *(#[trigger] it.seq()[j]).0 == k,
                forall|k: usize| #[trigger] frame.font_table@.contains_key(k) ==> self.font_table@.contains_key(k)
                    && font_model(frame.font_table@[k]) == font_model(self.font_table@[k])
                    && frame.font_table@[k].name@ == self.font_table@[k].name@,
        {
            let (k, f) = entry;
            frame.set_font(*k, f.duplicate());
        }
        assert(frame.font_table@.dom() =~= self.font_table@.dom());
        frame
    }
}

} // verus!

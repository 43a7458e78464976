use vstd::prelude::*;

use crate::attributed_char::{default_char, invisible_char, AttributedChar};
use crate::geometry::{Position, Size};
use crate::line::{cells_with_char, invisible_cells, line_length, Line};
use crate::palette::Color;
use crate::sixel::{sixels_view, Sixel};

verus! {

/// How a layer combines with the layers below it.
#[derive(Clone, Copy, Debug, Default, PartialEq, Eq, Structural)]
pub enum Mode {
    #[default]
    Normal,
    Chars,
    Attributes,
}

/// A link that covers `length` cells from `position`.
#[derive(Clone, Debug, Default)]
pub struct HyperLink {
    pub url: Option<String>,
    pub position: Position,
    pub length: usize,
}

/// A plane of character cells placed at an offset over the buffer.
#[derive(Clone, Debug)]
pub struct Layer {
    pub title: String,
    pub is_visible: bool,
    pub is_locked: bool,
    pub is_position_locked: bool,
    pub is_alpha_channel_locked: bool,
    pub has_alpha_channel: bool,
    pub color: Option<Color>,
    pub mode: Mode,
    pub offset: Position,
    pub size: Size,
    pub lines: Vec<Line>,
    pub hyperlinks: Vec<HyperLink>,
    pub sixels: Vec<Sixel>,
}

/// The cells of a list of rows.
pub open spec fn cells_of(lines: Seq<Line>) -> Seq<Seq<AttributedChar>> {
    lines.map_values(|l: Line| l.chars@)
}

pub proof fn lemma_cells_of_push(s: Seq<Line>, l: Line)
    ensures
        cells_of(s.push(l)) == cells_of(s).push(l.chars@),
{
    assert(cells_of(s.push(l)) =~= cells_of(s).push(l.chars@));
}

/// The cells of a layer, row by row.
pub open spec fn layer_cells(l: Layer) -> Seq<Seq<AttributedChar>> {
    cells_of(l.lines@)
}

/// Everything of a layer but its rows is the same in `a` and `b`.
pub open spec fn same_layer_props(a: Layer, b: Layer) -> bool {
    &&& a.title@ == b.title@
    &&& a.is_visible == b.is_visible
    &&& a.is_locked == b.is_locked
    &&& a.is_position_locked == b.is_position_locked
    &&& a.is_alpha_channel_locked == b.is_alpha_channel_locked
    &&& a.has_alpha_channel == b.has_alpha_channel
    &&& a.color == b.color
    &&& a.mode == b.mode
    &&& a.offset == b.offset
    &&& a.size == b.size
    &&& a.hyperlinks@ == b.hyperlinks@
    &&& sixels_view(a.sixels@) == sixels_view(b.sixels@)
}

/// The value of `v` capped to the range of `i32`.
pub open spec fn sat_i32(v: int) -> int {
    if v > i32::MAX { i32::MAX as int } else if v < i32::MIN { i32::MIN as int } else { v }
}

/// The cell that a layer with properties `l` and rows `cells` shows at the
/// buffer position `pos`: positions outside its rows read as empty, which is
/// an invisible cell on a layer with an alpha channel and a space otherwise.
pub open spec fn char_at(l: Layer, cells: Seq<Seq<AttributedChar>>, pos: Position) -> AttributedChar {
    let empty = if l.has_alpha_channel { invisible_char() } else { default_char() };
    if pos.x < l.offset.x || pos.y < l.offset.y {
        empty
    } else {
        let x = pos.x - l.offset.x;
        let y = pos.y - l.offset.y;
        if y < cells.len() && x < cells[y].len() {
            let ch = cells[y][x];
            if !l.has_alpha_channel && ch.attribute.invisible { default_char() } else { ch }
        } else {
            empty
        }
    }
}

/// `cells` grown with rows of `width` invisible cells until row `y` exists.
pub open spec fn cells_grown(cells: Seq<Seq<AttributedChar>>, y: int, width: nat) -> Seq<Seq<AttributedChar>> {
    if y < cells.len() {
        cells
    } else {
        cells + Seq::new((y + 1 - cells.len()) as nat, |i: int| invisible_cells(width))
    }
}

/// The rows of a layer with properties `l` after `set_char(pos, c)`: a locked
/// or hidden layer and a position before the layer's offset change nothing;
/// otherwise the rows grow to reach the position, and the cell is written
/// unless the layer's alpha channel is locked and the cell it replaces is
/// invisible.
pub open spec fn set_char_cells(
    l: Layer,
    cells: Seq<Seq<AttributedChar>>,
    pos: Position,
    c: AttributedChar,
) -> Seq<Seq<AttributedChar>> {
    if pos.x < l.offset.x || pos.y < l.offset.y || l.is_locked || !l.is_visible || pos.x - l.offset.x >= usize::MAX
        || pos.y - l.offset.y >= usize::MAX {
        cells
    } else {
        let x = pos.x - l.offset.x;
        let y = pos.y - l.offset.y;
        let grown = cells_grown(cells, y, l.size.width as nat);
        let rel = Position { x: sat_i32(x) as i32, y: sat_i32(y) as i32 };
        if l.has_alpha_channel && l.is_alpha_channel_locked && char_at(l, grown, rel).attribute.invisible {
            grown
        } else {
            grown.update(y, cells_with_char(grown[y], x, c))
        }
    }
}

fn to_i32_sat(v: i64) -> (res: i32)
    ensures
        res == sat_i32(v as int),
{
    if v > i32::MAX as i64 {
        i32::MAX
    } else if v < i32::MIN as i64 {
        i32::MIN
    } else {
        v as i32
    }
}

impl Layer {
    /// A visible layer of `size.height` rows of `size.width` invisible cells.
    pub fn new(title: &str, size: Size) -> (res: Self)
        ensures
            res.title@ == title@,
            res.is_visible,
            !res.is_locked,
            !res.is_position_locked,
            !res.is_alpha_channel_locked,
            !res.has_alpha_channel,
            res.color.is_none(),
            res.mode == Mode::Normal,
            res.offset == (Position { x: 0, y: 0 }),
            res.size == size,
            layer_cells(res) == Seq::new(size.height as nat, |i: int| invisible_cells(size.width as nat)),
            res.hyperlinks@.len() == 0,
            res.sixels@.len() == 0,
    {
        let mut lines: Vec<Line> = Vec::new();
        let mut i: usize = 0;
        while i < size.height
            invariant
                i <= size.height,
                cells_of(lines@) == Seq::new(i as nat, |j: int| invisible_cells(size.width as nat)),
            decreases size.height - i,
        {
            let line = Line::create(size.width);
            proof {
                lemma_cells_of_push(lines@, line);
            }
            lines.push(line);
            i += 1;
            assert(cells_of(lines@) =~= Seq::new(i as nat, |j: int| invisible_cells(size.width as nat)));
        }
        Layer {
            title: title.to_owned(),
            is_visible: true,
            is_locked: false,
            is_position_locked: false,
            is_alpha_channel_locked: false,
            has_alpha_channel: false,
            color: None,
            mode: Mode::Normal,
            offset: Position { x: 0, y: 0 },
            size,
            lines,
            hyperlinks: Vec::new(),
            sixels: Vec::new(),
        }
    }

    pub fn get_offset(&self) -> (res: Position)
        ensures
            res == self.offset,
    {
        self.offset
    }

    /// Moves the layer unless its position is locked.
    pub fn set_offset(&mut self, pos: Position)
        ensures
            final(self).offset == if old(self).is_position_locked { old(self).offset } else { pos },
            layer_cells(*final(self)) == layer_cells(*old(self)),
            final(self).title@ == old(self).title@,
            final(self).is_visible == old(self).is_visible,
            final(self).is_locked == old(self).is_locked,
            final(self).is_position_locked == old(self).is_position_locked,
            final(self).is_alpha_channel_locked == old(self).is_alpha_channel_locked,
            final(self).has_alpha_channel == old(self).has_alpha_channel,
            final(self).color == old(self).color,
            final(self).mode == old(self).mode,
            final(self).size == old(self).size,
            final(self).hyperlinks@ == old(self).hyperlinks@,
            final(self).sixels == old(self).sixels,
    {
        if self.is_position_locked {
            return;
        }
        self.offset = pos;
    }

    /// Removes every row, link and picture of the layer.
    pub fn clear(&mut self)
        ensures
            final(self).lines@.len() == 0,
            final(self).hyperlinks@.len() == 0,
            final(self).sixels@.len() == 0,
            final(self).title@ == old(self).title@,
            final(self).is_visible == old(self).is_visible,
            final(self).is_locked == old(self).is_locked,
            final(self).offset == old(self).offset,
            final(self).size == old(self).size,
            final(self).has_alpha_channel == old(self).has_alpha_channel,
            final(self).is_alpha_channel_locked == old(self).is_alpha_channel_locked,
            final(self).is_position_locked == old(self).is_position_locked,
            final(self).mode == old(self).mode,
            final(self).color == old(self).color,
    {
        self.lines.clear();
        self.hyperlinks.clear();
        self.sixels.clear();
    }

    /// The cell shown at the buffer position `pos`.
    pub fn get_char(&self, pos: Position) -> (res: AttributedChar)
        ensures
            res == char_at(*self, layer_cells(*self), pos),
    {
        if pos.x < self.offset.x || pos.y < self.offset.y {
            return if self.has_alpha_channel { AttributedChar::invisible() } else { AttributedChar::default() };
        }
        let x64 = pos.x as i64 - self.offset.x as i64;
        let y64 = pos.y as i64 - self.offset.y as i64;
        if y64 as u64 <= usize::MAX as u64 && x64 as u64 <= usize::MAX as u64 && (y64 as usize) < self.lines.len() {
            let x = x64 as usize;
            let y = y64 as usize;
            let cur_line = &self.lines[y];
            assert(layer_cells(*self)[y as int] == cur_line.chars@);
            if x < cur_line.chars.len() {
                let ch = cur_line.chars[x];
                if !self.has_alpha_channel && !ch.is_visible() {
                    return AttributedChar::default();
                }
                return ch;
            }
        }
        if self.has_alpha_channel {
            AttributedChar::invisible()
        } else {
            AttributedChar::default()
        }
    }

    /// Writes a cell at the buffer position `pos`; see `set_char_cells`.
    pub fn set_char(&mut self, pos: Position, attributed_char: AttributedChar)
        ensures
            same_layer_props(*final(self), *old(self)),
            layer_cells(*final(self)) == set_char_cells(*old(self), layer_cells(*old(self)), pos, attributed_char),
    {
        if pos.x < self.offset.x || pos.y < self.offset.y {
            return;
        }
        let x64 = pos.x as i64 - self.offset.x as i64;
        let y64 = pos.y as i64 - self.offset.y as i64;
        if self.is_locked || !self.is_visible || x64 as u64 >= usize::MAX as u64 || y64 as u64 >= usize::MAX as u64 {
            return;
        }
        let x = x64 as usize;
        let y = y64 as usize;
        let ghost start = layer_cells(*self);
        if y >= self.lines.len() {
            while self.lines.len() <= y
                invariant
                    start.len() <= self.lines@.len() <= y + 1,
                    layer_cells(*self) == start + Seq::new(
                        (self.lines@.len() - start.len()) as nat,
                        |i: int| invisible_cells(self.size.width as nat),
                    ),
                    same_layer_props(*self, *old(self)),
                    start == layer_cells(*old(self)),
                decreases y + 1 - self.lines@.len(),
            {
                let line = Line::create(self.size.width);
                proof {
                    lemma_cells_of_push(self.lines@, line);
                }
                self.lines.push(line);
                assert(layer_cells(*self) =~= start + Seq::new(
                    (self.lines@.len() - start.len()) as nat,
                    |i: int| invisible_cells(self.size.width as nat),
                ));
            }
        }
        assert(layer_cells(*self) =~= crate::layer::cells_grown(start, y as int, self.size.width as nat));
        if self.has_alpha_channel && self.is_alpha_channel_locked {
            let rel = Position { x: to_i32_sat(x64), y: to_i32_sat(y64) };
            let old_char = self.get_char(rel);
            if !old_char.is_visible() {
                return;
            }
        }
        let ghost grown = layer_cells(*self);
        assert(x < usize::MAX);
        self.lines[y].set_char(x, attributed_char);
        assert(layer_cells(*self) =~= grown.update(y as int, cells_with_char(grown[y as int], x as int, attributed_char)));
    }

    /// Removes row `index`; a locked or hidden layer is left as it is.
    pub fn remove_line(&mut self, index: i32)
        requires
            !old(self).is_locked && old(self).is_visible ==> 0 <= index < old(self).lines@.len(),
        ensures
            same_layer_props(*final(self), *old(self)),
            old(self).is_locked || !old(self).is_visible ==> layer_cells(*final(self)) == layer_cells(*old(self)),
            !old(self).is_locked && old(self).is_visible ==> layer_cells(*final(self)) == layer_cells(*old(self)).remove(
                index as int,
            ),
    {
        if self.is_locked || !self.is_visible {
            return;
        }
        let ghost before = self.lines@;
        self.lines.remove(index as usize);
        assert(cells_of(self.lines@) =~= cells_of(before).remove(index as int));
    }

    /// Inserts `line` as row `index`, first growing the layer with rows of
    /// invisible cells up to that row; a locked or hidden layer is left as it
    /// is.
    pub fn insert_line(&mut self, index: i32, line: Line)
        requires
            !old(self).is_locked && old(self).is_visible ==> index >= 0,
        ensures
            same_layer_props(*final(self), *old(self)),
            old(self).is_locked || !old(self).is_visible ==> layer_cells(*final(self)) == layer_cells(*old(self)),
            !old(self).is_locked && old(self).is_visible ==> layer_cells(*final(self)) == (if index <= old(
                self,
            ).lines@.len() {
                layer_cells(*old(self))
            } else {
                layer_cells(*old(self)) + Seq::new(
                    (index - old(self).lines@.len()) as nat,
                    |i: int| invisible_cells(old(self).size.width as nat),
                )
            }).insert(index as int, line.chars@),
    {
        if self.is_locked || !self.is_visible {
            return;
        }
        let ghost start = layer_cells(*self);
        let idx = index as usize;
        while self.lines.len() < idx
            invariant
                start.len() <= self.lines@.len(),
                start.len() <= idx ==> self.lines@.len() <= idx,
                start.len() > idx ==> self.lines@.len() == start.len(),
                idx == index,
                layer_cells(*self) == start + Seq::new(
                    (self.lines@.len() - start.len()) as nat,
                    |i: int| invisible_cells(self.size.width as nat),
                ),
                same_layer_props(*self, *old(self)),
                start == layer_cells(*old(self)),
            decreases idx - self.lines@.len(),
        {
            let l = Line::create(self.size.width);
            proof {
                lemma_cells_of_push(self.lines@, l);
            }
            self.lines.push(l);
            assert(layer_cells(*self) =~= start + Seq::new(
                (self.lines@.len() - start.len()) as nat,
                |i: int| invisible_cells(self.size.width as nat),
            ));
        }
        let ghost grown = layer_cells(*self);
        proof {
            if index <= start.len() {
                assert(grown =~= start);
            }
        }
        let ghost before = self.lines@;
        self.lines.insert(idx, line);
        assert(cells_of(self.lines@) =~= cells_of(before).insert(idx as int, line.chars@));
    }

    /// Inserts a cell at column `x` of row `y`, whatever the layer's locks.
    pub(crate) fn insert_cell(&mut self, y: usize, x: usize, ch: AttributedChar)
        requires
            y < old(self).lines@.len(),
            x < usize::MAX,
        ensures
            same_layer_props(*final(self), *old(self)),
            layer_cells(*final(self)) == layer_cells(*old(self)).update(
                y as int,
                crate::line::cells_inserting_char(layer_cells(*old(self))[y as int], x as int, ch),
            ),
    {
        let ghost before = self.lines@;
        self.lines[y].insert_char(x, ch);
        assert(cells_of(self.lines@) =~= cells_of(before).update(
            y as int,
            crate::line::cells_inserting_char(cells_of(before)[y as int], x as int, ch),
        ));
    }

    /// Removes row `y`, whatever the layer's locks.
    pub(crate) fn remove_row(&mut self, y: usize)
        requires
            y < old(self).lines@.len(),
        ensures
            same_layer_props(*final(self), *old(self)),
            layer_cells(*final(self)) == layer_cells(*old(self)).remove(y as int),
    {
        let ghost before = self.lines@;
        self.lines.remove(y);
        assert(cells_of(self.lines@) =~= cells_of(before).remove(y as int));
    }

    /// Exchanges the cells at two buffer positions, each written with
    /// `set_char`.
    pub fn swap_char(&mut self, pos1: Position, pos2: Position)
        ensures
            same_layer_props(*final(self), *old(self)),
            layer_cells(*final(self)) == set_char_cells(
                *old(self),
                set_char_cells(*old(self), layer_cells(*old(self)), pos1, char_at(*old(self), layer_cells(*old(self)), pos2)),
                pos2,
                char_at(*old(self), layer_cells(*old(self)), pos1),
            ),
    {
        let tmp = self.get_char(pos1);
        let other = self.get_char(pos2);
        self.set_char(pos1, other);
        self.set_char(pos2, tmp);
    }

    pub fn add_hyperlink(&mut self, p: HyperLink)
        ensures
            final(self).hyperlinks@ == old(self).hyperlinks@.push(p),
            layer_cells(*final(self)) == layer_cells(*old(self)),
            final(self).offset == old(self).offset,
            final(self).size == old(self).size,
    {
        self.hyperlinks.push(p);
    }

    pub fn hyperlinks(&self) -> (res: &Vec<HyperLink>)
        ensures
            res@ == self.hyperlinks@,
    {
        &self.hyperlinks
    }

    pub fn get_size(&self) -> (res: Size)
        ensures
            res == self.size,
    {
        self.size
    }

    pub fn set_size(&mut self, size: Size)
        ensures
            *final(self) == (Layer { size, ..*old(self) }),
    {
        self.size = size;
    }

    pub fn set_width(&mut self, width: usize)
        ensures
            *final(self) == (Layer { size: Size { width, height: old(self).size.height }, ..*old(self) }),
    {
        self.size.width = width;
    }

    pub fn set_height(&mut self, height: usize)
        ensures
            *final(self) == (Layer { size: Size { width: old(self).size.width, height }, ..*old(self) }),
    {
        self.size.height = height;
    }

    pub fn get_width(&self) -> (res: usize)
        ensures
            res == self.size.width,
    {
        self.size.width
    }

    pub fn get_height(&self) -> (res: usize)
        ensures
            res == self.size.height,
    {
        self.size.height
    }

    pub fn get_line_count(&self) -> (res: usize)
        ensures
            res == self.lines@.len(),
    {
        self.lines.len()
    }

    pub fn get_line_length(&self, line: usize) -> (res: usize)
        requires
            line < self.lines@.len(),
        ensures
            res == line_length(layer_cells(*self)[line as int]),
    {
        self.lines[line].get_line_length()
    }
}


/// Two lists of layers that show the same: layer by layer the same
/// properties and cells.
pub open spec fn same_layers(a: Seq<Layer>, b: Seq<Layer>) -> bool {
    &&& a.len() == b.len()
    &&& forall|i: int| 0 <= i < a.len() ==> same_layer_props(#[trigger] a[i], b[i]) && layer_cells(a[i]) == layer_cells(b[i])
}

impl HyperLink {
    /// A copy of this link.
    pub fn duplicate(&self) -> (res: HyperLink)
        ensures
            res == *self,
    {
        let url = match &self.url {
            Some(s) => Some(s.clone()),
            None => None,
        };
        HyperLink { url, position: self.position, length: self.length }
    }
}

impl Layer {
    /// A copy of this layer: the same properties and cells.
    pub fn duplicate(&self) -> (res: Layer)
        ensures
            same_layer_props(res, *self),
            layer_cells(res) == layer_cells(*self),
    {
        let mut lines: Vec<Line> = Vec::new();
        let mut i: usize = 0;
        while i < self.lines.len()
            invariant
                i <= self.lines@.len(),
                cells_of(lines@) == cells_of(self.lines@).subrange(0, i as int),
            decreases self.lines@.len() - i,
        {
            let l = self.lines[i].duplicate();
            proof {
                lemma_cells_of_push(lines@, l);
            }
            lines.push(l);
            i += 1;
            assert(cells_of(lines@) =~= cells_of(self.lines@).subrange(0, i as int));
        }
        assert(cells_of(self.lines@).subrange(0, i as int) =~= cells_of(self.lines@));
        let mut hyperlinks: Vec<HyperLink> = Vec::new();
        let mut j: usize = 0;
        while j < self.hyperlinks.len()
            invariant
                j <= self.hyperlinks@.len(),
                hyperlinks@ == self.hyperlinks@.subrange(0, j as int),
            decreases self.hyperlinks@.len() - j,
        {
            hyperlinks.push(self.hyperlinks[j].duplicate());
            j += 1;
            assert(hyperlinks@ =~= self.hyperlinks@.subrange(0, j as int));
        }
        assert(hyperlinks@ =~= self.hyperlinks@);
        let mut sixels: Vec<Sixel> = Vec::new();
        let mut k: usize = 0;
        while k < self.sixels.len()
            invariant
                k <= self.sixels@.len(),
                sixels@.len() == k,
                forall|j: int| 0 <= j < k ==> (#[trigger] sixels@[j])@ == self.sixels@[j]@,
            decreases self.sixels@.len() - k,
        {
            sixels.push(self.sixels[k].duplicate());
            k += 1;
        }
        assert(sixels_view(sixels@) =~= sixels_view(self.sixels@));
        Layer {
            title: self.title.clone(),
            is_visible: self.is_visible,
            is_locked: self.is_locked,
            is_position_locked: self.is_position_locked,
            is_alpha_channel_locked: self.is_alpha_channel_locked,
            has_alpha_channel: self.has_alpha_channel,
            color: self.color,
            mode: self.mode,
            offset: self.offset,
            size: self.size,
            lines,
            hyperlinks,
            sixels,
        }
    }
}

/// A copy of each layer of `ls`.
pub fn duplicate_layers(ls: &Vec<Layer>) -> (res: Vec<Layer>)
    ensures
        same_layers(res@, ls@),
{
    let mut res: Vec<Layer> = Vec::new();
    let mut i: usize = 0;
    while i < ls.len()
        invariant
            i <= ls@.len(),
            same_layers(res@, ls@.subrange(0, i as int)),
        decreases ls@.len() - i,
    {
        res.push(ls[i].duplicate());
        i += 1;
    }
    assert(ls@.subrange(0, i as int) =~= ls@);
    res
}

/// What a layer shows of a written cell: the cell itself, except that a
/// layer without alpha channel shows an invisible cell as a space.
pub open spec fn shown_as(l: Layer, c: AttributedChar) -> AttributedChar {
    if !l.has_alpha_channel && c.attribute.invisible { default_char() } else { c }
}

/// A write at `pos` reaches the cells: the layer is visible and unlocked,
/// `pos` lies at or after its offset, and no locked alpha channel keeps
/// the cell.
pub open spec fn write_reaches(l: Layer, cells: Seq<Seq<AttributedChar>>, pos: Position) -> bool {
    let x = pos.x - l.offset.x;
    let y = pos.y - l.offset.y;
    let grown = cells_grown(cells, y, l.size.width as nat);
    let rel = Position { x: sat_i32(x) as i32, y: sat_i32(y) as i32 };
    &&& pos.x >= l.offset.x && pos.y >= l.offset.y
    &&& x < usize::MAX && y < usize::MAX
    &&& !l.is_locked && l.is_visible
    &&& !(l.has_alpha_channel && l.is_alpha_channel_locked && char_at(l, grown, rel).attribute.invisible)
}

/// A layer shows at `pos` what was last written there: after `set_char(pos,
/// c)` reaches the cells, reading `pos` gives `c` (as the layer shows it).
pub proof fn law_read_after_write(l: Layer, cells: Seq<Seq<AttributedChar>>, pos: Position, c: AttributedChar)
    requires
        write_reaches(l, cells, pos),
    ensures
        char_at(l, set_char_cells(l, cells, pos, c), pos) == shown_as(l, c),
{
    let x = pos.x - l.offset.x;
    let y = pos.y - l.offset.y;
    let grown = cells_grown(cells, y, l.size.width as nat);
    assert(y < grown.len());
    let row = cells_with_char(grown[y], x, c);
    assert(x < row.len() && row[x] == c);
}

/// A write at `q` leaves what the layer shows at every other position as
/// it was.
pub proof fn law_write_keeps_others(l: Layer, cells: Seq<Seq<AttributedChar>>, q: Position, c: AttributedChar, p: Position)
    requires
        p != q,
    ensures
        char_at(l, set_char_cells(l, cells, q, c), p) == char_at(l, cells, p),
{
    let qx = q.x - l.offset.x;
    let qy = q.y - l.offset.y;
    if q.x < l.offset.x || q.y < l.offset.y || l.is_locked || !l.is_visible || qx >= usize::MAX || qy >= usize::MAX {
        return;
    }
    let w = l.size.width as nat;
    let grown = cells_grown(cells, qy, w);
    lemma_grown_shows_same(l, cells, qy, w, p);
    let rel = Position { x: sat_i32(qx) as i32, y: sat_i32(qy) as i32 };
    if l.has_alpha_channel && l.is_alpha_channel_locked && char_at(l, grown, rel).attribute.invisible {
        return;
    }
    let new_cells = grown.update(qy, cells_with_char(grown[qy], qx, c));
    if p.x >= l.offset.x && p.y >= l.offset.y {
        let px = p.x - l.offset.x;
        let py = p.y - l.offset.y;
        if py == qy {
            assert(px != qx);
            let row = grown[qy];
            let row1 = cells_with_char(row, qx, c);
            if px < row.len() {
                assert(row1[px] == row[px]);
            } else if px < row1.len() {
                assert(row1[px] == invisible_char());
            }
        }
    }
}

/// Rows added to reach a row leave what the layer shows as it was.
proof fn lemma_grown_shows_same(l: Layer, cells: Seq<Seq<AttributedChar>>, y: int, w: nat, p: Position)
    requires
        w == l.size.width,
    ensures
        char_at(l, cells_grown(cells, y, w), p) == char_at(l, cells, p),
{
    let grown = cells_grown(cells, y, w);
    if p.x >= l.offset.x && p.y >= l.offset.y {
        let px = p.x - l.offset.x;
        let py = p.y - l.offset.y;
        if cells.len() <= py < grown.len() {
            assert(grown[py] == invisible_cells(w));
            if px < w {
                assert(grown[py][px] == invisible_char());
            }
        } else if py < cells.len() {
            assert(grown[py] == cells[py]);
        }
    }
}

} // verus!

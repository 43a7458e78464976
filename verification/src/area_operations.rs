use vstd::prelude::*;

use crate::attributed_char::{invisible_char, is_transparent_char, AttributedChar};
use crate::editor_error::EditorError;
use crate::buffer::Buffer;
use crate::geometry::{rect_in_range, rect_intersect, rect_is_inside, Position, Rectangle, Size};
use crate::layer::{cells_grown, cells_of, char_at, layer_cells, same_layer_props, set_char_cells, Layer};
use crate::line::{cells_with_char, invisible_cells, pad_with_invisible, Line};
use crate::layer::same_layers;
use crate::undo_operations::{
    last_layer_index, layer_change_cells, layer_cells_replaced, layer_replaced, rows_rotated_down, rows_rotated_up, scroll_layer_down,
    scroll_layer_up, Crop, Deselect, EditState, SelectNothing, SetSelection, UndoLayerChange, UndoScrollWholeLayerDown, UndoScrollWholeLayerUp,
};

use crate::undo_stack::{kept, unrecorded, UndoOperation};
verus! {

/// One write of an operation on an area of a layer.
pub enum CellStep {
    /// The cell at `dst` takes what the layer shows at `src` at that moment,
    /// or an invisible cell where there is no source.
    Copy { dst: Position, src: Option<Position> },
    /// The cells at `a` and `b` are exchanged.
    Swap { a: Position, b: Position },
    /// The cell at `dst` takes `ch`.
    Put { dst: Position, ch: AttributedChar },
    /// Nothing is written.
    Keep,
}

/// The position with the coordinates `x` and `y`.
pub open spec fn at(x: int, y: int) -> Position {
    Position { x: x as i32, y: y as i32 }
}

/// The rows of a layer with properties `l` and rows `cells` after one step;
/// every write goes through `set_char`.
pub open spec fn step_applied(l: Layer, cells: Seq<Seq<AttributedChar>>, s: CellStep) -> Seq<Seq<AttributedChar>> {
    match s {
        CellStep::Copy { dst, src } => set_char_cells(l, cells, dst, match src {
            Some(p) => char_at(l, cells, p),
            None => invisible_char(),
        }),
        CellStep::Swap { a, b } => set_char_cells(
            l,
            set_char_cells(l, cells, a, char_at(l, cells, b)),
            b,
            char_at(l, cells, a),
        ),
        CellStep::Put { dst, ch } => set_char_cells(l, cells, dst, ch),
        CellStep::Keep => cells,
    }
}

/// The rows after the steps `ss`, first to last.
pub open spec fn steps_applied(l: Layer, cells: Seq<Seq<AttributedChar>>, ss: Seq<CellStep>) -> Seq<Seq<AttributedChar>>
    decreases ss.len(),
{
    if ss.len() == 0 {
        cells
    } else {
        step_applied(l, steps_applied(l, cells, ss.drop_last()), ss.last())
    }
}

/// The rows after `n` groups of steps, group `k` being `g(c, k)` for the rows
/// `c` that the groups before it left.
pub open spec fn groups_applied(
    l: Layer,
    cells: Seq<Seq<AttributedChar>>,
    n: nat,
    g: spec_fn(Seq<Seq<AttributedChar>>, int) -> Seq<CellStep>,
) -> Seq<Seq<AttributedChar>>
    decreases n,
{
    if n == 0 {
        cells
    } else {
        let prev = groups_applied(l, cells, (n - 1) as nat, g);
        steps_applied(l, prev, g(prev, n - 1))
    }
}

pub proof fn lemma_steps_take(l: Layer, cells: Seq<Seq<AttributedChar>>, ss: Seq<CellStep>, i: int)
    requires
        0 <= i < ss.len(),
    ensures
        steps_applied(l, cells, ss.take(i + 1)) == step_applied(l, steps_applied(l, cells, ss.take(i)), ss[i]),
{
    assert(ss.take(i + 1).drop_last() =~= ss.take(i));
}

/// Two layers with the same properties read and write their cells alike.
pub proof fn lemma_same_props(a: Layer, b: Layer, cells: Seq<Seq<AttributedChar>>, p: Position, c: AttributedChar)
    requires
        same_layer_props(a, b),
    ensures
        char_at(a, cells, p) == char_at(b, cells, p),
        set_char_cells(a, cells, p, c) == set_char_cells(b, cells, p, c),
{
}

/// Two layers with the same properties take the same steps alike.
pub proof fn lemma_steps_same_props(a: Layer, b: Layer, cells: Seq<Seq<AttributedChar>>, ss: Seq<CellStep>)
    requires
        same_layer_props(a, b),
    ensures
        steps_applied(a, cells, ss) == steps_applied(b, cells, ss),
    decreases ss.len(),
{
    if ss.len() > 0 {
        lemma_steps_same_props(a, b, cells, ss.drop_last());
        let prev = steps_applied(a, cells, ss.drop_last());
        match ss.last() {
            CellStep::Copy { dst, src } => {
                let v = match src {
                    Some(p) => char_at(a, prev, p),
                    None => invisible_char(),
                };
                if let Some(p) = src {
                    lemma_same_props(a, b, prev, p, v);
                }
                lemma_same_props(a, b, prev, dst, v);
            },
            CellStep::Swap { a: p1, b: p2 } => {
                lemma_same_props(a, b, prev, p1, char_at(a, prev, p2));
                lemma_same_props(a, b, prev, p2, char_at(a, prev, p1));
                lemma_same_props(a, b, set_char_cells(a, prev, p1, char_at(a, prev, p2)), p2, char_at(a, prev, p1));
            },
            CellStep::Put { dst, ch } => {
                lemma_same_props(a, b, prev, dst, ch);
            },
            CellStep::Keep => {},
        }
    }
}

/// Two layers with the same properties take the same groups of steps alike.
pub proof fn lemma_groups_same_props(
    a: Layer,
    b: Layer,
    cells: Seq<Seq<AttributedChar>>,
    n: nat,
    g: spec_fn(Seq<Seq<AttributedChar>>, int) -> Seq<CellStep>,
)
    requires
        same_layer_props(a, b),
    ensures
        groups_applied(a, cells, n, g) == groups_applied(b, cells, n, g),
    decreases n,
{
    if n > 0 {
        lemma_groups_same_props(a, b, cells, (n - 1) as nat, g);
        let prev = groups_applied(a, cells, (n - 1) as nat, g);
        lemma_steps_same_props(a, b, prev, g(prev, n - 1));
    }
}

/// A cell shows a glyph where it is visible and not transparent.
pub open spec fn shows_glyph(c: AttributedChar) -> bool {
    !c.attribute.invisible && !is_transparent_char(c)
}

/// How many of the `n` cells from `(x, y)` rightwards come before the first
/// that shows a glyph.
pub open spec fn blanks_from(l: Layer, cells: Seq<Seq<AttributedChar>>, x: int, y: int, n: nat) -> nat
    decreases n,
{
    if n == 0 || shows_glyph(char_at(l, cells, at(x, y))) {
        0
    } else {
        1 + blanks_from(l, cells, x + 1, y, (n - 1) as nat)
    }
}

/// How many of the `n` cells from `(x, y)` leftwards come before the first
/// that shows a glyph.
pub open spec fn blanks_back(l: Layer, cells: Seq<Seq<AttributedChar>>, x: int, y: int, n: nat) -> nat
    decreases n,
{
    if n == 0 || shows_glyph(char_at(l, cells, at(x, y))) {
        0
    } else {
        1 + blanks_back(l, cells, x - 1, y, (n - 1) as nat)
    }
}

/// The area's coordinates and their sums stay in the range of `i32`.
pub open spec fn area_in_range(area: Rectangle) -> bool {
    &&& area.size.width <= i32::MAX
    &&& area.size.height <= i32::MAX
    &&& i32::MIN < area.start.x
    &&& i32::MIN < area.start.y
    &&& area.start.x + area.size.width <= i32::MAX
    &&& area.start.y + area.size.height <= i32::MAX
}

/// Row `k` of the area moved left over its leading blanks: each cell takes
/// the one that many cells to its right, and invisible cells fill the end. A
/// row of blanks only is left alone.
pub open spec fn justify_left_row(l: Layer, cells: Seq<Seq<AttributedChar>>, area: Rectangle, k: int) -> Seq<CellStep> {
    let y = area.start.y + k;
    let left = area.start.x as int;
    let w = area.size.width as int;
    let r = blanks_from(l, cells, left, y, w as nat) as int;
    if w <= r {
        Seq::empty()
    } else {
        Seq::new(
            w as nat,
            |i: int|
                CellStep::Copy {
                    dst: at(left + i, y),
                    src: if left + i + r < left + w { Some(at(left + i + r, y)) } else { None },
                },
        )
    }
}

pub open spec fn justify_left_groups(l: Layer, area: Rectangle) -> spec_fn(Seq<Seq<AttributedChar>>, int) -> Seq<CellStep> {
    |c: Seq<Seq<AttributedChar>>, k: int| justify_left_row(l, c, area, k)
}

/// The rows of layer `l` after its area was justified to the left, row by row.
pub open spec fn justify_left_cells(l: Layer, area: Rectangle) -> Seq<Seq<AttributedChar>> {
    groups_applied(l, layer_cells(l), area.size.height as nat, justify_left_groups(l, area))
}

/// Row `k` of the area moved right over its trailing blanks, written from the
/// right end on: the cell `right - x - 1` takes the one `r` cells to its left
/// (`r` the number of trailing blanks) while that lies right of the area's
/// left edge, an invisible cell otherwise. A row of blanks only is left alone.
pub open spec fn justify_right_row(l: Layer, cells: Seq<Seq<AttributedChar>>, area: Rectangle, k: int) -> Seq<CellStep> {
    let y = area.start.y + k;
    let left = area.start.x as int;
    let w = area.size.width as int;
    let right = left + w;
    let r = blanks_back(l, cells, right - 1, y, w as nat) as int;
    if w <= r {
        Seq::empty()
    } else {
        Seq::new(
            w as nat,
            |i: int|
                CellStep::Copy {
                    dst: at(right - (left + i) - 1, y),
                    src: if right - (left + i) - r > left { Some(at(right - (left + i) - r - 1, y)) } else { None },
                },
        )
    }
}

pub open spec fn justify_right_groups(l: Layer, area: Rectangle) -> spec_fn(Seq<Seq<AttributedChar>>, int) -> Seq<CellStep> {
    |c: Seq<Seq<AttributedChar>>, k: int| justify_right_row(l, c, area, k)
}

/// The rows of layer `l` after its area was justified to the right.
pub open spec fn justify_right_cells(l: Layer, area: Rectangle) -> Seq<Seq<AttributedChar>> {
    groups_applied(l, layer_cells(l), area.size.height as nat, justify_right_groups(l, area))
}

/// Row `k` of a left-justified area moved right by half its trailing blanks,
/// rounded up: written from the right end on, the cell `right - x - 1` takes
/// the one at `right - x - r` while that is inside the area's left edge, an
/// invisible cell otherwise.
pub open spec fn center_row(l: Layer, cells: Seq<Seq<AttributedChar>>, area: Rectangle, k: int) -> Seq<CellStep> {
    let y = area.start.y + k;
    let left = area.start.x as int;
    let w = area.size.width as int;
    let right = left + w;
    let blanks = blanks_back(l, cells, right - 1, y, w as nat) as int;
    let r = (blanks + 1) / 2;
    if w <= blanks {
        Seq::empty()
    } else {
        Seq::new(
            w as nat,
            |i: int|
                CellStep::Copy {
                    dst: at(right - (left + i) - 1, y),
                    src: if right - (left + i) - r >= left { Some(at(right - (left + i) - r, y)) } else { None },
                },
        )
    }
}

pub open spec fn center_groups(l: Layer, area: Rectangle) -> spec_fn(Seq<Seq<AttributedChar>>, int) -> Seq<CellStep> {
    |c: Seq<Seq<AttributedChar>>, k: int| center_row(l, c, area, k)
}

/// The rows of layer `l` after its area was centered: justified to the left,
/// then moved right by half of what is left free.
pub open spec fn center_cells(l: Layer, area: Rectangle) -> Seq<Seq<AttributedChar>> {
    groups_applied(l, justify_left_cells(l, area), area.size.height as nat, center_groups(l, area))
}

/// Row `k` of the area mirrored: for `x` from 0 to half the width, both
/// included, the cells `left + x` and `right - x - 1` are exchanged.
pub open spec fn flip_x_row(area: Rectangle, k: int) -> Seq<CellStep> {
    let y = area.start.y + k;
    let left = area.start.x as int;
    let right = left + area.size.width;
    Seq::new((area.size.width / 2 + 1) as nat, |x: int| CellStep::Swap { a: at(left + x, y), b: at(right - x - 1, y) })
}

pub open spec fn flip_x_groups(area: Rectangle) -> spec_fn(Seq<Seq<AttributedChar>>, int) -> Seq<CellStep> {
    |c: Seq<Seq<AttributedChar>>, k: int| flip_x_row(area, k)
}

/// The rows of layer `l` after its area was mirrored left to right.
pub open spec fn flip_x_cells(l: Layer, area: Rectangle) -> Seq<Seq<AttributedChar>> {
    groups_applied(l, layer_cells(l), area.size.height as nat, flip_x_groups(area))
}

/// Column `k` of the area mirrored: for `y` from 0 to half the height, both
/// included, the cells `top + y` and `bottom - 1 - y` are exchanged.
pub open spec fn flip_y_column(area: Rectangle, k: int) -> Seq<CellStep> {
    let x = area.start.x + k;
    let top = area.start.y as int;
    let bottom = top + area.size.height;
    Seq::new((area.size.height / 2 + 1) as nat, |y: int| CellStep::Swap { a: at(x, top + y), b: at(x, bottom - 1 - y) })
}

pub open spec fn flip_y_groups(area: Rectangle) -> spec_fn(Seq<Seq<AttributedChar>>, int) -> Seq<CellStep> {
    |c: Seq<Seq<AttributedChar>>, k: int| flip_y_column(area, k)
}

/// The rows of layer `l` after its area was mirrored top to bottom.
pub open spec fn flip_y_cells(l: Layer, area: Rectangle) -> Seq<Seq<AttributedChar>> {
    groups_applied(l, layer_cells(l), area.size.width as nat, flip_y_groups(area))
}

impl Layer {
    /// How many cells from `(x, y)` rightwards, at most `n`, come before the
    /// first that shows a glyph.
    fn count_blanks_from(&self, x: i32, y: i32, n: i32) -> (res: i32)
        requires
            0 <= n,
            x + n <= i32::MAX,
        ensures
            res == blanks_from(*self, layer_cells(*self), x as int, y as int, n as nat),
    {
        let mut removed: i32 = 0;
        while removed < n
            invariant
                0 <= removed <= n,
                x + n <= i32::MAX,
                blanks_from(*self, layer_cells(*self), x as int, y as int, n as nat) == removed + blanks_from(
                    *self,
                    layer_cells(*self),
                    x + removed,
                    y as int,
                    (n - removed) as nat,
                ),
            decreases n - removed,
        {
            let ch = self.get_char(Position::new(x + removed, y));
            if ch.is_visible() && !ch.is_transparent() {
                return removed;
            }
            removed += 1;
        }
        removed
    }

    /// How many cells from `(x, y)` leftwards, at most `n`, come before the
    /// first that shows a glyph.
    fn count_blanks_back(&self, x: i32, y: i32, n: i32) -> (res: i32)
        requires
            0 <= n,
            n == 0 || i32::MIN <= x - (n - 1),
        ensures
            res == blanks_back(*self, layer_cells(*self), x as int, y as int, n as nat),
    {
        let mut removed: i32 = 0;
        while removed < n
            invariant
                0 <= removed <= n,
                n == 0 || i32::MIN <= x - (n - 1),
                blanks_back(*self, layer_cells(*self), x as int, y as int, n as nat) == removed + blanks_back(
                    *self,
                    layer_cells(*self),
                    x - removed,
                    y as int,
                    (n - removed) as nat,
                ),
            decreases n - removed,
        {
            let ch = self.get_char(Position::new(x - removed, y));
            if ch.is_visible() && !ch.is_transparent() {
                return removed;
            }
            removed += 1;
        }
        removed
    }

    /// Justifies every row of `area` to the left; see `justify_left_row`.
    pub fn justify_left_area(&mut self, area: Rectangle)
        requires
            area_in_range(area),
        ensures
            same_layer_props(*final(self), *old(self)),
            layer_cells(*final(self)) == justify_left_cells(*old(self), area),
    {
        let ghost l0 = *self;
        let left = area.start.x;
        let w = area.size.width as i32;
        let top = area.start.y;
        let h = area.size.height as i32;
        let mut k: i32 = 0;
        while k < h
            invariant
                0 <= k <= h,
                h == area.size.height,
                w == area.size.width,
                left == area.start.x,
                top == area.start.y,
                area_in_range(area),
                same_layer_props(*self, l0),
                layer_cells(*self) == groups_applied(l0, layer_cells(l0), k as nat, justify_left_groups(l0, area)),
            decreases h - k,
        {
            let y = top + k;
            let ghost c0 = layer_cells(*self);
            let removed = self.count_blanks_from(left, y, w);
            proof {
                assert forall|x: int, n: nat| blanks_from(*self, c0, x, y as int, n) == blanks_from(l0, c0, x, y as int, n) by {
                    lemma_blanks_from_same_props(*self, l0, c0, x, y as int, n);
                }
            }
            let ghost steps = justify_left_row(l0, c0, area, k as int);
            if removed < w {
                let mut i: i32 = 0;
                while i < w
                    invariant
                        0 <= i <= w,
                        0 <= removed < w,
                        w == area.size.width,
                        left == area.start.x,
                        y == area.start.y + k,
                        area_in_range(area),
                        0 <= k < area.size.height,
                        steps.len() == w,
                        steps == justify_left_row(l0, c0, area, k as int),
                        removed == blanks_from(l0, c0, left as int, y as int, w as nat),
                        same_layer_props(*self, l0),
                        layer_cells(*self) == steps_applied(l0, c0, steps.take(i as int)),
                    decreases w - i,
                {
                    let x = left + i;
                    let ghost cur = layer_cells(*self);
                    let ch = if removed < w - i {
                        self.get_char(Position::new(x + removed, y))
                    } else {
                        AttributedChar::invisible()
                    };
                    proof {
                        lemma_same_props(*self, l0, cur, at(x + removed, y as int), ch);
                        lemma_same_props(*self, l0, cur, at(x as int, y as int), ch);
                        lemma_steps_take(l0, c0, steps, i as int);
                    }
                    self.set_char(Position::new(x, y), ch);
                    i += 1;
                }
                assert(steps.take(w as int) =~= steps);
            } else {
                assert(steps =~= Seq::<CellStep>::empty());
            }
            k += 1;
        }
    }

    /// Justifies every row of `area` to the right; see `justify_right_row`.
    pub fn justify_right_area(&mut self, area: Rectangle)
        requires
            area_in_range(area),
        ensures
            same_layer_props(*final(self), *old(self)),
            layer_cells(*final(self)) == justify_right_cells(*old(self), area),
    {
        let ghost l0 = *self;
        let h = area.size.height as i32;
        let mut k: i32 = 0;
        while k < h
            invariant
                0 <= k <= h,
                h == area.size.height,
                area_in_range(area),
                same_layer_props(*self, l0),
                layer_cells(*self) == groups_applied(l0, layer_cells(l0), k as nat, justify_right_groups(l0, area)),
            decreases h - k,
        {
            let ghost c0 = layer_cells(*self);
            self.shift_row_right(area, k, false, Ghost(l0));
            assert(justify_right_groups(l0, area)(c0, k as int) == justify_right_row(l0, c0, area, k as int));
            k += 1;
        }
    }

    /// Moves row `k` of `area` to the right: over all its trailing blanks
    /// (`justify_right_row`), or, with `half`, over half of them
    /// (`center_row`).
    fn shift_row_right(&mut self, area: Rectangle, k: i32, half: bool, Ghost(l0): Ghost<Layer>)
        requires
            area_in_range(area),
            0 <= k < area.size.height,
            same_layer_props(*old(self), l0),
        ensures
            same_layer_props(*final(self), l0),
            !half ==> layer_cells(*final(self)) == steps_applied(
                l0,
                layer_cells(*old(self)),
                justify_right_row(l0, layer_cells(*old(self)), area, k as int),
            ),
            half ==> layer_cells(*final(self)) == steps_applied(
                l0,
                layer_cells(*old(self)),
                center_row(l0, layer_cells(*old(self)), area, k as int),
            ),
    {
        let left = area.start.x;
        let w = area.size.width as i32;
        let y = area.start.y + k;
        let ghost c0 = layer_cells(*self);
        let blanks = if w > 0 { self.count_blanks_back(left + w - 1, y, w) } else { 0 };
        proof {
            lemma_blanks_back_same_props(*self, l0, c0, left + w - 1, y as int, w as nat);
        }
        let ghost steps = if half { center_row(l0, c0, area, k as int) } else { justify_right_row(l0, c0, area, k as int) };
        if blanks < w {
            let removed = if half { blanks / 2 + blanks % 2 } else { blanks };
            assert(half ==> removed == (blanks + 1) / 2);
            let mut i: i32 = 0;
            while i < w
                invariant
                    0 <= i <= w,
                    0 <= blanks < w,
                    0 <= removed <= blanks,
                    half ==> removed == (blanks + 1) / 2,
                    !half ==> removed == blanks,
                    w == area.size.width,
                    left == area.start.x,
                    y == area.start.y + k,
                    area_in_range(area),
                    0 <= k < area.size.height,
                    steps == if half { center_row(l0, c0, area, k as int) } else { justify_right_row(l0, c0, area, k as int) },
                    steps.len() == w,
                    blanks == blanks_back(l0, c0, left + w - 1, y as int, w as nat),
                    same_layer_props(*self, l0),
                    layer_cells(*self) == steps_applied(l0, c0, steps.take(i as int)),
                decreases w - i,
            {
                let ghost cur = layer_cells(*self);
                let dst = w - i - 1;
                let ch = if half {
                    if w - i - removed >= left {
                        self.get_char(Position::new(w - i - removed, y))
                    } else {
                        AttributedChar::invisible()
                    }
                } else {
                    if w - i - removed > left {
                        self.get_char(Position::new(w - i - removed - 1, y))
                    } else {
                        AttributedChar::invisible()
                    }
                };
                proof {
                    lemma_same_props(*self, l0, cur, at(w - i - removed, y as int), ch);
                    lemma_same_props(*self, l0, cur, at(w - i - removed - 1, y as int), ch);
                    lemma_same_props(*self, l0, cur, at(dst as int, y as int), ch);
                    lemma_steps_take(l0, c0, steps, i as int);
                }
                self.set_char(Position::new(dst, y), ch);
                i += 1;
            }
            assert(steps.take(w as int) =~= steps);
        } else {
            assert(steps =~= Seq::<CellStep>::empty());
        }
    }

    /// Centers every row of `area`: justified to the left, then moved right
    /// by half of what is left free.
    pub fn center_area(&mut self, area: Rectangle)
        requires
            area_in_range(area),
        ensures
            same_layer_props(*final(self), *old(self)),
            layer_cells(*final(self)) == center_cells(*old(self), area),
    {
        let ghost l0 = *self;
        self.justify_left_area(area);
        let h = area.size.height as i32;
        let mut k: i32 = 0;
        while k < h
            invariant
                0 <= k <= h,
                h == area.size.height,
                area_in_range(area),
                same_layer_props(*self, l0),
                layer_cells(*self) == groups_applied(l0, justify_left_cells(l0, area), k as nat, center_groups(l0, area)),
            decreases h - k,
        {
            let ghost c0 = layer_cells(*self);
            self.shift_row_right(area, k, true, Ghost(l0));
            assert(center_groups(l0, area)(c0, k as int) == center_row(l0, c0, area, k as int));
            k += 1;
        }
    }

    /// Mirrors `area` left to right; see `flip_x_row`.
    pub fn flip_x_area(&mut self, area: Rectangle)
        requires
            area_in_range(area),
        ensures
            same_layer_props(*final(self), *old(self)),
            layer_cells(*final(self)) == flip_x_cells(*old(self), area),
    {
        let ghost l0 = *self;
        let left = area.start.x;
        let w = area.size.width as i32;
        let h = area.size.height as i32;
        let max = w / 2;
        let mut k: i32 = 0;
        while k < h
            invariant
                0 <= k <= h,
                h == area.size.height,
                w == area.size.width,
                left == area.start.x,
                max == w / 2,
                area_in_range(area),
                same_layer_props(*self, l0),
                layer_cells(*self) == groups_applied(l0, layer_cells(l0), k as nat, flip_x_groups(area)),
            decreases h - k,
        {
            let y = area.start.y + k;
            let ghost c0 = layer_cells(*self);
            let ghost steps = flip_x_row(area, k as int);
            let mut x: i32 = 0;
            while x <= max
                invariant
                    0 <= x <= max + 1,
                    w == area.size.width,
                    left == area.start.x,
                    max == w / 2,
                    y == area.start.y + k,
                    area_in_range(area),
                    steps == flip_x_row(area, k as int),
                    steps.len() == max + 1,
                    same_layer_props(*self, l0),
                    layer_cells(*self) == steps_applied(l0, c0, steps.take(x as int)),
                decreases max + 1 - x,
            {
                let ghost cur = layer_cells(*self);
                let p1 = Position::new(left + x, y);
                let p2 = Position::new(left + w - x - 1, y);
                proof {
                    lemma_same_props(*self, l0, cur, p1, char_at(l0, cur, p2));
                    lemma_same_props(*self, l0, cur, p2, char_at(l0, cur, p1));
                    lemma_same_props(*self, l0, set_char_cells(l0, cur, p1, char_at(l0, cur, p2)), p2, char_at(l0, cur, p1));
                    lemma_steps_take(l0, c0, steps, x as int);
                }
                self.swap_char(p1, p2);
                x += 1;
            }
            assert(steps.take(max + 1) =~= steps);
            assert(flip_x_groups(area)(c0, k as int) == flip_x_row(area, k as int));
            k += 1;
        }
    }

    /// Mirrors `area` top to bottom; see `flip_y_column`.
    pub fn flip_y_area(&mut self, area: Rectangle)
        requires
            area_in_range(area),
        ensures
            same_layer_props(*final(self), *old(self)),
            layer_cells(*final(self)) == flip_y_cells(*old(self), area),
    {
        let ghost l0 = *self;
        let top = area.start.y;
        let w = area.size.width as i32;
        let h = area.size.height as i32;
        let max = h / 2;
        let mut k: i32 = 0;
        while k < w
            invariant
                0 <= k <= w,
                h == area.size.height,
                w == area.size.width,
                top == area.start.y,
                max == h / 2,
                area_in_range(area),
                same_layer_props(*self, l0),
                layer_cells(*self) == groups_applied(l0, layer_cells(l0), k as nat, flip_y_groups(area)),
            decreases w - k,
        {
            let x = area.start.x + k;
            let ghost c0 = layer_cells(*self);
            let ghost steps = flip_y_column(area, k as int);
            let mut y: i32 = 0;
            while y <= max
                invariant
                    0 <= y <= max + 1,
                    h == area.size.height,
                    top == area.start.y,
                    max == h / 2,
                    x == area.start.x + k,
                    0 <= k < w,
                    w == area.size.width,
                    area_in_range(area),
                    steps == flip_y_column(area, k as int),
                    steps.len() == max + 1,
                    same_layer_props(*self, l0),
                    layer_cells(*self) == steps_applied(l0, c0, steps.take(y as int)),
                decreases max + 1 - y,
            {
                let ghost cur = layer_cells(*self);
                let p1 = Position::new(x, top + y);
                let p2 = Position::new(x, top + h - 1 - y);
                proof {
                    lemma_same_props(*self, l0, cur, p1, char_at(l0, cur, p2));
                    lemma_same_props(*self, l0, cur, p2, char_at(l0, cur, p1));
                    lemma_same_props(*self, l0, set_char_cells(l0, cur, p1, char_at(l0, cur, p2)), p2, char_at(l0, cur, p1));
                    lemma_steps_take(l0, c0, steps, y as int);
                }
                self.swap_char(p1, p2);
                y += 1;
            }
            assert(steps.take(max + 1) =~= steps);
            assert(flip_y_groups(area)(c0, k as int) == flip_y_column(area, k as int));
            k += 1;
        }
    }
}

pub proof fn lemma_blanks_from_same_props(a: Layer, b: Layer, cells: Seq<Seq<AttributedChar>>, x: int, y: int, n: nat)
    requires
        same_layer_props(a, b),
    ensures
        blanks_from(a, cells, x, y, n) == blanks_from(b, cells, x, y, n),
    decreases n,
{
    if n > 0 {
        lemma_blanks_from_same_props(a, b, cells, x + 1, y, (n - 1) as nat);
    }
}

pub proof fn lemma_blanks_back_same_props(a: Layer, b: Layer, cells: Seq<Seq<AttributedChar>>, x: int, y: int, n: nat)
    requires
        same_layer_props(a, b),
    ensures
        blanks_back(a, cells, x, y, n) == blanks_back(b, cells, x, y, n),
    decreases n,
{
    if n > 0 {
        lemma_blanks_back_same_props(a, b, cells, x - 1, y, (n - 1) as nat);
    }
}

/// Row `k` of `src` written at `pos + (0, k)` onwards, cell by cell.
pub open spec fn stamp_row(src: Layer, pos: Position, k: int) -> Seq<CellStep> {
    Seq::new(
        src.size.width as nat,
        |x: int| CellStep::Put { dst: at(pos.x + x, pos.y + k), ch: char_at(src, layer_cells(src), at(x, k)) },
    )
}

pub open spec fn stamp_groups(src: Layer, pos: Position) -> spec_fn(Seq<Seq<AttributedChar>>, int) -> Seq<CellStep> {
    |c: Seq<Seq<AttributedChar>>, k: int| stamp_row(src, pos, k)
}

/// The rows of layer `l` after every cell that `src` shows within its size
/// was written at `pos` plus the cell's position.
pub open spec fn stamp_cells(l: Layer, pos: Position, src: Layer) -> Seq<Seq<AttributedChar>> {
    groups_applied(l, layer_cells(l), src.size.height as nat, stamp_groups(src, pos))
}

/// `src` fits at `pos` without leaving the coordinate range.
pub open spec fn stamp_fits(pos: Position, src: Layer) -> bool {
    &&& src.size.width <= i32::MAX
    &&& src.size.height <= i32::MAX
    &&& pos.x + src.size.width <= i32::MAX
    &&& pos.y + src.size.height <= i32::MAX
}

impl Layer {
    /// Writes every cell that `src` shows within its size at `pos` plus the
    /// cell's position.
    pub fn stamp(&mut self, pos: Position, src: &Layer)
        requires
            stamp_fits(pos, *src),
        ensures
            same_layer_props(*final(self), *old(self)),
            layer_cells(*final(self)) == stamp_cells(*old(self), pos, *src),
    {
        let ghost l0 = *self;
        let w = src.size.width as i32;
        let h = src.size.height as i32;
        let mut k: i32 = 0;
        while k < h
            invariant
                0 <= k <= h,
                h == src.size.height,
                w == src.size.width,
                stamp_fits(pos, *src),
                same_layer_props(*self, l0),
                layer_cells(*self) == groups_applied(l0, layer_cells(l0), k as nat, stamp_groups(*src, pos)),
            decreases h - k,
        {
            let ghost c0 = layer_cells(*self);
            let ghost steps = stamp_row(*src, pos, k as int);
            let mut x: i32 = 0;
            while x < w
                invariant
                    0 <= x <= w,
                    0 <= k < h,
                    h == src.size.height,
                    w == src.size.width,
                    stamp_fits(pos, *src),
                    steps == stamp_row(*src, pos, k as int),
                    steps.len() == w,
                    same_layer_props(*self, l0),
                    layer_cells(*self) == steps_applied(l0, c0, steps.take(x as int)),
                decreases w - x,
            {
                let ghost cur = layer_cells(*self);
                let ch = src.get_char(Position::new(x, k));
                let dst = Position::new(pos.x + x, pos.y + k);
                proof {
                    lemma_same_props(*self, l0, cur, dst, ch);
                    lemma_steps_take(l0, c0, steps, x as int);
                }
                self.set_char(dst, ch);
                x += 1;
            }
            assert(steps.take(w as int) =~= steps);
            assert(stamp_groups(*src, pos)(c0, k as int) == stamp_row(*src, pos, k as int));
            k += 1;
        }
    }

    /// The rectangle that the layer covers on the buffer.
    pub fn get_rectangle(&self) -> (res: Rectangle)
        ensures
            res == layer_rect(*self),
    {
        Rectangle { start: self.offset, size: self.size }
    }
}

/// The rectangle that layer `l` covers on the buffer.
pub open spec fn layer_rect(l: Layer) -> Rectangle {
    Rectangle { start: l.offset, size: l.size }
}

/// The area of layer `l` that an operation works on: the part of the
/// selection `sel` that the layer covers, or the whole layer, in the layer's
/// own coordinates.
pub open spec fn area_of(sel: Option<Rectangle>, l: Layer) -> Rectangle {
    match sel {
        Some(r) => {
            let i = rect_intersect(r, layer_rect(l));
            Rectangle { start: at(i.start.x - l.offset.x, i.start.y - l.offset.y), size: i.size }
        },
        None => Rectangle { start: at(0, 0), size: l.size },
    }
}

/// The layer and the selection lie in the coordinate range, and so does the
/// selection's start seen from the layer.
pub open spec fn area_fits(sel: Option<Rectangle>, l: Layer) -> bool {
    &&& rect_in_range(layer_rect(l))
    &&& match sel {
        Some(r) => rect_in_range(r) && r.start.x - l.offset.x <= i32::MAX && r.start.y - l.offset.y <= i32::MAX,
        None => true,
    }
}

/// The area of `layer` that an operation works on; see `area_of`.
pub fn get_area(sel: Option<Rectangle>, layer: &Layer) -> (res: Rectangle)
    requires
        area_fits(sel, *layer),
    ensures
        res == area_of(sel, *layer),
        area_in_range(res),
        res.start.x >= 0,
        res.start.y >= 0,
{
    let rect = layer.get_rectangle();
    match sel {
        Some(r) => {
            let i = r.intersect(&rect);
            Rectangle { start: Position::new(i.start.x - rect.start.x, i.start.y - rect.start.y), size: i.size }
        },
        None => Rectangle { start: Position::new(0, 0), size: rect.size },
    }
}

/// The layer that an editor works on: its current layer, held to the
/// layers there are.
pub open spec fn current_layer_index(es: EditState) -> int {
    let last = last_layer_index(es.buffer.layers@.len() as int);
    if es.current_layer > last { last } else { es.current_layer as int }
}

/// The operations on the selected area of the current layer.
pub enum AreaOperation {
    JustifyLeft,
    JustifyRight,
    Center,
    FlipX,
    FlipY,
}

/// The rows of layer `l` after `op` on its area `area`.
pub open spec fn area_operation_cells(op: AreaOperation, l: Layer, area: Rectangle) -> Seq<Seq<AttributedChar>> {
    match op {
        AreaOperation::JustifyLeft => justify_left_cells(l, area),
        AreaOperation::JustifyRight => justify_right_cells(l, area),
        AreaOperation::Center => center_cells(l, area),
        AreaOperation::FlipX => flip_x_cells(l, area),
        AreaOperation::FlipY => flip_y_cells(l, area),
    }
}

/// `change` records that layer `i` went from `before` to `after`, the
/// change made at `pos`.
pub open spec fn records_change(change: UndoLayerChange, i: int, pos: Position, before: Layer, after: Layer) -> bool {
    &&& change.layer == i
    &&& change.pos == pos
    &&& same_layer_props(change.old_chars, before)
    &&& layer_cells(change.old_chars) == layer_cells(before)
    &&& same_layer_props(change.new_chars, after)
    &&& layer_cells(change.new_chars) == layer_cells(after)
}

/// What an operation on the selected area does: without layers it fails
/// with `CurrentLayerInvalid` and changes nothing; otherwise the current
/// layer's cells become `cells(layer, area)` and the change is recorded.
pub open spec fn area_operation_done(
    op: AreaOperation,
    es0: EditState,
    es1: EditState,
    res: Result<UndoLayerChange, EditorError>,
) -> bool {
    if es0.buffer.layers@.len() == 0 {
        res == Err::<UndoLayerChange, EditorError>(EditorError::CurrentLayerInvalid) && es1 == es0
    } else {
        let i = current_layer_index(es0);
        let l = es0.buffer.layers@[i];
        let area = area_of(es0.selection, l);
        &&& layer_cells_replaced(es0, es1, i, area_operation_cells(op, l, area))
        &&& res matches Ok(change) && records_change(change, i, area.start, l, es1.buffer.layers@[i])
    }
}

/// The current layer's area lies in the coordinate range, where there is a
/// current layer.
pub open spec fn current_area_fits(es: EditState) -> bool {
    es.buffer.layers@.len() > 0 ==> area_fits(es.selection, es.buffer.layers@[current_layer_index(es)])
}

impl EditState {
    /// The index of the layer that editing works on.
    pub fn get_current_layer(&self) -> (res: usize)
        ensures
            res == current_layer_index(*self),
    {
        let last = if self.buffer.layers.len() > 0 { self.buffer.layers.len() - 1 } else { 0 };
        if self.current_layer > last { last } else { self.current_layer }
    }

    /// The selected rectangle, if any.
    pub fn get_selection(&self) -> (res: Option<Rectangle>)
        ensures
            res == self.selection,
    {
        self.selection
    }

    /// Selects the rectangle `sel`; gives back the operation that goes
    /// back to the selection before, where the selection changed.
    pub(crate) fn set_selection_op(&mut self, sel: Rectangle) -> (res: Result<Option<SetSelection>, EditorError>)
        ensures
            set_selection_done(*old(self), sel, *final(self), res),
            final(self).undo_stack == old(self).undo_stack,
            final(self).redo_stack == old(self).redo_stack,
    {
        let selection = Some(sel);
        if self.selection == selection {
            return Ok(None);
        }
        let op = SetSelection::new(self.selection, selection);
        let _ = op.redo(self);
        Ok(Some(op))
    }

    /// Selects the rectangle `sel`. The change is kept as the operation to undo
    /// next.
    pub fn set_selection(&mut self, sel: Rectangle) -> (res: Result<(), EditorError>)
        ensures
            match res {
                Ok(()) => ((final(self).undo_stack@.last() matches UndoOperation::SetSelection(op)
                    && set_selection_done(*old(self), sel, unrecorded(*final(self), *old(self)), Ok(Some(op)))
                    && kept(*old(self), *final(self), UndoOperation::SetSelection(op)))) || set_selection_done(*old(self), sel, *final(self), Ok(None)),
                Err(e) => set_selection_done(*old(self), sel, *final(self), Err(e)),
            },
    {
        match self.set_selection_op(sel) {
            Ok(Some(op)) => {
                self.record_undo(UndoOperation::SetSelection(op));
                Ok(())
            },
            Ok(None) => Ok(()),
            Err(e) => Err(e),
        }
    }

    /// Selects nothing; gives back the operation that selects again what
    /// was selected, where something was.
    pub(crate) fn clear_selection_op(&mut self) -> (res: Result<Option<SelectNothing>, EditorError>)
        ensures
            clear_selection_done(*old(self), *final(self), res),
            final(self).undo_stack == old(self).undo_stack,
            final(self).redo_stack == old(self).redo_stack,
    {
        if self.selection.is_none() {
            return Ok(None);
        }
        let op = SelectNothing::new(self.selection);
        let _ = op.redo(self);
        Ok(Some(op))
    }

    /// Selects nothing. The change is kept as the operation to undo next.
    pub fn clear_selection(&mut self) -> (res: Result<(), EditorError>)
        ensures
            match res {
                Ok(()) => ((final(self).undo_stack@.last() matches UndoOperation::SelectNothing(op)
                    && clear_selection_done(*old(self), unrecorded(*final(self), *old(self)), Ok(Some(op)))
                    && kept(*old(self), *final(self), UndoOperation::SelectNothing(op)))) || clear_selection_done(*old(self), *final(self), Ok(None)),
                Err(e) => clear_selection_done(*old(self), *final(self), Err(e)),
            },
    {
        match self.clear_selection_op() {
            Ok(Some(op)) => {
                self.record_undo(UndoOperation::SelectNothing(op));
                Ok(())
            },
            Ok(None) => Ok(()),
            Err(e) => Err(e),
        }
    }

    /// Drops the selection; gives back the operation that selects it again,
    /// where something was selected.
    pub(crate) fn deselect_op(&mut self) -> (res: Option<Deselect>)
        ensures
            deselect_done(*old(self), *final(self), res),
            final(self).undo_stack == old(self).undo_stack,
            final(self).redo_stack == old(self).redo_stack,
    {
        match self.selection {
            Some(sel) => {
                let op = Deselect::new(sel);
                let _ = op.redo(self);
                Some(op)
            },
            None => None,
        }
    }

    /// Drops the selection. The change is kept as the operation to undo next.
    pub fn deselect(&mut self) -> (res: Result<(), EditorError>)
        ensures
            res is Ok,
            ((final(self).undo_stack@.last() matches UndoOperation::Deselect(op)
                && deselect_done(*old(self), unrecorded(*final(self), *old(self)), Some(op))
                && kept(*old(self), *final(self), UndoOperation::Deselect(op)))) || deselect_done(*old(self), *final(self), None),
    {
        match self.deselect_op() {
            Some(op) => self.record_undo(UndoOperation::Deselect(op)),
            None => {},
        }
        Ok(())
    }

    /// Whether a rectangle is selected.
    pub fn is_something_selected(&self) -> (res: bool)
        ensures
            res == self.selection is Some,
    {
        self.selection.is_some()
    }

    /// Whether `pos` lies inside the selection.
    pub fn get_is_selected(&self, pos: Position) -> (res: bool)
        ensures
            res == (self.selection matches Some(r) && crate::geometry::rect_is_inside(r, pos)),
    {
        match self.selection {
            Some(r) => r.is_inside(pos),
            None => false,
        }
    }

    /// Runs `op` on the selected area of the current layer (the whole layer
    /// where nothing is selected) and gives back the recorded change.
    pub(crate) fn apply_area_operation(&mut self, op: AreaOperation) -> (res: Result<UndoLayerChange, EditorError>)
        requires
            current_area_fits(*old(self)),
        ensures
            area_operation_done(op, *old(self), *final(self), res),
    {
        if self.buffer.layers.len() == 0 {
            return Err(EditorError::CurrentLayerInvalid);
        }
        let i = self.get_current_layer();
        let area = get_area(self.selection, &self.buffer.layers[i]);
        let old_layer = self.buffer.layers[i].duplicate();
        let ghost ls = self.buffer.layers@;
        match op {
            AreaOperation::JustifyLeft => self.buffer.layers[i].justify_left_area(area),
            AreaOperation::JustifyRight => self.buffer.layers[i].justify_right_area(area),
            AreaOperation::Center => self.buffer.layers[i].center_area(area),
            AreaOperation::FlipX => self.buffer.layers[i].flip_x_area(area),
            AreaOperation::FlipY => self.buffer.layers[i].flip_y_area(area),
        }
        assert forall|k: int| 0 <= k < ls.len() && k != i implies self.buffer.layers@[k] == #[trigger] ls[k] by {}
        let new_layer = self.buffer.layers[i].duplicate();
        Ok(UndoLayerChange::new(i, area.start, old_layer, new_layer))
    }

    /// Justifies the selected area to the left; see `justify_left_row`.
    pub(crate) fn justify_left_op(&mut self) -> (res: Result<UndoLayerChange, EditorError>)
        requires
            current_area_fits(*old(self)),
        ensures
            justify_left_done(*old(self), *final(self), res),
            final(self).undo_stack == old(self).undo_stack,
            final(self).redo_stack == old(self).redo_stack,
    {
        self.apply_area_operation(AreaOperation::JustifyLeft)
    }

    /// Justifies the selected area to the left; see `justify_left_row`. The
    /// change is kept as the operation to undo next.
    pub fn justify_left(&mut self) -> (res: Result<(), EditorError>)
        requires
            current_area_fits(*old(self)),
        ensures
            match res {
                Ok(()) => (final(self).undo_stack@.last() matches UndoOperation::UndoLayerChange(op)
                    && justify_left_done(*old(self), unrecorded(*final(self), *old(self)), Ok(op))
                    && kept(*old(self), *final(self), UndoOperation::UndoLayerChange(op))),
                Err(e) => justify_left_done(*old(self), *final(self), Err(e)),
            },
    {
        match self.justify_left_op() {
            Ok(op) => {
                self.record_undo(UndoOperation::UndoLayerChange(op));
                Ok(())
            },
            Err(e) => Err(e),
        }
    }

    /// Justifies the selected area to the right; see `justify_right_row`.
    pub(crate) fn justify_right_op(&mut self) -> (res: Result<UndoLayerChange, EditorError>)
        requires
            current_area_fits(*old(self)),
        ensures
            justify_right_done(*old(self), *final(self), res),
            final(self).undo_stack == old(self).undo_stack,
            final(self).redo_stack == old(self).redo_stack,
    {
        self.apply_area_operation(AreaOperation::JustifyRight)
    }

    /// Justifies the selected area to the right; see `justify_right_row`. The
    /// change is kept as the operation to undo next.
    pub fn justify_right(&mut self) -> (res: Result<(), EditorError>)
        requires
            current_area_fits(*old(self)),
        ensures
            match res {
                Ok(()) => (final(self).undo_stack@.last() matches UndoOperation::UndoLayerChange(op)
                    && justify_right_done(*old(self), unrecorded(*final(self), *old(self)), Ok(op))
                    && kept(*old(self), *final(self), UndoOperation::UndoLayerChange(op))),
                Err(e) => justify_right_done(*old(self), *final(self), Err(e)),
            },
    {
        match self.justify_right_op() {
            Ok(op) => {
                self.record_undo(UndoOperation::UndoLayerChange(op));
                Ok(())
            },
            Err(e) => Err(e),
        }
    }

    /// Centers the selected area; see `center_cells`. One change records
    /// both of its passes.
    pub(crate) fn center_op(&mut self) -> (res: Result<UndoLayerChange, EditorError>)
        requires
            current_area_fits(*old(self)),
        ensures
            center_done(*old(self), *final(self), res),
            final(self).undo_stack == old(self).undo_stack,
            final(self).redo_stack == old(self).redo_stack,
    {
        self.apply_area_operation(AreaOperation::Center)
    }

    /// Centers the selected area; see `center_cells`. One change records both
    /// of its passes. The change is kept as the operation to undo next.
    pub fn center(&mut self) -> (res: Result<(), EditorError>)
        requires
            current_area_fits(*old(self)),
        ensures
            match res {
                Ok(()) => (final(self).undo_stack@.last() matches UndoOperation::UndoLayerChange(op)
                    && center_done(*old(self), unrecorded(*final(self), *old(self)), Ok(op))
                    && kept(*old(self), *final(self), UndoOperation::UndoLayerChange(op))),
                Err(e) => center_done(*old(self), *final(self), Err(e)),
            },
    {
        match self.center_op() {
            Ok(op) => {
                self.record_undo(UndoOperation::UndoLayerChange(op));
                Ok(())
            },
            Err(e) => Err(e),
        }
    }

    /// Mirrors the selected area left to right; see `flip_x_row`.
    pub(crate) fn flip_x_op(&mut self) -> (res: Result<UndoLayerChange, EditorError>)
        requires
            current_area_fits(*old(self)),
        ensures
            flip_x_done(*old(self), *final(self), res),
            final(self).undo_stack == old(self).undo_stack,
            final(self).redo_stack == old(self).redo_stack,
    {
        self.apply_area_operation(AreaOperation::FlipX)
    }

    /// Mirrors the selected area left to right; see `flip_x_row`. The change is
    /// kept as the operation to undo next.
    pub fn flip_x(&mut self) -> (res: Result<(), EditorError>)
        requires
            current_area_fits(*old(self)),
        ensures
            match res {
                Ok(()) => (final(self).undo_stack@.last() matches UndoOperation::UndoLayerChange(op)
                    && flip_x_done(*old(self), unrecorded(*final(self), *old(self)), Ok(op))
                    && kept(*old(self), *final(self), UndoOperation::UndoLayerChange(op))),
                Err(e) => flip_x_done(*old(self), *final(self), Err(e)),
            },
    {
        match self.flip_x_op() {
            Ok(op) => {
                self.record_undo(UndoOperation::UndoLayerChange(op));
                Ok(())
            },
            Err(e) => Err(e),
        }
    }

    /// Mirrors the selected area top to bottom; see `flip_y_column`.
    pub(crate) fn flip_y_op(&mut self) -> (res: Result<UndoLayerChange, EditorError>)
        requires
            current_area_fits(*old(self)),
        ensures
            flip_y_done(*old(self), *final(self), res),
            final(self).undo_stack == old(self).undo_stack,
            final(self).redo_stack == old(self).redo_stack,
    {
        self.apply_area_operation(AreaOperation::FlipY)
    }

    /// Mirrors the selected area top to bottom; see `flip_y_column`. The change
    /// is kept as the operation to undo next.
    pub fn flip_y(&mut self) -> (res: Result<(), EditorError>)
        requires
            current_area_fits(*old(self)),
        ensures
            match res {
                Ok(()) => (final(self).undo_stack@.last() matches UndoOperation::UndoLayerChange(op)
                    && flip_y_done(*old(self), unrecorded(*final(self), *old(self)), Ok(op))
                    && kept(*old(self), *final(self), UndoOperation::UndoLayerChange(op))),
                Err(e) => flip_y_done(*old(self), *final(self), Err(e)),
            },
    {
        match self.flip_y_op() {
            Ok(op) => {
                self.record_undo(UndoOperation::UndoLayerChange(op));
                Ok(())
            },
            Err(e) => Err(e),
        }
    }
}

/// `row` padded with invisible cells to at least `n` cells.
pub open spec fn padded(row: Seq<AttributedChar>, n: int) -> Seq<AttributedChar> {
    if row.len() < n {
        row + invisible_cells((n - row.len()) as nat)
    } else {
        row
    }
}

/// How the rows of an area change when the area scrolls.
pub enum ScrollDirection {
    Up,
    Down,
    Left,
    Right,
}

/// Row `y` of an area from `left` to `right` and from `top` to `bottom`,
/// every row padded to the area's right edge first, after the area scrolled
/// one step in direction `dir`. Left and right turn the row's cells in the
/// area one place, the one pushed out coming in at the other end. Up and
/// down give each row the area's cells of the row below or above, the last
/// row taking those of the first; an area of one row loses its cells from
/// the row instead.
pub open spec fn scrolled_row(
    cells: Seq<Seq<AttributedChar>>,
    dir: ScrollDirection,
    left: int,
    right: int,
    top: int,
    bottom: int,
    y: int,
) -> Seq<AttributedChar> {
    let p = padded(cells[y], right);
    match dir {
        ScrollDirection::Left => p.subrange(0, left) + p.subrange(left + 1, right).push(p[left]) + p.subrange(right, p.len() as int),
        ScrollDirection::Right => p.subrange(0, left).push(p[right - 1]) + p.subrange(left, right - 1) + p.subrange(
            right,
            p.len() as int,
        ),
        ScrollDirection::Up => {
            let q = padded(cells[if y + 1 < bottom { y + 1 } else { top }], right);
            if bottom - top == 1 {
                p.subrange(0, left) + p.subrange(right, p.len() as int)
            } else {
                p.subrange(0, left) + q.subrange(left, right) + p.subrange(right, p.len() as int)
            }
        },
        ScrollDirection::Down => {
            let q = padded(cells[if y > top { y - 1 } else { bottom - 1 }], right);
            if bottom - top == 1 {
                p.subrange(0, left) + p.subrange(right, p.len() as int)
            } else {
                p.subrange(0, left) + q.subrange(left, right) + p.subrange(right, p.len() as int)
            }
        },
    }
}

/// The rows after the non-empty area `area` scrolled in direction `dir`;
/// rows outside the area stay.
pub open spec fn scrolled_cells(cells: Seq<Seq<AttributedChar>>, dir: ScrollDirection, area: Rectangle) -> Seq<Seq<AttributedChar>> {
    let left = area.start.x as int;
    let right = left + area.size.width;
    let top = area.start.y as int;
    let bottom = top + area.size.height;
    Seq::new(
        cells.len(),
        |y: int|
            if top <= y < bottom {
                scrolled_row(cells, dir, left, right, top, bottom, y)
            } else {
                cells[y]
            },
    )
}

/// Appends `src[from..to]` to `dst`.
fn push_range(dst: &mut Vec<AttributedChar>, src: &Vec<AttributedChar>, from: usize, to: usize)
    requires
        from <= to <= src@.len(),
    ensures
        final(dst)@ == old(dst)@ + src@.subrange(from as int, to as int),
{
    let mut i = from;
    while i < to
        invariant
            from <= i <= to <= src@.len(),
            dst@ == old(dst)@ + src@.subrange(from as int, i as int),
        decreases to - i,
    {
        dst.push(src[i]);
        i += 1;
        assert(dst@ =~= old(dst)@ + src@.subrange(from as int, i as int));
    }
}

/// A copy of `row` padded with invisible cells to at least `n` cells.
fn padded_copy(row: &Vec<AttributedChar>, n: usize) -> (res: Vec<AttributedChar>)
    ensures
        res@ == padded(row@, n as int),
{
    let mut res: Vec<AttributedChar> = Vec::new();
    push_range(&mut res, row, 0, row.len());
    assert(res@ =~= row@);
    pad_with_invisible(&mut res, n);
    res
}

impl Layer {
    /// Scrolls the non-empty area `area` one step in direction `dir`; see
    /// `scrolled_row`.
    pub fn scroll_area(&mut self, area: Rectangle, dir: ScrollDirection)
        requires
            area_in_range(area),
            area.start.x >= 0,
            area.start.y >= 0,
            area.size.width > 0,
            area.size.height > 0,
            area.start.y + area.size.height <= old(self).lines@.len(),
        ensures
            same_layer_props(*final(self), *old(self)),
            layer_cells(*final(self)) == scrolled_cells(layer_cells(*old(self)), dir, area),
    {
        let ghost c0 = layer_cells(*self);
        let left = area.start.x as usize;
        let right = left + area.size.width;
        let top = area.start.y as usize;
        let bottom = top + area.size.height;
        let mut rows: Vec<Vec<AttributedChar>> = Vec::new();
        let mut y = top;
        while y < bottom
            invariant
                top <= y <= bottom <= self.lines@.len(),
                left == area.start.x,
                right == left + area.size.width,
                top == area.start.y,
                bottom == top + area.size.height,
                0 < area.size.width,
                0 < area.size.height,
                layer_cells(*self) == c0,
                rows@.len() == y - top,
                forall|k: int| 0 <= k < rows@.len() ==> #[trigger] rows@[k]@ == scrolled_row(
                    c0,
                    dir,
                    left as int,
                    right as int,
                    top as int,
                    bottom as int,
                    top + k,
                ),
            decreases bottom - y,
        {
            let p = padded_copy(&self.lines[y].chars, right);
            assert(c0[y as int] == self.lines@[y as int].chars@);
            let mut row: Vec<AttributedChar> = Vec::new();
            match dir {
                ScrollDirection::Left => {
                    push_range(&mut row, &p, 0, left);
                    push_range(&mut row, &p, left + 1, right);
                    row.push(p[left]);
                    push_range(&mut row, &p, right, p.len());
                },
                ScrollDirection::Right => {
                    push_range(&mut row, &p, 0, left);
                    row.push(p[right - 1]);
                    push_range(&mut row, &p, left, right - 1);
                    push_range(&mut row, &p, right, p.len());
                },
                ScrollDirection::Up | ScrollDirection::Down => {
                    let other = match dir {
                        ScrollDirection::Up => if y + 1 < bottom { y + 1 } else { top },
                        _ => if y > top { y - 1 } else { bottom - 1 },
                    };
                    assert(c0[other as int] == self.lines@[other as int].chars@);
                    let q = padded_copy(&self.lines[other].chars, right);
                    push_range(&mut row, &p, 0, left);
                    if bottom - top != 1 {
                        push_range(&mut row, &q, left, right);
                    }
                    push_range(&mut row, &p, right, p.len());
                },
            }
            rows.push(row);
            y += 1;
        }
        self.put_rows(top, rows);
        assert(layer_cells(*self) =~= scrolled_cells(c0, dir, area));
    }

    /// Puts `rows` in place of the rows from `top` on.
    fn put_rows(&mut self, top: usize, rows: Vec<Vec<AttributedChar>>)
        requires
            top + rows@.len() <= old(self).lines@.len(),
        ensures
            same_layer_props(*final(self), *old(self)),
            layer_cells(*final(self)) == Seq::new(
                layer_cells(*old(self)).len(),
                |y: int|
                    if top <= y < top + rows@.len() {
                        rows@[y - top]@
                    } else {
                        layer_cells(*old(self))[y]
                    },
            ),
    {
        let ghost c0 = layer_cells(*self);
        let ghost r0 = rows@;
        let mut rows = rows;
        let n = rows.len();
        let mut k: usize = 0;
        while k < n
            invariant
                k <= n == r0.len(),
                top + n <= self.lines@.len(),
                rows@.len() == n,
                forall|j: int| k <= j < n ==> #[trigger] rows@[j]@ == r0[j]@,
                same_layer_props(*self, *old(self)),
                layer_cells(*self) == Seq::new(
                    c0.len(),
                    |y: int|
                        if top <= y < top + k {
                            r0[y - top]@
                        } else {
                            c0[y]
                        },
                ),
            decreases n - k,
        {
            let count = self.lines.len();
            let mut row: Vec<AttributedChar> = Vec::new();
            std::mem::swap(&mut row, &mut rows[k]);
            assert(row@ == r0[k as int]@);
            let ghost before = self.lines@;
            let idx: usize = top + k;
            let mut line = Line { chars: row };
            std::mem::swap(&mut self.lines[idx], &mut line);
            assert(self.lines@ == before.update(idx as int, Line { chars: row }));
            assert(cells_of(self.lines@) =~= cells_of(before).update(idx as int, r0[k as int]@));
            k += 1;
            assert(layer_cells(*self) =~= Seq::new(
                c0.len(),
                |y: int|
                    if top <= y < top + k {
                        r0[y - top]@
                    } else {
                        c0[y]
                    },
            ));
        }
    }
}

/// What scrolling the selected area did.
pub enum AreaScroll {
    /// The area was empty.
    Nothing,
    /// The area scrolled; the change is recorded.
    Area(UndoLayerChange),
    /// The area spans the layer's width, so the whole layer turned up.
    WholeLayerUp(UndoScrollWholeLayerUp),
    /// The area spans the layer's width, so the whole layer turned down.
    WholeLayerDown(UndoScrollWholeLayerDown),
}

/// The operation to keep for a scroll, where the scroll changed anything.
pub open spec fn undo_of_scroll(a: AreaScroll) -> Option<UndoOperation> {
    match a {
        AreaScroll::Nothing => None,
        AreaScroll::Area(op) => Some(UndoOperation::UndoLayerChange(op)),
        AreaScroll::WholeLayerUp(op) => Some(UndoOperation::UndoScrollWholeLayerUp(op)),
        AreaScroll::WholeLayerDown(op) => Some(UndoOperation::UndoScrollWholeLayerDown(op)),
    }
}

/// The scroll that a kept operation stands for.
pub open spec fn scroll_of_undo(u: UndoOperation) -> AreaScroll {
    match u {
        UndoOperation::UndoLayerChange(op) => AreaScroll::Area(op),
        UndoOperation::UndoScrollWholeLayerUp(op) => AreaScroll::WholeLayerUp(op),
        UndoOperation::UndoScrollWholeLayerDown(op) => AreaScroll::WholeLayerDown(op),
        _ => AreaScroll::Nothing,
    }
}

impl AreaScroll {
    /// The operation to keep for this scroll, where it changed anything.
    pub fn into_undo(self) -> (res: Option<UndoOperation>)
        ensures
            res == undo_of_scroll(self),
            res matches Some(u) ==> scroll_of_undo(u) == self,
    {
        match self {
            AreaScroll::Nothing => None,
            AreaScroll::Area(op) => Some(UndoOperation::UndoLayerChange(op)),
            AreaScroll::WholeLayerUp(op) => Some(UndoOperation::UndoScrollWholeLayerUp(op)),
            AreaScroll::WholeLayerDown(op) => Some(UndoOperation::UndoScrollWholeLayerDown(op)),
        }
    }
}

/// Where scrolling the current layer's area can be done: the rows of a
/// non-empty area exist, and a layer scrolled as a whole has rows.
pub open spec fn scroll_fits(es: EditState, dir: ScrollDirection) -> bool {
    es.buffer.layers@.len() > 0 ==> {
        let l = es.buffer.layers@[current_layer_index(es)];
        let area = area_of(es.selection, l);
        &&& area_fits(es.selection, l)
        &&& area.size.width > 0 && area.size.height > 0 ==> if (dir is Up || dir is Down) && area.size.width
            >= l.size.width {
            l.lines@.len() > 0
        } else {
            area.start.y + area.size.height <= l.lines@.len()
        }
    }
}

/// What scrolling the selected area one step does: without layers it fails
/// with `CurrentLayerInvalid`; an empty area changes nothing; an area as
/// wide as the layer scrolled up or down turns the layer's rows; otherwise
/// the area's rows change as `scrolled_cells` says and the change is
/// recorded.
pub open spec fn area_scroll_done(
    dir: ScrollDirection,
    es0: EditState,
    es1: EditState,
    res: Result<AreaScroll, EditorError>,
) -> bool {
    if es0.buffer.layers@.len() == 0 {
        res == Err::<AreaScroll, EditorError>(EditorError::CurrentLayerInvalid) && es1 == es0
    } else {
        let i = current_layer_index(es0);
        let l = es0.buffer.layers@[i];
        let area = area_of(es0.selection, l);
        if area.size.width == 0 || area.size.height == 0 {
            res == Ok::<AreaScroll, EditorError>(AreaScroll::Nothing) && es1 == es0
        } else if (dir is Up || dir is Down) && area.size.width >= l.size.width {
            &&& layer_replaced(es0, es1, i, Layer { lines: es1.buffer.layers@[i].lines, ..l })
            &&& dir is Up ==> es1.buffer.layers@[i].lines@ == rows_rotated_up(l.lines@) && (res matches Ok(
                AreaScroll::WholeLayerUp(op),
            ) && op.layer == i)
            &&& dir is Down ==> es1.buffer.layers@[i].lines@ == rows_rotated_down(l.lines@) && (res matches Ok(
                AreaScroll::WholeLayerDown(op),
            ) && op.layer == i)
        } else {
            &&& layer_cells_replaced(es0, es1, i, scrolled_cells(layer_cells(l), dir, area))
            &&& res matches Ok(AreaScroll::Area(change)) && records_change(change, i, area.start, l, es1.buffer.layers@[i])
        }
    }
}

impl EditState {
    /// Scrolls the selected area of the current layer one step in direction
    /// `dir`; see `area_scroll_done`.
    pub(crate) fn scroll_area(&mut self, dir: ScrollDirection) -> (res: Result<AreaScroll, EditorError>)
        requires
            scroll_fits(*old(self), dir),
        ensures
            area_scroll_done(dir, *old(self), *final(self), res),
    {
        if self.buffer.layers.len() == 0 {
            return Err(EditorError::CurrentLayerInvalid);
        }
        let i = self.get_current_layer();
        let area = get_area(self.selection, &self.buffer.layers[i]);
        if area.is_empty() {
            return Ok(AreaScroll::Nothing);
        }
        let vertical = match dir {
            ScrollDirection::Up | ScrollDirection::Down => true,
            _ => false,
        };
        if vertical && area.size.width >= self.buffer.layers[i].size.width {
            let up = match dir {
                ScrollDirection::Up => true,
                _ => false,
            };
            if up {
                let op = UndoScrollWholeLayerUp::new(i);
                let _ = scroll_layer_up(self, i);
                return Ok(AreaScroll::WholeLayerUp(op));
            } else {
                let op = UndoScrollWholeLayerDown::new(i);
                let _ = scroll_layer_down(self, i);
                return Ok(AreaScroll::WholeLayerDown(op));
            }
        }
        let old_layer = self.buffer.layers[i].duplicate();
        let ghost ls = self.buffer.layers@;
        self.buffer.layers[i].scroll_area(area, dir);
        assert forall|k: int| 0 <= k < ls.len() && k != i implies self.buffer.layers@[k] == #[trigger] ls[k] by {}
        let new_layer = self.buffer.layers[i].duplicate();
        Ok(AreaScroll::Area(UndoLayerChange::new(i, area.start, old_layer, new_layer)))
    }

    /// Scrolls the selected area one row up, its top row coming in at the
    /// bottom.
    pub(crate) fn scroll_area_up_op(&mut self) -> (res: Result<AreaScroll, EditorError>)
        requires
            scroll_fits(*old(self), ScrollDirection::Up),
        ensures
            scroll_area_up_done(*old(self), *final(self), res),
            final(self).undo_stack == old(self).undo_stack,
            final(self).redo_stack == old(self).redo_stack,
    {
        self.scroll_area(ScrollDirection::Up)
    }

    /// Scrolls the selected area one row up, its top row coming in at the
    /// bottom. The change is kept as the operation to undo next.
    pub fn scroll_area_up(&mut self) -> (res: Result<(), EditorError>)
        requires
            scroll_fits(*old(self), ScrollDirection::Up),
        ensures
            match res {
                Ok(()) => (final(self).undo_stack@.len() > 0
                    && undo_of_scroll(scroll_of_undo(final(self).undo_stack@.last())) == Some(final(self).undo_stack@.last())
                    && scroll_area_up_done(*old(self), unrecorded(*final(self), *old(self)), Ok(scroll_of_undo(final(self).undo_stack@.last())))
                    && kept(*old(self), *final(self), final(self).undo_stack@.last())) || scroll_area_up_done(*old(self), *final(self), Ok(AreaScroll::Nothing)),
                Err(e) => scroll_area_up_done(*old(self), *final(self), Err(e)),
            },
    {
        match self.scroll_area_up_op() {
            Ok(a) => {
                match a.into_undo() {
                    Some(u) => self.record_undo(u),
                    None => {},
                }
                Ok(())
            },
            Err(e) => Err(e),
        }
    }

    /// Scrolls the selected area one row down, its bottom row coming in at
    /// the top.
    pub(crate) fn scroll_area_down_op(&mut self) -> (res: Result<AreaScroll, EditorError>)
        requires
            scroll_fits(*old(self), ScrollDirection::Down),
        ensures
            scroll_area_down_done(*old(self), *final(self), res),
            final(self).undo_stack == old(self).undo_stack,
            final(self).redo_stack == old(self).redo_stack,
    {
        self.scroll_area(ScrollDirection::Down)
    }

    /// Scrolls the selected area one row down, its bottom row coming in at the
    /// top. The change is kept as the operation to undo next.
    pub fn scroll_area_down(&mut self) -> (res: Result<(), EditorError>)
        requires
            scroll_fits(*old(self), ScrollDirection::Down),
        ensures
            match res {
                Ok(()) => (final(self).undo_stack@.len() > 0
                    && undo_of_scroll(scroll_of_undo(final(self).undo_stack@.last())) == Some(final(self).undo_stack@.last())
                    && scroll_area_down_done(*old(self), unrecorded(*final(self), *old(self)), Ok(scroll_of_undo(final(self).undo_stack@.last())))
                    && kept(*old(self), *final(self), final(self).undo_stack@.last())) || scroll_area_down_done(*old(self), *final(self), Ok(AreaScroll::Nothing)),
                Err(e) => scroll_area_down_done(*old(self), *final(self), Err(e)),
            },
    {
        match self.scroll_area_down_op() {
            Ok(a) => {
                match a.into_undo() {
                    Some(u) => self.record_undo(u),
                    None => {},
                }
                Ok(())
            },
            Err(e) => Err(e),
        }
    }

    /// Scrolls the selected area one column left, its left column coming in
    /// at the right.
    pub(crate) fn scroll_area_left_op(&mut self) -> (res: Result<AreaScroll, EditorError>)
        requires
            scroll_fits(*old(self), ScrollDirection::Left),
        ensures
            scroll_area_left_done(*old(self), *final(self), res),
            final(self).undo_stack == old(self).undo_stack,
            final(self).redo_stack == old(self).redo_stack,
    {
        self.scroll_area(ScrollDirection::Left)
    }

    /// Scrolls the selected area one column left, its left column coming in at
    /// the right. The change is kept as the operation to undo next.
    pub fn scroll_area_left(&mut self) -> (res: Result<(), EditorError>)
        requires
            scroll_fits(*old(self), ScrollDirection::Left),
        ensures
            match res {
                Ok(()) => (final(self).undo_stack@.len() > 0
                    && undo_of_scroll(scroll_of_undo(final(self).undo_stack@.last())) == Some(final(self).undo_stack@.last())
                    && scroll_area_left_done(*old(self), unrecorded(*final(self), *old(self)), Ok(scroll_of_undo(final(self).undo_stack@.last())))
                    && kept(*old(self), *final(self), final(self).undo_stack@.last())) || scroll_area_left_done(*old(self), *final(self), Ok(AreaScroll::Nothing)),
                Err(e) => scroll_area_left_done(*old(self), *final(self), Err(e)),
            },
    {
        match self.scroll_area_left_op() {
            Ok(a) => {
                match a.into_undo() {
                    Some(u) => self.record_undo(u),
                    None => {},
                }
                Ok(())
            },
            Err(e) => Err(e),
        }
    }

    /// Scrolls the selected area one column right, its right column coming
    /// in at the left.
    pub(crate) fn scroll_area_right_op(&mut self) -> (res: Result<AreaScroll, EditorError>)
        requires
            scroll_fits(*old(self), ScrollDirection::Right),
        ensures
            scroll_area_right_done(*old(self), *final(self), res),
            final(self).undo_stack == old(self).undo_stack,
            final(self).redo_stack == old(self).redo_stack,
    {
        self.scroll_area(ScrollDirection::Right)
    }

    /// Scrolls the selected area one column right, its right column coming in
    /// at the left. The change is kept as the operation to undo next.
    pub fn scroll_area_right(&mut self) -> (res: Result<(), EditorError>)
        requires
            scroll_fits(*old(self), ScrollDirection::Right),
        ensures
            match res {
                Ok(()) => (final(self).undo_stack@.len() > 0
                    && undo_of_scroll(scroll_of_undo(final(self).undo_stack@.last())) == Some(final(self).undo_stack@.last())
                    && scroll_area_right_done(*old(self), unrecorded(*final(self), *old(self)), Ok(scroll_of_undo(final(self).undo_stack@.last())))
                    && kept(*old(self), *final(self), final(self).undo_stack@.last())) || scroll_area_right_done(*old(self), *final(self), Ok(AreaScroll::Nothing)),
                Err(e) => scroll_area_right_done(*old(self), *final(self), Err(e)),
            },
    {
        match self.scroll_area_right_op() {
            Ok(a) => {
                match a.into_undo() {
                    Some(u) => self.record_undo(u),
                    None => {},
                }
                Ok(())
            },
            Err(e) => Err(e),
        }
    }
}

/// Row `k` of layer `l` with the cells that lie in the selection `sel`,
/// seen from the buffer, made invisible.
pub open spec fn erase_row(l: Layer, sel: Rectangle, k: int) -> Seq<CellStep> {
    Seq::new(
        l.size.width as nat,
        |x: int|
            if rect_is_inside(sel, at(x + l.offset.x, k + l.offset.y)) {
                CellStep::Put { dst: at(x, k), ch: invisible_char() }
            } else {
                CellStep::Keep
            },
    )
}

pub open spec fn erase_groups(l: Layer, sel: Rectangle) -> spec_fn(Seq<Seq<AttributedChar>>, int) -> Seq<CellStep> {
    |c: Seq<Seq<AttributedChar>>, k: int| erase_row(l, sel, k)
}

/// The rows of layer `l` after every cell of it inside the selection `sel`
/// was made invisible.
pub open spec fn erased_cells(l: Layer, sel: Rectangle) -> Seq<Seq<AttributedChar>> {
    groups_applied(l, layer_cells(l), l.size.height as nat, erase_groups(l, sel))
}

impl Layer {
    /// Makes every cell of the layer that lies in `sel` invisible.
    pub fn erase_area(&mut self, sel: Rectangle)
        requires
            rect_in_range(layer_rect(*old(self))),
        ensures
            same_layer_props(*final(self), *old(self)),
            layer_cells(*final(self)) == erased_cells(*old(self), sel),
    {
        let ghost l0 = *self;
        let start = self.offset;
        let w = self.size.width as i32;
        let h = self.size.height as i32;
        let mut k: i32 = 0;
        while k < h
            invariant
                0 <= k <= h,
                h == l0.size.height,
                w == l0.size.width,
                start == l0.offset,
                rect_in_range(layer_rect(l0)),
                same_layer_props(*self, l0),
                layer_cells(*self) == groups_applied(l0, layer_cells(l0), k as nat, erase_groups(l0, sel)),
            decreases h - k,
        {
            let ghost c0 = layer_cells(*self);
            let ghost steps = erase_row(l0, sel, k as int);
            let mut x: i32 = 0;
            while x < w
                invariant
                    0 <= x <= w,
                    0 <= k < h,
                    h == l0.size.height,
                    w == l0.size.width,
                    start == l0.offset,
                    rect_in_range(layer_rect(l0)),
                    steps == erase_row(l0, sel, k as int),
                    steps.len() == w,
                    same_layer_props(*self, l0),
                    layer_cells(*self) == steps_applied(l0, c0, steps.take(x as int)),
                decreases w - x,
            {
                let ghost cur = layer_cells(*self);
                let pos = Position::new(x, k);
                proof {
                    lemma_same_props(*self, l0, cur, pos, invisible_char());
                    lemma_steps_take(l0, c0, steps, x as int);
                }
                if sel.is_inside(Position::new(x + start.x, k + start.y)) {
                    self.set_char(pos, AttributedChar::invisible());
                }
                x += 1;
            }
            assert(steps.take(w as int) =~= steps);
            assert(erase_groups(l0, sel)(c0, k as int) == erase_row(l0, sel, k as int));
            k += 1;
        }
    }
}

/// What erasing the selection does: with nothing selected nothing changes;
/// without layers it fails with `CurrentLayerInvalid`; otherwise the
/// selected cells of the current layer become invisible, the change is
/// recorded, and the selection is cleared.
pub open spec fn erase_selection_done(es0: EditState, es1: EditState, res: Result<Option<UndoLayerChange>, EditorError>) -> bool {
    match es0.selection {
        None => res == Ok::<Option<UndoLayerChange>, EditorError>(None) && es1 == es0,
        Some(sel) => if es0.buffer.layers@.len() == 0 {
            res == Err::<Option<UndoLayerChange>, EditorError>(EditorError::CurrentLayerInvalid) && es1 == es0
        } else {
            let i = current_layer_index(es0);
            let l = es0.buffer.layers@[i];
            &&& layer_cells_replaced(es0, EditState { selection: Some(sel), ..es1 }, i, erased_cells(l, sel))
            &&& es1.selection is None
            &&& res matches Ok(Some(change)) && records_change(change, i, l.offset, l, es1.buffer.layers@[i])
        },
    }
}

impl EditState {
    /// Makes the selected cells of the current layer invisible and clears
    /// the selection; see `erase_selection_done`.
    pub(crate) fn erase_selection_op(&mut self) -> (res: Result<Option<UndoLayerChange>, EditorError>)
        requires
            old(self).buffer.layers@.len() > 0 ==> rect_in_range(layer_rect(old(self).buffer.layers@[current_layer_index(*old(self))])),
        ensures
            erase_selection_done(*old(self), *final(self), res),
            final(self).undo_stack == old(self).undo_stack,
            final(self).redo_stack == old(self).redo_stack,
    {
        let sel = match self.selection {
            Some(r) => r,
            None => return Ok(None),
        };
        if self.buffer.layers.len() == 0 {
            return Err(EditorError::CurrentLayerInvalid);
        }
        let i = self.get_current_layer();
        let start = self.buffer.layers[i].offset;
        let old_layer = self.buffer.layers[i].duplicate();
        let ghost ls = self.buffer.layers@;
        self.buffer.layers[i].erase_area(sel);
        assert forall|k: int| 0 <= k < ls.len() && k != i implies self.buffer.layers@[k] == #[trigger] ls[k] by {}
        let new_layer = self.buffer.layers[i].duplicate();
        self.selection = None;
        Ok(Some(UndoLayerChange::new(i, start, old_layer, new_layer)))
    }

    /// Makes the selected cells of the current layer invisible and clears the
    /// selection; see `erase_selection_done`. The change is kept as the
    /// operation to undo next.
    pub fn erase_selection(&mut self) -> (res: Result<(), EditorError>)
        requires
            old(self).buffer.layers@.len() > 0 ==> rect_in_range(layer_rect(old(self).buffer.layers@[current_layer_index(*old(self))])),
        ensures
            match res {
                Ok(()) => ((final(self).undo_stack@.last() matches UndoOperation::UndoLayerChange(op)
                    && erase_selection_done(*old(self), unrecorded(*final(self), *old(self)), Ok(Some(op)))
                    && kept(*old(self), *final(self), UndoOperation::UndoLayerChange(op)))) || erase_selection_done(*old(self), *final(self), Ok(None)),
                Err(e) => erase_selection_done(*old(self), *final(self), Err(e)),
            },
    {
        match self.erase_selection_op() {
            Ok(Some(op)) => {
                self.record_undo(UndoOperation::UndoLayerChange(op));
                Ok(())
            },
            Ok(None) => Ok(()),
            Err(e) => Err(e),
        }
    }
}

/// The layers of `ls` that share cells with `rect`, in their order.
pub open spec fn kept_layers(ls: Seq<Layer>, rect: Rectangle) -> Seq<Layer>
    decreases ls.len(),
{
    if ls.len() == 0 {
        Seq::empty()
    } else {
        let prev = kept_layers(ls.drop_last(), rect);
        let shared = rect_intersect(layer_rect(ls.last()), rect);
        if shared.size.width == 0 || shared.size.height == 0 {
            prev
        } else {
            prev.push(ls.last())
        }
    }
}

/// Row `k` of the part `shared` of layer `old`, written from `(0, k)` on.
pub open spec fn crop_row(old: Layer, shared: Rectangle, k: int) -> Seq<CellStep> {
    Seq::new(
        shared.size.width as nat,
        |x: int| CellStep::Put { dst: at(x, k), ch: char_at(old, layer_cells(old), at(x + shared.start.x, k + shared.start.y)) },
    )
}

pub open spec fn crop_groups(old: Layer, shared: Rectangle) -> spec_fn(Seq<Seq<AttributedChar>>, int) -> Seq<CellStep> {
    |c: Seq<Seq<AttributedChar>>, k: int| crop_row(old, shared, k)
}

/// `new` is layer `old` cut to the rectangle `rect`: its properties but for
/// the offset, now relative to `rect` (unless its position is locked), and
/// the size, now that of the part it shares with `rect`; its cells are
/// those that `old` shows there, written into an empty layer.
pub open spec fn cropped_layer(old: Layer, rect: Rectangle, new: Layer) -> bool {
    let shared = rect_intersect(layer_rect(old), rect);
    let offset = if old.is_position_locked { old.offset } else { at(shared.start.x - rect.start.x, shared.start.y - rect.start.y) };
    let props = Layer { offset, size: shared.size, ..old };
    &&& same_layer_props(new, props)
    &&& layer_cells(new) == groups_applied(props, Seq::empty(), shared.size.height as nat, crop_groups(old, shared))
}

impl Layer {
    /// The layer cut to `rect`; see `cropped_layer`.
    fn crop_to(&self, rect: Rectangle) -> (res: Layer)
        requires
            rect_in_range(rect),
            rect_in_range(layer_rect(*self)),
            rect_intersect(layer_rect(*self), rect).size.width > 0,
            rect_intersect(layer_rect(*self), rect).size.height > 0,
        ensures
            cropped_layer(*self, rect, res),
    {
        let shared = self.get_rectangle().intersect(&rect);
        let mut new_layer = self.duplicate();
        let mut empty: Vec<Line> = Vec::new();
        std::mem::swap(&mut new_layer.lines, &mut empty);
        assert(layer_cells(new_layer) =~= Seq::<Seq<AttributedChar>>::empty());
        new_layer.set_offset(Position::new(shared.start.x - rect.start.x, shared.start.y - rect.start.y));
        new_layer.set_size(shared.size);
        let ghost l0 = new_layer;
        let w = shared.size.width as i32;
        let h = shared.size.height as i32;
        let mut k: i32 = 0;
        while k < h
            invariant
                0 <= k <= h,
                h == shared.size.height,
                w == shared.size.width,
                shared == rect_intersect(layer_rect(*self), rect),
                rect_in_range(rect),
                rect_in_range(layer_rect(*self)),
                same_layer_props(new_layer, l0),
                layer_cells(new_layer) == groups_applied(l0, Seq::empty(), k as nat, crop_groups(*self, shared)),
            decreases h - k,
        {
            let ghost c0 = layer_cells(new_layer);
            let ghost steps = crop_row(*self, shared, k as int);
            let mut x: i32 = 0;
            while x < w
                invariant
                    0 <= x <= w,
                    0 <= k < h,
                    h == shared.size.height,
                    w == shared.size.width,
                    shared == rect_intersect(layer_rect(*self), rect),
                    rect_in_range(rect),
                    rect_in_range(layer_rect(*self)),
                    steps == crop_row(*self, shared, k as int),
                    steps.len() == w,
                    same_layer_props(new_layer, l0),
                    layer_cells(new_layer) == steps_applied(l0, c0, steps.take(x as int)),
                decreases w - x,
            {
                let ghost cur = layer_cells(new_layer);
                let ch = self.get_char(Position::new(x + shared.start.x, k + shared.start.y));
                let pos = Position::new(x, k);
                proof {
                    lemma_same_props(new_layer, l0, cur, pos, ch);
                    lemma_steps_take(l0, c0, steps, x as int);
                }
                new_layer.set_char(pos, ch);
                x += 1;
            }
            assert(steps.take(w as int) =~= steps);
            assert(crop_groups(*self, shared)(c0, k as int) == crop_row(*self, shared, k as int));
            k += 1;
        }
        proof {
            let offset = if self.is_position_locked {
                self.offset
            } else {
                at(shared.start.x - rect.start.x, shared.start.y - rect.start.y)
            };
            let props = Layer { offset, size: shared.size, ..*self };
            lemma_groups_same_props(l0, props, Seq::empty(), h as nat, crop_groups(*self, shared));
        }
        new_layer
    }
}

/// Every layer of the editor and the rectangle lie in the coordinate range.
pub open spec fn crop_fits(es: EditState, rect: Rectangle) -> bool {
    &&& rect_in_range(rect)
    &&& forall|i: int| 0 <= i < es.buffer.layers@.len() ==> rect_in_range(layer_rect(#[trigger] es.buffer.layers@[i]))
}

/// What cropping to `rect` does: the buffer takes the rectangle's size, the
/// layers that share cells with it are kept, each cut to it
/// (`cropped_layer`), and the operation that undoes it keeps the old size
/// and layers.
pub open spec fn crop_done(es0: EditState, es1: EditState, rect: Rectangle, op: Crop) -> bool {
    let kept = kept_layers(es0.buffer.layers@, rect);
    &&& es1 == (EditState { buffer: es1.buffer, ..es0 })
    &&& es1.buffer == (Buffer { size: rect.size, layers: es1.buffer.layers, ..es0.buffer })
    &&& es1.buffer.layers@.len() == kept.len()
    &&& forall|j: int| 0 <= j < kept.len() ==> cropped_layer(#[trigger] kept[j], rect, es1.buffer.layers@[j])
    &&& op.orig_size == es0.buffer.size
    &&& op.size == rect.size
    &&& op.layers == es0.buffer.layers
}

impl EditState {
    /// Cuts the buffer to the selected rectangle; see `crop_done`.
    pub(crate) fn crop_op(&mut self) -> (res: Result<Crop, EditorError>)
        requires
            old(self).selection is Some,
            crop_fits(*old(self), old(self).selection->0),
        ensures
            crop_selection_done(*old(self), *final(self), res),
            final(self).undo_stack == old(self).undo_stack,
            final(self).redo_stack == old(self).redo_stack,
    {
        let rect = self.selection.unwrap();
        self.crop_rect_op(rect)
    }

    /// Cuts the buffer to the selected rectangle; see `crop_done`. The change
    /// is kept as the operation to undo next.
    pub fn crop(&mut self) -> (res: Result<(), EditorError>)
        requires
            old(self).selection is Some,
            crop_fits(*old(self), old(self).selection->0),
        ensures
            match res {
                Ok(()) => (final(self).undo_stack@.last() matches UndoOperation::Crop(op)
                    && crop_selection_done(*old(self), unrecorded(*final(self), *old(self)), Ok(op))
                    && kept(*old(self), *final(self), UndoOperation::Crop(op))),
                Err(e) => crop_selection_done(*old(self), *final(self), Err(e)),
            },
    {
        match self.crop_op() {
            Ok(op) => {
                self.record_undo(UndoOperation::Crop(op));
                Ok(())
            },
            Err(e) => Err(e),
        }
    }

    /// Cuts the buffer to `rect`; see `crop_done`.
    pub(crate) fn crop_rect_op(&mut self, rect: Rectangle) -> (res: Result<Crop, EditorError>)
        requires
            crop_fits(*old(self), rect),
        ensures
            crop_rect_done(*old(self), rect, *final(self), res),
            final(self).undo_stack == old(self).undo_stack,
            final(self).redo_stack == old(self).redo_stack,
    {
        let old_size = self.buffer.size;
        let mut old_layers: Vec<Layer> = Vec::new();
        std::mem::swap(&mut self.buffer.layers, &mut old_layers);
        self.buffer.set_size(rect.size);
        let mut i: usize = 0;
        while i < old_layers.len()
            invariant
                i <= old_layers@.len(),
                old_layers@ == old(self).buffer.layers@,
                crop_fits(*old(self), rect),
                *self == (EditState { buffer: self.buffer, ..*old(self) }),
                self.buffer == (Buffer { size: rect.size, layers: self.buffer.layers, ..old(self).buffer }),
                self.buffer.layers@.len() == kept_layers(old_layers@.take(i as int), rect).len(),
                forall|j: int|
                    0 <= j < self.buffer.layers@.len() ==> cropped_layer(
                        #[trigger] kept_layers(old_layers@.take(i as int), rect)[j],
                        rect,
                        self.buffer.layers@[j],
                    ),
            decreases old_layers@.len() - i,
        {
            let ghost prev = kept_layers(old_layers@.take(i as int), rect);
            assert(old_layers@.take(i + 1).drop_last() =~= old_layers@.take(i as int));
            assert(old_layers@.take(i + 1).last() == old_layers@[i as int]);
            let shared = old_layers[i].get_rectangle().intersect(&rect);
            if !shared.is_empty() {
                let new_layer = old_layers[i].crop_to(rect);
                self.buffer.layers.push(new_layer);
            }
            i += 1;
        }
        assert(old_layers@.take(i as int) =~= old_layers@);
        Ok(Crop::new(old_size, rect.size, old_layers))
    }

    /// Cuts the buffer to `rect`; see `crop_done`. The change is kept as the
    /// operation to undo next.
    pub fn crop_rect(&mut self, rect: Rectangle) -> (res: Result<(), EditorError>)
        requires
            crop_fits(*old(self), rect),
        ensures
            match res {
                Ok(()) => (final(self).undo_stack@.last() matches UndoOperation::Crop(op)
                    && crop_rect_done(*old(self), rect, unrecorded(*final(self), *old(self)), Ok(op))
                    && kept(*old(self), *final(self), UndoOperation::Crop(op))),
                Err(e) => crop_rect_done(*old(self), rect, *final(self), Err(e)),
            },
    {
        match self.crop_rect_op(rect) {
            Ok(op) => {
                self.record_undo(UndoOperation::Crop(op));
                Ok(())
            },
            Err(e) => Err(e),
        }
    }
}

/// Undoing the change that an operation on the selected area recorded gives
/// the editor back the layers it had: each with the same properties and
/// cells, the rest of the editor untouched.
pub proof fn law_area_operation_undone(
    op: AreaOperation,
    es0: EditState,
    es1: EditState,
    change: UndoLayerChange,
    es2: EditState,
)
    requires
        area_operation_done(op, es0, es1, Ok(change)),
        es0.buffer.layers@.len() > 0,
        layer_cells_replaced(
            es1,
            es2,
            change.layer as int,
            layer_change_cells(es1.buffer.layers@[change.layer as int], change.pos, change.old_chars),
        ),
    ensures
        same_layers(es2.buffer.layers@, es0.buffer.layers@),
        es2 == (EditState { buffer: es2.buffer, ..es0 }),
        es2.buffer == (Buffer { layers: es2.buffer.layers, ..es0.buffer }),
{
    let i = change.layer as int;
    assert forall|k: int| 0 <= k < es2.buffer.layers@.len() implies same_layer_props(
        #[trigger] es2.buffer.layers@[k],
        es0.buffer.layers@[k],
    ) && layer_cells(es2.buffer.layers@[k]) == layer_cells(es0.buffer.layers@[k]) by {
        if k != i {
            assert(es2.buffer.layers@[k] == es1.buffer.layers@[k]);
            assert(es1.buffer.layers@[k] == es0.buffer.layers@[k]);
        }
    }
}

/// Undoing the change that scrolling the selected area recorded gives the
/// editor back the layers it had.
pub proof fn law_area_scroll_undone(
    dir: ScrollDirection,
    es0: EditState,
    es1: EditState,
    change: UndoLayerChange,
    es2: EditState,
)
    requires
        area_scroll_done(dir, es0, es1, Ok(AreaScroll::Area(change))),
        es0.buffer.layers@.len() > 0,
        layer_cells_replaced(
            es1,
            es2,
            change.layer as int,
            layer_change_cells(es1.buffer.layers@[change.layer as int], change.pos, change.old_chars),
        ),
    ensures
        same_layers(es2.buffer.layers@, es0.buffer.layers@),
        es2 == (EditState { buffer: es2.buffer, ..es0 }),
        es2.buffer == (Buffer { layers: es2.buffer.layers, ..es0.buffer }),
{
    let i = change.layer as int;
    assert forall|k: int| 0 <= k < es2.buffer.layers@.len() implies same_layer_props(
        #[trigger] es2.buffer.layers@[k],
        es0.buffer.layers@[k],
    ) && layer_cells(es2.buffer.layers@[k]) == layer_cells(es0.buffer.layers@[k]) by {
        if k != i {
            assert(es2.buffer.layers@[k] == es1.buffer.layers@[k]);
            assert(es1.buffer.layers@[k] == es0.buffer.layers@[k]);
        }
    }
}

/// Undoing a crop gives the editor back its buffer size and its layers.
pub proof fn law_crop_undone(es0: EditState, es1: EditState, rect: Rectangle, op: Crop, es2: EditState)
    requires
        crop_done(es0, es1, rect, op),
        es2 == (EditState { buffer: Buffer { size: op.orig_size, layers: op.layers, ..es1.buffer }, ..es1 }),
    ensures
        es2 == es0,
{
}

/// Row `k` of the rows `src`: each visible cell written at its own
/// position.
pub open spec fn join_row(src: Seq<Seq<AttributedChar>>, k: int) -> Seq<CellStep> {
    Seq::new(
        src[k].len(),
        |x: int| if !src[k][x].attribute.invisible { CellStep::Put { dst: at(x, k), ch: src[k][x] } } else { CellStep::Keep },
    )
}

pub open spec fn join_groups(src: Seq<Seq<AttributedChar>>) -> spec_fn(Seq<Seq<AttributedChar>>, int) -> Seq<CellStep> {
    |c: Seq<Seq<AttributedChar>>, k: int| join_row(src, k)
}

/// Row `k` of the rows `src` written transposed: cell `x` of it at `(k, x)`.
pub open spec fn rotate_row(src: Seq<Seq<AttributedChar>>, k: int) -> Seq<CellStep> {
    Seq::new(src[k].len(), |x: int| CellStep::Put { dst: at(k, x), ch: src[k][x] })
}

pub open spec fn rotate_groups(src: Seq<Seq<AttributedChar>>) -> spec_fn(Seq<Seq<AttributedChar>>, int) -> Seq<CellStep> {
    |c: Seq<Seq<AttributedChar>>, k: int| rotate_row(src, k)
}

/// Every row of `cells` and their number lie in the coordinate range.
pub open spec fn cells_in_range(cells: Seq<Seq<AttributedChar>>) -> bool {
    &&& cells.len() <= i32::MAX
    &&& forall|k: int| 0 <= k < cells.len() ==> (#[trigger] cells[k]).len() <= i32::MAX
}

impl Layer {
    /// Writes every visible cell of `layer`'s rows at its own position.
    pub fn join(&mut self, layer: &Layer)
        requires
            cells_in_range(layer_cells(*layer)),
        ensures
            same_layer_props(*final(self), *old(self)),
            layer_cells(*final(self)) == groups_applied(
                *old(self),
                layer_cells(*old(self)),
                layer.lines@.len(),
                join_groups(layer_cells(*layer)),
            ),
    {
        self.write_rows(&layer.lines, false);
    }

    /// Turns the layer over its diagonal: its width and height are
    /// exchanged and every cell is written with its coordinates exchanged
    /// into the emptied layer.
    pub fn rotate(&mut self)
        requires
            cells_in_range(layer_cells(*old(self))),
        ensures
            same_layer_props(*final(self), Layer { size: Size { width: old(self).size.height, height: old(self).size.width }, ..*old(self) }),
            layer_cells(*final(self)) == groups_applied(
                Layer { size: Size { width: old(self).size.height, height: old(self).size.width }, ..*old(self) },
                Seq::empty(),
                old(self).lines@.len(),
                rotate_groups(layer_cells(*old(self))),
            ),
    {
        let ghost l0 = *self;
        let mut lines: Vec<Line> = Vec::new();
        std::mem::swap(&mut self.lines, &mut lines);
        let size = self.size;
        self.set_size(Size::new(size.height, size.width));
        assert(layer_cells(*self) =~= Seq::<Seq<AttributedChar>>::empty());
        let ghost l1 = *self;
        self.write_rows(&lines, true);
        proof {
            let props = Layer { size: Size { width: l0.size.height, height: l0.size.width }, ..l0 };
            lemma_groups_same_props(l1, props, Seq::empty(), lines@.len(), rotate_groups(layer_cells(l0)));
        }
    }

    /// Writes the cells of `src`'s rows: with `transposed` each at its
    /// position with the coordinates exchanged, otherwise the visible ones
    /// at their own position.
    fn write_rows(&mut self, src: &Vec<Line>, transposed: bool)
        requires
            cells_in_range(cells_of(src@)),
        ensures
            same_layer_props(*final(self), *old(self)),
            layer_cells(*final(self)) == groups_applied(
                *old(self),
                layer_cells(*old(self)),
                src@.len(),
                if transposed { rotate_groups(cells_of(src@)) } else { join_groups(cells_of(src@)) },
            ),
    {
        let ghost l0 = *self;
        let ghost sc = cells_of(src@);
        let ghost g = if transposed { rotate_groups(sc) } else { join_groups(sc) };
        let n = src.len();
        let mut y: usize = 0;
        while y < n
            invariant
                y <= n == src@.len() == sc.len(),
                sc == cells_of(src@),
                cells_in_range(sc),
                g == if transposed { rotate_groups(sc) } else { join_groups(sc) },
                same_layer_props(*self, l0),
                layer_cells(*self) == groups_applied(l0, layer_cells(l0), y as nat, g),
            decreases n - y,
        {
            let ghost c0 = layer_cells(*self);
            let ghost steps = if transposed { rotate_row(sc, y as int) } else { join_row(sc, y as int) };
            assert(sc[y as int] == src@[y as int].chars@);
            assert(sc[y as int].len() <= i32::MAX);
            let w = src[y].chars.len();
            let mut x: usize = 0;
            while x < w
                invariant
                    x <= w == sc[y as int].len(),
                    y < n == sc.len(),
                    sc == cells_of(src@),
                    cells_in_range(sc),
                    steps == if transposed { rotate_row(sc, y as int) } else { join_row(sc, y as int) },
                    steps.len() == w,
                    same_layer_props(*self, l0),
                    layer_cells(*self) == steps_applied(l0, c0, steps.take(x as int)),
                decreases w - x,
            {
                let ghost cur = layer_cells(*self);
                let ch = src[y].chars[x];
                assert(ch == sc[y as int][x as int]);
                let pos = if transposed { Position::new(y as i32, x as i32) } else { Position::new(x as i32, y as i32) };
                proof {
                    lemma_same_props(*self, l0, cur, pos, ch);
                    lemma_steps_take(l0, c0, steps, x as int);
                }
                if transposed || ch.is_visible() {
                    self.set_char(pos, ch);
                }
                x += 1;
            }
            assert(steps.take(w as int) =~= steps);
            assert(g(c0, y as int) == steps);
            y += 1;
        }
    }
}


/// What `set_selection` does to the editor `es0`: `es1` is the editor after it
/// and `res` the operation that undoes it (see `EditState::set_selection`).
pub open spec fn set_selection_done(es0: EditState, sel: Rectangle, es1: EditState, res: Result<Option<SetSelection>, EditorError>) -> bool {
    &&& es1 == (EditState { selection: Some(sel), ..es0 })
    &&& es0.selection == Some(sel) ==> res == Ok::<Option<SetSelection>, EditorError>(None)
    &&& es0.selection != Some(sel) ==> res == Ok::<Option<SetSelection>, EditorError>(
        Some(SetSelection { old: es0.selection, new: Some(sel) }),
    )
}

/// What `clear_selection` does to the editor `es0`: `es1` is the editor after it
/// and `res` the operation that undoes it (see `EditState::clear_selection`).
pub open spec fn clear_selection_done(es0: EditState, es1: EditState, res: Result<Option<SelectNothing>, EditorError>) -> bool {
    &&& es1 == (EditState { selection: None, ..es0 })
    &&& es0.selection is None ==> res == Ok::<Option<SelectNothing>, EditorError>(None)
    &&& es0.selection is Some ==> res == Ok::<Option<SelectNothing>, EditorError>(
        Some(SelectNothing { sel: es0.selection }),
    )
}

/// What `deselect` does to the editor `es0`: `es1` is the editor after it
/// and `res` the operation that undoes it (see `EditState::deselect`).
pub open spec fn deselect_done(es0: EditState, es1: EditState, res: Option<Deselect>) -> bool {
    &&& es1 == (EditState { selection: None, ..es0 })
    &&& res == match es0.selection {
        Some(sel) => Some(Deselect { sel }),
        None => None,
    }
}

/// What `justify_left` does to the editor `es0`: `es1` is the editor after it
/// and `res` the operation that undoes it (see `EditState::justify_left`).
pub open spec fn justify_left_done(es0: EditState, es1: EditState, res: Result<UndoLayerChange, EditorError>) -> bool {
    &&& area_operation_done(AreaOperation::JustifyLeft, es0, es1, res)
}

/// What `justify_right` does to the editor `es0`: `es1` is the editor after it
/// and `res` the operation that undoes it (see `EditState::justify_right`).
pub open spec fn justify_right_done(es0: EditState, es1: EditState, res: Result<UndoLayerChange, EditorError>) -> bool {
    &&& area_operation_done(AreaOperation::JustifyRight, es0, es1, res)
}

/// What `center` does to the editor `es0`: `es1` is the editor after it
/// and `res` the operation that undoes it (see `EditState::center`).
pub open spec fn center_done(es0: EditState, es1: EditState, res: Result<UndoLayerChange, EditorError>) -> bool {
    &&& area_operation_done(AreaOperation::Center, es0, es1, res)
}

/// What `flip_x` does to the editor `es0`: `es1` is the editor after it
/// and `res` the operation that undoes it (see `EditState::flip_x`).
pub open spec fn flip_x_done(es0: EditState, es1: EditState, res: Result<UndoLayerChange, EditorError>) -> bool {
    &&& area_operation_done(AreaOperation::FlipX, es0, es1, res)
}

/// What `flip_y` does to the editor `es0`: `es1` is the editor after it
/// and `res` the operation that undoes it (see `EditState::flip_y`).
pub open spec fn flip_y_done(es0: EditState, es1: EditState, res: Result<UndoLayerChange, EditorError>) -> bool {
    &&& area_operation_done(AreaOperation::FlipY, es0, es1, res)
}

/// What `scroll_area_up` does to the editor `es0`: `es1` is the editor after it
/// and `res` the operation that undoes it (see `EditState::scroll_area_up`).
pub open spec fn scroll_area_up_done(es0: EditState, es1: EditState, res: Result<AreaScroll, EditorError>) -> bool {
    &&& area_scroll_done(ScrollDirection::Up, es0, es1, res)
}

/// What `scroll_area_down` does to the editor `es0`: `es1` is the editor after it
/// and `res` the operation that undoes it (see `EditState::scroll_area_down`).
pub open spec fn scroll_area_down_done(es0: EditState, es1: EditState, res: Result<AreaScroll, EditorError>) -> bool {
    &&& area_scroll_done(ScrollDirection::Down, es0, es1, res)
}

/// What `scroll_area_left` does to the editor `es0`: `es1` is the editor after it
/// and `res` the operation that undoes it (see `EditState::scroll_area_left`).
pub open spec fn scroll_area_left_done(es0: EditState, es1: EditState, res: Result<AreaScroll, EditorError>) -> bool {
    &&& area_scroll_done(ScrollDirection::Left, es0, es1, res)
}

/// What `scroll_area_right` does to the editor `es0`: `es1` is the editor after it
/// and `res` the operation that undoes it (see `EditState::scroll_area_right`).
pub open spec fn scroll_area_right_done(es0: EditState, es1: EditState, res: Result<AreaScroll, EditorError>) -> bool {
    &&& area_scroll_done(ScrollDirection::Right, es0, es1, res)
}

/// What `crop` does to the editor `es0`: `es1` is the editor after it
/// and `res` the operation that undoes it (see `EditState::crop`).
pub open spec fn crop_selection_done(es0: EditState, es1: EditState, res: Result<Crop, EditorError>) -> bool {
    &&& res matches Ok(op) && crop_done(es0, es1, es0.selection->0, op)
}

/// What `crop_rect` does to the editor `es0`: `es1` is the editor after it
/// and `res` the operation that undoes it (see `EditState::crop_rect`).
pub open spec fn crop_rect_done(es0: EditState, rect: Rectangle, es1: EditState, res: Result<Crop, EditorError>) -> bool {
    &&& res matches Ok(op) && crop_done(es0, es1, rect, op)
}


/// Layer `l` sits at the origin and takes every write.
pub open spec fn writable_at_origin(l: Layer) -> bool {
    &&& l.offset.x == 0
    &&& l.offset.y == 0
    &&& !l.is_locked
    &&& l.is_visible
    &&& !(l.has_alpha_channel && l.is_alpha_channel_locked)
    &&& rect_in_range(layer_rect(l))
}

/// Row `k` of `cells` has a cell at column `x`, and it is `v`.
pub open spec fn cell_holds(cells: Seq<Seq<AttributedChar>>, k: int, x: int, v: AttributedChar) -> bool {
    &&& 0 <= k < cells.len()
    &&& 0 <= x < cells[k].len()
    &&& cells[k][x] == v
}

/// A write at `(x, k)` on a layer at the origin that takes every write puts
/// the character there and leaves every other cell that was there.
#[verifier::spinoff_prover]
proof fn lemma_put_cell(l: Layer, c: Seq<Seq<AttributedChar>>, x: int, k: int, ch: AttributedChar)
    requires
        writable_at_origin(l),
        0 <= x <= i32::MAX,
        0 <= k <= i32::MAX,
    ensures
        cell_holds(set_char_cells(l, c, at(x, k), ch), k, x, ch),
        forall|k2: int, x2: int|
            #![trigger cell_holds(set_char_cells(l, c, at(x, k), ch), k2, x2, c[k2][x2])]
            0 <= k2 < c.len() && 0 <= x2 < c[k2].len() && !(k2 == k && x2 == x) ==> cell_holds(
                set_char_cells(l, c, at(x, k), ch),
                k2,
                x2,
                c[k2][x2],
            ),
{
    let grown = cells_grown(c, k, l.size.width as nat);
    assert(k < grown.len());
    assert(forall|k2: int| 0 <= k2 < c.len() ==> grown[k2] == c[k2]);
    let row = cells_with_char(grown[k], x, ch);
    assert(row[x] == ch);
    assert(forall|x2: int| 0 <= x2 < grown[k].len() && x2 != x ==> row[x2] == grown[k][x2]);
}

/// The cell `(x, k)` of layer `l` is among those gone through once the
/// first `kk` rows, and the first `xx` cells of row `kk`, were.
pub open spec fn erase_done(l: Layer, kk: int, xx: int, k: int, x: int) -> bool {
    (0 <= k < kk && 0 <= x < l.size.width) || (k == kk && 0 <= x < xx)
}

/// `cur` is what erasing `sel` from the rows `c0` of layer `l` gives after
/// the first `kk` rows and the first `xx` cells of row `kk`.
pub open spec fn erased_so_far(
    l: Layer,
    sel: Rectangle,
    c0: Seq<Seq<AttributedChar>>,
    cur: Seq<Seq<AttributedChar>>,
    kk: int,
    xx: int,
) -> bool {
    &&& forall|k: int, x: int|
        #![trigger cell_holds(cur, k, x, invisible_char())]
        erase_done(l, kk, xx, k, x) && rect_is_inside(sel, at(x, k)) ==> cell_holds(cur, k, x, invisible_char())
    &&& forall|k: int, x: int|
        #![trigger cell_holds(cur, k, x, c0[k][x])]
        0 <= k < c0.len() && 0 <= x < c0[k].len() && !(erase_done(l, kk, xx, k, x) && rect_is_inside(sel, at(x, k)))
            ==> cell_holds(cur, k, x, c0[k][x])
}

#[verifier::spinoff_prover]
proof fn lemma_erase_row_prefix(
    l: Layer,
    sel: Rectangle,
    c0: Seq<Seq<AttributedChar>>,
    cur: Seq<Seq<AttributedChar>>,
    kk: int,
    xx: int,
)
    requires
        writable_at_origin(l),
        0 <= kk < l.size.height,
        0 <= xx <= l.size.width,
        erased_so_far(l, sel, c0, cur, kk, 0),
    ensures
        erased_so_far(l, sel, c0, steps_applied(l, cur, erase_row(l, sel, kk).take(xx)), kk, xx),
    decreases xx,
{
    let ss = erase_row(l, sel, kk);
    if xx == 0 {
        assert(ss.take(0) =~= Seq::<CellStep>::empty());
        assert(steps_applied(l, cur, ss.take(0)) == cur);
        assert forall|k: int, x: int| !erase_done(l, kk, 0, k, x) <==> !erase_done(l, kk, xx, k, x) by {}
        assert(erased_so_far(l, sel, c0, cur, kk, xx));
    } else {
        lemma_erase_row_prefix(l, sel, c0, cur, kk, xx - 1);
        lemma_steps_take(l, cur, ss, xx - 1);
        let prev = steps_applied(l, cur, ss.take(xx - 1));
        let next = steps_applied(l, cur, ss.take(xx));
        let x = xx - 1;
        assert(next == step_applied(l, prev, ss[x]));
        if rect_is_inside(sel, at(x, kk)) {
            lemma_put_cell(l, prev, x, kk, invisible_char());
            assert(next == set_char_cells(l, prev, at(x, kk), invisible_char()));
            assert forall|k: int, x2: int|
                erase_done(l, kk, xx, k, x2) && rect_is_inside(sel, at(x2, k)) implies cell_holds(
                next,
                k,
                x2,
                invisible_char(),
            ) by {
                if !(k == kk && x2 == x) {
                    assert(cell_holds(prev, k, x2, invisible_char()));
                    assert(cell_holds(next, k, x2, prev[k][x2]));
                }
            }
            assert forall|k: int, x2: int|
                0 <= k < c0.len() && 0 <= x2 < c0[k].len() && !(erase_done(l, kk, xx, k, x2) && rect_is_inside(sel, at(x2, k)))
                implies cell_holds(next, k, x2, c0[k][x2]) by {
                assert(cell_holds(prev, k, x2, c0[k][x2]));
                assert(cell_holds(next, k, x2, prev[k][x2]));
            }
            assert(erased_so_far(l, sel, c0, next, kk, xx));
        } else {
            assert(next == prev);
            assert forall|k: int, x2: int|
                erase_done(l, kk, xx, k, x2) && rect_is_inside(sel, at(x2, k)) implies cell_holds(
                next,
                k,
                x2,
                invisible_char(),
            ) by {
                assert(cell_holds(prev, k, x2, invisible_char()));
            }
            assert forall|k: int, x2: int|
                0 <= k < c0.len() && 0 <= x2 < c0[k].len() && !(erase_done(l, kk, xx, k, x2) && rect_is_inside(sel, at(x2, k)))
                implies cell_holds(next, k, x2, c0[k][x2]) by {
                assert(cell_holds(prev, k, x2, c0[k][x2]));
            }
            assert(erased_so_far(l, sel, c0, next, kk, xx));
        }
    }
}

#[verifier::spinoff_prover]
proof fn lemma_erase_rows(l: Layer, sel: Rectangle, kk: int)
    requires
        writable_at_origin(l),
        0 <= kk <= l.size.height,
    ensures
        erased_so_far(l, sel, layer_cells(l), groups_applied(l, layer_cells(l), kk as nat, erase_groups(l, sel)), kk, 0),
    decreases kk,
{
    let c0 = layer_cells(l);
    if kk > 0 {
        let w = l.size.width as int;
        lemma_erase_rows(l, sel, kk - 1);
        let prev = groups_applied(l, c0, (kk - 1) as nat, erase_groups(l, sel));
        let ss = erase_row(l, sel, kk - 1);
        assert(erase_groups(l, sel)(prev, kk - 1) == ss);
        lemma_erase_row_prefix(l, sel, c0, prev, kk - 1, w);
        assert(ss.take(w) =~= ss);
        let next = groups_applied(l, c0, kk as nat, erase_groups(l, sel));
        assert(next == steps_applied(l, prev, ss));
        assert forall|k: int, x: int|
            erase_done(l, kk, 0, k, x) && rect_is_inside(sel, at(x, k)) implies cell_holds(next, k, x, invisible_char()) by {
            assert(erase_done(l, kk - 1, w, k, x));
            assert(cell_holds(next, k, x, invisible_char()));
        }
        assert forall|k: int, x: int|
            0 <= k < c0.len() && 0 <= x < c0[k].len() && !(erase_done(l, kk, 0, k, x) && rect_is_inside(sel, at(x, k)))
            implies cell_holds(next, k, x, c0[k][x]) by {
            assert(!(erase_done(l, kk - 1, w, k, x) && rect_is_inside(sel, at(x, k))));
            assert(cell_holds(next, k, x, c0[k][x]));
        }
    }
}

/// Erasing the selection `sel` from a layer at the origin that takes every
/// write: every cell of the layer inside `sel` becomes invisible, and every
/// other cell keeps what it held.
#[verifier::spinoff_prover]
pub proof fn law_erased_cells(l: Layer, sel: Rectangle)
    requires
        writable_at_origin(l),
    ensures
        forall|k: int, x: int|
            #![trigger cell_holds(erased_cells(l, sel), k, x, invisible_char())]
            0 <= k < l.size.height && 0 <= x < l.size.width && rect_is_inside(sel, at(x, k)) ==> cell_holds(
                erased_cells(l, sel),
                k,
                x,
                invisible_char(),
            ),
        forall|k: int, x: int|
            #![trigger cell_holds(erased_cells(l, sel), k, x, layer_cells(l)[k][x])]
            0 <= k < layer_cells(l).len() && 0 <= x < layer_cells(l)[k].len() && !(k < l.size.height && x < l.size.width
                && rect_is_inside(sel, at(x, k))) ==> cell_holds(erased_cells(l, sel), k, x, layer_cells(l)[k][x]),
{
    let h = l.size.height as int;
    lemma_erase_rows(l, sel, h);
    let c1 = erased_cells(l, sel);
    assert(erased_so_far(l, sel, layer_cells(l), c1, h, 0));
    assert forall|k: int, x: int|
        0 <= k < l.size.height && 0 <= x < l.size.width && rect_is_inside(sel, at(x, k)) implies cell_holds(
        c1,
        k,
        x,
        invisible_char(),
    ) by {
        assert(erase_done(l, h, 0, k, x));
    }
    assert forall|k: int, x: int|
        0 <= k < layer_cells(l).len() && 0 <= x < layer_cells(l)[k].len() && !(k < l.size.height && x < l.size.width
            && rect_is_inside(sel, at(x, k))) implies cell_holds(c1, k, x, layer_cells(l)[k][x]) by {
        assert(!(erase_done(l, h, 0, k, x) && rect_is_inside(sel, at(x, k))));
    }
}

} // verus!

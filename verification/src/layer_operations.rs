use vstd::prelude::*;
use crate::sixel::sixels_view;

use crate::area_operations::{at, current_layer_index, groups_applied, layer_rect, lemma_groups_same_props, lemma_same_props,
    lemma_steps_take, steps_applied, CellStep};
use crate::attributed_char::AttributedChar;
use crate::buffer::Buffer;
use crate::editor_error::EditorError;
use crate::geometry::{rect_in_range, Position, Size};
use crate::layer::{char_at, layer_cells, same_layer_props, set_char_cells, Layer, Mode};
use crate::line::{invisible_cells, Line};
use crate::undo_operations::{
    es_layer_moved, layer_cells_replaced, layer_replaced, layers_replaced, layers_set, merged_down, swapped, AddLayer,
    EditState, LowerLayer, MergeLayerDown, MoveLayer, RaiseLayer, RemoveLayer, ResizeBuffer, SetLayerSize,
    ToggleLayerVisibility, UndoSetChar, UndoSwapChar,
};

use crate::undo_stack::{kept, redo_done, undo_done, unrecorded, UndoOperation};
verus! {

/// `l` is a fresh layer titled `title` of the size `size`: visible,
/// unlocked, at the origin, every cell invisible; it has an alpha channel
/// where `alpha` says so.
pub open spec fn is_fresh_layer(l: Layer, title: Seq<char>, size: Size, alpha: bool) -> bool {
    &&& l.title@ == title
    &&& l.is_visible
    &&& !l.is_locked
    &&& !l.is_position_locked
    &&& !l.is_alpha_channel_locked
    &&& l.has_alpha_channel == alpha
    &&& l.color is None
    &&& l.mode == Mode::Normal
    &&& l.offset == (Position { x: 0, y: 0 })
    &&& l.size == size
    &&& layer_cells(l) == Seq::new(size.height as nat, |i: int| invisible_cells(size.width as nat))
    &&& l.hyperlinks@.len() == 0
    &&& l.sixels@.len() == 0
}

/// The layers of `es1` are those of `es0` with `l` inserted at `i`, which is
/// now the current layer; nothing else changed.
pub open spec fn layer_added(es0: EditState, es1: EditState, i: int, l: Layer) -> bool {
    &&& es1.buffer == (Buffer { layers: es1.buffer.layers, ..es0.buffer })
    &&& es1.buffer.layers@ == es0.buffer.layers@.insert(i, l)
    &&& es1 == (EditState { buffer: es1.buffer, current_layer: i as usize, ..es0 })
}

impl EditState {
    /// Writes a cell on the current layer; gives back the operation that
    /// undoes it. Without layers it fails with `CurrentLayerInvalid`.
    pub(crate) fn set_char_op(&mut self, pos: Position, attributed_char: AttributedChar) -> (res: Result<UndoSetChar, EditorError>)
        requires
            old(self).buffer.layers@.len() > 0 ==> old(self).current_layer < old(self).buffer.layers@.len(),
        ensures
            set_char_done(*old(self), pos, attributed_char, *final(self), res),
            final(self).undo_stack == old(self).undo_stack,
            final(self).redo_stack == old(self).redo_stack,
    {
        if self.buffer.layers.len() == 0 {
            return Err(EditorError::CurrentLayerInvalid);
        }
        let i = self.get_current_layer();
        let old = self.buffer.layers[i].get_char(pos);
        let op = UndoSetChar { pos, layer: self.current_layer, old, new: attributed_char };
        let _ = op.redo(self);
        Ok(op)
    }

    /// Writes a cell on the current layer. Without layers it fails with
    /// `CurrentLayerInvalid`. The change is kept as the operation to undo next.
    pub fn set_char(&mut self, pos: Position, attributed_char: AttributedChar) -> (res: Result<(), EditorError>)
        requires
            old(self).buffer.layers@.len() > 0 ==> old(self).current_layer < old(self).buffer.layers@.len(),
        ensures
            match res {
                Ok(()) => (final(self).undo_stack@.last() matches UndoOperation::UndoSetChar(op)
                    && set_char_done(*old(self), pos, attributed_char, unrecorded(*final(self), *old(self)), Ok(op))
                    && kept(*old(self), *final(self), UndoOperation::UndoSetChar(op))),
                Err(e) => set_char_done(*old(self), pos, attributed_char, *final(self), Err(e)),
            },
    {
        match self.set_char_op(pos, attributed_char) {
            Ok(op) => {
                self.record_undo(UndoOperation::UndoSetChar(op));
                Ok(())
            },
            Err(e) => Err(e),
        }
    }

    /// Exchanges two cells of the current layer; gives back the operation,
    /// which undoes itself.
    pub(crate) fn swap_char_op(&mut self, pos1: Position, pos2: Position) -> (res: UndoSwapChar)
        requires
            old(self).current_layer < old(self).buffer.layers@.len(),
        ensures
            swap_char_done(*old(self), pos1, pos2, *final(self), res),
            final(self).undo_stack == old(self).undo_stack,
            final(self).redo_stack == old(self).redo_stack,
    {
        let op = UndoSwapChar { layer: self.current_layer, pos1, pos2 };
        let _ = op.redo(self);
        op
    }

    /// Exchanges two cells of the current layer. The change is kept as the
    /// operation to undo next.
    pub fn swap_char(&mut self, pos1: Position, pos2: Position) -> (res: Result<(), EditorError>)
        requires
            old(self).current_layer < old(self).buffer.layers@.len(),
        ensures
            res is Ok,
            (final(self).undo_stack@.last() matches UndoOperation::UndoSwapChar(op)
                && swap_char_done(*old(self), pos1, pos2, unrecorded(*final(self), *old(self)), op)
                && kept(*old(self), *final(self), UndoOperation::UndoSwapChar(op))),
    {
        let op = self.swap_char_op(pos1, pos2);
        self.record_undo(UndoOperation::UndoSwapChar(op));
        Ok(())
    }

    /// Adds a fresh layer of the buffer's size above layer `layer` (as the
    /// first layer, without an alpha channel, where there are none) and
    /// makes it the current layer; gives back the operation that undoes it.
    pub(crate) fn add_new_layer_op(&mut self, layer: usize) -> (res: AddLayer)
        requires
            old(self).buffer.layers@.len() > 0 ==> layer < old(self).buffer.layers@.len(),
        ensures
            add_new_layer_done(*old(self), layer, *final(self), res),
            final(self).undo_stack == old(self).undo_stack,
            final(self).redo_stack == old(self).redo_stack,
    {
        let size = self.buffer.size;
        let mut new_layer = Layer::new("New layer", size);
        new_layer.has_alpha_channel = self.buffer.layers.len() > 0;
        let idx = if self.buffer.layers.len() == 0 { 0 } else { layer + 1 };
        let mut op = AddLayer::new(idx, new_layer);
        let _ = op.redo(self);
        self.current_layer = idx;
        op
    }

    /// Adds a fresh layer of the buffer's size above layer `layer` (as the
    /// first layer, without an alpha channel, where there are none) and makes
    /// it the current layer. The change is kept as the operation to undo next.
    pub fn add_new_layer(&mut self, layer: usize) -> (res: Result<(), EditorError>)
        requires
            old(self).buffer.layers@.len() > 0 ==> layer < old(self).buffer.layers@.len(),
        ensures
            res is Ok,
            (final(self).undo_stack@.last() matches UndoOperation::AddLayer(op)
                && add_new_layer_done(*old(self), layer, unrecorded(*final(self), *old(self)), op)
                && kept(*old(self), *final(self), UndoOperation::AddLayer(op))),
    {
        let op = self.add_new_layer_op(layer);
        self.record_undo(UndoOperation::AddLayer(op));
        Ok(())
    }

    /// Removes layer `layer`; gives back the operation that puts it back.
    /// A layer that does not exist fails with `InvalidLayer`.
    pub(crate) fn remove_layer_op(&mut self, layer: usize) -> (res: Result<RemoveLayer, EditorError>)
        ensures
            remove_layer_done(*old(self), layer, *final(self), res),
            final(self).undo_stack == old(self).undo_stack,
            final(self).redo_stack == old(self).redo_stack,
    {
        let mut op = RemoveLayer::new(layer);
        match op.redo(self) {
            Ok(()) => Ok(op),
            Err(e) => Err(e),
        }
    }

    /// Removes layer `layer`. A layer that does not exist fails with
    /// `InvalidLayer`. The change is kept as the operation to undo next.
    pub fn remove_layer(&mut self, layer: usize) -> (res: Result<(), EditorError>)
        ensures
            match res {
                Ok(()) => (final(self).undo_stack@.last() matches UndoOperation::RemoveLayer(op)
                    && remove_layer_done(*old(self), layer, unrecorded(*final(self), *old(self)), Ok(op))
                    && kept(*old(self), *final(self), UndoOperation::RemoveLayer(op))),
                Err(e) => remove_layer_done(*old(self), layer, *final(self), Err(e)),
            },
    {
        match self.remove_layer_op(layer) {
            Ok(op) => {
                self.record_undo(UndoOperation::RemoveLayer(op));
                Ok(())
            },
            Err(e) => Err(e),
        }
    }

    /// Moves layer `layer` one up and makes it current; the top layer, or
    /// one that does not exist, stays where it is.
    pub(crate) fn raise_layer_op(&mut self, layer: usize) -> (res: Option<RaiseLayer>)
        ensures
            raise_layer_done(*old(self), layer, *final(self), res),
            final(self).undo_stack == old(self).undo_stack,
            final(self).redo_stack == old(self).redo_stack,
    {
        if layer >= self.buffer.layers.len() || layer + 1 >= self.buffer.layers.len() {
            return None;
        }
        let op = RaiseLayer::new(layer);
        let _ = op.redo(self);
        self.current_layer = layer + 1;
        Some(op)
    }

    /// Moves layer `layer` one up and makes it current; the top layer, or one
    /// that does not exist, stays where it is. The change is kept as the
    /// operation to undo next.
    pub fn raise_layer(&mut self, layer: usize) -> (res: Result<(), EditorError>)
        ensures
            res is Ok,
            ((final(self).undo_stack@.last() matches UndoOperation::RaiseLayer(op)
                && raise_layer_done(*old(self), layer, unrecorded(*final(self), *old(self)), Some(op))
                && kept(*old(self), *final(self), UndoOperation::RaiseLayer(op)))) || raise_layer_done(*old(self), layer, *final(self), None),
    {
        match self.raise_layer_op(layer) {
            Some(op) => self.record_undo(UndoOperation::RaiseLayer(op)),
            None => {},
        }
        Ok(())
    }

    /// Moves layer `layer` one down and makes it current; the bottom layer
    /// stays where it is.
    pub(crate) fn lower_layer_op(&mut self, layer: usize) -> (res: Option<LowerLayer>)
        requires
            layer < old(self).buffer.layers@.len(),
        ensures
            lower_layer_done(*old(self), layer, *final(self), res),
            final(self).undo_stack == old(self).undo_stack,
            final(self).redo_stack == old(self).redo_stack,
    {
        if layer == 0 {
            return None;
        }
        let op = LowerLayer::new(layer);
        let _ = op.redo(self);
        self.current_layer = layer - 1;
        Some(op)
    }

    /// Moves layer `layer` one down and makes it current; the bottom layer
    /// stays where it is. The change is kept as the operation to undo next.
    pub fn lower_layer(&mut self, layer: usize) -> (res: Result<(), EditorError>)
        requires
            layer < old(self).buffer.layers@.len(),
        ensures
            res is Ok,
            ((final(self).undo_stack@.last() matches UndoOperation::LowerLayer(op)
                && lower_layer_done(*old(self), layer, unrecorded(*final(self), *old(self)), Some(op))
                && kept(*old(self), *final(self), UndoOperation::LowerLayer(op)))) || lower_layer_done(*old(self), layer, *final(self), None),
    {
        match self.lower_layer_op(layer) {
            Some(op) => self.record_undo(UndoOperation::LowerLayer(op)),
            None => {},
        }
        Ok(())
    }

    /// Adds a copy of layer `layer` above it and makes it current; gives
    /// back the operation that undoes it.
    pub(crate) fn duplicate_layer_op(&mut self, layer: usize) -> (res: AddLayer)
        requires
            layer < old(self).buffer.layers@.len(),
        ensures
            duplicate_layer_done(*old(self), layer, *final(self), res),
            final(self).undo_stack == old(self).undo_stack,
            final(self).redo_stack == old(self).redo_stack,
    {
        let n = self.buffer.layers.len();
        assert(layer < n);
        let new_layer = self.buffer.layers[layer].duplicate();
        let mut op = AddLayer::new(layer + 1, new_layer);
        let _ = op.redo(self);
        self.current_layer = layer + 1;
        op
    }

    /// Adds a copy of layer `layer` above it and makes it current. The change
    /// is kept as the operation to undo next.
    pub fn duplicate_layer(&mut self, layer: usize) -> (res: Result<(), EditorError>)
        requires
            layer < old(self).buffer.layers@.len(),
        ensures
            res is Ok,
            (final(self).undo_stack@.last() matches UndoOperation::AddLayer(op)
                && duplicate_layer_done(*old(self), layer, unrecorded(*final(self), *old(self)), op)
                && kept(*old(self), *final(self), UndoOperation::AddLayer(op))),
    {
        let op = self.duplicate_layer_op(layer);
        self.record_undo(UndoOperation::AddLayer(op));
        Ok(())
    }

    /// Shows a hidden layer or hides a shown one; gives back the operation,
    /// which undoes itself. A layer that does not exist fails with
    /// `InvalidLayer`.
    pub(crate) fn toggle_layer_visibility_op(&mut self, layer: usize) -> (res: Result<ToggleLayerVisibility, EditorError>)
        ensures
            toggle_layer_visibility_done(*old(self), layer, *final(self), res),
            final(self).undo_stack == old(self).undo_stack,
            final(self).redo_stack == old(self).redo_stack,
    {
        let op = ToggleLayerVisibility::new(layer);
        match op.redo(self) {
            Ok(()) => Ok(op),
            Err(e) => Err(e),
        }
    }

    /// Shows a hidden layer or hides a shown one. A layer that does not exist
    /// fails with `InvalidLayer`. The change is kept as the operation to undo
    /// next.
    pub fn toggle_layer_visibility(&mut self, layer: usize) -> (res: Result<(), EditorError>)
        ensures
            match res {
                Ok(()) => (final(self).undo_stack@.last() matches UndoOperation::ToggleLayerVisibility(op)
                    && toggle_layer_visibility_done(*old(self), layer, unrecorded(*final(self), *old(self)), Ok(op))
                    && kept(*old(self), *final(self), UndoOperation::ToggleLayerVisibility(op))),
                Err(e) => toggle_layer_visibility_done(*old(self), layer, *final(self), Err(e)),
            },
    {
        match self.toggle_layer_visibility_op(layer) {
            Ok(op) => {
                self.record_undo(UndoOperation::ToggleLayerVisibility(op));
                Ok(())
            },
            Err(e) => Err(e),
        }
    }

    /// Moves the current layer to `to` (unless its position is locked);
    /// gives back the operation that moves it back. Without layers nothing
    /// happens.
    pub(crate) fn move_layer_op(&mut self, to: Position) -> (res: Result<Option<MoveLayer>, EditorError>)
        ensures
            move_layer_done(*old(self), to, *final(self), res),
            final(self).undo_stack == old(self).undo_stack,
            final(self).redo_stack == old(self).redo_stack,
    {
        if self.buffer.layers.len() == 0 {
            return Ok(None);
        }
        let i = self.current_layer;
        let cur = self.get_current_layer();
        let op = MoveLayer::new(i, self.buffer.layers[cur].get_offset(), to);
        match op.redo(self) {
            Ok(()) => Ok(Some(op)),
            Err(e) => Err(e),
        }
    }

    /// Moves the current layer to `to` (unless its position is locked). Without
    /// layers nothing happens. The change is kept as the operation to undo
    /// next.
    pub fn move_layer(&mut self, to: Position) -> (res: Result<(), EditorError>)
        ensures
            match res {
                Ok(()) => ((final(self).undo_stack@.last() matches UndoOperation::MoveLayer(op)
                    && move_layer_done(*old(self), to, unrecorded(*final(self), *old(self)), Ok(Some(op)))
                    && kept(*old(self), *final(self), UndoOperation::MoveLayer(op)))) || move_layer_done(*old(self), to, *final(self), Ok(None)),
                Err(e) => move_layer_done(*old(self), to, *final(self), Err(e)),
            },
    {
        match self.move_layer_op(to) {
            Ok(Some(op)) => {
                self.record_undo(UndoOperation::MoveLayer(op));
                Ok(())
            },
            Ok(None) => Ok(()),
            Err(e) => Err(e),
        }
    }

    /// Gives layer `layer` the size `size`; gives back the operation that
    /// gives it its old size again. A layer that does not exist fails with
    /// `InvalidLayer`.
    pub(crate) fn set_layer_size_op(&mut self, layer: usize, size: Size) -> (res: Result<SetLayerSize, EditorError>)
        ensures
            set_layer_size_done(*old(self), layer, size, *final(self), res),
            final(self).undo_stack == old(self).undo_stack,
            final(self).redo_stack == old(self).redo_stack,
    {
        let mut op = SetLayerSize::new(layer, size);
        match op.redo(self) {
            Ok(()) => Ok(op),
            Err(e) => Err(e),
        }
    }

    /// Gives layer `layer` the size `size`. A layer that does not exist fails
    /// with `InvalidLayer`. The change is kept as the operation to undo next.
    pub fn set_layer_size(&mut self, layer: usize, size: Size) -> (res: Result<(), EditorError>)
        ensures
            match res {
                Ok(()) => (final(self).undo_stack@.last() matches UndoOperation::SetLayerSize(op)
                    && set_layer_size_done(*old(self), layer, size, unrecorded(*final(self), *old(self)), Ok(op))
                    && kept(*old(self), *final(self), UndoOperation::SetLayerSize(op))),
                Err(e) => set_layer_size_done(*old(self), layer, size, *final(self), Err(e)),
            },
    {
        match self.set_layer_size_op(layer, size) {
            Ok(op) => {
                self.record_undo(UndoOperation::SetLayerSize(op));
                Ok(())
            },
            Err(e) => Err(e),
        }
    }

    /// Gives the buffer the size `size`; gives back the operation that
    /// gives it its old size again.
    pub(crate) fn resize_buffer_op(&mut self, size: Size) -> (res: ResizeBuffer)
        ensures
            resize_buffer_done(*old(self), size, *final(self), res),
            final(self).undo_stack == old(self).undo_stack,
            final(self).redo_stack == old(self).redo_stack,
    {
        let op = ResizeBuffer::new(self.buffer.size, size);
        let _ = op.redo(self);
        op
    }

    /// Gives the buffer the size `size`. The change is kept as the operation to
    /// undo next.
    pub fn resize_buffer(&mut self, size: Size) -> (res: Result<(), EditorError>)
        ensures
            res is Ok,
            (final(self).undo_stack@.last() matches UndoOperation::ResizeBuffer(op)
                && resize_buffer_done(*old(self), size, unrecorded(*final(self), *old(self)), op)
                && kept(*old(self), *final(self), UndoOperation::ResizeBuffer(op))),
    {
        let op = self.resize_buffer_op(size);
        self.record_undo(UndoOperation::ResizeBuffer(op));
        Ok(())
    }
}

/// Row `k` of layer `src` written into a layer at offset `moff`, each cell
/// where it lies on the buffer; with `only_visible` invisible cells are
/// passed over.
pub open spec fn merge_row(src: Layer, moff: Position, only_visible: bool, k: int) -> Seq<CellStep> {
    Seq::new(
        src.size.width as nat,
        |x: int|
            {
                let ch = char_at(src, layer_cells(src), at(x, k));
                if only_visible && ch.attribute.invisible {
                    CellStep::Keep
                } else {
                    CellStep::Put { dst: at(x - moff.x + src.offset.x, k - moff.y + src.offset.y), ch }
                }
            },
    )
}

pub open spec fn merge_groups(src: Layer, moff: Position, only_visible: bool) -> spec_fn(
    Seq<Seq<AttributedChar>>,
    int,
) -> Seq<CellStep> {
    |c: Seq<Seq<AttributedChar>>, k: int| merge_row(src, moff, only_visible, k)
}

/// The cells of `src` land in the coordinate range when written into a
/// layer at offset `moff`.
pub open spec fn merge_lands(src: Layer, moff: Position) -> bool {
    &&& src.size.width <= i32::MAX
    &&& src.size.height <= i32::MAX
    &&& i32::MIN <= src.offset.x - moff.x
    &&& i32::MIN <= src.offset.y - moff.y
    &&& src.offset.x - moff.x + src.size.width <= i32::MAX
    &&& src.offset.y - moff.y + src.size.height <= i32::MAX
}

impl Layer {
    /// Writes the cells of `src` where they lie on the buffer; see
    /// `merge_row`.
    fn merge_from(&mut self, src: &Layer, only_visible: bool)
        requires
            merge_lands(*src, old(self).offset),
        ensures
            same_layer_props(*final(self), *old(self)),
            layer_cells(*final(self)) == groups_applied(
                *old(self),
                layer_cells(*old(self)),
                src.size.height as nat,
                merge_groups(*src, old(self).offset, only_visible),
            ),
    {
        let ghost l0 = *self;
        let moff = self.offset;
        let w = src.size.width as i32;
        let h = src.size.height as i32;
        let mut k: i32 = 0;
        while k < h
            invariant
                0 <= k <= h,
                h == src.size.height,
                w == src.size.width,
                moff == l0.offset,
                merge_lands(*src, moff),
                same_layer_props(*self, l0),
                layer_cells(*self) == groups_applied(l0, layer_cells(l0), k as nat, merge_groups(*src, moff, only_visible)),
            decreases h - k,
        {
            let ghost c0 = layer_cells(*self);
            let ghost steps = merge_row(*src, moff, only_visible, k as int);
            let mut x: i32 = 0;
            while x < w
                invariant
                    0 <= x <= w,
                    0 <= k < h,
                    h == src.size.height,
                    w == src.size.width,
                    moff == l0.offset,
                    merge_lands(*src, moff),
                    steps == merge_row(*src, moff, only_visible, k as int),
                    steps.len() == w,
                    same_layer_props(*self, l0),
                    layer_cells(*self) == steps_applied(l0, c0, steps.take(x as int)),
                decreases w - x,
            {
                let ghost cur = layer_cells(*self);
                let ch = src.get_char(Position::new(x, k));
                let px = (x as i64 - moff.x as i64 + src.offset.x as i64) as i32;
                let py = (k as i64 - moff.y as i64 + src.offset.y as i64) as i32;
                let pos = Position::new(px, py);
                proof {
                    lemma_same_props(*self, l0, cur, pos, ch);
                    lemma_steps_take(l0, c0, steps, x as int);
                }
                if !only_visible || ch.is_visible() {
                    self.set_char(pos, ch);
                }
                x += 1;
            }
            assert(steps.take(w as int) =~= steps);
            assert(merge_groups(*src, moff, only_visible)(c0, k as int) == merge_row(*src, moff, only_visible, k as int));
            k += 1;
        }
    }
}

pub open spec fn min_i(a: int, b: int) -> int {
    if a < b { a } else { b }
}

pub open spec fn max_i(a: int, b: int) -> int {
    if a < b { b } else { a }
}

/// Where the merge of `base` and `top` starts: the smaller offset on each
/// axis.
pub open spec fn merge_start(base: Layer, top: Layer) -> Position {
    Position { x: min_i(base.offset.x as int, top.offset.x as int) as i32, y: min_i(base.offset.y as int, top.offset.y as int) as i32 }
}

/// The size of the merge of `base` and `top`: from the start to the
/// farther end on each axis.
pub open spec fn merge_size(base: Layer, top: Layer) -> Size {
    let start = merge_start(base, top);
    Size {
        width: (max_i(base.offset.x + base.size.width, top.offset.x + top.size.width) - start.x) as usize,
        height: (max_i(base.offset.y + base.size.height, top.offset.y + top.size.height) - start.y) as usize,
    }
}

/// Both layers lie in the coordinate range and so does their merge.
pub open spec fn merge_fits(base: Layer, top: Layer) -> bool {
    &&& rect_in_range(layer_rect(base))
    &&& rect_in_range(layer_rect(top))
    &&& max_i(base.offset.x + base.size.width, top.offset.x + top.size.width) - merge_start(base, top).x <= i32::MAX
    &&& max_i(base.offset.y + base.size.height, top.offset.y + top.size.height) - merge_start(base, top).y <= i32::MAX
}

/// `m` is the merge of `base` with `top` above it: `base`'s properties but
/// with no links, at the merge start (unless `base`'s position is locked)
/// and of the merge size; its cells are `base`'s cells, then the visible
/// cells of `top`, each written where it lies on the buffer into an empty
/// layer.
pub open spec fn is_merge_of(m: Layer, base: Layer, top: Layer) -> bool {
    &&& m.title@ == base.title@
    &&& m.is_visible == base.is_visible
    &&& m.is_locked == base.is_locked
    &&& m.is_position_locked == base.is_position_locked
    &&& m.is_alpha_channel_locked == base.is_alpha_channel_locked
    &&& m.has_alpha_channel == base.has_alpha_channel
    &&& m.color == base.color
    &&& m.mode == base.mode
    &&& m.offset == if base.is_position_locked { base.offset } else { merge_start(base, top) }
    &&& m.size == merge_size(base, top)
    &&& m.hyperlinks@.len() == 0
    &&& m.sixels@.len() == 0
    &&& layer_cells(m) == groups_applied(
        m,
        groups_applied(m, Seq::empty(), base.size.height as nat, merge_groups(base, m.offset, false)),
        top.size.height as nat,
        merge_groups(top, m.offset, true),
    )
}

impl EditState {
    /// Merges layer `layer` into the layer below it (see `is_merge_of`),
    /// which takes both their places; gives back the operation that undoes
    /// it. The bottom layer has nothing to merge into and stays.
    #[verifier::spinoff_prover]
    #[verifier::rlimit(50)]
    pub(crate) fn merge_layer_down_op(&mut self, layer: usize) -> (res: Result<Option<MergeLayerDown>, EditorError>)
        requires
            layer < old(self).buffer.layers@.len(),
            layer > 0 ==> merge_fits(old(self).buffer.layers@[layer - 1], old(self).buffer.layers@[layer as int]),
        ensures
            merge_layer_down_done(*old(self), layer, *final(self), res),
            final(self).undo_stack == old(self).undo_stack,
            final(self).redo_stack == old(self).redo_stack,
    {
        if layer == 0 {
            return Ok(None);
        }
        let base = &self.buffer.layers[layer - 1];
        let cur = &self.buffer.layers[layer];
        let sx = if base.offset.x < cur.offset.x { base.offset.x } else { cur.offset.x };
        let sy = if base.offset.y < cur.offset.y { base.offset.y } else { cur.offset.y };
        let bx = base.offset.x as i64 + base.size.width as i64;
        let cx = cur.offset.x as i64 + cur.size.width as i64;
        let by = base.offset.y as i64 + base.size.height as i64;
        let cy = cur.offset.y as i64 + cur.size.height as i64;
        let width = (if bx < cx { cx } else { bx }) - sx as i64;
        let height = (if by < cy { cy } else { by }) - sy as i64;
        if width < 0 || height < 0 {
            return Ok(None);
        }
        let mut merge_layer = base.duplicate();
        merge_layer.clear();
        merge_layer.set_offset(Position::new(sx, sy));
        merge_layer.set_size(Size::new(width as usize, height as usize));
        let ghost l0 = merge_layer;
        assert(layer_cells(merge_layer) =~= Seq::<Seq<AttributedChar>>::empty());
        merge_layer.merge_from(base, false);
        let ghost l1 = merge_layer;
        merge_layer.merge_from(cur, true);
        proof {
            let m = merge_layer;
            lemma_groups_same_props(l0, m, Seq::empty(), base.size.height as nat, merge_groups(*base, m.offset, false));
            lemma_groups_same_props(l1, m, layer_cells(l1), cur.size.height as nat, merge_groups(*cur, m.offset, true));
            assert(l0.sixels@.len() == 0);
            assert(sixels_view(l0.sixels@).len() == 0);
            assert(sixels_view(m.sixels@).len() == m.sixels@.len());
            assert(m.sixels@.len() == 0);
        }
        let ghost m = merge_layer;
        let mut op = MergeLayerDown::new(layer, merge_layer);
        let _ = op.redo(self);
        self.clamp_current_layer();
        Ok(Some(op))
    }

    /// Merges layer `layer` into the layer below it (see `is_merge_of`), which
    /// takes both their places. The bottom layer has nothing to merge into and
    /// stays. The change is kept as the operation to undo next.
    pub fn merge_layer_down(&mut self, layer: usize) -> (res: Result<(), EditorError>)
        requires
            layer < old(self).buffer.layers@.len(),
            layer > 0 ==> merge_fits(old(self).buffer.layers@[layer - 1], old(self).buffer.layers@[layer as int]),
        ensures
            match res {
                Ok(()) => ((final(self).undo_stack@.last() matches UndoOperation::MergeLayerDown(op)
                    && merge_layer_down_done(*old(self), layer, unrecorded(*final(self), *old(self)), Ok(Some(op)))
                    && kept(*old(self), *final(self), UndoOperation::MergeLayerDown(op)))) || merge_layer_down_done(*old(self), layer, *final(self), Ok(None)),
                Err(e) => merge_layer_down_done(*old(self), layer, *final(self), Err(e)),
            },
    {
        match self.merge_layer_down_op(layer) {
            Ok(Some(op)) => {
                self.record_undo(UndoOperation::MergeLayerDown(op));
                Ok(())
            },
            Ok(None) => Ok(()),
            Err(e) => Err(e),
        }
    }
}


/// What `set_char` does to the editor `es0`: `es1` is the editor after it
/// and `res` the operation that undoes it (see `EditState::set_char`).
pub open spec fn set_char_done(es0: EditState, pos: Position, attributed_char: AttributedChar, es1: EditState, res: Result<UndoSetChar, EditorError>) -> bool {
    &&& es0.buffer.layers@.len() == 0 ==> res == Err::<UndoSetChar, EditorError>(EditorError::CurrentLayerInvalid)
        && es1 == es0
    &&& es0.buffer.layers@.len() > 0 ==> {
        let i = es0.current_layer as int;
        let l = es0.buffer.layers@[i];
        &&& res == Ok::<UndoSetChar, EditorError>(UndoSetChar {
            pos,
            layer: es0.current_layer,
            old: char_at(l, layer_cells(l), pos),
            new: attributed_char,
        })
        &&& layer_cells_replaced(es0, es1, i, set_char_cells(l, layer_cells(l), pos, attributed_char))
    }
}

/// What `swap_char` does to the editor `es0`: `es1` is the editor after it
/// and `res` the operation that undoes it (see `EditState::swap_char`).
pub open spec fn swap_char_done(es0: EditState, pos1: Position, pos2: Position, es1: EditState, res: UndoSwapChar) -> bool {
    &&& res == (UndoSwapChar { layer: es0.current_layer, pos1, pos2 })
    &&& layer_cells_replaced(es0, es1, es0.current_layer as int, crate::undo_operations::swapped_cells(
        es0.buffer.layers@[es0.current_layer as int],
        pos1,
        pos2,
    ))
}

/// What `add_new_layer` does to the editor `es0`: `es1` is the editor after it
/// and `res` the operation that undoes it (see `EditState::add_new_layer`).
pub open spec fn add_new_layer_done(es0: EditState, layer: usize, es1: EditState, res: AddLayer) -> bool {
    let n = es0.buffer.layers@.len();
    let i = if n == 0 { 0 } else { layer + 1 };
    &&& res.index == i
    &&& res.layer is None
    &&& layer_added(es0, es1, i, es1.buffer.layers@[i])
    &&& is_fresh_layer(es1.buffer.layers@[i], "New layer"@, es0.buffer.size, n > 0)
}

/// What `remove_layer` does to the editor `es0`: `es1` is the editor after it
/// and `res` the operation that undoes it (see `EditState::remove_layer`).
pub open spec fn remove_layer_done(es0: EditState, layer: usize, es1: EditState, res: Result<RemoveLayer, EditorError>) -> bool {
    &&& layer < es0.buffer.layers@.len() ==> {
        &&& res matches Ok(op) && op.layer_index == layer && op.layer == Some(es0.buffer.layers@[layer as int])
        &&& layers_replaced(es0, es1, es0.buffer.layers@.remove(layer as int))
    }
    &&& layer >= es0.buffer.layers@.len() ==> res == Err::<RemoveLayer, EditorError>(EditorError::InvalidLayer(layer))
        && es1 == es0
}

/// What `raise_layer` does to the editor `es0`: `es1` is the editor after it
/// and `res` the operation that undoes it (see `EditState::raise_layer`).
pub open spec fn raise_layer_done(es0: EditState, layer: usize, es1: EditState, res: Option<RaiseLayer>) -> bool {
    &&& layer + 1 >= es0.buffer.layers@.len() ==> res is None && es1 == es0
    &&& layer + 1 < es0.buffer.layers@.len() ==> {
        &&& res == Some(RaiseLayer { layer_index: layer })
        &&& layers_set(es0, EditState { current_layer: es0.current_layer, ..es1 }, swapped(
            es0.buffer.layers@,
            layer as int,
        ))
        &&& es1.current_layer == layer + 1
    }
}

/// What `lower_layer` does to the editor `es0`: `es1` is the editor after it
/// and `res` the operation that undoes it (see `EditState::lower_layer`).
pub open spec fn lower_layer_done(es0: EditState, layer: usize, es1: EditState, res: Option<LowerLayer>) -> bool {
    &&& layer == 0 ==> res is None && es1 == es0
    &&& layer > 0 ==> {
        &&& res == Some(LowerLayer { layer_index: layer })
        &&& layers_set(es0, EditState { current_layer: es0.current_layer, ..es1 }, swapped(
            es0.buffer.layers@,
            layer - 1,
        ))
        &&& es1.current_layer == layer - 1
    }
}

/// What `duplicate_layer` does to the editor `es0`: `es1` is the editor after it
/// and `res` the operation that undoes it (see `EditState::duplicate_layer`).
pub open spec fn duplicate_layer_done(es0: EditState, layer: usize, es1: EditState, res: AddLayer) -> bool {
    &&& res.index == layer + 1
    &&& res.layer is None
    &&& layer_added(es0, es1, layer + 1, es1.buffer.layers@[layer + 1])
    &&& same_layer_props(es1.buffer.layers@[layer + 1], es0.buffer.layers@[layer as int])
    &&& layer_cells(es1.buffer.layers@[layer + 1]) == layer_cells(es0.buffer.layers@[layer as int])
}

/// What `toggle_layer_visibility` does to the editor `es0`: `es1` is the editor after it
/// and `res` the operation that undoes it (see `EditState::toggle_layer_visibility`).
pub open spec fn toggle_layer_visibility_done(es0: EditState, layer: usize, es1: EditState, res: Result<ToggleLayerVisibility, EditorError>) -> bool {
    &&& layer < es0.buffer.layers@.len() ==> res == Ok::<ToggleLayerVisibility, EditorError>(
        ToggleLayerVisibility { index: layer },
    ) && layer_replaced(es0, es1, layer as int, Layer {
        is_visible: !es0.buffer.layers@[layer as int].is_visible,
        ..es0.buffer.layers@[layer as int]
    })
    &&& layer >= es0.buffer.layers@.len() ==> res == Err::<ToggleLayerVisibility, EditorError>(
        EditorError::InvalidLayer(layer),
    ) && es1 == es0
}

/// What `move_layer` does to the editor `es0`: `es1` is the editor after it
/// and `res` the operation that undoes it (see `EditState::move_layer`).
pub open spec fn move_layer_done(es0: EditState, to: Position, es1: EditState, res: Result<Option<MoveLayer>, EditorError>) -> bool {
    &&& es0.buffer.layers@.len() == 0 ==> res == Ok::<Option<MoveLayer>, EditorError>(None) && es1
        == es0
    &&& es0.buffer.layers@.len() > 0 ==> {
        let i = es0.current_layer as int;
        let from = es0.buffer.layers@[current_layer_index(es0)].offset;
        if i < es0.buffer.layers@.len() {
            let l = es0.buffer.layers@[i];
            &&& res == Ok::<Option<MoveLayer>, EditorError>(Some(MoveLayer { index: i as usize, from, to }))
            &&& es_layer_moved(es0, es1, i, if l.is_position_locked { l.offset } else { to })
        } else {
            res == Err::<Option<MoveLayer>, EditorError>(EditorError::InvalidLayer(i as usize))
                && es1 == es0
        }
    }
}

/// What `set_layer_size` does to the editor `es0`: `es1` is the editor after it
/// and `res` the operation that undoes it (see `EditState::set_layer_size`).
pub open spec fn set_layer_size_done(es0: EditState, layer: usize, size: Size, es1: EditState, res: Result<SetLayerSize, EditorError>) -> bool {
    &&& layer < es0.buffer.layers@.len() ==> res == Ok::<SetLayerSize, EditorError>(
        SetLayerSize { index: layer, from: es0.buffer.layers@[layer as int].size, to: size },
    ) && layer_replaced(es0, es1, layer as int, Layer {
        size,
        ..es0.buffer.layers@[layer as int]
    })
    &&& layer >= es0.buffer.layers@.len() ==> res == Err::<SetLayerSize, EditorError>(EditorError::InvalidLayer(layer))
        && es1 == es0
}

/// What `resize_buffer` does to the editor `es0`: `es1` is the editor after it
/// and `res` the operation that undoes it (see `EditState::resize_buffer`).
pub open spec fn resize_buffer_done(es0: EditState, size: Size, es1: EditState, res: ResizeBuffer) -> bool {
    &&& res == (ResizeBuffer { orig_size: es0.buffer.size, size })
    &&& es1 == (EditState { buffer: Buffer { size, ..es0.buffer }, ..es0 })
}

/// What `merge_layer_down` does to the editor `es0`: `es1` is the editor after it
/// and `res` the operation that undoes it (see `EditState::merge_layer_down`).
pub open spec fn merge_layer_down_done(es0: EditState, layer: usize, es1: EditState, res: Result<Option<MergeLayerDown>, EditorError>) -> bool {
    &&& layer == 0 ==> res == Ok::<Option<MergeLayerDown>, EditorError>(None) && es1 == es0
    &&& layer > 0 ==> {
        let ls = es0.buffer.layers@;
        let m = es1.buffer.layers@[layer - 1];
        let last = if ls.len() - 1 > 0 { ls.len() - 2 } else { 0 };
        &&& es1.buffer == (Buffer { layers: es1.buffer.layers, ..es0.buffer })
        &&& es1.buffer.layers@ == merged_down(ls, layer as int, m)
        &&& is_merge_of(m, ls[layer - 1], ls[layer as int])
        &&& es1 == (EditState {
            buffer: es1.buffer,
            current_layer: if es0.current_layer > last { last as usize } else { es0.current_layer },
            ..es0
        })
        &&& res matches Ok(Some(op)) && op.index == layer && op.merged_layer is None && (op.orig_layers matches Some(
            o,
        ) && o@ == seq![ls[layer - 1], ls[layer as int]])
    }
}

/// Adding a layer and undoing it gives back the layers, and the editor
/// keeps the operations to undo that it kept before.
pub proof fn law_add_new_layer_then_undo(
    es0: EditState,
    layer: usize,
    es1: EditState,
    es2: EditState,
    r2: Result<(), EditorError>,
)
    requires
        es0.buffer.layers@.len() > 0 ==> layer < es0.buffer.layers@.len(),
        es1.undo_stack@.last() matches UndoOperation::AddLayer(op) && add_new_layer_done(es0, layer, unrecorded(es1, es0), op)
            && kept(es0, es1, UndoOperation::AddLayer(op)),
        undo_done(es1, es2, r2),
    ensures
        r2 is Ok,
        es2.buffer.layers@ == es0.buffer.layers@,
        es2.undo_stack@ == es0.undo_stack@,
{
    let op = es1.undo_stack@.last()->AddLayer_0;
    let i = op.index as int;
    let l = es1.buffer.layers@[i];
    assert(es1.buffer.layers@ == es0.buffer.layers@.insert(i, l));
    assert(es0.buffer.layers@.insert(i, l).remove(i) =~= es0.buffer.layers@);
    assert(es1.undo_stack@.drop_last() =~= es0.undo_stack@);
}

/// Removing a layer and undoing it gives back the layers, and the editor
/// keeps the operations to undo that it kept before.
pub proof fn law_remove_layer_then_undo(
    es0: EditState,
    layer: usize,
    es1: EditState,
    es2: EditState,
    r2: Result<(), EditorError>,
)
    requires
        es1.undo_stack@.last() matches UndoOperation::RemoveLayer(op) && remove_layer_done(es0, layer, unrecorded(es1, es0), Ok(op))
            && kept(es0, es1, UndoOperation::RemoveLayer(op)),
        undo_done(es1, es2, r2),
    ensures
        r2 is Ok,
        es2.buffer.layers@ == es0.buffer.layers@,
        es2.undo_stack@ == es0.undo_stack@,
{
    let ls = es0.buffer.layers@;
    assert(layer < ls.len());
    assert(ls.remove(layer as int).insert(layer as int, ls[layer as int]) =~= ls);
    assert(es1.undo_stack@.drop_last() =~= es0.undo_stack@);
}

/// Adding a layer, undoing it and redoing it gives back the layers that the
/// adding made.
pub proof fn law_add_new_layer_undo_redo(
    es0: EditState,
    layer: usize,
    es1: EditState,
    es2: EditState,
    r2: Result<(), EditorError>,
    es3: EditState,
    r3: Result<(), EditorError>,
)
    requires
        es0.buffer.layers@.len() > 0 ==> layer < es0.buffer.layers@.len(),
        es1.undo_stack@.last() matches UndoOperation::AddLayer(op) && add_new_layer_done(es0, layer, unrecorded(es1, es0), op)
            && kept(es0, es1, UndoOperation::AddLayer(op)),
        undo_done(es1, es2, r2),
        redo_done(es2, es3, r3),
    ensures
        r3 is Ok,
        es3.buffer.layers@ == es1.buffer.layers@,
        es3.undo_stack@.len() == es1.undo_stack@.len(),
{
    let op = es1.undo_stack@.last()->AddLayer_0;
    let i = op.index as int;
    let l = es1.buffer.layers@[i];
    assert(es1.buffer.layers@ == es0.buffer.layers@.insert(i, l));
    assert(es0.buffer.layers@.insert(i, l).remove(i) =~= es0.buffer.layers@);
    assert(es1.undo_stack@.drop_last() =~= es0.undo_stack@);
    assert(es2.redo_stack@.last() == es2.redo_stack@[es2.redo_stack@.len() - 1]);
}

} // verus!

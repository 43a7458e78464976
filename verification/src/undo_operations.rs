use vstd::prelude::*;

use crate::attributed_char::{invisible_char, AttributedChar};
use crate::buffer::Buffer;
use crate::caret::{default_caret, Caret};
use crate::editor_error::EditorError;
use crate::geometry::{Position, Rectangle, Size};
use crate::layer::{cells_of, char_at, layer_cells, lemma_cells_of_push, same_layer_props, set_char_cells, Layer};
use crate::line::Line;
use crate::palette::Palette;
use crate::text_attribute::TextAttribute;
use crate::undo_stack::UndoOperation;

verus! {

/// What an editor works on: a buffer, its caret and the layer being edited.
pub struct EditState {
    pub buffer: Buffer,
    pub caret: Caret,
    pub current_layer: usize,
    /// The rectangle of the current selection, if there is one.
    pub selection: Option<Rectangle>,
    /// The outline style that drawing tools use.
    pub outline_style: usize,
    /// Whether drawing is mirrored.
    pub mirror_mode: bool,
    /// The operations done that can be undone, the last one done last.
    pub undo_stack: Vec<UndoOperation>,
    /// The operations undone that can be redone, the last one undone last.
    pub redo_stack: Vec<UndoOperation>,
    pub is_palette_dirty: bool,
    pub is_buffer_dirty: bool,
}

/// The highest layer index of a buffer with `n` layers, 0 where it has none.
pub open spec fn last_layer_index(n: int) -> int {
    if n > 0 { n - 1 } else { 0 }
}

/// `es1` is `es0` with other layers and the current layer held to them.
pub open spec fn layers_replaced(es0: EditState, es1: EditState, ls: Seq<Layer>) -> bool {
    &&& es1.buffer == (Buffer { layers: es1.buffer.layers, ..es0.buffer })
    &&& es1.buffer.layers@ == ls
    &&& es1 == (EditState { buffer: es1.buffer, current_layer: es1.current_layer, ..es0 })
    &&& es1.current_layer == if es0.current_layer > last_layer_index(ls.len() as int) {
        last_layer_index(ls.len() as int)
    } else {
        es0.current_layer as int
    }
}

/// `es1` is `es0` with the layers `ls`.
pub open spec fn layers_set(es0: EditState, es1: EditState, ls: Seq<Layer>) -> bool {
    &&& es1.buffer == (Buffer { layers: es1.buffer.layers, ..es0.buffer })
    &&& es1.buffer.layers@ == ls
    &&& es1 == (EditState { buffer: es1.buffer, ..es0 })
}

/// `es1` is `es0` with layer `i` replaced by `l`.
pub open spec fn layer_replaced(es0: EditState, es1: EditState, i: int, l: Layer) -> bool {
    &&& es1.buffer == (Buffer { layers: es1.buffer.layers, ..es0.buffer })
    &&& es1.buffer.layers@ == es0.buffer.layers@.update(i, l)
    &&& es1 == (EditState { buffer: es1.buffer, ..es0 })
}

/// `es1` is `es0` with the cells of layer `i` now `cells`.
pub open spec fn layer_cells_replaced(es0: EditState, es1: EditState, i: int, cells: Seq<Seq<AttributedChar>>) -> bool {
    &&& es1.buffer == (Buffer { layers: es1.buffer.layers, ..es0.buffer })
    &&& es1 == (EditState { buffer: es1.buffer, ..es0 })
    &&& es1.buffer.layers@.len() == es0.buffer.layers@.len()
    &&& forall|k: int| 0 <= k < es0.buffer.layers@.len() && k != i ==> es1.buffer.layers@[k] == #[trigger] es0.buffer.layers@[k]
    &&& same_layer_props(es1.buffer.layers@[i], es0.buffer.layers@[i])
    &&& layer_cells(es1.buffer.layers@[i]) == cells
}

/// The layers with the neighbours `i` and `i + 1` exchanged.
pub open spec fn swapped(ls: Seq<Layer>, i: int) -> Seq<Layer> {
    ls.update(i, ls[i + 1]).update(i + 1, ls[i])
}

impl EditState {
    /// An editor on `buffer` with the caret at the origin.
    pub fn from_buffer(buffer: Buffer) -> (res: Self)
        ensures
            res.buffer == buffer,
            res.caret == default_caret(),
            res.current_layer == 0,
            res.selection is None,
            res.outline_style == 0,
            !res.mirror_mode,
            res.undo_stack@.len() == 0,
            res.redo_stack@.len() == 0,
            !res.is_palette_dirty,
            !res.is_buffer_dirty,
    {
        EditState {
            buffer,
            caret: Caret::default(),
            current_layer: 0,
            selection: None,
            outline_style: 0,
            mirror_mode: false,
            undo_stack: Vec::new(),
            redo_stack: Vec::new(),
            is_palette_dirty: false,
            is_buffer_dirty: false,
        }
    }

    pub fn get_outline_style(&self) -> (res: usize)
        ensures
            res == self.outline_style,
    {
        self.outline_style
    }

    pub fn set_outline_style(&mut self, outline_style: usize)
        ensures
            *final(self) == (EditState { outline_style, ..*old(self) }),
    {
        self.outline_style = outline_style;
    }

    pub fn get_mirror_mode(&self) -> (res: bool)
        ensures
            res == self.mirror_mode,
    {
        self.mirror_mode
    }

    pub fn set_mirror_mode(&mut self, mirror_mode: bool)
        ensures
            *final(self) == (EditState { mirror_mode, ..*old(self) }),
    {
        self.mirror_mode = mirror_mode;
    }

    /// Makes `layer` the current layer, held to the layers the buffer has.
    pub fn set_current_layer(&mut self, layer: usize)
        ensures
            *final(self) == (EditState {
                current_layer: if layer > last_layer_index(old(self).buffer.layers@.len() as int) {
                    last_layer_index(old(self).buffer.layers@.len() as int) as usize
                } else {
                    layer
                },
                ..*old(self)
            }),
    {
        let last = if self.buffer.layers.len() > 0 { self.buffer.layers.len() - 1 } else { 0 };
        self.current_layer = if layer > last { last } else { layer };
    }

    /// The current layer, where the buffer has one.
    pub fn get_cur_layer(&self) -> (res: Option<&Layer>)
        ensures
            self.buffer.layers@.len() == 0 ==> res is None,
            self.buffer.layers@.len() > 0 ==> res == Some(&self.buffer.layers@[
                if self.current_layer > last_layer_index(self.buffer.layers@.len() as int) {
                    last_layer_index(self.buffer.layers@.len() as int)
                } else {
                    self.current_layer as int
                }
            ]),
    {
        let n = self.buffer.layers.len();
        if n == 0 {
            return None;
        }
        let i = if self.current_layer > n - 1 { n - 1 } else { self.current_layer };
        Some(&self.buffer.layers[i])
    }

    /// The current layer to change, where the buffer has one.
    pub fn get_cur_layer_mut(&mut self) -> (res: Option<&mut Layer>)
        ensures
            old(self).buffer.layers@.len() == 0 ==> res is None && *final(self) == *old(self),
            old(self).buffer.layers@.len() > 0 ==> res is Some && {
                let i = if old(self).current_layer > last_layer_index(old(self).buffer.layers@.len() as int) {
                    last_layer_index(old(self).buffer.layers@.len() as int)
                } else {
                    old(self).current_layer as int
                };
                &&& *res->0 == old(self).buffer.layers@[i]
                &&& final(self).buffer.layers@ == old(self).buffer.layers@.update(i, *final(res->0))
                &&& *final(self) == (EditState { buffer: Buffer { layers: final(self).buffer.layers, ..old(self).buffer }, ..*old(self) })
            },
    {
        let n = self.buffer.layers.len();
        if n == 0 {
            return None;
        }
        let i = if self.current_layer > n - 1 { n - 1 } else { self.current_layer };
        Some(&mut self.buffer.layers[i])
    }

    /// Puts `buffer` in the place of the buffer being edited.
    pub fn set_buffer(&mut self, buffer: Buffer)
        ensures
            *final(self) == (EditState { buffer, ..*old(self) }),
    {
        self.buffer = buffer;
    }

    /// The buffer and the caret, both to change.
    pub fn get_buffer_and_caret_mut(&mut self) -> (res: (&mut Buffer, &mut Caret))
        ensures
            *res.0 == old(self).buffer,
            *res.1 == old(self).caret,
            *final(self) == (EditState { buffer: *final(res.0), caret: *final(res.1), ..*old(self) }),
    {
        (&mut self.buffer, &mut self.caret)
    }

    /// The buffer being edited.
    pub fn get_buffer(&self) -> (res: &Buffer)
        ensures
            *res == self.buffer,
    {
        &self.buffer
    }

    /// The buffer being edited, to change it.
    pub fn get_buffer_mut(&mut self) -> (res: &mut Buffer)
        ensures
            *res == old(self).buffer,
            *final(self) == (EditState { buffer: *final(res), ..*old(self) }),
    {
        &mut self.buffer
    }

    /// The caret.
    pub fn get_caret(&self) -> (res: &Caret)
        ensures
            *res == self.caret,
    {
        &self.caret
    }

    /// The caret, to move it.
    pub fn get_caret_mut(&mut self) -> (res: &mut Caret)
        ensures
            *res == old(self).caret,
            *final(self) == (EditState { caret: *final(res), ..*old(self) }),
    {
        &mut self.caret
    }

    /// Holds the current layer to the layers there are.
    pub fn clamp_current_layer(&mut self)
        ensures
            *final(self) == (EditState {
                current_layer: if old(self).current_layer > last_layer_index(old(self).buffer.layers@.len() as int) {
                    last_layer_index(old(self).buffer.layers@.len() as int) as usize
                } else {
                    old(self).current_layer
                },
                ..*old(self)
            }),
    {
        let last = if self.buffer.layers.len() > 0 { self.buffer.layers.len() - 1 } else { 0 };
        if self.current_layer > last {
            self.current_layer = last;
        }
    }
}

impl Default for EditState {
    /// An editor on a fresh buffer of 80 by 25 cells.
    fn default() -> (res: Self)
        ensures
            res.buffer.size == (Size { width: 80, height: 25 }),
            res.buffer.layers@.len() == 1,
            res.buffer.layers@[0].size == (Size { width: 80, height: 25 }),
            res.buffer.layers@[0].is_visible,
            !res.buffer.layers@[0].is_locked,
            res.buffer.layers@[0].offset == (Position { x: 0, y: 0 }),
            res.caret == default_caret(),
            res.current_layer == 0,
            res.selection is None,
            res.outline_style == 0,
            !res.mirror_mode,
            res.undo_stack@.len() == 0,
            res.redo_stack@.len() == 0,
            !res.is_palette_dirty,
            !res.is_buffer_dirty,
    {
        EditState::from_buffer(Buffer::new(Size::new(80, 25)))
    }
}

/// Exchanges the layers `i` and `i + 1`.
fn swap_layers(layers: &mut Vec<Layer>, i: usize)
    requires
        i + 1 < old(layers).len(),
    ensures
        final(layers)@ == swapped(old(layers)@, i as int),
{
    let upper = layers.remove(i + 1);
    layers.insert(i, upper);
    assert(layers@ =~= swapped(old(layers)@, i as int));
}

/// Writes a cell; undone by writing the cell it replaced.
pub struct UndoSetChar {
    pub pos: Position,
    pub layer: usize,
    pub old: AttributedChar,
    pub new: AttributedChar,
}

impl UndoSetChar {
    /// Whether `es` is a state that this operation can be undone in.
    pub open spec fn undo_pre(&self, es: EditState) -> bool {
        &&& self.layer < es.buffer.layers@.len()
    }

    /// What undoing this operation in `es0` does: `es1` is the state
    /// after it, `op1` the operation after it and `res` its result.
    pub open spec fn undo_post(&self, es0: EditState, op1: Self, es1: EditState, res: Result<(), EditorError>) -> bool {
        &&& op1 == *self
        &&& res is Ok
        &&& layer_cells_replaced(es0, es1, self.layer as int, set_char_cells(
            es0.buffer.layers@[self.layer as int],
            layer_cells(es0.buffer.layers@[self.layer as int]),
            self.pos,
            self.old,
        ))
    }

    pub fn undo(&self, es: &mut EditState) -> (res: Result<(), EditorError>)
        requires
            self.undo_pre(*old(es)),
        ensures
            self.undo_post(*old(es), *self, *final(es), res),
    {
        let ghost ls = es.buffer.layers@;
        es.buffer.layers[self.layer].set_char(self.pos, self.old);
        assert forall|k: int| 0 <= k < ls.len() && k != self.layer implies es.buffer.layers@[k] == ls[k] by {}
        Ok(())
    }

    /// Whether `es` is a state that this operation can be redone in.
    pub open spec fn redo_pre(&self, es: EditState) -> bool {
        &&& self.layer < es.buffer.layers@.len()
    }

    /// What redoing this operation in `es0` does: `es1` is the state
    /// after it, `op1` the operation after it and `res` its result.
    pub open spec fn redo_post(&self, es0: EditState, op1: Self, es1: EditState, res: Result<(), EditorError>) -> bool {
        &&& op1 == *self
        &&& res is Ok
        &&& layer_cells_replaced(es0, es1, self.layer as int, set_char_cells(
            es0.buffer.layers@[self.layer as int],
            layer_cells(es0.buffer.layers@[self.layer as int]),
            self.pos,
            self.new,
        ))
    }

    pub fn redo(&self, es: &mut EditState) -> (res: Result<(), EditorError>)
        requires
            self.redo_pre(*old(es)),
        ensures
            self.redo_post(*old(es), *self, *final(es), res),
    {
        let ghost ls = es.buffer.layers@;
        es.buffer.layers[self.layer].set_char(self.pos, self.new);
        assert forall|k: int| 0 <= k < ls.len() && k != self.layer implies es.buffer.layers@[k] == ls[k] by {}
        Ok(())
    }
}

/// The rows that layer `l` gets back from a recorded change `chars` made at
/// `pos`: all of them where the sizes agree, else `chars` written at `pos`.
pub open spec fn layer_change_cells(l: Layer, pos: Position, chars: Layer) -> Seq<Seq<AttributedChar>> {
    if l.size == chars.size {
        layer_cells(chars)
    } else {
        crate::area_operations::stamp_cells(l, pos, chars)
    }
}

/// A change of a layer's cells, kept as the cells before and after it.
pub struct UndoLayerChange {
    pub layer: usize,
    pub pos: Position,
    pub old_chars: Layer,
    pub new_chars: Layer,
}

impl UndoLayerChange {
    pub fn new(layer: usize, pos: Position, old_chars: Layer, new_chars: Layer) -> (res: Self)
        ensures
            res == (UndoLayerChange { layer, pos, old_chars, new_chars }),
    {
        UndoLayerChange { layer, pos, old_chars, new_chars }
    }

    fn put(layer: usize, pos: Position, chars: &Layer, es: &mut EditState) -> (res: Result<(), EditorError>)
        requires
            layer < old(es).buffer.layers@.len() && old(es).buffer.layers@[layer as int].size != chars.size
                ==> crate::area_operations::stamp_fits(pos, *chars),
        ensures
            layer < old(es).buffer.layers@.len() ==> res is Ok && layer_cells_replaced(
                *old(es),
                *final(es),
                layer as int,
                layer_change_cells(old(es).buffer.layers@[layer as int], pos, *chars),
            ),
            layer >= old(es).buffer.layers@.len() ==> res == Err::<(), EditorError>(EditorError::InvalidLayer(layer))
                && *final(es) == *old(es),
    {
        if layer >= es.buffer.layers.len() {
            return Err(EditorError::InvalidLayer(layer));
        }
        let ghost ls = es.buffer.layers@;
        if es.buffer.layers[layer].size == chars.size {
            let mut copy = chars.duplicate();
            std::mem::swap(&mut es.buffer.layers[layer].lines, &mut copy.lines);
        } else {
            es.buffer.layers[layer].stamp(pos, chars);
        }
        assert forall|k: int| 0 <= k < ls.len() && k != layer implies es.buffer.layers@[k] == #[trigger] ls[k] by {}
        Ok(())
    }

    /// Gives the layer back the cells it had before the change.
    /// Whether `es` is a state that this operation can be undone in.
    pub open spec fn undo_pre(&self, es: EditState) -> bool {
        &&& self.layer < es.buffer.layers@.len() && es.buffer.layers@[self.layer as int].size
            != self.old_chars.size ==> crate::area_operations::stamp_fits(self.pos, self.old_chars)
    }

    /// What undoing this operation in `es0` does: `es1` is the state
    /// after it, `op1` the operation after it and `res` its result.
    pub open spec fn undo_post(&self, es0: EditState, op1: Self, es1: EditState, res: Result<(), EditorError>) -> bool {
        &&& op1 == *self
        &&& self.layer < es0.buffer.layers@.len() ==> res is Ok && layer_cells_replaced(
            es0,
            es1,
            self.layer as int,
            layer_change_cells(es0.buffer.layers@[self.layer as int], self.pos, self.old_chars),
        )
        &&& self.layer >= es0.buffer.layers@.len() ==> res == Err::<(), EditorError>(
            EditorError::InvalidLayer(self.layer),
        ) && es1 == es0
    }

    pub fn undo(&self, es: &mut EditState) -> (res: Result<(), EditorError>)
        requires
            self.undo_pre(*old(es)),
        ensures
            self.undo_post(*old(es), *self, *final(es), res),
    {
        Self::put(self.layer, self.pos, &self.old_chars, es)
    }

    /// Makes the change again.
    /// Whether `es` is a state that this operation can be redone in.
    pub open spec fn redo_pre(&self, es: EditState) -> bool {
        &&& self.layer < es.buffer.layers@.len() && es.buffer.layers@[self.layer as int].size
            != self.new_chars.size ==> crate::area_operations::stamp_fits(self.pos, self.new_chars)
    }

    /// What redoing this operation in `es0` does: `es1` is the state
    /// after it, `op1` the operation after it and `res` its result.
    pub open spec fn redo_post(&self, es0: EditState, op1: Self, es1: EditState, res: Result<(), EditorError>) -> bool {
        &&& op1 == *self
        &&& self.layer < es0.buffer.layers@.len() ==> res is Ok && layer_cells_replaced(
            es0,
            es1,
            self.layer as int,
            layer_change_cells(es0.buffer.layers@[self.layer as int], self.pos, self.new_chars),
        )
        &&& self.layer >= es0.buffer.layers@.len() ==> res == Err::<(), EditorError>(
            EditorError::InvalidLayer(self.layer),
        ) && es1 == es0
    }

    pub fn redo(&self, es: &mut EditState) -> (res: Result<(), EditorError>)
        requires
            self.redo_pre(*old(es)),
        ensures
            self.redo_post(*old(es), *self, *final(es), res),
    {
        Self::put(self.layer, self.pos, &self.new_chars, es)
    }
}

/// `es1` is `es0` with layer `i` turned over its diagonal; see
/// `Layer::rotate`.
pub open spec fn layer_rotated(es0: EditState, es1: EditState, i: int) -> bool {
    let l = es0.buffer.layers@[i];
    let props = Layer { size: Size { width: l.size.height, height: l.size.width }, ..l };
    &&& es1.buffer == (Buffer { layers: es1.buffer.layers, ..es0.buffer })
    &&& es1 == (EditState { buffer: es1.buffer, ..es0 })
    &&& es1.buffer.layers@.len() == es0.buffer.layers@.len()
    &&& forall|k: int| 0 <= k < es0.buffer.layers@.len() && k != i ==> es1.buffer.layers@[k] == #[trigger] es0.buffer.layers@[k]
    &&& same_layer_props(es1.buffer.layers@[i], props)
    &&& layer_cells(es1.buffer.layers@[i]) == crate::area_operations::groups_applied(
        props,
        Seq::empty(),
        l.lines@.len(),
        crate::area_operations::rotate_groups(layer_cells(l)),
    )
}

/// Turns a layer over its diagonal; undone by turning it again.
pub struct RotateLayer {
    pub layer: usize,
}

impl RotateLayer {
    pub fn new(layer: usize) -> (res: Self)
        ensures
            res.layer == layer,
    {
        RotateLayer { layer }
    }

    /// Whether `es` is a state that this operation can be redone in.
    pub open spec fn redo_pre(&self, es: EditState) -> bool {
        &&& self.layer < es.buffer.layers@.len() ==> crate::area_operations::cells_in_range(
            layer_cells(es.buffer.layers@[self.layer as int]),
        )
    }

    /// What redoing this operation in `es0` does: `es1` is the state
    /// after it, `op1` the operation after it and `res` its result.
    pub open spec fn redo_post(&self, es0: EditState, op1: Self, es1: EditState, res: Result<(), EditorError>) -> bool {
        &&& op1 == *self
        &&& self.layer < es0.buffer.layers@.len() ==> res is Ok && layer_rotated(es0, es1, self.layer as int)
        &&& self.layer >= es0.buffer.layers@.len() ==> res == Err::<(), EditorError>(EditorError::InvalidLayer(self.layer))
            && es1 == es0
    }

    pub fn redo(&self, es: &mut EditState) -> (res: Result<(), EditorError>)
        requires
            self.redo_pre(*old(es)),
        ensures
            self.redo_post(*old(es), *self, *final(es), res),
    {
        if self.layer >= es.buffer.layers.len() {
            return Err(EditorError::InvalidLayer(self.layer));
        }
        let ghost ls = es.buffer.layers@;
        es.buffer.layers[self.layer].rotate();
        assert forall|k: int| 0 <= k < ls.len() && k != self.layer implies es.buffer.layers@[k] == ls[k] by {}
        Ok(())
    }

    /// Whether `es` is a state that this operation can be undone in.
    pub open spec fn undo_pre(&self, es: EditState) -> bool {
        &&& self.layer < es.buffer.layers@.len() ==> crate::area_operations::cells_in_range(
            layer_cells(es.buffer.layers@[self.layer as int]),
        )
    }

    /// What undoing this operation in `es0` does: `es1` is the state
    /// after it, `op1` the operation after it and `res` its result.
    pub open spec fn undo_post(&self, es0: EditState, op1: Self, es1: EditState, res: Result<(), EditorError>) -> bool {
        &&& op1 == *self
        &&& self.layer < es0.buffer.layers@.len() ==> res is Ok && layer_rotated(es0, es1, self.layer as int)
        &&& self.layer >= es0.buffer.layers@.len() ==> res == Err::<(), EditorError>(EditorError::InvalidLayer(self.layer))
            && es1 == es0
    }

    pub fn undo(&self, es: &mut EditState) -> (res: Result<(), EditorError>)
        requires
            self.undo_pre(*old(es)),
        ensures
            self.undo_post(*old(es), *self, *final(es), res),
    {
        self.redo(es)
    }
}

/// Selects a rectangle, or nothing; undone by going back to the selection
/// before.
pub struct SetSelection {
    pub old: Option<Rectangle>,
    pub new: Option<Rectangle>,
}

impl SetSelection {
    pub fn new(old: Option<Rectangle>, new: Option<Rectangle>) -> (res: Self)
        ensures
            res.old == old,
            res.new == new,
    {
        SetSelection { old, new }
    }

    /// What undoing this operation in `es0` does: `es1` is the state
    /// after it, `op1` the operation after it and `res` its result.
    pub open spec fn undo_post(&self, es0: EditState, op1: Self, es1: EditState, res: Result<(), EditorError>) -> bool {
        &&& op1 == *self
        &&& res is Ok
        &&& es1 == (EditState { selection: self.old, ..es0 })
    }

    pub fn undo(&self, es: &mut EditState) -> (res: Result<(), EditorError>)
        ensures
            self.undo_post(*old(es), *self, *final(es), res),
    {
        es.selection = self.old;
        Ok(())
    }

    /// What redoing this operation in `es0` does: `es1` is the state
    /// after it, `op1` the operation after it and `res` its result.
    pub open spec fn redo_post(&self, es0: EditState, op1: Self, es1: EditState, res: Result<(), EditorError>) -> bool {
        &&& op1 == *self
        &&& res is Ok
        &&& es1 == (EditState { selection: self.new, ..es0 })
    }

    pub fn redo(&self, es: &mut EditState) -> (res: Result<(), EditorError>)
        ensures
            self.redo_post(*old(es), *self, *final(es), res),
    {
        es.selection = self.new;
        Ok(())
    }
}

/// Drops the selection `sel`; undone by selecting it again.
pub struct Deselect {
    pub sel: Rectangle,
}

impl Deselect {
    pub fn new(sel: Rectangle) -> (res: Self)
        ensures
            res.sel == sel,
    {
        Deselect { sel }
    }

    /// What undoing this operation in `es0` does: `es1` is the state
    /// after it, `op1` the operation after it and `res` its result.
    pub open spec fn undo_post(&self, es0: EditState, op1: Self, es1: EditState, res: Result<(), EditorError>) -> bool {
        &&& op1 == *self
        &&& res is Ok
        &&& es1 == (EditState { selection: Some(self.sel), ..es0 })
    }

    pub fn undo(&self, es: &mut EditState) -> (res: Result<(), EditorError>)
        ensures
            self.undo_post(*old(es), *self, *final(es), res),
    {
        es.selection = Some(self.sel);
        Ok(())
    }

    /// What redoing this operation in `es0` does: `es1` is the state
    /// after it, `op1` the operation after it and `res` its result.
    pub open spec fn redo_post(&self, es0: EditState, op1: Self, es1: EditState, res: Result<(), EditorError>) -> bool {
        &&& op1 == *self
        &&& res is Ok
        &&& es1 == (EditState { selection: None, ..es0 })
    }

    pub fn redo(&self, es: &mut EditState) -> (res: Result<(), EditorError>)
        ensures
            self.redo_post(*old(es), *self, *final(es), res),
    {
        es.selection = None;
        Ok(())
    }
}

/// Selects nothing; undone by selecting `sel` again.
pub struct SelectNothing {
    pub sel: Option<Rectangle>,
}

impl SelectNothing {
    pub fn new(sel: Option<Rectangle>) -> (res: Self)
        ensures
            res.sel == sel,
    {
        SelectNothing { sel }
    }

    /// What undoing this operation in `es0` does: `es1` is the state
    /// after it, `op1` the operation after it and `res` its result.
    pub open spec fn undo_post(&self, es0: EditState, op1: Self, es1: EditState, res: Result<(), EditorError>) -> bool {
        &&& op1 == *self
        &&& res is Ok
        &&& es1 == (EditState { selection: self.sel, ..es0 })
    }

    pub fn undo(&self, es: &mut EditState) -> (res: Result<(), EditorError>)
        ensures
            self.undo_post(*old(es), *self, *final(es), res),
    {
        es.selection = self.sel;
        Ok(())
    }

    /// What redoing this operation in `es0` does: `es1` is the state
    /// after it, `op1` the operation after it and `res` its result.
    pub open spec fn redo_post(&self, es0: EditState, op1: Self, es1: EditState, res: Result<(), EditorError>) -> bool {
        &&& op1 == *self
        &&& res is Ok
        &&& es1 == (EditState { selection: None, ..es0 })
    }

    pub fn redo(&self, es: &mut EditState) -> (res: Result<(), EditorError>)
        ensures
            self.redo_post(*old(es), *self, *final(es), res),
    {
        es.selection = None;
        Ok(())
    }
}

/// Exchanges two cells of a layer; its own inverse.
pub struct UndoSwapChar {
    pub layer: usize,
    pub pos1: Position,
    pub pos2: Position,
}

/// The cells of layer `l` after the cells at `p1` and `p2` were exchanged.
pub open spec fn swapped_cells(l: Layer, p1: Position, p2: Position) -> Seq<Seq<AttributedChar>> {
    let cells = layer_cells(l);
    set_char_cells(l, set_char_cells(l, cells, p1, char_at(l, cells, p2)), p2, char_at(l, cells, p1))
}

impl UndoSwapChar {
    fn swap(&self, es: &mut EditState)
        requires
            self.layer < old(es).buffer.layers@.len(),
        ensures
            layer_cells_replaced(*old(es), *final(es), self.layer as int, swapped_cells(old(es).buffer.layers@[self.layer as int], self.pos1, self.pos2)),
    {
        let ghost ls = es.buffer.layers@;
        es.buffer.layers[self.layer].swap_char(self.pos1, self.pos2);
        assert forall|k: int| 0 <= k < ls.len() && k != self.layer implies es.buffer.layers@[k] == ls[k] by {}
    }

    /// Whether `es` is a state that this operation can be undone in.
    pub open spec fn undo_pre(&self, es: EditState) -> bool {
        &&& self.layer < es.buffer.layers@.len()
    }

    /// What undoing this operation in `es0` does: `es1` is the state
    /// after it, `op1` the operation after it and `res` its result.
    pub open spec fn undo_post(&self, es0: EditState, op1: Self, es1: EditState, res: Result<(), EditorError>) -> bool {
        &&& op1 == *self
        &&& res is Ok
        &&& layer_cells_replaced(es0, es1, self.layer as int, swapped_cells(es0.buffer.layers@[self.layer as int], self.pos1, self.pos2))
    }

    pub fn undo(&self, es: &mut EditState) -> (res: Result<(), EditorError>)
        requires
            self.undo_pre(*old(es)),
        ensures
            self.undo_post(*old(es), *self, *final(es), res),
    {
        self.swap(es);
        Ok(())
    }

    /// Whether `es` is a state that this operation can be redone in.
    pub open spec fn redo_pre(&self, es: EditState) -> bool {
        &&& self.layer < es.buffer.layers@.len()
    }

    /// What redoing this operation in `es0` does: `es1` is the state
    /// after it, `op1` the operation after it and `res` its result.
    pub open spec fn redo_post(&self, es0: EditState, op1: Self, es1: EditState, res: Result<(), EditorError>) -> bool {
        &&& op1 == *self
        &&& res is Ok
        &&& layer_cells_replaced(es0, es1, self.layer as int, swapped_cells(es0.buffer.layers@[self.layer as int], self.pos1, self.pos2))
    }

    pub fn redo(&self, es: &mut EditState) -> (res: Result<(), EditorError>)
        requires
            self.redo_pre(*old(es)),
        ensures
            self.redo_post(*old(es), *self, *final(es), res),
    {
        self.swap(es);
        Ok(())
    }
}

/// Exchanges the rows of a layer with the rows it keeps; its own inverse.
pub struct ClearLayerOperation {
    pub layer_num: usize,
    pub lines: Vec<Line>,
}

impl ClearLayerOperation {
    pub fn _new(layer_num: usize) -> (res: Self)
        ensures
            res.layer_num == layer_num,
            res.lines@.len() == 0,
    {
        ClearLayerOperation { layer_num, lines: Vec::new() }
    }

    fn exchange(&mut self, es: &mut EditState)
        requires
            old(self).layer_num < old(es).buffer.layers@.len(),
        ensures
            final(self).layer_num == old(self).layer_num,
            final(self).lines == old(es).buffer.layers@[old(self).layer_num as int].lines,
            layer_replaced(*old(es), *final(es), old(self).layer_num as int, Layer {
                lines: old(self).lines,
                ..old(es).buffer.layers@[old(self).layer_num as int]
            }),
    {
        std::mem::swap(&mut self.lines, &mut es.buffer.layers[self.layer_num].lines);
        assert(es.buffer.layers@ =~= old(es).buffer.layers@.update(
            self.layer_num as int,
            Layer { lines: old(self).lines, ..old(es).buffer.layers@[self.layer_num as int] },
        ));
    }

    /// Whether `es` is a state that this operation can be undone in.
    pub open spec fn undo_pre(&self, es: EditState) -> bool {
        &&& self.layer_num < es.buffer.layers@.len()
    }

    /// What undoing this operation in `es0` does: `es1` is the state
    /// after it, `op1` the operation after it and `res` its result.
    pub open spec fn undo_post(&self, es0: EditState, op1: Self, es1: EditState, res: Result<(), EditorError>) -> bool {
        &&& res is Ok
        &&& op1.layer_num == self.layer_num
        &&& op1.lines == es0.buffer.layers@[self.layer_num as int].lines
        &&& layer_replaced(es0, es1, self.layer_num as int, Layer {
            lines: self.lines,
            ..es0.buffer.layers@[self.layer_num as int]
        })
    }

    pub fn undo(&mut self, es: &mut EditState) -> (res: Result<(), EditorError>)
        requires
            old(self).undo_pre(*old(es)),
        ensures
            old(self).undo_post(*old(es), *final(self), *final(es), res),
    {
        self.exchange(es);
        Ok(())
    }

    /// Whether `es` is a state that this operation can be redone in.
    pub open spec fn redo_pre(&self, es: EditState) -> bool {
        &&& self.layer_num < es.buffer.layers@.len()
    }

    /// What redoing this operation in `es0` does: `es1` is the state
    /// after it, `op1` the operation after it and `res` its result.
    pub open spec fn redo_post(&self, es0: EditState, op1: Self, es1: EditState, res: Result<(), EditorError>) -> bool {
        &&& res is Ok
        &&& op1.layer_num == self.layer_num
        &&& op1.lines == es0.buffer.layers@[self.layer_num as int].lines
        &&& layer_replaced(es0, es1, self.layer_num as int, Layer {
            lines: self.lines,
            ..es0.buffer.layers@[self.layer_num as int]
        })
    }

    pub fn redo(&mut self, es: &mut EditState) -> (res: Result<(), EditorError>)
        requires
            old(self).redo_pre(*old(es)),
        ensures
            old(self).redo_post(*old(es), *final(self), *final(es), res),
    {
        self.exchange(es);
        Ok(())
    }
}

/// Empties a layer, keeping its rows to put them back; its own inverse.
pub struct ClearLayer {
    pub layer_index: usize,
    pub layer: Vec<Line>,
}

impl ClearLayer {
    pub fn new(layer_index: usize) -> (res: Self)
        ensures
            res.layer_index == layer_index,
            res.layer@.len() == 0,
    {
        ClearLayer { layer_index, layer: Vec::new() }
    }

    /// What redoing this operation in `es0` does: `es1` is the state
    /// after it, `op1` the operation after it and `res` its result.
    pub open spec fn redo_post(&self, es0: EditState, op1: Self, es1: EditState, res: Result<(), EditorError>) -> bool {
        &&& op1.layer_index == self.layer_index
        &&& self.layer_index < es0.buffer.layers@.len() ==> {
            &&& res is Ok
            &&& op1.layer == es0.buffer.layers@[self.layer_index as int].lines
            &&& layer_replaced(es0, es1, self.layer_index as int, Layer {
                lines: self.layer,
                ..es0.buffer.layers@[self.layer_index as int]
            })
        }
        &&& self.layer_index >= es0.buffer.layers@.len() ==> {
            &&& res == Err::<(), EditorError>(EditorError::InvalidLayer(self.layer_index))
            &&& op1 == *self && es1 == es0
        }
    }

    pub fn redo(&mut self, es: &mut EditState) -> (res: Result<(), EditorError>)
        ensures
            old(self).redo_post(*old(es), *final(self), *final(es), res),
    {
        if self.layer_index < es.buffer.layers.len() {
            std::mem::swap(&mut self.layer, &mut es.buffer.layers[self.layer_index].lines);
            assert(es.buffer.layers@ =~= old(es).buffer.layers@.update(
                self.layer_index as int,
                Layer { lines: old(self).layer, ..old(es).buffer.layers@[self.layer_index as int] },
            ));
            Ok(())
        } else {
            Err(EditorError::InvalidLayer(self.layer_index))
        }
    }

    /// What undoing this operation in `es0` does: `es1` is the state
    /// after it, `op1` the operation after it and `res` its result.
    pub open spec fn undo_post(&self, es0: EditState, op1: Self, es1: EditState, res: Result<(), EditorError>) -> bool {
        &&& op1.layer_index == self.layer_index
        &&& self.layer_index < es0.buffer.layers@.len() ==> {
            &&& res is Ok
            &&& op1.layer == es0.buffer.layers@[self.layer_index as int].lines
            &&& layer_replaced(es0, es1, self.layer_index as int, Layer {
                lines: self.layer,
                ..es0.buffer.layers@[self.layer_index as int]
            })
        }
        &&& self.layer_index >= es0.buffer.layers@.len() ==> {
            &&& res == Err::<(), EditorError>(EditorError::InvalidLayer(self.layer_index))
            &&& op1 == *self && es1 == es0
        }
    }

    pub fn undo(&mut self, es: &mut EditState) -> (res: Result<(), EditorError>)
        ensures
            old(self).undo_post(*old(es), *final(self), *final(es), res),
    {
        self.redo(es)
    }
}


/// Adds a layer; undone by taking it out again.
pub struct AddLayer {
    pub index: usize,
    pub layer: Option<Layer>,
}

impl AddLayer {
    pub fn new(index: usize, new_layer: Layer) -> (res: Self)
        ensures
            res.index == index,
            res.layer == Some(new_layer),
    {
        AddLayer { index, layer: Some(new_layer) }
    }

    /// Whether `es` is a state that this operation can be undone in.
    pub open spec fn undo_pre(&self, es: EditState) -> bool {
        &&& self.index < es.buffer.layers@.len()
    }

    /// What undoing this operation in `es0` does: `es1` is the state
    /// after it, `op1` the operation after it and `res` its result.
    pub open spec fn undo_post(&self, es0: EditState, op1: Self, es1: EditState, res: Result<(), EditorError>) -> bool {
        &&& res is Ok
        &&& op1.index == self.index
        &&& op1.layer == Some(es0.buffer.layers@[self.index as int])
        &&& layers_replaced(es0, es1, es0.buffer.layers@.remove(self.index as int))
    }

    pub fn undo(&mut self, es: &mut EditState) -> (res: Result<(), EditorError>)
        requires
            old(self).undo_pre(*old(es)),
        ensures
            old(self).undo_post(*old(es), *final(self), *final(es), res),
    {
        let l = es.buffer.layers.remove(self.index);
        self.layer = Some(l);
        es.clamp_current_layer();
        Ok(())
    }

    /// Whether `es` is a state that this operation can be redone in.
    pub open spec fn redo_pre(&self, es: EditState) -> bool {
        &&& self.layer is Some ==> self.index <= es.buffer.layers@.len()
    }

    /// What redoing this operation in `es0` does: `es1` is the state
    /// after it, `op1` the operation after it and `res` its result.
    pub open spec fn redo_post(&self, es0: EditState, op1: Self, es1: EditState, res: Result<(), EditorError>) -> bool {
        &&& res is Ok
        &&& op1.index == self.index
        &&& op1.layer is None
        &&& match self.layer {
            Some(l) => layers_set(es0, es1, es0.buffer.layers@.insert(self.index as int, l)),
            None => es1 == es0,
        }
    }

    pub fn redo(&mut self, es: &mut EditState) -> (res: Result<(), EditorError>)
        requires
            old(self).redo_pre(*old(es)),
        ensures
            old(self).redo_post(*old(es), *final(self), *final(es), res),
    {
        match self.layer.take() {
            Some(l) => {
                es.buffer.layers.insert(self.index, l);
            },
            None => {},
        }
        Ok(())
    }
}

/// Removes a layer, keeping it to put it back.
pub struct RemoveLayer {
    pub layer_index: usize,
    pub layer: Option<Layer>,
}

impl RemoveLayer {
    pub fn new(layer_index: usize) -> (res: Self)
        ensures
            res.layer_index == layer_index,
            res.layer is None,
    {
        RemoveLayer { layer_index, layer: None }
    }

    /// Whether `es` is a state that this operation can be undone in.
    pub open spec fn undo_pre(&self, es: EditState) -> bool {
        &&& self.layer is Some ==> self.layer_index <= es.buffer.layers@.len()
    }

    /// What undoing this operation in `es0` does: `es1` is the state
    /// after it, `op1` the operation after it and `res` its result.
    pub open spec fn undo_post(&self, es0: EditState, op1: Self, es1: EditState, res: Result<(), EditorError>) -> bool {
        &&& res is Ok
        &&& op1.layer_index == self.layer_index
        &&& op1.layer is None
        &&& match self.layer {
            Some(l) => layers_set(es0, es1, es0.buffer.layers@.insert(self.layer_index as int, l)),
            None => es1 == es0,
        }
    }

    pub fn undo(&mut self, es: &mut EditState) -> (res: Result<(), EditorError>)
        requires
            old(self).undo_pre(*old(es)),
        ensures
            old(self).undo_post(*old(es), *final(self), *final(es), res),
    {
        match self.layer.take() {
            Some(l) => {
                es.buffer.layers.insert(self.layer_index, l);
            },
            None => {},
        }
        Ok(())
    }

    /// What redoing this operation in `es0` does: `es1` is the state
    /// after it, `op1` the operation after it and `res` its result.
    pub open spec fn redo_post(&self, es0: EditState, op1: Self, es1: EditState, res: Result<(), EditorError>) -> bool {
        &&& op1.layer_index == self.layer_index
        &&& self.layer_index < es0.buffer.layers@.len() ==> {
            &&& res is Ok
            &&& op1.layer == Some(es0.buffer.layers@[self.layer_index as int])
            &&& layers_replaced(es0, es1, es0.buffer.layers@.remove(self.layer_index as int))
        }
        &&& self.layer_index >= es0.buffer.layers@.len() ==> {
            &&& res == Err::<(), EditorError>(EditorError::InvalidLayer(self.layer_index))
            &&& op1 == *self && es1 == es0
        }
    }

    pub fn redo(&mut self, es: &mut EditState) -> (res: Result<(), EditorError>)
        ensures
            old(self).redo_post(*old(es), *final(self), *final(es), res),
    {
        if self.layer_index < es.buffer.layers.len() {
            let l = es.buffer.layers.remove(self.layer_index);
            self.layer = Some(l);
            es.clamp_current_layer();
            Ok(())
        } else {
            Err(EditorError::InvalidLayer(self.layer_index))
        }
    }
}

/// Moves a layer one up; its own inverse.
pub struct RaiseLayer {
    pub layer_index: usize,
}

impl RaiseLayer {
    pub fn new(layer_index: usize) -> (res: Self)
        ensures
            res.layer_index == layer_index,
    {
        RaiseLayer { layer_index }
    }

    /// Whether `es` is a state that this operation can be undone in.
    pub open spec fn undo_pre(&self, es: EditState) -> bool {
        &&& self.layer_index + 1 < es.buffer.layers@.len()
    }

    /// What undoing this operation in `es0` does: `es1` is the state
    /// after it, `op1` the operation after it and `res` its result.
    pub open spec fn undo_post(&self, es0: EditState, op1: Self, es1: EditState, res: Result<(), EditorError>) -> bool {
        &&& op1 == *self
        &&& res is Ok
        &&& layers_set(es0, es1, swapped(es0.buffer.layers@, self.layer_index as int))
    }

    pub fn undo(&self, es: &mut EditState) -> (res: Result<(), EditorError>)
        requires
            self.undo_pre(*old(es)),
        ensures
            self.undo_post(*old(es), *self, *final(es), res),
    {
        swap_layers(&mut es.buffer.layers, self.layer_index);
        Ok(())
    }

    /// Whether `es` is a state that this operation can be redone in.
    pub open spec fn redo_pre(&self, es: EditState) -> bool {
        &&& self.layer_index + 1 < es.buffer.layers@.len()
    }

    /// What redoing this operation in `es0` does: `es1` is the state
    /// after it, `op1` the operation after it and `res` its result.
    pub open spec fn redo_post(&self, es0: EditState, op1: Self, es1: EditState, res: Result<(), EditorError>) -> bool {
        &&& op1 == *self
        &&& res is Ok
        &&& layers_set(es0, es1, swapped(es0.buffer.layers@, self.layer_index as int))
    }

    pub fn redo(&self, es: &mut EditState) -> (res: Result<(), EditorError>)
        requires
            self.redo_pre(*old(es)),
        ensures
            self.redo_post(*old(es), *self, *final(es), res),
    {
        swap_layers(&mut es.buffer.layers, self.layer_index);
        Ok(())
    }
}

/// Moves a layer one down; its own inverse.
pub struct LowerLayer {
    pub layer_index: usize,
}

impl LowerLayer {
    pub fn new(layer_index: usize) -> (res: Self)
        ensures
            res.layer_index == layer_index,
    {
        LowerLayer { layer_index }
    }

    /// Whether `es` is a state that this operation can be undone in.
    pub open spec fn undo_pre(&self, es: EditState) -> bool {
        &&& 1 <= self.layer_index < es.buffer.layers@.len()
    }

    /// What undoing this operation in `es0` does: `es1` is the state
    /// after it, `op1` the operation after it and `res` its result.
    pub open spec fn undo_post(&self, es0: EditState, op1: Self, es1: EditState, res: Result<(), EditorError>) -> bool {
        &&& op1 == *self
        &&& res is Ok
        &&& layers_set(es0, es1, swapped(es0.buffer.layers@, self.layer_index - 1))
    }

    pub fn undo(&self, es: &mut EditState) -> (res: Result<(), EditorError>)
        requires
            self.undo_pre(*old(es)),
        ensures
            self.undo_post(*old(es), *self, *final(es), res),
    {
        swap_layers(&mut es.buffer.layers, self.layer_index - 1);
        Ok(())
    }

    /// Whether `es` is a state that this operation can be redone in.
    pub open spec fn redo_pre(&self, es: EditState) -> bool {
        &&& 1 <= self.layer_index < es.buffer.layers@.len()
    }

    /// What redoing this operation in `es0` does: `es1` is the state
    /// after it, `op1` the operation after it and `res` its result.
    pub open spec fn redo_post(&self, es0: EditState, op1: Self, es1: EditState, res: Result<(), EditorError>) -> bool {
        &&& op1 == *self
        &&& res is Ok
        &&& layers_set(es0, es1, swapped(es0.buffer.layers@, self.layer_index - 1))
    }

    pub fn redo(&self, es: &mut EditState) -> (res: Result<(), EditorError>)
        requires
            self.redo_pre(*old(es)),
        ensures
            self.redo_post(*old(es), *self, *final(es), res),
    {
        swap_layers(&mut es.buffer.layers, self.layer_index - 1);
        Ok(())
    }
}

/// The layers after `merged` took the place of the layers `i - 1` and `i`.
pub open spec fn merged_down(ls: Seq<Layer>, i: int, merged: Layer) -> Seq<Layer> {
    ls.subrange(0, i - 1).push(merged) + ls.subrange(i + 1, ls.len() as int)
}

/// Replaces a layer and the one below it by their merge, keeping both to
/// put them back.
pub struct MergeLayerDown {
    pub index: usize,
    pub merged_layer: Option<Layer>,
    pub orig_layers: Option<Vec<Layer>>,
}

impl MergeLayerDown {
    pub fn new(index: usize, merged_layer: Layer) -> (res: Self)
        ensures
            res.index == index,
            res.merged_layer == Some(merged_layer),
            res.orig_layers is None,
    {
        MergeLayerDown { index, merged_layer: Some(merged_layer), orig_layers: None }
    }

    /// Whether `es` is a state that this operation can be redone in.
    pub open spec fn redo_pre(&self, es: EditState) -> bool {
        &&& self.merged_layer is Some ==> 1 <= self.index < es.buffer.layers@.len()
    }

    /// What redoing this operation in `es0` does: `es1` is the state
    /// after it, `op1` the operation after it and `res` its result.
    pub open spec fn redo_post(&self, es0: EditState, op1: Self, es1: EditState, res: Result<(), EditorError>) -> bool {
        &&& op1.index == self.index
        &&& match self.merged_layer {
            Some(m) => {
                let ls = es0.buffer.layers@;
                let i = self.index as int;
                &&& res is Ok
                &&& op1.merged_layer is None
                &&& op1.orig_layers matches Some(o) && o@ == seq![ls[i - 1], ls[i]]
                &&& layers_set(es0, es1, merged_down(ls, i, m))
            },
            None => {
                &&& res == Err::<(), EditorError>(EditorError::MergeLayerDownHasNoMergeLayer)
                &&& op1 == *self && es1 == es0
            },
        }
    }

    pub fn redo(&mut self, es: &mut EditState) -> (res: Result<(), EditorError>)
        requires
            old(self).redo_pre(*old(es)),
        ensures
            old(self).redo_post(*old(es), *final(self), *final(es), res),
    {
        match self.merged_layer.take() {
            Some(layer) => {
                let ghost ls = es.buffer.layers@;
                let lower = es.buffer.layers.remove(self.index - 1);
                let upper = es.buffer.layers.remove(self.index - 1);
                let mut orig = Vec::new();
                orig.push(lower);
                orig.push(upper);
                self.orig_layers = Some(orig);
                es.buffer.layers.insert(self.index - 1, layer);
                assert(es.buffer.layers@ =~= merged_down(ls, self.index as int, layer));
                assert(orig@ =~= seq![ls[self.index - 1], ls[self.index as int]]);
                Ok(())
            },
            None => Err(EditorError::MergeLayerDownHasNoMergeLayer),
        }
    }

    /// Whether `es` is a state that this operation can be undone in.
    pub open spec fn undo_pre(&self, es: EditState) -> bool {
        &&& self.orig_layers matches Some(o) ==> 1 <= self.index && self.index - 1 <= es.buffer.layers@.len()
            && self.index + 1 < es.buffer.layers@.len() + o@.len()
    }

    /// What undoing this operation in `es0` does: `es1` is the state
    /// after it, `op1` the operation after it and `res` its result.
    pub open spec fn undo_post(&self, es0: EditState, op1: Self, es1: EditState, res: Result<(), EditorError>) -> bool {
        &&& op1.index == self.index
        &&& match self.orig_layers {
            Some(o) => {
                let ls = es0.buffer.layers@;
                let i = self.index as int;
                let back = ls.subrange(0, i - 1) + o@ + ls.subrange(i - 1, ls.len() as int);
                &&& res is Ok
                &&& op1.orig_layers is None
                &&& op1.merged_layer == Some(back[i + 1])
                &&& layers_replaced(es0, es1, back.remove(i + 1))
            },
            None => {
                &&& res == Err::<(), EditorError>(EditorError::MergeLayerDownHasNoMergeLayer)
                &&& op1 == *self && es1 == es0
            },
        }
    }

    pub fn undo(&mut self, es: &mut EditState) -> (res: Result<(), EditorError>)
        requires
            old(self).undo_pre(*old(es)),
        ensures
            old(self).undo_post(*old(es), *final(self), *final(es), res),
    {
        match self.orig_layers.take() {
            Some(mut orig) => {
                let ghost ls = es.buffer.layers@;
                let ghost o = orig@;
                let at = self.index - 1;
                while orig.len() > 0
                    invariant
                        at == old(self).index - 1,
                        at <= ls.len(),
                        orig@ == o.subrange(0, orig@.len() as int),
                        orig@.len() <= o.len(),
                        es.buffer.layers@ == ls.subrange(0, at as int) + o.subrange(orig@.len() as int, o.len() as int) + ls.subrange(at as int, ls.len() as int),
                        es.buffer == (Buffer { layers: es.buffer.layers, ..old(es).buffer }),
                        *es == (EditState { buffer: es.buffer, ..*old(es) }),
                    decreases orig@.len(),
                {
                    let ghost before = es.buffer.layers@;
                    let l = orig.pop().unwrap();
                    es.buffer.layers.insert(at, l);
                    assert(es.buffer.layers@ =~= ls.subrange(0, at as int) + o.subrange(orig@.len() as int, o.len() as int) + ls.subrange(at as int, ls.len() as int));
                }
                assert(o.subrange(0, o.len() as int) =~= o);
                assert(self.index + 1 < es.buffer.layers.len());
                let merged = es.buffer.layers.remove(self.index + 1);
                self.merged_layer = Some(merged);
                es.clamp_current_layer();
                Ok(())
            },
            None => Err(EditorError::MergeLayerDownHasNoMergeLayer),
        }
    }
}

/// Shows a hidden layer and hides a shown one; its own inverse.
pub struct ToggleLayerVisibility {
    pub index: usize,
}

impl ToggleLayerVisibility {
    pub fn new(index: usize) -> (res: Self)
        ensures
            res.index == index,
    {
        ToggleLayerVisibility { index }
    }

    fn toggle(&self, es: &mut EditState) -> (res: Result<(), EditorError>)
        ensures
            self.index < old(es).buffer.layers@.len() ==> res is Ok && layer_replaced(*old(es), *final(es), self.index as int, Layer {
                is_visible: !old(es).buffer.layers@[self.index as int].is_visible,
                ..old(es).buffer.layers@[self.index as int]
            }),
            self.index >= old(es).buffer.layers@.len() ==> res == Err::<(), EditorError>(EditorError::InvalidLayer(self.index)) && *final(es) == *old(es),
    {
        if self.index < es.buffer.layers.len() {
            let v = es.buffer.layers[self.index].is_visible;
            es.buffer.layers[self.index].is_visible = !v;
            assert(es.buffer.layers@ =~= old(es).buffer.layers@.update(self.index as int, Layer {
                is_visible: !old(es).buffer.layers@[self.index as int].is_visible,
                ..old(es).buffer.layers@[self.index as int]
            }));
            Ok(())
        } else {
            Err(EditorError::InvalidLayer(self.index))
        }
    }

    /// What undoing this operation in `es0` does: `es1` is the state
    /// after it, `op1` the operation after it and `res` its result.
    pub open spec fn undo_post(&self, es0: EditState, op1: Self, es1: EditState, res: Result<(), EditorError>) -> bool {
        &&& op1 == *self
        &&& self.index < es0.buffer.layers@.len() ==> res is Ok && layer_replaced(es0, es1, self.index as int, Layer {
            is_visible: !es0.buffer.layers@[self.index as int].is_visible,
            ..es0.buffer.layers@[self.index as int]
        })
        &&& self.index >= es0.buffer.layers@.len() ==> res == Err::<(), EditorError>(EditorError::InvalidLayer(self.index)) && es1 == es0
    }

    pub fn undo(&self, es: &mut EditState) -> (res: Result<(), EditorError>)
        ensures
            self.undo_post(*old(es), *self, *final(es), res),
    {
        self.toggle(es)
    }

    /// What redoing this operation in `es0` does: `es1` is the state
    /// after it, `op1` the operation after it and `res` its result.
    pub open spec fn redo_post(&self, es0: EditState, op1: Self, es1: EditState, res: Result<(), EditorError>) -> bool {
        &&& op1 == *self
        &&& self.index < es0.buffer.layers@.len() ==> res is Ok && layer_replaced(es0, es1, self.index as int, Layer {
            is_visible: !es0.buffer.layers@[self.index as int].is_visible,
            ..es0.buffer.layers@[self.index as int]
        })
        &&& self.index >= es0.buffer.layers@.len() ==> res == Err::<(), EditorError>(EditorError::InvalidLayer(self.index)) && es1 == es0
    }

    pub fn redo(&self, es: &mut EditState) -> (res: Result<(), EditorError>)
        ensures
            self.redo_post(*old(es), *self, *final(es), res),
    {
        self.toggle(es)
    }
}

/// Moves a layer from one offset to another.
pub struct MoveLayer {
    pub index: usize,
    pub from: Position,
    pub to: Position,
}

impl MoveLayer {
    pub fn new(index: usize, from: Position, to: Position) -> (res: Self)
        ensures
            res.index == index,
            res.from == from,
            res.to == to,
    {
        MoveLayer { index, from, to }
    }

    fn move_to(&self, es: &mut EditState, pos: Position) -> (res: Result<(), EditorError>)
        ensures
            self.index < old(es).buffer.layers@.len() ==> {
                let l = old(es).buffer.layers@[self.index as int];
                &&& res is Ok
                &&& es_layer_moved(*old(es), *final(es), self.index as int, if l.is_position_locked { l.offset } else { pos })
            },
            self.index >= old(es).buffer.layers@.len() ==> res == Err::<(), EditorError>(EditorError::InvalidLayer(self.index)) && *final(es) == *old(es),
    {
        if self.index < es.buffer.layers.len() {
            let ghost ls = es.buffer.layers@;
            es.buffer.layers[self.index].set_offset(pos);
            assert forall|k: int| 0 <= k < ls.len() && k != self.index implies es.buffer.layers@[k] == ls[k] by {}
            Ok(())
        } else {
            Err(EditorError::InvalidLayer(self.index))
        }
    }

    /// What undoing this operation in `es0` does: `es1` is the state
    /// after it, `op1` the operation after it and `res` its result.
    pub open spec fn undo_post(&self, es0: EditState, op1: Self, es1: EditState, res: Result<(), EditorError>) -> bool {
        &&& op1 == *self
        &&& self.index < es0.buffer.layers@.len() ==> {
            let l = es0.buffer.layers@[self.index as int];
            &&& res is Ok
            &&& es_layer_moved(es0, es1, self.index as int, if l.is_position_locked { l.offset } else { self.from })
        }
        &&& self.index >= es0.buffer.layers@.len() ==> res == Err::<(), EditorError>(EditorError::InvalidLayer(self.index)) && es1 == es0
    }

    pub fn undo(&self, es: &mut EditState) -> (res: Result<(), EditorError>)
        ensures
            self.undo_post(*old(es), *self, *final(es), res),
    {
        self.move_to(es, self.from)
    }

    /// What redoing this operation in `es0` does: `es1` is the state
    /// after it, `op1` the operation after it and `res` its result.
    pub open spec fn redo_post(&self, es0: EditState, op1: Self, es1: EditState, res: Result<(), EditorError>) -> bool {
        &&& op1 == *self
        &&& self.index < es0.buffer.layers@.len() ==> {
            let l = es0.buffer.layers@[self.index as int];
            &&& res is Ok
            &&& es_layer_moved(es0, es1, self.index as int, if l.is_position_locked { l.offset } else { self.to })
        }
        &&& self.index >= es0.buffer.layers@.len() ==> res == Err::<(), EditorError>(EditorError::InvalidLayer(self.index)) && es1 == es0
    }

    pub fn redo(&self, es: &mut EditState) -> (res: Result<(), EditorError>)
        ensures
            self.redo_post(*old(es), *self, *final(es), res),
    {
        self.move_to(es, self.to)
    }
}

/// `es1` is `es0` with layer `i` now at offset `pos`.
pub open spec fn es_layer_moved(es0: EditState, es1: EditState, i: int, pos: Position) -> bool {
    &&& es1.buffer == (Buffer { layers: es1.buffer.layers, ..es0.buffer })
    &&& es1 == (EditState { buffer: es1.buffer, ..es0 })
    &&& es1.buffer.layers@.len() == es0.buffer.layers@.len()
    &&& forall|k: int| 0 <= k < es0.buffer.layers@.len() && k != i ==> es1.buffer.layers@[k] == #[trigger] es0.buffer.layers@[k]
    &&& es1.buffer.layers@[i].offset == pos
    &&& layer_cells(es1.buffer.layers@[i]) == layer_cells(es0.buffer.layers@[i])
    &&& es1.buffer.layers@[i].size == es0.buffer.layers@[i].size
    &&& es1.buffer.layers@[i].is_position_locked == es0.buffer.layers@[i].is_position_locked
    &&& es1.buffer.layers@[i].is_visible == es0.buffer.layers@[i].is_visible
    &&& es1.buffer.layers@[i].is_locked == es0.buffer.layers@[i].is_locked
}

/// Pastes a layer on top; undone by taking the top layer off.
pub struct Paste {
    pub layer: Option<Layer>,
}

impl Paste {
    pub fn new(paste_layer: Layer) -> (res: Self)
        ensures
            res.layer == Some(paste_layer),
    {
        Paste { layer: Some(paste_layer) }
    }

    /// Whether `es` is a state that this operation can be undone in.
    pub open spec fn undo_pre(&self, es: EditState) -> bool {
        &&& es.buffer.layers@.len() > 0
    }

    /// What undoing this operation in `es0` does: `es1` is the state
    /// after it, `op1` the operation after it and `res` its result.
    pub open spec fn undo_post(&self, es0: EditState, op1: Self, es1: EditState, res: Result<(), EditorError>) -> bool {
        &&& res is Ok
        &&& op1.layer == Some(es0.buffer.layers@.last())
        &&& layers_set(es0, es1, es0.buffer.layers@.drop_last())
    }

    pub fn undo(&mut self, es: &mut EditState) -> (res: Result<(), EditorError>)
        requires
            old(self).undo_pre(*old(es)),
        ensures
            old(self).undo_post(*old(es), *final(self), *final(es), res),
    {
        let l = es.buffer.layers.pop().unwrap();
        self.layer = Some(l);
        Ok(())
    }

    /// What redoing this operation in `es0` does: `es1` is the state
    /// after it, `op1` the operation after it and `res` its result.
    pub open spec fn redo_post(&self, es0: EditState, op1: Self, es1: EditState, res: Result<(), EditorError>) -> bool {
        &&& op1.layer is None
        &&& match self.layer {
            Some(l) => res is Ok && layers_set(es0, es1, es0.buffer.layers@.push(l)),
            None => res == Err::<(), EditorError>(EditorError::CurrentLayerInvalid) && es1 == es0,
        }
    }

    pub fn redo(&mut self, es: &mut EditState) -> (res: Result<(), EditorError>)
        ensures
            old(self).redo_post(*old(es), *final(self), *final(es), res),
    {
        match self.layer.take() {
            Some(l) => {
                es.buffer.layers.push(l);
                Ok(())
            },
            None => Err(EditorError::CurrentLayerInvalid),
        }
    }
}

/// Exchanges the buffer's palette with the one it keeps; its own inverse.
pub struct SwitchPalettte {
    pub pal: Palette,
}

impl SwitchPalettte {
    pub fn new(pal: Palette) -> (res: Self)
        ensures
            res.pal == pal,
    {
        SwitchPalettte { pal }
    }

    fn exchange(&mut self, es: &mut EditState)
        ensures
            final(self).pal == old(es).buffer.palette,
            *final(es) == (EditState { buffer: Buffer { palette: old(self).pal, ..old(es).buffer }, is_palette_dirty: true, ..*old(es) }),
    {
        std::mem::swap(&mut es.buffer.palette, &mut self.pal);
        es.is_palette_dirty = true;
    }

    /// What undoing this operation in `es0` does: `es1` is the state
    /// after it, `op1` the operation after it and `res` its result.
    pub open spec fn undo_post(&self, es0: EditState, op1: Self, es1: EditState, res: Result<(), EditorError>) -> bool {
        &&& res is Ok
        &&& op1.pal == es0.buffer.palette
        &&& es1 == (EditState { buffer: Buffer { palette: self.pal, ..es0.buffer }, is_palette_dirty: true, ..es0 })
    }

    pub fn undo(&mut self, es: &mut EditState) -> (res: Result<(), EditorError>)
        ensures
            old(self).undo_post(*old(es), *final(self), *final(es), res),
    {
        self.exchange(es);
        Ok(())
    }

    /// What redoing this operation in `es0` does: `es1` is the state
    /// after it, `op1` the operation after it and `res` its result.
    pub open spec fn redo_post(&self, es0: EditState, op1: Self, es1: EditState, res: Result<(), EditorError>) -> bool {
        &&& res is Ok
        &&& op1.pal == es0.buffer.palette
        &&& es1 == (EditState { buffer: Buffer { palette: self.pal, ..es0.buffer }, is_palette_dirty: true, ..es0 })
    }

    pub fn redo(&mut self, es: &mut EditState) -> (res: Result<(), EditorError>)
        ensures
            old(self).redo_post(*old(es), *final(self), *final(es), res),
    {
        self.exchange(es);
        Ok(())
    }
}

/// Switches the caret to another font page.
pub struct SwitchToFontPage {
    pub old: usize,
    pub new: usize,
}

impl SwitchToFontPage {
    pub fn new(old: usize, new: usize) -> (res: Self)
        ensures
            res.old == old,
            res.new == new,
    {
        SwitchToFontPage { old, new }
    }

    /// What undoing this operation in `es0` does: `es1` is the state
    /// after it, `op1` the operation after it and `res` its result.
    pub open spec fn undo_post(&self, es0: EditState, op1: Self, es1: EditState, res: Result<(), EditorError>) -> bool {
        &&& op1 == *self
        &&& res is Ok
        &&& es1 == (EditState { caret: Caret { attribute: TextAttribute { font_page: self.old, ..es0.caret.attribute }, ..es0.caret }, ..es0 })
    }

    pub fn undo(&self, es: &mut EditState) -> (res: Result<(), EditorError>)
        ensures
            self.undo_post(*old(es), *self, *final(es), res),
    {
        es.caret.set_font_page(self.old);
        Ok(())
    }

    /// What redoing this operation in `es0` does: `es1` is the state
    /// after it, `op1` the operation after it and `res` its result.
    pub open spec fn redo_post(&self, es0: EditState, op1: Self, es1: EditState, res: Result<(), EditorError>) -> bool {
        &&& op1 == *self
        &&& res is Ok
        &&& es1 == (EditState { caret: Caret { attribute: TextAttribute { font_page: self.new, ..es0.caret.attribute }, ..es0.caret }, ..es0 })
    }

    pub fn redo(&self, es: &mut EditState) -> (res: Result<(), EditorError>)
        ensures
            self.redo_post(*old(es), *self, *final(es), res),
    {
        es.caret.set_font_page(self.new);
        Ok(())
    }
}


/// The rows `cells` grown with empty rows until they are `n`.
pub open spec fn rows_padded(cells: Seq<Seq<AttributedChar>>, n: int) -> Seq<Seq<AttributedChar>> {
    if cells.len() < n { cells + Seq::new((n - cells.len()) as nat, |i: int| Seq::<AttributedChar>::empty()) } else { cells }
}

/// `es1` is `es0` with layer `i` now holding `cells` and of size `size`.
pub open spec fn layer_reshaped(es0: EditState, es1: EditState, i: int, cells: Seq<Seq<AttributedChar>>, size: Size) -> bool {
    &&& es1.buffer == (Buffer { layers: es1.buffer.layers, ..es0.buffer })
    &&& es1 == (EditState { buffer: es1.buffer, ..es0 })
    &&& es1.buffer.layers@.len() == es0.buffer.layers@.len()
    &&& forall|k: int| 0 <= k < es0.buffer.layers@.len() && k != i ==> es1.buffer.layers@[k] == #[trigger] es0.buffer.layers@[k]
    &&& same_layer_props(es1.buffer.layers@[i], Layer { size, ..es0.buffer.layers@[i] })
    &&& layer_cells(es1.buffer.layers@[i]) == cells
}

fn pad_lines(lines: &mut Vec<Line>, n: usize)
    ensures
        cells_of(final(lines)@) == rows_padded(cells_of(old(lines)@), n as int),
        final(lines)@.len() >= n,
{
    let ghost c0 = cells_of(lines@);
    while lines.len() < n
        invariant
            c0 == cells_of(old(lines)@),
            c0.len() <= lines@.len(),
            c0.len() < n ==> lines@.len() <= n,
            c0.len() >= n ==> lines@.len() == c0.len(),
            cells_of(lines@) == c0 + Seq::new((lines@.len() - c0.len()) as nat, |i: int| Seq::<AttributedChar>::empty()),
        decreases n - lines@.len(),
    {
        let l = Line::new();
        proof {
            lemma_cells_of_push(lines@, l);
        }
        lines.push(l);
        assert(cells_of(lines@) =~= c0 + Seq::new((lines@.len() - c0.len()) as nat, |i: int| Seq::<AttributedChar>::empty()));
    }
    assert(cells_of(lines@) =~= rows_padded(c0, n as int));
}

/// Deletes a row of a layer, keeping it to put it back.
pub struct DeleteRow {
    pub layer: usize,
    pub line: i32,
    pub deleted_row: Line,
}

impl DeleteRow {
    pub fn new(layer: usize, line: i32) -> (res: Self)
        ensures
            res.layer == layer,
            res.line == line,
            res.deleted_row.chars@.len() == 0,
    {
        DeleteRow { layer, line, deleted_row: Line::new() }
    }

    /// Whether `es` is a state that this operation can be undone in.
    pub open spec fn undo_pre(&self, es: EditState) -> bool {
        &&& self.layer < es.buffer.layers@.len() ==> {
            let l = es.buffer.layers@[self.layer as int];
            0 <= self.line <= l.lines@.len() && l.size.height < usize::MAX
        }
    }

    /// What undoing this operation in `es0` does: `es1` is the state
    /// after it, `op1` the operation after it and `res` its result.
    pub open spec fn undo_post(&self, es0: EditState, op1: Self, es1: EditState, res: Result<(), EditorError>) -> bool {
        &&& op1.layer == self.layer && op1.line == self.line
        &&& self.layer < es0.buffer.layers@.len() ==> {
            let l = es0.buffer.layers@[self.layer as int];
            &&& res is Ok
            &&& op1.deleted_row.chars@.len() == 0
            &&& layer_reshaped(es0, es1, self.layer as int,
                layer_cells(l).insert(self.line as int, self.deleted_row.chars@),
                Size { width: l.size.width, height: (l.size.height + 1) as usize })
        }
        &&& self.layer >= es0.buffer.layers@.len() ==> {
            &&& res == Err::<(), EditorError>(EditorError::InvalidLayer(self.layer))
            &&& op1 == *self && es1 == es0
        }
    }

    pub fn undo(&mut self, es: &mut EditState) -> (res: Result<(), EditorError>)
        requires
            old(self).undo_pre(*old(es)),
        ensures
            old(self).undo_post(*old(es), *final(self), *final(es), res),
    {
        if self.layer >= es.buffer.layers.len() {
            return Err(EditorError::InvalidLayer(self.layer));
        }
        let ghost ls = es.buffer.layers@;
        let mut row = Line::new();
        std::mem::swap(&mut self.deleted_row, &mut row);
        let ghost before = es.buffer.layers@[self.layer as int].lines@;
        es.buffer.layers[self.layer].lines.insert(self.line as usize, row);
        assert(cells_of(es.buffer.layers@[self.layer as int].lines@) =~= cells_of(before).insert(self.line as int, row.chars@));
        let h = es.buffer.layers[self.layer].size.height;
        es.buffer.layers[self.layer].set_height(h + 1);
        assert forall|k: int| 0 <= k < ls.len() && k != self.layer implies es.buffer.layers@[k] == ls[k] by {}
        Ok(())
    }

    /// Whether `es` is a state that this operation can be redone in.
    pub open spec fn redo_pre(&self, es: EditState) -> bool {
        &&& self.layer < es.buffer.layers@.len() ==> self.line >= 0
            && es.buffer.layers@[self.layer as int].size.height > 0
    }

    /// What redoing this operation in `es0` does: `es1` is the state
    /// after it, `op1` the operation after it and `res` its result.
    pub open spec fn redo_post(&self, es0: EditState, op1: Self, es1: EditState, res: Result<(), EditorError>) -> bool {
        &&& op1.layer == self.layer && op1.line == self.line
        &&& self.layer < es0.buffer.layers@.len() ==> {
            let l = es0.buffer.layers@[self.layer as int];
            let padded = rows_padded(layer_cells(l), self.line + 1);
            &&& res is Ok
            &&& op1.deleted_row.chars@ == padded[self.line as int]
            &&& layer_reshaped(es0, es1, self.layer as int,
                padded.remove(self.line as int),
                Size { width: l.size.width, height: (l.size.height - 1) as usize })
        }
        &&& self.layer >= es0.buffer.layers@.len() ==> {
            &&& res == Err::<(), EditorError>(EditorError::InvalidLayer(self.layer))
            &&& op1 == *self && es1 == es0
        }
    }

    pub fn redo(&mut self, es: &mut EditState) -> (res: Result<(), EditorError>)
        requires
            old(self).redo_pre(*old(es)),
        ensures
            old(self).redo_post(*old(es), *final(self), *final(es), res),
    {
        if self.layer >= es.buffer.layers.len() {
            return Err(EditorError::InvalidLayer(self.layer));
        }
        let ghost ls = es.buffer.layers@;
        let y = self.line as usize;
        pad_lines(&mut es.buffer.layers[self.layer].lines, y + 1);
        let ghost before = es.buffer.layers@[self.layer as int].lines@;
        self.deleted_row = es.buffer.layers[self.layer].lines.remove(y);
        assert(cells_of(es.buffer.layers@[self.layer as int].lines@) =~= cells_of(before).remove(y as int));
        let h = es.buffer.layers[self.layer].size.height;
        es.buffer.layers[self.layer].set_height(h - 1);
        assert forall|k: int| 0 <= k < ls.len() && k != self.layer implies es.buffer.layers@[k] == ls[k] by {}
        Ok(())
    }
}

/// Inserts a row into a layer; undone by taking it out.
pub struct InsertRow {
    pub layer: usize,
    pub line: i32,
    pub inserted_row: Line,
}

impl InsertRow {
    pub fn new(layer: usize, line: i32) -> (res: Self)
        ensures
            res.layer == layer,
            res.line == line,
            res.inserted_row.chars@.len() == 0,
    {
        InsertRow { layer, line, inserted_row: Line::new() }
    }

    /// Whether `es` is a state that this operation can be undone in.
    pub open spec fn undo_pre(&self, es: EditState) -> bool {
        &&& self.layer < es.buffer.layers@.len() ==> {
            let l = es.buffer.layers@[self.layer as int];
            0 <= self.line < l.lines@.len() && l.size.height > 0
        }
    }

    /// What undoing this operation in `es0` does: `es1` is the state
    /// after it, `op1` the operation after it and `res` its result.
    pub open spec fn undo_post(&self, es0: EditState, op1: Self, es1: EditState, res: Result<(), EditorError>) -> bool {
        &&& op1.layer == self.layer && op1.line == self.line
        &&& self.layer < es0.buffer.layers@.len() ==> {
            let l = es0.buffer.layers@[self.layer as int];
            &&& res is Ok
            &&& op1.inserted_row.chars@ == layer_cells(l)[self.line as int]
            &&& layer_reshaped(es0, es1, self.layer as int,
                layer_cells(l).remove(self.line as int),
                Size { width: l.size.width, height: (l.size.height - 1) as usize })
        }
        &&& self.layer >= es0.buffer.layers@.len() ==> {
            &&& res == Err::<(), EditorError>(EditorError::InvalidLayer(self.layer))
            &&& op1 == *self && es1 == es0
        }
    }

    pub fn undo(&mut self, es: &mut EditState) -> (res: Result<(), EditorError>)
        requires
            old(self).undo_pre(*old(es)),
        ensures
            old(self).undo_post(*old(es), *final(self), *final(es), res),
    {
        if self.layer >= es.buffer.layers.len() {
            return Err(EditorError::InvalidLayer(self.layer));
        }
        let ghost ls = es.buffer.layers@;
        let ghost before = es.buffer.layers@[self.layer as int].lines@;
        self.inserted_row = es.buffer.layers[self.layer].lines.remove(self.line as usize);
        assert(cells_of(es.buffer.layers@[self.layer as int].lines@) =~= cells_of(before).remove(self.line as int));
        let h = es.buffer.layers[self.layer].size.height;
        es.buffer.layers[self.layer].set_height(h - 1);
        assert forall|k: int| 0 <= k < ls.len() && k != self.layer implies es.buffer.layers@[k] == ls[k] by {}
        Ok(())
    }

    /// Whether `es` is a state that this operation can be redone in.
    pub open spec fn redo_pre(&self, es: EditState) -> bool {
        &&& self.layer < es.buffer.layers@.len() ==> self.line >= 0
            && es.buffer.layers@[self.layer as int].size.height < usize::MAX
    }

    /// What redoing this operation in `es0` does: `es1` is the state
    /// after it, `op1` the operation after it and `res` its result.
    pub open spec fn redo_post(&self, es0: EditState, op1: Self, es1: EditState, res: Result<(), EditorError>) -> bool {
        &&& op1.layer == self.layer && op1.line == self.line
        &&& self.layer < es0.buffer.layers@.len() ==> {
            let l = es0.buffer.layers@[self.layer as int];
            let padded = rows_padded(layer_cells(l), self.line + 1);
            &&& res is Ok
            &&& op1.inserted_row.chars@.len() == 0
            &&& layer_reshaped(es0, es1, self.layer as int,
                padded.insert(self.line as int, self.inserted_row.chars@),
                Size { width: l.size.width, height: (l.size.height + 1) as usize })
        }
        &&& self.layer >= es0.buffer.layers@.len() ==> {
            &&& res == Err::<(), EditorError>(EditorError::InvalidLayer(self.layer))
            &&& op1 == *self && es1 == es0
        }
    }

    pub fn redo(&mut self, es: &mut EditState) -> (res: Result<(), EditorError>)
        requires
            old(self).redo_pre(*old(es)),
        ensures
            old(self).redo_post(*old(es), *final(self), *final(es), res),
    {
        if self.layer >= es.buffer.layers.len() {
            return Err(EditorError::InvalidLayer(self.layer));
        }
        let ghost ls = es.buffer.layers@;
        let mut row = Line::new();
        std::mem::swap(&mut self.inserted_row, &mut row);
        let y = self.line as usize;
        pad_lines(&mut es.buffer.layers[self.layer].lines, y + 1);
        let ghost before = es.buffer.layers@[self.layer as int].lines@;
        es.buffer.layers[self.layer].lines.insert(y, row);
        assert(cells_of(es.buffer.layers@[self.layer as int].lines@) =~= cells_of(before).insert(y as int, row.chars@));
        let h = es.buffer.layers[self.layer].size.height;
        es.buffer.layers[self.layer].set_height(h + 1);
        assert forall|k: int| 0 <= k < ls.len() && k != self.layer implies es.buffer.layers@[k] == ls[k] by {}
        Ok(())
    }
}

/// Resizes the buffer from one size to another.
pub struct ResizeBuffer {
    pub orig_size: Size,
    pub size: Size,
}

impl ResizeBuffer {
    pub fn new(orig_size: Size, size: Size) -> (res: Self)
        ensures
            res.orig_size == orig_size,
            res.size == size,
    {
        ResizeBuffer { orig_size, size }
    }

    /// What undoing this operation in `es0` does: `es1` is the state
    /// after it, `op1` the operation after it and `res` its result.
    pub open spec fn undo_post(&self, es0: EditState, op1: Self, es1: EditState, res: Result<(), EditorError>) -> bool {
        &&& op1 == *self
        &&& res is Ok
        &&& es1 == (EditState { buffer: Buffer { size: self.orig_size, ..es0.buffer }, ..es0 })
    }

    pub fn undo(&self, es: &mut EditState) -> (res: Result<(), EditorError>)
        ensures
            self.undo_post(*old(es), *self, *final(es), res),
    {
        es.buffer.set_size(self.orig_size);
        Ok(())
    }

    /// What redoing this operation in `es0` does: `es1` is the state
    /// after it, `op1` the operation after it and `res` its result.
    pub open spec fn redo_post(&self, es0: EditState, op1: Self, es1: EditState, res: Result<(), EditorError>) -> bool {
        &&& op1 == *self
        &&& res is Ok
        &&& es1 == (EditState { buffer: Buffer { size: self.size, ..es0.buffer }, ..es0 })
    }

    pub fn redo(&self, es: &mut EditState) -> (res: Result<(), EditorError>)
        ensures
            self.redo_post(*old(es), *self, *final(es), res),
    {
        es.buffer.set_size(self.size);
        Ok(())
    }
}

/// Crops the buffer: exchanges its size and layers with the ones kept.
pub struct Crop {
    pub orig_size: Size,
    pub size: Size,
    pub layers: Vec<Layer>,
}

impl Crop {
    pub fn new(orig_size: Size, size: Size, layers: Vec<Layer>) -> (res: Self)
        ensures
            res.orig_size == orig_size,
            res.size == size,
            res.layers == layers,
    {
        Crop { orig_size, size, layers }
    }

    /// What undoing this operation in `es0` does: `es1` is the state
    /// after it, `op1` the operation after it and `res` its result.
    pub open spec fn undo_post(&self, es0: EditState, op1: Self, es1: EditState, res: Result<(), EditorError>) -> bool {
        &&& res is Ok
        &&& op1 == (Crop { layers: es0.buffer.layers, ..*self })
        &&& es1 == (EditState { buffer: Buffer { size: self.orig_size, layers: self.layers, ..es0.buffer }, ..es0 })
    }

    pub fn undo(&mut self, es: &mut EditState) -> (res: Result<(), EditorError>)
        ensures
            old(self).undo_post(*old(es), *final(self), *final(es), res),
    {
        es.buffer.set_size(self.orig_size);
        std::mem::swap(&mut es.buffer.layers, &mut self.layers);
        Ok(())
    }

    /// What redoing this operation in `es0` does: `es1` is the state
    /// after it, `op1` the operation after it and `res` its result.
    pub open spec fn redo_post(&self, es0: EditState, op1: Self, es1: EditState, res: Result<(), EditorError>) -> bool {
        &&& res is Ok
        &&& op1 == (Crop { layers: es0.buffer.layers, ..*self })
        &&& es1 == (EditState { buffer: Buffer { size: self.size, layers: self.layers, ..es0.buffer }, ..es0 })
    }

    pub fn redo(&mut self, es: &mut EditState) -> (res: Result<(), EditorError>)
        ensures
            old(self).redo_post(*old(es), *final(self), *final(es), res),
    {
        es.buffer.set_size(self.size);
        std::mem::swap(&mut es.buffer.layers, &mut self.layers);
        Ok(())
    }
}

/// Changes the size of a layer, remembering the size it had.
pub struct SetLayerSize {
    pub index: usize,
    pub from: Size,
    pub to: Size,
}

impl SetLayerSize {
    pub fn new(index: usize, to: Size) -> (res: Self)
        ensures
            res.index == index,
            res.from == to,
            res.to == to,
    {
        SetLayerSize { index, from: to, to }
    }

    /// What undoing this operation in `es0` does: `es1` is the state
    /// after it, `op1` the operation after it and `res` its result.
    pub open spec fn undo_post(&self, es0: EditState, op1: Self, es1: EditState, res: Result<(), EditorError>) -> bool {
        &&& op1 == *self
        &&& self.index < es0.buffer.layers@.len() ==> res is Ok && layer_replaced(es0, es1, self.index as int, Layer {
            size: self.from,
            ..es0.buffer.layers@[self.index as int]
        })
        &&& self.index >= es0.buffer.layers@.len() ==> res == Err::<(), EditorError>(EditorError::InvalidLayer(self.index)) && es1 == es0
    }

    pub fn undo(&mut self, es: &mut EditState) -> (res: Result<(), EditorError>)
        ensures
            old(self).undo_post(*old(es), *final(self), *final(es), res),
    {
        if self.index < es.buffer.layers.len() {
            es.buffer.layers[self.index].set_size(self.from);
            assert(es.buffer.layers@ =~= old(es).buffer.layers@.update(self.index as int, Layer {
                size: self.from,
                ..old(es).buffer.layers@[self.index as int]
            }));
            Ok(())
        } else {
            Err(EditorError::InvalidLayer(self.index))
        }
    }

    /// What redoing this operation in `es0` does: `es1` is the state
    /// after it, `op1` the operation after it and `res` its result.
    pub open spec fn redo_post(&self, es0: EditState, op1: Self, es1: EditState, res: Result<(), EditorError>) -> bool {
        &&& self.index < es0.buffer.layers@.len() ==> {
            &&& res is Ok
            &&& op1 == (SetLayerSize { from: es0.buffer.layers@[self.index as int].size, ..*self })
            &&& layer_replaced(es0, es1, self.index as int, Layer {
                size: self.to,
                ..es0.buffer.layers@[self.index as int]
            })
        }
        &&& self.index >= es0.buffer.layers@.len() ==> {
            &&& res == Err::<(), EditorError>(EditorError::InvalidLayer(self.index))
            &&& op1 == *self && es1 == es0
        }
    }

    pub fn redo(&mut self, es: &mut EditState) -> (res: Result<(), EditorError>)
        ensures
            old(self).redo_post(*old(es), *final(self), *final(es), res),
    {
        if self.index < es.buffer.layers.len() {
            self.from = es.buffer.layers[self.index].get_size();
            es.buffer.layers[self.index].set_size(self.to);
            assert(es.buffer.layers@ =~= old(es).buffer.layers@.update(self.index as int, Layer {
                size: self.to,
                ..old(es).buffer.layers@[self.index as int]
            }));
            Ok(())
        } else {
            Err(EditorError::InvalidLayer(self.index))
        }
    }
}

/// The rows turned one up: the first row moves to the bottom.
pub open spec fn rows_rotated_up(lines: Seq<Line>) -> Seq<Line> {
    lines.drop_first().push(lines[0])
}

/// The rows turned one down: the last row moves to the top.
pub open spec fn rows_rotated_down(lines: Seq<Line>) -> Seq<Line> {
    seq![lines.last()] + lines.drop_last()
}

/// Turns the rows of layer `layer` one up; see `rows_rotated_up`.
pub(crate) fn scroll_layer_up(es: &mut EditState, layer: usize) -> (res: Result<(), EditorError>)
    requires
        layer < old(es).buffer.layers@.len() ==> old(es).buffer.layers@[layer as int].lines@.len() > 0,
    ensures
        layer < old(es).buffer.layers@.len() ==> res is Ok && layer_replaced(*old(es), *final(es), layer as int, Layer {
            lines: final(es).buffer.layers@[layer as int].lines,
            ..old(es).buffer.layers@[layer as int]
        }) && final(es).buffer.layers@[layer as int].lines@ == rows_rotated_up(old(es).buffer.layers@[layer as int].lines@),
        layer >= old(es).buffer.layers@.len() ==> res == Err::<(), EditorError>(EditorError::InvalidLayer(layer)) && *final(es) == *old(es),
{
    if layer >= es.buffer.layers.len() {
        return Err(EditorError::InvalidLayer(layer));
    }
    let l = es.buffer.layers[layer].lines.remove(0);
    es.buffer.layers[layer].lines.push(l);
    assert(es.buffer.layers@[layer as int].lines@ =~= rows_rotated_up(old(es).buffer.layers@[layer as int].lines@));
    assert(es.buffer.layers@ =~= old(es).buffer.layers@.update(layer as int, Layer {
        lines: es.buffer.layers@[layer as int].lines,
        ..old(es).buffer.layers@[layer as int]
    }));
    Ok(())
}

/// Turns the rows of layer `layer` one down; see `rows_rotated_down`.
pub(crate) fn scroll_layer_down(es: &mut EditState, layer: usize) -> (res: Result<(), EditorError>)
    requires
        layer < old(es).buffer.layers@.len() ==> old(es).buffer.layers@[layer as int].lines@.len() > 0,
    ensures
        layer < old(es).buffer.layers@.len() ==> res is Ok && layer_replaced(*old(es), *final(es), layer as int, Layer {
            lines: final(es).buffer.layers@[layer as int].lines,
            ..old(es).buffer.layers@[layer as int]
        }) && final(es).buffer.layers@[layer as int].lines@ == rows_rotated_down(old(es).buffer.layers@[layer as int].lines@),
        layer >= old(es).buffer.layers@.len() ==> res == Err::<(), EditorError>(EditorError::InvalidLayer(layer)) && *final(es) == *old(es),
{
    if layer >= es.buffer.layers.len() {
        return Err(EditorError::InvalidLayer(layer));
    }
    let l = es.buffer.layers[layer].lines.pop().unwrap();
    es.buffer.layers[layer].lines.insert(0, l);
    assert(es.buffer.layers@[layer as int].lines@ =~= rows_rotated_down(old(es).buffer.layers@[layer as int].lines@));
    assert(es.buffer.layers@ =~= old(es).buffer.layers@.update(layer as int, Layer {
        lines: es.buffer.layers@[layer as int].lines,
        ..old(es).buffer.layers@[layer as int]
    }));
    Ok(())
}

/// Turns the rows of a layer one up; undone by turning them down.
pub struct UndoScrollWholeLayerUp {
    pub layer: usize,
}

impl UndoScrollWholeLayerUp {
    pub fn new(layer: usize) -> (res: Self)
        ensures
            res.layer == layer,
    {
        UndoScrollWholeLayerUp { layer }
    }

    /// Whether `es` is a state that this operation can be undone in.
    pub open spec fn undo_pre(&self, es: EditState) -> bool {
        &&& self.layer < es.buffer.layers@.len() ==> es.buffer.layers@[self.layer as int].lines@.len() > 0
    }

    /// What undoing this operation in `es0` does: `es1` is the state
    /// after it, `op1` the operation after it and `res` its result.
    pub open spec fn undo_post(&self, es0: EditState, op1: Self, es1: EditState, res: Result<(), EditorError>) -> bool {
        &&& op1 == *self
        &&& self.layer < es0.buffer.layers@.len() ==> res is Ok && layer_replaced(es0, es1, self.layer as int, Layer {
            lines: es1.buffer.layers@[self.layer as int].lines,
            ..es0.buffer.layers@[self.layer as int]
        }) && es1.buffer.layers@[self.layer as int].lines@ == rows_rotated_down(es0.buffer.layers@[self.layer as int].lines@)
        &&& self.layer >= es0.buffer.layers@.len() ==> res == Err::<(), EditorError>(EditorError::InvalidLayer(self.layer)) && es1 == es0
    }

    pub fn undo(&self, es: &mut EditState) -> (res: Result<(), EditorError>)
        requires
            self.undo_pre(*old(es)),
        ensures
            self.undo_post(*old(es), *self, *final(es), res),
    {
        scroll_layer_down(es, self.layer)
    }

    /// Whether `es` is a state that this operation can be redone in.
    pub open spec fn redo_pre(&self, es: EditState) -> bool {
        &&& self.layer < es.buffer.layers@.len() ==> es.buffer.layers@[self.layer as int].lines@.len() > 0
    }

    /// What redoing this operation in `es0` does: `es1` is the state
    /// after it, `op1` the operation after it and `res` its result.
    pub open spec fn redo_post(&self, es0: EditState, op1: Self, es1: EditState, res: Result<(), EditorError>) -> bool {
        &&& op1 == *self
        &&& self.layer < es0.buffer.layers@.len() ==> res is Ok && layer_replaced(es0, es1, self.layer as int, Layer {
            lines: es1.buffer.layers@[self.layer as int].lines,
            ..es0.buffer.layers@[self.layer as int]
        }) && es1.buffer.layers@[self.layer as int].lines@ == rows_rotated_up(es0.buffer.layers@[self.layer as int].lines@)
        &&& self.layer >= es0.buffer.layers@.len() ==> res == Err::<(), EditorError>(EditorError::InvalidLayer(self.layer)) && es1 == es0
    }

    pub fn redo(&self, es: &mut EditState) -> (res: Result<(), EditorError>)
        requires
            self.redo_pre(*old(es)),
        ensures
            self.redo_post(*old(es), *self, *final(es), res),
    {
        scroll_layer_up(es, self.layer)
    }
}

/// Turns the rows of a layer one down; undone by turning them up.
pub struct UndoScrollWholeLayerDown {
    pub layer: usize,
}

impl UndoScrollWholeLayerDown {
    pub fn new(layer: usize) -> (res: Self)
        ensures
            res.layer == layer,
    {
        UndoScrollWholeLayerDown { layer }
    }

    /// Whether `es` is a state that this operation can be undone in.
    pub open spec fn undo_pre(&self, es: EditState) -> bool {
        &&& self.layer < es.buffer.layers@.len() ==> es.buffer.layers@[self.layer as int].lines@.len() > 0
    }

    /// What undoing this operation in `es0` does: `es1` is the state
    /// after it, `op1` the operation after it and `res` its result.
    pub open spec fn undo_post(&self, es0: EditState, op1: Self, es1: EditState, res: Result<(), EditorError>) -> bool {
        &&& op1 == *self
        &&& self.layer < es0.buffer.layers@.len() ==> res is Ok && layer_replaced(es0, es1, self.layer as int, Layer {
            lines: es1.buffer.layers@[self.layer as int].lines,
            ..es0.buffer.layers@[self.layer as int]
        }) && es1.buffer.layers@[self.layer as int].lines@ == rows_rotated_up(es0.buffer.layers@[self.layer as int].lines@)
        &&& self.layer >= es0.buffer.layers@.len() ==> res == Err::<(), EditorError>(EditorError::InvalidLayer(self.layer)) && es1 == es0
    }

    pub fn undo(&self, es: &mut EditState) -> (res: Result<(), EditorError>)
        requires
            self.undo_pre(*old(es)),
        ensures
            self.undo_post(*old(es), *self, *final(es), res),
    {
        scroll_layer_up(es, self.layer)
    }

    /// Whether `es` is a state that this operation can be redone in.
    pub open spec fn redo_pre(&self, es: EditState) -> bool {
        &&& self.layer < es.buffer.layers@.len() ==> es.buffer.layers@[self.layer as int].lines@.len() > 0
    }

    /// What redoing this operation in `es0` does: `es1` is the state
    /// after it, `op1` the operation after it and `res` its result.
    pub open spec fn redo_post(&self, es0: EditState, op1: Self, es1: EditState, res: Result<(), EditorError>) -> bool {
        &&& op1 == *self
        &&& self.layer < es0.buffer.layers@.len() ==> res is Ok && layer_replaced(es0, es1, self.layer as int, Layer {
            lines: es1.buffer.layers@[self.layer as int].lines,
            ..es0.buffer.layers@[self.layer as int]
        }) && es1.buffer.layers@[self.layer as int].lines@ == rows_rotated_down(es0.buffer.layers@[self.layer as int].lines@)
        &&& self.layer >= es0.buffer.layers@.len() ==> res == Err::<(), EditorError>(EditorError::InvalidLayer(self.layer)) && es1 == es0
    }

    pub fn redo(&self, es: &mut EditState) -> (res: Result<(), EditorError>)
        requires
            self.redo_pre(*old(es)),
        ensures
            self.redo_post(*old(es), *self, *final(es), res),
    {
        scroll_layer_down(es, self.layer)
    }
}


/// The rows with the cell at column `x` taken out where they reach it.
pub open spec fn column_removed(cells: Seq<Seq<AttributedChar>>, x: int) -> Seq<Seq<AttributedChar>> {
    Seq::new(cells.len(), |i: int| if x < cells[i].len() { cells[i].remove(x) } else { cells[i] })
}

/// The cells at column `x`, `None` for the rows that do not reach it.
pub open spec fn column_taken(cells: Seq<Seq<AttributedChar>>, x: int) -> Seq<Option<AttributedChar>> {
    Seq::new(cells.len(), |i: int| if x < cells[i].len() { Some(cells[i][x]) } else { None })
}

/// The rows with the kept cells `d` put back at column `x`.
pub open spec fn column_restored(cells: Seq<Seq<AttributedChar>>, x: int, d: Seq<Option<AttributedChar>>) -> Seq<Seq<AttributedChar>> {
    Seq::new(cells.len(), |i: int| if i < d.len() && d[i] is Some { cells[i].insert(x, d[i]->0) } else { cells[i] })
}

/// The rows with an invisible cell put in at column `x` where they reach it.
pub open spec fn column_inserted(cells: Seq<Seq<AttributedChar>>, x: int) -> Seq<Seq<AttributedChar>> {
    Seq::new(cells.len(), |i: int| if cells[i].len() >= x { cells[i].insert(x, invisible_char()) } else { cells[i] })
}

/// The rows with the cell at column `x` taken out where they reach it (no
/// row may end exactly at `x`).
pub open spec fn column_dropped(cells: Seq<Seq<AttributedChar>>, x: int) -> Seq<Seq<AttributedChar>> {
    Seq::new(cells.len(), |i: int| if cells[i].len() >= x { cells[i].remove(x) } else { cells[i] })
}

fn remove_column(lines: &mut Vec<Line>, x: usize) -> (deleted: Vec<Option<AttributedChar>>)
    ensures
        cells_of(final(lines)@) == column_removed(cells_of(old(lines)@), x as int),
        deleted@ == column_taken(cells_of(old(lines)@), x as int),
{
    let ghost c0 = cells_of(lines@);
    let mut deleted: Vec<Option<AttributedChar>> = Vec::new();
    let mut i: usize = 0;
    while i < lines.len()
        invariant
            c0 == cells_of(old(lines)@),
            lines@.len() == c0.len(),
            i <= lines@.len(),
            deleted@.len() == i,
            forall|j: int| 0 <= j < i ==> #[trigger] deleted@[j] == column_taken(c0, x as int)[j],
            forall|j: int| 0 <= j < lines@.len() ==> #[trigger] lines@[j].chars@ == if j < i { column_removed(c0, x as int)[j] } else { c0[j] },
        decreases lines@.len() - i,
    {
        if x < lines[i].chars.len() {
            let ghost before = lines@;
            let c = lines[i].chars.remove(x);
            deleted.push(Some(c));
            assert forall|j: int| 0 <= j < lines@.len() && j != i implies lines@[j] == before[j] by {}
        } else {
            deleted.push(None);
        }
        i += 1;
    }
    assert(cells_of(lines@) =~= column_removed(c0, x as int));
    assert(deleted@ =~= column_taken(c0, x as int));
    deleted
}

fn restore_column(lines: &mut Vec<Line>, x: usize, d: &Vec<Option<AttributedChar>>)
    requires
        d@.len() <= old(lines)@.len(),
        forall|i: int| 0 <= i < d@.len() && d@[i] is Some ==> x <= #[trigger] old(lines)@[i].chars@.len(),
    ensures
        cells_of(final(lines)@) == column_restored(cells_of(old(lines)@), x as int, d@),
{
    let ghost c0 = cells_of(lines@);
    let mut i: usize = 0;
    while i < d.len()
        invariant
            c0 == cells_of(old(lines)@),
            lines@.len() == c0.len(),
            d@.len() <= lines@.len(),
            i <= d@.len(),
            forall|j: int| 0 <= j < d@.len() && d@[j] is Some ==> x <= #[trigger] c0[j].len(),
            forall|j: int| 0 <= j < lines@.len() ==> #[trigger] lines@[j].chars@ == if j < i { column_restored(c0, x as int, d@)[j] } else { c0[j] },
        decreases d@.len() - i,
    {
        match d[i] {
            Some(ch) => {
                let ghost before = lines@;
                lines[i].chars.insert(x, ch);
                assert forall|j: int| 0 <= j < lines@.len() && j != i implies lines@[j] == before[j] by {}
            },
            None => {},
        }
        i += 1;
    }
    assert(cells_of(lines@) =~= column_restored(c0, x as int, d@));
}

fn insert_column(lines: &mut Vec<Line>, x: usize)
    ensures
        cells_of(final(lines)@) == column_inserted(cells_of(old(lines)@), x as int),
{
    let ghost c0 = cells_of(lines@);
    let mut i: usize = 0;
    while i < lines.len()
        invariant
            c0 == cells_of(old(lines)@),
            lines@.len() == c0.len(),
            i <= lines@.len(),
            forall|j: int| 0 <= j < lines@.len() ==> #[trigger] lines@[j].chars@ == if j < i { column_inserted(c0, x as int)[j] } else { c0[j] },
        decreases lines@.len() - i,
    {
        if lines[i].chars.len() >= x {
            let ghost before = lines@;
            lines[i].chars.insert(x, AttributedChar::invisible());
            assert forall|j: int| 0 <= j < lines@.len() && j != i implies lines@[j] == before[j] by {}
        }
        i += 1;
    }
    assert(cells_of(lines@) =~= column_inserted(c0, x as int));
}

fn drop_column(lines: &mut Vec<Line>, x: usize)
    requires
        forall|i: int| 0 <= i < old(lines)@.len() ==> #[trigger] old(lines)@[i].chars@.len() != x,
    ensures
        cells_of(final(lines)@) == column_dropped(cells_of(old(lines)@), x as int),
{
    let ghost c0 = cells_of(lines@);
    let mut i: usize = 0;
    while i < lines.len()
        invariant
            c0 == cells_of(old(lines)@),
            lines@.len() == c0.len(),
            i <= lines@.len(),
            forall|j: int| 0 <= j < c0.len() ==> #[trigger] c0[j].len() != x,
            forall|j: int| 0 <= j < lines@.len() ==> #[trigger] lines@[j].chars@ == if j < i { column_dropped(c0, x as int)[j] } else { c0[j] },
        decreases lines@.len() - i,
    {
        if lines[i].chars.len() >= x {
            let ghost before = lines@;
            lines[i].chars.remove(x);
            assert forall|j: int| 0 <= j < lines@.len() && j != i implies lines@[j] == before[j] by {}
        }
        i += 1;
    }
    assert(cells_of(lines@) =~= column_dropped(c0, x as int));
}

/// Deletes a column of a layer, keeping its cells to put them back.
pub struct DeleteColumn {
    pub layer: usize,
    pub column: i32,
    pub deleted_chars: Vec<Option<AttributedChar>>,
}

impl DeleteColumn {
    pub fn new(layer: usize, column: i32) -> (res: Self)
        ensures
            res.layer == layer,
            res.column == column,
            res.deleted_chars@.len() == 0,
    {
        DeleteColumn { layer, column, deleted_chars: Vec::new() }
    }

    /// Whether `es` is a state that this operation can be undone in.
    pub open spec fn undo_pre(&self, es: EditState) -> bool {
        &&& self.layer < es.buffer.layers@.len() ==> {
            let l = es.buffer.layers@[self.layer as int];
            let d = self.deleted_chars@;
            &&& self.column >= 0
            &&& l.size.width < usize::MAX
            &&& d.len() <= l.lines@.len()
            &&& forall|i: int| 0 <= i < d.len() && d[i] is Some ==> self.column <= #[trigger] l.lines@[i].chars@.len()
        }
    }

    /// What undoing this operation in `es0` does: `es1` is the state
    /// after it, `op1` the operation after it and `res` its result.
    pub open spec fn undo_post(&self, es0: EditState, op1: Self, es1: EditState, res: Result<(), EditorError>) -> bool {
        &&& op1 == *self
        &&& self.layer < es0.buffer.layers@.len() ==> {
            let l = es0.buffer.layers@[self.layer as int];
            &&& res is Ok
            &&& layer_reshaped(es0, es1, self.layer as int,
                column_restored(layer_cells(l), self.column as int, self.deleted_chars@),
                Size { width: (l.size.width + 1) as usize, height: l.size.height })
        }
        &&& self.layer >= es0.buffer.layers@.len() ==> res == Err::<(), EditorError>(EditorError::InvalidLayer(self.layer)) && es1 == es0
    }

    pub fn undo(&mut self, es: &mut EditState) -> (res: Result<(), EditorError>)
        requires
            old(self).undo_pre(*old(es)),
        ensures
            old(self).undo_post(*old(es), *final(self), *final(es), res),
    {
        if self.layer >= es.buffer.layers.len() {
            return Err(EditorError::InvalidLayer(self.layer));
        }
        let ghost ls = es.buffer.layers@;
        restore_column(&mut es.buffer.layers[self.layer].lines, self.column as usize, &self.deleted_chars);
        let w = es.buffer.layers[self.layer].size.width;
        es.buffer.layers[self.layer].set_width(w + 1);
        assert forall|k: int| 0 <= k < ls.len() && k != self.layer implies es.buffer.layers@[k] == ls[k] by {}
        Ok(())
    }

    /// Whether `es` is a state that this operation can be redone in.
    pub open spec fn redo_pre(&self, es: EditState) -> bool {
        &&& self.layer < es.buffer.layers@.len() ==> self.column >= 0
            && es.buffer.layers@[self.layer as int].size.width > 0
    }

    /// What redoing this operation in `es0` does: `es1` is the state
    /// after it, `op1` the operation after it and `res` its result.
    pub open spec fn redo_post(&self, es0: EditState, op1: Self, es1: EditState, res: Result<(), EditorError>) -> bool {
        &&& op1.layer == self.layer && op1.column == self.column
        &&& self.layer < es0.buffer.layers@.len() ==> {
            let l = es0.buffer.layers@[self.layer as int];
            &&& res is Ok
            &&& op1.deleted_chars@ == column_taken(layer_cells(l), self.column as int)
            &&& layer_reshaped(es0, es1, self.layer as int,
                column_removed(layer_cells(l), self.column as int),
                Size { width: (l.size.width - 1) as usize, height: l.size.height })
        }
        &&& self.layer >= es0.buffer.layers@.len() ==> {
            &&& res == Err::<(), EditorError>(EditorError::InvalidLayer(self.layer))
            &&& op1 == *self && es1 == es0
        }
    }

    pub fn redo(&mut self, es: &mut EditState) -> (res: Result<(), EditorError>)
        requires
            old(self).redo_pre(*old(es)),
        ensures
            old(self).redo_post(*old(es), *final(self), *final(es), res),
    {
        if self.layer >= es.buffer.layers.len() {
            return Err(EditorError::InvalidLayer(self.layer));
        }
        let ghost ls = es.buffer.layers@;
        self.deleted_chars = remove_column(&mut es.buffer.layers[self.layer].lines, self.column as usize);
        let w = es.buffer.layers[self.layer].size.width;
        es.buffer.layers[self.layer].set_width(w - 1);
        assert forall|k: int| 0 <= k < ls.len() && k != self.layer implies es.buffer.layers@[k] == ls[k] by {}
        Ok(())
    }
}

/// Inserts a column of invisible cells into a layer; undone by taking it
/// out.
pub struct InsertColumn {
    pub layer: usize,
    pub column: i32,
}

impl InsertColumn {
    pub fn new(layer: usize, column: i32) -> (res: Self)
        ensures
            res.layer == layer,
            res.column == column,
    {
        InsertColumn { layer, column }
    }

    /// Whether `es` is a state that this operation can be undone in.
    pub open spec fn undo_pre(&self, es: EditState) -> bool {
        &&& self.layer < es.buffer.layers@.len() ==> {
            let l = es.buffer.layers@[self.layer as int];
            &&& self.column >= 0
            &&& l.size.width > 0
            &&& forall|i: int| 0 <= i < l.lines@.len() ==> #[trigger] l.lines@[i].chars@.len() != self.column
        }
    }

    /// What undoing this operation in `es0` does: `es1` is the state
    /// after it, `op1` the operation after it and `res` its result.
    pub open spec fn undo_post(&self, es0: EditState, op1: Self, es1: EditState, res: Result<(), EditorError>) -> bool {
        &&& op1 == *self
        &&& self.layer < es0.buffer.layers@.len() ==> {
            let l = es0.buffer.layers@[self.layer as int];
            &&& res is Ok
            &&& layer_reshaped(es0, es1, self.layer as int,
                column_dropped(layer_cells(l), self.column as int),
                Size { width: (l.size.width - 1) as usize, height: l.size.height })
        }
        &&& self.layer >= es0.buffer.layers@.len() ==> res == Err::<(), EditorError>(EditorError::InvalidLayer(self.layer)) && es1 == es0
    }

    pub fn undo(&self, es: &mut EditState) -> (res: Result<(), EditorError>)
        requires
            self.undo_pre(*old(es)),
        ensures
            self.undo_post(*old(es), *self, *final(es), res),
    {
        if self.layer >= es.buffer.layers.len() {
            return Err(EditorError::InvalidLayer(self.layer));
        }
        let ghost ls = es.buffer.layers@;
        drop_column(&mut es.buffer.layers[self.layer].lines, self.column as usize);
        let w = es.buffer.layers[self.layer].size.width;
        es.buffer.layers[self.layer].set_width(w - 1);
        assert forall|k: int| 0 <= k < ls.len() && k != self.layer implies es.buffer.layers@[k] == ls[k] by {}
        Ok(())
    }

    /// Whether `es` is a state that this operation can be redone in.
    pub open spec fn redo_pre(&self, es: EditState) -> bool {
        &&& self.layer < es.buffer.layers@.len() ==> self.column >= 0
            && es.buffer.layers@[self.layer as int].size.width < usize::MAX
    }

    /// What redoing this operation in `es0` does: `es1` is the state
    /// after it, `op1` the operation after it and `res` its result.
    pub open spec fn redo_post(&self, es0: EditState, op1: Self, es1: EditState, res: Result<(), EditorError>) -> bool {
        &&& op1 == *self
        &&& self.layer < es0.buffer.layers@.len() ==> {
            let l = es0.buffer.layers@[self.layer as int];
            &&& res is Ok
            &&& layer_reshaped(es0, es1, self.layer as int,
                column_inserted(layer_cells(l), self.column as int),
                Size { width: (l.size.width + 1) as usize, height: l.size.height })
        }
        &&& self.layer >= es0.buffer.layers@.len() ==> res == Err::<(), EditorError>(EditorError::InvalidLayer(self.layer)) && es1 == es0
    }

    pub fn redo(&self, es: &mut EditState) -> (res: Result<(), EditorError>)
        requires
            self.redo_pre(*old(es)),
        ensures
            self.redo_post(*old(es), *self, *final(es), res),
    {
        if self.layer >= es.buffer.layers.len() {
            return Err(EditorError::InvalidLayer(self.layer));
        }
        let ghost ls = es.buffer.layers@;
        insert_column(&mut es.buffer.layers[self.layer].lines, self.column as usize);
        let w = es.buffer.layers[self.layer].size.width;
        es.buffer.layers[self.layer].set_width(w + 1);
        assert forall|k: int| 0 <= k < ls.len() && k != self.layer implies es.buffer.layers@[k] == ls[k] by {}
        Ok(())
    }
}


/// Raising (or lowering) a layer twice gives back the layer order: undo
/// after redo restores the layers.
pub proof fn law_raise_layer_undone(ls: Seq<Layer>, i: int)
    requires
        0 <= i,
        i + 1 < ls.len(),
    ensures
        swapped(swapped(ls, i), i) == ls,
{
    assert(swapped(swapped(ls, i), i) =~= ls);
}

/// Removing a layer and putting back the layer that was removed gives back
/// the layers.
pub proof fn law_remove_layer_undone(ls: Seq<Layer>, i: int)
    requires
        0 <= i < ls.len(),
    ensures
        ls.remove(i).insert(i, ls[i]) == ls,
{
    assert(ls.remove(i).insert(i, ls[i]) =~= ls);
}

/// Adding a layer and taking out the layer at its place gives back the
/// layers and the added layer.
pub proof fn law_add_layer_undone(ls: Seq<Layer>, i: int, l: Layer)
    requires
        0 <= i <= ls.len(),
    ensures
        ls.insert(i, l).remove(i) == ls,
        ls.insert(i, l)[i] == l,
{
    assert(ls.insert(i, l).remove(i) =~= ls);
}

/// Merging a layer down and undoing it gives back the layers and the merge.
pub proof fn law_merge_layer_down_undone(ls: Seq<Layer>, i: int, m: Layer)
    requires
        1 <= i < ls.len(),
    ensures
        ({
            let merged = merged_down(ls, i, m);
            let back = merged.subrange(0, i - 1) + seq![ls[i - 1], ls[i]] + merged.subrange(i - 1, merged.len() as int);
            &&& back.remove(i + 1) == ls
            &&& back[i + 1] == m
        }),
{
    let merged = merged_down(ls, i, m);
    let back = merged.subrange(0, i - 1) + seq![ls[i - 1], ls[i]] + merged.subrange(i - 1, merged.len() as int);
    assert(back.remove(i + 1) =~= ls);
}

/// Pasting a layer and undoing it gives back the layers and the pasted
/// layer.
pub proof fn law_paste_undone(ls: Seq<Layer>, l: Layer)
    ensures
        ls.push(l).drop_last() == ls,
        ls.push(l).last() == l,
{
    assert(ls.push(l).drop_last() =~= ls);
}

/// Deleting an existing row and putting back the deleted row gives back the
/// rows.
pub proof fn law_delete_row_undone(cells: Seq<Seq<AttributedChar>>, y: int)
    requires
        0 <= y < cells.len(),
    ensures
        rows_padded(cells, y + 1).remove(y).insert(y, rows_padded(cells, y + 1)[y]) == cells,
{
    assert(rows_padded(cells, y + 1) == cells);
    assert(cells.remove(y).insert(y, cells[y]) =~= cells);
}

/// Inserting a row before an existing row and taking it out gives back the
/// rows and the inserted row.
pub proof fn law_insert_row_undone(cells: Seq<Seq<AttributedChar>>, y: int, row: Seq<AttributedChar>)
    requires
        0 <= y < cells.len(),
    ensures
        rows_padded(cells, y + 1).insert(y, row).remove(y) == cells,
        rows_padded(cells, y + 1).insert(y, row)[y] == row,
{
    assert(rows_padded(cells, y + 1) == cells);
    assert(cells.insert(y, row).remove(y) =~= cells);
}

/// Deleting a column and putting back the kept cells gives back the rows.
pub proof fn law_delete_column_undone(cells: Seq<Seq<AttributedChar>>, x: int)
    requires
        0 <= x,
    ensures
        column_restored(column_removed(cells, x), x, column_taken(cells, x)) == cells,
{
    let r = column_restored(column_removed(cells, x), x, column_taken(cells, x));
    assert forall|i: int| 0 <= i < cells.len() implies #[trigger] r[i] == cells[i] by {
        if x < cells[i].len() {
            assert(cells[i].remove(x).insert(x, cells[i][x]) =~= cells[i]);
        }
    }
    assert(r =~= cells);
}

/// Inserting a column and taking it out gives back the rows; no row ends at
/// the inserted column then, so taking it out is always possible.
pub proof fn law_insert_column_undone(cells: Seq<Seq<AttributedChar>>, x: int)
    requires
        0 <= x,
    ensures
        column_dropped(column_inserted(cells, x), x) == cells,
        forall|i: int| 0 <= i < cells.len() ==> #[trigger] column_inserted(cells, x)[i].len() != x,
{
    let r = column_dropped(column_inserted(cells, x), x);
    assert forall|i: int| 0 <= i < cells.len() implies #[trigger] r[i] == cells[i] by {
        if cells[i].len() >= x {
            assert(cells[i].insert(x, invisible_char()).remove(x) =~= cells[i]);
        }
    }
    assert(r =~= cells);
}

/// Turning the rows of a layer up and then down (or down and then up)
/// gives back the rows.
pub proof fn law_scroll_layer_undone(lines: Seq<Line>)
    requires
        lines.len() > 0,
    ensures
        rows_rotated_down(rows_rotated_up(lines)) == lines,
        rows_rotated_up(rows_rotated_down(lines)) == lines,
{
    assert(rows_rotated_down(rows_rotated_up(lines)) =~= lines);
    assert(rows_rotated_up(rows_rotated_down(lines)) =~= lines);
}

} // verus!

use vstd::prelude::*;

use crate::area_operations::{
    area_operation_done, at, cell_holds, current_area_fits, current_layer_index, erase_selection_done, law_erased_cells,
    layer_rect, writable_at_origin, AreaOperation,
};
use crate::attributed_char::invisible_char;
use crate::editor_error::EditorError;
use crate::geometry::{rect_in_range, rect_is_inside, Position, Rectangle, Size};
use crate::layer::layer_cells;
use crate::undo_operations::{
    column_inserted, column_removed, column_taken, layer_change_cells, layer_reshaped, rows_padded, DeleteColumn,
    DeleteRow, EditState, InsertColumn, InsertRow, UndoLayerChange,
};

use crate::undo_stack::{kept, unrecorded, UndoOperation};
verus! {

/// The rectangle from `(x1, y1)` to `(x2, y2)`, both corners included.
pub open spec fn rect_from_coords(x1: int, y1: int, x2: int, y2: int) -> Rectangle {
    Rectangle {
        start: Position { x: x1 as i32, y: y1 as i32 },
        size: Size { width: (x2 - x1 + 1) as usize, height: (y2 - y1 + 1) as usize },
    }
}

/// How far left, up, right and down a selection that stands for a whole
/// row or column reaches.
pub const FAR: i32 = 1_000_000;

/// The offset of the current layer, the origin where there are no layers.
pub open spec fn current_offset(es: EditState) -> Position {
    if es.buffer.layers@.len() > 0 {
        es.buffer.layers@[current_layer_index(es)].offset
    } else {
        Position { x: 0, y: 0 }
    }
}

/// The caret's position on the buffer: moved by the current layer's offset.
pub open spec fn caret_on_buffer(es: EditState) -> (int, int) {
    (es.caret.pos.x + current_offset(es).x, es.caret.pos.y + current_offset(es).y)
}

/// What each of the row and column operations of the caret selects.
pub enum CaretSpan {
    /// The caret's row and the one below it.
    Row,
    /// The caret's row from far left to the caret.
    RowToStart,
    /// The caret's row from the caret to far right.
    RowToEnd,
    /// The caret's column.
    Column,
    /// The caret's column from far up to the caret.
    ColumnToStart,
    /// The caret's column from the caret to far down.
    ColumnToEnd,
}

/// The selection that `span` makes around the caret at `(x, y)`.
pub open spec fn span_rect(span: CaretSpan, x: int, y: int) -> Rectangle {
    match span {
        CaretSpan::Row => rect_from_coords(-FAR as int, y, FAR as int, y + 1),
        CaretSpan::RowToStart => rect_from_coords(-FAR as int, y, x, y + 1),
        CaretSpan::RowToEnd => rect_from_coords(x, y, FAR as int, y + 1),
        CaretSpan::Column => rect_from_coords(x, -FAR as int, x, FAR as int),
        CaretSpan::ColumnToStart => rect_from_coords(x, -FAR as int, x, y),
        CaretSpan::ColumnToEnd => rect_from_coords(x, y, x, FAR as int),
    }
}

/// The caret lies where `span` makes a selection: its corners are in order
/// and in the coordinate range.
pub open spec fn span_fits(span: CaretSpan, x: int, y: int) -> bool {
    &&& -FAR <= x <= FAR
    &&& -FAR <= y <= FAR - 1
}

impl EditState {
    /// The offset of the current layer, the origin where there are no
    /// layers.
    fn current_offset(&self) -> (res: Position)
        ensures
            res == current_offset(*self),
    {
        if self.buffer.layers.len() > 0 {
            self.buffer.layers[self.get_current_layer()].offset
        } else {
            Position::new(0, 0)
        }
    }

    /// Runs `op` on the area that `span` selects around the caret, then
    /// selects nothing.
    fn on_caret_span(&mut self, span: CaretSpan, op: AreaOperation) -> (res: Result<UndoLayerChange, EditorError>)
        requires
            span_fits(span, caret_on_buffer(*old(self)).0, caret_on_buffer(*old(self)).1),
            old(self).buffer.layers@.len() > 0 ==> rect_in_range(
                layer_rect(old(self).buffer.layers@[current_layer_index(*old(self))]),
            ),
        ensures
            ({
                let (x, y) = caret_on_buffer(*old(self));
                let sel = span_rect(span, x, y);
                &&& area_operation_done(
                    op,
                    EditState { selection: Some(sel), ..*old(self) },
                    EditState { selection: Some(sel), ..*final(self) },
                    res,
                )
                &&& final(self).selection is None
            }),
    {
        let off = self.current_offset();
        let x = self.caret.pos.x + off.x;
        let y = self.caret.pos.y + off.y;
        let sel = match span {
            CaretSpan::Row => Rectangle::from_coords(-FAR, y, FAR, y + 1),
            CaretSpan::RowToStart => Rectangle::from_coords(-FAR, y, x, y + 1),
            CaretSpan::RowToEnd => Rectangle::from_coords(x, y, FAR, y + 1),
            CaretSpan::Column => Rectangle::from_coords(x, -FAR, x, FAR),
            CaretSpan::ColumnToStart => Rectangle::from_coords(x, -FAR, x, y),
            CaretSpan::ColumnToEnd => Rectangle::from_coords(x, y, x, FAR),
        };
        let _ = self.set_selection_op(sel);
        let res = self.apply_area_operation(op);
        let _ = self.clear_selection_op();
        res
    }

    /// Centers the caret's row (and the one below it).
    pub(crate) fn center_line_op(&mut self) -> (res: Result<UndoLayerChange, EditorError>)
        requires
            span_fits(CaretSpan::Row, caret_on_buffer(*old(self)).0, caret_on_buffer(*old(self)).1),
            old(self).buffer.layers@.len() > 0 ==> rect_in_range(
                layer_rect(old(self).buffer.layers@[current_layer_index(*old(self))]),
            ),
        ensures
            center_line_done(*old(self), *final(self), res),
            final(self).undo_stack == old(self).undo_stack,
            final(self).redo_stack == old(self).redo_stack,
    {
        self.on_caret_span(CaretSpan::Row, AreaOperation::Center)
    }

    /// Centers the caret's row (and the one below it). The change is kept as
    /// the operation to undo next.
    pub fn center_line(&mut self) -> (res: Result<(), EditorError>)
        requires
            span_fits(CaretSpan::Row, caret_on_buffer(*old(self)).0, caret_on_buffer(*old(self)).1),
            old(self).buffer.layers@.len() > 0 ==> rect_in_range(
                layer_rect(old(self).buffer.layers@[current_layer_index(*old(self))]),
            ),
        ensures
            match res {
                Ok(()) => (final(self).undo_stack@.last() matches UndoOperation::UndoLayerChange(op)
                    && center_line_done(*old(self), unrecorded(*final(self), *old(self)), Ok(op))
                    && kept(*old(self), *final(self), UndoOperation::UndoLayerChange(op))),
                Err(e) => center_line_done(*old(self), *final(self), Err(e)),
            },
    {
        match self.center_line_op() {
            Ok(op) => {
                self.record_undo(UndoOperation::UndoLayerChange(op));
                Ok(())
            },
            Err(e) => Err(e),
        }
    }

    /// Justifies the caret's row (and the one below it) to the left.
    pub(crate) fn justify_line_left_op(&mut self) -> (res: Result<UndoLayerChange, EditorError>)
        requires
            span_fits(CaretSpan::Row, caret_on_buffer(*old(self)).0, caret_on_buffer(*old(self)).1),
            old(self).buffer.layers@.len() > 0 ==> rect_in_range(
                layer_rect(old(self).buffer.layers@[current_layer_index(*old(self))]),
            ),
        ensures
            justify_line_left_done(*old(self), *final(self), res),
            final(self).undo_stack == old(self).undo_stack,
            final(self).redo_stack == old(self).redo_stack,
    {
        self.on_caret_span(CaretSpan::Row, AreaOperation::JustifyLeft)
    }

    /// Justifies the caret's row (and the one below it) to the left. The change
    /// is kept as the operation to undo next.
    pub fn justify_line_left(&mut self) -> (res: Result<(), EditorError>)
        requires
            span_fits(CaretSpan::Row, caret_on_buffer(*old(self)).0, caret_on_buffer(*old(self)).1),
            old(self).buffer.layers@.len() > 0 ==> rect_in_range(
                layer_rect(old(self).buffer.layers@[current_layer_index(*old(self))]),
            ),
        ensures
            match res {
                Ok(()) => (final(self).undo_stack@.last() matches UndoOperation::UndoLayerChange(op)
                    && justify_line_left_done(*old(self), unrecorded(*final(self), *old(self)), Ok(op))
                    && kept(*old(self), *final(self), UndoOperation::UndoLayerChange(op))),
                Err(e) => justify_line_left_done(*old(self), *final(self), Err(e)),
            },
    {
        match self.justify_line_left_op() {
            Ok(op) => {
                self.record_undo(UndoOperation::UndoLayerChange(op));
                Ok(())
            },
            Err(e) => Err(e),
        }
    }

    /// Justifies the caret's row (and the one below it) to the right.
    pub(crate) fn justify_line_right_op(&mut self) -> (res: Result<UndoLayerChange, EditorError>)
        requires
            span_fits(CaretSpan::Row, caret_on_buffer(*old(self)).0, caret_on_buffer(*old(self)).1),
            old(self).buffer.layers@.len() > 0 ==> rect_in_range(
                layer_rect(old(self).buffer.layers@[current_layer_index(*old(self))]),
            ),
        ensures
            justify_line_right_done(*old(self), *final(self), res),
            final(self).undo_stack == old(self).undo_stack,
            final(self).redo_stack == old(self).redo_stack,
    {
        self.on_caret_span(CaretSpan::Row, AreaOperation::JustifyRight)
    }

    /// Justifies the caret's row (and the one below it) to the right. The
    /// change is kept as the operation to undo next.
    pub fn justify_line_right(&mut self) -> (res: Result<(), EditorError>)
        requires
            span_fits(CaretSpan::Row, caret_on_buffer(*old(self)).0, caret_on_buffer(*old(self)).1),
            old(self).buffer.layers@.len() > 0 ==> rect_in_range(
                layer_rect(old(self).buffer.layers@[current_layer_index(*old(self))]),
            ),
        ensures
            match res {
                Ok(()) => (final(self).undo_stack@.last() matches UndoOperation::UndoLayerChange(op)
                    && justify_line_right_done(*old(self), unrecorded(*final(self), *old(self)), Ok(op))
                    && kept(*old(self), *final(self), UndoOperation::UndoLayerChange(op))),
                Err(e) => justify_line_right_done(*old(self), *final(self), Err(e)),
            },
    {
        match self.justify_line_right_op() {
            Ok(op) => {
                self.record_undo(UndoOperation::UndoLayerChange(op));
                Ok(())
            },
            Err(e) => Err(e),
        }
    }

    /// Makes the cells that `span` selects around the caret invisible and
    /// selects nothing; see `erase_selection`.
    pub(crate) fn erase_span(&mut self, span: CaretSpan) -> (res: Result<Option<UndoLayerChange>, EditorError>)
        requires
            span_fits(span, caret_on_buffer(*old(self)).0, caret_on_buffer(*old(self)).1),
            old(self).buffer.layers@.len() > 0 ==> rect_in_range(
                layer_rect(old(self).buffer.layers@[current_layer_index(*old(self))]),
            ),
        ensures
            ({
                let (x, y) = caret_on_buffer(*old(self));
                erase_selection_done(EditState { selection: Some(span_rect(span, x, y)), ..*old(self) }, *final(self), res)
            }),
    {
        let off = self.current_offset();
        let x = self.caret.pos.x + off.x;
        let y = self.caret.pos.y + off.y;
        let sel = match span {
            CaretSpan::Row => Rectangle::from_coords(-FAR, y, FAR, y + 1),
            CaretSpan::RowToStart => Rectangle::from_coords(-FAR, y, x, y + 1),
            CaretSpan::RowToEnd => Rectangle::from_coords(x, y, FAR, y + 1),
            CaretSpan::Column => Rectangle::from_coords(x, -FAR, x, FAR),
            CaretSpan::ColumnToStart => Rectangle::from_coords(x, -FAR, x, y),
            CaretSpan::ColumnToEnd => Rectangle::from_coords(x, y, x, FAR),
        };
        let _ = self.set_selection_op(sel);
        self.erase_selection_op()
    }

    /// Makes the caret's row (and the one below it) invisible on the current layer; see `erase_span`.
    pub(crate) fn erase_row_op(&mut self) -> (res: Result<Option<UndoLayerChange>, EditorError>)
        requires
            span_fits(CaretSpan::Row, caret_on_buffer(*old(self)).0, caret_on_buffer(*old(self)).1),
            old(self).buffer.layers@.len() > 0 ==> rect_in_range(
                layer_rect(old(self).buffer.layers@[current_layer_index(*old(self))]),
            ),
        ensures
            erase_row_done(*old(self), *final(self), res),
            final(self).undo_stack == old(self).undo_stack,
            final(self).redo_stack == old(self).redo_stack,
    {
        self.erase_span(CaretSpan::Row)
    }

    /// Makes the caret's row (and the one below it) invisible on the current
    /// layer; see `erase_span`. The change is kept as the operation to undo
    /// next.
    pub fn erase_row(&mut self) -> (res: Result<(), EditorError>)
        requires
            span_fits(CaretSpan::Row, caret_on_buffer(*old(self)).0, caret_on_buffer(*old(self)).1),
            old(self).buffer.layers@.len() > 0 ==> rect_in_range(
                layer_rect(old(self).buffer.layers@[current_layer_index(*old(self))]),
            ),
        ensures
            match res {
                Ok(()) => ((final(self).undo_stack@.last() matches UndoOperation::UndoLayerChange(op)
                    && erase_row_done(*old(self), unrecorded(*final(self), *old(self)), Ok(Some(op)))
                    && kept(*old(self), *final(self), UndoOperation::UndoLayerChange(op)))) || erase_row_done(*old(self), *final(self), Ok(None)),
                Err(e) => erase_row_done(*old(self), *final(self), Err(e)),
            },
    {
        match self.erase_row_op() {
            Ok(Some(op)) => {
                self.record_undo(UndoOperation::UndoLayerChange(op));
                Ok(())
            },
            Ok(None) => Ok(()),
            Err(e) => Err(e),
        }
    }

    /// Makes the caret's row from far left up to the caret invisible on the current layer; see `erase_span`.
    pub(crate) fn erase_row_to_start_op(&mut self) -> (res: Result<Option<UndoLayerChange>, EditorError>)
        requires
            span_fits(CaretSpan::RowToStart, caret_on_buffer(*old(self)).0, caret_on_buffer(*old(self)).1),
            old(self).buffer.layers@.len() > 0 ==> rect_in_range(
                layer_rect(old(self).buffer.layers@[current_layer_index(*old(self))]),
            ),
        ensures
            erase_row_to_start_done(*old(self), *final(self), res),
            final(self).undo_stack == old(self).undo_stack,
            final(self).redo_stack == old(self).redo_stack,
    {
        self.erase_span(CaretSpan::RowToStart)
    }

    /// Makes the caret's row from far left up to the caret invisible on the
    /// current layer; see `erase_span`. The change is kept as the operation to
    /// undo next.
    pub fn erase_row_to_start(&mut self) -> (res: Result<(), EditorError>)
        requires
            span_fits(CaretSpan::RowToStart, caret_on_buffer(*old(self)).0, caret_on_buffer(*old(self)).1),
            old(self).buffer.layers@.len() > 0 ==> rect_in_range(
                layer_rect(old(self).buffer.layers@[current_layer_index(*old(self))]),
            ),
        ensures
            match res {
                Ok(()) => ((final(self).undo_stack@.last() matches UndoOperation::UndoLayerChange(op)
                    && erase_row_to_start_done(*old(self), unrecorded(*final(self), *old(self)), Ok(Some(op)))
                    && kept(*old(self), *final(self), UndoOperation::UndoLayerChange(op)))) || erase_row_to_start_done(*old(self), *final(self), Ok(None)),
                Err(e) => erase_row_to_start_done(*old(self), *final(self), Err(e)),
            },
    {
        match self.erase_row_to_start_op() {
            Ok(Some(op)) => {
                self.record_undo(UndoOperation::UndoLayerChange(op));
                Ok(())
            },
            Ok(None) => Ok(()),
            Err(e) => Err(e),
        }
    }

    /// Makes the caret's row from the caret to far right invisible on the current layer; see `erase_span`.
    pub(crate) fn erase_row_to_end_op(&mut self) -> (res: Result<Option<UndoLayerChange>, EditorError>)
        requires
            span_fits(CaretSpan::RowToEnd, caret_on_buffer(*old(self)).0, caret_on_buffer(*old(self)).1),
            old(self).buffer.layers@.len() > 0 ==> rect_in_range(
                layer_rect(old(self).buffer.layers@[current_layer_index(*old(self))]),
            ),
        ensures
            erase_row_to_end_done(*old(self), *final(self), res),
            final(self).undo_stack == old(self).undo_stack,
            final(self).redo_stack == old(self).redo_stack,
    {
        self.erase_span(CaretSpan::RowToEnd)
    }

    /// Makes the caret's row from the caret to far right invisible on the
    /// current layer; see `erase_span`. The change is kept as the operation to
    /// undo next.
    pub fn erase_row_to_end(&mut self) -> (res: Result<(), EditorError>)
        requires
            span_fits(CaretSpan::RowToEnd, caret_on_buffer(*old(self)).0, caret_on_buffer(*old(self)).1),
            old(self).buffer.layers@.len() > 0 ==> rect_in_range(
                layer_rect(old(self).buffer.layers@[current_layer_index(*old(self))]),
            ),
        ensures
            match res {
                Ok(()) => ((final(self).undo_stack@.last() matches UndoOperation::UndoLayerChange(op)
                    && erase_row_to_end_done(*old(self), unrecorded(*final(self), *old(self)), Ok(Some(op)))
                    && kept(*old(self), *final(self), UndoOperation::UndoLayerChange(op)))) || erase_row_to_end_done(*old(self), *final(self), Ok(None)),
                Err(e) => erase_row_to_end_done(*old(self), *final(self), Err(e)),
            },
    {
        match self.erase_row_to_end_op() {
            Ok(Some(op)) => {
                self.record_undo(UndoOperation::UndoLayerChange(op));
                Ok(())
            },
            Ok(None) => Ok(()),
            Err(e) => Err(e),
        }
    }

    /// Makes the caret's column invisible on the current layer; see `erase_span`.
    pub(crate) fn erase_column_op(&mut self) -> (res: Result<Option<UndoLayerChange>, EditorError>)
        requires
            span_fits(CaretSpan::Column, caret_on_buffer(*old(self)).0, caret_on_buffer(*old(self)).1),
            old(self).buffer.layers@.len() > 0 ==> rect_in_range(
                layer_rect(old(self).buffer.layers@[current_layer_index(*old(self))]),
            ),
        ensures
            erase_column_done(*old(self), *final(self), res),
            final(self).undo_stack == old(self).undo_stack,
            final(self).redo_stack == old(self).redo_stack,
    {
        self.erase_span(CaretSpan::Column)
    }

    /// Makes the caret's column invisible on the current layer; see
    /// `erase_span`. The change is kept as the operation to undo next.
    pub fn erase_column(&mut self) -> (res: Result<(), EditorError>)
        requires
            span_fits(CaretSpan::Column, caret_on_buffer(*old(self)).0, caret_on_buffer(*old(self)).1),
            old(self).buffer.layers@.len() > 0 ==> rect_in_range(
                layer_rect(old(self).buffer.layers@[current_layer_index(*old(self))]),
            ),
        ensures
            match res {
                Ok(()) => ((final(self).undo_stack@.last() matches UndoOperation::UndoLayerChange(op)
                    && erase_column_done(*old(self), unrecorded(*final(self), *old(self)), Ok(Some(op)))
                    && kept(*old(self), *final(self), UndoOperation::UndoLayerChange(op)))) || erase_column_done(*old(self), *final(self), Ok(None)),
                Err(e) => erase_column_done(*old(self), *final(self), Err(e)),
            },
    {
        match self.erase_column_op() {
            Ok(Some(op)) => {
                self.record_undo(UndoOperation::UndoLayerChange(op));
                Ok(())
            },
            Ok(None) => Ok(()),
            Err(e) => Err(e),
        }
    }

    /// Makes the caret's column from far up to the caret invisible on the current layer; see `erase_span`.
    pub(crate) fn erase_column_to_start_op(&mut self) -> (res: Result<Option<UndoLayerChange>, EditorError>)
        requires
            span_fits(CaretSpan::ColumnToStart, caret_on_buffer(*old(self)).0, caret_on_buffer(*old(self)).1),
            old(self).buffer.layers@.len() > 0 ==> rect_in_range(
                layer_rect(old(self).buffer.layers@[current_layer_index(*old(self))]),
            ),
        ensures
            erase_column_to_start_done(*old(self), *final(self), res),
            final(self).undo_stack == old(self).undo_stack,
            final(self).redo_stack == old(self).redo_stack,
    {
        self.erase_span(CaretSpan::ColumnToStart)
    }

    /// Makes the caret's column from far up to the caret invisible on the
    /// current layer; see `erase_span`. The change is kept as the operation to
    /// undo next.
    pub fn erase_column_to_start(&mut self) -> (res: Result<(), EditorError>)
        requires
            span_fits(CaretSpan::ColumnToStart, caret_on_buffer(*old(self)).0, caret_on_buffer(*old(self)).1),
            old(self).buffer.layers@.len() > 0 ==> rect_in_range(
                layer_rect(old(self).buffer.layers@[current_layer_index(*old(self))]),
            ),
        ensures
            match res {
                Ok(()) => ((final(self).undo_stack@.last() matches UndoOperation::UndoLayerChange(op)
                    && erase_column_to_start_done(*old(self), unrecorded(*final(self), *old(self)), Ok(Some(op)))
                    && kept(*old(self), *final(self), UndoOperation::UndoLayerChange(op)))) || erase_column_to_start_done(*old(self), *final(self), Ok(None)),
                Err(e) => erase_column_to_start_done(*old(self), *final(self), Err(e)),
            },
    {
        match self.erase_column_to_start_op() {
            Ok(Some(op)) => {
                self.record_undo(UndoOperation::UndoLayerChange(op));
                Ok(())
            },
            Ok(None) => Ok(()),
            Err(e) => Err(e),
        }
    }

    /// Makes the caret's column from the caret to far down invisible on the current layer; see `erase_span`.
    pub(crate) fn erase_column_to_end_op(&mut self) -> (res: Result<Option<UndoLayerChange>, EditorError>)
        requires
            span_fits(CaretSpan::ColumnToEnd, caret_on_buffer(*old(self)).0, caret_on_buffer(*old(self)).1),
            old(self).buffer.layers@.len() > 0 ==> rect_in_range(
                layer_rect(old(self).buffer.layers@[current_layer_index(*old(self))]),
            ),
        ensures
            erase_column_to_end_done(*old(self), *final(self), res),
            final(self).undo_stack == old(self).undo_stack,
            final(self).redo_stack == old(self).redo_stack,
    {
        self.erase_span(CaretSpan::ColumnToEnd)
    }

    /// Makes the caret's column from the caret to far down invisible on the
    /// current layer; see `erase_span`. The change is kept as the operation to
    /// undo next.
    pub fn erase_column_to_end(&mut self) -> (res: Result<(), EditorError>)
        requires
            span_fits(CaretSpan::ColumnToEnd, caret_on_buffer(*old(self)).0, caret_on_buffer(*old(self)).1),
            old(self).buffer.layers@.len() > 0 ==> rect_in_range(
                layer_rect(old(self).buffer.layers@[current_layer_index(*old(self))]),
            ),
        ensures
            match res {
                Ok(()) => ((final(self).undo_stack@.last() matches UndoOperation::UndoLayerChange(op)
                    && erase_column_to_end_done(*old(self), unrecorded(*final(self), *old(self)), Ok(Some(op)))
                    && kept(*old(self), *final(self), UndoOperation::UndoLayerChange(op)))) || erase_column_to_end_done(*old(self), *final(self), Ok(None)),
                Err(e) => erase_column_to_end_done(*old(self), *final(self), Err(e)),
            },
    {
        match self.erase_column_to_end_op() {
            Ok(Some(op)) => {
                self.record_undo(UndoOperation::UndoLayerChange(op));
                Ok(())
            },
            Ok(None) => Ok(()),
            Err(e) => Err(e),
        }
    }

    /// Deletes the caret's row of the current layer; see `DeleteRow`.
    pub(crate) fn delete_row_op(&mut self) -> (res: Result<DeleteRow, EditorError>)
        requires
            old(self).buffer.layers@.len() > 0 ==> old(self).caret.pos.y >= 0
                && old(self).buffer.layers@[current_layer_index(*old(self))].size.height > 0,
        ensures
            delete_row_done(*old(self), *final(self), res),
            final(self).undo_stack == old(self).undo_stack,
            final(self).redo_stack == old(self).redo_stack,
    {
        let layer = self.get_current_layer();
        let mut op = DeleteRow::new(layer, self.caret.pos.y);
        match op.redo(self) {
            Ok(()) => Ok(op),
            Err(e) => Err(e),
        }
    }

    /// Deletes the caret's row of the current layer; see `DeleteRow`. The
    /// change is kept as the operation to undo next.
    pub fn delete_row(&mut self) -> (res: Result<(), EditorError>)
        requires
            old(self).buffer.layers@.len() > 0 ==> old(self).caret.pos.y >= 0
                && old(self).buffer.layers@[current_layer_index(*old(self))].size.height > 0,
        ensures
            match res {
                Ok(()) => (final(self).undo_stack@.last() matches UndoOperation::DeleteRow(op)
                    && delete_row_done(*old(self), unrecorded(*final(self), *old(self)), Ok(op))
                    && kept(*old(self), *final(self), UndoOperation::DeleteRow(op))),
                Err(e) => delete_row_done(*old(self), *final(self), Err(e)),
            },
    {
        match self.delete_row_op() {
            Ok(op) => {
                self.record_undo(UndoOperation::DeleteRow(op));
                Ok(())
            },
            Err(e) => Err(e),
        }
    }

    /// Inserts an empty row at the caret's row of the current layer; see
    /// `InsertRow`.
    pub(crate) fn insert_row_op(&mut self) -> (res: Result<InsertRow, EditorError>)
        requires
            old(self).buffer.layers@.len() > 0 ==> old(self).caret.pos.y >= 0
                && old(self).buffer.layers@[current_layer_index(*old(self))].size.height < usize::MAX,
        ensures
            insert_row_done(*old(self), *final(self), res),
            final(self).undo_stack == old(self).undo_stack,
            final(self).redo_stack == old(self).redo_stack,
    {
        let layer = self.get_current_layer();
        let mut op = InsertRow::new(layer, self.caret.pos.y);
        assert(op.inserted_row.chars@ =~= Seq::empty());
        match op.redo(self) {
            Ok(()) => Ok(op),
            Err(e) => Err(e),
        }
    }

    /// Inserts an empty row at the caret's row of the current layer; see
    /// `InsertRow`. The change is kept as the operation to undo next.
    pub fn insert_row(&mut self) -> (res: Result<(), EditorError>)
        requires
            old(self).buffer.layers@.len() > 0 ==> old(self).caret.pos.y >= 0
                && old(self).buffer.layers@[current_layer_index(*old(self))].size.height < usize::MAX,
        ensures
            match res {
                Ok(()) => (final(self).undo_stack@.last() matches UndoOperation::InsertRow(op)
                    && insert_row_done(*old(self), unrecorded(*final(self), *old(self)), Ok(op))
                    && kept(*old(self), *final(self), UndoOperation::InsertRow(op))),
                Err(e) => insert_row_done(*old(self), *final(self), Err(e)),
            },
    {
        match self.insert_row_op() {
            Ok(op) => {
                self.record_undo(UndoOperation::InsertRow(op));
                Ok(())
            },
            Err(e) => Err(e),
        }
    }

    /// Deletes the caret's column of the current layer; see `DeleteColumn`.
    pub(crate) fn delete_column_op(&mut self) -> (res: Result<DeleteColumn, EditorError>)
        requires
            old(self).buffer.layers@.len() > 0 ==> old(self).caret.pos.x >= 0
                && old(self).buffer.layers@[current_layer_index(*old(self))].size.width > 0,
        ensures
            delete_column_done(*old(self), *final(self), res),
            final(self).undo_stack == old(self).undo_stack,
            final(self).redo_stack == old(self).redo_stack,
    {
        let layer = self.get_current_layer();
        let mut op = DeleteColumn::new(layer, self.caret.pos.x);
        match op.redo(self) {
            Ok(()) => Ok(op),
            Err(e) => Err(e),
        }
    }

    /// Deletes the caret's column of the current layer; see `DeleteColumn`. The
    /// change is kept as the operation to undo next.
    pub fn delete_column(&mut self) -> (res: Result<(), EditorError>)
        requires
            old(self).buffer.layers@.len() > 0 ==> old(self).caret.pos.x >= 0
                && old(self).buffer.layers@[current_layer_index(*old(self))].size.width > 0,
        ensures
            match res {
                Ok(()) => (final(self).undo_stack@.last() matches UndoOperation::DeleteColumn(op)
                    && delete_column_done(*old(self), unrecorded(*final(self), *old(self)), Ok(op))
                    && kept(*old(self), *final(self), UndoOperation::DeleteColumn(op))),
                Err(e) => delete_column_done(*old(self), *final(self), Err(e)),
            },
    {
        match self.delete_column_op() {
            Ok(op) => {
                self.record_undo(UndoOperation::DeleteColumn(op));
                Ok(())
            },
            Err(e) => Err(e),
        }
    }

    /// Inserts an invisible column at the caret's column of the current
    /// layer; see `InsertColumn`.
    pub(crate) fn insert_column_op(&mut self) -> (res: Result<InsertColumn, EditorError>)
        requires
            old(self).buffer.layers@.len() > 0 ==> old(self).caret.pos.x >= 0
                && old(self).buffer.layers@[current_layer_index(*old(self))].size.width < usize::MAX,
        ensures
            insert_column_done(*old(self), *final(self), res),
            final(self).undo_stack == old(self).undo_stack,
            final(self).redo_stack == old(self).redo_stack,
    {
        let layer = self.get_current_layer();
        let op = InsertColumn::new(layer, self.caret.pos.x);
        match op.redo(self) {
            Ok(()) => Ok(op),
            Err(e) => Err(e),
        }
    }

    /// Inserts an invisible column at the caret's column of the current layer;
    /// see `InsertColumn`. The change is kept as the operation to undo next.
    pub fn insert_column(&mut self) -> (res: Result<(), EditorError>)
        requires
            old(self).buffer.layers@.len() > 0 ==> old(self).caret.pos.x >= 0
                && old(self).buffer.layers@[current_layer_index(*old(self))].size.width < usize::MAX,
        ensures
            match res {
                Ok(()) => (final(self).undo_stack@.last() matches UndoOperation::InsertColumn(op)
                    && insert_column_done(*old(self), unrecorded(*final(self), *old(self)), Ok(op))
                    && kept(*old(self), *final(self), UndoOperation::InsertColumn(op))),
                Err(e) => insert_column_done(*old(self), *final(self), Err(e)),
            },
    {
        match self.insert_column_op() {
            Ok(op) => {
                self.record_undo(UndoOperation::InsertColumn(op));
                Ok(())
            },
            Err(e) => Err(e),
        }
    }
}


/// What `center_line` does to the editor `es0`: `es1` is the editor after it
/// and `res` the operation that undoes it (see `EditState::center_line`).
pub open spec fn center_line_done(es0: EditState, es1: EditState, res: Result<UndoLayerChange, EditorError>) -> bool {
    let (x, y) = caret_on_buffer(es0);
    let sel = span_rect(CaretSpan::Row, x, y);
    &&& area_operation_done(
        AreaOperation::Center,
        EditState { selection: Some(sel), ..es0 },
        EditState { selection: Some(sel), ..es1 },
        res,
    )
    &&& es1.selection is None
}

/// What `justify_line_left` does to the editor `es0`: `es1` is the editor after it
/// and `res` the operation that undoes it (see `EditState::justify_line_left`).
pub open spec fn justify_line_left_done(es0: EditState, es1: EditState, res: Result<UndoLayerChange, EditorError>) -> bool {
    let (x, y) = caret_on_buffer(es0);
    let sel = span_rect(CaretSpan::Row, x, y);
    &&& area_operation_done(
        AreaOperation::JustifyLeft,
        EditState { selection: Some(sel), ..es0 },
        EditState { selection: Some(sel), ..es1 },
        res,
    )
    &&& es1.selection is None
}

/// What `justify_line_right` does to the editor `es0`: `es1` is the editor after it
/// and `res` the operation that undoes it (see `EditState::justify_line_right`).
pub open spec fn justify_line_right_done(es0: EditState, es1: EditState, res: Result<UndoLayerChange, EditorError>) -> bool {
    let (x, y) = caret_on_buffer(es0);
    let sel = span_rect(CaretSpan::Row, x, y);
    &&& area_operation_done(
        AreaOperation::JustifyRight,
        EditState { selection: Some(sel), ..es0 },
        EditState { selection: Some(sel), ..es1 },
        res,
    )
    &&& es1.selection is None
}

/// What `erase_row` does to the editor `es0`: `es1` is the editor after it
/// and `res` the operation that undoes it (see `EditState::erase_row`).
pub open spec fn erase_row_done(es0: EditState, es1: EditState, res: Result<Option<UndoLayerChange>, EditorError>) -> bool {
    let (x, y) = caret_on_buffer(es0);
    erase_selection_done(EditState { selection: Some(span_rect(CaretSpan::Row, x, y)), ..es0 }, es1, res)
}

/// What `erase_row_to_start` does to the editor `es0`: `es1` is the editor after it
/// and `res` the operation that undoes it (see `EditState::erase_row_to_start`).
pub open spec fn erase_row_to_start_done(es0: EditState, es1: EditState, res: Result<Option<UndoLayerChange>, EditorError>) -> bool {
    let (x, y) = caret_on_buffer(es0);
    erase_selection_done(EditState { selection: Some(span_rect(CaretSpan::RowToStart, x, y)), ..es0 }, es1, res)
}

/// What `erase_row_to_end` does to the editor `es0`: `es1` is the editor after it
/// and `res` the operation that undoes it (see `EditState::erase_row_to_end`).
pub open spec fn erase_row_to_end_done(es0: EditState, es1: EditState, res: Result<Option<UndoLayerChange>, EditorError>) -> bool {
    let (x, y) = caret_on_buffer(es0);
    erase_selection_done(EditState { selection: Some(span_rect(CaretSpan::RowToEnd, x, y)), ..es0 }, es1, res)
}

/// What `erase_column` does to the editor `es0`: `es1` is the editor after it
/// and `res` the operation that undoes it (see `EditState::erase_column`).
pub open spec fn erase_column_done(es0: EditState, es1: EditState, res: Result<Option<UndoLayerChange>, EditorError>) -> bool {
    let (x, y) = caret_on_buffer(es0);
    erase_selection_done(EditState { selection: Some(span_rect(CaretSpan::Column, x, y)), ..es0 }, es1, res)
}

/// What `erase_column_to_start` does to the editor `es0`: `es1` is the editor after it
/// and `res` the operation that undoes it (see `EditState::erase_column_to_start`).
pub open spec fn erase_column_to_start_done(es0: EditState, es1: EditState, res: Result<Option<UndoLayerChange>, EditorError>) -> bool {
    let (x, y) = caret_on_buffer(es0);
    erase_selection_done(EditState { selection: Some(span_rect(CaretSpan::ColumnToStart, x, y)), ..es0 }, es1, res)
}

/// What `erase_column_to_end` does to the editor `es0`: `es1` is the editor after it
/// and `res` the operation that undoes it (see `EditState::erase_column_to_end`).
pub open spec fn erase_column_to_end_done(es0: EditState, es1: EditState, res: Result<Option<UndoLayerChange>, EditorError>) -> bool {
    let (x, y) = caret_on_buffer(es0);
    erase_selection_done(EditState { selection: Some(span_rect(CaretSpan::ColumnToEnd, x, y)), ..es0 }, es1, res)
}

/// What `delete_row` does to the editor `es0`: `es1` is the editor after it
/// and `res` the operation that undoes it (see `EditState::delete_row`).
pub open spec fn delete_row_done(es0: EditState, es1: EditState, res: Result<DeleteRow, EditorError>) -> bool {
    let i = current_layer_index(es0);
    let line = es0.caret.pos.y;
    if es0.buffer.layers@.len() > 0 {
        let l = es0.buffer.layers@[i];
        let padded = rows_padded(layer_cells(l), line + 1);
        &&& res matches Ok(op) && op.layer == i && op.line == line && op.deleted_row.chars@ == padded[line as int]
        &&& layer_reshaped(es0, es1, i, padded.remove(line as int), Size {
            width: l.size.width,
            height: (l.size.height - 1) as usize,
        })
    } else {
        res == Err::<DeleteRow, EditorError>(EditorError::InvalidLayer(0)) && es1 == es0
    }
}

/// What `insert_row` does to the editor `es0`: `es1` is the editor after it
/// and `res` the operation that undoes it (see `EditState::insert_row`).
pub open spec fn insert_row_done(es0: EditState, es1: EditState, res: Result<InsertRow, EditorError>) -> bool {
    let i = current_layer_index(es0);
    let line = es0.caret.pos.y;
    if es0.buffer.layers@.len() > 0 {
        let l = es0.buffer.layers@[i];
        let padded = rows_padded(layer_cells(l), line + 1);
        &&& res matches Ok(op) && op.layer == i && op.line == line && op.inserted_row.chars@.len() == 0
        &&& layer_reshaped(es0, es1, i, padded.insert(line as int, Seq::empty()), Size {
            width: l.size.width,
            height: (l.size.height + 1) as usize,
        })
    } else {
        res == Err::<InsertRow, EditorError>(EditorError::InvalidLayer(0)) && es1 == es0
    }
}

/// What `delete_column` does to the editor `es0`: `es1` is the editor after it
/// and `res` the operation that undoes it (see `EditState::delete_column`).
pub open spec fn delete_column_done(es0: EditState, es1: EditState, res: Result<DeleteColumn, EditorError>) -> bool {
    let i = current_layer_index(es0);
    let column = es0.caret.pos.x;
    if es0.buffer.layers@.len() > 0 {
        let l = es0.buffer.layers@[i];
        &&& res matches Ok(op) && op.layer == i && op.column == column && op.deleted_chars@ == column_taken(
            layer_cells(l),
            column as int,
        )
        &&& layer_reshaped(es0, es1, i, column_removed(layer_cells(l), column as int), Size {
            width: (l.size.width - 1) as usize,
            height: l.size.height,
        })
    } else {
        res == Err::<DeleteColumn, EditorError>(EditorError::InvalidLayer(0)) && es1 == es0
    }
}

/// What `insert_column` does to the editor `es0`: `es1` is the editor after it
/// and `res` the operation that undoes it (see `EditState::insert_column`).
pub open spec fn insert_column_done(es0: EditState, es1: EditState, res: Result<InsertColumn, EditorError>) -> bool {
    let i = current_layer_index(es0);
    let column = es0.caret.pos.x;
    if es0.buffer.layers@.len() > 0 {
        let l = es0.buffer.layers@[i];
        &&& res matches Ok(op) && op.layer == i && op.column == column
        &&& layer_reshaped(es0, es1, i, column_inserted(layer_cells(l), column as int), Size {
            width: (l.size.width + 1) as usize,
            height: l.size.height,
        })
    } else {
        res == Err::<InsertColumn, EditorError>(EditorError::InvalidLayer(0)) && es1 == es0
    }
}


/// The cell at column `x` of row `k` lies in what `span` covers around the
/// caret at `(cx, cy)`: rows reach over the caret's row and the one below
/// it, columns over the caret's column, each to the far end (`FAR`) or up to
/// and including the caret.
pub open spec fn span_covers(span: CaretSpan, cx: int, cy: int, x: int, k: int) -> bool {
    let far = FAR as int;
    match span {
        CaretSpan::Row => (k == cy || k == cy + 1) && -far <= x <= far,
        CaretSpan::RowToStart => (k == cy || k == cy + 1) && -far <= x <= cx,
        CaretSpan::RowToEnd => (k == cy || k == cy + 1) && cx <= x <= far,
        CaretSpan::Column => x == cx && -far <= k <= far,
        CaretSpan::ColumnToStart => x == cx && -far <= k <= cy,
        CaretSpan::ColumnToEnd => x == cx && cy <= k <= far,
    }
}

/// What the erase operation of `span` (`erase_row`, `erase_row_to_start`,
/// `erase_row_to_end`, `erase_column`, `erase_column_to_start`,
/// `erase_column_to_end`) promises of `es0`, `es1` and `res`.
pub open spec fn span_erased(span: CaretSpan, es0: EditState, es1: EditState, res: Result<Option<UndoLayerChange>, EditorError>) -> bool {
    match span {
        CaretSpan::Row => erase_row_done(es0, es1, res),
        CaretSpan::RowToStart => erase_row_to_start_done(es0, es1, res),
        CaretSpan::RowToEnd => erase_row_to_end_done(es0, es1, res),
        CaretSpan::Column => erase_column_done(es0, es1, res),
        CaretSpan::ColumnToStart => erase_column_to_start_done(es0, es1, res),
        CaretSpan::ColumnToEnd => erase_column_to_end_done(es0, es1, res),
    }
}

/// Erasing around the caret, on a current layer at the origin that takes
/// every write: every cell of the layer that the span covers becomes
/// invisible (for `erase_row_to_start`, the caret's row and the row below it
/// from the first column up to and including the caret's column); every
/// other cell, such as those right of the caret for `erase_row_to_start`,
/// keeps what it held, and the other layers stay as they were.
pub proof fn law_erase_span_cells(
    span: CaretSpan,
    es0: EditState,
    es1: EditState,
    res: Result<Option<UndoLayerChange>, EditorError>,
)
    requires
        es0.buffer.layers@.len() > 0,
        writable_at_origin(es0.buffer.layers@[current_layer_index(es0)]),
        span_fits(span, es0.caret.pos.x as int, es0.caret.pos.y as int),
        span_erased(span, es0, es1, res),
    ensures
        res is Ok,
        es1.buffer.layers@.len() == es0.buffer.layers@.len(),
        forall|j: int|
            0 <= j < es0.buffer.layers@.len() && j != current_layer_index(es0) ==> #[trigger] es1.buffer.layers@[j]
                == es0.buffer.layers@[j],
        forall|k: int, x: int|
            #![trigger cell_holds(layer_cells(es1.buffer.layers@[current_layer_index(es0)]), k, x, invisible_char())]
            0 <= k < es0.buffer.layers@[current_layer_index(es0)].size.height
                && 0 <= x < es0.buffer.layers@[current_layer_index(es0)].size.width
                && span_covers(span, es0.caret.pos.x as int, es0.caret.pos.y as int, x, k) ==> cell_holds(
                layer_cells(es1.buffer.layers@[current_layer_index(es0)]),
                k,
                x,
                invisible_char(),
            ),
        forall|k: int, x: int|
            #![trigger cell_holds(
                layer_cells(es1.buffer.layers@[current_layer_index(es0)]),
                k,
                x,
                layer_cells(es0.buffer.layers@[current_layer_index(es0)])[k][x],
            )]
            0 <= k < layer_cells(es0.buffer.layers@[current_layer_index(es0)]).len()
                && 0 <= x < layer_cells(es0.buffer.layers@[current_layer_index(es0)])[k].len()
                && !(k < es0.buffer.layers@[current_layer_index(es0)].size.height
                && x < es0.buffer.layers@[current_layer_index(es0)].size.width
                && span_covers(span, es0.caret.pos.x as int, es0.caret.pos.y as int, x, k)) ==> cell_holds(
                layer_cells(es1.buffer.layers@[current_layer_index(es0)]),
                k,
                x,
                layer_cells(es0.buffer.layers@[current_layer_index(es0)])[k][x],
            ),
{
    let i = current_layer_index(es0);
    let l = es0.buffer.layers@[i];
    let cx = es0.caret.pos.x as int;
    let cy = es0.caret.pos.y as int;
    let sel = span_rect(span, cx, cy);
    let es0s = EditState { selection: Some(sel), ..es0 };
    assert(caret_on_buffer(es0) == (cx, cy));
    assert(current_layer_index(es0s) == i);
    assert(erase_selection_done(es0s, es1, res));
    law_erased_cells(l, sel);
    assert(layer_cells(es1.buffer.layers@[i]) == crate::area_operations::erased_cells(l, sel));
    assert forall|k: int, x: int|
        0 <= k < l.size.height && 0 <= x < l.size.width implies (rect_is_inside(sel, at(x, k)) <==> span_covers(
        span,
        cx,
        cy,
        x,
        k,
    )) by {
    }
}

} // verus!

use vstd::prelude::*;

use crate::editor_error::EditorError;
use crate::font_operations::{AddFont, SetFont, SetIceMode, SwitchPalette};
use crate::undo_operations::{
    UndoSetChar,
    UndoLayerChange,
    RotateLayer,
    SetSelection,
    Deselect,
    SelectNothing,
    UndoSwapChar,
    ClearLayerOperation,
    ClearLayer,
    AddLayer,
    RemoveLayer,
    RaiseLayer,
    LowerLayer,
    MergeLayerDown,
    ToggleLayerVisibility,
    MoveLayer,
    Paste,
    SwitchPalettte,
    SwitchToFontPage,
    DeleteRow,
    InsertRow,
    ResizeBuffer,
    Crop,
    SetLayerSize,
    UndoScrollWholeLayerUp,
    UndoScrollWholeLayerDown,
    DeleteColumn,
    InsertColumn,
    EditState,
};

verus! {

/// An operation that was done to an editor, kept to undo and redo it.
pub enum UndoOperation {
    /// A cell written.
    UndoSetChar(UndoSetChar),
    /// A part of a layer changed.
    UndoLayerChange(UndoLayerChange),
    /// A layer rotated.
    RotateLayer(RotateLayer),
    /// The selection set.
    SetSelection(SetSelection),
    /// The selection dropped.
    Deselect(Deselect),
    /// The selection cleared.
    SelectNothing(SelectNothing),
    /// Two cells exchanged.
    UndoSwapChar(UndoSwapChar),
    /// A layer's rows exchanged.
    ClearLayerOperation(ClearLayerOperation),
    /// A layer emptied.
    ClearLayer(ClearLayer),
    /// A layer added.
    AddLayer(AddLayer),
    /// A layer removed.
    RemoveLayer(RemoveLayer),
    /// A layer raised.
    RaiseLayer(RaiseLayer),
    /// A layer lowered.
    LowerLayer(LowerLayer),
    /// A layer merged into the one below.
    MergeLayerDown(MergeLayerDown),
    /// A layer shown or hidden.
    ToggleLayerVisibility(ToggleLayerVisibility),
    /// A layer moved.
    MoveLayer(MoveLayer),
    /// A layer pasted.
    Paste(Paste),
    /// The palette exchanged.
    SwitchPalettte(SwitchPalettte),
    /// The caret switched to a font page.
    SwitchToFontPage(SwitchToFontPage),
    /// A row deleted.
    DeleteRow(DeleteRow),
    /// A row inserted.
    InsertRow(InsertRow),
    /// The buffer resized.
    ResizeBuffer(ResizeBuffer),
    /// The buffer cropped.
    Crop(Crop),
    /// A layer resized.
    SetLayerSize(SetLayerSize),
    /// A layer scrolled up.
    UndoScrollWholeLayerUp(UndoScrollWholeLayerUp),
    /// A layer scrolled down.
    UndoScrollWholeLayerDown(UndoScrollWholeLayerDown),
    /// A column deleted.
    DeleteColumn(DeleteColumn),
    /// A column inserted.
    InsertColumn(InsertColumn),
    /// The ice mode switched.
    SetIceMode(SetIceMode),
    /// The palette mode switched.
    SwitchPalette(SwitchPalette),
    /// A font added.
    AddFont(AddFont),
    /// A font replaced.
    SetFont(SetFont),
}

impl UndoOperation {
    /// Whether `es` is a state that the operation can be undone in.
    pub open spec fn undo_pre(self, es: EditState) -> bool {
        match self {
            UndoOperation::UndoSetChar(o) => o.undo_pre(es),
            UndoOperation::UndoLayerChange(o) => o.undo_pre(es),
            UndoOperation::RotateLayer(o) => o.undo_pre(es),
            UndoOperation::SetSelection(_) => true,
            UndoOperation::Deselect(_) => true,
            UndoOperation::SelectNothing(_) => true,
            UndoOperation::UndoSwapChar(o) => o.undo_pre(es),
            UndoOperation::ClearLayerOperation(o) => o.undo_pre(es),
            UndoOperation::ClearLayer(_) => true,
            UndoOperation::AddLayer(o) => o.undo_pre(es),
            UndoOperation::RemoveLayer(o) => o.undo_pre(es),
            UndoOperation::RaiseLayer(o) => o.undo_pre(es),
            UndoOperation::LowerLayer(o) => o.undo_pre(es),
            UndoOperation::MergeLayerDown(o) => o.undo_pre(es),
            UndoOperation::ToggleLayerVisibility(_) => true,
            UndoOperation::MoveLayer(_) => true,
            UndoOperation::Paste(o) => o.undo_pre(es),
            UndoOperation::SwitchPalettte(_) => true,
            UndoOperation::SwitchToFontPage(_) => true,
            UndoOperation::DeleteRow(o) => o.undo_pre(es),
            UndoOperation::InsertRow(o) => o.undo_pre(es),
            UndoOperation::ResizeBuffer(_) => true,
            UndoOperation::Crop(_) => true,
            UndoOperation::SetLayerSize(_) => true,
            UndoOperation::UndoScrollWholeLayerUp(o) => o.undo_pre(es),
            UndoOperation::UndoScrollWholeLayerDown(o) => o.undo_pre(es),
            UndoOperation::DeleteColumn(o) => o.undo_pre(es),
            UndoOperation::InsertColumn(o) => o.undo_pre(es),
            UndoOperation::SetIceMode(_) => true,
            UndoOperation::SwitchPalette(_) => true,
            UndoOperation::AddFont(_) => true,
            UndoOperation::SetFont(_) => true,
        }
    }

    /// What undoing the operation in `es0` does: `es1` is the state after it,
    /// `op1` the operation after it and `res` its result.
    pub open spec fn undo_post(self, es0: EditState, op1: UndoOperation, es1: EditState, res: Result<(), EditorError>) -> bool {
        match self {
            UndoOperation::UndoSetChar(o) => op1 matches UndoOperation::UndoSetChar(o1) && o.undo_post(es0, o1, es1, res),
            UndoOperation::UndoLayerChange(o) => op1 matches UndoOperation::UndoLayerChange(o1) && o.undo_post(es0, o1, es1, res),
            UndoOperation::RotateLayer(o) => op1 matches UndoOperation::RotateLayer(o1) && o.undo_post(es0, o1, es1, res),
            UndoOperation::SetSelection(o) => op1 matches UndoOperation::SetSelection(o1) && o.undo_post(es0, o1, es1, res),
            UndoOperation::Deselect(o) => op1 matches UndoOperation::Deselect(o1) && o.undo_post(es0, o1, es1, res),
            UndoOperation::SelectNothing(o) => op1 matches UndoOperation::SelectNothing(o1) && o.undo_post(es0, o1, es1, res),
            UndoOperation::UndoSwapChar(o) => op1 matches UndoOperation::UndoSwapChar(o1) && o.undo_post(es0, o1, es1, res),
            UndoOperation::ClearLayerOperation(o) => op1 matches UndoOperation::ClearLayerOperation(o1) && o.undo_post(es0, o1, es1, res),
            UndoOperation::ClearLayer(o) => op1 matches UndoOperation::ClearLayer(o1) && o.undo_post(es0, o1, es1, res),
            UndoOperation::AddLayer(o) => op1 matches UndoOperation::AddLayer(o1) && o.undo_post(es0, o1, es1, res),
            UndoOperation::RemoveLayer(o) => op1 matches UndoOperation::RemoveLayer(o1) && o.undo_post(es0, o1, es1, res),
            UndoOperation::RaiseLayer(o) => op1 matches UndoOperation::RaiseLayer(o1) && o.undo_post(es0, o1, es1, res),
            UndoOperation::LowerLayer(o) => op1 matches UndoOperation::LowerLayer(o1) && o.undo_post(es0, o1, es1, res),
            UndoOperation::MergeLayerDown(o) => op1 matches UndoOperation::MergeLayerDown(o1) && o.undo_post(es0, o1, es1, res),
            UndoOperation::ToggleLayerVisibility(o) => op1 matches UndoOperation::ToggleLayerVisibility(o1) && o.undo_post(es0, o1, es1, res),
            UndoOperation::MoveLayer(o) => op1 matches UndoOperation::MoveLayer(o1) && o.undo_post(es0, o1, es1, res),
            UndoOperation::Paste(o) => op1 matches UndoOperation::Paste(o1) && o.undo_post(es0, o1, es1, res),
            UndoOperation::SwitchPalettte(o) => op1 matches UndoOperation::SwitchPalettte(o1) && o.undo_post(es0, o1, es1, res),
            UndoOperation::SwitchToFontPage(o) => op1 matches UndoOperation::SwitchToFontPage(o1) && o.undo_post(es0, o1, es1, res),
            UndoOperation::DeleteRow(o) => op1 matches UndoOperation::DeleteRow(o1) && o.undo_post(es0, o1, es1, res),
            UndoOperation::InsertRow(o) => op1 matches UndoOperation::InsertRow(o1) && o.undo_post(es0, o1, es1, res),
            UndoOperation::ResizeBuffer(o) => op1 matches UndoOperation::ResizeBuffer(o1) && o.undo_post(es0, o1, es1, res),
            UndoOperation::Crop(o) => op1 matches UndoOperation::Crop(o1) && o.undo_post(es0, o1, es1, res),
            UndoOperation::SetLayerSize(o) => op1 matches UndoOperation::SetLayerSize(o1) && o.undo_post(es0, o1, es1, res),
            UndoOperation::UndoScrollWholeLayerUp(o) => op1 matches UndoOperation::UndoScrollWholeLayerUp(o1) && o.undo_post(es0, o1, es1, res),
            UndoOperation::UndoScrollWholeLayerDown(o) => op1 matches UndoOperation::UndoScrollWholeLayerDown(o1) && o.undo_post(es0, o1, es1, res),
            UndoOperation::DeleteColumn(o) => op1 matches UndoOperation::DeleteColumn(o1) && o.undo_post(es0, o1, es1, res),
            UndoOperation::InsertColumn(o) => op1 matches UndoOperation::InsertColumn(o1) && o.undo_post(es0, o1, es1, res),
            UndoOperation::SetIceMode(o) => op1 matches UndoOperation::SetIceMode(o1) && o.undo_post(es0, o1, es1, res),
            UndoOperation::SwitchPalette(o) => op1 matches UndoOperation::SwitchPalette(o1) && o.undo_post(es0, o1, es1, res),
            UndoOperation::AddFont(o) => op1 matches UndoOperation::AddFont(o1) && o.undo_post(es0, o1, es1, res),
            UndoOperation::SetFont(o) => op1 matches UndoOperation::SetFont(o1) && o.undo_post(es0, o1, es1, res),
        }
    }

    /// Whether `es` is a state that the operation can be redone in.
    pub open spec fn redo_pre(self, es: EditState) -> bool {
        match self {
            UndoOperation::UndoSetChar(o) => o.redo_pre(es),
            UndoOperation::UndoLayerChange(o) => o.redo_pre(es),
            UndoOperation::RotateLayer(o) => o.redo_pre(es),
            UndoOperation::SetSelection(_) => true,
            UndoOperation::Deselect(_) => true,
            UndoOperation::SelectNothing(_) => true,
            UndoOperation::UndoSwapChar(o) => o.redo_pre(es),
            UndoOperation::ClearLayerOperation(o) => o.redo_pre(es),
            UndoOperation::ClearLayer(_) => true,
            UndoOperation::AddLayer(o) => o.redo_pre(es),
            UndoOperation::RemoveLayer(_) => true,
            UndoOperation::RaiseLayer(o) => o.redo_pre(es),
            UndoOperation::LowerLayer(o) => o.redo_pre(es),
            UndoOperation::MergeLayerDown(o) => o.redo_pre(es),
            UndoOperation::ToggleLayerVisibility(_) => true,
            UndoOperation::MoveLayer(_) => true,
            UndoOperation::Paste(_) => true,
            UndoOperation::SwitchPalettte(_) => true,
            UndoOperation::SwitchToFontPage(_) => true,
            UndoOperation::DeleteRow(o) => o.redo_pre(es),
            UndoOperation::InsertRow(o) => o.redo_pre(es),
            UndoOperation::ResizeBuffer(_) => true,
            UndoOperation::Crop(_) => true,
            UndoOperation::SetLayerSize(_) => true,
            UndoOperation::UndoScrollWholeLayerUp(o) => o.redo_pre(es),
            UndoOperation::UndoScrollWholeLayerDown(o) => o.redo_pre(es),
            UndoOperation::DeleteColumn(o) => o.redo_pre(es),
            UndoOperation::InsertColumn(o) => o.redo_pre(es),
            UndoOperation::SetIceMode(_) => true,
            UndoOperation::SwitchPalette(_) => true,
            UndoOperation::AddFont(_) => true,
            UndoOperation::SetFont(_) => true,
        }
    }

    /// What redoing the operation in `es0` does: `es1` is the state after it,
    /// `op1` the operation after it and `res` its result.
    pub open spec fn redo_post(self, es0: EditState, op1: UndoOperation, es1: EditState, res: Result<(), EditorError>) -> bool {
        match self {
            UndoOperation::UndoSetChar(o) => op1 matches UndoOperation::UndoSetChar(o1) && o.redo_post(es0, o1, es1, res),
            UndoOperation::UndoLayerChange(o) => op1 matches UndoOperation::UndoLayerChange(o1) && o.redo_post(es0, o1, es1, res),
            UndoOperation::RotateLayer(o) => op1 matches UndoOperation::RotateLayer(o1) && o.redo_post(es0, o1, es1, res),
            UndoOperation::SetSelection(o) => op1 matches UndoOperation::SetSelection(o1) && o.redo_post(es0, o1, es1, res),
            UndoOperation::Deselect(o) => op1 matches UndoOperation::Deselect(o1) && o.redo_post(es0, o1, es1, res),
            UndoOperation::SelectNothing(o) => op1 matches UndoOperation::SelectNothing(o1) && o.redo_post(es0, o1, es1, res),
            UndoOperation::UndoSwapChar(o) => op1 matches UndoOperation::UndoSwapChar(o1) && o.redo_post(es0, o1, es1, res),
            UndoOperation::ClearLayerOperation(o) => op1 matches UndoOperation::ClearLayerOperation(o1) && o.redo_post(es0, o1, es1, res),
            UndoOperation::ClearLayer(o) => op1 matches UndoOperation::ClearLayer(o1) && o.redo_post(es0, o1, es1, res),
            UndoOperation::AddLayer(o) => op1 matches UndoOperation::AddLayer(o1) && o.redo_post(es0, o1, es1, res),
            UndoOperation::RemoveLayer(o) => op1 matches UndoOperation::RemoveLayer(o1) && o.redo_post(es0, o1, es1, res),
            UndoOperation::RaiseLayer(o) => op1 matches UndoOperation::RaiseLayer(o1) && o.redo_post(es0, o1, es1, res),
            UndoOperation::LowerLayer(o) => op1 matches UndoOperation::LowerLayer(o1) && o.redo_post(es0, o1, es1, res),
            UndoOperation::MergeLayerDown(o) => op1 matches UndoOperation::MergeLayerDown(o1) && o.redo_post(es0, o1, es1, res),
            UndoOperation::ToggleLayerVisibility(o) => op1 matches UndoOperation::ToggleLayerVisibility(o1) && o.redo_post(es0, o1, es1, res),
            UndoOperation::MoveLayer(o) => op1 matches UndoOperation::MoveLayer(o1) && o.redo_post(es0, o1, es1, res),
            UndoOperation::Paste(o) => op1 matches UndoOperation::Paste(o1) && o.redo_post(es0, o1, es1, res),
            UndoOperation::SwitchPalettte(o) => op1 matches UndoOperation::SwitchPalettte(o1) && o.redo_post(es0, o1, es1, res),
            UndoOperation::SwitchToFontPage(o) => op1 matches UndoOperation::SwitchToFontPage(o1) && o.redo_post(es0, o1, es1, res),
            UndoOperation::DeleteRow(o) => op1 matches UndoOperation::DeleteRow(o1) && o.redo_post(es0, o1, es1, res),
            UndoOperation::InsertRow(o) => op1 matches UndoOperation::InsertRow(o1) && o.redo_post(es0, o1, es1, res),
            UndoOperation::ResizeBuffer(o) => op1 matches UndoOperation::ResizeBuffer(o1) && o.redo_post(es0, o1, es1, res),
            UndoOperation::Crop(o) => op1 matches UndoOperation::Crop(o1) && o.redo_post(es0, o1, es1, res),
            UndoOperation::SetLayerSize(o) => op1 matches UndoOperation::SetLayerSize(o1) && o.redo_post(es0, o1, es1, res),
            UndoOperation::UndoScrollWholeLayerUp(o) => op1 matches UndoOperation::UndoScrollWholeLayerUp(o1) && o.redo_post(es0, o1, es1, res),
            UndoOperation::UndoScrollWholeLayerDown(o) => op1 matches UndoOperation::UndoScrollWholeLayerDown(o1) && o.redo_post(es0, o1, es1, res),
            UndoOperation::DeleteColumn(o) => op1 matches UndoOperation::DeleteColumn(o1) && o.redo_post(es0, o1, es1, res),
            UndoOperation::InsertColumn(o) => op1 matches UndoOperation::InsertColumn(o1) && o.redo_post(es0, o1, es1, res),
            UndoOperation::SetIceMode(o) => op1 matches UndoOperation::SetIceMode(o1) && o.redo_post(es0, o1, es1, res),
            UndoOperation::SwitchPalette(o) => op1 matches UndoOperation::SwitchPalette(o1) && o.redo_post(es0, o1, es1, res),
            UndoOperation::AddFont(o) => op1 matches UndoOperation::AddFont(o1) && o.redo_post(es0, o1, es1, res),
            UndoOperation::SetFont(o) => op1 matches UndoOperation::SetFont(o1) && o.redo_post(es0, o1, es1, res),
        }
    }

    /// Undoes the operation.
    pub fn undo(&mut self, es: &mut EditState) -> (res: Result<(), EditorError>)
        requires
            old(self).undo_pre(*old(es)),
        ensures
            old(self).undo_post(*old(es), *final(self), *final(es), res),
    {
        match self {
            UndoOperation::UndoSetChar(o) => o.undo(es),
            UndoOperation::UndoLayerChange(o) => o.undo(es),
            UndoOperation::RotateLayer(o) => o.undo(es),
            UndoOperation::SetSelection(o) => o.undo(es),
            UndoOperation::Deselect(o) => o.undo(es),
            UndoOperation::SelectNothing(o) => o.undo(es),
            UndoOperation::UndoSwapChar(o) => o.undo(es),
            UndoOperation::ClearLayerOperation(o) => o.undo(es),
            UndoOperation::ClearLayer(o) => o.undo(es),
            UndoOperation::AddLayer(o) => o.undo(es),
            UndoOperation::RemoveLayer(o) => o.undo(es),
            UndoOperation::RaiseLayer(o) => o.undo(es),
            UndoOperation::LowerLayer(o) => o.undo(es),
            UndoOperation::MergeLayerDown(o) => o.undo(es),
            UndoOperation::ToggleLayerVisibility(o) => o.undo(es),
            UndoOperation::MoveLayer(o) => o.undo(es),
            UndoOperation::Paste(o) => o.undo(es),
            UndoOperation::SwitchPalettte(o) => o.undo(es),
            UndoOperation::SwitchToFontPage(o) => o.undo(es),
            UndoOperation::DeleteRow(o) => o.undo(es),
            UndoOperation::InsertRow(o) => o.undo(es),
            UndoOperation::ResizeBuffer(o) => o.undo(es),
            UndoOperation::Crop(o) => o.undo(es),
            UndoOperation::SetLayerSize(o) => o.undo(es),
            UndoOperation::UndoScrollWholeLayerUp(o) => o.undo(es),
            UndoOperation::UndoScrollWholeLayerDown(o) => o.undo(es),
            UndoOperation::DeleteColumn(o) => o.undo(es),
            UndoOperation::InsertColumn(o) => o.undo(es),
            UndoOperation::SetIceMode(o) => o.undo(es),
            UndoOperation::SwitchPalette(o) => o.undo(es),
            UndoOperation::AddFont(o) => o.undo(es),
            UndoOperation::SetFont(o) => o.undo(es),
        }
    }

    /// Redoes the operation.
    pub fn redo(&mut self, es: &mut EditState) -> (res: Result<(), EditorError>)
        requires
            old(self).redo_pre(*old(es)),
        ensures
            old(self).redo_post(*old(es), *final(self), *final(es), res),
    {
        match self {
            UndoOperation::UndoSetChar(o) => o.redo(es),
            UndoOperation::UndoLayerChange(o) => o.redo(es),
            UndoOperation::RotateLayer(o) => o.redo(es),
            UndoOperation::SetSelection(o) => o.redo(es),
            UndoOperation::Deselect(o) => o.redo(es),
            UndoOperation::SelectNothing(o) => o.redo(es),
            UndoOperation::UndoSwapChar(o) => o.redo(es),
            UndoOperation::ClearLayerOperation(o) => o.redo(es),
            UndoOperation::ClearLayer(o) => o.redo(es),
            UndoOperation::AddLayer(o) => o.redo(es),
            UndoOperation::RemoveLayer(o) => o.redo(es),
            UndoOperation::RaiseLayer(o) => o.redo(es),
            UndoOperation::LowerLayer(o) => o.redo(es),
            UndoOperation::MergeLayerDown(o) => o.redo(es),
            UndoOperation::ToggleLayerVisibility(o) => o.redo(es),
            UndoOperation::MoveLayer(o) => o.redo(es),
            UndoOperation::Paste(o) => o.redo(es),
            UndoOperation::SwitchPalettte(o) => o.redo(es),
            UndoOperation::SwitchToFontPage(o) => o.redo(es),
            UndoOperation::DeleteRow(o) => o.redo(es),
            UndoOperation::InsertRow(o) => o.redo(es),
            UndoOperation::ResizeBuffer(o) => o.redo(es),
            UndoOperation::Crop(o) => o.redo(es),
            UndoOperation::SetLayerSize(o) => o.redo(es),
            UndoOperation::UndoScrollWholeLayerUp(o) => o.redo(es),
            UndoOperation::UndoScrollWholeLayerDown(o) => o.redo(es),
            UndoOperation::DeleteColumn(o) => o.redo(es),
            UndoOperation::InsertColumn(o) => o.redo(es),
            UndoOperation::SetIceMode(o) => o.redo(es),
            UndoOperation::SwitchPalette(o) => o.redo(es),
            UndoOperation::AddFont(o) => o.redo(es),
            UndoOperation::SetFont(o) => o.redo(es),
        }
    }
}

/// `es1` is `es0` with its last operation done undone and moved to the
/// operations to redo; with nothing to undo, `es1` is `es0`.
pub open spec fn undo_done(es0: EditState, es1: EditState, res: Result<(), EditorError>) -> bool {
    if es0.undo_stack@.len() == 0 {
        res is Ok && es1 == es0
    } else {
        let op0 = es0.undo_stack@.last();
        let op1 = es1.redo_stack@.last();
        &&& es1.undo_stack@ =~= es0.undo_stack@.drop_last()
        &&& es1.redo_stack@ =~= es0.redo_stack@.push(op1)
        &&& op0.undo_post(
            EditState { undo_stack: es1.undo_stack, ..es0 },
            op1,
            EditState { redo_stack: es0.redo_stack, ..es1 },
            res,
        )
    }
}

/// `es1` is `es0` with its last operation undone redone and moved back to
/// the operations to undo; with nothing to redo, `es1` is `es0`.
pub open spec fn redo_done(es0: EditState, es1: EditState, res: Result<(), EditorError>) -> bool {
    if es0.redo_stack@.len() == 0 {
        res is Ok && es1 == es0
    } else {
        let op0 = es0.redo_stack@.last();
        let op1 = es1.undo_stack@.last();
        &&& es1.redo_stack@ =~= es0.redo_stack@.drop_last()
        &&& es1.undo_stack@ =~= es0.undo_stack@.push(op1)
        &&& op0.redo_post(
            EditState { redo_stack: es1.redo_stack, ..es0 },
            op1,
            EditState { undo_stack: es0.undo_stack, ..es1 },
            res,
        )
    }
}

/// Undoing the last operation and redoing it leaves the same operations to
/// redo as before and as many to undo, all but the last of them unchanged.
pub proof fn law_undo_then_redo(
    es0: EditState,
    es1: EditState,
    es2: EditState,
    r1: Result<(), EditorError>,
    r2: Result<(), EditorError>,
)
    requires
        es0.undo_stack@.len() > 0,
        undo_done(es0, es1, r1),
        redo_done(es1, es2, r2),
    ensures
        es2.redo_stack@ == es0.redo_stack@,
        es2.undo_stack@.len() == es0.undo_stack@.len(),
        es2.undo_stack@.drop_last() == es0.undo_stack@.drop_last(),
{
    assert(es2.redo_stack@ =~= es0.redo_stack@);
    assert(es2.undo_stack@.drop_last() =~= es0.undo_stack@.drop_last());
}

/// `es1` is `es0` keeping `op` as the operation to undo next, with nothing
/// left to redo.
pub open spec fn recorded(es0: EditState, op: UndoOperation, es1: EditState) -> bool {
    &&& es1.undo_stack@ == es0.undo_stack@.push(op)
    &&& es1.redo_stack@.len() == 0
    &&& es1 == (EditState { undo_stack: es1.undo_stack, redo_stack: es1.redo_stack, ..es0 })
}

/// The editor `es1` with the operations that `es0` keeps to undo and redo.
pub open spec fn unrecorded(es1: EditState, es0: EditState) -> EditState {
    EditState { undo_stack: es0.undo_stack, redo_stack: es0.redo_stack, ..es1 }
}

/// The change from `es0` to `es1` was kept as the operation `op`: `es1`
/// keeps `op` as the operation to undo next, nothing to redo, and otherwise
/// the operations that `es0` kept.
pub open spec fn kept(es0: EditState, es1: EditState, op: UndoOperation) -> bool {
    recorded(unrecorded(es1, es0), op, es1)
}

impl EditState {
    /// Keeps `op`, an operation that was just done, as the one to undo
    /// next; nothing is left to redo.
    pub fn record_undo(&mut self, op: UndoOperation)
        ensures
            recorded(*old(self), op, *final(self)),
    {
        self.undo_stack.push(op);
        self.redo_stack.clear();
    }

    pub fn undo_stack_len(&self) -> (res: usize)
        ensures
            res == self.undo_stack@.len(),
    {
        self.undo_stack.len()
    }

    pub fn can_undo(&self) -> (res: bool)
        ensures
            res == (self.undo_stack@.len() > 0),
    {
        self.undo_stack.len() > 0
    }

    pub fn can_redo(&self) -> (res: bool)
        ensures
            res == (self.redo_stack@.len() > 0),
    {
        self.redo_stack.len() > 0
    }

    /// Undoes the last operation done and keeps it to redo; with nothing to
    /// undo, nothing changes.
    pub fn undo(&mut self) -> (res: Result<(), EditorError>)
        requires
            old(self).undo_stack@.len() > 0 ==> old(self).undo_stack@.last().undo_pre(*old(self)),
        ensures
            undo_done(*old(self), *final(self), res),
    {
        if self.undo_stack.len() == 0 {
            return Ok(());
        }
        match self.undo_stack.pop() {
            Some(mut op) => {
                let res = op.undo(self);
                self.redo_stack.push(op);
                res
            },
            None => Ok(()),
        }
    }

    /// Redoes the last operation undone and keeps it to undo again; with
    /// nothing to redo, nothing changes.
    pub fn redo(&mut self) -> (res: Result<(), EditorError>)
        requires
            old(self).redo_stack@.len() > 0 ==> old(self).redo_stack@.last().redo_pre(*old(self)),
        ensures
            redo_done(*old(self), *final(self), res),
    {
        if self.redo_stack.len() == 0 {
            return Ok(());
        }
        match self.redo_stack.pop() {
            Some(mut op) => {
                let res = op.redo(self);
                self.undo_stack.push(op);
                res
            },
            None => Ok(()),
        }
    }
}

} // verus!

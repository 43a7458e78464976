use vstd::prelude::*;

verus! {

/// Why an editing operation could not be done or undone.
#[derive(Clone, Debug)]
pub enum EditorError {
    CurrentLayerInvalid,
    Error(String),
    InvalidLayer(usize),
    MergeLayerDownHasNoMergeLayer,
    /// The buffer's font mode does not allow the operation.
    NotSupportedForBufferType,
    /// A buffer in the sauce font mode keeps its one font.
    NotSupportedForSauceBuffers,
}

} // verus!

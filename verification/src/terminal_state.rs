use vstd::prelude::*;

use crate::geometry::Size;

verus! {

/// Whether the terminal scrolls line by line or jumps.
#[derive(Clone, Copy, Debug, PartialEq, Eq, Structural)]
pub enum TerminalScrolling {
    Smooth,
    Fast,
}

/// Where cursor addressing starts: at the screen's corner or at the top
/// margin.
#[derive(Clone, Copy, Debug, PartialEq, Eq, Structural)]
pub enum OriginMode {
    UpperLeftCorner,
    WithinMargins,
}

/// Whether printing past the right edge continues on the next line.
#[derive(Clone, Copy, Debug, PartialEq, Eq, Structural)]
pub enum AutoWrapMode {
    NoWrap,
    AutoWrap,
}

/// Which mouse events a terminal reports.
#[derive(Clone, Copy, Debug, PartialEq, Eq, Structural)]
pub enum MouseMode {
    Default,
    X10,
    Highlight,
    ButtonEvents,
    AnyEvents,
    FocusEvent,
    AlternateScroll,
    ExtendedMode,
    SGRExtendedMode,
    URXVTExtendedMode,
    PixelPosition,
}

/// The modes of a terminal screen.
#[derive(Clone, Copy, Debug)]
pub struct TerminalState {
    pub size: Size,
    /// Top and bottom margin rows, counted from the first visible row.
    pub margins: Option<(i32, i32)>,
    /// Left and right margin columns.
    pub margins_left_right: Option<(i32, i32)>,
    pub scroll_state: TerminalScrolling,
    pub origin_mode: OriginMode,
    pub auto_wrap_mode: AutoWrapMode,
    pub mouse_mode: MouseMode,
    pub use_ice: bool,
}

/// The state of a terminal of size `size` that was just switched on.
pub open spec fn initial_terminal_state(size: Size) -> TerminalState {
    TerminalState {
        size,
        margins: None,
        margins_left_right: None,
        scroll_state: TerminalScrolling::Smooth,
        origin_mode: OriginMode::UpperLeftCorner,
        auto_wrap_mode: AutoWrapMode::AutoWrap,
        mouse_mode: MouseMode::Default,
        use_ice: false,
    }
}

impl TerminalState {
    pub fn from(size: Size) -> (res: Self)
        ensures
            res == initial_terminal_state(size),
    {
        TerminalState {
            size,
            margins: None,
            margins_left_right: None,
            scroll_state: TerminalScrolling::Smooth,
            origin_mode: OriginMode::UpperLeftCorner,
            auto_wrap_mode: AutoWrapMode::AutoWrap,
            mouse_mode: MouseMode::Default,
            use_ice: false,
        }
    }

    pub fn get_size(&self) -> (res: Size)
        ensures
            res == self.size,
    {
        self.size
    }

    pub fn set_size(&mut self, size: Size)
        ensures
            *final(self) == (TerminalState { size, ..*old(self) }),
    {
        self.size = size;
    }

    pub fn get_width(&self) -> (res: usize)
        ensures
            res == self.size.width,
    {
        self.size.width
    }

    pub fn get_height(&self) -> (res: usize)
        ensures
            res == self.size.height,
    {
        self.size.height
    }

    pub fn get_margins_top_bottom(&self) -> (res: Option<(i32, i32)>)
        ensures
            res == self.margins,
    {
        self.margins
    }

    pub fn get_margins_left_right(&self) -> (res: Option<(i32, i32)>)
        ensures
            res == self.margins_left_right,
    {
        self.margins_left_right
    }

    pub fn set_use_ice_colors(&mut self, use_ice: bool)
        ensures
            *final(self) == (TerminalState { use_ice, ..*old(self) }),
    {
        self.use_ice = use_ice;
    }

    /// Back to the state of a terminal just switched on; the size stays.
    pub fn reset(&mut self)
        ensures
            *final(self) == initial_terminal_state(old(self).size),
    {
        *self = TerminalState::from(self.size);
    }
}

} // verus!

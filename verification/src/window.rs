//! Window properties of the V6 screen model.

use vstd::prelude::*;

verus! {

/// All the window properties understood by the Z-machine.
#[derive(Debug, Copy, Clone, Eq, PartialEq, Structural)]
pub enum WindowProperty {
    CoordinateY,
    CoordinateX,
    SizeY,
    SizeX,
    CursorY,
    CursorX,
    MarginSizeLeft,
    MarginSizeRight,
    NewlineInterruptRoutine,
    InterruptCountdown,
    TextStyle,
    ColorData,
    FontNumber,
    FontSize,
    Attributes,
    LineCount,
    TrueForegroundColor,
    TrueBackgroundColor,
}

} // verus!

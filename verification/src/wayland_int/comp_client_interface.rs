//! Screens and cursor fetch failures as the compositor client reports them.
use vstd::prelude::*;

verus! {

pub type Pixel = i32;

#[derive(Debug, Clone, Copy, PartialEq, Eq, Structural)]
pub struct Point {
    pub x: i32,
    pub y: i32,
}

#[derive(Debug, Clone, Copy, PartialEq, Eq, Structural)]
pub struct Size {
    pub width: u32,
    pub height: u32,
}

/// Positional information for a screen.
#[derive(Debug, Clone, Copy, PartialEq, Eq, Structural)]
pub struct ScreenInfo {
    /// Size of the screen.
    size: Size,
    /// Position of the origin relative ot the other monitors.
    origin: Point,
}

impl ScreenInfo {
    /// The screen of the given size at `origin`.
    pub fn new(size: Size, origin: Point) -> (s: ScreenInfo)
        ensures
            s.spec_size() == size,
            s.spec_origin() == origin,
    {
        ScreenInfo { size, origin }
    }

    pub closed spec fn spec_size(&self) -> Size {
        self.size
    }

    pub closed spec fn spec_origin(&self) -> Point {
        self.origin
    }

    /// Size of the screen.
    pub fn size(&self) -> (s: Size)
        ensures
            s == self.spec_size(),
    {
        self.size
    }

    /// Position of the origin relative ot the other monitors.
    pub fn origin(&self) -> (o: Point)
        ensures
            o == self.spec_origin(),
    {
        self.origin
    }
}

/// Best effort error when the cursor failed to be captured.
/// Given that there is no absolute way to know why a capture failed, the best we can do is
/// approximate why it failed.
#[derive(Debug, Clone, Copy, PartialEq, Eq, Structural)]
pub enum CursorFetchErr {
    /// The shell layer failed to capture the mouse. This is most likely caused by the user holding
    /// down the click button when the fetch is requested.
    CursorCaptureFailed,
    /// The layers were not all ready when the cursor fetch was attempted. Could be that the reason
    /// why it failed was that the user was holding down click while some other layer was not ready,
    /// but as stated before, there is no absolute way to know what went wrong and this is only an approximation.
    LayerNotReady,
}

/// The failure of a cursor fetch without an answer: the layers were not
/// ready, or they were and the capture failed.
pub fn cursor_fetch_failure(layers_ready: bool) -> (e: CursorFetchErr)
    ensures
        e == (if layers_ready {
            CursorFetchErr::CursorCaptureFailed
        } else {
            CursorFetchErr::LayerNotReady
        }),
{
    if !layers_ready {
        CursorFetchErr::LayerNotReady
    } else {
        CursorFetchErr::CursorCaptureFailed
    }
}

} // verus!

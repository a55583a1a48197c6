//! The interface between the privileged process and wayland.
use vstd::prelude::*;
use crate::layout::{
    is_stable_origin_order, order_view, origin_order, rects_fit, span, spec_span,
};

/// Interfaces with the display outputs.
pub mod comp_client_interface;
pub mod display_output;

verus! {

pub type Pixel = i32;

/// A position on the screen array.
#[derive(Debug, Clone, Copy, Default, PartialEq, Eq, Structural)]
pub struct Point {
    pub x: i32,
    pub y: i32,
}

/// The size of a screen.
#[derive(Debug, Clone, Copy, PartialEq, Eq, Structural)]
pub struct Size {
    pub width: u32,
    pub height: u32,
}

/// Positional information for a screen.
#[derive(Debug, Clone, Copy, PartialEq, Eq, Structural)]
pub struct ScreenInfo {
    /// Size of the screen.
    pub size: Size,
    /// Position of the origin relative ot the other monitors.
    pub origin: Point,
}

/// Span of the output monitors.
#[derive(Debug, Clone, Copy, PartialEq, Eq, Structural)]
pub struct Range {
    /// Top left corner pixel of the screen array.
    pub top_left: Point,
    /// Bottom right corner pixel of the screen array.
    pub bottom_right: Point,
}

/// Information about a monitor/screen layout.
#[derive(Debug, Clone)]
pub struct ScreenSpace {
    /// The raw pixel range of the monitor layout.
    /// (top_left_corner, bottom_right_corner)
    range: Range,
    /// List of monitors sorted top to bottom, left to right.
    monitors: Vec<ScreenInfo>,
}

/// Each screen as `(x, y, width, height)`, the width and height taken as `i32`.
pub open spec fn screen_rects(monitors: Seq<ScreenInfo>) -> Seq<(i32, i32, i32, i32)> {
    monitors.map_values(
        |m: ScreenInfo| (m.origin.x, m.origin.y, m.size.width as i32, m.size.height as i32),
    )
}

/// Each screen's origin as `(x, y)`.
pub open spec fn screen_origins(monitors: Seq<ScreenInfo>) -> Seq<(i32, i32)> {
    monitors.map_values(|m: ScreenInfo| (m.origin.x, m.origin.y))
}

/// The pixel range of a layout: from the least origin (counting (0, 0)) to
/// the last pixel of the farthest screen.
pub open spec fn spec_screen_range(monitors: Seq<ScreenInfo>) -> Range {
    let s = spec_span(screen_rects(monitors));
    Range {
        top_left: Point { x: s.0 as i32, y: s.1 as i32 },
        bottom_right: Point { x: (s.2 - 1) as i32, y: (s.3 - 1) as i32 },
    }
}

/// `sorted` is `monitors` as a stable sort by origin `(y, x)` orders them.
pub open spec fn sorted_by_origin(monitors: Seq<ScreenInfo>, sorted: Seq<ScreenInfo>) -> bool {
    exists|order: Seq<int>|
        is_stable_origin_order(screen_origins(monitors), order, monitors.len() as int) && sorted
            == order.map_values(|i: int| monitors[i])
}

impl View for ScreenSpace {
    type V = (Range, Seq<ScreenInfo>);

    closed spec fn view(&self) -> (Range, Seq<ScreenInfo>) {
        (self.range, self.monitors@)
    }
}

impl ScreenSpace {
    /// The layout of `monitors`: its pixel range and the monitors sorted top
    /// to bottom, then left to right.
    pub fn from_monitors(monitors: &[ScreenInfo]) -> (space: ScreenSpace)
        requires
            rects_fit(screen_rects(monitors@)),
        ensures
            space@.0 == spec_screen_range(monitors@),
            sorted_by_origin(monitors@, space@.1),
    {
        let mut rects: Vec<(i32, i32, i32, i32)> = Vec::new();
        let mut origins: Vec<(i32, i32)> = Vec::new();
        let mut i: usize = 0;
        while i < monitors.len()
            invariant
                i <= monitors@.len(),
                rects@ == screen_rects(monitors@.subrange(0, i as int)),
                origins@ == screen_origins(monitors@.subrange(0, i as int)),
            decreases monitors@.len() - i,
        {
            let m = monitors[i];
            rects.push((m.origin.x, m.origin.y, m.size.width as i32, m.size.height as i32));
            origins.push((m.origin.x, m.origin.y));
            proof {
                assert(monitors@.subrange(0, i + 1) =~= monitors@.subrange(0, i as int).push(m));
                assert(screen_rects(monitors@.subrange(0, i + 1)) =~= rects@);
                assert(screen_origins(monitors@.subrange(0, i + 1)) =~= origins@);
            }
            i += 1;
        }
        assert(monitors@.subrange(0, monitors@.len() as int) =~= monitors@);
        proof {
            crate::layout::law_span_covers_rects(rects@);
        }
        let s = span(&rects);
        // If the screen has width W, then the last pixel is at position W - 1.
        let range = Range {
            top_left: Point { x: s.0, y: s.1 },
            bottom_right: Point { x: s.2 - 1, y: s.3 - 1 },
        };
        let order = origin_order(&origins);
        let mut sort_monitors: Vec<ScreenInfo> = Vec::new();
        let mut k: usize = 0;
        while k < order.len()
            invariant
                k <= order@.len(),
                is_stable_origin_order(origins@, order_view(order@), monitors@.len() as int),
                origins@ == screen_origins(monitors@),
                sort_monitors@ == order_view(order@).subrange(0, k as int).map_values(
                    |j: int| monitors@[j],
                ),
            decreases order@.len() - k,
        {
            assert(order_view(order@)[k as int] == order@[k as int] as int);
            sort_monitors.push(monitors[order[k]]);
            proof {
                assert(order_view(order@).subrange(0, k + 1) =~= order_view(order@).subrange(
                    0,
                    k as int,
                ).push(order@[k as int] as int));
                assert(sort_monitors@ =~= order_view(order@).subrange(0, k + 1).map_values(
                    |j: int| monitors@[j],
                ));
            }
            k += 1;
        }
        assert(order_view(order@).subrange(0, order@.len() as int) =~= order_view(order@));
        ScreenSpace { range, monitors: sort_monitors }
    }

    pub fn range(&self) -> (r: Range)
        ensures
            r == self@.0,
    {
        self.range
    }

    pub fn monitors(&self) -> (m: &[ScreenInfo])
        ensures
            m@ == self@.1,
    {
        self.monitors.as_slice()
    }
}

} // verus!

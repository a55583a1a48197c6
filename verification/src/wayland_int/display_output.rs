//!Holds required methods and structs to detect and define the monitors in use and interfaces with the display outputs.
use vstd::prelude::*;
use crate::layout::{
    is_stable_origin_order, law_span_covers_rects, order_view, origin_order, rects_fit, span,
    spec_span,
};

verus! {

pub type Pixel = i32;

/// (x,y) coordinates
pub type Point = [Pixel; 2];

/// Information about a monitor/screen layout.
#[derive(Debug)]
pub struct ScreenSpace {
    /// The raw pixel range of the monitor layout.
    /// (top_left_corner, bottom_right_corner)
    range: (Point, Point),
    /// List of monitors sorted top to bottom, left to right.
    monitors: Vec<ScreenInfo>,
}

/// Positional information for a screen.
#[derive(Debug, Clone, Copy)]
pub struct ScreenInfo {
    /// Width of the monitor in pixels.
    width: Pixel,
    /// Height of the monitor in pixels.
    height: Pixel,
    /// Position of the origin relative ot the other monitors.
    origin: Point,
}

impl View for ScreenInfo {
    /// `(width, height, origin x, origin y)`.
    type V = (Pixel, Pixel, Pixel, Pixel);

    closed spec fn view(&self) -> (Pixel, Pixel, Pixel, Pixel) {
        (self.width, self.height, self.origin[0], self.origin[1])
    }
}

impl ScreenInfo {
    /// A screen of the given size at `origin`.
    pub fn new(width: Pixel, height: Pixel, origin: Point) -> (m: ScreenInfo)
        ensures
            m@ == (width, height, origin[0], origin[1]),
    {
        ScreenInfo { width, height, origin }
    }

    pub fn width(&self) -> (w: Pixel)
        ensures
            w == self@.0,
    {
        self.width
    }

    pub fn height(&self) -> (h: Pixel)
        ensures
            h == self@.1,
    {
        self.height
    }

    pub fn origin(&self) -> (o: Point)
        ensures
            o[0] == self@.2,
            o[1] == self@.3,
    {
        self.origin
    }
}

/// Each monitor as `(x, y, width, height)`.
pub open spec fn screen_rects(monitors: Seq<ScreenInfo>) -> Seq<(i32, i32, i32, i32)> {
    monitors.map_values(|m: ScreenInfo| (m@.2, m@.3, m@.0, m@.1))
}

/// Each monitor's origin as `(x, y)`.
pub open spec fn screen_origins(monitors: Seq<ScreenInfo>) -> Seq<(i32, i32)> {
    monitors.map_values(|m: ScreenInfo| (m@.2, m@.3))
}

/// The pixel range of a layout, as `(x, y)` pairs: from the least origin
/// (counting (0, 0)) to the last pixel of the farthest screen.
pub open spec fn spec_screen_range(monitors: Seq<ScreenInfo>) -> ((int, int), (int, int)) {
    let s = spec_span(screen_rects(monitors));
    ((s.0, s.1), (s.2 - 1, s.3 - 1))
}

impl View for ScreenSpace {
    /// The range as `((x, y), (x, y))`, and the monitors.
    type V = (((int, int), (int, int)), Seq<ScreenInfo>);

    closed spec fn view(&self) -> (((int, int), (int, int)), Seq<ScreenInfo>) {
        (
            (
                (self.range.0[0] as int, self.range.0[1] as int),
                (self.range.1[0] as int, self.range.1[1] as int),
            ),
            self.monitors@,
        )
    }
}

impl Clone for ScreenSpace {
    fn clone(&self) -> (c: ScreenSpace)
        ensures
            c@ == self@,
    {
        let range = self.range;
        let mut monitors: Vec<ScreenInfo> = Vec::new();
        let mut i: usize = 0;
        while i < self.monitors.len()
            invariant
                i <= self.monitors@.len(),
                monitors@ == self.monitors@.subrange(0, i as int),
            decreases self.monitors@.len() - i,
        {
            monitors.push(self.monitors[i]);
            proof {
                assert(self.monitors@.subrange(0, i + 1) =~= monitors@);
            }
            i += 1;
        }
        assert(self.monitors@.subrange(0, self.monitors@.len() as int) =~= self.monitors@);
        ScreenSpace { range, monitors }
    }
}

impl ScreenSpace {
    /// The layout of `monitors`: its pixel range and the monitors sorted top
    /// to bottom, then left to right.
    pub fn from_monitors(monitors: &[ScreenInfo]) -> (space: ScreenSpace)
        requires
            rects_fit(screen_rects(monitors@)),
        ensures
            space@.0 == spec_screen_range(monitors@),
            exists|order: Seq<int>|
                is_stable_origin_order(screen_origins(monitors@), order, monitors@.len() as int)
                    && space@.1 == order.map_values(|i: int| monitors@[i]),
    {
        let mut rects: Vec<(i32, i32, i32, i32)> = Vec::new();
        let mut origins: Vec<(i32, i32)> = Vec::new();
        let mut i: usize = 0;
        while i < monitors.len()
            invariant
                i <= monitors@.len(),
                rects@ == screen_rects(monitors@.subrange(0, i as int)),
                origins@ == screen_origins(monitors@.subrange(0, i as int)),
            decreases monitors@.len() - i,
        {
            let m = monitors[i];
            let o = m.origin;
            rects.push((o[0], o[1], m.width, m.height));
            origins.push((o[0], o[1]));
            proof {
                assert(monitors@.subrange(0, i + 1) =~= monitors@.subrange(0, i as int).push(m));
                assert(screen_rects(monitors@.subrange(0, i + 1)) =~= rects@);
                assert(screen_origins(monitors@.subrange(0, i + 1)) =~= origins@);
            }
            i += 1;
        }
        assert(monitors@.subrange(0, monitors@.len() as int) =~= monitors@);
        proof {
            law_span_covers_rects(rects@);
        }
        let s = span(&rects);
        // If the screen has width W, then the last pixel is at position W - 1, this is why 1 is subtracted.
        let range: (Point, Point) = ([s.0, s.1], [s.2 - 1, s.3 - 1]);
        // Ensure order of monitors is top to bottom followed by left to right.
        let order = origin_order(&origins);
        let mut sort_monitors: Vec<ScreenInfo> = Vec::new();
        let mut k: usize = 0;
        while k < order.len()
            invariant
                k <= order@.len(),
                is_stable_origin_order(origins@, order_view(order@), monitors@.len() as int),
                origins@ == screen_origins(monitors@),
                sort_monitors@ == order_view(order@).subrange(0, k as int).map_values(
                    |j: int| monitors@[j],
                ),
            decreases order@.len() - k,
        {
            assert(order_view(order@)[k as int] == order@[k as int] as int);
            sort_monitors.push(monitors[order[k]]);
            proof {
                assert(order_view(order@).subrange(0, k + 1) =~= order_view(order@).subrange(
                    0,
                    k as int,
                ).push(order@[k as int] as int));
                assert(sort_monitors@ =~= order_view(order@).subrange(0, k + 1).map_values(
                    |j: int| monitors@[j],
                ));
            }
            k += 1;
        }
        assert(order_view(order@).subrange(0, order@.len() as int) =~= order_view(order@));
        ScreenSpace { range, monitors: sort_monitors }
    }

    pub fn range(&self) -> (r: (Point, Point))
        ensures
            ((r.0[0] as int, r.0[1] as int), (r.1[0] as int, r.1[1] as int)) == self@.0,
    {
        self.range
    }

    pub fn monitors(&self) -> (m: &[ScreenInfo])
        ensures
            m@ == self@.1,
    {
        self.monitors.as_slice()
    }
}

/// The order in which the outputs' screens are listed: indices of `infos`
/// sorted by origin y, then x, equal origins in their order.
pub fn screens_order(infos: &[ScreenInfo]) -> (order: Vec<usize>)
    ensures
        is_stable_origin_order(screen_origins(infos@), order_view(order@), infos@.len() as int),
{
    let mut origins: Vec<(i32, i32)> = Vec::new();
    let mut i: usize = 0;
    while i < infos.len()
        invariant
            i <= infos@.len(),
            origins@ == screen_origins(infos@.subrange(0, i as int)),
        decreases infos@.len() - i,
    {
        let o = infos[i].origin;
        origins.push((o[0], o[1]));
        proof {
            assert(screen_origins(infos@.subrange(0, i + 1)) =~= origins@);
        }
        i += 1;
    }
    assert(infos@.subrange(0, infos@.len() as int) =~= infos@);
    origin_order(&origins)
}

} // verus!

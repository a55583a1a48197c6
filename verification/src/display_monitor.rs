//! Holds required methods and structs to detect and define the monitors in use.
use vstd::prelude::*;
use crate::layout::{
    is_stable_origin_order, law_span_covers_rects, order_view, origin_order, rects_fit, span,
    spec_span,
};

verus! {

pub type Pixel = i32;

/// (x,y) coordinates
pub type Point = [Pixel; 2];

/// Information about a monitor layout.
#[derive(Debug)]
pub struct ScreenSpace {
    /// The raw pixel range of the monitor layout.
    /// (top_left_corner, bottom_right_corner)
    range: (Point, Point),
    /// List of monitors sorted top to bottom, left to right.
    monitors: Vec<MonitorInfo>,
}

/// Positional information for a monitor.
#[derive(Debug, Clone, Copy)]
pub struct MonitorInfo {
    /// Width of the monitor in pixels.
    width: Pixel,
    /// Height of the monitor in pixels.
    height: Pixel,
    /// Position of the origin relative ot the other monitors.
    origin: Point,
}

impl View for MonitorInfo {
    /// `(width, height, origin x, origin y)`.
    type V = (Pixel, Pixel, Pixel, Pixel);

    closed spec fn view(&self) -> (Pixel, Pixel, Pixel, Pixel) {
        (self.width, self.height, self.origin[0], self.origin[1])
    }
}

impl MonitorInfo {
    /// A monitor of the given size at `origin`.
    pub fn new(width: Pixel, height: Pixel, origin: Point) -> (m: MonitorInfo)
        ensures
            m@ == (width, height, origin[0], origin[1]),
    {
        MonitorInfo { width, height, origin }
    }

    pub fn width(&self) -> (w: Pixel)
        ensures
            w == self@.0,
    {
        self.width
    }

    pub fn height(&self) -> (h: Pixel)
        ensures
            h == self@.1,
    {
        self.height
    }

    pub fn origin(&self) -> (o: Point)
        ensures
            o[0] == self@.2,
            o[1] == self@.3,
    {
        self.origin
    }
}

/// Each monitor as `(x, y, width, height)`.
pub open spec fn monitor_rects(monitors: Seq<MonitorInfo>) -> Seq<(i32, i32, i32, i32)> {
    monitors.map_values(|m: MonitorInfo| (m@.2, m@.3, m@.0, m@.1))
}

/// Each monitor's origin as `(x, y)`.
pub open spec fn monitor_origins(monitors: Seq<MonitorInfo>) -> Seq<(i32, i32)> {
    monitors.map_values(|m: MonitorInfo| (m@.2, m@.3))
}

/// The raw pixel range of a layout: from the least origin (counting (0, 0))
/// to the farthest corner, as `(x, y)` pairs.
pub open spec fn spec_monitor_range(monitors: Seq<MonitorInfo>) -> ((int, int), (int, int)) {
    let s = spec_span(monitor_rects(monitors));
    ((s.0, s.1), (s.2, s.3))
}

impl View for ScreenSpace {
    /// The range as `((x, y), (x, y))`, and the monitors.
    type V = (((int, int), (int, int)), Seq<MonitorInfo>);

    closed spec fn view(&self) -> (((int, int), (int, int)), Seq<MonitorInfo>) {
        (
            (
                (self.range.0[0] as int, self.range.0[1] as int),
                (self.range.1[0] as int, self.range.1[1] as int),
            ),
            self.monitors@,
        )
    }
}

impl Clone for ScreenSpace {
    fn clone(&self) -> (c: ScreenSpace)
        ensures
            c@ == self@,
    {
        let range = self.range;
        let mut monitors: Vec<MonitorInfo> = Vec::new();
        let mut i: usize = 0;
        while i < self.monitors.len()
            invariant
                i <= self.monitors@.len(),
                monitors@ == self.monitors@.subrange(0, i as int),
            decreases self.monitors@.len() - i,
        {
            monitors.push(self.monitors[i]);
            proof {
                assert(self.monitors@.subrange(0, i + 1) =~= monitors@);
            }
            i += 1;
        }
        assert(self.monitors@.subrange(0, self.monitors@.len() as int) =~= self.monitors@);
        ScreenSpace { range, monitors }
    }
}

impl ScreenSpace {
    /// The layout of `monitors`: its raw pixel range and the monitors sorted
    /// top to bottom, then left to right.
    pub fn new(monitors: &[MonitorInfo]) -> (space: ScreenSpace)
        requires
            rects_fit(monitor_rects(monitors@)),
        ensures
            space@.0 == spec_monitor_range(monitors@),
            exists|order: Seq<int>|
                is_stable_origin_order(monitor_origins(monitors@), order, monitors@.len() as int)
                    && space@.1 == order.map_values(|i: int| monitors@[i]),
    {
        let mut rects: Vec<(i32, i32, i32, i32)> = Vec::new();
        let mut origins: Vec<(i32, i32)> = Vec::new();
        let mut i: usize = 0;
        while i < monitors.len()
            invariant
                i <= monitors@.len(),
                rects@ == monitor_rects(monitors@.subrange(0, i as int)),
                origins@ == monitor_origins(monitors@.subrange(0, i as int)),
            decreases monitors@.len() - i,
        {
            let m = monitors[i];
            let o = m.origin;
            rects.push((o[0], o[1], m.width, m.height));
            origins.push((o[0], o[1]));
            proof {
                assert(monitors@.subrange(0, i + 1) =~= monitors@.subrange(0, i as int).push(m));
                assert(monitor_rects(monitors@.subrange(0, i + 1)) =~= rects@);
                assert(monitor_origins(monitors@.subrange(0, i + 1)) =~= origins@);
            }
            i += 1;
        }
        assert(monitors@.subrange(0, monitors@.len() as int) =~= monitors@);
        proof {
            law_span_covers_rects(rects@);
        }
        let s = span(&rects);
        let range: (Point, Point) = ([s.0, s.1], [s.2, s.3]);
        // Ensure order of monitors is top to bottom followed by left to right.
        let order = origin_order(&origins);
        let mut sort_monitors: Vec<MonitorInfo> = Vec::new();
        let mut k: usize = 0;
        while k < order.len()
            invariant
                k <= order@.len(),
                is_stable_origin_order(origins@, order_view(order@), monitors@.len() as int),
                origins@ == monitor_origins(monitors@),
                sort_monitors@ == order_view(order@).subrange(0, k as int).map_values(
                    |j: int| monitors@[j],
                ),
            decreases order@.len() - k,
        {
            assert(order_view(order@)[k as int] == order@[k as int] as int);
            sort_monitors.push(monitors[order[k]]);
            proof {
                assert(order_view(order@).subrange(0, k + 1) =~= order_view(order@).subrange(
                    0,
                    k as int,
                ).push(order@[k as int] as int));
                assert(sort_monitors@ =~= order_view(order@).subrange(0, k + 1).map_values(
                    |j: int| monitors@[j],
                ));
            }
            k += 1;
        }
        assert(order_view(order@).subrange(0, order@.len() as int) =~= order_view(order@));
        ScreenSpace { range, monitors: sort_monitors }
    }

    pub fn range(&self) -> (r: (Point, Point))
        ensures
            ((r.0[0] as int, r.0[1] as int), (r.1[0] as int, r.1[1] as int)) == self@.0,
    {
        self.range
    }

    pub fn monitors(&self) -> (m: &[MonitorInfo])
        ensures
            m@ == self@.1,
    {
        self.monitors.as_slice()
    }
}

} // verus!

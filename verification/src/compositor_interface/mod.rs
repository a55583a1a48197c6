//! Screens as the compositor reports them, and their layout.
use vstd::prelude::*;
use vstd::string::StringExecFns;
use crate::layout::{
    is_stable_origin_order, lemma_order_onto, lemma_sorted_order_is_identity, law_span_ignores_order,
    occurs_in, order_view, origin_before, origin_order, rects_fit, span, spec_span,
};

pub mod compositor_client;
pub mod shell_layers;

verus! {

pub type Pixel = i32;

/// A position on the screen array.
#[derive(Debug, Clone, Copy, Default, PartialEq, Eq, Structural)]
pub struct Point {
    pub x: i32,
    pub y: i32,
}

/// The size of a screen.
#[derive(Debug, Clone, Copy, PartialEq, Eq, Structural)]
pub struct Size {
    pub width: u32,
    pub height: u32,
}

/// Positional information for a screen.
#[derive(Debug, Clone, Copy, PartialEq, Eq, Structural)]
pub struct ScreenInfo {
    /// Size of the screen.
    pub size: Size,
    /// Position of the origin relative ot the other monitors.
    pub origin: Point,
}

/// Span of the output monitors.
#[derive(Debug, Clone, Copy, PartialEq, Eq, Structural)]
pub struct Range {
    /// Top left corner pixel of the screen array.
    pub top_left: Point,
    /// Bottom right corner pixel of the screen array.
    pub bottom_right: Point,
}

/// Information about a monitor/screen layout.
#[derive(Debug, Clone)]
pub struct ScreenSpace {
    /// The raw pixel range of the monitor layout.
    /// (top_left_corner, bottom_right_corner)
    range: Range,
    /// List of monitors sorted top to bottom, left to right.
    monitors: Vec<ScreenInfo>,
}

/// Each screen as `(x, y, width, height)`, the width and height taken as `i32`.
pub open spec fn screen_rects(monitors: Seq<ScreenInfo>) -> Seq<(i32, i32, i32, i32)> {
    monitors.map_values(
        |m: ScreenInfo| (m.origin.x, m.origin.y, m.size.width as i32, m.size.height as i32),
    )
}

/// Each screen's origin as `(x, y)`.
pub open spec fn screen_origins(monitors: Seq<ScreenInfo>) -> Seq<(i32, i32)> {
    monitors.map_values(|m: ScreenInfo| (m.origin.x, m.origin.y))
}

/// The pixel range of a layout: from the least origin (counting (0, 0)) to
/// the last pixel of the farthest screen.
pub open spec fn spec_screen_range(monitors: Seq<ScreenInfo>) -> Range {
    let s = spec_span(screen_rects(monitors));
    Range {
        top_left: Point { x: s.0 as i32, y: s.1 as i32 },
        bottom_right: Point { x: (s.2 - 1) as i32, y: (s.3 - 1) as i32 },
    }
}

/// `sorted` is `monitors` as a stable sort by origin `(y, x)` orders them.
pub open spec fn sorted_by_origin(monitors: Seq<ScreenInfo>, sorted: Seq<ScreenInfo>) -> bool {
    exists|order: Seq<int>|
        is_stable_origin_order(screen_origins(monitors), order, monitors.len() as int) && sorted
            == order.map_values(|i: int| monitors[i])
}

impl View for ScreenSpace {
    type V = (Range, Seq<ScreenInfo>);

    closed spec fn view(&self) -> (Range, Seq<ScreenInfo>) {
        (self.range, self.monitors@)
    }
}

impl ScreenSpace {
    /// The layout of `monitors`: its pixel range and the monitors sorted top
    /// to bottom, then left to right.
    pub fn from_monitors(monitors: &[ScreenInfo]) -> (space: ScreenSpace)
        requires
            rects_fit(screen_rects(monitors@)),
        ensures
            space@.0 == spec_screen_range(monitors@),
            sorted_by_origin(monitors@, space@.1),
    {
        let mut rects: Vec<(i32, i32, i32, i32)> = Vec::new();
        let mut origins: Vec<(i32, i32)> = Vec::new();
        let mut i: usize = 0;
        while i < monitors.len()
            invariant
                i <= monitors@.len(),
                rects@ == screen_rects(monitors@.subrange(0, i as int)),
                origins@ == screen_origins(monitors@.subrange(0, i as int)),
            decreases monitors@.len() - i,
        {
            let m = monitors[i];
            rects.push((m.origin.x, m.origin.y, m.size.width as i32, m.size.height as i32));
            origins.push((m.origin.x, m.origin.y));
            proof {
                assert(monitors@.subrange(0, i + 1) =~= monitors@.subrange(0, i as int).push(m));
                assert(screen_rects(monitors@.subrange(0, i + 1)) =~= rects@);
                assert(screen_origins(monitors@.subrange(0, i + 1)) =~= origins@);
            }
            i += 1;
        }
        assert(monitors@.subrange(0, monitors@.len() as int) =~= monitors@);
        proof {
            crate::layout::law_span_covers_rects(rects@);
        }
        let s = span(&rects);
        // If the screen has width W, then the last pixel is at position W - 1.
        let range = Range {
            top_left: Point { x: s.0, y: s.1 },
            bottom_right: Point { x: s.2 - 1, y: s.3 - 1 },
        };
        let order = origin_order(&origins);
        let mut sort_monitors: Vec<ScreenInfo> = Vec::new();
        let mut k: usize = 0;
        while k < order.len()
            invariant
                k <= order@.len(),
                is_stable_origin_order(origins@, order_view(order@), monitors@.len() as int),
                origins@ == screen_origins(monitors@),
                sort_monitors@ == order_view(order@).subrange(0, k as int).map_values(
                    |j: int| monitors@[j],
                ),
            decreases order@.len() - k,
        {
            assert(order_view(order@)[k as int] == order@[k as int] as int);
            sort_monitors.push(monitors[order[k]]);
            proof {
                assert(order_view(order@).subrange(0, k + 1) =~= order_view(order@).subrange(
                    0,
                    k as int,
                ).push(order@[k as int] as int));
                assert(sort_monitors@ =~= order_view(order@).subrange(0, k + 1).map_values(
                    |j: int| monitors@[j],
                ));
            }
            k += 1;
        }
        assert(order_view(order@).subrange(0, order@.len() as int) =~= order_view(order@));
        ScreenSpace { range, monitors: sort_monitors }
    }

    pub fn range(&self) -> (r: Range)
        ensures
            r == self@.0,
    {
        self.range
    }

    pub fn monitors(&self) -> (m: &[ScreenInfo])
        ensures
            m@ == self@.1,
    {
        self.monitors.as_slice()
    }
}

proof fn lemma_sorted_in_order(ms: Seq<ScreenInfo>, sorted: Seq<ScreenInfo>, resorted: Seq<ScreenInfo>)
    requires
        sorted_by_origin(ms, sorted),
        sorted_by_origin(sorted, resorted),
    ensures
        resorted == sorted,
{
    let n = ms.len() as int;
    let origins = screen_origins(ms);
    let o1 = choose|order: Seq<int>|
        is_stable_origin_order(screen_origins(ms), order, ms.len() as int) && sorted
            == order.map_values(|i: int| ms[i]);
    assert(sorted.len() == n);
    let sorted_origins = screen_origins(sorted);
    assert forall|i: int, j: int| 0 <= i < j < n implies !origin_before(
        sorted_origins[j],
        sorted_origins[i],
    ) by {
        assert(sorted_origins[j] == origins[o1[j]]);
        assert(sorted_origins[i] == origins[o1[i]]);
    }
    let o2 = choose|order: Seq<int>|
        is_stable_origin_order(screen_origins(sorted), order, sorted.len() as int) && resorted
            == order.map_values(|i: int| sorted[i]);
    lemma_sorted_order_is_identity(sorted_origins, o2, n);
    assert forall|k: int| 0 <= k < n implies resorted[k] == sorted[k] by {
        assert(o2[k] == k);
    }
    assert(resorted =~= sorted);
}

proof fn lemma_sorted_same_rects(ms: Seq<ScreenInfo>, sorted: Seq<ScreenInfo>)
    requires
        sorted_by_origin(ms, sorted),
    ensures
        occurs_in(screen_rects(sorted), screen_rects(ms)),
        occurs_in(screen_rects(ms), screen_rects(sorted)),
{
    let n = ms.len() as int;
    let origins = screen_origins(ms);
    let o1 = choose|order: Seq<int>|
        is_stable_origin_order(screen_origins(ms), order, ms.len() as int) && sorted
            == order.map_values(|i: int| ms[i]);
    let rs = screen_rects(sorted);
    let rm = screen_rects(ms);
    assert forall|k: int| 0 <= k < rs.len() implies rm.contains(#[trigger] rs[k]) by {
        assert(0 <= o1[k] < n);
        assert(rm[o1[k]] == rs[k]);
    }
    assert forall|i: int| 0 <= i < rm.len() implies rs.contains(#[trigger] rm[i]) by {
        lemma_order_onto(origins, o1, n, i);
        let k = choose|k: int| 0 <= k < n && o1[k] == i;
        assert(sorted[k] == ms[i]);
        assert(rs[k] == rm[i]);
    }
}

proof fn lemma_permutation_same_rects(ms: Seq<ScreenInfo>, p: Seq<ScreenInfo>)
    requires
        p.to_multiset() == ms.to_multiset(),
    ensures
        occurs_in(screen_rects(p), screen_rects(ms)),
        occurs_in(screen_rects(ms), screen_rects(p)),
{
    broadcast use vstd::seq_lib::group_to_multiset_ensures;

    let rp = screen_rects(p);
    let rm = screen_rects(ms);
    assert forall|k: int| 0 <= k < rp.len() implies rm.contains(#[trigger] rp[k]) by {
        assert(p.contains(p[k]));
        assert(p.to_multiset().count(p[k]) > 0);
        assert(ms.to_multiset().count(p[k]) > 0);
        assert(ms.contains(p[k]));
        let j = choose|j: int| 0 <= j < ms.len() && ms[j] == p[k];
        assert(rm[j] == rp[k]);
    }
    assert forall|i: int| 0 <= i < rm.len() implies rp.contains(#[trigger] rm[i]) by {
        assert(ms.contains(ms[i]));
        assert(ms.to_multiset().count(ms[i]) > 0);
        assert(p.to_multiset().count(ms[i]) > 0);
        assert(p.contains(ms[i]));
        let k = choose|k: int| 0 <= k < p.len() && p[k] == ms[i];
        assert(rp[k] == rm[i]);
    }
}

/// Laying out a layout's own monitors again gives the same layout, and the
/// range of a layout does not depend on the order of its monitors: the sorted
/// monitors sort to themselves, span what the monitors span, and any
/// permutation of the monitors spans the same.
pub proof fn law_layout_is_stable(
    ms: Seq<ScreenInfo>,
    sorted: Seq<ScreenInfo>,
    resorted: Seq<ScreenInfo>,
    p: Seq<ScreenInfo>,
)
    requires
        sorted_by_origin(ms, sorted),
        sorted_by_origin(sorted, resorted),
        p.to_multiset() == ms.to_multiset(),
    ensures
        resorted == sorted,
        spec_screen_range(sorted) == spec_screen_range(ms),
        spec_screen_range(p) == spec_screen_range(ms),
{
    lemma_sorted_in_order(ms, sorted, resorted);
    lemma_sorted_same_rects(ms, sorted);
    law_span_ignores_order(screen_rects(sorted), screen_rects(ms));
    lemma_permutation_same_rects(ms, p);
    law_span_ignores_order(screen_rects(p), screen_rects(ms));
}

/// Context surrounding the cursor capture error.
#[derive(Debug, PartialEq, Eq, Structural, Clone, Copy)]
pub enum CursorFetchErrCtx {
    /// The layers were not all ready when the cursor fetch was attempted. Could be that the reason
    /// why it failed was that the user was holding down click while some other layer was not ready,
    /// but as stated before, there is no absolute way to know what went wrong and this is only an approximation.
    LayerNotReady,
}

/// The name of a context entry.
pub open spec fn ctx_name(c: CursorFetchErrCtx) -> Seq<char> {
    match c {
        CursorFetchErrCtx::LayerNotReady => "LayerNotReady"@,
    }
}

/// The names of the context entries, separated by `, `.
pub open spec fn ctx_list(ctx: Seq<CursorFetchErrCtx>) -> Seq<char>
    decreases ctx.len(),
{
    if ctx.len() == 0 {
        Seq::empty()
    } else if ctx.len() == 1 {
        ctx_name(ctx[0])
    } else {
        ctx_list(ctx.drop_last()) + ", "@ + ctx_name(ctx.last())
    }
}

/// The text of a cursor fetch failure with the given context.
pub open spec fn spec_cursor_fetch_message(ctx: Seq<CursorFetchErrCtx>) -> Seq<char> {
    if ctx.len() == 0 {
        "Cursor fetch error. No extra context available, user probably held down the cursor during fetch."@
    } else {
        "Cursor fetch error with context: CursorFetchErr(["@ + ctx_list(ctx) + "])"@
    }
}

/// Represents a failed attempt at capturing the cursor. Given that there is no way to actually get
/// why the cursor wasn't captured, the best way to give info about the error is to put some context
/// around it.
#[derive(Debug)]
pub struct CursorFetchErr(Vec<CursorFetchErrCtx>);

impl CursorFetchErr {
    /// The context of the failure.
    pub closed spec fn context(&self) -> Seq<CursorFetchErrCtx> {
        self.0@
    }

    /// A failure with the given context.
    pub fn new(context: Vec<CursorFetchErrCtx>) -> (e: CursorFetchErr)
        ensures
            e.context() == context@,
    {
        CursorFetchErr(context)
    }

    /// The text of the failure: a note that no context is known, or the
    /// context as a list.
    pub fn to_string(&self) -> (text: String)
        ensures
            text@ == spec_cursor_fetch_message(self.context()),
    {
        if self.0.len() == 0 {
            return String::from_str(
                "Cursor fetch error. No extra context available, user probably held down the cursor during fetch.",
            );
        }
        let mut text = String::from_str("Cursor fetch error with context: CursorFetchErr([");
        let ghost head = text@;
        let mut i: usize = 0;
        while i < self.0.len()
            invariant
                i <= self.0@.len(),
                self.0@.len() > 0,
                text@ == head + ctx_list(self.0@.subrange(0, i as int)),
            decreases self.0@.len() - i,
        {
            let ghost before = self.0@.subrange(0, i as int);
            if i > 0 {
                text.append(", ");
            }
            match self.0[i] {
                CursorFetchErrCtx::LayerNotReady => text.append("LayerNotReady"),
            }
            proof {
                let now = self.0@.subrange(0, i + 1);
                assert(now.drop_last() =~= before);
                assert(now.last() == self.0@[i as int]);
                assert(text@ =~= head + ctx_list(now));
            }
            i += 1;
        }
        assert(self.0@.subrange(0, self.0@.len() as int) =~= self.0@);
        text.append("])");
        text
    }

    /// The context of the failure.
    pub fn context_entries(&self) -> (c: &Vec<CursorFetchErrCtx>)
        ensures
            c@ == self.context(),
    {
        &self.0
    }
}

} // verus!

//! Arranging monitors: their order top to bottom then left to right, and the
//! pixel span that they cover together.
use vstd::prelude::*;

verus! {

/// `a` comes before `b`: it is higher on the screen, or level with it and more
/// to the left. Points are `(x, y)`.
pub open spec fn origin_before(a: (i32, i32), b: (i32, i32)) -> bool {
    a.1 < b.1 || (a.1 == b.1 && a.0 < b.0)
}

/// `order` lists the indices `0..n` of `origins` each once, sorted top to
/// bottom then left to right, and items at the same origin keep their order:
/// the order that a stable sort by `(y, x)` produces.
pub open spec fn is_stable_origin_order(origins: Seq<(i32, i32)>, order: Seq<int>, n: int) -> bool {
    &&& order.len() == n
    &&& forall|i: int| 0 <= i < n ==> 0 <= #[trigger] order[i] < n
    &&& forall|i: int, j: int| 0 <= i < n && 0 <= j < n && i != j ==> order[i] != order[j]
    &&& forall|i: int, j: int|
        0 <= i < j < n ==> !origin_before(origins[#[trigger] order[j]], origins[#[trigger] order[i]])
    &&& forall|i: int, j: int|
        0 <= i < j < n && origins[#[trigger] order[i]] == origins[#[trigger] order[j]] ==> order[i]
            < order[j]
}

/// The indices as integers.
pub open spec fn order_view(order: Seq<usize>) -> Seq<int> {
    order.map_values(|i: usize| i as int)
}

/// The indices of `origins` in the order of a stable sort by `(y, x)`.
pub fn origin_order(origins: &Vec<(i32, i32)>) -> (order: Vec<usize>)
    ensures
        is_stable_origin_order(origins@, order_view(order@), origins@.len() as int),
{
    let mut order: Vec<usize> = Vec::new();
    let mut i: usize = 0;
    while i < origins.len()
        invariant
            i <= origins@.len(),
            is_stable_origin_order(origins@, order_view(order@), i as int),
        decreases origins@.len() - i,
    {
        let o = origins[i];
        let mut pos: usize = 0;
        while pos < order.len()
            invariant
                i < origins@.len(),
                o == origins@[i as int],
                order@.len() == i,
                is_stable_origin_order(origins@, order_view(order@), i as int),
                pos <= order@.len(),
                forall|k: int| 0 <= k < pos ==> !origin_before(o, #[trigger] origins@[order@[k] as int]),
            ensures
                pos <= order@.len(),
                forall|k: int| 0 <= k < pos ==> !origin_before(o, #[trigger] origins@[order@[k] as int]),
                pos < order@.len() ==> origin_before(o, origins@[order@[pos as int] as int]),
            decreases order@.len() - pos,
        {
            assert(order_view(order@)[pos as int] == order@[pos as int] as int);
            let s = origins[order[pos]];
            if o.1 < s.1 || (o.1 == s.1 && o.0 < s.0) {
                break;
            }
            pos += 1;
        }
        let ghost old_order = order_view(order@);
        proof {
            assert(forall|k: int| 0 <= k < i ==> 0 <= #[trigger] old_order[k] < i);
        }
        order.insert(pos, i);
        proof {
            let q = order_view(order@);
            let n = (i + 1) as int;
            assert(q.len() == n);
            assert forall|k: int| 0 <= k < n implies (k < pos ==> q[k] == old_order[k]) && (k
                == pos ==> q[k] == i) && (k > pos ==> q[k] == old_order[k - 1]) by {}
            assert forall|k: int| 0 <= k < n implies 0 <= #[trigger] q[k] < n by {
                if k < pos {
                    assert(q[k] == old_order[k]);
                } else if k > pos {
                    assert(q[k] == old_order[k - 1]);
                }
            }
            assert forall|a: int, b: int| 0 <= a < n && 0 <= b < n && a != b implies q[a] != q[b] by {
                if a != pos && b != pos {
                    let a2 = if a < pos { a } else { a - 1 };
                    let b2 = if b < pos { b } else { b - 1 };
                    assert(q[a] == old_order[a2]);
                    assert(q[b] == old_order[b2]);
                } else if a == pos {
                    let b2 = if b < pos { b } else { b - 1 };
                    assert(q[b] == old_order[b2]);
                    assert(old_order[b2] < i);
                } else {
                    let a2 = if a < pos { a } else { a - 1 };
                    assert(q[a] == old_order[a2]);
                    assert(old_order[a2] < i);
                }
            }
            assert forall|a: int, b: int| 0 <= a < b < n implies !origin_before(
                origins@[#[trigger] q[b]],
                origins@[#[trigger] q[a]],
            ) by {
                if a != pos && b != pos {
                    let a2 = if a < pos { a } else { a - 1 };
                    let b2 = if b < pos { b } else { b - 1 };
                    assert(q[a] == old_order[a2]);
                    assert(q[b] == old_order[b2]);
                    assert(!origin_before(origins@[old_order[b2]], origins@[old_order[a2]]));
                } else if a == pos {
                    // b > pos: the element that was first after the inserted one
                    let b2 = b - 1;
                    assert(q[b] == old_order[b2]);
                    assert(origin_before(o, origins@[old_order[pos as int]]));
                    if b2 > pos {
                        assert(!origin_before(origins@[old_order[b2]], origins@[old_order[pos as int]]));
                    }
                } else {
                    // a < pos == b
                    assert(q[a] == old_order[a]);
                    assert(!origin_before(o, origins@[order@[a] as int]));
                }
            }
            assert forall|a: int, b: int|
                0 <= a < b < n && origins@[#[trigger] q[a]] == origins@[#[trigger] q[b]] implies q[a]
                < q[b] by {
                if a != pos && b != pos {
                    let a2 = if a < pos { a } else { a - 1 };
                    let b2 = if b < pos { b } else { b - 1 };
                    assert(q[a] == old_order[a2]);
                    assert(q[b] == old_order[b2]);
                } else if a == pos {
                    let b2 = b - 1;
                    assert(q[b] == old_order[b2]);
                    assert(origin_before(o, origins@[old_order[pos as int]]));
                    if b2 > pos {
                        assert(!origin_before(origins@[old_order[b2]], origins@[old_order[pos as int]]));
                    }
                } else {
                    assert(q[a] == old_order[a]);
                    assert(old_order[a] < i);
                }
            }
        }
        i += 1;
    }
    order
}

/// The pixel span of the rectangles `(x, y, width, height)` together with the
/// origin: `(least x, least y, greatest x + width, greatest y + height)`.
pub open spec fn spec_span(rects: Seq<(i32, i32, i32, i32)>) -> (int, int, int, int)
    decreases rects.len(),
{
    if rects.len() == 0 {
        (0, 0, 0, 0)
    } else {
        let s = spec_span(rects.drop_last());
        let r = rects.last();
        (
            if r.0 < s.0 { r.0 as int } else { s.0 },
            if r.1 < s.1 { r.1 as int } else { s.1 },
            if r.0 + r.2 > s.2 { r.0 + r.2 } else { s.2 },
            if r.1 + r.3 > s.3 { r.1 + r.3 } else { s.3 },
        )
    }
}

/// The far corner of every rectangle is a valid `i32`.
pub open spec fn rects_fit(rects: Seq<(i32, i32, i32, i32)>) -> bool {
    forall|i: int|
        0 <= i < rects.len() ==> i32::MIN <= #[trigger] rects[i].0 + rects[i].2 <= i32::MAX && i32::MIN
            <= rects[i].1 + rects[i].3 <= i32::MAX
}

proof fn lemma_span_bounds(rects: Seq<(i32, i32, i32, i32)>)
    requires
        rects_fit(rects),
    ensures
        i32::MIN <= spec_span(rects).0 <= 0,
        i32::MIN <= spec_span(rects).1 <= 0,
        0 <= spec_span(rects).2 <= i32::MAX,
        0 <= spec_span(rects).3 <= i32::MAX,
        forall|i: int|
            0 <= i < rects.len() ==> spec_span(rects).0 <= #[trigger] rects[i].0 && spec_span(rects).1
                <= rects[i].1 && rects[i].0 + rects[i].2 <= spec_span(rects).2 && rects[i].1
                + rects[i].3 <= spec_span(rects).3,
    decreases rects.len(),
{
    if rects.len() > 0 {
        let init = rects.drop_last();
        assert forall|i: int| 0 <= i < init.len() implies i32::MIN <= #[trigger] init[i].0 + init[i].2
            <= i32::MAX && i32::MIN <= init[i].1 + init[i].3 <= i32::MAX by {
            assert(init[i] == rects[i]);
        }
        lemma_span_bounds(init);
        assert forall|i: int| 0 <= i < rects.len() implies spec_span(rects).0 <= #[trigger] rects[i].0
            && spec_span(rects).1 <= rects[i].1 && rects[i].0 + rects[i].2 <= spec_span(rects).2
            && rects[i].1 + rects[i].3 <= spec_span(rects).3 by {
            if i < init.len() {
                assert(init[i] == rects[i]);
            }
        }
    }
}

/// The span of the rectangles, as `spec_span` gives it.
pub fn span(rects: &Vec<(i32, i32, i32, i32)>) -> (s: (i32, i32, i32, i32))
    requires
        rects_fit(rects@),
    ensures
        (s.0 as int, s.1 as int, s.2 as int, s.3 as int) == spec_span(rects@),
{
    let mut s: (i32, i32, i32, i32) = (0, 0, 0, 0);
    let mut i: usize = 0;
    while i < rects.len()
        invariant
            i <= rects@.len(),
            rects_fit(rects@),
            (s.0 as int, s.1 as int, s.2 as int, s.3 as int) == spec_span(rects@.subrange(0, i as int)),
        decreases rects@.len() - i,
    {
        let r = rects[i];
        proof {
            assert(rects@.subrange(0, i + 1).drop_last() =~= rects@.subrange(0, i as int));
            assert(rects@.subrange(0, i + 1).last() == r);
            assert(i32::MIN <= rects@[i as int].0 + rects@[i as int].2 <= i32::MAX);
        }
        let right = r.0 + r.2;
        let bottom = r.1 + r.3;
        s = (
            if r.0 < s.0 { r.0 } else { s.0 },
            if r.1 < s.1 { r.1 } else { s.1 },
            if right > s.2 { right } else { s.2 },
            if bottom > s.3 { bottom } else { s.3 },
        );
        i += 1;
    }
    assert(rects@.subrange(0, rects@.len() as int) =~= rects@);
    s
}

/// Together with the origin, the span covers every rectangle: its least
/// corner is at or before each rectangle's origin, its far corner at or past
/// each rectangle's far corner, and it stays within `i32`.
pub proof fn law_span_covers_rects(rects: Seq<(i32, i32, i32, i32)>)
    requires
        rects_fit(rects),
    ensures
        spec_span(rects).0 <= 0 && spec_span(rects).1 <= 0,
        spec_span(rects).2 >= 0 && spec_span(rects).3 >= 0,
        spec_span(rects).0 >= i32::MIN && spec_span(rects).3 <= i32::MAX,
        forall|i: int|
            0 <= i < rects.len() ==> spec_span(rects).0 <= #[trigger] rects[i].0 && spec_span(rects).1
                <= rects[i].1 && rects[i].0 + rects[i].2 <= spec_span(rects).2 && rects[i].1
                + rects[i].3 <= spec_span(rects).3,
{
    lemma_span_bounds(rects);
}

/// Each rectangle of `a` occurs in `b`.
pub open spec fn occurs_in(a: Seq<(i32, i32, i32, i32)>, b: Seq<(i32, i32, i32, i32)>) -> bool {
    forall|i: int| 0 <= i < a.len() ==> b.contains(#[trigger] a[i])
}

/// The span is bounded by each rectangle and by the origin, and each of its
/// coordinates is the origin's or one rectangle's.
proof fn lemma_span_attained(rects: Seq<(i32, i32, i32, i32)>)
    ensures
        spec_span(rects).0 <= 0 && spec_span(rects).1 <= 0,
        spec_span(rects).2 >= 0 && spec_span(rects).3 >= 0,
        forall|i: int|
            0 <= i < rects.len() ==> spec_span(rects).0 <= #[trigger] rects[i].0 && spec_span(rects).1
                <= rects[i].1 && rects[i].0 + rects[i].2 <= spec_span(rects).2 && rects[i].1
                + rects[i].3 <= spec_span(rects).3,
        spec_span(rects).0 == 0 || exists|i: int|
            0 <= i < rects.len() && spec_span(rects).0 == #[trigger] rects[i].0,
        spec_span(rects).1 == 0 || exists|i: int|
            0 <= i < rects.len() && spec_span(rects).1 == #[trigger] rects[i].1,
        spec_span(rects).2 == 0 || exists|i: int|
            0 <= i < rects.len() && spec_span(rects).2 == #[trigger] rects[i].0 + rects[i].2,
        spec_span(rects).3 == 0 || exists|i: int|
            0 <= i < rects.len() && spec_span(rects).3 == #[trigger] rects[i].1 + rects[i].3,
    decreases rects.len(),
{
    if rects.len() > 0 {
        let init = rects.drop_last();
        let n = rects.len() - 1;
        lemma_span_attained(init);
        assert(rects.last() == rects[n]);
        assert forall|i: int| 0 <= i < rects.len() implies spec_span(rects).0 <= #[trigger] rects[i].0
            && spec_span(rects).1 <= rects[i].1 && rects[i].0 + rects[i].2 <= spec_span(rects).2
            && rects[i].1 + rects[i].3 <= spec_span(rects).3 by {
            if i < n {
                assert(init[i] == rects[i]);
            }
        }
        if spec_span(rects).0 != 0 && spec_span(rects).0 != rects[n].0 {
            let k = choose|k: int| 0 <= k < init.len() && spec_span(init).0 == #[trigger] init[k].0;
            assert(init[k] == rects[k]);
        }
        if spec_span(rects).1 != 0 && spec_span(rects).1 != rects[n].1 {
            let k = choose|k: int| 0 <= k < init.len() && spec_span(init).1 == #[trigger] init[k].1;
            assert(init[k] == rects[k]);
        }
        if spec_span(rects).2 != 0 && spec_span(rects).2 != rects[n].0 + rects[n].2 {
            let k = choose|k: int|
                0 <= k < init.len() && spec_span(init).2 == #[trigger] init[k].0 + init[k].2;
            assert(init[k] == rects[k]);
        }
        if spec_span(rects).3 != 0 && spec_span(rects).3 != rects[n].1 + rects[n].3 {
            let k = choose|k: int|
                0 <= k < init.len() && spec_span(init).3 == #[trigger] init[k].1 + init[k].3;
            assert(init[k] == rects[k]);
        }
    }
}

proof fn lemma_span_below(a: Seq<(i32, i32, i32, i32)>, b: Seq<(i32, i32, i32, i32)>)
    requires
        occurs_in(b, a),
    ensures
        spec_span(a).0 <= spec_span(b).0,
        spec_span(a).1 <= spec_span(b).1,
        spec_span(a).2 >= spec_span(b).2,
        spec_span(a).3 >= spec_span(b).3,
{
    lemma_span_attained(a);
    lemma_span_attained(b);
    if spec_span(b).0 != 0 {
        let k = choose|k: int| 0 <= k < b.len() && spec_span(b).0 == #[trigger] b[k].0;
        assert(a.contains(b[k]));
        let j = choose|j: int| 0 <= j < a.len() && a[j] == b[k];
        assert(spec_span(a).0 <= a[j].0);
    }
    if spec_span(b).1 != 0 {
        let k = choose|k: int| 0 <= k < b.len() && spec_span(b).1 == #[trigger] b[k].1;
        assert(a.contains(b[k]));
        let j = choose|j: int| 0 <= j < a.len() && a[j] == b[k];
        assert(spec_span(a).0 <= a[j].0);
        assert(spec_span(a).1 <= a[j].1);
    }
    if spec_span(b).2 != 0 {
        let k = choose|k: int| 0 <= k < b.len() && spec_span(b).2 == #[trigger] b[k].0 + b[k].2;
        assert(a.contains(b[k]));
        let j = choose|j: int| 0 <= j < a.len() && a[j] == b[k];
        assert(a[j].0 + a[j].2 <= spec_span(a).2);
    }
    if spec_span(b).3 != 0 {
        let k = choose|k: int| 0 <= k < b.len() && spec_span(b).3 == #[trigger] b[k].1 + b[k].3;
        assert(a.contains(b[k]));
        let j = choose|j: int| 0 <= j < a.len() && a[j] == b[k];
        assert(spec_span(a).0 <= a[j].0);
        assert(a[j].1 + a[j].3 <= spec_span(a).3);
    }
}

/// The span depends on which rectangles there are, not on their order or
/// how often each occurs.
pub proof fn law_span_ignores_order(a: Seq<(i32, i32, i32, i32)>, b: Seq<(i32, i32, i32, i32)>)
    requires
        occurs_in(a, b),
        occurs_in(b, a),
    ensures
        spec_span(a) == spec_span(b),
{
    lemma_span_below(a, b);
    lemma_span_below(b, a);
}

/// A stable origin order lists every index.
pub(crate) proof fn lemma_order_onto(origins: Seq<(i32, i32)>, order: Seq<int>, n: int, i: int)
    requires
        is_stable_origin_order(origins, order, n),
        0 <= i < n,
    ensures
        exists|k: int| 0 <= k < n && order[k] == i,
{
    let pos = vstd::set_lib::set_int_range(0, n);
    let f = |k: int| order[k];
    vstd::set_lib::lemma_int_range(0, n);
    let vals = pos.map(f);
    assert(vstd::relations::injective_on(f, pos)) by {
        assert forall|x: int, y: int| pos.contains(x) && pos.contains(y) && #[trigger] f(x) == #[trigger] f(y)
            implies x == y by {
            if x != y {
                assert(order[x] != order[y]);
            }
        }
    }
    vstd::set_lib::lemma_map_size(pos, vals, f);
    assert(vals.subset_of(pos)) by {
        assert forall|v: int| vals.contains(v) implies pos.contains(v) by {
            let k = choose|k: int| pos.contains(k) && f(k) == v;
            assert(0 <= order[k] < n);
        }
    }
    vstd::set_lib::lemma_subset_equality(vals, pos);
    assert(pos.contains(i));
    assert(vals.contains(i));
    let k = choose|k: int| pos.contains(k) && f(k) == i;
    assert(order[k] == i);
}

/// Origins that are already sorted by `(y, x)` have only one stable order:
/// the identity.
pub(crate) proof fn lemma_sorted_order_is_identity(origins: Seq<(i32, i32)>, order: Seq<int>, n: int)
    requires
        n == origins.len(),
        is_stable_origin_order(origins, order, n),
        forall|i: int, j: int| 0 <= i < j < n ==> !origin_before(origins[j], origins[i]),
    ensures
        forall|k: int| 0 <= k < n ==> order[k] == k,
{
    assert forall|k: int| 0 <= k < n implies order[k] == k by {
        lemma_identity_upto(origins, order, n, k);
    }
}

proof fn lemma_identity_upto(origins: Seq<(i32, i32)>, order: Seq<int>, n: int, k: int)
    requires
        n == origins.len(),
        is_stable_origin_order(origins, order, n),
        forall|i: int, j: int| 0 <= i < j < n ==> !origin_before(origins[j], origins[i]),
        0 <= k < n,
    ensures
        order[k] == k,
    decreases k,
{
    assert forall|k2: int| 0 <= k2 < k implies order[k2] == k2 by {
        lemma_identity_upto(origins, order, n, k2);
    }
    let m = order[k];
    if m != k {
        // No earlier position holds `m` or `k`, so `m` is past `k` and `k` is later.
        assert(m >= k) by {
            if m < k {
                assert(order[m] == m);
                assert(order[m] == order[k]);
            }
        }
        lemma_order_onto(origins, order, n, k);
        let p = choose|p: int| 0 <= p < n && order[p] == k;
        assert(p > k) by {
            if p < k {
                assert(order[p] == p);
            }
        }
        // The output is sorted: origins[k] is not before origins[m].
        assert(!origin_before(origins[order[p]], origins[order[k]]));
        // The input is sorted: origins[m] is not before origins[k].
        assert(!origin_before(origins[m], origins[k]));
        assert(origins[order[k]] == origins[order[p]]);
        assert(order[k] < order[p]);
    }
}

} // verus!

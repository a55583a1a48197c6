//! Relative mouse motion accumulated per axis between two emulated mouse polls.
use vstd::prelude::*;
use crate::codes::RelativeAxisCode;
use crate::input::{MouseAction, MouseRelAction};

verus! {

/// Whether `axis` has an entry in `entries`.
pub open spec fn has_axis(entries: Seq<(RelativeAxisCode, i32)>, axis: RelativeAxisCode) -> bool {
    exists|i: int| 0 <= i < entries.len() && entries[i].0 == axis
}

/// Each axis has at most one entry.
pub open spec fn axes_distinct(entries: Seq<(RelativeAxisCode, i32)>) -> bool {
    forall|i: int, j: int|
        0 <= i < entries.len() && 0 <= j < entries.len() && i != j ==> entries[i].0 != entries[j].0
}

/// The total of `axis` (0 when it has no entry yet).
pub open spec fn total_of(entries: Seq<(RelativeAxisCode, i32)>, axis: RelativeAxisCode) -> int {
    if has_axis(entries, axis) {
        entries[choose|i: int| 0 <= i < entries.len() && entries[i].0 == axis].1 as int
    } else {
        0
    }
}

/// The entries after `value` is added to the total of `axis`: an existing
/// entry is updated in place, a new axis is appended.
pub open spec fn spec_add_motion(
    entries: Seq<(RelativeAxisCode, i32)>,
    axis: RelativeAxisCode,
    value: i32,
) -> Seq<(RelativeAxisCode, i32)> {
    if has_axis(entries, axis) {
        let i = choose|i: int| 0 <= i < entries.len() && entries[i].0 == axis;
        entries.update(i, (axis, (entries[i].1 + value) as i32))
    } else {
        entries.push((axis, value))
    }
}

/// Adding `value` to the total of `axis` stays within `i32`.
pub open spec fn motion_fits(
    entries: Seq<(RelativeAxisCode, i32)>,
    axis: RelativeAxisCode,
    value: i32,
) -> bool {
    i32::MIN <= total_of(entries, axis) + value <= i32::MAX
}

/// The relative motions of `actions` added in order, and the other actions, in order.
pub open spec fn spec_accumulate(
    entries: Seq<(RelativeAxisCode, i32)>,
    actions: Seq<MouseAction>,
) -> (Seq<(RelativeAxisCode, i32)>, Seq<MouseAction>)
    decreases actions.len(),
{
    if actions.len() == 0 {
        (entries, Seq::empty())
    } else {
        let (e, kept) = spec_accumulate(entries, actions.drop_last());
        match actions.last() {
            MouseAction::Rel(r) => (spec_add_motion(e, r.axis, r.value), kept),
            other => (e, kept.push(other)),
        }
    }
}

/// Every partial total reached while accumulating `actions` stays within `i32`.
pub open spec fn accumulation_fits(
    entries: Seq<(RelativeAxisCode, i32)>,
    actions: Seq<MouseAction>,
) -> bool
    decreases actions.len(),
{
    if actions.len() == 0 {
        true
    } else {
        accumulation_fits(entries, actions.drop_last()) && match actions.last() {
            MouseAction::Rel(r) => motion_fits(
                spec_accumulate(entries, actions.drop_last()).0,
                r.axis,
                r.value,
            ),
            _ => true,
        }
    }
}

/// The relative mouse actions that the entries stand for, in entry order.
pub open spec fn totals_as_actions(entries: Seq<(RelativeAxisCode, i32)>) -> Seq<MouseAction> {
    entries.map_values(
        |e: (RelativeAxisCode, i32)| MouseAction::Rel(MouseRelAction { axis: e.0, value: e.1 }),
    )
}

/// Accumulated relative motion, one total per axis, axes in order of first motion.
#[derive(Debug)]
pub struct AxisTotals {
    entries: Vec<(RelativeAxisCode, i32)>,
}

impl AxisTotals {
    /// The totals, in order of the axes' first motion.
    pub closed spec fn entries(&self) -> Seq<(RelativeAxisCode, i32)> {
        self.entries@
    }

    /// Each axis has one total.
    pub open spec fn wf(&self) -> bool {
        axes_distinct(self.entries())
    }

    /// No motion yet.
    pub fn new() -> (t: AxisTotals)
        ensures
            t.wf(),
            t.entries() == Seq::<(RelativeAxisCode, i32)>::empty(),
    {
        AxisTotals { entries: Vec::new() }
    }

    /// Adds `value` to the total of `axis`.
    pub fn add(&mut self, axis: RelativeAxisCode, value: i32)
        requires
            old(self).wf(),
            motion_fits(old(self).entries(), axis, value),
        ensures
            final(self).wf(),
            final(self).entries() == spec_add_motion(old(self).entries(), axis, value),
    {
        let mut i: usize = 0;
        while i < self.entries.len()
            invariant
                i <= self.entries@.len(),
                self.entries@ == old(self).entries@,
                axes_distinct(self.entries@),
                motion_fits(self.entries@, axis, value),
                forall|j: int| 0 <= j < i ==> self.entries@[j].0 != axis,
            decreases self.entries@.len() - i,
        {
            if self.entries[i].0 == axis {
                proof {
                    let k = choose|k: int| 0 <= k < self.entries@.len() && self.entries@[k].0 == axis;
                    assert(k == i);
                }
                let total = self.entries[i].1 + value;
                self.entries.set(i, (axis, total));
                proof {
                    assert forall|a: int, b: int|
                        0 <= a < self.entries@.len() && 0 <= b < self.entries@.len() && a != b
                        implies self.entries@[a].0 != self.entries@[b].0 by {
                        assert(old(self).entries@[a].0 == self.entries@[a].0);
                        assert(old(self).entries@[b].0 == self.entries@[b].0);
                    }
                }
                return;
            }
            i += 1;
        }
        self.entries.push((axis, value));
        proof {
            assert(!has_axis(old(self).entries@, axis));
            assert forall|a: int, b: int|
                0 <= a < self.entries@.len() && 0 <= b < self.entries@.len() && a != b
                implies self.entries@[a].0 != self.entries@[b].0 by {
                if a < old(self).entries@.len() && b < old(self).entries@.len() {
                } else if a < old(self).entries@.len() {
                    assert(old(self).entries@[a].0 != axis);
                } else if b < old(self).entries@.len() {
                    assert(old(self).entries@[b].0 != axis);
                }
            }
        }
    }

    /// The total of `axis` (0 when it has no motion yet).
    fn total(&self, axis: RelativeAxisCode) -> (t: i32)
        requires
            self.wf(),
        ensures
            t as int == total_of(self.entries(), axis),
    {
        let mut i: usize = 0;
        while i < self.entries.len()
            invariant
                i <= self.entries@.len(),
                self.wf(),
                forall|j: int| 0 <= j < i ==> self.entries@[j].0 != axis,
            decreases self.entries@.len() - i,
        {
            if self.entries[i].0 == axis {
                proof {
                    lemma_total_at(self.entries@, i as int);
                }
                return self.entries[i].1;
            }
            i += 1;
        }
        0
    }

    /// Whether the relative motion of `actions` can be added to the totals, in
    /// order, with every total staying within `i32`.
    pub fn can_accumulate(&self, actions: &Vec<MouseAction>) -> (b: bool)
        requires
            self.wf(),
        ensures
            b == accumulation_fits(self.entries(), actions@),
    {
        let mut sim = AxisTotals { entries: Vec::new() };
        let mut k: usize = 0;
        while k < self.entries.len()
            invariant
                k <= self.entries@.len(),
                sim.entries@ == self.entries@.subrange(0, k as int),
            decreases self.entries@.len() - k,
        {
            sim.entries.push(self.entries[k]);
            proof {
                assert(sim.entries@ =~= self.entries@.subrange(0, k + 1));
            }
            k += 1;
        }
        assert(sim.entries@ =~= self.entries@);
        let ghost all = actions@;
        let mut i: usize = 0;
        while i < actions.len()
            invariant
                i <= all.len(),
                all == actions@,
                sim.wf(),
                sim.entries() == spec_accumulate(self.entries(), all.subrange(0, i as int)).0,
                accumulation_fits(self.entries(), all.subrange(0, i as int)),
            decreases all.len() - i,
        {
            proof {
                assert(all.subrange(0, i + 1).drop_last() =~= all.subrange(0, i as int));
            }
            match actions[i] {
                MouseAction::Rel(r) => {
                    let t = sim.total(r.axis);
                    let sum: i64 = t as i64 + r.value as i64;
                    if sum < -0x8000_0000i64 || sum > 0x7fff_ffffi64 {
                        proof {
                            if accumulation_fits(self.entries(), all) {
                                lemma_fits_prefix(self.entries(), all, i + 1);
                            }
                        }
                        return false;
                    }
                    sim.add(r.axis, r.value);
                },
                _ => {},
            }
            i += 1;
        }
        assert(all.subrange(0, all.len() as int) =~= all);
        true
    }

    /// Empties the totals and hands them out as relative mouse actions, in
    /// order of the axes' first motion.
    pub fn drain(&mut self) -> (actions: Vec<MouseAction>)
        ensures
            final(self).wf(),
            final(self).entries() == Seq::<(RelativeAxisCode, i32)>::empty(),
            actions@ == totals_as_actions(old(self).entries()),
    {
        let mut actions: Vec<MouseAction> = Vec::new();
        let mut i: usize = 0;
        while i < self.entries.len()
            invariant
                i <= self.entries@.len(),
                self.entries@ == old(self).entries@,
                actions@ == totals_as_actions(self.entries@.subrange(0, i as int)),
            decreases self.entries@.len() - i,
        {
            let (axis, value) = self.entries[i];
            actions.push(MouseAction::Rel(MouseRelAction { axis, value }));
            proof {
                assert(totals_as_actions(self.entries@.subrange(0, i + 1)) =~= totals_as_actions(
                    self.entries@.subrange(0, i as int),
                ).push(MouseAction::Rel(MouseRelAction { axis, value })));
            }
            i += 1;
        }
        assert(self.entries@.subrange(0, self.entries@.len() as int) =~= self.entries@);
        self.entries = Vec::new();
        actions
    }
}

/// Moves the relative motions of `mouse_actions` into `totals` and keeps the
/// other actions, in order.
pub fn accumulate_relative(totals: &mut AxisTotals, mouse_actions: &mut Vec<MouseAction>)
    requires
        old(totals).wf(),
        accumulation_fits(old(totals).entries(), old(mouse_actions)@),
    ensures
        final(totals).wf(),
        (final(totals).entries(), final(mouse_actions)@) == spec_accumulate(
            old(totals).entries(),
            old(mouse_actions)@,
        ),
{
    let mut non_rel_mouse_actions: Vec<MouseAction> = Vec::new();
    let ghost all = mouse_actions@;
    let mut i: usize = 0;
    while i < mouse_actions.len()
        invariant
            i <= mouse_actions@.len(),
            mouse_actions@ == all,
            all == old(mouse_actions)@,
            totals.wf(),
            accumulation_fits(old(totals).entries(), all),
            (totals.entries(), non_rel_mouse_actions@) == spec_accumulate(
                old(totals).entries(),
                all.subrange(0, i as int),
            ),
        decreases mouse_actions@.len() - i,
    {
        proof {
            assert(all.subrange(0, i + 1).drop_last() =~= all.subrange(0, i as int));
            lemma_fits_prefix(old(totals).entries(), all, i + 1);
        }
        match mouse_actions[i] {
            MouseAction::Rel(mouse_rel_action) => {
                totals.add(mouse_rel_action.axis, mouse_rel_action.value);
            },
            other => {
                non_rel_mouse_actions.push(other);
            },
        }
        i += 1;
    }
    assert(all.subrange(0, all.len() as int) =~= all);
    *mouse_actions = non_rel_mouse_actions;
}

proof fn lemma_fits_prefix(entries: Seq<(RelativeAxisCode, i32)>, actions: Seq<MouseAction>, n: int)
    requires
        0 <= n <= actions.len(),
        accumulation_fits(entries, actions),
    ensures
        accumulation_fits(entries, actions.subrange(0, n)),
    decreases actions.len() - n,
{
    if n < actions.len() {
        lemma_fits_prefix(entries, actions, n + 1);
        assert(actions.subrange(0, n + 1).drop_last() =~= actions.subrange(0, n));
    } else {
        assert(actions.subrange(0, n) =~= actions);
    }
}

/// The sum of the relative motion of `actions` along `axis`.
pub open spec fn sum_motion(actions: Seq<MouseAction>, axis: RelativeAxisCode) -> int
    decreases actions.len(),
{
    if actions.len() == 0 {
        0
    } else {
        sum_motion(actions.drop_last(), axis) + match actions.last() {
            MouseAction::Rel(r) => if r.axis == axis {
                r.value as int
            } else {
                0
            },
            _ => 0,
        }
    }
}

proof fn lemma_total_at(entries: Seq<(RelativeAxisCode, i32)>, i: int)
    requires
        axes_distinct(entries),
        0 <= i < entries.len(),
    ensures
        has_axis(entries, entries[i].0),
        total_of(entries, entries[i].0) == entries[i].1,
{
    let k = choose|k: int| 0 <= k < entries.len() && entries[k].0 == entries[i].0;
    assert(k == i);
}

proof fn lemma_add_motion(
    entries: Seq<(RelativeAxisCode, i32)>,
    axis: RelativeAxisCode,
    value: i32,
    other: RelativeAxisCode,
)
    requires
        axes_distinct(entries),
        motion_fits(entries, axis, value),
    ensures
        axes_distinct(spec_add_motion(entries, axis, value)),
        total_of(spec_add_motion(entries, axis, value), other) == total_of(entries, other) + (if other
            == axis {
            value as int
        } else {
            0
        }),
{
    let e2 = spec_add_motion(entries, axis, value);
    if has_axis(entries, axis) {
        let i = choose|i: int| 0 <= i < entries.len() && entries[i].0 == axis;
        lemma_total_at(entries, i);
        assert(e2 == entries.update(i, (axis, (entries[i].1 + value) as i32)));
        assert forall|a: int, b: int| 0 <= a < e2.len() && 0 <= b < e2.len() && a != b implies e2[a].0
            != e2[b].0 by {
            assert(e2[a].0 == entries[a].0);
            assert(e2[b].0 == entries[b].0);
        }
        lemma_total_at(e2, i);
        if other != axis {
            if has_axis(entries, other) {
                let k = choose|k: int| 0 <= k < entries.len() && entries[k].0 == other;
                lemma_total_at(entries, k);
                assert(e2[k] == entries[k]);
                lemma_total_at(e2, k);
            } else {
                assert(!has_axis(e2, other)) by {
                    if has_axis(e2, other) {
                        let k = choose|k: int| 0 <= k < e2.len() && e2[k].0 == other;
                        assert(entries[k].0 == other);
                    }
                }
            }
        }
    } else {
        assert(e2 == entries.push((axis, value)));
        assert forall|a: int, b: int| 0 <= a < e2.len() && 0 <= b < e2.len() && a != b implies e2[a].0
            != e2[b].0 by {
            if a < entries.len() && b < entries.len() {
                assert(e2[a] == entries[a]);
                assert(e2[b] == entries[b]);
            } else if a < entries.len() {
                assert(e2[a] == entries[a]);
            } else {
                assert(e2[b] == entries[b]);
            }
        }
        lemma_total_at(e2, entries.len() as int);
        if other != axis {
            if has_axis(entries, other) {
                let k = choose|k: int| 0 <= k < entries.len() && entries[k].0 == other;
                lemma_total_at(entries, k);
                assert(e2[k] == entries[k]);
                lemma_total_at(e2, k);
            } else {
                assert(!has_axis(e2, other)) by {
                    if has_axis(e2, other) {
                        let k = choose|k: int| 0 <= k < e2.len() && e2[k].0 == other;
                        if k < entries.len() {
                            assert(entries[k].0 == other);
                        }
                    }
                }
            }
        }
    }
}

/// Accumulating relative motion loses none: along each axis the new total is
/// the old total plus the motion of the actions along it, each axis keeps one
/// total, and the actions that are no relative motion are kept in order.
pub proof fn law_accumulation_keeps_motion(
    entries: Seq<(RelativeAxisCode, i32)>,
    actions: Seq<MouseAction>,
    axis: RelativeAxisCode,
)
    requires
        axes_distinct(entries),
        accumulation_fits(entries, actions),
    ensures
        axes_distinct(spec_accumulate(entries, actions).0),
        total_of(spec_accumulate(entries, actions).0, axis) == total_of(entries, axis) + sum_motion(
            actions,
            axis,
        ),
        forall|i: int|
            0 <= i < spec_accumulate(entries, actions).1.len() ==> !(#[trigger] spec_accumulate(
                entries,
                actions,
            ).1[i] is Rel),
    decreases actions.len(),
{
    if actions.len() > 0 {
        law_accumulation_keeps_motion(entries, actions.drop_last(), axis);
        let (e, kept) = spec_accumulate(entries, actions.drop_last());
        match actions.last() {
            MouseAction::Rel(r) => {
                lemma_add_motion(e, r.axis, r.value, axis);
            },
            other => {
                assert forall|i: int| 0 <= i < kept.push(other).len() implies !(#[trigger] kept.push(
                    other,
                )[i] is Rel) by {
                    if i < kept.len() {
                        assert(kept.push(other)[i] == kept[i]);
                    }
                }
            },
        }
    }
}

} // verus!

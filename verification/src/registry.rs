//! Which bars are open: one per output, in output-name order, each primary
//! or reduced. Reconciling with a new set of bar specs says which bars to
//! close, which to draw again and which to open.
use vstd::prelude::*;

use crate::state::OutputRole;
use crate::surface::SurfaceSpec;
use crate::text::{chars_of, compare_vec, lemma_seq_lt_asym, lemma_seq_lt_irreflexive, lemma_seq_lt_total, lemma_seq_lt_trans, seq_lt};

verus! {

// ---------------------------------------------------------------------------
// Model
// ---------------------------------------------------------------------------

/// An open bar as plain values: its output and role.
pub type BarView = (Seq<char>, OutputRole);

/// An open bar.
#[derive(Clone, Debug)]
pub struct OpenBar {
    pub output: String,
    pub role: OutputRole,
}

pub open spec fn bar_view(b: OpenBar) -> BarView {
    (b.output@, b.role)
}

/// Bars in strictly increasing output-name order (so no output twice).
pub open spec fn sorted_bars(bars: Seq<BarView>) -> bool {
    forall|i: int, j: int| 0 <= i < j < bars.len() ==> seq_lt(#[trigger] bars[i].0, #[trigger] bars[j].0)
}

/// The role of the bar on `name`, if one is open.
pub open spec fn role_of(bars: Seq<BarView>, name: Seq<char>) -> Option<OutputRole>
    decreases bars.len(),
{
    if bars.len() == 0 {
        None
    } else if bars[0].0 == name {
        Some(bars[0].1)
    } else {
        role_of(bars.drop_first(), name)
    }
}

/// The position of the bar on `name`, or the count of bars when none is.
pub open spec fn index_of_bar(bars: Seq<BarView>, name: Seq<char>) -> int
    decreases bars.len(),
{
    if bars.len() == 0 {
        0
    } else if bars[0].0 == name {
        0
    } else {
        1 + index_of_bar(bars.drop_first(), name)
    }
}

/// Where a bar on `name` goes to keep the order: after the bars on smaller
/// names.
pub open spec fn insert_at(bars: Seq<BarView>, name: Seq<char>) -> int
    decreases bars.len(),
{
    if bars.len() == 0 {
        0
    } else if seq_lt(bars[0].0, name) {
        1 + insert_at(bars.drop_first(), name)
    } else {
        0
    }
}

/// A step of reconciling, as plain values: `(0, output, 0)` closes the bar
/// on `output`, `(1, _, i)` draws spec `i` on its open bar, `(2, _, i)`
/// opens a bar for spec `i`.
pub type StepView = (u8, Seq<char>, int);

/// What the bars must do.
#[derive(Clone, Debug, PartialEq, Eq)]
pub enum SurfaceStep {
    /// Close the bar on this output.
    Close(String),
    /// Draw spec `i` on the bar already open on its output.
    Render(usize),
    /// Open a bar for spec `i`.
    Create(usize),
}

pub open spec fn step_view(s: SurfaceStep) -> StepView {
    match s {
        SurfaceStep::Close(o) => (0u8, o@, 0),
        SurfaceStep::Render(i) => (1u8, Seq::empty(), i as int),
        SurfaceStep::Create(i) => (2u8, Seq::empty(), i as int),
    }
}

/// The output and role a spec asks for.
pub open spec fn wish(s: SurfaceSpec) -> (Seq<char>, OutputRole) {
    (s.output_name@, s.role)
}

/// An output is wanted when a spec names it and it has a monitor.
pub open spec fn wanted(desired: Seq<(Seq<char>, OutputRole)>, monitors: Seq<Seq<char>>, name: Seq<char>) -> bool {
    monitors.contains(name) && exists|j: int| 0 <= j < desired.len() && (#[trigger] desired[j]).0 == name
}

/// The bars that stay: those on wanted outputs.
pub open spec fn kept_bars(bars: Seq<BarView>, desired: Seq<(Seq<char>, OutputRole)>, monitors: Seq<Seq<char>>) -> Seq<
    BarView,
> {
    bars.filter(|b: BarView| wanted(desired, monitors, b.0))
}

/// Closing the bars on outputs no longer wanted, in order.
pub open spec fn stale_steps(bars: Seq<BarView>, desired: Seq<(Seq<char>, OutputRole)>, monitors: Seq<Seq<char>>) -> Seq<
    StepView,
> {
    bars.filter(|b: BarView| !wanted(desired, monitors, b.0)).map_values(|b: BarView| (0u8, b.0, 0int))
}

/// Placing the specs from `i` on, each in turn: a spec whose output has no
/// monitor is skipped; a bar of the other role is closed; then the open bar
/// is drawn again, or a new one opened in its place in the order.
pub open spec fn place(bars: Seq<BarView>, desired: Seq<(Seq<char>, OutputRole)>, monitors: Seq<Seq<char>>, i: nat) -> (
    Seq<StepView>,
    Seq<BarView>,
)
    decreases desired.len() - i,
{
    if i >= desired.len() {
        (Seq::empty(), bars)
    } else {
        let name = desired[i as int].0;
        let role = desired[i as int].1;
        if !monitors.contains(name) {
            place(bars, desired, monitors, i + 1)
        } else {
            let changed = match role_of(bars, name) {
                Some(r) => r != role,
                None => false,
            };
            let bars0 = if changed {
                bars.remove(index_of_bar(bars, name))
            } else {
                bars
            };
            let closes: Seq<StepView> = if changed {
                seq![(0u8, name, 0int)]
            } else {
                Seq::empty()
            };
            let kept = role_of(bars0, name) is Some;
            let show: StepView = if kept {
                (1u8, Seq::empty(), i as int)
            } else {
                (2u8, Seq::empty(), i as int)
            };
            let bars1 = if kept {
                bars0
            } else {
                bars0.insert(insert_at(bars0, name), (name, role))
            };
            let rest = place(bars1, desired, monitors, i + 1);
            (closes.push(show) + rest.0, rest.1)
        }
    }
}

/// The role the last spec from `i` on gives `name`, counting only specs
/// whose output has a monitor.
pub open spec fn later_role(desired: Seq<(Seq<char>, OutputRole)>, monitors: Seq<Seq<char>>, i: nat, name: Seq<char>) -> Option<
    OutputRole,
>
    decreases desired.len() - i,
{
    if i >= desired.len() {
        None
    } else {
        match later_role(desired, monitors, i + 1, name) {
            Some(r) => Some(r),
            None => if desired[i as int].0 == name && monitors.contains(name) {
                Some(desired[i as int].1)
            } else {
                None
            },
        }
    }
}

// ---------------------------------------------------------------------------
// Lemmas on sorted bars
// ---------------------------------------------------------------------------

proof fn lemma_sorted_drop_first(bars: Seq<BarView>)
    requires
        sorted_bars(bars),
        bars.len() > 0,
    ensures
        sorted_bars(bars.drop_first()),
{
    assert forall|i: int, j: int| 0 <= i < j < bars.drop_first().len() implies seq_lt(
        #[trigger] bars.drop_first()[i].0,
        #[trigger] bars.drop_first()[j].0,
    ) by {
        assert(bars.drop_first()[i] == bars[i + 1]);
        assert(bars.drop_first()[j] == bars[j + 1]);
    }
}

/// The bar on `name` is the one at its position; with none, no role.
proof fn lemma_role_of(bars: Seq<BarView>, name: Seq<char>)
    requires
        sorted_bars(bars),
    ensures
        0 <= index_of_bar(bars, name) <= bars.len(),
        index_of_bar(bars, name) < bars.len() ==> bars[index_of_bar(bars, name)].0 == name && role_of(bars, name)
            == Some(bars[index_of_bar(bars, name)].1),
        index_of_bar(bars, name) == bars.len() ==> role_of(bars, name) is None && forall|k: int|
            0 <= k < bars.len() ==> (#[trigger] bars[k]).0 != name,
        forall|k: int| 0 <= k < bars.len() && (#[trigger] bars[k]).0 == name ==> k == index_of_bar(bars, name),
    decreases bars.len(),
{
    if bars.len() > 0 {
        lemma_sorted_drop_first(bars);
        lemma_role_of(bars.drop_first(), name);
        if bars[0].0 == name {
            assert forall|k: int| 0 <= k < bars.len() && (#[trigger] bars[k]).0 == name implies k == 0 by {
                if k > 0 {
                    assert(seq_lt(bars[0].0, bars[k].0));
                    lemma_seq_lt_irreflexive(name);
                }
            }
        } else {
            assert forall|k: int| 0 <= k < bars.len() && (#[trigger] bars[k]).0 == name implies k == index_of_bar(
                bars,
                name,
            ) by {
                assert(k > 0);
                assert(bars.drop_first()[k - 1] == bars[k]);
            }
            if index_of_bar(bars, name) == bars.len() {
                assert forall|k: int| 0 <= k < bars.len() implies (#[trigger] bars[k]).0 != name by {
                    if k > 0 {
                        assert(bars.drop_first()[k - 1] == bars[k]);
                    }
                }
            } else {
                assert(bars.drop_first()[index_of_bar(bars, name) - 1] == bars[index_of_bar(bars, name)]);
            }
        }
    }
}

/// Removing a bar keeps the order and closes only that output.
proof fn lemma_remove_bar(bars: Seq<BarView>, k: int, name: Seq<char>)
    requires
        sorted_bars(bars),
        0 <= k < bars.len(),
    ensures
        sorted_bars(bars.remove(k)),
        role_of(bars.remove(k), name) == if name == bars[k].0 {
            None
        } else {
            role_of(bars, name)
        },
{
    let r = bars.remove(k);
    assert forall|i: int, j: int| 0 <= i < j < r.len() implies seq_lt(#[trigger] r[i].0, #[trigger] r[j].0) by {
        let i0 = if i < k { i } else { i + 1 };
        let j0 = if j < k { j } else { j + 1 };
        assert(r[i] == bars[i0]);
        assert(r[j] == bars[j0]);
    }
    lemma_role_of(bars, name);
    lemma_role_of(r, name);
    if index_of_bar(r, name) < r.len() {
        let m = index_of_bar(r, name);
        let m0 = if m < k { m } else { m + 1 };
        assert(r[m] == bars[m0]);
    } else {
        if index_of_bar(bars, name) < bars.len() && name != bars[k].0 {
            let m = index_of_bar(bars, name);
            let m1 = if m < k { m } else { m - 1 };
            assert(r[m1] == bars[m]);
        }
    }
}

proof fn lemma_insert_at(bars: Seq<BarView>, name: Seq<char>)
    requires
        sorted_bars(bars),
        forall|k: int| 0 <= k < bars.len() ==> (#[trigger] bars[k]).0 != name,
    ensures
        0 <= insert_at(bars, name) <= bars.len(),
        forall|k: int| 0 <= k < insert_at(bars, name) ==> seq_lt((#[trigger] bars[k]).0, name),
        forall|k: int| insert_at(bars, name) <= k < bars.len() ==> seq_lt(name, (#[trigger] bars[k]).0),
    decreases bars.len(),
{
    if bars.len() > 0 {
        lemma_sorted_drop_first(bars);
        assert forall|k: int| 0 <= k < bars.drop_first().len() implies (#[trigger] bars.drop_first()[k]).0 != name by {
            assert(bars.drop_first()[k] == bars[k + 1]);
        }
        lemma_insert_at(bars.drop_first(), name);
        if seq_lt(bars[0].0, name) {
            assert forall|k: int| 0 <= k < insert_at(bars, name) implies seq_lt((#[trigger] bars[k]).0, name) by {
                if k > 0 {
                    assert(bars.drop_first()[k - 1] == bars[k]);
                }
            }
            assert forall|k: int| insert_at(bars, name) <= k < bars.len() implies seq_lt(name, (#[trigger] bars[k]).0) by {
                assert(bars.drop_first()[k - 1] == bars[k]);
            }
        } else {
            lemma_seq_lt_total(bars[0].0, name);
            assert forall|k: int| 0 <= k < bars.len() implies seq_lt(name, (#[trigger] bars[k]).0) by {
                if k > 0 {
                    lemma_seq_lt_trans(name, bars[0].0, bars[k].0);
                }
            }
        }
    }
}

/// Opening a bar on an output without one keeps the order and gives that
/// output its role.
proof fn lemma_insert_bar(bars: Seq<BarView>, name: Seq<char>, role: OutputRole, other: Seq<char>)
    requires
        sorted_bars(bars),
        role_of(bars, name) is None,
    ensures
        sorted_bars(bars.insert(insert_at(bars, name), (name, role))),
        role_of(bars.insert(insert_at(bars, name), (name, role)), other) == if other == name {
            Some(role)
        } else {
            role_of(bars, other)
        },
{
    lemma_role_of(bars, name);
    lemma_insert_at(bars, name);
    let p = insert_at(bars, name);
    let r = bars.insert(p, (name, role));
    assert forall|i: int, j: int| 0 <= i < j < r.len() implies seq_lt(#[trigger] r[i].0, #[trigger] r[j].0) by {
        if i < p && j < p {
            assert(r[i] == bars[i] && r[j] == bars[j]);
        } else if i < p && j == p {
            assert(r[i] == bars[i]);
        } else if i < p {
            assert(r[i] == bars[i] && r[j] == bars[j - 1]);
            lemma_seq_lt_trans(bars[i].0, name, bars[j - 1].0);
        } else if i == p {
            assert(r[j] == bars[j - 1]);
        } else {
            assert(r[i] == bars[i - 1] && r[j] == bars[j - 1]);
        }
    }
    lemma_role_of(r, other);
    lemma_role_of(bars, other);
    if other == name {
        assert(r[p].0 == name);
    } else {
        if index_of_bar(bars, other) < bars.len() {
            let m = index_of_bar(bars, other);
            let m1 = if m < p { m } else { m + 1 };
            assert(r[m1] == bars[m]);
        }
        if index_of_bar(r, other) < r.len() {
            let m = index_of_bar(r, other);
            assert(m != p);
            let m0 = if m < p { m } else { m - 1 };
            assert(r[m] == bars[m0]);
        }
    }
}

/// After placing the specs from `i` on, the bars stay in order, and each
/// output has the role of its last spec from `i` on, or keeps its bar.
proof fn lemma_place(bars: Seq<BarView>, desired: Seq<(Seq<char>, OutputRole)>, monitors: Seq<Seq<char>>, i: nat)
    requires
        sorted_bars(bars),
    ensures
        sorted_bars(place(bars, desired, monitors, i).1),
        forall|n: Seq<char>| #[trigger] role_of(place(bars, desired, monitors, i).1, n) == match later_role(
            desired,
            monitors,
            i,
            n,
        ) {
            Some(r) => Some(r),
            None => role_of(bars, n),
        },
    decreases desired.len() - i,
{
    if i < desired.len() {
        let name = desired[i as int].0;
        let role = desired[i as int].1;
        if !monitors.contains(name) {
            lemma_place(bars, desired, monitors, i + 1);
        } else {
            let changed = match role_of(bars, name) {
                Some(r) => r != role,
                None => false,
            };
            lemma_role_of(bars, name);
            let bars0 = if changed {
                bars.remove(index_of_bar(bars, name))
            } else {
                bars
            };
            if changed {
                assert forall|n: Seq<char>| #[trigger] role_of(bars0, n) == if n == name {
                    None
                } else {
                    role_of(bars, n)
                } by {
                    lemma_remove_bar(bars, index_of_bar(bars, name), n);
                }
                lemma_remove_bar(bars, index_of_bar(bars, name), name);
            }
            let kept = role_of(bars0, name) is Some;
            let bars1 = if kept {
                bars0
            } else {
                bars0.insert(insert_at(bars0, name), (name, role))
            };
            if !kept {
                assert forall|n: Seq<char>| #[trigger] role_of(bars1, n) == if n == name {
                    Some(role)
                } else {
                    role_of(bars0, n)
                } by {
                    lemma_insert_bar(bars0, name, role, n);
                }
                lemma_insert_bar(bars0, name, role, name);
            }
            assert(role_of(bars1, name) == Some(role));
            lemma_place(bars1, desired, monitors, i + 1);
        }
    }
}

// ---------------------------------------------------------------------------
// The registry
// ---------------------------------------------------------------------------

/// The open bars, one per output, in output-name order.
pub struct SurfaceRegistry {
    bars: Vec<OpenBar>,
}

fn contains_name(names: &Vec<String>, name: &String) -> (r: bool)
    ensures
        r == names@.map_values(|s: String| s@).contains(name@),
{
    let ghost m = names@.map_values(|s: String| s@);
    let mut i: usize = 0;
    while i < names.len()
        invariant
            i <= names@.len(),
            m == names@.map_values(|s: String| s@),
            forall|k: int| 0 <= k < i ==> m[k] != name@,
        decreases names@.len() - i,
    {
        if names[i] == *name {
            assert(m[i as int] == name@);
            return true;
        }
        i = i + 1;
    }
    proof {
        if m.contains(name@) {
            let k = choose|k: int| 0 <= k < m.len() && m[k] == name@;
            assert(m[k] != name@);
        }
    }
    false
}

fn is_wanted(desired: &Vec<SurfaceSpec>, monitors: &Vec<String>, name: &String) -> (r: bool)
    ensures
        r == wanted(desired@.map_values(|s: SurfaceSpec| wish(s)), monitors@.map_values(|s: String| s@), name@),
{
    let ghost d = desired@.map_values(|s: SurfaceSpec| wish(s));
    if !contains_name(monitors, name) {
        return false;
    }
    let mut i: usize = 0;
    while i < desired.len()
        invariant
            i <= desired@.len(),
            d == desired@.map_values(|s: SurfaceSpec| wish(s)),
            monitors@.map_values(|s: String| s@).contains(name@),
            forall|k: int| 0 <= k < i ==> (#[trigger] d[k]).0 != name@,
        decreases desired@.len() - i,
    {
        if desired[i].output_name == *name {
            assert(d[i as int] == wish(desired@[i as int]));
            assert(d[i as int].0 == name@);
            assert(wanted(d, monitors@.map_values(|s: String| s@), name@));
            return true;
        }
        i = i + 1;
    }
    false
}

impl SurfaceRegistry {
    /// The open bars as plain values, in order.
    pub closed spec fn view(&self) -> Seq<BarView> {
        self.bars@.map_values(|b: OpenBar| bar_view(b))
    }

    /// The bars are in strictly increasing output-name order.
    pub closed spec fn wf(&self) -> bool {
        sorted_bars(self.view())
    }

    /// No bar open.
    pub fn new() -> (r: Self)
        ensures
            r.wf(),
            r.view() == Seq::<BarView>::empty(),
    {
        let r = SurfaceRegistry { bars: Vec::new() };
        assert(r.view() =~= Seq::<BarView>::empty());
        r
    }

    /// The role of the bar open on `output`.
    pub fn role(&self, output: &str) -> (r: Option<OutputRole>)
        requires
            self.wf(),
        ensures
            r == role_of(self.view(), output@),
    {
        proof {
            lemma_role_of(self.view(), output@);
        }
        let mut i: usize = 0;
        while i < self.bars.len()
            invariant
                i <= self.bars@.len(),
                sorted_bars(self.view()),
                forall|k: int| 0 <= k < i ==> (#[trigger] self.view()[k]).0 != output@,
            decreases self.bars@.len() - i,
        {
            assert(self.view()[i as int] == bar_view(self.bars@[i as int]));
            if crate::text::str_eq(self.bars[i].output.as_str(), output) {
                proof {
                    lemma_role_of(self.view(), output@);
                }
                return Some(self.bars[i].role);
            }
            i = i + 1;
        }
        None
    }

    /// The bars to close, draw and open so that the open bars match
    /// `desired` on the outputs that have a monitor: first the bars on
    /// outputs no longer wanted close, in order; then each spec in turn
    /// closes a bar of the other role and draws on the open bar or opens one.
    pub fn reconcile(&mut self, desired: &Vec<SurfaceSpec>, monitors: &Vec<String>) -> (steps: Vec<SurfaceStep>)
        requires
            old(self).wf(),
        ensures
            final(self).wf(),
            ({
                let d = desired@.map_values(|s: SurfaceSpec| wish(s));
                let m = monitors@.map_values(|s: String| s@);
                let kept = kept_bars(old(self).view(), d, m);
                &&& steps@.map_values(|s: SurfaceStep| step_view(s)) == stale_steps(old(self).view(), d, m) + place(
                    kept,
                    d,
                    m,
                    0,
                ).0
                &&& final(self).view() == place(kept, d, m, 0).1
            }),
    {
        let ghost d = desired@.map_values(|s: SurfaceSpec| wish(s));
        let ghost m = monitors@.map_values(|s: String| s@);
        let ghost old_bars = self.view();
        let ghost keep = |b: BarView| wanted(d, m, b.0);
        let ghost drop = |b: BarView| !wanted(d, m, b.0);
        let mut steps: Vec<SurfaceStep> = Vec::new();
        let mut kept: Vec<OpenBar> = Vec::new();
        let mut i: usize = 0;
        while i < self.bars.len()
            invariant
                i <= old_bars.len(),
                old_bars == self.view(),
                sorted_bars(old_bars),
                d == desired@.map_values(|s: SurfaceSpec| wish(s)),
                m == monitors@.map_values(|s: String| s@),
                keep == (|b: BarView| wanted(d, m, b.0)),
                drop == (|b: BarView| !wanted(d, m, b.0)),
                kept@.map_values(|b: OpenBar| bar_view(b)) == old_bars.take(i as int).filter(keep),
                steps@.map_values(|s: SurfaceStep| step_view(s)) == old_bars.take(i as int).filter(drop).map_values(
                    |b: BarView| (0u8, b.0, 0int),
                ),
                sorted_bars(kept@.map_values(|b: OpenBar| bar_view(b))),
                forall|k: int, j: int|
                    0 <= k < kept@.len() && i <= j < old_bars.len() ==> seq_lt(
                        #[trigger] kept@[k].output@,
                        #[trigger] old_bars[j].0,
                    ),
            decreases old_bars.len() - i,
        {
            proof {
                reveal(Seq::filter);
                assert(old_bars.take(i + 1).drop_last() =~= old_bars.take(i as int));
                assert(old_bars.take(i + 1).last() == old_bars[i as int]);
                assert(old_bars[i as int] == bar_view(self.bars@[i as int]));
            }
            let b = &self.bars[i];
            if is_wanted(desired, monitors, &b.output) {
                let ghost before = kept@;
                kept.push(OpenBar { output: b.output.clone(), role: b.role });
                proof {
                    assert(kept@.map_values(|b: OpenBar| bar_view(b)) =~= before.map_values(|b: OpenBar| bar_view(b)).push(
                        old_bars[i as int],
                    ));
                    let kv = kept@.map_values(|b: OpenBar| bar_view(b));
                    assert forall|x: int, y: int| 0 <= x < y < kv.len() implies seq_lt(#[trigger] kv[x].0, #[trigger] kv[y].0) by {
                        if y == kv.len() - 1 {
                            assert(kv[x].0 == before[x].output@);
                        } else {
                            assert(kv[x] == bar_view(before[x]));
                            assert(kv[y] == bar_view(before[y]));
                            assert(before.map_values(|b: OpenBar| bar_view(b))[x] == kv[x]);
                        }
                    }
                    assert forall|k: int, j: int|
                        0 <= k < kept@.len() && i + 1 <= j < old_bars.len() implies seq_lt(
                        #[trigger] kept@[k].output@,
                        #[trigger] old_bars[j].0,
                    ) by {
                        if k == kept@.len() - 1 {
                            assert(seq_lt(old_bars[i as int].0, old_bars[j].0));
                        }
                    }
                }
            } else {
                let ghost before = steps@;
                steps.push(SurfaceStep::Close(b.output.clone()));
                proof {
                    assert(steps@.map_values(|s: SurfaceStep| step_view(s)) =~= before.map_values(
                        |s: SurfaceStep| step_view(s),
                    ).push((0u8, old_bars[i as int].0, 0int)));
                }
            }
            i = i + 1;
        }
        proof {
            assert(old_bars.take(old_bars.len() as int) =~= old_bars);
        }
        let ghost stale = steps@.map_values(|s: SurfaceStep| step_view(s));
        assert(stale == stale_steps(old_bars, d, m));
        let ghost kept0 = kept@.map_values(|b: OpenBar| bar_view(b));
        assert(kept0 == kept_bars(old_bars, d, m));
        self.bars = kept;
        let mut j: usize = 0;
        while j < desired.len()
            invariant
                j <= desired@.len(),
                d == desired@.map_values(|s: SurfaceSpec| wish(s)),
                m == monitors@.map_values(|s: String| s@),
                sorted_bars(self.view()),
                stale == stale_steps(old_bars, d, m),
                kept0 == kept_bars(old_bars, d, m),
                steps@.map_values(|s: SurfaceStep| step_view(s)) + place(self.view(), d, m, j as nat).0 == stale + place(
                    kept0,
                    d,
                    m,
                    0,
                ).0,
                place(self.view(), d, m, j as nat).1 == place(kept0, d, m, 0).1,
            decreases desired@.len() - j,
        {
            let spec = &desired[j];
            let ghost name = d[j as int].0;
            let ghost role = d[j as int].1;
            let ghost cur = self.view();
            let ghost pre_steps = steps@.map_values(|s: SurfaceStep| step_view(s));
            if contains_name(monitors, &spec.output_name) {
                proof {
                    lemma_role_of(cur, name);
                }
                let at = self.position(&spec.output_name);
                let changed = at < self.bars.len() && self.bars[at].role != spec.role;
                if changed {
                    proof {
                        assert(cur[at as int] == bar_view(self.bars@[at as int]));
                    }
                    let ghost before = self.bars@;
                    self.bars.remove(at);
                    proof {
                        assert(self.view() =~= cur.remove(at as int)) by {
                            assert forall|x: int| 0 <= x < self.view().len() implies self.view()[x] == cur.remove(at as int)[x] by {
                                if x < at {
                                    assert(self.bars@[x] == before[x]);
                                } else {
                                    assert(self.bars@[x] == before[x + 1]);
                                }
                            }
                        }
                        lemma_remove_bar(cur, at as int, name);
                    }
                    steps.push(SurfaceStep::Close(spec.output_name.clone()));
                }
                let ghost cur0 = self.view();
                proof {
                    lemma_role_of(cur0, name);
                }
                let at0 = self.position(&spec.output_name);
                if at0 < self.bars.len() {
                    steps.push(SurfaceStep::Render(j));
                } else {
                    proof {
                        lemma_insert_at(cur0, name);
                    }
                    let p = self.insertion_point(&spec.output_name);
                    let ghost before = self.bars@;
                    self.bars.insert(p, OpenBar { output: spec.output_name.clone(), role: spec.role });
                    proof {
                        assert(self.view() =~= cur0.insert(p as int, (name, role))) by {
                            assert forall|x: int| 0 <= x < self.view().len() implies self.view()[x] == cur0.insert(
                                p as int,
                                (name, role),
                            )[x] by {
                                if x < p {
                                    assert(self.bars@[x] == before[x]);
                                } else if x > p {
                                    assert(self.bars@[x] == before[x - 1]);
                                }
                            }
                        }
                        lemma_insert_bar(cur0, name, role, name);
                    }
                    steps.push(SurfaceStep::Create(j));
                }
                proof {
                    let new_steps = steps@.map_values(|s: SurfaceStep| step_view(s));
                    let local: Seq<StepView> = if changed {
                        seq![(0u8, name, 0int)]
                    } else {
                        Seq::empty()
                    };
                    let show: StepView = if at0 < cur0.len() {
                        (1u8, Seq::empty(), j as int)
                    } else {
                        (2u8, Seq::empty(), j as int)
                    };
                    assert(new_steps =~= pre_steps + local.push(show));
                    assert(place(cur, d, m, j as nat) == (local.push(show) + place(self.view(), d, m, (j + 1) as nat).0,
                        place(self.view(), d, m, (j + 1) as nat).1));
                    assert(new_steps + place(self.view(), d, m, (j + 1) as nat).0 =~= pre_steps + place(
                        cur,
                        d,
                        m,
                        j as nat,
                    ).0);
                }
            } else {
                proof {
                    assert(place(cur, d, m, j as nat) == place(cur, d, m, (j + 1) as nat));
                }
            }
            j = j + 1;
        }
        proof {
            assert(place(self.view(), d, m, j as nat).0 =~= Seq::<StepView>::empty());
            assert(steps@.map_values(|s: SurfaceStep| step_view(s)) =~= steps@.map_values(|s: SurfaceStep| step_view(s))
                + place(self.view(), d, m, j as nat).0);
        }
        steps
    }

    /// The position of the bar on `name`, or the count of bars.
    fn position(&self, name: &String) -> (p: usize)
        requires
            sorted_bars(self.view()),
        ensures
            p == index_of_bar(self.view(), name@),
    {
        proof {
            lemma_role_of(self.view(), name@);
        }
        let mut p: usize = 0;
        while p < self.bars.len()
            invariant
                p <= self.bars@.len(),
                sorted_bars(self.view()),
                forall|k: int| 0 <= k < p ==> (#[trigger] self.view()[k]).0 != name@,
            decreases self.bars@.len() - p,
        {
            assert(self.view()[p as int] == bar_view(self.bars@[p as int]));
            if self.bars[p].output == *name {
                proof {
                    lemma_role_of(self.view(), name@);
                }
                return p;
            }
            p = p + 1;
        }
        proof {
            lemma_role_of(self.view(), name@);
            if index_of_bar(self.view(), name@) < self.view().len() {
                assert(self.view()[index_of_bar(self.view(), name@)].0 == name@);
            }
        }
        p
    }

    /// Where a bar on `name`, not open yet, goes to keep the order.
    fn insertion_point(&self, name: &String) -> (p: usize)
        requires
            sorted_bars(self.view()),
            role_of(self.view(), name@) is None,
        ensures
            p == insert_at(self.view(), name@),
    {
        proof {
            lemma_role_of(self.view(), name@);
            lemma_insert_at(self.view(), name@);
        }
        let target = chars_of(name.as_str());
        let mut p: usize = 0;
        while p < self.bars.len()
            invariant
                p <= self.bars@.len(),
                p <= insert_at(self.view(), name@),
                target@ == name@,
                sorted_bars(self.view()),
                forall|k: int| 0 <= k < self.view().len() ==> (#[trigger] self.view()[k]).0 != name@,
                forall|k: int| 0 <= k < insert_at(self.view(), name@) ==> seq_lt((#[trigger] self.view()[k]).0, name@),
                forall|k: int| insert_at(self.view(), name@) <= k < self.view().len() ==> seq_lt(
                    name@,
                    (#[trigger] self.view()[k]).0,
                ),
            decreases self.bars@.len() - p,
        {
            assert(self.view()[p as int] == bar_view(self.bars@[p as int]));
            let here = chars_of(self.bars[p].output.as_str());
            if compare_vec(&here, &target) >= 0 {
                proof {
                    if p < insert_at(self.view(), name@) {
                        lemma_seq_lt_asym(self.view()[p as int].0, name@);
                    }
                }
                return p;
            }
            p = p + 1;
        }
        p
    }

    /// Every bar closes; the outputs whose bars close, in order.
    pub fn clear(&mut self) -> (closed: Vec<String>)
        requires
            old(self).wf(),
        ensures
            final(self).wf(),
            final(self).view() == Seq::<BarView>::empty(),
            closed@.map_values(|s: String| s@) == old(self).view().map_values(|b: BarView| b.0),
    {
        let mut closed: Vec<String> = Vec::new();
        let mut i: usize = 0;
        while i < self.bars.len()
            invariant
                i <= self.bars@.len(),
                closed@.len() == i,
                forall|k: int| 0 <= k < i ==> (#[trigger] closed@[k])@ == self.view()[k].0,
            decreases self.bars@.len() - i,
        {
            assert(self.view()[i as int] == bar_view(self.bars@[i as int]));
            closed.push(self.bars[i].output.clone());
            i = i + 1;
        }
        assert(closed@.map_values(|s: String| s@) =~= self.view().map_values(|b: BarView| b.0));
        self.bars = Vec::new();
        assert(self.view() =~= Seq::<BarView>::empty());
        closed
    }

    /// The output whose primary bar opens the control center: the requested
    /// output when its bar is primary, else the first primary bar in order.
    pub fn control_center_output(&self, requested: Option<&str>) -> (r: Option<String>)
        requires
            self.wf(),
        ensures
            match r {
                Some(o) => role_of(self.view(), o@) == Some(OutputRole::Primary) && (match requested {
                    Some(q) => role_of(self.view(), q@) == Some(OutputRole::Primary) ==> o@ == q@,
                    None => true,
                }) && (requested.is_none() || role_of(self.view(), requested.unwrap()@) != Some(
                    OutputRole::Primary,
                ) ==> exists|k: int|
                    0 <= k < self.view().len() && (#[trigger] self.view()[k]) == (o@, OutputRole::Primary) && forall|
                        x: int,
                    |
                        0 <= x < k ==> (#[trigger] self.view()[x]).1 != OutputRole::Primary),
                None => forall|k: int| 0 <= k < self.view().len() ==> (#[trigger] self.view()[k]).1 != OutputRole::Primary,
            },
    {
        if let Some(q) = requested {
            if let Some(OutputRole::Primary) = self.role(q) {
                let mut s = String::new();
                crate::text::push_str(&mut s, q);
                assert(s@ =~= q@);
                return Some(s);
            }
        }
        let mut k: usize = 0;
        while k < self.bars.len()
            invariant
                k <= self.bars@.len(),
                sorted_bars(self.view()),
                match requested {
                    Some(q) => role_of(self.view(), q@) != Some(OutputRole::Primary),
                    None => true,
                },
                forall|x: int| 0 <= x < k ==> (#[trigger] self.view()[x]).1 != OutputRole::Primary,
            decreases self.bars@.len() - k,
        {
            assert(self.view()[k as int] == bar_view(self.bars@[k as int]));
            if self.bars[k].role == OutputRole::Primary {
                let o = self.bars[k].output.clone();
                proof {
                    lemma_role_of(self.view(), o@);
                    assert(self.view()[k as int] == (o@, OutputRole::Primary));
                    assert(index_of_bar(self.view(), o@) == k);
                }
                return Some(o);
            }
            k = k + 1;
        }
        None
    }
}

/// After reconciling, a bar is open exactly on each wanted output, with the
/// role of the last spec for that output, and the bars stay in order.
pub proof fn reconciled_bars_follow_the_specs(
    bars: Seq<BarView>,
    desired: Seq<(Seq<char>, OutputRole)>,
    monitors: Seq<Seq<char>>,
    name: Seq<char>,
)
    requires
        sorted_bars(bars),
    ensures
        sorted_bars(place(kept_bars(bars, desired, monitors), desired, monitors, 0).1),
        role_of(place(kept_bars(bars, desired, monitors), desired, monitors, 0).1, name) == later_role(
            desired,
            monitors,
            0,
            name,
        ),
        (later_role(desired, monitors, 0, name) is Some) == wanted(desired, monitors, name),
{
    let kept = kept_bars(bars, desired, monitors);
    lemma_kept_bars(bars, desired, monitors, name);
    lemma_place(kept, desired, monitors, 0);
    lemma_later_role(desired, monitors, 0, name);
}

/// The bars kept are in order, each one of the old bars, and none is on an
/// output no longer wanted.
proof fn lemma_kept_bars(bars: Seq<BarView>, desired: Seq<(Seq<char>, OutputRole)>, monitors: Seq<Seq<char>>, name: Seq<char>)
    requires
        sorted_bars(bars),
    ensures
        sorted_bars(kept_bars(bars, desired, monitors)),
        forall|i: int|
            0 <= i < kept_bars(bars, desired, monitors).len() ==> exists|k: int|
                0 <= k < bars.len() && #[trigger] kept_bars(bars, desired, monitors)[i] == bars[k],
        !wanted(desired, monitors, name) ==> role_of(kept_bars(bars, desired, monitors), name) is None,
    decreases bars.len(),
{
    let pred = |b: BarView| wanted(desired, monitors, b.0);
    reveal(Seq::filter);
    if bars.len() > 0 {
        let front = bars.drop_last();
        assert forall|i: int, j: int| 0 <= i < j < front.len() implies seq_lt(#[trigger] front[i].0, #[trigger] front[j].0) by {
            assert(front[i] == bars[i] && front[j] == bars[j]);
        }
        lemma_kept_bars(front, desired, monitors, name);
        let f = front.filter(pred);
        assert(kept_bars(front, desired, monitors) == f);
        if pred(bars.last()) {
            let g = f.push(bars.last());
            assert(kept_bars(bars, desired, monitors) == g);
            assert forall|i: int| 0 <= i < f.len() implies exists|k: int| 0 <= k < bars.len() - 1 && #[trigger] f[i] == bars[k] by {
                assert(kept_bars(front, desired, monitors)[i] == f[i]);
                let k = choose|k: int| 0 <= k < front.len() && kept_bars(front, desired, monitors)[i] == front[k];
                assert(front[k] == bars[k]);
            }
            assert forall|i: int, j: int| 0 <= i < j < g.len() implies seq_lt(#[trigger] g[i].0, #[trigger] g[j].0) by {
                if j == g.len() - 1 {
                    assert(g[i] == f[i]);
                    let k = choose|k: int| 0 <= k < bars.len() - 1 && f[i] == bars[k];
                    assert(seq_lt(bars[k].0, bars[bars.len() - 1].0));
                } else {
                    assert(g[i] == f[i] && g[j] == f[j]);
                }
            }
            assert forall|i: int| 0 <= i < g.len() implies exists|k: int| 0 <= k < bars.len() && #[trigger] g[i] == bars[k] by {
                if i < f.len() {
                    assert(g[i] == f[i]);
                    let k = choose|k: int| 0 <= k < bars.len() - 1 && f[i] == bars[k];
                    assert(g[i] == bars[k]);
                } else {
                    assert(g[i] == bars[bars.len() - 1]);
                }
            }
            if !wanted(desired, monitors, name) {
                lemma_role_of(f, name);
                lemma_role_of(g, name);
                if index_of_bar(g, name) < g.len() {
                    let k = index_of_bar(g, name);
                    if k < f.len() {
                        assert(g[k] == f[k]);
                    } else {
                        assert(g[k] == bars.last());
                    }
                }
            }
        } else {
            assert(kept_bars(bars, desired, monitors) == f);
            assert forall|i: int| 0 <= i < f.len() implies exists|k: int| 0 <= k < bars.len() && #[trigger] f[i] == bars[k] by {
                assert(kept_bars(front, desired, monitors)[i] == f[i]);
                let k = choose|k: int| 0 <= k < front.len() && kept_bars(front, desired, monitors)[i] == front[k];
                assert(front[k] == bars[k]);
            }
        }
    } else {
        assert(kept_bars(bars, desired, monitors) =~= bars);
    }
}

/// Some spec from `i` on gives `name` a role exactly when one from `i` on
/// names it and it has a monitor.
proof fn lemma_later_role(desired: Seq<(Seq<char>, OutputRole)>, monitors: Seq<Seq<char>>, i: nat, name: Seq<char>)
    ensures
        (later_role(desired, monitors, i, name) is Some) == (monitors.contains(name) && exists|j: int|
            i <= j < desired.len() && (#[trigger] desired[j]).0 == name),
    decreases desired.len() - i,
{
    if i < desired.len() {
        lemma_later_role(desired, monitors, i + 1, name);
        if monitors.contains(name) && desired[i as int].0 == name {
            assert(exists|j: int| i <= j < desired.len() && (#[trigger] desired[j]).0 == name);
        }
        if monitors.contains(name) && exists|j: int| i <= j < desired.len() && (#[trigger] desired[j]).0 == name {
            let j = choose|j: int| i <= j < desired.len() && (#[trigger] desired[j]).0 == name;
            if j > i {
                assert(exists|j: int| i + 1 <= j < desired.len() && (#[trigger] desired[j]).0 == name);
            }
        }
    }
}

} // verus!

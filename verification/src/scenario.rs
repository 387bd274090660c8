//! Travel demand: the plans of a scenario, and the modifiers that make one
//! scenario from another.

use crate::network::TravelMode;
use crate::paths::{MapName, MapNameView};
use vstd::prelude::*;

verus! {

/// One trip somebody wants to make: from where to where, when, and how.
/// Time is counted in ticks from the start of the run.
#[derive(Clone, Copy, Debug, PartialEq, Eq, Structural)]
pub struct Plan {
    pub origin: usize,
    pub destination: usize,
    pub depart: u64,
    pub mode: TravelMode,
}

/// The travel demand of one map, under a name.
pub struct Scenario {
    pub scenario_name: String,
    pub map_name: MapName,
    pub plans: Vec<Plan>,
}

/// A `Scenario` as a mathematical value.
pub struct ScenarioView {
    pub scenario_name: Seq<char>,
    pub map_name: MapNameView,
    pub plans: Seq<Plan>,
}

impl View for Scenario {
    type V = ScenarioView;

    open spec fn view(&self) -> ScenarioView {
        ScenarioView {
            scenario_name: self.scenario_name@,
            map_name: self.map_name@,
            plans: self.plans@,
        }
    }
}

/// A way to make one scenario from another. Each makes the whole list of
/// plans anew and leaves the names alone.
#[derive(Clone, Copy, Debug, PartialEq, Eq, Structural)]
pub enum ScenarioModifier {
    /// Every plan leaves this many ticks later, at the latest at the last
    /// tick there is.
    DelayDepartures(u64),
    /// Who would travel by `from` travels by `to`.
    ChangeMode { from: TravelMode, to: TravelMode },
    /// Who would travel by this mode stays at home.
    CancelMode(TravelMode),
    /// Every plan is made this many times over, the copies side by side.
    Repeat(usize),
}

/// The plan `p`, leaving `dt` ticks later.
pub open spec fn delayed(p: Plan, dt: u64) -> Plan {
    Plan { depart: if p.depart + dt > u64::MAX { u64::MAX } else { (p.depart + dt) as u64 }, ..p }
}

/// The plan `p`, by `to` if it was by `from`.
pub open spec fn switched(p: Plan, from: TravelMode, to: TravelMode) -> Plan {
    if p.mode == from {
        Plan { mode: to, ..p }
    } else {
        p
    }
}

/// The plans that do not travel by `mode`, in their order.
pub open spec fn without_mode(plans: Seq<Plan>, mode: TravelMode) -> Seq<Plan>
    decreases plans.len(),
{
    if plans.len() == 0 {
        Seq::empty()
    } else if plans.last().mode == mode {
        without_mode(plans.drop_last(), mode)
    } else {
        without_mode(plans.drop_last(), mode).push(plans.last())
    }
}

/// Each plan `times` times over, the copies side by side.
pub open spec fn repeated(plans: Seq<Plan>, times: nat) -> Seq<Plan>
    decreases plans.len(),
{
    if plans.len() == 0 {
        Seq::empty()
    } else {
        repeated(plans.drop_last(), times) + Seq::new(times, |k: int| plans.last())
    }
}

/// The plans that `m` makes of `plans`.
pub open spec fn modified_plans(plans: Seq<Plan>, m: ScenarioModifier) -> Seq<Plan> {
    match m {
        ScenarioModifier::DelayDepartures(dt) => Seq::new(
            plans.len(),
            |k: int| delayed(plans[k], dt),
        ),
        ScenarioModifier::ChangeMode { from, to } => Seq::new(
            plans.len(),
            |k: int| switched(plans[k], from, to),
        ),
        ScenarioModifier::CancelMode(mode) => without_mode(plans, mode),
        ScenarioModifier::Repeat(times) => repeated(plans, times as nat),
    }
}

/// The scenario that `m` makes of `s`.
pub open spec fn modified(s: ScenarioView, m: ScenarioModifier) -> ScenarioView {
    ScenarioView { plans: modified_plans(s.plans, m), ..s }
}

/// The scenario that the modifiers `ms` make of `s`, the first applied first.
pub open spec fn modified_by_all(s: ScenarioView, ms: Seq<ScenarioModifier>) -> ScenarioView
    decreases ms.len(),
{
    if ms.len() == 0 {
        s
    } else {
        modified(modified_by_all(s, ms.drop_last()), ms.last())
    }
}

impl ScenarioModifier {
    /// Makes a scenario from `scenario`.
    pub fn apply(&self, scenario: Scenario) -> (out: Scenario)
        ensures
            out@ == modified(scenario@, *self),
    {
        let plans = match *self {
            ScenarioModifier::DelayDepartures(dt) => delay_all(&scenario.plans, dt),
            ScenarioModifier::ChangeMode { from, to } => switch_all(&scenario.plans, from, to),
            ScenarioModifier::CancelMode(mode) => cancel_all(&scenario.plans, mode),
            ScenarioModifier::Repeat(times) => repeat_all(&scenario.plans, times),
        };
        Scenario { scenario_name: scenario.scenario_name, map_name: scenario.map_name, plans }
    }
}

fn delay_all(plans: &Vec<Plan>, dt: u64) -> (out: Vec<Plan>)
    ensures
        out@ == modified_plans(plans@, ScenarioModifier::DelayDepartures(dt)),
{
    let mut out: Vec<Plan> = Vec::new();
    let mut k: usize = 0;
    while k < plans.len()
        invariant
            k <= plans.len(),
            out@.len() == k,
            forall|j: int| 0 <= j < k ==> out@[j] == delayed(plans@[j], dt),
        decreases plans.len() - k,
    {
        let p = plans[k];
        out.push(
            Plan {
                origin: p.origin,
                destination: p.destination,
                depart: p.depart.saturating_add(dt),
                mode: p.mode,
            },
        );
        k += 1;
    }
    assert(out@ =~= modified_plans(plans@, ScenarioModifier::DelayDepartures(dt)));
    out
}

fn switch_all(plans: &Vec<Plan>, from: TravelMode, to: TravelMode) -> (out: Vec<Plan>)
    ensures
        out@ == modified_plans(plans@, ScenarioModifier::ChangeMode { from, to }),
{
    let mut out: Vec<Plan> = Vec::new();
    let mut k: usize = 0;
    while k < plans.len()
        invariant
            k <= plans.len(),
            out@.len() == k,
            forall|j: int| 0 <= j < k ==> out@[j] == switched(plans@[j], from, to),
        decreases plans.len() - k,
    {
        let p = plans[k];
        if p.mode == from {
            out.push(Plan { origin: p.origin, destination: p.destination, depart: p.depart, mode: to });
        } else {
            out.push(p);
        }
        k += 1;
    }
    assert(out@ =~= modified_plans(plans@, ScenarioModifier::ChangeMode { from, to }));
    out
}

fn cancel_all(plans: &Vec<Plan>, mode: TravelMode) -> (out: Vec<Plan>)
    ensures
        out@ == modified_plans(plans@, ScenarioModifier::CancelMode(mode)),
{
    let mut out: Vec<Plan> = Vec::new();
    let mut k: usize = 0;
    while k < plans.len()
        invariant
            k <= plans.len(),
            out@ == without_mode(plans@.take(k as int), mode),
        decreases plans.len() - k,
    {
        assert(plans@.take(k + 1).drop_last() =~= plans@.take(k as int));
        let p = plans[k];
        if p.mode != mode {
            out.push(p);
        }
        k += 1;
    }
    assert(plans@.take(plans.len() as int) =~= plans@);
    out
}

fn repeat_all(plans: &Vec<Plan>, times: usize) -> (out: Vec<Plan>)
    ensures
        out@ == modified_plans(plans@, ScenarioModifier::Repeat(times)),
{
    let mut out: Vec<Plan> = Vec::new();
    let mut k: usize = 0;
    while k < plans.len()
        invariant
            k <= plans.len(),
            out@ == repeated(plans@.take(k as int), times as nat),
        decreases plans.len() - k,
    {
        assert(plans@.take(k + 1).drop_last() =~= plans@.take(k as int));
        let p = plans[k];
        let ghost before = out@;
        let mut t: usize = 0;
        while t < times
            invariant
                t <= times,
                out@ == before + Seq::new(t as nat, |j: int| p),
            decreases times - t,
        {
            out.push(p);
            t += 1;
            assert(out@ =~= before + Seq::new(t as nat, |j: int| p));
        }
        assert(Seq::new(times as nat, |j: int| p) =~= Seq::new(
            times as nat,
            |j: int| plans@.take(k + 1).last(),
        ));
        k += 1;
    }
    assert(plans@.take(plans.len() as int) =~= plans@);
    out
}

/// Applies the modifiers in their order, the first one first.
pub fn apply_modifiers(modifiers: &Vec<ScenarioModifier>, scenario: Scenario) -> (out: Scenario)
    ensures
        out@ == modified_by_all(scenario@, modifiers@),
{
    let ghost start = scenario@;
    let mut current = scenario;
    let mut k: usize = 0;
    while k < modifiers.len()
        invariant
            k <= modifiers.len(),
            current@ == modified_by_all(start, modifiers@.take(k as int)),
        decreases modifiers.len() - k,
    {
        assert(modifiers@.take(k + 1).drop_last() =~= modifiers@.take(k as int));
        current = modifiers[k].apply(current);
        k += 1;
    }
    assert(modifiers@.take(modifiers.len() as int) =~= modifiers@);
    current
}

/// Applying one list of modifiers and then another is applying the two
/// lists joined.
pub proof fn lemma_modifiers_compose(
    s: ScenarioView,
    first: Seq<ScenarioModifier>,
    then: Seq<ScenarioModifier>,
)
    ensures
        modified_by_all(s, first + then) == modified_by_all(modified_by_all(s, first), then),
    decreases then.len(),
{
    if then.len() == 0 {
        assert(first + then =~= first);
    } else {
        lemma_modifiers_compose(s, first, then.drop_last());
        assert((first + then).drop_last() =~= first + then.drop_last());
    }
}

/// Nobody is left who travels by the mode that was cancelled.
pub proof fn lemma_cancelled_mode_is_gone(plans: Seq<Plan>, mode: TravelMode)
    ensures
        forall|k: int|
            0 <= k < without_mode(plans, mode).len() ==> (#[trigger] without_mode(
                plans,
                mode,
            )[k]).mode != mode,
    decreases plans.len(),
{
    if plans.len() > 0 {
        lemma_cancelled_mode_is_gone(plans.drop_last(), mode);
    }
}

/// Who travels by another mode than the one cancelled is still there.
pub proof fn lemma_other_modes_stay(plans: Seq<Plan>, mode: TravelMode, i: int)
    requires
        0 <= i < plans.len(),
        plans[i].mode != mode,
    ensures
        without_mode(plans, mode).contains(plans[i]),
    decreases plans.len(),
{
    let kept = without_mode(plans, mode);
    if i == plans.len() - 1 {
        assert(kept[kept.len() - 1] == plans[i]);
    } else {
        lemma_other_modes_stay(plans.drop_last(), mode, i);
        let front = without_mode(plans.drop_last(), mode);
        let k = choose|k: int| 0 <= k < front.len() && front[k] == plans[i];
        assert(kept[k] == plans[i]);
    }
}

/// The order of modifiers matters. Where somebody travels by `from`, moving
/// everybody from `from` to `to` and then cancelling `to` leaves nobody who
/// travels by `to`; cancelling first and moving then leaves somebody.
pub proof fn lemma_modifier_order_matters(s: ScenarioView, from: TravelMode, to: TravelMode, i: int)
    requires
        from != to,
        0 <= i < s.plans.len(),
        s.plans[i].mode == from,
    ensures
        modified_by_all(
            s,
            seq![ScenarioModifier::ChangeMode { from, to }, ScenarioModifier::CancelMode(to)],
        ) != modified_by_all(
            s,
            seq![ScenarioModifier::CancelMode(to), ScenarioModifier::ChangeMode { from, to }],
        ),
{
    let change = ScenarioModifier::ChangeMode { from, to };
    let cancel = ScenarioModifier::CancelMode(to);
    let change_first = modified_by_all(s, seq![change, cancel]);
    let cancel_first = modified_by_all(s, seq![cancel, change]);
    assert(seq![change, cancel].drop_last() =~= seq![change]);
    assert(seq![cancel, change].drop_last() =~= seq![cancel]);
    assert(seq![change].drop_last() =~= Seq::<ScenarioModifier>::empty());
    assert(seq![cancel].drop_last() =~= Seq::<ScenarioModifier>::empty());
    assert(modified_by_all(s, Seq::<ScenarioModifier>::empty()) == s);
    assert(seq![change].last() == change && seq![cancel].last() == cancel);
    assert(modified_by_all(s, seq![change]) == modified(s, change));
    assert(modified_by_all(s, seq![cancel]) == modified(s, cancel));
    assert(change_first == modified(modified(s, change), cancel));
    assert(cancel_first == modified(modified(s, cancel), change));
    lemma_cancelled_mode_is_gone(modified(s, change).plans, to);
    lemma_other_modes_stay(s.plans, to, i);
    let kept = without_mode(s.plans, to);
    let k = choose|k: int| 0 <= k < kept.len() && kept[k] == s.plans[i];
    assert(cancel_first.plans[k].mode == to);
    if change_first == cancel_first {
        assert(change_first.plans[k].mode != to);
    }
}

} // verus!

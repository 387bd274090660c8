//! The simulation: its clock, the map and edits it is bound to, and its
//! agents; how a scenario's plans become agents, and how a tick passes.
//!
//! Trips run between neighbouring intersections. Where several roads lead
//! from a plan's origin to its destination and carry its mode, they cost the
//! same, and the random stream picks one; where there is one road, nothing
//! is drawn. A trip takes one tick.

use crate::network::{RoadMapView, TravelMode};
use crate::paths::{MapName, MapNameView};
use crate::rng::{next_u32, rng_words, words_after, words_after_draw, Words};
use crate::road_map::RoadMap;
use crate::scenario::{Plan, Scenario, ScenarioView};
use crate::text::{decimal, decimal_text};
use rand_xorshift::XorShiftRng;
use vstd::prelude::*;
use vstd::string::*;

verus! {

/// Where an agent is on its way.
#[derive(Clone, Copy, Debug, PartialEq, Eq, Structural)]
pub enum Phase {
    /// Its time to leave has not come.
    Waiting,
    /// It is on its road.
    Travelling,
    /// It has arrived.
    Finished,
}

/// A plan made concrete: its trip, the road it takes, and how far it is.
#[derive(Clone, Copy, Debug, PartialEq, Eq, Structural)]
pub struct Agent {
    pub origin: usize,
    pub destination: usize,
    pub depart: u64,
    pub mode: TravelMode,
    pub road: usize,
    pub phase: Phase,
}

/// How a run is named and what it keeps track of.
pub struct SimOptions {
    pub run_name: String,
    /// Write down every event of the run.
    pub log_events: bool,
    /// Keep the record of finished trips.
    pub record_trips: bool,
}

/// `SimOptions` as a mathematical value.
pub struct SimOptionsView {
    pub run_name: Seq<char>,
    pub log_events: bool,
    pub record_trips: bool,
}

impl View for SimOptions {
    type V = SimOptionsView;

    open spec fn view(&self) -> SimOptionsView {
        SimOptionsView {
            run_name: self.run_name@,
            log_events: self.log_events,
            record_trips: self.record_trips,
        }
    }
}

impl Clone for SimOptions {
    fn clone(&self) -> (copy: SimOptions)
        ensures
            copy@ == self@,
    {
        SimOptions {
            run_name: self.run_name.clone(),
            log_events: self.log_events,
            record_trips: self.record_trips,
        }
    }
}

/// The name of a run that was given none.
pub open spec fn unnamed() -> Seq<char> {
    "unnamed"@
}

impl SimOptions {
    /// The options of the run `run_name`, keeping track of nothing.
    pub fn new(run_name: &str) -> (opts: SimOptions)
        ensures
            opts@ == (SimOptionsView { run_name: run_name@, log_events: false, record_trips: false }),
    {
        SimOptions { run_name: String::from_str(run_name), log_events: false, record_trips: false }
    }

    /// Whether the run was given no name.
    pub fn is_unnamed(&self) -> (none: bool)
        ensures
            none == (self@.run_name == unnamed()),
    {
        let default_name = String::from_str("unnamed");
        self.run_name == default_name
    }
}

/// The state of a run.
pub struct Sim {
    /// Ticks since the run began.
    pub time: u64,
    /// The map the run is on.
    pub map_name: MapName,
    /// The edits that the map had when the run was made.
    pub edits_name: String,
    pub opts: SimOptions,
    /// The agents, in the order of the plans they were made from.
    pub agents: Vec<Agent>,
}

/// A `Sim` as a mathematical value.
pub struct SimView {
    pub time: nat,
    pub map_name: MapNameView,
    pub edits_name: Seq<char>,
    pub opts: SimOptionsView,
    pub agents: Seq<Agent>,
}

impl View for Sim {
    type V = SimView;

    open spec fn view(&self) -> SimView {
        SimView {
            time: self.time as nat,
            map_name: self.map_name@,
            edits_name: self.edits_name@,
            opts: self.opts@,
            agents: self.agents@,
        }
    }
}

/// The run on `map` with the options `opts` before anything happened: the
/// clock at zero and nobody there.
pub open spec fn fresh_sim(map: RoadMapView, opts: SimOptionsView) -> SimView {
    SimView {
        time: 0,
        map_name: map.name,
        edits_name: map.edits_name,
        opts,
        agents: Seq::empty(),
    }
}

impl SimView {
    /// The run is one on `map` as it is edited now.
    pub open spec fn bound_to(self, map: RoadMapView) -> bool {
        self.map_name == map.name && self.edits_name == map.edits_name
    }
}

/// Why a scenario was not made into agents.
#[derive(Clone, Copy, Debug, PartialEq, Eq, Structural)]
pub enum SpawnError {
    /// The scenario is one of another map.
    ScenarioOfOtherMap,
    /// The run is bound to another map, or to the map under other edits.
    SimOfOtherMap,
    /// The map was edited after its routing table was computed.
    StaleRouting,
    /// The plan at this place starts or ends at an intersection that the map
    /// does not have.
    UnknownPlace(usize),
    /// No road that carries the mode of the plan at this place leads from its
    /// origin to its destination.
    NoRoute(usize),
}

/// What is told of the fault.
pub open spec fn spawn_error_text(e: SpawnError) -> Seq<char> {
    match e {
        SpawnError::ScenarioOfOtherMap => "the scenario is one of another map"@,
        SpawnError::SimOfOtherMap => "the run is bound to another map or to other edits"@,
        SpawnError::StaleRouting => "the map was edited after its routing table was computed"@,
        SpawnError::UnknownPlace(k) => "plan "@ + decimal(k as nat)
            + " starts or ends at an intersection that the map does not have"@,
        SpawnError::NoRoute(k) => "plan "@ + decimal(k as nat)
            + " has no road from its origin to its destination"@,
    }
}

impl SpawnError {
    /// Tells the fault in words.
    pub fn message(&self) -> (text: String)
        ensures
            text@ == spawn_error_text(*self),
    {
        match *self {
            SpawnError::ScenarioOfOtherMap => String::from_str("the scenario is one of another map"),
            SpawnError::SimOfOtherMap => String::from_str(
                "the run is bound to another map or to other edits",
            ),
            SpawnError::StaleRouting => String::from_str(
                "the map was edited after its routing table was computed",
            ),
            SpawnError::UnknownPlace(k) => {
                let mut text = String::from_str("plan ");
                text.append(decimal_text(k as u64).as_str());
                text.append(" starts or ends at an intersection that the map does not have");
                text
            },
            SpawnError::NoRoute(k) => {
                let mut text = String::from_str("plan ");
                text.append(decimal_text(k as u64).as_str());
                text.append(" has no road from its origin to its destination");
                text
            },
        }
    }
}

/// Both ends of the plan are intersections of the map.
pub open spec fn plan_placed(map: RoadMapView, p: Plan) -> bool {
    p.origin < map.intersections.len() && p.destination < map.intersections.len()
}

/// The roads that the plan can take.
pub open spec fn plan_routes(map: RoadMapView, p: Plan) -> Seq<usize> {
    map.routes(p.origin as nat, p.destination as nat, p.mode)
}

/// The plan can be made into an agent on this map.
pub open spec fn plan_fits(map: RoadMapView, p: Plan) -> bool {
    plan_placed(map, p) && plan_routes(map, p).len() > 0
}

/// The agent of plan `p` on road `road`, waiting to leave.
pub open spec fn agent_of(p: Plan, road: usize) -> Agent {
    Agent {
        origin: p.origin,
        destination: p.destination,
        depart: p.depart,
        mode: p.mode,
        road,
        phase: Phase::Waiting,
    }
}

/// The agent made of plan `p` when the stream stands at `words`, and where
/// the stream stands afterwards. One route is taken without a draw; of
/// several, one word picks.
pub open spec fn spawned(map: RoadMapView, p: Plan, words: Words) -> (Agent, Words) {
    let routes = plan_routes(map, p);
    if routes.len() <= 1 {
        (agent_of(p, routes[0]), words)
    } else {
        let after = words_after_draw(words);
        (agent_of(p, routes[(after.3 as int) % (routes.len() as int)]), after)
    }
}

/// The agents made of `plans`, in their order, when the stream stands at
/// `words`, and where the stream stands afterwards.
pub open spec fn spawned_all(map: RoadMapView, plans: Seq<Plan>, words: Words) -> (
    Seq<Agent>,
    Words,
)
    decreases plans.len(),
{
    if plans.len() == 0 {
        (Seq::empty(), words)
    } else {
        let before = spawned_all(map, plans.drop_last(), words);
        let last = spawned(map, plans.last(), before.1);
        (before.0.push(last.0), last.1)
    }
}

/// How many of `plans` have a choice of routes on `map`.
pub open spec fn choices(map: RoadMapView, plans: Seq<Plan>) -> nat
    decreases plans.len(),
{
    if plans.len() == 0 {
        0
    } else {
        choices(map, plans.drop_last()) + if plan_routes(map, plans.last()).len() > 1 {
            1nat
        } else {
            0nat
        }
    }
}

/// Making plans into agents draws one word for each plan that has a choice
/// of routes, and no other: the stream stands afterwards where that many
/// draws leave it, and there is one agent for each plan.
pub proof fn lemma_one_draw_for_each_choice(map: RoadMapView, plans: Seq<Plan>, words: Words)
    ensures
        spawned_all(map, plans, words).1 == words_after(words, choices(map, plans)),
        spawned_all(map, plans, words).0.len() == plans.len(),
    decreases plans.len(),
{
    if plans.len() > 0 {
        lemma_one_draw_for_each_choice(map, plans.drop_last(), words);
    }
}

/// The scenario can be made into agents of the run `sim` on `map`.
pub open spec fn scenario_fits(s: ScenarioView, sim: SimView, map: RoadMapView) -> bool {
    &&& s.map_name == map.name
    &&& sim.bound_to(map)
    &&& map.routing_fresh()
    &&& forall|k: int| 0 <= k < s.plans.len() ==> plan_fits(map, #[trigger] s.plans[k])
}

/// `e` is the first fault that stands in the way of making the scenario `s`
/// into agents of `sim` on `map`: the names are looked at first, then the
/// routing table, then the plans in their order.
pub open spec fn spawn_fault(s: ScenarioView, sim: SimView, map: RoadMapView, e: SpawnError) -> bool {
    match e {
        SpawnError::ScenarioOfOtherMap => s.map_name != map.name,
        SpawnError::SimOfOtherMap => s.map_name == map.name && !sim.bound_to(map),
        SpawnError::StaleRouting => {
            &&& s.map_name == map.name
            &&& sim.bound_to(map)
            &&& !map.routing_fresh()
        },
        SpawnError::UnknownPlace(k) => {
            &&& s.map_name == map.name
            &&& sim.bound_to(map)
            &&& map.routing_fresh()
            &&& k < s.plans.len()
            &&& !plan_placed(map, s.plans[k as int])
            &&& forall|j: int| 0 <= j < k ==> plan_fits(map, #[trigger] s.plans[j])
        },
        SpawnError::NoRoute(k) => {
            &&& s.map_name == map.name
            &&& sim.bound_to(map)
            &&& map.routing_fresh()
            &&& k < s.plans.len()
            &&& plan_placed(map, s.plans[k as int])
            &&& plan_routes(map, s.plans[k as int]).len() == 0
            &&& forall|j: int| 0 <= j < k ==> plan_fits(map, #[trigger] s.plans[j])
        },
    }
}

/// A scenario that fits has no fault, and a fault is the only one: what
/// becomes of a scenario is settled by the scenario, the run and the map.
pub proof fn lemma_one_fault(
    s: ScenarioView,
    sim: SimView,
    map: RoadMapView,
    e1: SpawnError,
    e2: SpawnError,
)
    requires
        spawn_fault(s, sim, map, e1),
    ensures
        !scenario_fits(s, sim, map),
        spawn_fault(s, sim, map, e2) ==> e1 == e2,
{
}

/// The run `sim` with the agents of the scenario `s` added behind those it
/// has, when the stream stands at `words`; and where the stream stands
/// afterwards.
pub open spec fn instantiated(s: ScenarioView, sim: SimView, map: RoadMapView, words: Words) -> (
    SimView,
    Words,
) {
    let made = spawned_all(map, s.plans, words);
    (SimView { agents: sim.agents + made.0, ..sim }, made.1)
}

/// The agent a tick later, when the clock shows `now`: one whose time has come
/// sets out, one on its road arrives.
pub open spec fn stepped_agent(a: Agent, now: nat) -> Agent {
    match a.phase {
        Phase::Waiting => if a.depart <= now {
            Agent { phase: Phase::Travelling, ..a }
        } else {
            a
        },
        Phase::Travelling => Agent { phase: Phase::Finished, ..a },
        Phase::Finished => a,
    }
}

/// The run one tick later.
pub open spec fn stepped(s: SimView) -> SimView {
    SimView {
        time: s.time + 1,
        agents: Seq::new(s.agents.len(), |k: int| stepped_agent(s.agents[k], s.time + 1)),
        ..s
    }
}

/// The run `ticks` ticks later.
pub open spec fn run(s: SimView, ticks: nat) -> SimView
    decreases ticks,
{
    if ticks == 0 {
        s
    } else {
        stepped(run(s, (ticks - 1) as nat))
    }
}

/// Running on and on is running once for the sum of the ticks.
pub proof fn lemma_run_adds(s: SimView, first: nat, then: nat)
    ensures
        run(run(s, first), then) == run(s, first + then),
    decreases then,
{
    if then > 0 {
        lemma_run_adds(s, first, (then - 1) as nat);
    }
}

/// Stepping moves the clock and nothing else but the agents' phases: the run
/// keeps its names, its options and the number and order of its agents.
pub proof fn lemma_run_keeps(s: SimView, ticks: nat)
    ensures
        run(s, ticks).time == s.time + ticks,
        run(s, ticks).map_name == s.map_name,
        run(s, ticks).edits_name == s.edits_name,
        run(s, ticks).opts == s.opts,
        run(s, ticks).agents.len() == s.agents.len(),
    decreases ticks,
{
    if ticks > 0 {
        lemma_run_keeps(s, (ticks - 1) as nat);
    }
}

impl Sim {
    /// Lets one tick pass, if the clock can still count it. Tells whether it
    /// did; if not, nothing changes.
    pub fn step(&mut self) -> (moved: bool)
        ensures
            moved == (old(self)@.time < u64::MAX),
            final(self)@ == if moved {
                stepped(old(self)@)
            } else {
                old(self)@
            },
    {
        if self.time == u64::MAX {
            return false;
        }
        let now = self.time + 1;
        let mut k: usize = 0;
        while k < self.agents.len()
            invariant
                k <= self.agents.len(),
                now == old(self).time + 1,
                self.time == old(self).time,
                self.map_name == old(self).map_name,
                self.edits_name == old(self).edits_name,
                self.opts == old(self).opts,
                self.agents.len() == old(self).agents.len(),
                forall|j: int|
                    0 <= j < k ==> self.agents@[j] == stepped_agent(
                        old(self).agents@[j],
                        now as nat,
                    ),
                forall|j: int| k <= j < self.agents.len() ==> self.agents@[j] == old(self).agents@[j],
            decreases self.agents.len() - k,
        {
            let a = self.agents[k];
            let phase = match a.phase {
                Phase::Waiting => if a.depart <= now {
                    Phase::Travelling
                } else {
                    Phase::Waiting
                },
                Phase::Travelling => Phase::Finished,
                Phase::Finished => Phase::Finished,
            };
            self.agents.set(
                k,
                Agent {
                    origin: a.origin,
                    destination: a.destination,
                    depart: a.depart,
                    mode: a.mode,
                    road: a.road,
                    phase,
                },
            );
            k += 1;
        }
        self.time = now;
        assert(self@.agents =~= stepped(old(self)@).agents);
        true
    }

    /// Lets `ticks` ticks pass, or as many of them as the clock can count, and
    /// tells how many passed.
    pub fn run_for(&mut self, ticks: u64) -> (passed: u64)
        ensures
            passed == if ticks <= u64::MAX - old(self)@.time {
                ticks
            } else {
                (u64::MAX - old(self)@.time) as u64
            },
            final(self)@ == run(old(self)@, passed as nat),
    {
        let mut passed: u64 = 0;
        while passed < ticks && self.time < u64::MAX
            invariant
                passed <= ticks,
                self@ == run(old(self)@, passed as nat),
                self.time == old(self).time + passed,
            decreases ticks - passed,
        {
            self.step();
            passed += 1;
        }
        passed
    }

    /// Whether every agent has arrived.
    pub fn is_done(&self) -> (done: bool)
        ensures
            done == forall|k: int| 0 <= k < self@.agents.len() ==> self@.agents[k].phase is Finished,
    {
        let mut k: usize = 0;
        while k < self.agents.len()
            invariant
                k <= self.agents.len(),
                forall|j: int| 0 <= j < k ==> self@.agents[j].phase is Finished,
            decreases self.agents.len() - k,
        {
            match self.agents[k].phase {
                Phase::Finished => {},
                _ => {
                    return false;
                },
            }
            k += 1;
        }
        true
    }

    /// A run on `map` with nobody in it and the clock at zero.
    pub fn new(map: &RoadMap, opts: SimOptions) -> (sim: Sim)
        ensures
            sim@ == fresh_sim(map@, opts@),
            sim@.bound_to(map@),
    {
        Sim {
            time: 0,
            map_name: map.name().clone(),
            edits_name: map.edits_name().clone(),
            opts,
            agents: Vec::new(),
        }
    }

    /// Whether the run is one on `map` as it is edited now.
    pub fn is_bound_to(&self, map: &RoadMap) -> (bound: bool)
        ensures
            bound == self@.bound_to(map@),
    {
        self.map_name.same_as(map.name()) && self.edits_name == *map.edits_name()
    }
}

/// Picks one of `routes` by the next word of the stream.
fn pick_route(routes: &Vec<usize>, rng: &mut XorShiftRng) -> (road: usize)
    requires
        routes@.len() > 1,
    ensures
        rng_words(*final(rng)) == words_after_draw(rng_words(*old(rng))),
        road == routes@[(rng_words(*final(rng)).3 as int) % (routes@.len() as int)],
{
    let word = next_u32(rng);
    routes[(word as usize) % routes.len()]
}

impl Scenario {
    /// The routes of each plan, where the scenario can be made into agents of
    /// `sim` on `map`; else the first fault.
    fn routes_of_plans(&self, sim: &Sim, map: &RoadMap) -> (found: Result<
        Vec<Vec<usize>>,
        SpawnError,
    >)
        ensures
            match found {
                Ok(routes) => {
                    &&& scenario_fits(self@, sim@, map@)
                    &&& routes@.len() == self@.plans.len()
                    &&& forall|k: int|
                        0 <= k < routes@.len() ==> (#[trigger] routes@[k])@ == plan_routes(
                            map@,
                            self@.plans[k],
                        )
                },
                Err(e) => spawn_fault(self@, sim@, map@, e),
            },
    {
        if !self.map_name.same_as(map.name()) {
            return Err(SpawnError::ScenarioOfOtherMap);
        }
        if !sim.is_bound_to(map) {
            return Err(SpawnError::SimOfOtherMap);
        }
        if !map.routing_is_fresh() {
            return Err(SpawnError::StaleRouting);
        }
        let mut all: Vec<Vec<usize>> = Vec::new();
        let mut k: usize = 0;
        while k < self.plans.len()
            invariant
                k <= self.plans.len(),
                map@.routing_fresh(),
                self@.map_name == map@.name,
                sim@.bound_to(map@),
                all@.len() == k,
                forall|j: int| 0 <= j < k ==> plan_fits(map@, #[trigger] self@.plans[j]),
                forall|j: int|
                    0 <= j < k ==> (#[trigger] all@[j])@ == plan_routes(map@, self@.plans[j]),
            decreases self.plans.len() - k,
        {
            let p = self.plans[k];
            match map.roads_between(p.origin, p.destination, p.mode) {
                Ok(routes) => {
                    if routes.len() == 0 {
                        return Err(SpawnError::NoRoute(k));
                    }
                    all.push(routes);
                },
                Err(_) => {
                    return Err(SpawnError::UnknownPlace(k));
                },
            }
            k += 1;
        }
        Ok(all)
    }

    /// Why the scenario cannot be made into agents of `sim` on `map`, if it
    /// cannot. Nothing is drawn for this.
    pub fn check(&self, sim: &Sim, map: &RoadMap) -> (found: Result<(), SpawnError>)
        ensures
            match found {
                Ok(()) => scenario_fits(self@, sim@, map@),
                Err(e) => spawn_fault(self@, sim@, map@, e),
            },
    {
        match self.routes_of_plans(sim, map) {
            Ok(_) => Ok(()),
            Err(e) => Err(e),
        }
    }

    /// Makes the plans into agents of `sim`, in the order of the plans, behind
    /// the agents that `sim` has. Either every plan becomes an agent, or, where
    /// `check` finds a fault, nothing changes and nothing is drawn.
    pub fn instantiate(&self, sim: &mut Sim, map: &RoadMap, rng: &mut XorShiftRng) -> (done: Result<
        (),
        SpawnError,
    >)
        ensures
            match done {
                Ok(()) => {
                    &&& scenario_fits(self@, old(sim)@, map@)
                    &&& final(sim)@ == instantiated(
                        self@,
                        old(sim)@,
                        map@,
                        rng_words(*old(rng)),
                    ).0
                    &&& rng_words(*final(rng)) == instantiated(
                        self@,
                        old(sim)@,
                        map@,
                        rng_words(*old(rng)),
                    ).1
                },
                Err(e) => {
                    &&& spawn_fault(self@, old(sim)@, map@, e)
                    &&& *final(sim) == *old(sim)
                    &&& *final(rng) == *old(rng)
                },
            },
    {
        let routes = match self.routes_of_plans(sim, map) {
            Ok(routes) => routes,
            Err(e) => {
                return Err(e);
            },
        };
        let ghost start = rng_words(*rng);
        let ghost before = sim@;
        let mut k: usize = 0;
        while k < self.plans.len()
            invariant
                k <= self.plans.len(),
                routes@.len() == self@.plans.len(),
                forall|j: int|
                    0 <= j < routes@.len() ==> (#[trigger] routes@[j])@ == plan_routes(
                        map@,
                        self@.plans[j],
                    ),
                scenario_fits(self@, before, map@),
                sim@ == (SimView {
                    agents: before.agents + spawned_all(map@, self@.plans.take(k as int), start).0,
                    ..before
                }),
                rng_words(*rng) == spawned_all(map@, self@.plans.take(k as int), start).1,
            decreases self.plans.len() - k,
        {
            assert(self@.plans.take(k + 1).drop_last() =~= self@.plans.take(k as int));
            let p = self.plans[k];
            assert(plan_fits(map@, self@.plans[k as int]));
            assert(routes@[k as int]@ == plan_routes(map@, self@.plans[k as int]));
            let road = if routes[k].len() == 1 {
                routes[k][0]
            } else {
                pick_route(&routes[k], rng)
            };
            sim.agents.push(
                Agent {
                    origin: p.origin,
                    destination: p.destination,
                    depart: p.depart,
                    mode: p.mode,
                    road,
                    phase: Phase::Waiting,
                },
            );
            assert(sim@.agents =~= before.agents + spawned_all(
                map@,
                self@.plans.take(k + 1),
                start,
            ).0);
            k += 1;
        }
        assert(self@.plans.take(self.plans.len() as int) =~= self@.plans);
        Ok(())
    }
}

} // verus!

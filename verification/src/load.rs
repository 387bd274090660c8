//! Setting a run up: what to load, and the three ways to get from a load
//! target to a map, a simulation and a random stream that fit one another.
//!
//! Nothing here touches a disk. `SimFlags::advance` is told what has been
//! fetched and answers what to fetch next, until the run stands or the load
//! has failed; whoever drives it does the reading.

use crate::edits::{cmd_fits, edit_error_text, edited, edits_fit, lemma_apply_cmds_frame};
use crate::edits::{EditError, MapEdits, MapEditsView};
use crate::network::{routing_of, RoadMapView};
use crate::paths::{edits_path, load_mode, map_path, path_edits, seattle_name};
use crate::paths::{LoadMode, MapName};
use crate::rng::{rng_words, seed_from_u64, seeded_words, Words};
use crate::road_map::RoadMap;
use crate::savestate::{decoded, load, savestate_error_text};
use crate::savestate::SavestateError;
use crate::scenario::{apply_modifiers, modified_by_all};
use crate::scenario::{Scenario, ScenarioModifier, ScenarioView};
use crate::sim::{fresh_sim, instantiated, lemma_one_fault, scenario_fits};
use crate::sim::{spawn_error_text, spawn_fault, unnamed};
use crate::text::{has_substring, lemma_middle_is_substring, same_text};
use crate::sim::{Sim, SimOptions, SimOptionsView, SimView, SpawnError};
use rand_xorshift::XorShiftRng;
use vstd::prelude::*;
use vstd::string::*;

verus! {

/// What a run is set up from.
pub struct SimFlags {
    /// The load target, a path to some file:
    /// - a savestate: the run goes on exactly where it stopped;
    /// - a scenario: a fresh run, peopled from it;
    /// - a map: a fresh run on it with nobody there.
    pub load: String,
    /// What is made of the scenario before it is used, in this order.
    pub modifiers: Vec<ScenarioModifier>,
    pub rng_seed: u64,
    pub opts: SimOptions,
}

/// `SimFlags` as a mathematical value.
pub struct SimFlagsView {
    pub load: Seq<char>,
    pub modifiers: Seq<ScenarioModifier>,
    pub rng_seed: u64,
    pub opts: SimOptionsView,
}

impl View for SimFlags {
    type V = SimFlagsView;

    open spec fn view(&self) -> SimFlagsView {
        SimFlagsView {
            load: self.load@,
            modifiers: self.modifiers@,
            rng_seed: self.rng_seed,
            opts: self.opts@,
        }
    }
}

impl Clone for SimFlags {
    fn clone(&self) -> (copy: SimFlags)
        ensures
            copy@ == self@,
    {
        let modifiers = self.modifiers.clone();
        assert(modifiers@ =~= self.modifiers@);
        SimFlags {
            load: self.load.clone(),
            modifiers,
            rng_seed: self.rng_seed,
            opts: self.opts.clone(),
        }
    }
}

/// The load target of a run that was given none: the map of Montlake.
pub open spec fn default_load(root: Seq<char>) -> Seq<char> {
    map_path(root, seattle_name("montlake"@))
}

/// What stands in the way of a load.
#[derive(Debug, PartialEq, Eq)]
pub enum LoadError {
    /// The load target has none of the three shapes.
    UnknownTarget,
    /// What was handed in is not what was asked for.
    OutOfTurn,
    /// The savestate could not be had.
    NoSavestate,
    /// The scenario could not be had.
    NoScenario,
    /// The map could not be had.
    NoMap,
    /// The edits that the savestate names, of this name, could not be had.
    NoEdits(String),
    /// The bytes are no savestate that can be read.
    BadSavestate(SavestateError),
    /// The map is not the one that the savestate names.
    OtherMap,
    /// The edits are not the ones that the savestate names.
    OtherEdits,
    /// The edits cannot be applied to the map.
    BadEdits(EditError),
    /// The scenario cannot be made into agents on the map.
    BadScenario(SpawnError),
}

/// What is told of a load of the target `load` that failed with `e`.
pub open spec fn load_error_text(load: Seq<char>, e: LoadError) -> Seq<char> {
    match e {
        LoadError::UnknownTarget => "Don't know how to load "@ + load,
        LoadError::OutOfTurn => "What was loaded is not what was asked for"@,
        LoadError::NoSavestate => "Couldn't load the savestate "@ + load,
        LoadError::NoScenario => "Couldn't load the scenario "@ + load,
        LoadError::NoMap => "Couldn't load the map"@,
        LoadError::NoEdits(name) => "Couldn't load edits \""@ + name@ + "\""@,
        LoadError::BadSavestate(fault) => "Couldn't read the savestate: "@ + savestate_error_text(
            fault,
        ),
        LoadError::OtherMap => "The map is not the one that the savestate names"@,
        LoadError::OtherEdits => "The edits are not the ones that the savestate names"@,
        LoadError::BadEdits(fault) => "Couldn't apply the edits: "@ + edit_error_text(fault),
        LoadError::BadScenario(fault) => "Couldn't seed from the scenario: "@ + spawn_error_text(
            fault,
        ),
    }
}

/// The map that a resumed run stands on: `map` with `edits` applied and its
/// routing table computed anew.
pub open spec fn resumed_map(map: RoadMapView, edits: MapEditsView) -> RoadMapView {
    let e = edited(map, edits);
    RoadMapView { routing_stamp: e.stamp, routing: routing_of(e.roads), ..e }
}

impl SimFlagsView {
    /// The scenario as it is used: with the modifiers applied, in their order.
    pub open spec fn scenario_used(self, scenario: ScenarioView) -> ScenarioView {
        modified_by_all(scenario, self.modifiers)
    }

    /// The options of a run seeded from `scenario`: a run without a name is
    /// named after the scenario.
    pub open spec fn opts_used(self, scenario: ScenarioView) -> SimOptionsView {
        if self.opts.run_name == unnamed() {
            SimOptionsView { run_name: scenario.scenario_name, ..self.opts }
        } else {
            self.opts
        }
    }

    /// The run seeded from `scenario` before anybody is in it.
    pub open spec fn empty_run(self, scenario: ScenarioView, map: RoadMapView) -> SimView {
        fresh_sim(map, self.opts_used(self.scenario_used(scenario)))
    }

    /// `run` is the fresh run on `map` with nobody in it: the map as it was
    /// handed in, the clock at zero, the stream at its start.
    pub open spec fn bare_run(self, map: RoadMapView, run: (RoadMap, Sim, XorShiftRng)) -> bool {
        &&& run.0@ == map
        &&& run.1@ == fresh_sim(map, self.opts)
        &&& rng_words(run.2) == seeded_words(self.rng_seed)
    }

    /// `run` is what seeding from `scenario` on `map` comes to: the seeded run
    /// where the scenario as it is used fits the map, and else the first fault
    /// that stands in the way.
    pub open spec fn seeded(
        self,
        scenario: ScenarioView,
        map: RoadMapView,
        run: Result<(RoadMap, Sim, XorShiftRng), LoadError>,
    ) -> bool {
        match run {
            Ok((m, sim, rng)) => {
                &&& scenario_fits(
                    self.scenario_used(scenario),
                    self.empty_run(scenario, map),
                    map,
                )
                &&& m@ == map
                &&& sim@ == self.seeded_run(scenario, map).0
                &&& rng_words(rng) == self.seeded_run(scenario, map).1
            },
            Err(e) => {
                &&& e matches LoadError::BadScenario(fault)
                &&& spawn_fault(
                    self.scenario_used(scenario),
                    self.empty_run(scenario, map),
                    map,
                    fault,
                )
            },
        }
    }

    /// `run` is what resuming the run `sim` on `map` under `edits` comes to:
    /// the run as it was saved, on the edited map with a current routing
    /// table and with the stream at its start; or what stands in the way.
    pub open spec fn resumed(
        self,
        sim: SimView,
        map: RoadMapView,
        edits: MapEditsView,
        run: Result<(RoadMap, Sim, XorShiftRng), LoadError>,
    ) -> bool {
        match run {
            Ok((m, s, rng)) => {
                &&& sim.map_name == map.name
                &&& sim.edits_name == edits.edits_name
                &&& edits_fit(map, edits)
                &&& map.stamp < u64::MAX
                &&& m@ == resumed_map(map, edits)
                &&& m@.routing_fresh()
                &&& s@ == sim
                &&& s@.bound_to(m@)
                &&& rng_words(rng) == seeded_words(self.rng_seed)
            },
            Err(e) => resume_fault(sim, map, edits, e),
        }
    }

    /// The run seeded from `scenario` on `map`, and where the random stream
    /// stands when everybody is in it.
    pub open spec fn seeded_run(self, scenario: ScenarioView, map: RoadMapView) -> (SimView, Words) {
        instantiated(
            self.scenario_used(scenario),
            self.empty_run(scenario, map),
            map,
            seeded_words(self.rng_seed),
        )
    }
}

impl SimFlags {
    /// The seed of a run that was given none.
    pub const RNG_SEED: u64 = 42;

    /// The flags of a run from what was given on the command line, with the
    /// defaults for what was not: the map of Montlake under `root`, no
    /// modifiers, the seed `RNG_SEED`.
    pub fn from_args(
        load: Option<String>,
        modifiers: Option<Vec<ScenarioModifier>>,
        rng_seed: Option<u64>,
        opts: SimOptions,
        root: &str,
    ) -> (flags: SimFlags)
        ensures
            flags@.load == match load {
                Some(given) => given@,
                None => default_load(root@),
            },
            flags@.modifiers == match modifiers {
                Some(given) => given@,
                None => Seq::<ScenarioModifier>::empty(),
            },
            flags@.rng_seed == match rng_seed {
                Some(given) => given,
                None => SimFlags::RNG_SEED,
            },
            flags@.opts == opts@,
    {
        SimFlags {
            load: match load {
                Some(given) => given,
                None => MapName::seattle("montlake").path(root),
            },
            modifiers: match modifiers {
                Some(given) => given,
                None => Vec::new(),
            },
            rng_seed: match rng_seed {
                Some(given) => given,
                None => SimFlags::RNG_SEED,
            },
            opts,
        }
    }

    /// The flags of a test run named `run_name`: the map of Montlake under
    /// `root`, no modifiers, the seed `RNG_SEED`.
    pub fn for_test(root: &str, run_name: &str) -> (flags: SimFlags)
        ensures
            flags@ == (SimFlagsView {
                load: default_load(root@),
                modifiers: Seq::empty(),
                rng_seed: SimFlags::RNG_SEED,
                opts: SimOptionsView {
                    run_name: run_name@,
                    log_events: false,
                    record_trips: false,
                },
            }),
    {
        SimFlags {
            load: MapName::seattle("montlake").path(root),
            modifiers: Vec::new(),
            rng_seed: SimFlags::RNG_SEED,
            opts: SimOptions::new(run_name),
        }
    }

    /// Tells in words why the load failed.
    pub fn failure_message(&self, e: LoadError) -> (text: String)
        ensures
            text@ == load_error_text(self@.load, e),
    {
        match e {
            LoadError::UnknownTarget => {
                let mut text = String::from_str("Don't know how to load ");
                text.append(self.load.as_str());
                text
            },
            LoadError::OutOfTurn => String::from_str("What was loaded is not what was asked for"),
            LoadError::NoSavestate => {
                let mut text = String::from_str("Couldn't load the savestate ");
                text.append(self.load.as_str());
                text
            },
            LoadError::NoScenario => {
                let mut text = String::from_str("Couldn't load the scenario ");
                text.append(self.load.as_str());
                text
            },
            LoadError::NoMap => String::from_str("Couldn't load the map"),
            LoadError::NoEdits(name) => {
                let mut text = String::from_str("Couldn't load edits \"");
                text.append(name.as_str());
                text.append("\"");
                text
            },
            LoadError::BadSavestate(fault) => {
                let mut text = String::from_str("Couldn't read the savestate: ");
                text.append(fault.message().as_str());
                text
            },
            LoadError::OtherMap => String::from_str(
                "The map is not the one that the savestate names",
            ),
            LoadError::OtherEdits => String::from_str(
                "The edits are not the ones that the savestate names",
            ),
            LoadError::BadEdits(fault) => {
                let mut text = String::from_str("Couldn't apply the edits: ");
                text.append(fault.message().as_str());
                text
            },
            LoadError::BadScenario(fault) => {
                let mut text = String::from_str("Couldn't seed from the scenario: ");
                text.append(fault.message().as_str());
                text
            },
        }
    }

    /// The random stream of the run, at its start.
    pub fn make_rng(&self) -> (rng: XorShiftRng)
        ensures
            rng_words(rng) == seeded_words(self@.rng_seed),
    {
        seed_from_u64(self.rng_seed)
    }

    /// How the load target is loaded, where the data lies under `root`.
    pub fn load_mode(&self, root: &str) -> (mode: LoadMode)
        ensures
            mode == load_mode(self@.load, root@),
    {
        LoadMode::of(self.load.as_str(), root)
    }

    /// A fresh run on `map` with nobody in it.
    pub fn bare(&self, map: RoadMap) -> (run: (RoadMap, Sim, XorShiftRng))
        ensures
            self@.bare_run(map@, run),
    {
        let sim = Sim::new(&map, self.opts.clone());
        let rng = self.make_rng();
        (map, sim, rng)
    }

    /// A fresh run on `map`, peopled from `scenario` as the modifiers make it.
    /// A run without a name is named after the scenario. The agents are drawn
    /// from the stream that the seed starts.
    pub fn seed(&self, scenario: Scenario, map: RoadMap) -> (run: Result<
        (RoadMap, Sim, XorShiftRng),
        LoadError,
    >)
        ensures
            self@.seeded(scenario@, map@, run),
    {
        let mut rng = self.make_rng();
        let scenario = apply_modifiers(&self.modifiers, scenario);
        let mut opts = self.opts.clone();
        if opts.is_unnamed() {
            opts.run_name = scenario.scenario_name.clone();
        }
        let mut sim = Sim::new(&map, opts);
        match scenario.instantiate(&mut sim, &map, &mut rng) {
            Ok(()) => Ok((map, sim, rng)),
            Err(fault) => Err(LoadError::BadScenario(fault)),
        }
    }

    /// The run `sim` goes on, on `map` with `edits` applied and the routing
    /// table computed anew. The map and the edits must be the ones that the run
    /// names, and the edits must apply; the stream starts from the seed.
    pub fn resume(&self, sim: Sim, map: RoadMap, edits: &MapEdits) -> (run: Result<
        (RoadMap, Sim, XorShiftRng),
        LoadError,
    >)
        ensures
            self@.resumed(sim@, map@, edits@, run),
    {
        if !sim.map_name.same_as(map.name()) {
            return Err(LoadError::OtherMap);
        }
        if sim.edits_name != edits.edits_name {
            return Err(LoadError::OtherEdits);
        }
        proof {
            lemma_apply_cmds_frame(map@, edits@.commands);
        }
        let mut map = map;
        match map.apply_edits(edits) {
            Ok(()) => {},
            Err(fault) => {
                return Err(LoadError::BadEdits(fault));
            },
        }
        map.recalculate_pathfinding_after_edits();
        let rng = self.make_rng();
        Ok((map, sim, rng))
    }
}

/// `e` is what stands in the way of resuming the run `sim` on `map` under
/// `edits`: the map's name is looked at first, then the name of the edits,
/// then whether they apply.
pub open spec fn resume_fault(sim: SimView, map: RoadMapView, edits: MapEditsView, e: LoadError) -> bool {
    match e {
        LoadError::OtherMap => sim.map_name != map.name,
        LoadError::OtherEdits => sim.map_name == map.name && sim.edits_name != edits.edits_name,
        LoadError::BadEdits(fault) => {
            &&& sim.map_name == map.name
            &&& sim.edits_name == edits.edits_name
            &&& match fault {
                EditError::WrongMap => edits.map_name != map.name,
                EditError::Misfit(k) => {
                    &&& edits.map_name == map.name
                    &&& k < edits.commands.len()
                    &&& !cmd_fits(map, edits.commands[k as int])
                    &&& forall|j: int|
                        0 <= j < k ==> cmd_fits(map, #[trigger] edits.commands[j])
                },
                EditError::StampExhausted => edits_fit(map, edits) && map.stamp == u64::MAX,
            }
        },
        _ => false,
    }
}

/// How far a load has come.
pub enum LoadState {
    /// Nothing has been asked for yet.
    Start,
    /// Resuming: the savestate has been asked for.
    AwaitSavestate,
    /// Resuming: the map that the savestate names has been asked for.
    AwaitResumeMap { sim: Sim },
    /// Resuming: the edits that the savestate names have been asked for.
    AwaitEdits { sim: Sim, map: RoadMap },
    /// Seeding: the scenario has been asked for.
    AwaitScenario,
    /// Seeding: the map that the scenario names has been asked for.
    AwaitScenarioMap { scenario: Scenario },
    /// A bare map: it has been asked for.
    AwaitBareMap,
    /// The run stands.
    Loaded { map: RoadMap, sim: Sim, rng: XorShiftRng },
    /// The load has failed. Nothing of the run is handed out.
    Failed(LoadError),
}

/// What has been fetched for a load; `None` where it could not be had.
pub enum LoadEvent {
    /// Nothing yet: the load begins.
    Begin,
    GotSavestate(Option<Vec<u8>>),
    GotScenario(Option<Scenario>),
    GotMap(Option<RoadMap>),
    GotEdits(Option<MapEdits>),
}

/// What to fetch next for a load, by its path.
pub enum LoadAction {
    ReadSavestate(String),
    ReadScenario(String),
    ReadMap(String),
    ReadEdits(String),
    /// Nothing: the load is over.
    Stop,
}

impl LoadState {
    /// The load mode that the state belongs to, where it is on the way of one.
    pub open spec fn mode(self) -> Option<LoadMode> {
        match self {
            LoadState::AwaitSavestate => Some(LoadMode::Resume),
            LoadState::AwaitResumeMap { .. } => Some(LoadMode::Resume),
            LoadState::AwaitEdits { .. } => Some(LoadMode::Resume),
            LoadState::AwaitScenario => Some(LoadMode::SeedScenario),
            LoadState::AwaitScenarioMap { .. } => Some(LoadMode::SeedScenario),
            LoadState::AwaitBareMap => Some(LoadMode::BareMap),
            _ => None,
        }
    }

    /// What a load that is over has come to.
    pub open spec fn outcome(self) -> Option<Result<(RoadMap, Sim, XorShiftRng), LoadError>> {
        match self {
            LoadState::Loaded { map, sim, rng } => Some(Ok((map, sim, rng))),
            LoadState::Failed(e) => Some(Err(e)),
            _ => None,
        }
    }

    /// The run, or why there is none, once the load is over.
    pub fn into_outcome(self) -> (out: Option<Result<(RoadMap, Sim, XorShiftRng), LoadError>>)
        ensures
            out == self.outcome(),
    {
        match self {
            LoadState::Loaded { map, sim, rng } => Some(Ok((map, sim, rng))),
            LoadState::Failed(e) => Some(Err(e)),
            _ => None,
        }
    }
}

/// The load has failed with `e`.
pub open spec fn fails(next: LoadState, action: LoadAction, e: LoadError) -> bool {
    next == LoadState::Failed(e) && action is Stop
}

/// `run` is no run, for want of the edits named `edits_name`.
pub open spec fn lacks_edits(
    run: Result<(RoadMap, Sim, XorShiftRng), LoadError>,
    edits_name: Seq<char>,
) -> bool {
    run matches Err(LoadError::NoEdits(name)) && name@ == edits_name
}

impl SimFlagsView {
    /// `next` and `action` are the answer to `event` in `state`.
    ///
    /// A load begins by reading the target; its shape decides the mode, and
    /// each mode asks for its files one after the other. What could not be
    /// had, and what was not asked for, ends the load.
    pub open spec fn advanced(
        self,
        root: Seq<char>,
        state: LoadState,
        event: LoadEvent,
        next: LoadState,
        action: LoadAction,
    ) -> bool {
        match (state, event) {
            (LoadState::Start, LoadEvent::Begin) => match load_mode(self.load, root) {
                LoadMode::Resume => {
                    &&& next is AwaitSavestate
                    &&& action matches LoadAction::ReadSavestate(path)
                    &&& path@ == self.load
                },
                LoadMode::SeedScenario => {
                    &&& next is AwaitScenario
                    &&& action matches LoadAction::ReadScenario(path)
                    &&& path@ == self.load
                },
                LoadMode::BareMap => {
                    &&& next is AwaitBareMap
                    &&& action matches LoadAction::ReadMap(path)
                    &&& path@ == self.load
                },
                LoadMode::Invalid => fails(next, action, LoadError::UnknownTarget),
            },
            (LoadState::AwaitSavestate, LoadEvent::GotSavestate(Some(bytes))) => match decoded(
                bytes@,
            ) {
                Ok(saved) => {
                    &&& next matches LoadState::AwaitResumeMap { sim }
                    &&& sim@ == saved
                    &&& action matches LoadAction::ReadMap(path)
                    &&& path@ == map_path(root, saved.map_name)
                },
                Err(e) => fails(next, action, LoadError::BadSavestate(e)),
            },
            (LoadState::AwaitSavestate, LoadEvent::GotSavestate(None)) => fails(
                next,
                action,
                LoadError::NoSavestate,
            ),
            (LoadState::AwaitResumeMap { sim }, LoadEvent::GotMap(Some(map))) => {
                if sim@.map_name == map@.name {
                    &&& next matches LoadState::AwaitEdits { sim: kept, map: got }
                    &&& kept@ == sim@
                    &&& got@ == map@
                    &&& action matches LoadAction::ReadEdits(path)
                    &&& path@ == edits_path(root, map@.name, sim@.edits_name)
                } else {
                    fails(next, action, LoadError::OtherMap)
                }
            },
            (LoadState::AwaitResumeMap { .. }, LoadEvent::GotMap(None)) => fails(
                next,
                action,
                LoadError::NoMap,
            ),
            (LoadState::AwaitEdits { sim, map }, LoadEvent::GotEdits(Some(edits))) => {
                &&& next.outcome() matches Some(run)
                &&& self.resumed(sim@, map@, edits@, run)
                &&& action is Stop
            },
            (LoadState::AwaitEdits { sim, .. }, LoadEvent::GotEdits(None)) => {
                &&& next.outcome() matches Some(run)
                &&& lacks_edits(run, sim@.edits_name)
                &&& action is Stop
            },
            (LoadState::AwaitScenario, LoadEvent::GotScenario(Some(scenario))) => {
                &&& next matches LoadState::AwaitScenarioMap { scenario: kept }
                &&& kept@ == scenario@
                &&& action matches LoadAction::ReadMap(path)
                &&& path@ == map_path(root, scenario@.map_name)
            },
            (LoadState::AwaitScenario, LoadEvent::GotScenario(None)) => fails(
                next,
                action,
                LoadError::NoScenario,
            ),
            (LoadState::AwaitScenarioMap { scenario }, LoadEvent::GotMap(Some(map))) => {
                &&& next.outcome() matches Some(run)
                &&& self.seeded(scenario@, map@, run)
                &&& action is Stop
            },
            (LoadState::AwaitScenarioMap { .. }, LoadEvent::GotMap(None)) => fails(
                next,
                action,
                LoadError::NoMap,
            ),
            (LoadState::AwaitBareMap, LoadEvent::GotMap(Some(map))) => {
                &&& next.outcome() matches Some(Ok(run))
                &&& self.bare_run(map@, run)
                &&& action is Stop
            },
            (LoadState::AwaitBareMap, LoadEvent::GotMap(None)) => fails(
                next,
                action,
                LoadError::NoMap,
            ),
            _ => fails(next, action, LoadError::OutOfTurn),
        }
    }
}

/// The end of a load that came to `run`.
fn settle(run: Result<(RoadMap, Sim, XorShiftRng), LoadError>) -> (out: (LoadState, LoadAction))
    ensures
        out.0.outcome() == Some(run),
        out.1 is Stop,
{
    match run {
        Ok((map, sim, rng)) => (LoadState::Loaded { map, sim, rng }, LoadAction::Stop),
        Err(e) => (LoadState::Failed(e), LoadAction::Stop),
    }
}

impl SimFlags {
    /// Answers `event` in `state`: how far the load has come now, and what to
    /// fetch next. A load is driven by handing in `Start` and `Begin` and
    /// then, time after time, the state that came back and what was fetched
    /// for the action that came with it, until the action is `Stop`.
    pub fn advance(&self, root: &str, state: LoadState, event: LoadEvent) -> (out: (
        LoadState,
        LoadAction,
    ))
        ensures
            self@.advanced(root@, state, event, out.0, out.1),
    {
        match (state, event) {
            (LoadState::Start, LoadEvent::Begin) => match self.load_mode(root) {
                LoadMode::Resume => (
                    LoadState::AwaitSavestate,
                    LoadAction::ReadSavestate(self.load.clone()),
                ),
                LoadMode::SeedScenario => (
                    LoadState::AwaitScenario,
                    LoadAction::ReadScenario(self.load.clone()),
                ),
                LoadMode::BareMap => (LoadState::AwaitBareMap, LoadAction::ReadMap(self.load.clone())),
                LoadMode::Invalid => settle(Err(LoadError::UnknownTarget)),
            },
            (LoadState::AwaitSavestate, LoadEvent::GotSavestate(Some(bytes))) => match load(
                bytes.as_slice(),
            ) {
                Ok(sim) => {
                    let path = sim.map_name.path(root);
                    (LoadState::AwaitResumeMap { sim }, LoadAction::ReadMap(path))
                },
                Err(e) => settle(Err(LoadError::BadSavestate(e))),
            },
            (LoadState::AwaitSavestate, LoadEvent::GotSavestate(None)) => settle(
                Err(LoadError::NoSavestate),
            ),
            (LoadState::AwaitResumeMap { sim }, LoadEvent::GotMap(Some(map))) => {
                if sim.map_name.same_as(map.name()) {
                    let path = path_edits(root, map.name(), sim.edits_name.as_str());
                    (LoadState::AwaitEdits { sim, map }, LoadAction::ReadEdits(path))
                } else {
                    settle(Err(LoadError::OtherMap))
                }
            },
            (LoadState::AwaitResumeMap { .. }, LoadEvent::GotMap(None)) => settle(
                Err(LoadError::NoMap),
            ),
            (LoadState::AwaitEdits { sim, map }, LoadEvent::GotEdits(Some(edits))) => settle(
                self.resume(sim, map, &edits),
            ),
            (LoadState::AwaitEdits { sim, .. }, LoadEvent::GotEdits(None)) => settle(
                Err(LoadError::NoEdits(sim.edits_name)),
            ),
            (LoadState::AwaitScenario, LoadEvent::GotScenario(Some(scenario))) => {
                let path = scenario.map_name.path(root);
                (LoadState::AwaitScenarioMap { scenario }, LoadAction::ReadMap(path))
            },
            (LoadState::AwaitScenario, LoadEvent::GotScenario(None)) => settle(
                Err(LoadError::NoScenario),
            ),
            (LoadState::AwaitScenarioMap { scenario }, LoadEvent::GotMap(Some(map))) => settle(
                self.seed(scenario, map),
            ),
            (LoadState::AwaitScenarioMap { .. }, LoadEvent::GotMap(None)) => settle(
                Err(LoadError::NoMap),
            ),
            (LoadState::AwaitBareMap, LoadEvent::GotMap(Some(map))) => settle(Ok(self.bare(map))),
            (LoadState::AwaitBareMap, LoadEvent::GotMap(None)) => settle(Err(LoadError::NoMap)),
            _ => settle(Err(LoadError::OutOfTurn)),
        }
    }
}

/// Files held in memory, each under its path. Of two files under one path
/// the first counts.
pub struct Files {
    pub savestates: Vec<(String, Vec<u8>)>,
    pub scenarios: Vec<(String, Scenario)>,
    pub maps: Vec<(String, RoadMap)>,
    pub edits: Vec<(String, MapEdits)>,
}

/// The first file under `path` stands at place `k`.
pub open spec fn is_place_of<T>(list: Seq<(String, T)>, path: Seq<char>, k: int) -> bool {
    &&& 0 <= k < list.len()
    &&& list[k].0@ == path
    &&& forall|j: int| 0 <= j < k ==> (#[trigger] list[j]).0@ != path
}

/// The file held under `path`, if there is one.
pub open spec fn held<T>(list: Seq<(String, T)>, path: Seq<char>) -> Option<T> {
    if exists|k: int| is_place_of(list, path, k) {
        Some(list[choose|k: int| is_place_of(list, path, k)].1)
    } else {
        None
    }
}

/// Takes the file held under `path` out of `list`.
fn take<T>(list: Vec<(String, T)>, path: &str) -> (found: Option<T>)
    ensures
        found == held(list@, path@),
{
    let ghost all = list@;
    let mut rest = list;
    let mut k: usize = 0;
    while k < rest.len()
        invariant
            k <= rest.len(),
            all == list@,
            rest@ == all,
            forall|j: int| 0 <= j < k ==> (#[trigger] all[j]).0@ != path@,
        decreases rest.len() - k,
    {
        if same_text(rest[k].0.as_str(), path) {
            proof {
                assert(is_place_of(all, path@, k as int));
                assert forall|c: int| #[trigger] is_place_of(all, path@, c) implies c == k by {
                    if c < k {
                        assert(all[c].0@ != path@);
                    }
                    if k < c {
                        assert(all[k as int].0@ != path@);
                    }
                }
            }
            let entry = rest.remove(k);
            return Some(entry.1);
        }
        k += 1;
    }
    proof {
        assert forall|j: int| !is_place_of(all, path@, j) by {
            if 0 <= j < all.len() {
                assert(all[j].0@ != path@);
            }
        }
    }
    None
}

impl SimFlagsView {
    /// `run` is what resuming from the savestate `bytes` comes to, with what
    /// `files` hold.
    pub open spec fn resumed_from(
        self,
        root: Seq<char>,
        bytes: Seq<u8>,
        files: Files,
        run: Result<(RoadMap, Sim, XorShiftRng), LoadError>,
    ) -> bool {
        match decoded(bytes) {
            Err(e) => run == Err::<(RoadMap, Sim, XorShiftRng), LoadError>(
                LoadError::BadSavestate(e),
            ),
            Ok(sim) => match held(files.maps@, map_path(root, sim.map_name)) {
                None => run == Err::<(RoadMap, Sim, XorShiftRng), LoadError>(LoadError::NoMap),
                Some(map) => if sim.map_name != map@.name {
                    run == Err::<(RoadMap, Sim, XorShiftRng), LoadError>(LoadError::OtherMap)
                } else {
                    match held(files.edits@, edits_path(root, map@.name, sim.edits_name)) {
                        None => lacks_edits(run, sim.edits_name),
                        Some(edits) => self.resumed(sim, map@, edits@, run),
                    }
                },
            },
        }
    }

    /// `run` is what loading the target comes to, with what `files` hold
    /// under the data directory `root`: by the one mode that the shape of the
    /// target asks for, and with no other mode tried where that one fails.
    pub open spec fn loaded(
        self,
        root: Seq<char>,
        files: Files,
        run: Result<(RoadMap, Sim, XorShiftRng), LoadError>,
    ) -> bool {
        match load_mode(self.load, root) {
            LoadMode::Resume => match held(files.savestates@, self.load) {
                None => run == Err::<(RoadMap, Sim, XorShiftRng), LoadError>(
                    LoadError::NoSavestate,
                ),
                Some(bytes) => self.resumed_from(root, bytes@, files, run),
            },
            LoadMode::SeedScenario => match held(files.scenarios@, self.load) {
                None => run == Err::<(RoadMap, Sim, XorShiftRng), LoadError>(
                    LoadError::NoScenario,
                ),
                Some(scenario) => match held(files.maps@, map_path(root, scenario@.map_name)) {
                    None => run == Err::<(RoadMap, Sim, XorShiftRng), LoadError>(
                        LoadError::NoMap,
                    ),
                    Some(map) => self.seeded(scenario@, map@, run),
                },
            },
            LoadMode::BareMap => match held(files.maps@, self.load) {
                None => run == Err::<(RoadMap, Sim, XorShiftRng), LoadError>(LoadError::NoMap),
                Some(map) => run matches Ok(made) && self.bare_run(map@, made),
            },
            LoadMode::Invalid => run == Err::<(RoadMap, Sim, XorShiftRng), LoadError>(
                LoadError::UnknownTarget,
            ),
        }
    }
}

impl SimFlags {
    /// Loads a map and a simulation from files that are held in memory, by
    /// the mode that the load target asks for. Where `files` hold what that
    /// mode needs and it fits together, the run stands; else the first thing
    /// that is missing or does not fit is told, and nothing of a run is
    /// handed out.
    pub fn load_synchronously(&self, root: &str, files: Files) -> (run: Result<
        (RoadMap, Sim, XorShiftRng),
        LoadError,
    >)
        ensures
            self@.loaded(root@, files, run),
    {
        let Files { savestates, scenarios, maps, edits } = files;
        match self.load_mode(root) {
            LoadMode::Resume => {
                let bytes = match take(savestates, self.load.as_str()) {
                    Some(bytes) => bytes,
                    None => {
                        return Err(LoadError::NoSavestate);
                    },
                };
                let sim = match load(bytes.as_slice()) {
                    Ok(sim) => sim,
                    Err(e) => {
                        return Err(LoadError::BadSavestate(e));
                    },
                };
                let map = match take(maps, sim.map_name.path(root).as_str()) {
                    Some(map) => map,
                    None => {
                        return Err(LoadError::NoMap);
                    },
                };
                if !sim.map_name.same_as(map.name()) {
                    return Err(LoadError::OtherMap);
                }
                let path = path_edits(root, map.name(), sim.edits_name.as_str());
                match take(edits, path.as_str()) {
                    Some(edits) => self.resume(sim, map, &edits),
                    None => Err(LoadError::NoEdits(sim.edits_name)),
                }
            },
            LoadMode::SeedScenario => {
                let scenario = match take(scenarios, self.load.as_str()) {
                    Some(scenario) => scenario,
                    None => {
                        return Err(LoadError::NoScenario);
                    },
                };
                match take(maps, scenario.map_name.path(root).as_str()) {
                    Some(map) => self.seed(scenario, map),
                    None => Err(LoadError::NoMap),
                }
            },
            LoadMode::BareMap => match take(maps, self.load.as_str()) {
                Some(map) => Ok(self.bare(map)),
                None => Err(LoadError::NoMap),
            },
            LoadMode::Invalid => Err(LoadError::UnknownTarget),
        }
    }
}

/// A load never goes another way than its target asks for. Of a target with
/// the saves marker only savestates, maps and edits are looked at:
/// whatever scenarios there are, the load comes to the same. Of a scenario
/// target no savestates and edits are looked at, and of a map target nothing
/// but maps.
pub proof fn lemma_other_files_do_not_count(
    flags: SimFlagsView,
    root: Seq<char>,
    files: Files,
    others: Files,
    run: Result<(RoadMap, Sim, XorShiftRng), LoadError>,
)
    requires
        flags.loaded(root, files, run),
        others.maps@ == files.maps@,
        load_mode(flags.load, root) == LoadMode::Resume ==> others.savestates@
            == files.savestates@ && others.edits@ == files.edits@,
        load_mode(flags.load, root) == LoadMode::SeedScenario ==> others.scenarios@
            == files.scenarios@,
    ensures
        flags.loaded(root, others, run),
{
}

/// A target with the saves marker whose edits are not held comes to no run:
/// where the savestate can be read and its map is held under its own name,
/// the load fails for want of the edits, and the fault names them.
pub proof fn lemma_resume_needs_its_edits(
    flags: SimFlagsView,
    root: Seq<char>,
    files: Files,
    run: Result<(RoadMap, Sim, XorShiftRng), LoadError>,
)
    requires
        flags.loaded(root, files, run),
        load_mode(flags.load, root) == LoadMode::Resume,
        held(files.savestates@, flags.load) matches Some(bytes) && decoded(bytes@) matches Ok(sim)
            && held(files.maps@, map_path(root, sim.map_name)) matches Some(map) && map@.name
            == sim.map_name && held(files.edits@, edits_path(root, map@.name, sim.edits_name))
            is None,
    ensures
        held(files.savestates@, flags.load) matches Some(bytes) && decoded(bytes@) matches Ok(sim)
            && lacks_edits(run, sim.edits_name),
{
}

/// What is told of edits that could not be had names them.
pub proof fn lemma_missing_edits_are_named(load: Seq<char>, name: String)
    ensures
        has_substring(load_error_text(load, LoadError::NoEdits(name)), name@),
{
    lemma_middle_is_substring("Couldn't load edits \""@, name@, "\""@);
}

/// A target with the maps marker alone, whose map is held, comes to a run
/// with nobody in it and the clock at zero, on the map as it is held, with
/// the stream at its start.
pub proof fn lemma_bare_map_is_empty(
    flags: SimFlagsView,
    root: Seq<char>,
    files: Files,
    run: Result<(RoadMap, Sim, XorShiftRng), LoadError>,
)
    requires
        flags.loaded(root, files, run),
        load_mode(flags.load, root) == LoadMode::BareMap,
        held(files.maps@, flags.load) is Some,
    ensures
        run matches Ok(made) && made.1@.agents.len() == 0 && made.1@.time == 0 && made.1@.bound_to(
            made.0@,
        ) && rng_words(made.2) == seeded_words(flags.rng_seed),
{
}

/// The shape of the target alone decides the mode, and a load stays in its
/// mode. From the start a load goes into the mode of its target, or fails
/// where the target has no shape; from a state of one mode it goes to a state
/// of the same mode or comes to its end, and never into another mode.
pub proof fn lemma_load_keeps_its_mode(
    flags: SimFlagsView,
    root: Seq<char>,
    state: LoadState,
    event: LoadEvent,
    next: LoadState,
    action: LoadAction,
)
    requires
        flags.advanced(root, state, event, next, action),
    ensures
        state is Start && event is Begin ==> if load_mode(flags.load, root) == LoadMode::Invalid {
            next == LoadState::Failed(LoadError::UnknownTarget)
        } else {
            next.mode() == Some(load_mode(flags.load, root))
        },
        state.mode() is Some ==> next.mode() == state.mode() || next.outcome() is Some,
        next.mode() is None ==> next.outcome() is Some && action is Stop,
        next is Start ==> false,
{
}

/// Who is in a seeded run, in what order, and where the stream stands
/// afterwards, is settled by the map, the scenario, the list of modifiers and
/// the seed: flags that agree in these two seed the same agents, whatever
/// their targets and options are.
pub proof fn lemma_seeding_is_deterministic(
    a: SimFlagsView,
    b: SimFlagsView,
    scenario: ScenarioView,
    map: RoadMapView,
)
    requires
        a.modifiers == b.modifiers,
        a.rng_seed == b.rng_seed,
    ensures
        a.seeded_run(scenario, map).0.agents == b.seeded_run(scenario, map).0.agents,
        a.seeded_run(scenario, map).1 == b.seeded_run(scenario, map).1,
{
}

/// Two loads that seed from the same scenario on the same map with the same
/// flags come to the same run: the same agents in the same order, the same
/// clock and names, the stream at the same place, or the same fault.
pub proof fn lemma_seeded_twice(
    flags: SimFlagsView,
    scenario: ScenarioView,
    map: RoadMapView,
    first: Result<(RoadMap, Sim, XorShiftRng), LoadError>,
    second: Result<(RoadMap, Sim, XorShiftRng), LoadError>,
)
    requires
        flags.seeded(scenario, map, first),
        flags.seeded(scenario, map, second),
    ensures
        first is Ok <==> second is Ok,
        first matches Ok(one) ==> second matches Ok(other) && one.0@ == other.0@ && one.1@
            == other.1@ && rng_words(one.2) == rng_words(other.2),
        first matches Err(e) ==> second matches Err(f) && e == f,
{
    if let Err(LoadError::BadScenario(e)) = first {
        lemma_one_fault(
            flags.scenario_used(scenario),
            flags.empty_run(scenario, map),
            map,
            e,
            e,
        );
        if let Err(LoadError::BadScenario(f)) = second {
            lemma_one_fault(
                flags.scenario_used(scenario),
                flags.empty_run(scenario, map),
                map,
                e,
                f,
            );
        }
    }
    if let Err(LoadError::BadScenario(f)) = second {
        lemma_one_fault(
            flags.scenario_used(scenario),
            flags.empty_run(scenario, map),
            map,
            f,
            f,
        );
    }
}

} // verus!

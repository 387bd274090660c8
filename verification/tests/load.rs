use rand::{RngCore, SeedableRng};
use rand_xorshift::XorShiftRng;
use traffic_sim::edits::{EditCmd, EditError, MapEdits};
use traffic_sim::load::{Files, LoadAction, LoadError, LoadEvent, LoadState, SimFlags};
use traffic_sim::network::{ModeSet, Control, Intersection, LaneType, TravelMode};
use traffic_sim::paths::{LoadMode, MapName};
use traffic_sim::road_map::{Road, RoadMap};
use traffic_sim::savestate::{save, SavestateError};
use traffic_sim::scenario::{Plan, Scenario, ScenarioModifier};
use traffic_sim::sim::{Agent, Phase, Sim, SimOptions, SpawnError};

const EVERYBODY: ModeSet = ModeSet { drive: true, bike: true, walk: true, transit: true };

const ROOT: &str = "/data";

fn montlake() -> RoadMap {
    RoadMap::new(
        MapName::seattle("montlake"),
        vec![
            Intersection { control: Control::Signal { offset: 0 }, elevation: 0 },
            Intersection { control: Control::Uncontrolled, elevation: 300 },
        ],
        vec![
            Road { src: 0, dst: 1, lanes: vec![LaneType::Driving, LaneType::Sidewalk], through_traffic: EVERYBODY },
            Road { src: 0, dst: 1, lanes: vec![LaneType::Driving], through_traffic: EVERYBODY },
            Road { src: 1, dst: 0, lanes: vec![LaneType::Biking], through_traffic: EVERYBODY },
        ],
    )
    .unwrap()
}

fn ballard() -> RoadMap {
    RoadMap::new(MapName::seattle("ballard"), vec![], vec![]).unwrap()
}

fn weekday() -> Scenario {
    Scenario {
        scenario_name: "weekday".to_string(),
        map_name: MapName::seattle("montlake"),
        plans: vec![
            Plan { origin: 0, destination: 1, depart: 1, mode: TravelMode::Drive },
            Plan { origin: 1, destination: 0, depart: 2, mode: TravelMode::Bike },
            Plan { origin: 0, destination: 1, depart: 3, mode: TravelMode::Walk },
        ],
    }
}

fn proposal() -> MapEdits {
    MapEdits {
        edits_name: "proposal".to_string(),
        map_name: MapName::seattle("montlake"),
        commands: vec![
            EditCmd::ChangeSignalOffset { i: 0, offset: 15 },
            EditCmd::ChangeLaneType { r: 1, lane: 0, lt: LaneType::Bus },
        ],
    }
}

fn saved_run() -> Sim {
    Sim {
        time: 77,
        map_name: MapName::seattle("montlake"),
        edits_name: "proposal".to_string(),
        opts: SimOptions { run_name: "long run".to_string(), log_events: true, record_trips: true },
        agents: vec![
            Agent {
                origin: 0,
                destination: 1,
                depart: 70,
                mode: TravelMode::Drive,
                road: 0,
                phase: Phase::Finished,
            },
            Agent {
                origin: 1,
                destination: 0,
                depart: 90,
                mode: TravelMode::Bike,
                road: 2,
                phase: Phase::Waiting,
            },
        ],
    }
}

fn flags_for(load: &str) -> SimFlags {
    SimFlags::from_args(Some(load.to_string()), None, None, SimOptions::new("unnamed"), ROOT)
}

fn begin(flags: &SimFlags) -> (LoadState, LoadAction) {
    flags.advance(ROOT, LoadState::Start, LoadEvent::Begin)
}

fn failed_with(out: &(LoadState, LoadAction), e: LoadError) -> bool {
    matches!(out.1, LoadAction::Stop) && matches!(&out.0, LoadState::Failed(f) if *f == e)
}

fn asks_for_map(action: &LoadAction, path: &str) -> bool {
    matches!(action, LoadAction::ReadMap(p) if p == path)
}

const SAVE: &str = "/data/player/saves/us/seattle/montlake/proposal_long run/77.bin";
const SCENARIO: &str = "/data/system/us/seattle/scenarios/montlake/weekday.bin";
const MONTLAKE: &str = "/data/system/us/seattle/maps/montlake.bin";

#[test]
fn flags_have_their_defaults() {
    let flags = SimFlags::from_args(None, None, None, SimOptions::new("unnamed"), ROOT);
    assert_eq!(flags.load, MONTLAKE);
    assert!(flags.modifiers.is_empty());
    assert_eq!(flags.rng_seed, 42);
    assert_eq!(flags.opts.run_name, "unnamed");
    assert_eq!(flags.load_mode(ROOT), LoadMode::BareMap);
}

#[test]
fn flags_take_what_is_given() {
    let opts = SimOptions { run_name: "mine".to_string(), log_events: true, record_trips: false };
    let modifiers = vec![ScenarioModifier::Repeat(2), ScenarioModifier::DelayDepartures(9)];
    let flags = SimFlags::from_args(
        Some(SCENARIO.to_string()),
        Some(modifiers.clone()),
        Some(7),
        opts,
        ROOT,
    );
    assert_eq!(flags.load, SCENARIO);
    assert_eq!(flags.modifiers, modifiers);
    assert_eq!(flags.rng_seed, 7);
    assert_eq!(flags.opts.run_name, "mine");
    assert!(flags.opts.log_events);
    assert!(!flags.opts.record_trips);
    assert_eq!(flags.load_mode(ROOT), LoadMode::SeedScenario);
    let copy = flags.clone();
    assert_eq!(copy.load, SCENARIO);
    assert_eq!(copy.modifiers, modifiers);
    assert_eq!(copy.rng_seed, 7);
    assert_eq!(copy.opts.run_name, "mine");
}

#[test]
fn flags_for_a_test_load_montlake_bare() {
    let flags = SimFlags::for_test("/elsewhere", "my test");
    assert_eq!(flags.load, "/elsewhere/system/us/seattle/maps/montlake.bin");
    assert!(flags.modifiers.is_empty());
    assert_eq!(flags.rng_seed, SimFlags::RNG_SEED);
    assert_eq!(flags.opts.run_name, "my test");
    assert!(!flags.opts.log_events);
    assert!(!flags.opts.record_trips);
    assert_eq!(flags.load_mode("/elsewhere"), LoadMode::BareMap);
}

#[test]
fn a_target_without_shape_ends_the_load_at_once() {
    let out = begin(&flags_for("/data/montlake.bin"));
    assert!(failed_with(&out, LoadError::UnknownTarget));
    assert!(matches!(out.0.into_outcome(), Some(Err(LoadError::UnknownTarget))));
}

#[test]
fn a_bare_map_gives_an_empty_run_at_time_zero() {
    let flags = flags_for("/somewhere/maps/montlake");
    assert_eq!(flags.rng_seed, 42);
    assert!(flags.modifiers.is_empty());
    let (state, action) = begin(&flags);
    assert!(matches!(state, LoadState::AwaitBareMap));
    assert!(asks_for_map(&action, "/somewhere/maps/montlake"));
    let (state, action) = flags.advance(ROOT, state, LoadEvent::GotMap(Some(montlake())));
    assert!(matches!(action, LoadAction::Stop));
    let (map, sim, rng) = state.into_outcome().unwrap().unwrap();
    assert_eq!(sim.agents.len(), 0);
    assert_eq!(sim.time, 0);
    assert!(sim.is_bound_to(&map));
    assert_eq!(sim.opts.run_name, "unnamed");
    assert!(map.name().same_as(&MapName::seattle("montlake")));
    assert_eq!(map.edits_name(), "");
    assert_eq!(map.stamp(), 0);
    assert_eq!(map.num_roads(), 3);
    assert_eq!(rng, XorShiftRng::seed_from_u64(42));
}

#[test]
fn the_default_target_loads_as_a_bare_map() {
    let flags = SimFlags::for_test(ROOT, "test");
    let (state, action) = begin(&flags);
    assert!(matches!(state, LoadState::AwaitBareMap));
    assert!(asks_for_map(&action, MONTLAKE));
    let (map, sim, _) = flags.bare(montlake());
    assert!(sim.agents.is_empty());
    assert_eq!(sim.time, 0);
    assert_eq!(sim.opts.run_name, "test");
    assert!(sim.is_bound_to(&map));
}

#[test]
fn a_bare_map_that_cannot_be_had_ends_the_load() {
    let flags = flags_for(MONTLAKE);
    let (state, _) = begin(&flags);
    let out = flags.advance(ROOT, state, LoadEvent::GotMap(None));
    assert!(failed_with(&out, LoadError::NoMap));
}

#[test]
fn a_scenario_seeds_a_fresh_run() {
    let mut flags = flags_for(SCENARIO);
    flags.rng_seed = 5;
    let (state, action) = begin(&flags);
    assert!(matches!(state, LoadState::AwaitScenario));
    assert!(matches!(&action, LoadAction::ReadScenario(p) if p == SCENARIO));
    let (state, action) = flags.advance(ROOT, state, LoadEvent::GotScenario(Some(weekday())));
    assert!(matches!(state, LoadState::AwaitScenarioMap { .. }));
    assert!(asks_for_map(&action, MONTLAKE));
    let (state, action) = flags.advance(ROOT, state, LoadEvent::GotMap(Some(montlake())));
    assert!(matches!(action, LoadAction::Stop));
    let (map, sim, rng) = state.into_outcome().unwrap().unwrap();
    let mut reference = XorShiftRng::seed_from_u64(5);
    let picked = [0usize, 1][reference.next_u32() as usize % 2];
    assert_eq!(
        sim.agents,
        vec![
            Agent {
                origin: 0,
                destination: 1,
                depart: 1,
                mode: TravelMode::Drive,
                road: picked,
                phase: Phase::Waiting,
            },
            Agent {
                origin: 1,
                destination: 0,
                depart: 2,
                mode: TravelMode::Bike,
                road: 2,
                phase: Phase::Waiting,
            },
            Agent {
                origin: 0,
                destination: 1,
                depart: 3,
                mode: TravelMode::Walk,
                road: 0,
                phase: Phase::Waiting,
            },
        ]
    );
    assert_eq!(rng, reference);
    assert_eq!(sim.time, 0);
    // a run without a name is named after the scenario
    assert_eq!(sim.opts.run_name, "weekday");
    assert!(sim.is_bound_to(&map));
    assert_eq!(map.stamp(), 0);
    assert!(map.routing_is_fresh());
}

#[test]
fn a_named_run_keeps_its_name() {
    let mut flags = flags_for(SCENARIO);
    flags.opts = SimOptions { run_name: "mine".to_string(), log_events: true, record_trips: true };
    let (_, sim, _) = flags.seed(weekday(), montlake()).ok().unwrap();
    assert_eq!(sim.opts.run_name, "mine");
    assert!(sim.opts.log_events);
    assert!(sim.opts.record_trips);
}

#[test]
fn modifiers_are_applied_before_seeding_in_their_order() {
    let mut flags = flags_for(SCENARIO);
    flags.modifiers = vec![
        ScenarioModifier::ChangeMode { from: TravelMode::Drive, to: TravelMode::Walk },
        ScenarioModifier::CancelMode(TravelMode::Walk),
    ];
    let (_, sim, rng) = flags.seed(weekday(), montlake()).ok().unwrap();
    assert_eq!(sim.agents.len(), 1);
    assert_eq!(sim.agents[0].mode, TravelMode::Bike);
    assert_eq!(rng, XorShiftRng::seed_from_u64(42));
    flags.modifiers.reverse();
    let (_, sim, rng) = flags.seed(weekday(), montlake()).ok().unwrap();
    assert_eq!(sim.agents.len(), 2);
    assert_eq!(sim.agents[0].mode, TravelMode::Walk);
    assert_eq!(sim.agents[0].road, 0);
    assert_eq!(sim.agents[1].mode, TravelMode::Bike);
    assert_eq!(rng, XorShiftRng::seed_from_u64(42));
}

#[test]
fn seeding_twice_gives_the_same_run() {
    let mut flags = flags_for(SCENARIO);
    flags.modifiers = vec![ScenarioModifier::Repeat(20)];
    let (_, one, rng_one) = flags.seed(weekday(), montlake()).ok().unwrap();
    let (_, two, rng_two) = flags.clone().seed(weekday(), montlake()).ok().unwrap();
    assert_eq!(one.agents.len(), 60);
    assert_eq!(one.agents, two.agents);
    assert_eq!(rng_one, rng_two);
    assert!(one.agents[..20].iter().any(|a| a.road == 0));
    assert!(one.agents[..20].iter().any(|a| a.road == 1));
    // the options have no say in who is there
    let mut other = flags.clone();
    other.opts = SimOptions { run_name: "x".to_string(), log_events: true, record_trips: true };
    other.load = "/other/scenarios/x".to_string();
    let (_, three, rng_three) = other.seed(weekday(), montlake()).ok().unwrap();
    assert_eq!(one.agents, three.agents);
    assert_eq!(rng_one, rng_three);
}

#[test]
fn a_scenario_that_does_not_fit_the_map_ends_the_load() {
    let flags = flags_for(SCENARIO);
    let (state, _) = begin(&flags);
    let (state, _) = flags.advance(ROOT, state, LoadEvent::GotScenario(Some(weekday())));
    let out = flags.advance(ROOT, state, LoadEvent::GotMap(Some(ballard())));
    assert!(failed_with(&out, LoadError::BadScenario(SpawnError::ScenarioOfOtherMap)));
    let mut far = weekday();
    far.plans[1].destination = 2;
    assert!(matches!(
        flags.seed(far, montlake()),
        Err(LoadError::BadScenario(SpawnError::UnknownPlace(1)))
    ));
    let mut by_bus = weekday();
    by_bus.plans[2].mode = TravelMode::Transit;
    assert!(matches!(
        flags.seed(by_bus, montlake()),
        Err(LoadError::BadScenario(SpawnError::NoRoute(2)))
    ));
}

#[test]
fn a_scenario_or_its_map_that_cannot_be_had_ends_the_load() {
    let flags = flags_for(SCENARIO);
    let (state, _) = begin(&flags);
    let out = flags.advance(ROOT, state, LoadEvent::GotScenario(None));
    assert!(failed_with(&out, LoadError::NoScenario));
    let (state, _) = begin(&flags);
    let (state, _) = flags.advance(ROOT, state, LoadEvent::GotScenario(Some(weekday())));
    let out = flags.advance(ROOT, state, LoadEvent::GotMap(None));
    assert!(failed_with(&out, LoadError::NoMap));
}

#[test]
fn a_savestate_is_resumed_on_the_edited_map() {
    let mut flags = flags_for(SAVE);
    flags.rng_seed = 9;
    assert_eq!(flags.load_mode(ROOT), LoadMode::Resume);
    let (state, action) = begin(&flags);
    assert!(matches!(state, LoadState::AwaitSavestate));
    assert!(matches!(&action, LoadAction::ReadSavestate(p) if p == SAVE));
    let bytes = save(&saved_run());
    let (state, action) = flags.advance(ROOT, state, LoadEvent::GotSavestate(Some(bytes)));
    assert!(matches!(state, LoadState::AwaitResumeMap { .. }));
    assert!(asks_for_map(&action, MONTLAKE));
    let (state, action) = flags.advance(ROOT, state, LoadEvent::GotMap(Some(montlake())));
    assert!(matches!(state, LoadState::AwaitEdits { .. }));
    assert!(matches!(
        &action,
        LoadAction::ReadEdits(p) if p == "/data/player/edits/us/seattle/montlake/proposal.json"
    ));
    let (state, action) = flags.advance(ROOT, state, LoadEvent::GotEdits(Some(proposal())));
    assert!(matches!(action, LoadAction::Stop));
    let (map, sim, rng) = state.into_outcome().unwrap().unwrap();
    assert_eq!(sim.time, 77);
    assert_eq!(sim.agents, saved_run().agents);
    assert_eq!(sim.opts.run_name, "long run");
    assert!(sim.opts.log_events);
    assert_eq!(sim.edits_name, "proposal");
    assert!(sim.is_bound_to(&map));
    assert_eq!(map.edits_name(), "proposal");
    assert_eq!(map.stamp(), 1);
    assert!(map.routing_is_fresh());
    assert_eq!(
        map.intersection(0),
        Some(Intersection { control: Control::Signal { offset: 15 }, elevation: 0 })
    );
    assert_eq!(map.lanes(1), Some(vec![LaneType::Bus]));
    assert_eq!(map.roads_between(0, 1, TravelMode::Drive), Ok(vec![0]));
    assert_eq!(map.roads_between(0, 1, TravelMode::Transit), Ok(vec![1]));
    assert_eq!(rng, XorShiftRng::seed_from_u64(9));
}

#[test]
fn a_resume_without_its_edits_fails_and_hands_out_nothing() {
    let flags = flags_for(SAVE);
    let (state, _) = begin(&flags);
    let bytes = save(&saved_run());
    let (state, _) = flags.advance(ROOT, state, LoadEvent::GotSavestate(Some(bytes)));
    let (state, _) = flags.advance(ROOT, state, LoadEvent::GotMap(Some(montlake())));
    let out = flags.advance(ROOT, state, LoadEvent::GotEdits(None));
    // the fault names the edits that the savestate asks for
    assert!(failed_with(&out, LoadError::NoEdits("proposal".to_string())));
    assert!(matches!(
        out.0.into_outcome(),
        Some(Err(LoadError::NoEdits(name))) if name == "proposal"
    ));
}

#[test]
fn a_resume_needs_the_map_and_the_edits_that_the_savestate_names() {
    let flags = flags_for(SAVE);
    assert!(matches!(
        flags.resume(saved_run(), ballard(), &proposal()),
        Err(LoadError::OtherMap)
    ));
    let mut other = proposal();
    other.edits_name = "other".to_string();
    assert!(matches!(flags.resume(saved_run(), montlake(), &other), Err(LoadError::OtherEdits)));
    let mut foreign = proposal();
    foreign.map_name = MapName::seattle("ballard");
    assert!(matches!(
        flags.resume(saved_run(), montlake(), &foreign),
        Err(LoadError::BadEdits(EditError::WrongMap))
    ));
    let mut misfit = proposal();
    misfit.commands.push(EditCmd::ChangeSignalOffset { i: 1, offset: 3 });
    assert!(matches!(
        flags.resume(saved_run(), montlake(), &misfit),
        Err(LoadError::BadEdits(EditError::Misfit(2)))
    ));
    // through the loader, too
    let (state, _) = begin(&flags);
    let (state, _) =
        flags.advance(ROOT, state, LoadEvent::GotSavestate(Some(save(&saved_run()))));
    let out = flags.advance(ROOT, state, LoadEvent::GotMap(Some(ballard())));
    assert!(failed_with(&out, LoadError::OtherMap));
}

#[test]
fn a_savestate_that_cannot_be_had_or_read_ends_the_load() {
    let flags = flags_for(SAVE);
    let (state, _) = begin(&flags);
    let out = flags.advance(ROOT, state, LoadEvent::GotSavestate(None));
    assert!(failed_with(&out, LoadError::NoSavestate));
    let (state, _) = begin(&flags);
    let out = flags.advance(ROOT, state, LoadEvent::GotSavestate(Some(vec![1, 0, 0])));
    assert!(failed_with(&out, LoadError::BadSavestate(SavestateError::Malformed)));
    let mut bytes = save(&saved_run());
    bytes[0] = 3;
    let (state, _) = begin(&flags);
    let out = flags.advance(ROOT, state, LoadEvent::GotSavestate(Some(bytes)));
    assert!(failed_with(
        &out,
        LoadError::BadSavestate(SavestateError::IncompatibleVersion(3))
    ));
    let (state, _) = begin(&flags);
    let (state, _) =
        flags.advance(ROOT, state, LoadEvent::GotSavestate(Some(save(&saved_run()))));
    let out = flags.advance(ROOT, state, LoadEvent::GotMap(None));
    assert!(failed_with(&out, LoadError::NoMap));
}

#[test]
fn a_target_with_the_saves_marker_is_never_seeded_or_loaded_bare() {
    // the target has all three markers
    let flags = flags_for("/data/player/saves/scenarios/maps/x.bin");
    let (state, action) = begin(&flags);
    assert!(matches!(state, LoadState::AwaitSavestate));
    assert!(matches!(action, LoadAction::ReadSavestate(_)));
    // a scenario or a map in place of the savestate is not taken
    let out = flags.advance(ROOT, state, LoadEvent::GotScenario(Some(weekday())));
    assert!(failed_with(&out, LoadError::OutOfTurn));
    let (state, _) = begin(&flags);
    let out = flags.advance(ROOT, state, LoadEvent::GotMap(Some(montlake())));
    assert!(failed_with(&out, LoadError::OutOfTurn));
    // and a scenario target never asks for a savestate or reads a bare map
    let flags = flags_for("/x/scenarios/maps/y");
    let (state, action) = begin(&flags);
    assert!(matches!(state, LoadState::AwaitScenario));
    assert!(matches!(action, LoadAction::ReadScenario(_)));
    let out = flags.advance(ROOT, state, LoadEvent::GotMap(Some(montlake())));
    assert!(failed_with(&out, LoadError::OutOfTurn));
    let flags = flags_for("/x/maps/y");
    let (state, action) = begin(&flags);
    assert!(matches!(state, LoadState::AwaitBareMap));
    assert!(matches!(action, LoadAction::ReadMap(_)));
    let out = flags.advance(ROOT, state, LoadEvent::GotSavestate(Some(save(&saved_run()))));
    assert!(failed_with(&out, LoadError::OutOfTurn));
}

#[test]
fn what_was_not_asked_for_ends_the_load() {
    let flags = flags_for(MONTLAKE);
    let out = flags.advance(ROOT, LoadState::Start, LoadEvent::GotMap(Some(montlake())));
    assert!(failed_with(&out, LoadError::OutOfTurn));
    let out = flags.advance(ROOT, LoadState::AwaitBareMap, LoadEvent::Begin);
    assert!(failed_with(&out, LoadError::OutOfTurn));
    let out = flags.advance(ROOT, LoadState::AwaitScenario, LoadEvent::GotEdits(Some(proposal())));
    assert!(failed_with(&out, LoadError::OutOfTurn));
    let out = flags.advance(ROOT, LoadState::Failed(LoadError::NoMap), LoadEvent::Begin);
    assert!(failed_with(&out, LoadError::OutOfTurn));
    let (map, sim, rng) = flags.bare(montlake());
    let out = flags.advance(ROOT, LoadState::Loaded { map, sim, rng }, LoadEvent::Begin);
    assert!(failed_with(&out, LoadError::OutOfTurn));
    assert!(LoadState::Start.into_outcome().is_none());
    assert!(LoadState::AwaitSavestate.into_outcome().is_none());
}

fn shelf() -> Files {
    Files {
        savestates: vec![(SAVE.to_string(), save(&saved_run()))],
        scenarios: vec![(SCENARIO.to_string(), weekday())],
        maps: vec![
            ("/data/system/us/seattle/maps/ballard.bin".to_string(), ballard()),
            (MONTLAKE.to_string(), montlake()),
        ],
        edits: vec![(
            "/data/player/edits/us/seattle/montlake/proposal.json".to_string(),
            proposal(),
        )],
    }
}

#[test]
fn a_run_is_loaded_from_files_in_memory_by_the_mode_of_its_target() {
    let (map, sim, rng) = flags_for(MONTLAKE).load_synchronously(ROOT, shelf()).ok().unwrap();
    assert!(sim.agents.is_empty());
    assert_eq!(sim.time, 0);
    assert_eq!(map.stamp(), 0);
    assert_eq!(map.num_roads(), 3);
    assert_eq!(rng, XorShiftRng::seed_from_u64(42));

    let (map, sim, _) = flags_for(SCENARIO).load_synchronously(ROOT, shelf()).ok().unwrap();
    assert_eq!(sim.agents.len(), 3);
    assert_eq!(sim.time, 0);
    assert_eq!(sim.opts.run_name, "weekday");
    assert!(sim.is_bound_to(&map));

    let (map, sim, rng) = flags_for(SAVE).load_synchronously(ROOT, shelf()).ok().unwrap();
    assert_eq!(sim.time, 77);
    assert_eq!(sim.agents, saved_run().agents);
    assert_eq!(map.edits_name(), "proposal");
    assert_eq!(map.stamp(), 1);
    assert!(map.routing_is_fresh());
    assert_eq!(map.lanes(1), Some(vec![LaneType::Bus]));
    assert!(sim.is_bound_to(&map));
    assert_eq!(rng, XorShiftRng::seed_from_u64(42));
}

#[test]
fn a_load_from_memory_tells_the_first_thing_that_is_missing() {
    let missing = |run: Result<_, LoadError>, e: LoadError| matches!(run, Err(f) if f == e);
    assert!(missing(
        flags_for("/data/nothing").load_synchronously(ROOT, shelf()),
        LoadError::UnknownTarget
    ));
    assert!(missing(
        flags_for("/data/system/us/seattle/maps/tacoma.bin").load_synchronously(ROOT, shelf()),
        LoadError::NoMap
    ));
    assert!(missing(
        flags_for("/data/x/scenarios/y").load_synchronously(ROOT, shelf()),
        LoadError::NoScenario
    ));
    assert!(missing(
        flags_for("/data/player/saves/other.bin").load_synchronously(ROOT, shelf()),
        LoadError::NoSavestate
    ));
    let mut files = shelf();
    files.maps.pop();
    assert!(missing(flags_for(SCENARIO).load_synchronously(ROOT, files), LoadError::NoMap));
    let mut files = shelf();
    files.maps.pop();
    assert!(missing(flags_for(SAVE).load_synchronously(ROOT, files), LoadError::NoMap));
    // the edits are gone: no run, whatever else is there
    let mut files = shelf();
    files.edits.clear();
    assert!(missing(
        flags_for(SAVE).load_synchronously(ROOT, files),
        LoadError::NoEdits("proposal".to_string())
    ));
    let mut files = shelf();
    files.edits[0].0 = "/data/player/edits/us/seattle/montlake/other.json".to_string();
    let flags = flags_for(SAVE);
    let run = flags.load_synchronously(ROOT, files);
    assert_eq!(
        flags.failure_message(run.err().unwrap()),
        "Couldn't load edits \"proposal\""
    );
    let mut files = shelf();
    files.savestates[0].1[0] = 9;
    assert!(missing(
        flags_for(SAVE).load_synchronously(ROOT, files),
        LoadError::BadSavestate(SavestateError::IncompatibleVersion(9))
    ));
    // the map under the name of the savestate's map is another one
    let mut files = shelf();
    files.maps[1].1 = ballard();
    assert!(missing(flags_for(SAVE).load_synchronously(ROOT, files), LoadError::OtherMap));
    let mut files = shelf();
    files.edits[0].1.edits_name = "other".to_string();
    assert!(missing(flags_for(SAVE).load_synchronously(ROOT, files), LoadError::OtherEdits));
    let mut files = shelf();
    files.scenarios[0].1.plans[0].origin = 9;
    assert!(missing(
        flags_for(SCENARIO).load_synchronously(ROOT, files),
        LoadError::BadScenario(SpawnError::UnknownPlace(0))
    ));
}

#[test]
fn of_two_files_under_one_path_the_first_counts() {
    let mut files = shelf();
    files.maps.insert(0, (MONTLAKE.to_string(), ballard()));
    let (map, _, _) = flags_for(MONTLAKE).load_synchronously(ROOT, files).ok().unwrap();
    assert!(map.name().same_as(&MapName::seattle("ballard")));
    // files of the other modes are not looked at
    let mut files = shelf();
    files.scenarios.clear();
    files.edits.clear();
    files.savestates.clear();
    assert!(flags_for(MONTLAKE).load_synchronously(ROOT, files).is_ok());
    let mut files = shelf();
    files.edits.clear();
    files.savestates.clear();
    assert!(flags_for(SCENARIO).load_synchronously(ROOT, files).is_ok());
    let mut files = shelf();
    files.scenarios.clear();
    assert!(flags_for(SAVE).load_synchronously(ROOT, files).is_ok());
}

#[test]
fn a_saves_marker_further_on_still_resumes() {
    // the savestate directory stands behind other segments, and the target
    // has the scenarios and the maps marker too
    let target = "/x/scenarios/y/maps/data/player/saves/run.bin";
    let flags = flags_for(target);
    assert_eq!(flags.load_mode(ROOT), LoadMode::Resume);
    let (state, action) = begin(&flags);
    assert!(matches!(state, LoadState::AwaitSavestate));
    assert!(matches!(&action, LoadAction::ReadSavestate(p) if p == target));
    let mut files = shelf();
    files.savestates[0].0 = target.to_string();
    files.scenarios.clear();
    let (map, sim, _) = flags.load_synchronously(ROOT, files).ok().unwrap();
    assert_eq!(sim.time, 77);
    assert_eq!(sim.agents, saved_run().agents);
    assert_eq!(map.edits_name(), "proposal");
    assert!(sim.is_bound_to(&map));
    // a scenario under the same target is not looked at
    let mut files = shelf();
    files.savestates[0].0 = target.to_string();
    files.scenarios[0].0 = target.to_string();
    files.maps.push((target.to_string(), ballard()));
    let (map, sim, _) = flags.load_synchronously(ROOT, files).ok().unwrap();
    assert_eq!(sim.time, 77);
    assert!(map.name().same_as(&MapName::seattle("montlake")));
}

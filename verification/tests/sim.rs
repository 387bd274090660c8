use rand::{RngCore, SeedableRng};
use rand_xorshift::XorShiftRng;
use traffic_sim::edits::{EditCmd, MapEdits};
use traffic_sim::network::{ModeSet, Control, Intersection, LaneType, TravelMode};
use traffic_sim::paths::MapName;
use traffic_sim::road_map::{Road, RoadMap};
use traffic_sim::scenario::{Plan, Scenario};
use traffic_sim::sim::Phase::{Finished, Travelling, Waiting};
use traffic_sim::sim::{Agent, Phase, Sim, SimOptions, SpawnError};

const EVERYBODY: ModeSet = ModeSet { drive: true, bike: true, walk: true, transit: true };

fn corner() -> Intersection {
    Intersection { control: Control::Uncontrolled, elevation: 0 }
}

/// Three roads lead from 0 to 1 for cars (the second also for bikes), one
/// from 1 to 2 for walking.
fn town() -> RoadMap {
    RoadMap::new(
        MapName::seattle("montlake"),
        vec![corner(), corner(), corner()],
        vec![
            Road { src: 0, dst: 1, lanes: vec![LaneType::Driving], through_traffic: EVERYBODY },
            Road { src: 0, dst: 1, lanes: vec![LaneType::Driving, LaneType::Biking], through_traffic: EVERYBODY },
            Road { src: 0, dst: 1, lanes: vec![LaneType::Driving], through_traffic: EVERYBODY },
            Road { src: 1, dst: 2, lanes: vec![LaneType::Sidewalk], through_traffic: EVERYBODY },
        ],
    )
    .unwrap()
}

fn trips(plans: Vec<Plan>) -> Scenario {
    Scenario {
        scenario_name: "weekday".to_string(),
        map_name: MapName::seattle("montlake"),
        plans,
    }
}

fn morning() -> Scenario {
    trips(vec![
        Plan { origin: 0, destination: 1, depart: 0, mode: TravelMode::Drive },
        Plan { origin: 1, destination: 2, depart: 2, mode: TravelMode::Walk },
        Plan { origin: 0, destination: 1, depart: 1, mode: TravelMode::Bike },
        Plan { origin: 0, destination: 1, depart: 5, mode: TravelMode::Drive },
    ])
}

fn waiting(origin: usize, destination: usize, depart: u64, mode: TravelMode, road: usize) -> Agent {
    Agent { origin, destination, depart, mode, road, phase: Phase::Waiting }
}

fn phases(sim: &Sim) -> Vec<Phase> {
    sim.agents.iter().map(|a| a.phase).collect()
}

#[test]
fn a_new_run_is_empty_and_at_time_zero() {
    let map = town();
    let sim = Sim::new(&map, SimOptions::new("test"));
    assert_eq!(sim.time, 0);
    assert!(sim.agents.is_empty());
    assert!(sim.map_name.same_as(&MapName::seattle("montlake")));
    assert_eq!(sim.edits_name, "");
    assert_eq!(sim.opts.run_name, "test");
    assert!(!sim.opts.log_events);
    assert!(!sim.opts.record_trips);
    assert!(sim.is_bound_to(&map));
    assert!(sim.is_done());
}

#[test]
fn options_know_whether_the_run_has_a_name() {
    assert!(SimOptions::new("unnamed").is_unnamed());
    assert!(!SimOptions::new("weekday").is_unnamed());
    assert!(!SimOptions::new("").is_unnamed());
    let opts = SimOptions { run_name: "x".to_string(), log_events: true, record_trips: false };
    let copy = opts.clone();
    assert_eq!(copy.run_name, "x");
    assert!(copy.log_events);
    assert!(!copy.record_trips);
}

#[test]
fn plans_become_agents_in_their_order() {
    let map = town();
    let mut sim = Sim::new(&map, SimOptions::new("test"));
    let mut rng = XorShiftRng::seed_from_u64(42);
    let mut reference = XorShiftRng::seed_from_u64(42);
    assert_eq!(morning().instantiate(&mut sim, &map, &mut rng), Ok(()));
    let first = [0usize, 1, 2][reference.next_u32() as usize % 3];
    let last = [0usize, 1, 2][reference.next_u32() as usize % 3];
    assert_eq!(
        sim.agents,
        vec![
            waiting(0, 1, 0, TravelMode::Drive, first),
            waiting(1, 2, 2, TravelMode::Walk, 3),
            waiting(0, 1, 1, TravelMode::Bike, 1),
            waiting(0, 1, 5, TravelMode::Drive, last),
        ]
    );
    // two plans had a choice: two words were drawn, no more
    assert_eq!(rng, reference);
    assert_eq!(sim.time, 0);
    assert_eq!(sim.opts.run_name, "test");
}

#[test]
fn where_there_is_one_route_nothing_is_drawn() {
    let map = town();
    let mut sim = Sim::new(&map, SimOptions::new("test"));
    let mut rng = XorShiftRng::seed_from_u64(7);
    let scenario = trips(vec![
        Plan { origin: 1, destination: 2, depart: 0, mode: TravelMode::Walk },
        Plan { origin: 0, destination: 1, depart: 0, mode: TravelMode::Bike },
    ]);
    assert_eq!(scenario.instantiate(&mut sim, &map, &mut rng), Ok(()));
    assert_eq!(rng, XorShiftRng::seed_from_u64(7));
    assert_eq!(
        sim.agents,
        vec![waiting(1, 2, 0, TravelMode::Walk, 3), waiting(0, 1, 0, TravelMode::Bike, 1)]
    );
}

#[test]
fn the_same_seed_makes_the_same_agents() {
    let map = town();
    let mut many = Vec::new();
    for k in 0..50 {
        many.push(Plan { origin: 0, destination: 1, depart: k, mode: TravelMode::Drive });
    }
    let scenario = trips(many);
    let mut one = Sim::new(&map, SimOptions::new("one"));
    let mut rng_one = XorShiftRng::seed_from_u64(42);
    assert_eq!(scenario.instantiate(&mut one, &map, &mut rng_one), Ok(()));
    let mut two = Sim::new(&map, SimOptions::new("two"));
    let mut rng_two = XorShiftRng::seed_from_u64(42);
    assert_eq!(scenario.instantiate(&mut two, &map, &mut rng_two), Ok(()));
    assert_eq!(one.agents, two.agents);
    assert_eq!(rng_one, rng_two);
    assert_eq!(one.agents.len(), 50);
    // all three roads are taken by somebody
    for road in 0..3 {
        assert!(one.agents.iter().any(|a| a.road == road));
    }
    let mut other = Sim::new(&map, SimOptions::new("other"));
    let mut rng_other = XorShiftRng::seed_from_u64(43);
    assert_eq!(scenario.instantiate(&mut other, &map, &mut rng_other), Ok(()));
    assert_ne!(one.agents, other.agents);
}

#[test]
fn new_agents_come_behind_those_that_are_there() {
    let map = town();
    let mut sim = Sim::new(&map, SimOptions::new("test"));
    let mut rng = XorShiftRng::seed_from_u64(42);
    let walk = trips(vec![Plan { origin: 1, destination: 2, depart: 9, mode: TravelMode::Walk }]);
    let bike = trips(vec![Plan { origin: 0, destination: 1, depart: 3, mode: TravelMode::Bike }]);
    assert_eq!(walk.instantiate(&mut sim, &map, &mut rng), Ok(()));
    assert_eq!(bike.instantiate(&mut sim, &map, &mut rng), Ok(()));
    assert_eq!(
        sim.agents,
        vec![waiting(1, 2, 9, TravelMode::Walk, 3), waiting(0, 1, 3, TravelMode::Bike, 1)]
    );
}

#[test]
fn a_scenario_of_another_map_is_refused() {
    let map = town();
    let mut sim = Sim::new(&map, SimOptions::new("test"));
    let mut rng = XorShiftRng::seed_from_u64(42);
    let mut scenario = morning();
    scenario.map_name = MapName::seattle("ballard");
    assert_eq!(scenario.check(&sim, &map), Err(SpawnError::ScenarioOfOtherMap));
    assert_eq!(
        scenario.instantiate(&mut sim, &map, &mut rng),
        Err(SpawnError::ScenarioOfOtherMap)
    );
    assert!(sim.agents.is_empty());
    assert_eq!(rng, XorShiftRng::seed_from_u64(42));
}

#[test]
fn a_run_bound_to_another_map_is_refused() {
    let map = town();
    let mut rng = XorShiftRng::seed_from_u64(42);
    let mut sim = Sim::new(&map, SimOptions::new("test"));
    sim.edits_name = "some edits".to_string();
    assert!(!sim.is_bound_to(&map));
    assert_eq!(morning().instantiate(&mut sim, &map, &mut rng), Err(SpawnError::SimOfOtherMap));
    let mut sim = Sim::new(&map, SimOptions::new("test"));
    sim.map_name = MapName::seattle("ballard");
    assert!(!sim.is_bound_to(&map));
    assert_eq!(morning().instantiate(&mut sim, &map, &mut rng), Err(SpawnError::SimOfOtherMap));
    assert!(sim.agents.is_empty());
}

#[test]
fn a_stale_routing_table_is_refused() {
    let mut map = town();
    let edits = MapEdits {
        edits_name: "e".to_string(),
        map_name: MapName::seattle("montlake"),
        commands: vec![EditCmd::ChangeLaneType { r: 3, lane: 0, lt: LaneType::Biking }],
    };
    assert_eq!(map.apply_edits(&edits), Ok(()));
    let mut sim = Sim::new(&map, SimOptions::new("test"));
    let mut rng = XorShiftRng::seed_from_u64(42);
    assert_eq!(morning().instantiate(&mut sim, &map, &mut rng), Err(SpawnError::StaleRouting));
    map.recalculate_pathfinding_after_edits();
    // nobody can walk from 1 to 2 any more
    assert_eq!(morning().instantiate(&mut sim, &map, &mut rng), Err(SpawnError::NoRoute(1)));
    assert!(sim.agents.is_empty());
    assert_eq!(rng, XorShiftRng::seed_from_u64(42));
}

#[test]
fn the_first_plan_that_does_not_fit_is_named_and_nothing_changes() {
    let map = town();
    let mut sim = Sim::new(&map, SimOptions::new("test"));
    let mut rng = XorShiftRng::seed_from_u64(42);
    let scenario = trips(vec![
        Plan { origin: 0, destination: 1, depart: 0, mode: TravelMode::Drive },
        Plan { origin: 0, destination: 1, depart: 0, mode: TravelMode::Drive },
        Plan { origin: 0, destination: 3, depart: 0, mode: TravelMode::Drive },
        Plan { origin: 2, destination: 1, depart: 0, mode: TravelMode::Drive },
    ]);
    assert_eq!(scenario.check(&sim, &map), Err(SpawnError::UnknownPlace(2)));
    assert_eq!(scenario.instantiate(&mut sim, &map, &mut rng), Err(SpawnError::UnknownPlace(2)));
    assert!(sim.agents.is_empty());
    assert_eq!(rng, XorShiftRng::seed_from_u64(42));
    let scenario = trips(vec![
        Plan { origin: 0, destination: 1, depart: 0, mode: TravelMode::Drive },
        Plan { origin: 1, destination: 0, depart: 0, mode: TravelMode::Drive },
        Plan { origin: 7, destination: 0, depart: 0, mode: TravelMode::Drive },
    ]);
    assert_eq!(scenario.instantiate(&mut sim, &map, &mut rng), Err(SpawnError::NoRoute(1)));
    let scenario = trips(vec![
        Plan { origin: 3, destination: 1, depart: 0, mode: TravelMode::Drive },
    ]);
    assert_eq!(scenario.instantiate(&mut sim, &map, &mut rng), Err(SpawnError::UnknownPlace(0)));
    let scenario = trips(vec![
        Plan { origin: 1, destination: 2, depart: 0, mode: TravelMode::Transit },
    ]);
    assert_eq!(scenario.instantiate(&mut sim, &map, &mut rng), Err(SpawnError::NoRoute(0)));
    assert!(sim.agents.is_empty());
    assert_eq!(rng, XorShiftRng::seed_from_u64(42));
}

#[test]
fn an_empty_scenario_adds_nobody() {
    let map = town();
    let mut sim = Sim::new(&map, SimOptions::new("test"));
    let mut rng = XorShiftRng::seed_from_u64(42);
    assert_eq!(trips(vec![]).check(&sim, &map), Ok(()));
    assert_eq!(trips(vec![]).instantiate(&mut sim, &map, &mut rng), Ok(()));
    assert!(sim.agents.is_empty());
    assert_eq!(rng, XorShiftRng::seed_from_u64(42));
}

#[test]
fn agents_set_out_when_their_time_has_come_and_arrive_a_tick_later() {
    let map = town();
    let mut sim = Sim::new(&map, SimOptions::new("test"));
    let mut rng = XorShiftRng::seed_from_u64(42);
    // departures at 0, 2, 1, 5
    assert_eq!(morning().instantiate(&mut sim, &map, &mut rng), Ok(()));
    assert_eq!(phases(&sim), vec![Waiting, Waiting, Waiting, Waiting]);
    assert!(sim.step());
    assert_eq!(sim.time, 1);
    assert_eq!(phases(&sim), vec![Travelling, Waiting, Travelling, Waiting]);
    assert!(sim.step());
    assert_eq!(sim.time, 2);
    assert_eq!(phases(&sim), vec![Finished, Travelling, Finished, Waiting]);
    assert!(sim.step());
    assert_eq!(phases(&sim), vec![Finished, Finished, Finished, Waiting]);
    assert!(sim.step());
    assert_eq!(sim.time, 4);
    assert_eq!(phases(&sim), vec![Finished, Finished, Finished, Waiting]);
    assert!(!sim.is_done());
    assert!(sim.step());
    assert_eq!(phases(&sim), vec![Finished, Finished, Finished, Travelling]);
    assert!(sim.step());
    assert_eq!(sim.time, 6);
    assert_eq!(phases(&sim), vec![Finished, Finished, Finished, Finished]);
    assert!(sim.is_done());
    assert!(sim.step());
    assert_eq!(phases(&sim), vec![Finished, Finished, Finished, Finished]);
    // a step changes phases only
    assert_eq!(sim.agents[1].road, 3);
    assert_eq!(sim.agents[1].depart, 2);
    assert_eq!(sim.agents[1].origin, 1);
    assert_eq!(sim.agents[1].destination, 2);
    assert_eq!(sim.agents[1].mode, TravelMode::Walk);
    assert_eq!(sim.opts.run_name, "test");
    assert_eq!(sim.edits_name, "");
}

#[test]
fn running_for_some_ticks_is_stepping_that_often() {
    let map = town();
    let mut rng = XorShiftRng::seed_from_u64(42);
    let mut stepped = Sim::new(&map, SimOptions::new("test"));
    assert_eq!(morning().instantiate(&mut stepped, &map, &mut rng), Ok(()));
    let mut rng = XorShiftRng::seed_from_u64(42);
    let mut ran = Sim::new(&map, SimOptions::new("test"));
    assert_eq!(morning().instantiate(&mut ran, &map, &mut rng), Ok(()));
    for _ in 0..3 {
        stepped.step();
    }
    assert_eq!(ran.run_for(3), 3);
    assert_eq!(ran.time, 3);
    assert_eq!(ran.agents, stepped.agents);
    assert_eq!(ran.run_for(0), 0);
    assert_eq!(ran.time, 3);
    assert_eq!(ran.agents, stepped.agents);
    // in two parts or in one
    assert_eq!(ran.run_for(2), 2);
    assert_eq!(ran.run_for(4), 4);
    stepped.run_for(6);
    assert_eq!(ran.time, 9);
    assert_eq!(ran.agents, stepped.agents);
}

#[test]
fn the_clock_stops_at_its_last_tick() {
    let map = town();
    let mut sim = Sim::new(&map, SimOptions::new("test"));
    sim.agents.push(waiting(0, 1, u64::MAX, TravelMode::Drive, 0));
    sim.time = u64::MAX - 2;
    assert_eq!(sim.run_for(10), 2);
    assert_eq!(sim.time, u64::MAX);
    assert_eq!(sim.agents[0].phase, Phase::Travelling);
    assert!(!sim.step());
    assert_eq!(sim.time, u64::MAX);
    assert_eq!(sim.agents[0].phase, Phase::Travelling);
    assert_eq!(sim.run_for(5), 0);
    assert_eq!(sim.agents[0].phase, Phase::Travelling);
}

#[test]
fn a_word_is_drawn_for_each_plan_that_has_a_choice() {
    let map = town();
    for choosing in 0..6usize {
        let mut plans = Vec::new();
        for k in 0..6 {
            // who drives has three roads to choose from, who walks has one
            if k < choosing {
                plans.push(Plan { origin: 0, destination: 1, depart: 0, mode: TravelMode::Drive });
            } else {
                plans.push(Plan { origin: 1, destination: 2, depart: 0, mode: TravelMode::Walk });
            }
        }
        let mut sim = Sim::new(&map, SimOptions::new("test"));
        let mut rng = XorShiftRng::seed_from_u64(11);
        assert_eq!(trips(plans).instantiate(&mut sim, &map, &mut rng), Ok(()));
        let mut reference = XorShiftRng::seed_from_u64(11);
        for _ in 0..choosing {
            reference.next_u32();
        }
        assert_eq!(rng, reference);
        assert_eq!(sim.agents.len(), 6);
    }
}

use traffic_sim::network::TravelMode;
use traffic_sim::paths::MapName;
use traffic_sim::scenario::{apply_modifiers, Plan, Scenario, ScenarioModifier};

fn plan(origin: usize, destination: usize, depart: u64, mode: TravelMode) -> Plan {
    Plan { origin, destination, depart, mode }
}

fn weekday() -> Scenario {
    Scenario {
        scenario_name: "weekday".to_string(),
        map_name: MapName::seattle("montlake"),
        plans: vec![
            plan(0, 1, 10, TravelMode::Drive),
            plan(1, 2, 20, TravelMode::Bike),
            plan(2, 0, 30, TravelMode::Drive),
            plan(0, 2, 40, TravelMode::Walk),
        ],
    }
}

#[test]
fn a_modifier_leaves_the_names_alone() {
    let out = ScenarioModifier::CancelMode(TravelMode::Drive).apply(weekday());
    assert_eq!(out.scenario_name, "weekday");
    assert!(out.map_name.same_as(&MapName::seattle("montlake")));
}

#[test]
fn delaying_moves_every_departure() {
    let out = ScenarioModifier::DelayDepartures(5).apply(weekday());
    assert_eq!(
        out.plans,
        vec![
            plan(0, 1, 15, TravelMode::Drive),
            plan(1, 2, 25, TravelMode::Bike),
            plan(2, 0, 35, TravelMode::Drive),
            plan(0, 2, 45, TravelMode::Walk),
        ]
    );
    assert_eq!(ScenarioModifier::DelayDepartures(0).apply(weekday()).plans, weekday().plans);
}

#[test]
fn delaying_stops_at_the_last_tick() {
    let mut s = weekday();
    s.plans = vec![plan(0, 1, u64::MAX - 3, TravelMode::Drive), plan(0, 1, 1, TravelMode::Drive)];
    let out = ScenarioModifier::DelayDepartures(10).apply(s);
    assert_eq!(
        out.plans,
        vec![plan(0, 1, u64::MAX, TravelMode::Drive), plan(0, 1, 11, TravelMode::Drive)]
    );
    let mut s = weekday();
    s.plans = vec![plan(0, 1, 7, TravelMode::Drive)];
    let out = ScenarioModifier::DelayDepartures(u64::MAX - 7).apply(s);
    assert_eq!(out.plans, vec![plan(0, 1, u64::MAX, TravelMode::Drive)]);
}

#[test]
fn changing_mode_moves_only_those_of_the_first_mode() {
    let out = ScenarioModifier::ChangeMode { from: TravelMode::Drive, to: TravelMode::Transit }
        .apply(weekday());
    assert_eq!(
        out.plans,
        vec![
            plan(0, 1, 10, TravelMode::Transit),
            plan(1, 2, 20, TravelMode::Bike),
            plan(2, 0, 30, TravelMode::Transit),
            plan(0, 2, 40, TravelMode::Walk),
        ]
    );
    let same = ScenarioModifier::ChangeMode { from: TravelMode::Transit, to: TravelMode::Bike }
        .apply(weekday());
    assert_eq!(same.plans, weekday().plans);
}

#[test]
fn cancelling_drops_a_mode_and_keeps_the_order() {
    let out = ScenarioModifier::CancelMode(TravelMode::Drive).apply(weekday());
    assert_eq!(
        out.plans,
        vec![plan(1, 2, 20, TravelMode::Bike), plan(0, 2, 40, TravelMode::Walk)]
    );
    let out = ScenarioModifier::CancelMode(TravelMode::Transit).apply(weekday());
    assert_eq!(out.plans, weekday().plans);
    let mut s = weekday();
    s.plans = vec![plan(0, 1, 1, TravelMode::Walk), plan(0, 1, 2, TravelMode::Walk)];
    assert_eq!(ScenarioModifier::CancelMode(TravelMode::Walk).apply(s).plans, vec![]);
}

#[test]
fn repeating_copies_each_plan_side_by_side() {
    let mut s = weekday();
    s.plans = vec![plan(0, 1, 10, TravelMode::Drive), plan(1, 2, 20, TravelMode::Bike)];
    let out = ScenarioModifier::Repeat(3).apply(s);
    assert_eq!(
        out.plans,
        vec![
            plan(0, 1, 10, TravelMode::Drive),
            plan(0, 1, 10, TravelMode::Drive),
            plan(0, 1, 10, TravelMode::Drive),
            plan(1, 2, 20, TravelMode::Bike),
            plan(1, 2, 20, TravelMode::Bike),
            plan(1, 2, 20, TravelMode::Bike),
        ]
    );
    assert_eq!(ScenarioModifier::Repeat(1).apply(weekday()).plans, weekday().plans);
    assert_eq!(ScenarioModifier::Repeat(0).apply(weekday()).plans, vec![]);
}

#[test]
fn modifiers_apply_in_their_order() {
    let change = ScenarioModifier::ChangeMode { from: TravelMode::Drive, to: TravelMode::Bike };
    let cancel = ScenarioModifier::CancelMode(TravelMode::Bike);
    let change_first = apply_modifiers(&vec![change, cancel], weekday());
    let cancel_first = apply_modifiers(&vec![cancel, change], weekday());
    assert_eq!(change_first.plans, vec![plan(0, 2, 40, TravelMode::Walk)]);
    assert_eq!(
        cancel_first.plans,
        vec![
            plan(0, 1, 10, TravelMode::Bike),
            plan(2, 0, 30, TravelMode::Bike),
            plan(0, 2, 40, TravelMode::Walk),
        ]
    );
    assert_ne!(change_first.plans, cancel_first.plans);
}

#[test]
fn no_modifiers_make_the_same_scenario() {
    let out = apply_modifiers(&vec![], weekday());
    assert_eq!(out.plans, weekday().plans);
    assert_eq!(out.scenario_name, "weekday");
}

#[test]
fn a_list_of_modifiers_is_its_parts_one_after_the_other() {
    let a = vec![
        ScenarioModifier::Repeat(2),
        ScenarioModifier::DelayDepartures(100),
    ];
    let b = vec![
        ScenarioModifier::CancelMode(TravelMode::Walk),
        ScenarioModifier::ChangeMode { from: TravelMode::Bike, to: TravelMode::Walk },
    ];
    let mut joined = a.clone();
    joined.extend(b.clone());
    let at_once = apply_modifiers(&joined, weekday());
    let in_two = apply_modifiers(&b, apply_modifiers(&a, weekday()));
    assert_eq!(at_once.plans, in_two.plans);
    assert_eq!(
        at_once.plans,
        vec![
            plan(0, 1, 110, TravelMode::Drive),
            plan(0, 1, 110, TravelMode::Drive),
            plan(1, 2, 120, TravelMode::Walk),
            plan(1, 2, 120, TravelMode::Walk),
            plan(2, 0, 130, TravelMode::Drive),
            plan(2, 0, 130, TravelMode::Drive),
        ]
    );
}

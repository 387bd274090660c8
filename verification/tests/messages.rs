use traffic_sim::edits::EditError;
use traffic_sim::load::{LoadError, SimFlags};
use traffic_sim::savestate::SavestateError;
use traffic_sim::sim::SpawnError;

#[test]
fn an_incompatible_savestate_is_named_by_its_version() {
    assert_eq!(
        SavestateError::IncompatibleVersion(7).message(),
        "the savestate has format version 7, but only version 1 can be read"
    );
    assert_eq!(
        SavestateError::IncompatibleVersion(u32::MAX).message(),
        "the savestate has format version 4294967295, but only version 1 can be read"
    );
    assert_eq!(SavestateError::Malformed.message(), "the bytes are no savestate");
}

#[test]
fn faults_of_edits_and_scenarios_name_the_place() {
    assert_eq!(EditError::WrongMap.message(), "the edits were made for another map");
    assert_eq!(EditError::Misfit(12).message(), "change 12 of the edits does not fit the map");
    assert_eq!(EditError::StampExhausted.message(), "the map cannot be edited any more often");
    assert_eq!(SpawnError::ScenarioOfOtherMap.message(), "the scenario is one of another map");
    assert_eq!(
        SpawnError::SimOfOtherMap.message(),
        "the run is bound to another map or to other edits"
    );
    assert_eq!(
        SpawnError::StaleRouting.message(),
        "the map was edited after its routing table was computed"
    );
    assert_eq!(
        SpawnError::UnknownPlace(0).message(),
        "plan 0 starts or ends at an intersection that the map does not have"
    );
    assert_eq!(
        SpawnError::NoRoute(305).message(),
        "plan 305 has no road from its origin to its destination"
    );
}

#[test]
fn a_failed_load_says_why() {
    let mut flags = SimFlags::for_test("/data", "test");
    flags.load = "/tmp/nothing".to_string();
    assert_eq!(
        flags.failure_message(LoadError::UnknownTarget),
        "Don't know how to load /tmp/nothing"
    );
    assert_eq!(
        flags.failure_message(LoadError::OutOfTurn),
        "What was loaded is not what was asked for"
    );
    assert_eq!(
        flags.failure_message(LoadError::NoSavestate),
        "Couldn't load the savestate /tmp/nothing"
    );
    assert_eq!(
        flags.failure_message(LoadError::NoScenario),
        "Couldn't load the scenario /tmp/nothing"
    );
    assert_eq!(flags.failure_message(LoadError::NoMap), "Couldn't load the map");
    assert_eq!(
        flags.failure_message(LoadError::NoEdits("bike lanes".to_string())),
        "Couldn't load edits \"bike lanes\""
    );
    assert_eq!(flags.failure_message(LoadError::NoEdits(String::new())), "Couldn't load edits \"\"");
    assert_eq!(
        flags.failure_message(LoadError::BadSavestate(SavestateError::IncompatibleVersion(2))),
        "Couldn't read the savestate: the savestate has format version 2, but only version 1 \
         can be read"
    );
    assert_eq!(
        flags.failure_message(LoadError::OtherMap),
        "The map is not the one that the savestate names"
    );
    assert_eq!(
        flags.failure_message(LoadError::OtherEdits),
        "The edits are not the ones that the savestate names"
    );
    assert_eq!(
        flags.failure_message(LoadError::BadEdits(EditError::Misfit(3))),
        "Couldn't apply the edits: change 3 of the edits does not fit the map"
    );
    assert_eq!(
        flags.failure_message(LoadError::BadScenario(SpawnError::NoRoute(1))),
        "Couldn't seed from the scenario: plan 1 has no road from its origin to its destination"
    );
}

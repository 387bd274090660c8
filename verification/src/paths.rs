//! Names of maps, where their files lie under a data directory, and how a
//! load target is read.
//!
//! Every path is the data directory `root`, a slash, and a relative part.
//! What a player made (savestates, edits) lies under `player/`; what ships
//! with a map lies under `system/`.

use crate::text::{contains, has_substring};
use crate::text::lemma_middle_is_substring;
use vstd::prelude::*;
use vstd::string::*;

verus! {

/// A map is named by country, city and its own name.
pub struct MapName {
    pub country: String,
    pub city: String,
    pub map: String,
}

/// A `MapName` as three texts.
pub struct MapNameView {
    pub country: Seq<char>,
    pub city: Seq<char>,
    pub map: Seq<char>,
}

impl View for MapName {
    type V = MapNameView;

    open spec fn view(&self) -> MapNameView {
        MapNameView { country: self.country@, city: self.city@, map: self.map@ }
    }
}

impl Clone for MapName {
    fn clone(&self) -> (copy: MapName)
        ensures
            copy@ == self@,
    {
        MapName { country: self.country.clone(), city: self.city.clone(), map: self.map.clone() }
    }
}

/// The name of the Seattle map `map`.
pub open spec fn seattle_name(map: Seq<char>) -> MapNameView {
    MapNameView { country: "us"@, city: "seattle"@, map }
}

/// Where the file of map `name` lies.
pub open spec fn map_path(root: Seq<char>, name: MapNameView) -> Seq<char> {
    root + "/system/"@ + name.country + "/"@ + name.city + "/maps/"@ + name.map + ".bin"@
}

/// Where the file of scenario `scenario` of map `name` lies.
pub open spec fn scenario_path(root: Seq<char>, name: MapNameView, scenario: Seq<char>) -> Seq<
    char,
> {
    root + "/system/"@ + name.country + "/"@ + name.city + "/scenarios/"@ + name.map + "/"@
        + scenario + ".bin"@
}

/// Where the file of the edits `edits` of map `name` lies.
pub open spec fn edits_path(root: Seq<char>, name: MapNameView, edits: Seq<char>) -> Seq<char> {
    root + "/player/edits/"@ + name.country + "/"@ + name.city + "/"@ + name.map + "/"@ + edits
        + ".json"@
}

/// The directory that holds every savestate, with its closing slash.
pub open spec fn saves_dir(root: Seq<char>) -> Seq<char> {
    root + "/player/saves/"@
}

impl MapName {
    pub fn new(country: &str, city: &str, map: &str) -> (name: MapName)
        ensures
            name@ == (MapNameView { country: country@, city: city@, map: map@ }),
    {
        MapName {
            country: String::from_str(country),
            city: String::from_str(city),
            map: String::from_str(map),
        }
    }

    /// The Seattle map `map`.
    pub fn seattle(map: &str) -> (name: MapName)
        ensures
            name@ == seattle_name(map@),
    {
        MapName::new("us", "seattle", map)
    }

    /// Whether both name the same map.
    pub fn same_as(&self, other: &MapName) -> (same: bool)
        ensures
            same == (self@ == other@),
    {
        self.country == other.country && self.city == other.city && self.map == other.map
    }

    /// The path of this map's file under `root`.
    pub fn path(&self, root: &str) -> (path: String)
        ensures
            path@ == map_path(root@, self@),
    {
        let mut p = String::from_str(root);
        p.append("/system/");
        p.append(self.country.as_str());
        p.append("/");
        p.append(self.city.as_str());
        p.append("/maps/");
        p.append(self.map.as_str());
        p.append(".bin");
        p
    }
}

/// The path of the savestate directory under `root`.
pub fn path_saves_dir(root: &str) -> (path: String)
    ensures
        path@ == saves_dir(root@),
{
    let mut p = String::from_str(root);
    p.append("/player/saves/");
    p
}

/// The path of the scenario `scenario` of map `name` under `root`.
pub fn path_scenario(root: &str, name: &MapName, scenario: &str) -> (path: String)
    ensures
        path@ == scenario_path(root@, name@, scenario@),
{
    let mut p = String::from_str(root);
    p.append("/system/");
    p.append(name.country.as_str());
    p.append("/");
    p.append(name.city.as_str());
    p.append("/scenarios/");
    p.append(name.map.as_str());
    p.append("/");
    p.append(scenario);
    p.append(".bin");
    p
}

/// The path of the edits `edits` of map `name` under `root`.
pub fn path_edits(root: &str, name: &MapName, edits: &str) -> (path: String)
    ensures
        path@ == edits_path(root@, name@, edits@),
{
    let mut p = String::from_str(root);
    p.append("/player/edits/");
    p.append(name.country.as_str());
    p.append("/");
    p.append(name.city.as_str());
    p.append("/");
    p.append(name.map.as_str());
    p.append("/");
    p.append(edits);
    p.append(".json");
    p
}

/// The three ways to load a run, and the target that fits none of them.
#[derive(Clone, Copy, Debug, PartialEq, Eq, Structural)]
pub enum LoadMode {
    /// The target is a savestate: go on where it stopped.
    Resume,
    /// The target is a scenario: a fresh run, peopled from it.
    SeedScenario,
    /// The target is a map: a fresh run with nobody in it.
    BareMap,
    /// The target has none of the three shapes.
    Invalid,
}

/// The target has the savestate directory on its way.
pub open spec fn has_saves_marker(load: Seq<char>, root: Seq<char>) -> bool {
    has_substring(load, saves_dir(root))
}

/// The target has a scenarios directory on its way.
pub open spec fn has_scenarios_marker(load: Seq<char>) -> bool {
    has_substring(load, "/scenarios/"@)
}

/// The target has a directory of maps, raw or built, on its way.
pub open spec fn has_maps_marker(load: Seq<char>) -> bool {
    has_substring(load, "/raw_maps/"@) || has_substring(load, "/maps/"@)
}

/// How the target `load` is loaded: the first marker that fits decides, in the
/// order saves, scenarios, maps.
pub open spec fn load_mode(load: Seq<char>, root: Seq<char>) -> LoadMode {
    if has_saves_marker(load, root) {
        LoadMode::Resume
    } else if has_scenarios_marker(load) {
        LoadMode::SeedScenario
    } else if has_maps_marker(load) {
        LoadMode::BareMap
    } else {
        LoadMode::Invalid
    }
}

impl LoadMode {
    /// Reads the target `load` against the data directory `root`.
    pub fn of(load: &str, root: &str) -> (mode: LoadMode)
        ensures
            mode == load_mode(load@, root@),
    {
        let saves = path_saves_dir(root);
        if contains(load, saves.as_str()) {
            LoadMode::Resume
        } else if contains(load, "/scenarios/") {
            LoadMode::SeedScenario
        } else if contains(load, "/raw_maps/") || contains(load, "/maps/") {
            LoadMode::BareMap
        } else {
            LoadMode::Invalid
        }
    }
}

/// Each marker keeps its mode against the markers that come after it: a
/// target with the saves marker is resumed whatever else it holds, one with
/// the scenarios marker is never loaded as a bare map, and a target is
/// refused exactly when it has no marker at all.
pub proof fn lemma_mode_selection(load: Seq<char>, root: Seq<char>)
    ensures
        has_saves_marker(load, root) <==> load_mode(load, root) == LoadMode::Resume,
        has_scenarios_marker(load) ==> load_mode(load, root) != LoadMode::BareMap
            && load_mode(load, root) != LoadMode::Invalid,
        has_scenarios_marker(load) && !has_saves_marker(load, root) <==> load_mode(load, root)
            == LoadMode::SeedScenario,
        has_maps_marker(load) && !has_saves_marker(load, root) && !has_scenarios_marker(load)
            <==> load_mode(load, root) == LoadMode::BareMap,
        !has_saves_marker(load, root) && !has_scenarios_marker(load) && !has_maps_marker(load)
            <==> load_mode(load, root) == LoadMode::Invalid,
{
}

/// The path of a map's file has the maps marker.
pub proof fn lemma_map_path_has_maps_marker(root: Seq<char>, name: MapNameView)
    ensures
        has_maps_marker(map_path(root, name)),
{
    let before = root + "/system/"@ + name.country + "/"@ + name.city;
    let after = name.map + ".bin"@;
    lemma_middle_is_substring(before, "/maps/"@, after);
    assert(map_path(root, name) =~= before + "/maps/"@ + after);
}

/// The path of a scenario's file has the scenarios marker.
pub proof fn lemma_scenario_path_has_scenarios_marker(
    root: Seq<char>,
    name: MapNameView,
    scenario: Seq<char>,
)
    ensures
        has_scenarios_marker(scenario_path(root, name, scenario)),
{
    let before = root + "/system/"@ + name.country + "/"@ + name.city;
    let after = name.map + "/"@ + scenario + ".bin"@;
    lemma_middle_is_substring(before, "/scenarios/"@, after);
    assert(scenario_path(root, name, scenario) =~= before + "/scenarios/"@ + after);
}

/// Whatever lies in the savestate directory has the saves marker, and so has
/// whatever holds the path of that directory further on.
pub proof fn lemma_saves_dir_has_saves_marker(front: Seq<char>, root: Seq<char>, rest: Seq<char>)
    ensures
        has_saves_marker(saves_dir(root) + rest, root),
        has_saves_marker(front + saves_dir(root) + rest, root),
{
    lemma_middle_is_substring(front, saves_dir(root), rest);
    lemma_middle_is_substring(Seq::empty(), saves_dir(root), rest);
    assert(Seq::<char>::empty() + saves_dir(root) + rest =~= saves_dir(root) + rest);
}

} // verus!

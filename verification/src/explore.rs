//! Exploring the bike network of a map: what the buttons of the screen ask
//! for, what the legend tells of each kind of road, and when the contours of
//! the heights must be drawn anew.

use crate::bike_network::{elevation_range, heights_upto};
use crate::paths::MapName;
use crate::road_map::RoadMap;
use crate::text::same_text;
use vstd::prelude::*;

verus! {

/// What a button of the top panel asks for.
#[derive(Clone, Copy, Debug, PartialEq, Eq, Structural)]
pub enum TopPanelAction {
    /// Tell about A/B Street.
    About,
    /// Show the bike master plan.
    BikeMasterPlan,
    /// Go on to edit the network.
    EditNetwork,
    /// Nothing that the panel knows.
    Unknown,
}

/// What the button named `x` of the top panel asks for.
pub open spec fn top_panel_asks(x: Seq<char>) -> TopPanelAction {
    if x == "about A/B Street"@ {
        TopPanelAction::About
    } else if x == "Bike Master Plan"@ {
        TopPanelAction::BikeMasterPlan
    } else if x == "Edit network"@ {
        TopPanelAction::EditNetwork
    } else {
        TopPanelAction::Unknown
    }
}

/// What the button named `x` of the top panel asks for.
pub fn top_panel_action(x: &str) -> (action: TopPanelAction)
    ensures
        action == top_panel_asks(x@),
{
    if same_text(x, "about A/B Street") {
        TopPanelAction::About
    } else if same_text(x, "Bike Master Plan") {
        TopPanelAction::BikeMasterPlan
    } else if same_text(x, "Edit network") {
        TopPanelAction::EditNetwork
    } else {
        TopPanelAction::Unknown
    }
}

/// What a button of the legend asks for.
#[derive(Clone, Copy, Debug, PartialEq, Eq, Structural)]
pub enum LegendAction {
    /// Pick another map.
    ChangeMap,
    /// Tell about this kind of road.
    Explain(LegendEntry),
    /// Nothing that the legend knows.
    Unknown,
}

/// What the legend can tell about.
#[derive(Clone, Copy, Debug, PartialEq, Eq, Structural)]
pub enum LegendEntry {
    Highway,
    MajorStreet,
    MinorStreet,
    Trail,
    ProtectedBikeLane,
    PaintedBikeLane,
    Greenway,
    ElevationData,
}

/// What the button named `x` of the legend asks for.
pub open spec fn legend_asks(x: Seq<char>) -> LegendAction {
    if x == "change map"@ {
        LegendAction::ChangeMap
    } else if x == "highway"@ {
        LegendAction::Explain(LegendEntry::Highway)
    } else if x == "major street"@ {
        LegendAction::Explain(LegendEntry::MajorStreet)
    } else if x == "minor street"@ {
        LegendAction::Explain(LegendEntry::MinorStreet)
    } else if x == "trail"@ {
        LegendAction::Explain(LegendEntry::Trail)
    } else if x == "protected bike lane"@ {
        LegendAction::Explain(LegendEntry::ProtectedBikeLane)
    } else if x == "painted bike lane"@ {
        LegendAction::Explain(LegendEntry::PaintedBikeLane)
    } else if x == "Stay Healthy Street / greenway"@ {
        LegendAction::Explain(LegendEntry::Greenway)
    } else if x == "about the elevation data"@ {
        LegendAction::Explain(LegendEntry::ElevationData)
    } else {
        LegendAction::Unknown
    }
}

/// What the button named `x` of the legend asks for.
pub fn legend_action(x: &str) -> (action: LegendAction)
    ensures
        action == legend_asks(x@),
{
    if same_text(x, "change map") {
        LegendAction::ChangeMap
    } else if same_text(x, "highway") {
        LegendAction::Explain(LegendEntry::Highway)
    } else if same_text(x, "major street") {
        LegendAction::Explain(LegendEntry::MajorStreet)
    } else if same_text(x, "minor street") {
        LegendAction::Explain(LegendEntry::MinorStreet)
    } else if same_text(x, "trail") {
        LegendAction::Explain(LegendEntry::Trail)
    } else if same_text(x, "protected bike lane") {
        LegendAction::Explain(LegendEntry::ProtectedBikeLane)
    } else if same_text(x, "painted bike lane") {
        LegendAction::Explain(LegendEntry::PaintedBikeLane)
    } else if same_text(x, "Stay Healthy Street / greenway") {
        LegendAction::Explain(LegendEntry::Greenway)
    } else if same_text(x, "about the elevation data") {
        LegendAction::Explain(LegendEntry::ElevationData)
    } else {
        LegendAction::Unknown
    }
}

/// The heading under which the legend tells about `entry`.
pub open spec fn legend_title(entry: LegendEntry) -> Seq<char> {
    match entry {
        LegendEntry::Highway => "Highways"@,
        LegendEntry::MajorStreet => "Major streets"@,
        LegendEntry::MinorStreet => "Minor streets"@,
        LegendEntry::Trail => "Trails"@,
        LegendEntry::ProtectedBikeLane => "Protected bike lanes"@,
        LegendEntry::PaintedBikeLane => "Painted bike lanes"@,
        LegendEntry::Greenway => "Stay Healthy Streets and neighborhood greenways"@,
        LegendEntry::ElevationData => "About the elevation data"@,
    }
}

/// The heading under which the legend tells about `entry`.
pub fn legend_heading(entry: LegendEntry) -> (title: &'static str)
    ensures
        title@ == legend_title(entry),
{
    match entry {
        LegendEntry::Highway => "Highways",
        LegendEntry::MajorStreet => "Major streets",
        LegendEntry::MinorStreet => "Minor streets",
        LegendEntry::Trail => "Trails",
        LegendEntry::ProtectedBikeLane => "Protected bike lanes",
        LegendEntry::PaintedBikeLane => "Painted bike lanes",
        LegendEntry::Greenway => "Stay Healthy Streets and neighborhood greenways",
        LegendEntry::ElevationData => "About the elevation data",
    }
}

/// The range of heights for which contours must be drawn now, if they must:
/// the heights are shown, and the contours that are kept are not those of
/// this map.
pub open spec fn contours_wanted(
    show_elevation: bool,
    kept_for: Option<MapName>,
    map: crate::network::RoadMapView,
) -> Option<(i64, i64)> {
    if show_elevation && !(kept_for matches Some(name) && name@ == map.name) {
        Some(heights_upto(map, map.intersections.len() as int))
    } else {
        None
    }
}

/// Whether contours must be drawn after the switch for heights was set to
/// `show_elevation`, and for what range of heights. `kept_for` is the map
/// whose contours are kept from before.
pub fn contours_to_draw(show_elevation: bool, kept_for: Option<&MapName>, map: &RoadMap) -> (range:
    Option<(i64, i64)>)
    ensures
        range == contours_wanted(
            show_elevation,
            match kept_for {
                Some(name) => Some(*name),
                None => None,
            },
            map@,
        ),
{
    if !show_elevation {
        return None;
    }
    let kept = match kept_for {
        Some(name) => name.same_as(map.name()),
        None => false,
    };
    if kept {
        None
    } else {
        Some(elevation_range(map))
    }
}

} // verus!

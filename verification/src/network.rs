//! The road network as a mathematical value: what a `RoadMap` stands for in
//! contracts.

use crate::paths::MapNameView;
use vstd::prelude::*;

verus! {

/// How somebody travels.
#[derive(Clone, Copy, Debug, PartialEq, Eq, Structural)]
pub enum TravelMode {
    Drive,
    Bike,
    Walk,
    Transit,
}

/// What a lane is for. A buffer carries nobody.
#[derive(Clone, Copy, Debug, PartialEq, Eq, Structural)]
pub enum LaneType {
    Driving,
    Biking,
    Bus,
    Sidewalk,
    Buffer,
}

/// How an intersection is controlled. A signal runs its plan shifted by
/// `offset` seconds.
#[derive(Clone, Copy, Debug, PartialEq, Eq, Structural)]
pub enum Control {
    Uncontrolled,
    Signal { offset: u64 },
}

/// A node of the network.
#[derive(Clone, Copy, Debug, PartialEq, Eq, Structural)]
pub struct Intersection {
    pub control: Control,
    /// Height above sea level, in centimetres.
    pub elevation: i64,
}

/// The modes that a road carries.
#[derive(Clone, Copy, Debug, PartialEq, Eq, Structural)]
pub struct ModeSet {
    pub drive: bool,
    pub bike: bool,
    pub walk: bool,
    pub transit: bool,
}

/// A road: a directed edge from intersection `src` to intersection `dst`,
/// its lanes from left to right, and who may pass through on it without
/// stopping there.
pub struct RoadView {
    pub src: nat,
    pub dst: nat,
    pub lanes: Seq<LaneType>,
    pub through_traffic: ModeSet,
}

/// A map. `stamp` counts the edits applied so far; `routing` is the table of
/// what each road carries as it was computed at `routing_stamp`.
pub struct RoadMapView {
    pub name: MapNameView,
    pub edits_name: Seq<char>,
    pub intersections: Seq<Intersection>,
    pub roads: Seq<RoadView>,
    pub stamp: nat,
    pub routing_stamp: nat,
    pub routing: Seq<ModeSet>,
}

/// The lane type that carries `mode`.
pub open spec fn lane_for(mode: TravelMode) -> LaneType {
    match mode {
        TravelMode::Drive => LaneType::Driving,
        TravelMode::Bike => LaneType::Biking,
        TravelMode::Walk => LaneType::Sidewalk,
        TravelMode::Transit => LaneType::Bus,
    }
}

/// A road with these lanes carries `mode`: one of the lanes is for it.
pub open spec fn lanes_carry(lanes: Seq<LaneType>, mode: TravelMode) -> bool {
    lanes.contains(lane_for(mode))
}

/// What a road with these lanes carries.
pub open spec fn modes_of(lanes: Seq<LaneType>) -> ModeSet {
    ModeSet {
        drive: lanes_carry(lanes, TravelMode::Drive),
        bike: lanes_carry(lanes, TravelMode::Bike),
        walk: lanes_carry(lanes, TravelMode::Walk),
        transit: lanes_carry(lanes, TravelMode::Transit),
    }
}

impl ModeSet {
    /// Whether `mode` is in the set.
    pub open spec fn has(self, mode: TravelMode) -> bool {
        match mode {
            TravelMode::Drive => self.drive,
            TravelMode::Bike => self.bike,
            TravelMode::Walk => self.walk,
            TravelMode::Transit => self.transit,
        }
    }
}

/// The routing table of these roads: for each road, what it carries.
pub open spec fn routing_of(roads: Seq<RoadView>) -> Seq<ModeSet> {
    Seq::new(roads.len(), |r: int| modes_of(roads[r].lanes))
}

/// The map `name` as it is built from these intersections and roads, before
/// any edit: its edits have no name, and its routing table is current.
pub open spec fn baseline(
    name: MapNameView,
    intersections: Seq<Intersection>,
    roads: Seq<RoadView>,
) -> RoadMapView {
    RoadMapView {
        name,
        edits_name: Seq::empty(),
        intersections,
        roads,
        stamp: 0,
        routing_stamp: 0,
        routing: routing_of(roads),
    }
}

/// The road joins `a` and `b`, in one direction or the other.
pub open spec fn joins(road: RoadView, a: nat, b: nat) -> bool {
    (road.src == a && road.dst == b) || (road.src == b && road.dst == a)
}

/// Road `road` ends at an intersection that the map does not have.
pub open spec fn dangling(road: RoadView, intersections: nat) -> bool {
    road.src >= intersections || road.dst >= intersections
}

impl RoadMapView {
    /// Every road joins two intersections of the map, and a routing table that
    /// claims to be current is the table of the roads as they are.
    pub open spec fn wf(self) -> bool {
        &&& forall|r: int|
            0 <= r < self.roads.len() ==> !dangling(#[trigger] self.roads[r], self.intersections.len())
        &&& self.routing_stamp <= self.stamp
        &&& self.routing_stamp == self.stamp ==> self.routing == routing_of(self.roads)
    }

    /// The routing table was computed from the roads as they are now.
    pub open spec fn routing_fresh(self) -> bool {
        self.routing_stamp == self.stamp
    }

    /// Both maps are the same network under the same names: they differ at most
    /// in how often they were edited and in how old their routing tables are.
    pub open spec fn same_network(self, other: RoadMapView) -> bool {
        &&& self.name == other.name
        &&& self.edits_name == other.edits_name
        &&& self.intersections == other.intersections
        &&& self.roads == other.roads
    }

    /// `roads` is a way from `from` to `to` that passes `stops`: the stops
    /// begin with `from` and end with `to`, and each road joins the stop
    /// before it to the stop behind it, whichever way it runs and whatever
    /// lanes it has.
    pub open spec fn is_walk(self, from: nat, to: nat, roads: Seq<usize>, stops: Seq<usize>) -> bool {
        &&& from < self.intersections.len()
        &&& stops.len() == roads.len() + 1
        &&& stops[0] == from
        &&& stops[roads.len() as int] == to
        &&& forall|k: int|
            0 <= k < roads.len() ==> (#[trigger] roads[k]) < self.roads.len() && joins(
                self.roads[roads[k] as int],
                stops[k] as nat,
                stops[k + 1] as nat,
            )
    }

    /// `roads` is a way from `from` to `to` over the fewest roads.
    pub open spec fn is_shortest_walk(
        self,
        from: nat,
        to: nat,
        roads: Seq<usize>,
        stops: Seq<usize>,
    ) -> bool {
        &&& self.is_walk(from, to, roads, stops)
        &&& forall|other: Seq<usize>, passing: Seq<usize>|
            self.is_walk(from, to, other, passing) ==> roads.len() <= other.len()
    }

    /// Roads join `a` and `b`.
    pub open spec fn connected(self, a: nat, b: nat) -> bool {
        exists|roads: Seq<usize>, stops: Seq<usize>| self.is_walk(a, b, roads, stops)
    }

    /// The two ends of each of `roads`, where it begins and then where it
    /// ends, one road after the other.
    pub open spec fn ends_of(self, roads: Seq<usize>) -> Seq<usize>
        decreases roads.len(),
    {
        if roads.len() == 0 {
            Seq::empty()
        } else {
            let last = self.roads[roads.last() as int];
            self.ends_of(roads.drop_last()).push(last.src as usize).push(last.dst as usize)
        }
    }

    /// The roads from `from` to `to` that carry `mode`, among the first `n`
    /// roads, in rising order.
    pub open spec fn routes_among(self, from: nat, to: nat, mode: TravelMode, n: nat) -> Seq<usize>
        decreases n,
    {
        if n == 0 {
            Seq::empty()
        } else {
            let before = self.routes_among(from, to, mode, (n - 1) as nat);
            let road = self.roads[n - 1];
            if road.src == from && road.dst == to && lanes_carry(road.lanes, mode) {
                before.push((n - 1) as usize)
            } else {
                before
            }
        }
    }

    /// All roads from `from` to `to` that carry `mode`, in rising order: the
    /// routes of equal cost between two neighbours.
    pub open spec fn routes(self, from: nat, to: nat, mode: TravelMode) -> Seq<usize> {
        self.routes_among(from, to, mode, self.roads.len())
    }
}

} // verus!

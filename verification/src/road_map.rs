//! The map: a road network that is changed only by applying edits, and the
//! routing table derived from it.

use crate::edits::{apply_cmd, apply_cmds, cmd_fits, edited, edits_fit};
use crate::edits::{lemma_apply_cmds_frame, lemma_fits_after_changes};
use crate::edits::{EditCmd, EditError, MapEdits};
use crate::network::{baseline, dangling, lane_for, lanes_carry, modes_of, routing_of};
use crate::network::{Control, Intersection, LaneType, RoadMapView, ModeSet, RoadView, TravelMode};
use crate::paths::MapName;
use vstd::prelude::*;

verus! {

/// A road: a directed edge from intersection `src` to intersection `dst`,
/// its lanes from left to right, and who may pass through on it without
/// stopping there.
pub struct Road {
    pub src: usize,
    pub dst: usize,
    pub lanes: Vec<LaneType>,
    pub through_traffic: ModeSet,
}

impl View for Road {
    type V = RoadView;

    open spec fn view(&self) -> RoadView {
        RoadView {
            src: self.src as nat,
            dst: self.dst as nat,
            lanes: self.lanes@,
            through_traffic: self.through_traffic,
        }
    }
}

/// The roads of a `Vec`, each as a mathematical value.
pub open spec fn roads_view(roads: Seq<Road>) -> Seq<RoadView> {
    Seq::new(roads.len(), |r: int| roads[r]@)
}

/// Why a map was not built.
#[derive(Clone, Copy, Debug, PartialEq, Eq, Structural)]
pub enum MapError {
    /// The road at this place ends at an intersection that is not there.
    DanglingRoad(usize),
}

/// Why a routing question was not answered.
#[derive(Clone, Copy, Debug, PartialEq, Eq, Structural)]
pub enum RouteError {
    /// The map was edited after its routing table was computed.
    Stale,
    /// The map has no intersection of this number.
    UnknownIntersection(usize),
}

/// A road network with its name, the name of the edits applied to it, and its
/// routing table.
pub struct RoadMap {
    name: MapName,
    edits_name: String,
    intersections: Vec<Intersection>,
    roads: Vec<Road>,
    stamp: u64,
    routing_stamp: u64,
    routing: Vec<ModeSet>,
}

impl View for RoadMap {
    type V = RoadMapView;

    closed spec fn view(&self) -> RoadMapView {
        RoadMapView {
            name: self.name@,
            edits_name: self.edits_name@,
            intersections: self.intersections@,
            roads: roads_view(self.roads@),
            stamp: self.stamp as nat,
            routing_stamp: self.routing_stamp as nat,
            routing: self.routing@,
        }
    }
}

/// Whether one of `lanes` is a `lt` lane.
fn lanes_have(lanes: &Vec<LaneType>, lt: LaneType) -> (found: bool)
    ensures
        found == lanes@.contains(lt),
{
    let mut k: usize = 0;
    while k < lanes.len()
        invariant
            k <= lanes.len(),
            forall|j: int| 0 <= j < k ==> lanes@[j] != lt,
        decreases lanes.len() - k,
    {
        if lanes[k] == lt {
            return true;
        }
        k += 1;
    }
    false
}

/// The lane type that carries `mode`.
pub fn lane_type_for(mode: TravelMode) -> (lt: LaneType)
    ensures
        lt == lane_for(mode),
{
    match mode {
        TravelMode::Drive => LaneType::Driving,
        TravelMode::Bike => LaneType::Biking,
        TravelMode::Walk => LaneType::Sidewalk,
        TravelMode::Transit => LaneType::Bus,
    }
}

/// What a road with these lanes carries.
pub fn modes_of_lanes(lanes: &Vec<LaneType>) -> (modes: ModeSet)
    ensures
        modes == modes_of(lanes@),
{
    ModeSet {
        drive: lanes_have(lanes, LaneType::Driving),
        bike: lanes_have(lanes, LaneType::Biking),
        walk: lanes_have(lanes, LaneType::Sidewalk),
        transit: lanes_have(lanes, LaneType::Bus),
    }
}

/// Whether `mode` is in `modes`.
pub fn mode_in(modes: ModeSet, mode: TravelMode) -> (found: bool)
    ensures
        found == modes.has(mode),
{
    match mode {
        TravelMode::Drive => modes.drive,
        TravelMode::Bike => modes.bike,
        TravelMode::Walk => modes.walk,
        TravelMode::Transit => modes.transit,
    }
}

/// The routing table of `roads`.
fn build_routing(roads: &Vec<Road>) -> (table: Vec<ModeSet>)
    ensures
        table@ == routing_of(roads_view(roads@)),
{
    let mut table: Vec<ModeSet> = Vec::new();
    let mut r: usize = 0;
    while r < roads.len()
        invariant
            r <= roads.len(),
            table@.len() == r,
            forall|q: int| 0 <= q < r ==> table@[q] == modes_of(roads@[q].lanes@),
        decreases roads.len() - r,
    {
        table.push(modes_of_lanes(&roads[r].lanes));
        r += 1;
    }
    assert(table@ =~= routing_of(roads_view(roads@)));
    table
}

/// A copy of `roads`.
fn copy_roads(roads: &Vec<Road>) -> (copy: Vec<Road>)
    ensures
        roads_view(copy@) == roads_view(roads@),
{
    let mut copy: Vec<Road> = Vec::new();
    let mut r: usize = 0;
    while r < roads.len()
        invariant
            r <= roads.len(),
            copy@.len() == r,
            forall|q: int| 0 <= q < r ==> copy@[q]@ == roads@[q]@,
        decreases roads.len() - r,
    {
        let lanes = roads[r].lanes.clone();
        assert(lanes@ =~= roads@[r as int].lanes@);
        copy.push(
            Road {
                src: roads[r].src,
                dst: roads[r].dst,
                lanes,
                through_traffic: roads[r].through_traffic,
            },
        );
        r += 1;
    }
    assert(roads_view(copy@) =~= roads_view(roads@));
    copy
}

/// Makes the change `c` to the intersections and roads of the map `m`.
fn change(
    intersections: &mut Vec<Intersection>,
    roads: &mut Vec<Road>,
    c: EditCmd,
    Ghost(m): Ghost<RoadMapView>,
)
    requires
        m.intersections == old(intersections)@,
        m.roads == roads_view(old(roads)@),
        cmd_fits(m, c),
    ensures
        apply_cmd(m, c) == (RoadMapView {
            intersections: final(intersections)@,
            roads: roads_view(final(roads)@),
            ..m
        }),
{
    match c {
        EditCmd::ChangeSignalOffset { i, offset } => {
            let elevation = intersections[i].elevation;
            intersections.set(i, Intersection { control: Control::Signal { offset }, elevation });
        },
        EditCmd::ChangeLaneType { r, lane, lt } => {
            let mut lanes = roads[r].lanes.clone();
            assert(lanes@ =~= old(roads)@[r as int].lanes@);
            lanes.set(lane, lt);
            let road = Road {
                src: roads[r].src,
                dst: roads[r].dst,
                lanes,
                through_traffic: roads[r].through_traffic,
            };
            roads.set(r, road);
            assert(roads_view(roads@) =~= apply_cmd(m, c).roads);
        },
    }
}

impl RoadMap {
    /// Every road joins two intersections of the map, and a routing table that
    /// claims to be current is the table of the roads as they are.
    #[verifier::type_invariant]
    pub open spec fn wf(&self) -> bool {
        self@.wf()
    }

    /// Builds the map `name` from its intersections and roads, unedited and
    /// with a current routing table. A road that ends at an intersection which
    /// is not there is refused: the first such road is named.
    pub fn new(name: MapName, intersections: Vec<Intersection>, roads: Vec<Road>) -> (made: Result<
        RoadMap,
        MapError,
    >)
        ensures
            match made {
                Ok(map) => {
                    &&& map@ == baseline(name@, intersections@, roads_view(roads@))
                    &&& forall|q: int|
                        0 <= q < roads.len() ==> !dangling(
                            #[trigger] roads[q]@,
                            intersections@.len(),
                        )
                },
                Err(MapError::DanglingRoad(r)) => {
                    &&& r < roads.len()
                    &&& dangling(roads[r as int]@, intersections@.len())
                    &&& forall|q: int|
                        0 <= q < r ==> !dangling(#[trigger] roads[q]@, intersections@.len())
                },
            },
    {
        let mut r: usize = 0;
        while r < roads.len()
            invariant
                r <= roads.len(),
                forall|q: int|
                    0 <= q < r ==> !dangling(#[trigger] roads[q]@, intersections@.len()),
            decreases roads.len() - r,
        {
            if roads[r].src >= intersections.len() || roads[r].dst >= intersections.len() {
                return Err(MapError::DanglingRoad(r));
            }
            r += 1;
        }
        let routing = build_routing(&roads);
        let map = RoadMap {
            name,
            edits_name: String::new(),
            intersections,
            roads,
            stamp: 0,
            routing_stamp: 0,
            routing,
        };
        Ok(map)
    }

    /// The name of the map.
    pub fn name(&self) -> (name: &MapName)
        ensures
            name@ == self@.name,
    {
        &self.name
    }

    /// The name of the edits that were applied last; empty for a map that was
    /// never edited.
    pub fn edits_name(&self) -> (name: &String)
        ensures
            name@ == self@.edits_name,
    {
        &self.edits_name
    }

    /// How often the map was edited.
    pub fn stamp(&self) -> (stamp: u64)
        ensures
            stamp == self@.stamp,
    {
        self.stamp
    }

    pub fn num_intersections(&self) -> (n: usize)
        ensures
            n == self@.intersections.len(),
    {
        self.intersections.len()
    }

    pub fn num_roads(&self) -> (n: usize)
        ensures
            n == self@.roads.len(),
    {
        self.roads.len()
    }

    /// Intersection `i`, if the map has it.
    pub fn intersection(&self, i: usize) -> (found: Option<Intersection>)
        ensures
            found == if i < self@.intersections.len() {
                Some(self@.intersections[i as int])
            } else {
                None
            },
    {
        if i < self.intersections.len() {
            Some(self.intersections[i])
        } else {
            None
        }
    }

    /// The two ends of road `r`, if the map has it.
    pub fn road_ends(&self, r: usize) -> (ends: Option<(usize, usize)>)
        ensures
            match ends {
                Some((src, dst)) => r < self@.roads.len() && src == self@.roads[r as int].src
                    && dst == self@.roads[r as int].dst,
                None => r >= self@.roads.len(),
            },
    {
        if r < self.roads.len() {
            Some((self.roads[r].src, self.roads[r].dst))
        } else {
            None
        }
    }

    /// The lanes of road `r` from left to right, if the map has it.
    pub fn lanes(&self, r: usize) -> (lanes: Option<Vec<LaneType>>)
        ensures
            match lanes {
                Some(l) => r < self@.roads.len() && l@ == self@.roads[r as int].lanes,
                None => r >= self@.roads.len(),
            },
    {
        if r < self.roads.len() {
            Some(self.roads[r].lanes.clone())
        } else {
            None
        }
    }

    /// Who may pass through on road `r`, if the map has it.
    pub fn through_traffic(&self, r: usize) -> (modes: Option<ModeSet>)
        ensures
            modes == if r < self@.roads.len() {
                Some(self@.roads[r as int].through_traffic)
            } else {
                None
            },
    {
        if r < self.roads.len() {
            Some(self.roads[r].through_traffic)
        } else {
            None
        }
    }

    /// Whether the routing table was computed from the roads as they are now.
    pub fn routing_is_fresh(&self) -> (fresh: bool)
        ensures
            fresh == self@.routing_fresh(),
    {
        self.routing_stamp == self.stamp
    }

    /// Computes the routing table anew from the roads as they are now. Nothing
    /// else changes.
    pub fn recalculate_pathfinding_after_edits(&mut self)
        ensures
            final(self)@.routing_fresh(),
            final(self)@ == (RoadMapView {
                routing_stamp: old(self)@.stamp,
                routing: routing_of(old(self)@.roads),
                ..old(self)@
            }),
    {
        proof {
            use_type_invariant(&*self);
        }
        self.routing = build_routing(&self.roads);
        self.routing_stamp = self.stamp;
    }

    /// Whether the change `c` speaks of something that the map has.
    pub fn fits(&self, c: &EditCmd) -> (fits: bool)
        ensures
            fits == cmd_fits(self@, *c),
    {
        match *c {
            EditCmd::ChangeSignalOffset { i, offset } => {
                i < self.intersections.len() && match self.intersections[i].control {
                    Control::Signal { .. } => true,
                    Control::Uncontrolled => false,
                }
            },
            EditCmd::ChangeLaneType { r, lane, lt } => {
                r < self.roads.len() && lane < self.roads[r].lanes.len()
            },
        }
    }

    /// Applies `edits`, all of them or none. They are applied when they were
    /// made for this map, each change fits it, and the stamp can still move
    /// on; the map is then renamed after them, and its routing table is out
    /// of date until it is computed anew. Otherwise the map stays as it was.
    pub fn apply_edits(&mut self, edits: &MapEdits) -> (done: Result<(), EditError>)
        ensures
            match done {
                Ok(()) => {
                    &&& edits_fit(old(self)@, edits@)
                    &&& old(self)@.stamp < u64::MAX
                    &&& final(self)@ == edited(old(self)@, edits@)
                    &&& !final(self)@.routing_fresh()
                },
                Err(EditError::WrongMap) => {
                    &&& edits@.map_name != old(self)@.name
                    &&& final(self)@ == old(self)@
                },
                Err(EditError::Misfit(k)) => {
                    &&& edits@.map_name == old(self)@.name
                    &&& k < edits@.commands.len()
                    &&& !cmd_fits(old(self)@, edits@.commands[k as int])
                    &&& forall|j: int| 0 <= j < k ==> cmd_fits(old(self)@, edits@.commands[j])
                    &&& final(self)@ == old(self)@
                },
                Err(EditError::StampExhausted) => {
                    &&& edits_fit(old(self)@, edits@)
                    &&& old(self)@.stamp == u64::MAX
                    &&& final(self)@ == old(self)@
                },
            },
    {
        if !self.name.same_as(&edits.map_name) {
            return Err(EditError::WrongMap);
        }
        let n = edits.commands.len();
        let mut k: usize = 0;
        while k < n
            invariant
                k <= n,
                n == edits.commands.len(),
                *self == *old(self),
                edits@.map_name == self@.name,
                forall|j: int| 0 <= j < k ==> cmd_fits(self@, edits@.commands[j]),
            decreases n - k,
        {
            if !self.fits(&edits.commands[k]) {
                return Err(EditError::Misfit(k));
            }
            k += 1;
        }
        if self.stamp == u64::MAX {
            return Err(EditError::StampExhausted);
        }
        proof {
            use_type_invariant(&*self);
        }
        let ghost before = self@;
        let mut intersections = self.intersections.clone();
        assert(intersections@ =~= self.intersections@);
        let mut roads = copy_roads(&self.roads);
        let mut k: usize = 0;
        while k < n
            invariant
                k <= n,
                n == edits.commands.len(),
                edits_fit(before, edits@),
                apply_cmds(before, edits@.commands.take(k as int)) == (RoadMapView {
                    intersections: intersections@,
                    roads: roads_view(roads@),
                    ..before
                }),
            decreases n - k,
        {
            let c = edits.commands[k];
            let ghost now = apply_cmds(before, edits@.commands.take(k as int));
            proof {
                lemma_fits_after_changes(before, edits@.commands.take(k as int), c);
                assert(edits@.commands.take(k + 1).drop_last() =~= edits@.commands.take(k as int));
            }
            change(&mut intersections, &mut roads, c, Ghost(now));
            k += 1;
        }
        proof {
            assert(edits@.commands.take(n as int) =~= edits@.commands);
            lemma_apply_cmds_frame(before, edits@.commands);
        }
        self.stamp = self.stamp + 1;
        self.intersections = intersections;
        self.roads = roads;
        self.edits_name = edits.edits_name.clone();
        Ok(())
    }

    /// The roads that lead from `from` to `to` and carry `mode`, in rising
    /// order, read off the routing table. A table that is out of date answers
    /// nothing: it may speak of lanes that are no longer there.
    pub fn roads_between(&self, from: usize, to: usize, mode: TravelMode) -> (found: Result<
        Vec<usize>,
        RouteError,
    >)
        ensures
            match found {
                Ok(roads) => {
                    &&& self@.routing_fresh()
                    &&& from < self@.intersections.len()
                    &&& to < self@.intersections.len()
                    &&& roads@ == self@.routes(from as nat, to as nat, mode)
                },
                Err(RouteError::Stale) => !self@.routing_fresh(),
                Err(RouteError::UnknownIntersection(i)) => {
                    &&& self@.routing_fresh()
                    &&& i >= self@.intersections.len()
                    &&& i == from || (from < self@.intersections.len() && i == to)
                },
            },
    {
        proof {
            use_type_invariant(self);
        }
        if self.routing_stamp != self.stamp {
            return Err(RouteError::Stale);
        }
        if from >= self.intersections.len() {
            return Err(RouteError::UnknownIntersection(from));
        }
        if to >= self.intersections.len() {
            return Err(RouteError::UnknownIntersection(to));
        }
        let mut found: Vec<usize> = Vec::new();
        let mut r: usize = 0;
        while r < self.roads.len()
            invariant
                r <= self.roads.len(),
                self@.wf(),
                self@.routing_fresh(),
                found@ == self@.routes_among(from as nat, to as nat, mode, r as nat),
            decreases self.roads.len() - r,
        {
            proof {
                let lanes = self@.roads[r as int].lanes;
                assert(self.routing@[r as int] == modes_of(lanes));
                assert(modes_of(lanes).has(mode) == lanes_carry(lanes, mode));
            }
            if self.roads[r].src == from && self.roads[r].dst == to && mode_in(
                self.routing[r],
                mode,
            ) {
                found.push(r);
            }
            r += 1;
        }
        Ok(found)
    }
}

} // verus!

//! The bike network of a map, for an overview drawn over the roads: which
//! roads are greenways, and on which side of a road a bike lane runs and
//! whether a buffer shields it.

use crate::network::{LaneType, ModeSet, RoadMapView, RoadView};
use crate::road_map::RoadMap;
use vstd::prelude::*;

verus! {

/// What is drawn along one side of a road.
#[derive(Clone, Copy, Debug, PartialEq, Eq, Structural)]
pub enum SideMark {
    /// Nothing: no bike lane runs there.
    Nothing,
    /// A bike lane without a buffer.
    PaintedBikeLane,
    /// A bike lane and a buffer.
    ProtectedBikeLane,
}

/// What is drawn over one road: whether it is marked as a greenway, and for
/// each of its lanes, from the left, what is drawn along the left and along
/// the right side of the road once that lane has been looked at.
pub struct RoadMarks {
    pub greenway: bool,
    pub sides: Vec<(SideMark, SideMark)>,
}

/// A lane for cars or buses.
pub open spec fn is_vehicle_lane(lt: LaneType) -> bool {
    lt == LaneType::Driving || lt == LaneType::Bus
}

/// Lane `k` lies left of all lanes for cars and buses.
pub open spec fn left_of_traffic(lanes: Seq<LaneType>, k: int) -> bool {
    forall|j: int| 0 <= j < k ==> !is_vehicle_lane(#[trigger] lanes[j])
}

/// Among the first `upto` lanes, a `lt` lane lies on the given side of the
/// traffic. What follows the first lane for cars or buses is on the right.
pub open spec fn has_on_side(lanes: Seq<LaneType>, lt: LaneType, left: bool, upto: int) -> bool {
    exists|k: int|
        0 <= k < upto && #[trigger] lanes[k] == lt && left_of_traffic(lanes, k) == left
}

/// What a bike lane, with or without a buffer, is drawn as.
pub open spec fn mark_of(bike_lane: bool, buffer: bool) -> SideMark {
    if bike_lane && buffer {
        SideMark::ProtectedBikeLane
    } else if bike_lane {
        SideMark::PaintedBikeLane
    } else {
        SideMark::Nothing
    }
}

/// What is drawn along the two sides of the road once its first `upto` lanes
/// have been looked at.
pub open spec fn marks_upto(lanes: Seq<LaneType>, upto: int) -> (SideMark, SideMark) {
    (
        mark_of(
            has_on_side(lanes, LaneType::Biking, true, upto),
            has_on_side(lanes, LaneType::Buffer, true, upto),
        ),
        mark_of(
            has_on_side(lanes, LaneType::Biking, false, upto),
            has_on_side(lanes, LaneType::Buffer, false, upto),
        ),
    )
}

/// The road is for bikes alone: it has lanes, and all are bike lanes.
pub open spec fn cycleway(lanes: Seq<LaneType>) -> bool {
    lanes.len() > 0 && forall|k: int| 0 <= k < lanes.len() ==> lanes[k] == LaneType::Biking
}

/// Bikes may pass through, cars may not.
pub open spec fn greenway(through_traffic: ModeSet) -> bool {
    !through_traffic.drive && through_traffic.bike
}

/// What is drawn over the road. Over a cycleway nothing is.
pub open spec fn marks_of(road: RoadView, marks: RoadMarks) -> bool {
    if cycleway(road.lanes) {
        !marks.greenway && marks.sides@.len() == 0
    } else {
        &&& marks.greenway == greenway(road.through_traffic)
        &&& marks.sides@.len() == road.lanes.len()
        &&& forall|k: int|
            0 <= k < road.lanes.len() ==> #[trigger] marks.sides@[k] == marks_upto(road.lanes, k + 1)
    }
}

/// Whether the road with these lanes is for bikes alone.
pub fn is_cycleway(lanes: &Vec<LaneType>) -> (found: bool)
    ensures
        found == cycleway(lanes@),
{
    let mut k: usize = 0;
    while k < lanes.len()
        invariant
            k <= lanes.len(),
            forall|j: int| 0 <= j < k ==> lanes@[j] == LaneType::Biking,
        decreases lanes.len() - k,
    {
        if lanes[k] != LaneType::Biking {
            return false;
        }
        k += 1;
    }
    lanes.len() > 0
}

/// Whether a road on which these may pass through is a greenway.
pub fn is_greenway(through_traffic: ModeSet) -> (found: bool)
    ensures
        found == greenway(through_traffic),
{
    !through_traffic.drive && through_traffic.bike
}

fn mark_for(bike_lane: bool, buffer: bool) -> (mark: SideMark)
    ensures
        mark == mark_of(bike_lane, buffer),
{
    if bike_lane && buffer {
        SideMark::ProtectedBikeLane
    } else if bike_lane {
        SideMark::PaintedBikeLane
    } else {
        SideMark::Nothing
    }
}

/// For each lane from the left, what is drawn along the two sides of the
/// road once that lane has been looked at.
pub fn side_marks(lanes: &Vec<LaneType>) -> (sides: Vec<(SideMark, SideMark)>)
    ensures
        sides@.len() == lanes@.len(),
        forall|k: int| 0 <= k < lanes@.len() ==> #[trigger] sides@[k] == marks_upto(lanes@, k + 1),
{
    let mut sides: Vec<(SideMark, SideMark)> = Vec::new();
    // Don't cover up the classification of the road itself: thick side lines
    // show the bike facilities in each direction.
    let mut bike_lane_left = false;
    let mut buffer_left = false;
    let mut bike_lane_right = false;
    let mut buffer_right = false;
    let mut on_left = true;
    let mut k: usize = 0;
    while k < lanes.len()
        invariant
            k <= lanes.len(),
            sides@.len() == k,
            on_left == left_of_traffic(lanes@, k as int),
            bike_lane_left == has_on_side(lanes@, LaneType::Biking, true, k as int),
            buffer_left == has_on_side(lanes@, LaneType::Buffer, true, k as int),
            bike_lane_right == has_on_side(lanes@, LaneType::Biking, false, k as int),
            buffer_right == has_on_side(lanes@, LaneType::Buffer, false, k as int),
            forall|j: int| 0 <= j < k ==> #[trigger] sides@[j] == marks_upto(lanes@, j + 1),
        decreases lanes.len() - k,
    {
        let lt = lanes[k];
        proof {
            lemma_one_lane_more(lanes@, LaneType::Biking, true, k as int);
            lemma_one_lane_more(lanes@, LaneType::Biking, false, k as int);
            lemma_one_lane_more(lanes@, LaneType::Buffer, true, k as int);
            lemma_one_lane_more(lanes@, LaneType::Buffer, false, k as int);
            assert(left_of_traffic(lanes@, k + 1) == (left_of_traffic(lanes@, k as int)
                && !is_vehicle_lane(lanes@[k as int])));
        }
        match lt {
            LaneType::Driving | LaneType::Bus => {
                // The lanes are walked from left to right: from the first
                // vehicle lane on, any bike lane is on the right side.
                on_left = false;
            },
            LaneType::Biking => {
                if on_left {
                    bike_lane_left = true;
                } else {
                    bike_lane_right = true;
                }
            },
            LaneType::Buffer => {
                if on_left {
                    buffer_left = true;
                } else {
                    buffer_right = true;
                }
            },
            LaneType::Sidewalk => {},
        }
        sides.push(
            (mark_for(bike_lane_left, buffer_left), mark_for(bike_lane_right, buffer_right)),
        );
        k += 1;
    }
    sides
}

/// Looking at one lane more finds what was found before, and that lane if it
/// is of the type and on the side asked for.
proof fn lemma_one_lane_more(lanes: Seq<LaneType>, lt: LaneType, left: bool, k: int)
    requires
        0 <= k < lanes.len(),
    ensures
        has_on_side(lanes, lt, left, k + 1) == (has_on_side(lanes, lt, left, k) || (lanes[k] == lt
            && left_of_traffic(lanes, k) == left)),
{
    if has_on_side(lanes, lt, left, k + 1) {
        let j = choose|j: int|
            0 <= j < k + 1 && #[trigger] lanes[j] == lt && left_of_traffic(lanes, j) == left;
        if j < k {
            assert(has_on_side(lanes, lt, left, k));
        }
    }
    if has_on_side(lanes, lt, left, k) {
        let j = choose|j: int|
            0 <= j < k && #[trigger] lanes[j] == lt && left_of_traffic(lanes, j) == left;
        assert(0 <= j < k + 1 && lanes[j] == lt && left_of_traffic(lanes, j) == left);
    }
    if lanes[k] == lt && left_of_traffic(lanes, k) == left {
        assert(0 <= k < k + 1 && lanes[k] == lt && left_of_traffic(lanes, k) == left);
    }
}

/// What is drawn over each road of the map when it is seen from afar.
pub fn make_unzoomed_layer(map: &RoadMap) -> (layer: Vec<RoadMarks>)
    ensures
        layer@.len() == map@.roads.len(),
        forall|r: int| 0 <= r < map@.roads.len() ==> marks_of(map@.roads[r], #[trigger] layer@[r]),
{
    let mut layer: Vec<RoadMarks> = Vec::new();
    let mut r: usize = 0;
    while r < map.num_roads()
        invariant
            r <= map@.roads.len(),
            layer@.len() == r,
            forall|q: int| 0 <= q < r ==> marks_of(map@.roads[q], #[trigger] layer@[q]),
        decreases map@.roads.len() - r,
    {
        let lanes = match map.lanes(r) {
            Some(lanes) => lanes,
            None => Vec::new(),
        };
        let through = match map.through_traffic(r) {
            Some(through) => through,
            None => ModeSet { drive: false, bike: false, walk: false, transit: false },
        };
        let marks = if is_cycleway(&lanes) {
            RoadMarks { greenway: false, sides: Vec::new() }
        } else {
            RoadMarks { greenway: is_greenway(through), sides: side_marks(&lanes) }
        };
        layer.push(marks);
        r += 1;
    }
    layer
}

/// The lowest and the highest intersection of the map, in centimetres, for
/// the scale of a drawing of its heights. The scale always holds sea level.
pub open spec fn heights_upto(m: RoadMapView, upto: int) -> (i64, i64)
    decreases upto,
{
    if upto <= 0 {
        (0, 0)
    } else {
        let before = heights_upto(m, upto - 1);
        let here = m.intersections[upto - 1].elevation;
        (
            if here < before.0 {
                here
            } else {
                before.0
            },
            if here > before.1 {
                here
            } else {
                before.1
            },
        )
    }
}

/// The lowest and the highest intersection of the map, sea level counted in.
pub fn elevation_range(map: &RoadMap) -> (range: (i64, i64))
    ensures
        range == heights_upto(map@, map@.intersections.len() as int),
{
    let mut low: i64 = 0;
    let mut high: i64 = 0;
    let mut i: usize = 0;
    while i < map.num_intersections()
        invariant
            i <= map@.intersections.len(),
            (low, high) == heights_upto(map@, i as int),
        decreases map@.intersections.len() - i,
    {
        match map.intersection(i) {
            Some(here) => {
                if here.elevation < low {
                    low = here.elevation;
                }
                if here.elevation > high {
                    high = here.elevation;
                }
            },
            None => {},
        }
        i += 1;
    }
    (low, high)
}

/// The heights of a map lie within their range, and both ends of the range
/// are sea level or the height of an intersection.
pub proof fn lemma_heights_in_range(m: RoadMapView, upto: int)
    requires
        0 <= upto <= m.intersections.len(),
    ensures
        heights_upto(m, upto).0 <= 0 <= heights_upto(m, upto).1,
        forall|i: int|
            0 <= i < upto ==> heights_upto(m, upto).0 <= (#[trigger] m.intersections[i]).elevation
                <= heights_upto(m, upto).1,
        heights_upto(m, upto).0 == 0 || exists|i: int|
            0 <= i < upto && (#[trigger] m.intersections[i]).elevation == heights_upto(m, upto).0,
        heights_upto(m, upto).1 == 0 || exists|i: int|
            0 <= i < upto && (#[trigger] m.intersections[i]).elevation == heights_upto(m, upto).1,
    decreases upto,
{
    if upto > 0 {
        lemma_heights_in_range(m, upto - 1);
        let before = heights_upto(m, upto - 1);
        let now = heights_upto(m, upto);
        let here = m.intersections[upto - 1].elevation;
        if now.0 != 0 {
            if now.0 == here {
                assert(m.intersections[upto - 1].elevation == now.0);
            } else {
                let i = choose|i: int|
                    0 <= i < upto - 1 && (#[trigger] m.intersections[i]).elevation == before.0;
                assert(m.intersections[i].elevation == now.0);
            }
        }
        if now.1 != 0 {
            if now.1 == here {
                assert(m.intersections[upto - 1].elevation == now.1);
            } else {
                let i = choose|i: int|
                    0 <= i < upto - 1 && (#[trigger] m.intersections[i]).elevation == before.1;
                assert(m.intersections[i].elevation == now.1);
            }
        }
    }
}

} // verus!

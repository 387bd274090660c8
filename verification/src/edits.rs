//! Edits to a map: a named list of changes, what applying them means, and
//! why applying them again changes nothing.

use crate::network::{Control, Intersection, LaneType, RoadMapView, RoadView};
use crate::paths::{MapName, MapNameView};
use crate::text::{decimal, decimal_text};
use vstd::prelude::*;
use vstd::string::*;

verus! {

/// One change to a map.
#[derive(Clone, Copy, Debug, PartialEq, Eq, Structural)]
pub enum EditCmd {
    /// The signal at intersection `i` runs with this offset from now on.
    ChangeSignalOffset { i: usize, offset: u64 },
    /// Lane `lane` of road `r`, counted from the left, becomes a `lt` lane.
    ChangeLaneType { r: usize, lane: usize, lt: LaneType },
}

/// A named list of changes to the map `map_name`, applied in order.
pub struct MapEdits {
    pub edits_name: String,
    pub map_name: MapName,
    pub commands: Vec<EditCmd>,
}

/// A `MapEdits` as a mathematical value.
pub struct MapEditsView {
    pub edits_name: Seq<char>,
    pub map_name: MapNameView,
    pub commands: Seq<EditCmd>,
}

impl View for MapEdits {
    type V = MapEditsView;

    open spec fn view(&self) -> MapEditsView {
        MapEditsView {
            edits_name: self.edits_name@,
            map_name: self.map_name@,
            commands: self.commands@,
        }
    }
}

/// Why edits were not applied.
#[derive(Clone, Copy, Debug, PartialEq, Eq, Structural)]
pub enum EditError {
    /// The edits were made for a map of another name.
    WrongMap,
    /// The command at this place in the list speaks of something that the map
    /// does not have.
    Misfit(usize),
    /// The map has been edited as often as can be counted.
    StampExhausted,
}

/// What is told of the fault.
pub open spec fn edit_error_text(e: EditError) -> Seq<char> {
    match e {
        EditError::WrongMap => "the edits were made for another map"@,
        EditError::Misfit(k) => "change "@ + decimal(k as nat) + " of the edits does not fit the map"@,
        EditError::StampExhausted => "the map cannot be edited any more often"@,
    }
}

impl EditError {
    /// Tells the fault in words.
    pub fn message(&self) -> (text: String)
        ensures
            text@ == edit_error_text(*self),
    {
        match *self {
            EditError::WrongMap => String::from_str("the edits were made for another map"),
            EditError::Misfit(k) => {
                let mut text = String::from_str("change ");
                text.append(decimal_text(k as u64).as_str());
                text.append(" of the edits does not fit the map");
                text
            },
            EditError::StampExhausted => String::from_str("the map cannot be edited any more often"),
        }
    }
}

/// The change `c` speaks of something that `m` has: a signal, or a lane of a
/// road.
pub open spec fn cmd_fits(m: RoadMapView, c: EditCmd) -> bool {
    match c {
        EditCmd::ChangeSignalOffset { i, offset } => {
            i < m.intersections.len() && m.intersections[i as int].control is Signal
        },
        EditCmd::ChangeLaneType { r, lane, lt } => {
            r < m.roads.len() && lane < m.roads[r as int].lanes.len()
        },
    }
}

/// `m` after the change `c`. A change that does not fit leaves `m` as it is.
pub open spec fn apply_cmd(m: RoadMapView, c: EditCmd) -> RoadMapView {
    if !cmd_fits(m, c) {
        m
    } else {
        match c {
            EditCmd::ChangeSignalOffset { i, offset } => RoadMapView {
                intersections: m.intersections.update(
                    i as int,
                    Intersection { control: Control::Signal { offset }, ..m.intersections[i as int] },
                ),
                ..m
            },
            EditCmd::ChangeLaneType { r, lane, lt } => RoadMapView {
                roads: m.roads.update(
                    r as int,
                    RoadView {
                        lanes: m.roads[r as int].lanes.update(lane as int, lt),
                        ..m.roads[r as int]
                    },
                ),
                ..m
            },
        }
    }
}

/// `m` after the changes `cs`, one after the other.
pub open spec fn apply_cmds(m: RoadMapView, cs: Seq<EditCmd>) -> RoadMapView
    decreases cs.len(),
{
    if cs.len() == 0 {
        m
    } else {
        apply_cmd(apply_cmds(m, cs.drop_last()), cs.last())
    }
}

/// The edits were made for `m` and each change fits it.
pub open spec fn edits_fit(m: RoadMapView, e: MapEditsView) -> bool {
    &&& e.map_name == m.name
    &&& forall|k: int| 0 <= k < e.commands.len() ==> cmd_fits(m, #[trigger] e.commands[k])
}

/// `m` after the edits `e`: every change made, the map renamed after the
/// edits, and its stamp moved on, so that its routing table is out of date.
pub open spec fn edited(m: RoadMapView, e: MapEditsView) -> RoadMapView {
    RoadMapView {
        edits_name: e.edits_name,
        stamp: m.stamp + 1,
        ..apply_cmds(m, e.commands)
    }
}

/// The control of intersection `i` after the changes `cs`, where it is `base`
/// before them.
pub open spec fn control_after(base: Control, cs: Seq<EditCmd>, i: int) -> Control
    decreases cs.len(),
{
    if cs.len() == 0 {
        base
    } else {
        let before = control_after(base, cs.drop_last(), i);
        match cs.last() {
            EditCmd::ChangeSignalOffset { i: at, offset } => {
                if at == i && before is Signal {
                    Control::Signal { offset }
                } else {
                    before
                }
            },
            EditCmd::ChangeLaneType { .. } => before,
        }
    }
}

/// The type of lane `lane` of road `r` after the changes `cs`, where it is
/// `base` before them.
pub open spec fn lane_after(base: LaneType, cs: Seq<EditCmd>, r: int, lane: int) -> LaneType
    decreases cs.len(),
{
    if cs.len() == 0 {
        base
    } else {
        let before = lane_after(base, cs.drop_last(), r, lane);
        match cs.last() {
            EditCmd::ChangeSignalOffset { .. } => before,
            EditCmd::ChangeLaneType { r: at, lane: k, lt } => {
                if at == r && k == lane {
                    lt
                } else {
                    before
                }
            },
        }
    }
}

/// `m` after the changes `cs`, told place by place: each signal and each lane
/// is what the last change that speaks of it made it.
pub open spec fn changed_by_place(m: RoadMapView, cs: Seq<EditCmd>) -> RoadMapView {
    RoadMapView {
        intersections: Seq::new(
            m.intersections.len(),
            |i: int|
                Intersection {
                    control: control_after(m.intersections[i].control, cs, i),
                    ..m.intersections[i]
                },
        ),
        roads: Seq::new(
            m.roads.len(),
            |r: int|
                RoadView {
                    lanes: Seq::new(
                        m.roads[r].lanes.len(),
                        |l: int| lane_after(m.roads[r].lanes[l], cs, r, l),
                    ),
                    ..m.roads[r]
                },
        ),
        ..m
    }
}

/// Applying changes one after the other comes to the same as changing each
/// place to what the last change that speaks of it says.
pub proof fn lemma_apply_cmds_by_place(m: RoadMapView, cs: Seq<EditCmd>)
    ensures
        apply_cmds(m, cs) == changed_by_place(m, cs),
    decreases cs.len(),
{
    let goal = changed_by_place(m, cs);
    if cs.len() == 0 {
        assert(goal.intersections =~= m.intersections);
        assert forall|r: int| 0 <= r < m.roads.len() implies goal.roads[r] == m.roads[r] by {
            assert(goal.roads[r].lanes =~= m.roads[r].lanes);
        }
        assert(goal.roads =~= m.roads);
    } else {
        let front = cs.drop_last();
        lemma_apply_cmds_by_place(m, front);
        let mid = changed_by_place(m, front);
        let next = apply_cmd(mid, cs.last());
        assert(next.intersections =~= goal.intersections);
        assert forall|r: int| 0 <= r < m.roads.len() implies next.roads[r] == goal.roads[r] by {
            assert(next.roads[r].lanes =~= goal.roads[r].lanes);
        }
        assert(next.roads =~= goal.roads);
    }
}

/// Changes leave the map's names, stamps and routing table alone, and move no
/// road.
pub proof fn lemma_apply_cmds_frame(m: RoadMapView, cs: Seq<EditCmd>)
    ensures
        apply_cmds(m, cs).name == m.name,
        apply_cmds(m, cs).edits_name == m.edits_name,
        apply_cmds(m, cs).stamp == m.stamp,
        apply_cmds(m, cs).routing_stamp == m.routing_stamp,
        apply_cmds(m, cs).routing == m.routing,
        apply_cmds(m, cs).intersections.len() == m.intersections.len(),
        apply_cmds(m, cs).roads.len() == m.roads.len(),
        forall|i: int|
            0 <= i < m.intersections.len() ==> (#[trigger] apply_cmds(
                m,
                cs,
            ).intersections[i]).control is Signal == m.intersections[i].control is Signal,
        forall|r: int|
            0 <= r < m.roads.len() ==> {
                &&& (#[trigger] apply_cmds(m, cs).roads[r]).src == m.roads[r].src
                &&& apply_cmds(m, cs).roads[r].dst == m.roads[r].dst
                &&& apply_cmds(m, cs).roads[r].lanes.len() == m.roads[r].lanes.len()
            },
    decreases cs.len(),
{
    if cs.len() > 0 {
        lemma_apply_cmds_frame(m, cs.drop_last());
    }
}

/// A change fits a map after other changes exactly when it fits the map
/// before them: changes make and remove nothing.
pub proof fn lemma_fits_after_changes(m: RoadMapView, cs: Seq<EditCmd>, c: EditCmd)
    ensures
        cmd_fits(apply_cmds(m, cs), c) == cmd_fits(m, c),
{
    lemma_apply_cmds_frame(m, cs);
}

/// Changing a signal twice by the same list is changing it once, and whether
/// it is a signal never changes.
proof fn lemma_control_absorbs(a: Control, b: Control, cs: Seq<EditCmd>, i: int)
    requires
        a is Signal == b is Signal,
    ensures
        control_after(a, cs, i) is Signal == a is Signal,
        control_after(a, cs, i) == control_after(b, cs, i) || (control_after(a, cs, i) == a
            && control_after(b, cs, i) == b),
    decreases cs.len(),
{
    if cs.len() > 0 {
        lemma_control_absorbs(a, b, cs.drop_last(), i);
    }
}

/// Changing a lane twice by the same list is changing it once.
proof fn lemma_lane_absorbs(a: LaneType, b: LaneType, cs: Seq<EditCmd>, r: int, lane: int)
    ensures
        lane_after(a, cs, r, lane) == lane_after(b, cs, r, lane) || (lane_after(a, cs, r, lane)
            == a && lane_after(b, cs, r, lane) == b),
    decreases cs.len(),
{
    if cs.len() > 0 {
        lemma_lane_absorbs(a, b, cs.drop_last(), r, lane);
    }
}

/// Applying a list of changes to a map to which it was already applied
/// changes nothing.
pub proof fn lemma_apply_cmds_idempotent(m: RoadMapView, cs: Seq<EditCmd>)
    ensures
        apply_cmds(apply_cmds(m, cs), cs) == apply_cmds(m, cs),
{
    let once = apply_cmds(m, cs);
    let twice = apply_cmds(once, cs);
    lemma_apply_cmds_by_place(m, cs);
    lemma_apply_cmds_by_place(once, cs);
    assert forall|i: int| 0 <= i < once.intersections.len() implies twice.intersections[i]
        == once.intersections[i] by {
        let base = m.intersections[i].control;
        lemma_control_absorbs(base, base, cs, i);
        lemma_control_absorbs(control_after(base, cs, i), base, cs, i);
    }
    assert(twice.intersections =~= once.intersections);
    assert forall|r: int| 0 <= r < once.roads.len() implies twice.roads[r] == once.roads[r] by {
        assert forall|l: int| 0 <= l < once.roads[r].lanes.len() implies twice.roads[r].lanes[l]
            == once.roads[r].lanes[l] by {
            let base = m.roads[r].lanes[l];
            lemma_lane_absorbs(lane_after(base, cs, r, l), base, cs, r, l);
        }
        assert(twice.roads[r].lanes =~= once.roads[r].lanes);
    }
    assert(twice.roads =~= once.roads);
}

/// Applying the same edits twice to a map yields the map that applying them
/// once yields: the second time every change still fits, and the network and
/// its names come out as they went in. Only the stamp moves on.
pub proof fn lemma_edits_idempotent(m: RoadMapView, e: MapEditsView)
    requires
        edits_fit(m, e),
    ensures
        edits_fit(edited(m, e), e),
        edited(edited(m, e), e).same_network(edited(m, e)),
        edited(edited(m, e), e).stamp == m.stamp + 2,
{
    let once = edited(m, e);
    let changed = apply_cmds(m, e.commands);
    lemma_apply_cmds_frame(m, e.commands);
    assert forall|k: int| 0 <= k < e.commands.len() implies cmd_fits(
        once,
        #[trigger] e.commands[k],
    ) by {
        lemma_fits_after_changes(m, e.commands, e.commands[k]);
    }
    lemma_apply_cmds_by_place(once, e.commands);
    lemma_apply_cmds_by_place(changed, e.commands);
    lemma_apply_cmds_idempotent(m, e.commands);
    assert(apply_cmds(once, e.commands).intersections =~= apply_cmds(
        changed,
        e.commands,
    ).intersections);
    assert forall|r: int| 0 <= r < m.roads.len() implies apply_cmds(once, e.commands).roads[r]
        == apply_cmds(changed, e.commands).roads[r] by {
        assert(apply_cmds(once, e.commands).roads[r].lanes =~= apply_cmds(
            changed,
            e.commands,
        ).roads[r].lanes);
    }
    assert(apply_cmds(once, e.commands).roads =~= apply_cmds(changed, e.commands).roads);
    lemma_apply_cmds_frame(once, e.commands);
}

} // verus!

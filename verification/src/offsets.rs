//! Tuning the offsets of a group of traffic signals: what is shown for each
//! signal, alone or against a base signal, and the edit that sets one signal
//! a given time behind another.

use crate::edits::{cmd_fits, EditCmd};
use crate::members::{in_order, is_member, lists};
use crate::network::{Control, RoadMapView};
use crate::road_map::RoadMap;
use std::collections::BTreeSet;
use vstd::prelude::*;

verus! {

/// The offset of the signal at intersection `i`, in seconds, where there is a
/// signal.
pub open spec fn offset_at(m: RoadMapView, i: int) -> Option<u64> {
    if 0 <= i < m.intersections.len() {
        match m.intersections[i].control {
            Control::Signal { offset } => Some(offset),
            Control::Uncontrolled => None,
        }
    } else {
        None
    }
}

/// What is shown at a signal of the group while a base is chosen.
#[derive(Clone, Copy, Debug, PartialEq, Eq, Structural)]
pub enum RelativeLabel {
    /// The signal is the base.
    Base,
    /// The signal runs this many seconds behind the base; before it, where
    /// the number is negative.
    Behind(i128),
    /// There is no signal, or the base is none.
    Missing,
}

/// What is shown at intersection `i` against the base `base`.
pub open spec fn relative_label(m: RoadMapView, base: usize, i: usize) -> RelativeLabel {
    if i == base {
        RelativeLabel::Base
    } else {
        match (offset_at(m, i as int), offset_at(m, base as int)) {
            (Some(offset), Some(base_offset)) => RelativeLabel::Behind(
                (offset - base_offset) as i128,
            ),
            _ => RelativeLabel::Missing,
        }
    }
}

/// The edit that makes the signal at `i2` run `relative` seconds behind the
/// one at `i1`, where both are signals and the offset can be counted.
pub open spec fn tuning_edit(m: RoadMapView, i1: usize, i2: usize, relative: u64) -> Option<
    EditCmd,
> {
    match (offset_at(m, i1 as int), offset_at(m, i2 as int)) {
        (Some(offset1), Some(_)) => if offset1 + relative <= u64::MAX {
            Some(EditCmd::ChangeSignalOffset { i: i2, offset: (offset1 + relative) as u64 })
        } else {
            None
        },
        _ => None,
    }
}

/// The offset of the signal at intersection `i`, in seconds.
pub fn signal_offset(map: &RoadMap, i: usize) -> (offset: Option<u64>)
    ensures
        offset == offset_at(map@, i as int),
{
    match map.intersection(i) {
        Some(here) => match here.control {
            Control::Signal { offset } => Some(offset),
            Control::Uncontrolled => None,
        },
        None => None,
    }
}

/// The intersections that `labels` are for, in their order.
pub open spec fn labelled<T>(labels: Seq<(usize, T)>) -> Seq<usize> {
    Seq::new(labels.len(), |k: int| labels[k].0)
}

/// The offset of each of `members`, with the member it is shown at, in the
/// rising order of the members.
pub fn absolute_offsets(map: &RoadMap, members: &BTreeSet<usize>) -> (labels: Vec<
    (usize, Option<u64>),
>)
    ensures
        lists(labelled(labels@), members@),
        forall|k: int|
            0 <= k < labels@.len() ==> (#[trigger] labels@[k]).1 == offset_at(
                map@,
                labels@[k].0 as int,
            ),
{
    let order = in_order(members);
    let mut labels: Vec<(usize, Option<u64>)> = Vec::new();
    let mut k: usize = 0;
    while k < order.len()
        invariant
            k <= order.len(),
            labels@.len() == k,
            forall|j: int| 0 <= j < k ==> (#[trigger] labels@[j]).0 == order@[j],
            forall|j: int|
                0 <= j < k ==> (#[trigger] labels@[j]).1 == offset_at(map@, order@[j] as int),
        decreases order.len() - k,
    {
        labels.push((order[k], signal_offset(map, order[k])));
        k += 1;
    }
    assert(labelled(labels@) =~= order@);
    labels
}

/// What is shown at each of `members` against `base`, with the member it is
/// shown at, in the rising order of the members.
pub fn relative_offsets(map: &RoadMap, base: usize, members: &BTreeSet<usize>) -> (labels: Vec<
    (usize, RelativeLabel),
>)
    ensures
        lists(labelled(labels@), members@),
        forall|k: int|
            0 <= k < labels@.len() ==> (#[trigger] labels@[k]).1 == relative_label(
                map@,
                base,
                labels@[k].0,
            ),
{
    let order = in_order(members);
    let base_offset = signal_offset(map, base);
    let mut labels: Vec<(usize, RelativeLabel)> = Vec::new();
    let mut k: usize = 0;
    while k < order.len()
        invariant
            k <= order.len(),
            labels@.len() == k,
            base_offset == offset_at(map@, base as int),
            forall|j: int| 0 <= j < k ==> (#[trigger] labels@[j]).0 == order@[j],
            forall|j: int|
                0 <= j < k ==> (#[trigger] labels@[j]).1 == relative_label(map@, base, order@[j]),
        decreases order.len() - k,
    {
        let i = order[k];
        let label = if i == base {
            RelativeLabel::Base
        } else {
            match (signal_offset(map, i), base_offset) {
                (Some(offset), Some(base_offset)) => RelativeLabel::Behind(
                    offset as i128 - base_offset as i128,
                ),
                _ => RelativeLabel::Missing,
            }
        };
        labels.push((i, label));
        k += 1;
    }
    assert(labelled(labels@) =~= order@);
    labels
}

/// Where the spinner for the offset between two signals stands at first:
/// how far the signal at `i2` runs behind the one at `i1`, in seconds.
pub open spec fn start_between(m: RoadMapView, i1: usize, i2: usize) -> Option<i128> {
    match (offset_at(m, i1 as int), offset_at(m, i2 as int)) {
        (Some(offset1), Some(offset2)) => Some((offset2 - offset1) as i128),
        _ => None,
    }
}

/// The spinner with which the offset between two signals is set, in seconds.
#[derive(Clone, Copy, Debug, PartialEq, Eq, Structural)]
pub struct OffsetSpinner {
    /// The least offset that can be set.
    pub low: u64,
    /// The greatest offset that can be set.
    pub high: u64,
    /// The offset between the two signals as it is.
    pub start: i128,
    /// By how much one step changes the offset.
    pub step: u64,
}

/// The greatest offset that the spinner sets, in seconds.
pub const MAX_TUNED_OFFSET: u64 = 90;

/// Where the spinner for the offset between the signals at `i1` and `i2`
/// stands at first, where both are signals.
pub fn tuning_start(map: &RoadMap, i1: usize, i2: usize) -> (start: Option<i128>)
    ensures
        start == start_between(map@, i1, i2),
{
    match (signal_offset(map, i1), signal_offset(map, i2)) {
        (Some(offset1), Some(offset2)) => Some(offset2 as i128 - offset1 as i128),
        _ => None,
    }
}

/// The spinner for the offset between the signals at `i1` and `i2`: from
/// nothing to `MAX_TUNED_OFFSET` seconds in steps of one, standing at the
/// offset between the two as it is.
pub fn tuning_spinner(map: &RoadMap, i1: usize, i2: usize) -> (spinner: Option<OffsetSpinner>)
    ensures
        spinner == match start_between(map@, i1, i2) {
            Some(start) => Some(OffsetSpinner { low: 0, high: MAX_TUNED_OFFSET, start, step: 1 }),
            None => None,
        },
{
    match tuning_start(map, i1, i2) {
        Some(start) => Some(OffsetSpinner { low: 0, high: MAX_TUNED_OFFSET, start, step: 1 }),
        None => None,
    }
}

/// The edit that makes the signal at `i2` run `relative` seconds behind the
/// one at `i1`.
pub fn tune_relative(map: &RoadMap, i1: usize, i2: usize, relative: u64) -> (edit: Option<EditCmd>)
    ensures
        edit == tuning_edit(map@, i1, i2, relative),
        edit matches Some(c) ==> cmd_fits(map@, c),
{
    match (signal_offset(map, i1), signal_offset(map, i2)) {
        (Some(offset1), Some(_)) => match offset1.checked_add(relative) {
            Some(offset) => Some(EditCmd::ChangeSignalOffset { i: i2, offset }),
            None => None,
        },
        _ => None,
    }
}

/// Where the tool for tuning offsets stands.
#[derive(Clone, Copy, Debug, PartialEq, Eq, Structural)]
pub enum Screen {
    /// Every signal of the group shows its own offset.
    ShowAbsolute,
    /// Every signal shows its offset against the base.
    ShowRelative { base: usize },
    /// The offset between two signals is being set.
    TuneRelative { i1: usize, i2: usize },
}

/// What happened on a screen of the tool.
#[derive(Clone, Copy, Debug, PartialEq, Eq, Structural)]
pub enum Click {
    /// The close button.
    Close,
    /// The button that sets the offset, with the seconds in its spinner.
    UpdateOffset(u64),
    /// An intersection on the map.
    Intersection(usize),
}

/// What the tool does next.
#[derive(Clone, Copy, Debug, PartialEq, Eq, Structural)]
pub enum Step {
    /// Nothing.
    Keep,
    /// Leave this screen.
    Pop,
    /// Put this screen in the place of the one shown.
    Replace(Screen),
    /// Put this screen on top of the one shown.
    Push(Screen),
    /// Make this edit, leave this screen, and put the other in the place of
    /// the one below.
    EditThenReplace(EditCmd, Screen),
}

/// What follows a click on a screen, on the map `m`.
///
/// On the first screen a click on a signal makes it the base. On the second
/// a click on another signal goes on to tune the two, and closing goes back
/// to the first. On the third the button sets the offset and goes back to
/// the second, if the offset can be set; closing leaves.
pub open spec fn step_after(m: RoadMapView, screen: Screen, click: Click) -> Step {
    match (screen, click) {
        (Screen::ShowAbsolute, Click::Close) => Step::Pop,
        (Screen::ShowAbsolute, Click::Intersection(i)) => Step::Replace(
            Screen::ShowRelative { base: i },
        ),
        (Screen::ShowRelative { base }, Click::Close) => Step::Replace(Screen::ShowAbsolute),
        (Screen::ShowRelative { base }, Click::Intersection(i)) => Step::Push(
            Screen::TuneRelative { i1: base, i2: i },
        ),
        (Screen::TuneRelative { i1, i2 }, Click::Close) => Step::Pop,
        (Screen::TuneRelative { i1, i2 }, Click::UpdateOffset(relative)) => match tuning_edit(
            m,
            i1,
            i2,
            relative,
        ) {
            Some(edit) => Step::EditThenReplace(edit, Screen::ShowRelative { base: i1 }),
            None => Step::Keep,
        },
        _ => Step::Keep,
    }
}

/// What the tool does after a click on one of its screens.
pub fn on_click(map: &RoadMap, screen: Screen, click: Click) -> (step: Step)
    ensures
        step == step_after(map@, screen, click),
{
    match (screen, click) {
        (Screen::ShowAbsolute, Click::Close) => Step::Pop,
        (Screen::ShowAbsolute, Click::Intersection(i)) => Step::Replace(
            Screen::ShowRelative { base: i },
        ),
        (Screen::ShowRelative { base }, Click::Close) => Step::Replace(Screen::ShowAbsolute),
        (Screen::ShowRelative { base }, Click::Intersection(i)) => Step::Push(
            Screen::TuneRelative { i1: base, i2: i },
        ),
        (Screen::TuneRelative { i1, i2 }, Click::Close) => Step::Pop,
        (Screen::TuneRelative { i1, i2 }, Click::UpdateOffset(relative)) => match tune_relative(
            map,
            i1,
            i2,
            relative,
        ) {
            Some(edit) => Step::EditThenReplace(edit, Screen::ShowRelative { base: i1 }),
            None => Step::Keep,
        },
        _ => Step::Keep,
    }
}

/// Whether the intersection `i` can be picked on `screen`: it is one of
/// `members`, and on the second screen it is not the base.
pub fn can_pick(screen: Screen, members: &BTreeSet<usize>, i: usize) -> (pick: bool)
    ensures
        pick == (members@.contains(i) && match screen {
            Screen::ShowAbsolute => true,
            Screen::ShowRelative { base } => i != base,
            Screen::TuneRelative { .. } => false,
        }),
{
    let among = is_member(members, i);
    match screen {
        Screen::ShowAbsolute => among,
        Screen::ShowRelative { base } => among && i != base,
        Screen::TuneRelative { .. } => false,
    }
}

} // verus!

//! Sketching a route on the map: what clicks, drags and moves of the pointer
//! make of the waypoints. Nothing is drawn here; whoever draws hands in what
//! the pointer did and is told what has changed.

use crate::network::RoadMapView;
use crate::road_map::RoadMap;
use vstd::prelude::*;

verus! {

/// `x` stands at place `k` of `v` and nowhere before it.
pub open spec fn is_first_place(v: Seq<usize>, x: usize, k: int) -> bool {
    &&& 0 <= k < v.len()
    &&& v[k] == x
    &&& forall|j: int| 0 <= j < k ==> v[j] != x
}

/// Where `x` stands first in `v`, if it stands there at all.
pub open spec fn first_place(v: Seq<usize>, x: usize) -> int {
    choose|k: int| is_first_place(v, x, k)
}

/// The first place of `x` in `v`.
pub fn position(v: &Vec<usize>, x: usize) -> (found: Option<usize>)
    ensures
        match found {
            Some(k) => v@.contains(x) && k == first_place(v@, x) && is_first_place(v@, x, k as int),
            None => !v@.contains(x),
        },
{
    let mut k: usize = 0;
    while k < v.len()
        invariant
            k <= v.len(),
            forall|j: int| 0 <= j < k ==> v@[j] != x,
        decreases v.len() - k,
    {
        if v[k] == x {
            proof {
                assert(is_first_place(v@, x, k as int));
                let other = first_place(v@, x);
                assert(is_first_place(v@, x, other));
                assert(other == k) by {
                    if other < k {
                        assert(v@[other] != x);
                    }
                    if k < other {
                        assert(v@[k as int] != x);
                    }
                }
            }
            return Some(k);
        }
        k += 1;
    }
    None
}

/// The waypoints of a route, in their order.
pub struct Route {
    pub waypoints: Vec<usize>,
}

impl View for Route {
    type V = Seq<usize>;

    open spec fn view(&self) -> Seq<usize> {
        self.waypoints@
    }
}

impl Clone for Route {
    fn clone(&self) -> (copy: Route)
        ensures
            copy@ == self@,
    {
        let waypoints = self.waypoints.clone();
        assert(waypoints@ =~= self.waypoints@);
        Route { waypoints }
    }
}

/// The waypoints with `i` added, on the map `m`: the first waypoint is taken
/// as it comes; one that the route has already is not taken again; another
/// is added behind the last where roads join the two.
pub open spec fn with_waypoint(m: RoadMapView, waypoints: Seq<usize>, i: usize) -> Seq<usize> {
    if waypoints.len() == 0 {
        seq![i]
    } else if waypoints.contains(i) {
        waypoints
    } else if m.connected(waypoints.last() as nat, i as nat) {
        waypoints.push(i)
    } else {
        waypoints
    }
}

impl Route {
    /// The route without waypoints.
    pub fn new() -> (route: Route)
        ensures
            route@ == Seq::<usize>::empty(),
    {
        Route { waypoints: Vec::new() }
    }

    /// Adds the intersection `i` as a waypoint, if it can be one.
    pub fn add_waypoint(&mut self, map: &RoadMap, i: usize)
        ensures
            final(self)@ == with_waypoint(map@, old(self)@, i),
    {
        if self.waypoints.len() == 0 {
            self.waypoints.push(i);
            assert(self@ =~= seq![i]);
            return ;
        }
        if position(&self.waypoints, i).is_some() {
            // Ignore. They can drag this point, though.
            return ;
        }
        // Can we add this to the end of the path?
        let last = self.waypoints[self.waypoints.len() - 1];
        if map.simple_path_btwn(last, i).is_some() {
            self.waypoints.push(i);
        }
    }

    /// Where the intersection `i` stands first among the waypoints.
    pub fn idx(&self, i: usize) -> (found: Option<usize>)
        ensures
            match found {
                Some(k) => self@.contains(i) && k == first_place(self@, i) && is_first_place(
                    self@,
                    i,
                    k as int,
                ),
                None => !self@.contains(i),
            },
    {
        position(&self.waypoints, i)
    }

    /// Puts the intersection `new_i` in the place of waypoint `idx`.
    pub fn move_waypoint(&mut self, idx: usize, new_i: usize)
        requires
            idx < old(self)@.len(),
        ensures
            final(self)@ == old(self)@.update(idx as int, new_i),
    {
        self.waypoints.set(idx, new_i);
    }

    /// Whether both routes have the same waypoints in the same order.
    pub fn same_as(&self, other: &Route) -> (same: bool)
        ensures
            same == (self@ == other@),
    {
        if self.waypoints.len() != other.waypoints.len() {
            return false;
        }
        let mut k: usize = 0;
        while k < self.waypoints.len()
            invariant
                k <= self.waypoints.len(),
                self.waypoints.len() == other.waypoints.len(),
                forall|j: int| 0 <= j < k ==> self@[j] == other@[j],
            decreases self.waypoints.len() - k,
        {
            if self.waypoints[k] != other.waypoints[k] {
                return false;
            }
            k += 1;
        }
        assert(self@ =~= other@);
        true
    }
}

/// What the pointer is doing to the route.
#[derive(Clone, Copy, Debug, PartialEq, Eq, Structural)]
pub enum Mode {
    /// Nothing.
    Neutral,
    /// It rests on this intersection.
    Hovering(usize),
    /// It drags waypoint `idx`, and is at the intersection `at`.
    Dragging { idx: usize, at: usize },
}

/// What the pointer did since it was last looked at.
#[derive(Clone, Copy, Debug, PartialEq, Eq, Structural)]
pub struct Pointer {
    /// The left button was clicked.
    pub clicked: bool,
    /// The left button went down.
    pub pressed: bool,
    /// The left button came up.
    pub released: bool,
    /// The pointer moved.
    pub moved: bool,
    /// The intersection near the pointer, if one is near enough.
    pub over: Option<usize>,
}

/// What a sketching tool answers to an event.
#[derive(Clone, Copy, Debug, PartialEq, Eq, Structural)]
pub enum SketchOutcome {
    /// The tool is done: leave it.
    Pop,
    /// The tool stays; `redraw` tells whether what it shows has changed.
    Keep { redraw: bool },
}

/// The mode after the pointer moved from hovering.
pub open spec fn hover_after_move(mode: Mode, p: Pointer) -> Mode {
    if p.moved {
        match p.over {
            Some(i) => Mode::Hovering(i),
            None => Mode::Neutral,
        }
    } else {
        mode
    }
}

/// The route and the mode that the pointer makes of `route` and `mode` on the
/// map `m`.
///
/// Doing nothing, the pointer comes to hover over an intersection that it
/// moves near. Hovering, a click adds the intersection as a waypoint; a
/// press on a waypoint begins to drag it; a move hovers elsewhere or
/// nowhere. Dragging, a release hovers where the pointer is; a move to
/// another intersection puts the waypoint there.
pub open spec fn sketched(m: RoadMapView, route: Seq<usize>, mode: Mode, p: Pointer) -> (
    Seq<usize>,
    Mode,
) {
    match mode {
        Mode::Neutral => {
            if p.moved && p.over is Some {
                (route, Mode::Hovering(p.over->0))
            } else {
                (route, mode)
            }
        },
        Mode::Hovering(i) => {
            if p.clicked {
                (with_waypoint(m, route, i), mode)
            } else if p.pressed && route.contains(i) {
                (route, Mode::Dragging { idx: first_place(route, i) as usize, at: i })
            } else {
                (route, hover_after_move(mode, p))
            }
        },
        Mode::Dragging { idx, at } => {
            if p.released {
                (route, Mode::Hovering(at))
            } else if p.moved && p.over is Some && p.over->0 != at {
                (route.update(idx as int, p.over->0), Mode::Dragging { idx, at: p.over->0 })
            } else {
                (route, mode)
            }
        },
    }
}

/// The tool that sketches a route waypoint by waypoint.
pub struct RouteSketcher {
    route: Route,
    mode: Mode,
}

impl RouteSketcher {
    /// The waypoints.
    pub closed spec fn route(&self) -> Seq<usize> {
        self.route@
    }

    /// What the pointer is doing.
    pub closed spec fn mode(&self) -> Mode {
        self.mode
    }

    /// A waypoint that is dragged is one of the route.
    pub open spec fn wf(&self) -> bool {
        self.mode() matches Mode::Dragging { idx, .. } ==> idx < self.route().len()
    }

    /// The tool with nothing sketched yet.
    pub fn new_state() -> (tool: RouteSketcher)
        ensures
            tool.wf(),
            tool.route() == Seq::<usize>::empty(),
            tool.mode() == Mode::Neutral,
    {
        RouteSketcher { route: Route::new(), mode: Mode::Neutral }
    }

    /// The waypoints sketched so far.
    pub fn waypoints(&self) -> (waypoints: &Vec<usize>)
        ensures
            waypoints@ == self.route(),
    {
        &self.route.waypoints
    }

    /// What the pointer is doing to the route.
    pub fn current_mode(&self) -> (mode: Mode)
        ensures
            mode == self.mode(),
    {
        self.mode
    }

    /// Takes in what the pointer did.
    pub fn update_mode(&mut self, map: &RoadMap, pointer: &Pointer)
        requires
            old(self).wf(),
        ensures
            final(self).wf(),
            (final(self).route(), final(self).mode()) == sketched(
                map@,
                old(self).route(),
                old(self).mode(),
                *pointer,
            ),
    {
        match self.mode {
            Mode::Neutral => {
                if pointer.moved {
                    if let Some(i) = pointer.over {
                        self.mode = Mode::Hovering(i);
                    }
                }
            },
            Mode::Hovering(i) => {
                if pointer.clicked {
                    self.route.add_waypoint(map, i);
                    return ;
                }
                if pointer.pressed {
                    if let Some(idx) = self.route.idx(i) {
                        self.mode = Mode::Dragging { idx, at: i };
                        return ;
                    }
                }
                if pointer.moved {
                    if let Some(i) = pointer.over {
                        self.mode = Mode::Hovering(i);
                    } else {
                        self.mode = Mode::Neutral;
                    }
                }
            },
            Mode::Dragging { idx, at } => {
                if pointer.released {
                    self.mode = Mode::Hovering(at);
                    return ;
                }
                if pointer.moved {
                    if let Some(i) = pointer.over {
                        if i != at {
                            self.route.move_waypoint(idx, i);
                            self.mode = Mode::Dragging { idx, at: i };
                        }
                    }
                }
            },
        }
    }

    /// Answers an event: a click on Cancel ends the tool; anything else is
    /// what the pointer did, and the answer tells whether the route or the
    /// mode has changed and the sketch must be drawn anew.
    pub fn event(&mut self, map: &RoadMap, cancel: bool, pointer: &Pointer) -> (out: SketchOutcome)
        requires
            old(self).wf(),
        ensures
            final(self).wf(),
            cancel ==> out == SketchOutcome::Pop && final(self).route() == old(self).route()
                && final(self).mode() == old(self).mode(),
            !cancel ==> (final(self).route(), final(self).mode()) == sketched(
                map@,
                old(self).route(),
                old(self).mode(),
                *pointer,
            ) && out == (SketchOutcome::Keep {
                redraw: final(self).route() != old(self).route() || final(self).mode() != old(
                    self,
                ).mode(),
            }),
    {
        if cancel {
            return SketchOutcome::Pop;
        }
        let orig_route = self.route.clone();
        let orig_mode = self.mode;
        self.update_mode(map, pointer);
        let redraw = !self.route.same_as(&orig_route) || self.mode != orig_mode;
        SketchOutcome::Keep { redraw }
    }
}

/// What is drawn of a sketch.
#[derive(Clone, Copy, Debug, PartialEq, Eq, Structural)]
pub enum Shape {
    /// A waypoint, by its intersection.
    Waypoint(usize),
    /// A road on the way from one waypoint to the next.
    RouteRoad(usize),
    /// The intersection where the pointer is.
    Cursor(usize),
    /// A road on the way from the last waypoint to where the pointer hovers.
    CursorRoad(usize),
}

/// `roads` is what is drawn between `a` and `b`: a shortest way where roads
/// join them, nothing where none do.
pub open spec fn way_between(m: RoadMapView, a: usize, b: usize, roads: Seq<usize>) -> bool {
    if m.connected(a as nat, b as nat) {
        exists|stops: Seq<usize>| m.is_shortest_walk(a as nat, b as nat, roads, stops)
    } else {
        roads.len() == 0
    }
}

/// The waypoints as they are drawn, in their order.
pub open spec fn dots(route: Seq<usize>) -> Seq<Shape> {
    Seq::new(route.len(), |k: int| Shape::Waypoint(route[k]))
}

/// The roads of a way as they are drawn, for the route or for the pointer.
pub open spec fn stretch(roads: Seq<usize>, cursor: bool) -> Seq<Shape> {
    Seq::new(
        roads.len(),
        |k: int|
            if cursor {
                Shape::CursorRoad(roads[k])
            } else {
                Shape::RouteRoad(roads[k])
            },
    )
}

/// `shapes` is what is drawn of the first `upto` legs of the route: for each
/// leg, in their order, the roads of a way from its waypoint to the next.
pub open spec fn legs_drawn(m: RoadMapView, route: Seq<usize>, upto: int, shapes: Seq<Shape>) -> bool
    decreases upto,
{
    if upto <= 0 {
        shapes == Seq::<Shape>::empty()
    } else {
        exists|before: Seq<Shape>, roads: Seq<usize>|
            legs_drawn(m, route, upto - 1, before) && way_between(
                m,
                route[upto - 1],
                route[upto],
                roads,
            ) && shapes == before + stretch(roads, false)
    }
}

/// `shapes` is what is drawn for the pointer: nothing while it does
/// nothing; where it hovers, the intersection and a way there from the last
/// waypoint; where it drags, the intersection it is at.
pub open spec fn cursor_drawn(m: RoadMapView, route: Seq<usize>, mode: Mode, shapes: Seq<Shape>) -> bool {
    match mode {
        Mode::Neutral => shapes == Seq::<Shape>::empty(),
        Mode::Hovering(i) => {
            if route.len() == 0 {
                shapes == seq![Shape::Cursor(i)]
            } else {
                exists|roads: Seq<usize>|
                    way_between(m, route.last(), i, roads) && shapes == seq![Shape::Cursor(i)]
                        + stretch(roads, true)
            }
        },
        Mode::Dragging { idx, at } => shapes == seq![Shape::Cursor(at)],
    }
}

/// `shapes` is what is drawn of the route and the mode: the waypoints, then
/// the legs between them, then what the pointer is doing.
pub open spec fn previewed(m: RoadMapView, route: Seq<usize>, mode: Mode, shapes: Seq<Shape>) -> bool {
    exists|legs: Seq<Shape>, cursor: Seq<Shape>|
        legs_drawn(m, route, route.len() - 1, legs) && cursor_drawn(m, route, mode, cursor)
            && shapes == dots(route) + legs + cursor
}

/// The roads that are drawn between `a` and `b`.
fn way(map: &RoadMap, a: usize, b: usize) -> (roads: Vec<usize>)
    ensures
        way_between(map@, a, b, roads@),
{
    match map.simple_path_btwn(a, b) {
        Some((roads, stops)) => {
            assert(map@.is_shortest_walk(a as nat, b as nat, roads@, stops@));
            roads
        },
        None => Vec::new(),
    }
}

/// Puts `roads` behind `batch` as they are drawn.
fn push_stretch(batch: &mut Vec<Shape>, roads: &Vec<usize>, cursor: bool)
    ensures
        final(batch)@ == old(batch)@ + stretch(roads@, cursor),
{
    let mut k: usize = 0;
    assert(batch@ =~= old(batch)@ + stretch(roads@.take(0), cursor));
    while k < roads.len()
        invariant
            k <= roads.len(),
            batch@ == old(batch)@ + stretch(roads@.take(k as int), cursor),
        decreases roads.len() - k,
    {
        if cursor {
            batch.push(Shape::CursorRoad(roads[k]));
        } else {
            batch.push(Shape::RouteRoad(roads[k]));
        }
        assert(batch@ =~= old(batch)@ + stretch(roads@.take(k + 1), cursor));
        k += 1;
    }
    assert(roads@.take(roads.len() as int) =~= roads@);
}

/// The waypoints as they are drawn.
fn draw_dots(route: &Vec<usize>) -> (batch: Vec<Shape>)
    ensures
        batch@ == dots(route@),
{
    let mut batch: Vec<Shape> = Vec::new();
    let mut k: usize = 0;
    while k < route.len()
        invariant
            k <= route.len(),
            batch@.len() == k,
            forall|j: int| 0 <= j < k ==> batch@[j] == Shape::Waypoint(route@[j]),
        decreases route.len() - k,
    {
        batch.push(Shape::Waypoint(route[k]));
        k += 1;
    }
    assert(batch@ =~= dots(route@));
    batch
}

impl RouteSketcher {
    /// What is to be drawn of the sketch on the map: the confirmed route,
    /// then the current operation.
    pub fn update_preview(&self, map: &RoadMap) -> (shapes: Vec<Shape>)
        ensures
            previewed(map@, self.route(), self.mode(), shapes@),
    {
        let route = &self.route.waypoints;
        // Draw the confirmed route
        let mut batch = draw_dots(route);
        let ghost mut legs = Seq::<Shape>::empty();
        let mut k: usize = 1;
        assert(batch@ =~= dots(route@) + legs);
        while k < route.len()
            invariant
                1 <= k,
                k <= route.len() || (route.len() == 0 && k == 1),
                batch@ == dots(route@) + legs,
                legs_drawn(map@, route@, k - 1, legs),
            decreases route.len() - k,
        {
            let roads = way(map, route[k - 1], route[k]);
            let ghost before = legs;
            push_stretch(&mut batch, &roads, false);
            proof {
                legs = before + stretch(roads@, false);
                assert(batch@ =~= dots(route@) + legs);
                assert(legs_drawn(map@, route@, k as int, legs));
            }
            k += 1;
        }
        proof {
            if route@.len() == 0 {
                assert(legs_drawn(map@, route@, 0, legs));
                assert(legs == Seq::<Shape>::empty());
            }
            assert(legs_drawn(map@, route@, route@.len() - 1, legs));
        }
        // Draw the current operation
        let ghost drawn = batch@;
        match self.mode {
            Mode::Neutral => {
                assert(batch@ =~= drawn + Seq::<Shape>::empty());
            },
            Mode::Hovering(i) => {
                batch.push(Shape::Cursor(i));
                if route.len() > 0 {
                    let roads = way(map, route[route.len() - 1], i);
                    push_stretch(&mut batch, &roads, true);
                    assert(batch@ =~= drawn + (seq![Shape::Cursor(i)] + stretch(roads@, true)));
                    assert(way_between(map@, route@.last(), i, roads@) && batch@ == drawn + (
                    seq![Shape::Cursor(i)] + stretch(roads@, true)));
                } else {
                    assert(batch@ =~= drawn + seq![Shape::Cursor(i)]);
                }
            },
            Mode::Dragging { idx, at } => {
                batch.push(Shape::Cursor(at));
                assert(batch@ =~= drawn + seq![Shape::Cursor(at)]);
            },
        }
        proof {
            let cursor = batch@.skip(drawn.len() as int);
            assert(batch@ =~= drawn + cursor);
            assert(cursor_drawn(map@, route@, self.mode, cursor)) by {
                match self.mode {
                    Mode::Neutral => {
                        assert(cursor =~= Seq::<Shape>::empty());
                    },
                    Mode::Hovering(i) => {
                        if route@.len() == 0 {
                            assert(cursor =~= seq![Shape::Cursor(i)]);
                        } else {
                            let roads = choose|roads: Seq<usize>|
                                way_between(map@, route@.last(), i, roads) && batch@ == drawn + (
                                seq![Shape::Cursor(i)] + stretch(roads, true));
                            assert(cursor =~= seq![Shape::Cursor(i)] + stretch(roads, true));
                        }
                    },
                    Mode::Dragging { idx, at } => {
                        assert(cursor =~= seq![Shape::Cursor(at)]);
                    },
                }
            }
            assert(batch@ == dots(route@) + legs + cursor);
        }
        batch
    }
}

/// The tool that sketches a route as the row of intersections it passes.
pub struct SketchRoute {
    path: Vec<usize>,
    mode: Mode,
}

/// What a click on the intersection `i` can make of `path` on the map `m`.
/// The first intersection is taken as it comes, and one on the path is not
/// taken again. Another one that roads join to the end of the path takes the
/// place of that end together with a shortest way there, each road of the
/// way by its two ends; one that no road leads to changes nothing.
pub open spec fn path_clicked(m: RoadMapView, path: Seq<usize>, i: usize, after: Seq<usize>) -> bool {
    if path.len() == 0 {
        after == seq![i]
    } else if path.contains(i) {
        after == path
    } else if m.connected(path.last() as nat, i as nat) {
        exists|roads: Seq<usize>, stops: Seq<usize>|
            m.is_shortest_walk(path.last() as nat, i as nat, roads, stops) && after
                == path.drop_last() + m.ends_of(roads)
    } else {
        after == path
    }
}

/// What the pointer can make of `path` and `mode` on the map `m`.
///
/// Doing nothing, the pointer comes to hover over an intersection that it
/// moves near. Hovering, a click leads the path on; a press on an
/// intersection of the path begins to drag it; a move hovers elsewhere or
/// nowhere. Dragging, a release hovers where the pointer is; a move changes
/// nothing.
pub open spec fn path_sketched(
    m: RoadMapView,
    path: Seq<usize>,
    mode: Mode,
    p: Pointer,
    after: Seq<usize>,
    then: Mode,
) -> bool {
    match mode {
        Mode::Neutral => {
            &&& after == path
            &&& then == if p.moved && p.over is Some {
                Mode::Hovering(p.over->0)
            } else {
                mode
            }
        },
        Mode::Hovering(i) => {
            if p.clicked {
                path_clicked(m, path, i, after) && then == mode
            } else if p.pressed && path.contains(i) {
                after == path && then == (Mode::Dragging {
                    idx: first_place(path, i) as usize,
                    at: i,
                })
            } else {
                after == path && then == hover_after_move(mode, p)
            }
        },
        Mode::Dragging { idx, at } => {
            &&& after == path
            &&& then == if p.released {
                Mode::Hovering(at)
            } else {
                mode
            }
        },
    }
}

/// Puts the two ends of each of `roads` behind `path`.
fn push_ends(path: &mut Vec<usize>, map: &RoadMap, roads: &Vec<usize>)
    requires
        forall|k: int| 0 <= k < roads@.len() ==> (#[trigger] roads@[k]) < map@.roads.len(),
    ensures
        final(path)@ == old(path)@ + map@.ends_of(roads@),
{
    let mut k: usize = 0;
    assert(path@ =~= old(path)@ + map@.ends_of(roads@.take(0)));
    while k < roads.len()
        invariant
            k <= roads.len(),
            forall|j: int| 0 <= j < roads@.len() ==> (#[trigger] roads@[j]) < map@.roads.len(),
            path@ == old(path)@ + map@.ends_of(roads@.take(k as int)),
        decreases roads.len() - k,
    {
        assert(roads@.take(k + 1).drop_last() =~= roads@.take(k as int));
        assert(roads@[k as int] < map@.roads.len());
        match map.road_ends(roads[k]) {
            Some((src, dst)) => {
                path.push(src);
                path.push(dst);
            },
            None => {},
        }
        assert(path@ =~= old(path)@ + map@.ends_of(roads@.take(k + 1)));
        k += 1;
    }
    assert(roads@.take(roads.len() as int) =~= roads@);
}

impl SketchRoute {
    /// The intersections that the route passes.
    pub closed spec fn path(&self) -> Seq<usize> {
        self.path@
    }

    /// What the pointer is doing.
    pub closed spec fn mode(&self) -> Mode {
        self.mode
    }

    /// The tool with nothing sketched yet.
    pub fn new_state() -> (tool: SketchRoute)
        ensures
            tool.path() == Seq::<usize>::empty(),
            tool.mode() == Mode::Neutral,
    {
        SketchRoute { path: Vec::new(), mode: Mode::Neutral }
    }

    /// The intersections sketched so far.
    pub fn intersections(&self) -> (path: &Vec<usize>)
        ensures
            path@ == self.path(),
    {
        &self.path
    }

    /// What the pointer is doing to the route.
    pub fn current_mode(&self) -> (mode: Mode)
        ensures
            mode == self.mode(),
    {
        self.mode
    }

    /// Leads the path on to the intersection `i`.
    fn click(&mut self, map: &RoadMap, i: usize)
        ensures
            path_clicked(map@, old(self).path(), i, final(self).path()),
            final(self).mode() == old(self).mode(),
    {
        if self.path.len() == 0 {
            self.path.push(i);
            assert(self.path@ =~= seq![i]);
        } else if position(&self.path, i).is_some() {
            // Ignore. They can drag this point, though.
        } else {
            let last = self.path[self.path.len() - 1];
            match map.simple_path_btwn(last, i) {
                Some((roads, stops)) => {
                    self.path.pop();
                    push_ends(&mut self.path, map, &roads);
                    assert(map@.is_shortest_walk(last as nat, i as nat, roads@, stops@));
                },
                None => {},
            }
        }
    }

    /// Takes in what the pointer did.
    pub fn update_mode(&mut self, map: &RoadMap, pointer: &Pointer)
        ensures
            path_sketched(
                map@,
                old(self).path(),
                old(self).mode(),
                *pointer,
                final(self).path(),
                final(self).mode(),
            ),
    {
        match self.mode {
            Mode::Neutral => {
                if pointer.moved {
                    if let Some(i) = pointer.over {
                        self.mode = Mode::Hovering(i);
                    }
                }
            },
            Mode::Hovering(i) => {
                if pointer.clicked {
                    self.click(map, i);
                    return ;
                }
                if pointer.pressed {
                    if let Some(idx) = position(&self.path, i) {
                        self.mode = Mode::Dragging { idx, at: i };
                        return ;
                    }
                }
                if pointer.moved {
                    if let Some(i) = pointer.over {
                        self.mode = Mode::Hovering(i);
                    } else {
                        self.mode = Mode::Neutral;
                    }
                }
            },
            Mode::Dragging { idx, at } => {
                if pointer.released {
                    self.mode = Mode::Hovering(at);
                }
            },
        }
    }

    /// What is to be drawn of the sketch: the intersections of the path.
    pub fn update_preview(&self) -> (shapes: Vec<Shape>)
        ensures
            shapes@ == dots(self.path()),
    {
        draw_dots(&self.path)
    }

    /// Answers an event: what the pointer did is taken in first, and the
    /// answer tells whether the path or the mode has changed; a click on
    /// Cancel then ends the tool.
    pub fn event(&mut self, map: &RoadMap, pointer: &Pointer, cancel: bool) -> (out: SketchOutcome)
        ensures
            path_sketched(
                map@,
                old(self).path(),
                old(self).mode(),
                *pointer,
                final(self).path(),
                final(self).mode(),
            ),
            out == if cancel {
                SketchOutcome::Pop
            } else {
                SketchOutcome::Keep {
                    redraw: final(self).path() != old(self).path() || final(self).mode() != old(
                        self,
                    ).mode(),
                }
            },
    {
        let orig_path = Route { waypoints: self.path.clone() };
        assert(orig_path@ =~= self.path@);
        let orig_mode = self.mode;
        self.update_mode(map, pointer);
        let now = Route { waypoints: self.path.clone() };
        assert(now@ =~= self.path@);
        let redraw = !now.same_as(&orig_path) || self.mode != orig_mode;
        if cancel {
            return SketchOutcome::Pop;
        }
        SketchOutcome::Keep { redraw }
    }
}

} // verus!

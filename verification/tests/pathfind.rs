use traffic_sim::network::{Control, Intersection, LaneType, ModeSet};
use traffic_sim::paths::MapName;
use traffic_sim::road_map::{Road, RoadMap};

const ANYBODY: ModeSet = ModeSet { drive: true, bike: true, walk: true, transit: true };

fn network(intersections: usize, roads: &[(usize, usize)]) -> RoadMap {
    RoadMap::new(
        MapName::seattle("montlake"),
        vec![Intersection { control: Control::Uncontrolled, elevation: 0 }; intersections],
        roads
            .iter()
            .map(|(src, dst)| Road {
                src: *src,
                dst: *dst,
                lanes: vec![LaneType::Buffer],
                through_traffic: ANYBODY,
            })
            .collect(),
    )
    .unwrap()
}

/// A ring of six and a chord, a tail, and two intersections apart:
///
///   0 - 1 - 2 - 3 - 4 - 5 - 0,  1 - 4,  3 - 6,  7 - 8,  9 alone
fn ring() -> RoadMap {
    network(
        10,
        &[(0, 1), (1, 2), (2, 3), (3, 4), (4, 5), (5, 0), (4, 1), (6, 3), (7, 8)],
    )
}

fn assert_is_way(map: &RoadMap, from: usize, to: usize, roads: &[usize], stops: &[usize]) {
    assert_eq!(stops.len(), roads.len() + 1);
    assert_eq!(stops[0], from);
    assert_eq!(stops[roads.len()], to);
    for (k, r) in roads.iter().enumerate() {
        let (src, dst) = map.road_ends(*r).unwrap();
        assert!(
            (src == stops[k] && dst == stops[k + 1]) || (dst == stops[k] && src == stops[k + 1])
        );
    }
}

fn hops(map: &RoadMap, from: usize, to: usize) -> Option<usize> {
    let found = map.simple_path_btwn(from, to);
    if let Some((roads, stops)) = &found {
        assert_is_way(map, from, to, roads, stops);
    }
    found.map(|(roads, _)| roads.len())
}

#[test]
fn the_way_to_oneself_has_no_roads() {
    let map = ring();
    for i in 0..10 {
        assert_eq!(map.simple_path_btwn(i, i), Some((vec![], vec![i])));
    }
}

#[test]
fn neighbours_are_one_road_apart_in_either_direction() {
    let map = ring();
    assert_eq!(map.simple_path_btwn(0, 1), Some((vec![0], vec![0, 1])));
    assert_eq!(map.simple_path_btwn(1, 0), Some((vec![0], vec![1, 0])));
    assert_eq!(map.simple_path_btwn(3, 6), Some((vec![7], vec![3, 6])));
    assert_eq!(map.simple_path_btwn(6, 3), Some((vec![7], vec![6, 3])));
    assert_eq!(map.simple_path_btwn(8, 7), Some((vec![8], vec![8, 7])));
}

#[test]
fn ways_take_the_fewest_roads() {
    let map = ring();
    // over the chord 1 - 4 or round the other side
    assert_eq!(hops(&map, 0, 4), Some(2));
    // where one way is the shortest, it is found
    assert_eq!(map.simple_path_btwn(0, 2), Some((vec![0, 1], vec![0, 1, 2])));
    assert_eq!(map.simple_path_btwn(6, 4), Some((vec![7, 3], vec![6, 3, 4])));
    assert_eq!(map.simple_path_btwn(5, 3), Some((vec![4, 3], vec![5, 4, 3])));
    assert_eq!(hops(&map, 2, 5), Some(3));
    assert_eq!(hops(&map, 1, 5), Some(2));
    assert_eq!(hops(&map, 0, 3), Some(3));
    assert_eq!(hops(&map, 0, 6), Some(4));
    assert_eq!(hops(&map, 6, 0), Some(4));
    assert_eq!(hops(&map, 6, 1), Some(3));
    assert_eq!(map.simple_path_btwn(6, 2), Some((vec![7, 2], vec![6, 3, 2])));
    for from in 0..7 {
        for to in 0..7 {
            assert_eq!(hops(&map, from, to), hops(&map, to, from));
        }
    }
}

#[test]
fn what_no_road_leads_to_has_no_way() {
    let map = ring();
    assert_eq!(map.simple_path_btwn(0, 7), None);
    assert_eq!(map.simple_path_btwn(8, 6), None);
    assert_eq!(map.simple_path_btwn(9, 0), None);
    assert_eq!(map.simple_path_btwn(0, 9), None);
    // intersections that there are not
    assert_eq!(map.simple_path_btwn(0, 10), None);
    assert_eq!(map.simple_path_btwn(10, 0), None);
    assert_eq!(map.simple_path_btwn(10, 10), None);
    assert_eq!(map.simple_path_btwn(usize::MAX, usize::MAX), None);
    let empty = network(0, &[]);
    assert_eq!(empty.simple_path_btwn(0, 0), None);
}

#[test]
fn loops_and_doubled_roads_do_no_harm() {
    let map = network(3, &[(0, 0), (0, 1), (1, 0), (1, 1), (1, 2), (2, 1)]);
    assert_eq!(map.simple_path_btwn(0, 0), Some((vec![], vec![0])));
    assert_eq!(map.simple_path_btwn(0, 2), Some((vec![1, 4], vec![0, 1, 2])));
    assert_eq!(map.simple_path_btwn(2, 0), Some((vec![4, 1], vec![2, 1, 0])));
}

#[test]
fn ways_on_a_long_line_and_a_grid() {
    let line: Vec<(usize, usize)> = (0..99).map(|k| (k + 1, k)).collect();
    let map = network(100, &line);
    assert_eq!(hops(&map, 0, 99), Some(99));
    assert_eq!(hops(&map, 99, 0), Some(99));
    assert_eq!(hops(&map, 40, 60), Some(20));
    // a grid of 6 by 6: the distance is the sum of the two differences
    let mut roads = Vec::new();
    for x in 0..6 {
        for y in 0..6 {
            if x + 1 < 6 {
                roads.push((x * 6 + y, (x + 1) * 6 + y));
            }
            if y + 1 < 6 {
                roads.push((x * 6 + y + 1, x * 6 + y));
            }
        }
    }
    let map = network(36, &roads);
    for a in 0..36usize {
        for b in 0..36usize {
            let d = (a / 6).abs_diff(b / 6) + (a % 6).abs_diff(b % 6);
            assert_eq!(hops(&map, a, b), Some(d));
        }
    }
}

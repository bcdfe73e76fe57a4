use petgraph::graph::{EdgeIndex, NodeIndex};
use survex_rs::data::SurveyData;
use survex_rs::point::Point;
use survex_rs::read::{load_records, Record};
use survex_rs::station::{Station, StationManager, LRUD};

#[test]
fn point_new_keeps_coordinates() {
    let p = Point::new(1, -2, 3);
    assert_eq!(p.x, 1);
    assert_eq!(p.y, -2);
    assert_eq!(p.z, 3);
}

#[test]
fn distance_squared_of_three_four_five_triangle() {
    let a = Point::new(0, 0, 0);
    let b = Point::new(300, 400, 0);
    assert_eq!(a.distance_squared(&b), 250_000);
    assert_eq!(b.distance_squared(&a), 250_000);
    assert_eq!(a.distance_squared(&a), 0);
}

#[test]
fn distance_squared_at_the_extremes() {
    let a = Point::new(i32::MIN, i32::MIN, i32::MIN);
    let b = Point::new(i32::MAX, i32::MAX, i32::MAX);
    let d = (u32::MAX as u128) * (u32::MAX as u128);
    assert_eq!(a.distance_squared(&b), 3 * d);
}

#[test]
fn lrud_negative_readings_are_absent() {
    let lrud = LRUD::new(-1, 0, 30, -100);
    assert_eq!(lrud.left, None);
    assert_eq!(lrud.right, Some(0));
    assert_eq!(lrud.up, Some(30));
    assert_eq!(lrud.down, None);
}

#[test]
fn lrud_update_replaces_every_reading() {
    let mut lrud = LRUD::new(100, 200, 300, 400);
    lrud.update(-1, 5, -7, 0);
    assert_eq!(lrud.left, None);
    assert_eq!(lrud.right, Some(5));
    assert_eq!(lrud.up, None);
    assert_eq!(lrud.down, Some(0));
    lrud.update(1, 2, 3, 4);
    assert_eq!(lrud, LRUD::new(1, 2, 3, 4));
}

#[test]
fn lrud_default_is_all_absent() {
    let lrud = LRUD::default();
    assert_eq!(lrud, LRUD { left: None, right: None, up: None, down: None });
}

#[test]
fn station_new_has_no_flags() {
    let st = Station::new(String::from("a.1"), Point::new(1, 2, 3), 7);
    assert_eq!(st.label, "a.1");
    assert_eq!(st.coords, Point::new(1, 2, 3));
    assert_eq!(st.index, 7);
    assert_eq!(st.lrud, LRUD::default());
    assert!(!st.surface && !st.underground && !st.entrance && !st.exported);
    assert!(!st.fixed && !st.anonymous && !st.wall);
}

#[test]
fn flags_0x1f_set_exactly_five_fields() {
    let mut st = Station::new(String::from("a"), Point::new(0, 0, 0), 0);
    st.set_flags(0x1F);
    assert!(st.surface);
    assert!(st.underground);
    assert!(st.entrance);
    assert!(st.exported);
    assert!(st.fixed);
    assert!(!st.anonymous);
    assert!(!st.wall);
    assert_eq!(st.label, "a");
}

#[test]
fn flags_are_only_switched_on() {
    let mut st = Station::new(String::from("a"), Point::new(0, 0, 0), 0);
    st.set_flags(0x40);
    assert!(st.wall);
    st.set_flags(0x20 | 0x80);
    assert!(st.wall);
    assert!(st.anonymous);
    assert!(!st.surface);
    st.set_flags(0);
    assert!(st.wall && st.anonymous);
}

#[test]
fn add_or_update_creates_then_moves() {
    let mut data = SurveyData::new();
    let a = data.add_or_update(Point::new(0, 0, 0), "a");
    let b = data.add_or_update(Point::new(1, 0, 0), "b");
    assert_eq!((a, b), (0, 1));
    let again = data.add_or_update(Point::new(5, 5, 5), "a");
    assert_eq!(again, 0);
    assert_eq!(data.stations.len(), 2);
    assert_eq!(data.graph.node_count(), 2);
    assert_eq!(data.stations[0].coords, Point::new(5, 5, 5));
    assert_eq!(data.stations[0].index, 0);
    assert_eq!(data.graph[NodeIndex::new(1)], "b");
}

#[test]
fn upsert_twice_keeps_one_station_at_last_coordinates() {
    let mut data = SurveyData::new();
    data.add_or_update(Point::new(1, 1, 1), "x");
    data.add_or_update(Point::new(2, 2, 2), "x");
    let with_label = data.stations.iter().filter(|s| s.label == "x").count();
    assert_eq!(with_label, 1);
    assert_eq!(data.get_by_label("x").unwrap().coords, Point::new(2, 2, 2));
    assert_eq!(data.graph.node_count(), 1);
}

#[test]
fn station_manager_is_the_same_registry() {
    let mut manager = StationManager::new();
    manager.add_or_update(Point::new(3, 2, 1), "m");
    assert_eq!(manager.get_by_coords(&Point::new(3, 2, 1)).unwrap().label, "m");
    let empty = StationManager::default();
    assert!(empty.stations.is_empty());
}

#[test]
fn get_by_label_is_exact() {
    let mut data = SurveyData::new();
    data.add_or_update(Point::new(0, 0, 0), "cave.1");
    data.add_or_update(Point::new(1, 0, 0), "cave.10");
    assert_eq!(data.get_by_label("cave.10").unwrap().index, 1);
    assert!(data.get_by_label("cave").is_none());
    assert!(data.get_by_label("").is_none());
}

#[test]
fn get_by_coords_returns_first_match() {
    let mut data = SurveyData::new();
    data.add_or_update(Point::new(0, 0, 0), "a");
    data.add_or_update(Point::new(9, 9, 9), "b");
    data.add_or_update(Point::new(9, 9, 9), "c");
    assert_eq!(data.get_by_coords(&Point::new(9, 9, 9)).unwrap().label, "b");
    assert!(data.get_by_coords(&Point::new(9, 9, 8)).is_none());
}

#[test]
fn get_by_index_finds_the_node_station() {
    let mut data = SurveyData::new();
    data.add_or_update(Point::new(0, 0, 0), "a");
    data.add_or_update(Point::new(1, 0, 0), "b");
    assert_eq!(data.get_by_index(1).unwrap().label, "b");
    assert!(data.get_by_index(2).is_none());
}

#[test]
fn get_by_label_part_resolves_unique_fragments() {
    let mut data = SurveyData::new();
    data.add_or_update(Point::new(0, 0, 0), "nottsii.entrance");
    data.add_or_update(Point::new(1, 0, 0), "nottsii.inlet5.4");
    data.add_or_update(Point::new(2, 0, 0), "nottsii.inlet5.4.1");
    assert_eq!(data.get_by_label_part("entrance").unwrap().label, "nottsii.entrance");
    // two contain it, one of them exactly
    assert_eq!(data.get_by_label_part("nottsii.inlet5.4").unwrap().index, 1);
    // several contain it, none exactly
    assert!(data.get_by_label_part("inlet5").is_none());
    assert!(data.get_by_label_part("nottsii").is_none());
    // none contain it
    assert!(data.get_by_label_part("swildons").is_none());
}

#[test]
fn fresh_label_avoids_every_existing_label() {
    let mut data = SurveyData::new();
    data.add_or_update(Point::new(0, 0, 0), "a");
    data.add_or_update(Point::new(1, 0, 0), "a-");
    assert_eq!(data.fresh_label(String::from("a")), "a--");
    assert_eq!(data.fresh_label(String::from("b")), "b");
}

#[test]
fn graph_edges_are_added_in_order() {
    let records = vec![
        Record::Move(Point::new(0, 0, 0)),
        Record::Line(Point::new(0, 0, 100)),
        Record::Line(Point::new(0, 0, 0)),
        Record::Label { coords: Point::new(0, 0, 0), label: String::from("top"), flags: 0 },
        Record::Label { coords: Point::new(0, 0, 100), label: String::from("bottom"), flags: 0 },
        Record::EndOfData,
    ];
    let data = load_records(&records).unwrap();
    assert_eq!(data.graph.edge_count(), 2);
    let (a, b) = data.graph.edge_endpoints(EdgeIndex::new(0)).unwrap();
    assert_eq!((a.index(), b.index()), (0, 1));
    let (a, b) = data.graph.edge_endpoints(EdgeIndex::new(1)).unwrap();
    assert_eq!((a.index(), b.index()), (1, 0));
    assert_eq!(data.graph[EdgeIndex::new(1)], 10_000);
}

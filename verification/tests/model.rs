use geomk::model::{Coordinates, MapData};

fn point(id: i64, lat: f64, lon: f64) -> Coordinates {
    Coordinates { id, lat: lat.to_bits(), lon: lon.to_bits() }
}

#[test]
fn default_point_is_at_zero() {
    let c = Coordinates::default();
    assert_eq!(c, Coordinates { id: 0, lat: 0, lon: 0 });
    assert_eq!(f64::from_bits(c.lat), 0.0);
}

#[test]
fn latitude_test_matches_float_comparison() {
    for lat in [0.0f64, -0.0, 41.99, -41.99, f64::NAN, f64::INFINITY, f64::MIN_POSITIVE, 5e-324] {
        let c = point(1, lat, 21.4);
        assert_eq!(c.has_latitude(), lat != 0.0, "{:?}", lat);
    }
}

#[test]
fn storable_keeps_points_with_latitude_in_order() {
    let data = MapData::from(vec![
        point(1, 41.99, 21.43),
        point(2, 0.0, 21.0),
        point(3, -0.0, 0.0),
        point(4, 42.0, 0.0),
        point(5, f64::NAN, 1.0),
    ]);
    let kept: Vec<i64> = data.storable().iter().map(|c| c.id).collect();
    assert_eq!(kept, vec![1, 4, 5]);
}

#[test]
fn storable_of_nothing_is_nothing() {
    assert!(MapData::from(Vec::new()).storable().is_empty());
}

#[test]
fn keep_where_keeps_the_chosen_points_in_order() {
    let data = MapData::from(vec![point(1, 1.0, 1.0), point(2, 2.0, 2.0), point(3, 3.0, 3.0), point(4, 4.0, 4.0)]);
    let kept = data.keep_where(|c| c.id % 2 == 0);
    let ids: Vec<i64> = kept.coordinates.iter().map(|c| c.id).collect();
    assert_eq!(ids, vec![2, 4]);
}

#[test]
fn keep_where_asks_once_per_point() {
    let data = MapData::from(vec![point(5, 1.0, 1.0), point(6, 2.0, 2.0)]);
    let asked = std::cell::RefCell::new(Vec::new());
    let kept = data.keep_where(|c| {
        asked.borrow_mut().push(c.id);
        true
    });
    assert_eq!(asked.into_inner(), vec![5, 6]);
    assert_eq!(kept.coordinates.len(), 2);
}

#[test]
fn keeping_twice_keeps_the_same_points() {
    let data = MapData::from(vec![point(1, 1.0, 1.0), point(2, 0.0, 2.0), point(3, 3.0, 3.0)]);
    let once = data.keep_where(|c| f64::from_bits(c.lat) > 0.5);
    let once_ids: Vec<i64> = once.coordinates.iter().map(|c| c.id).collect();
    let twice = once.keep_where(|c| f64::from_bits(c.lat) > 0.5);
    let twice_ids: Vec<i64> = twice.coordinates.iter().map(|c| c.id).collect();
    assert_eq!(once_ids, vec![1, 3]);
    assert_eq!(twice_ids, once_ids);
}

#[test]
fn keeping_from_joined_lists_joins_what_is_kept() {
    let a = vec![point(1, 1.0, 1.0), point(2, 0.0, 2.0)];
    let b = vec![point(3, 3.0, 3.0), point(4, 0.0, 4.0), point(5, 5.0, 5.0)];
    let keep = |c: &Coordinates| f64::from_bits(c.lat) > 0.5;
    let joined: Vec<Coordinates> = a.iter().chain(b.iter()).cloned().collect();
    let whole = MapData::from(joined).keep_where(keep).coordinates;
    let mut parts = MapData::from(a).keep_where(keep).coordinates;
    parts.extend(MapData::from(b).keep_where(keep).coordinates);
    assert_eq!(whole, parts);
}

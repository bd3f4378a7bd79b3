use simulation::terrain::{MapIterator, Terrain, Vec2};

#[test]
fn map_iterator_basic() {
    let mut map_iter = MapIterator::new(0., 7000., 3000., &vec![0f64, 3500.], &vec![100., 100.]);

    assert_eq!(map_iter.next().unwrap(), (Vec2::new(0., 3000.), Vec2::new(0., 100.)));
    assert_eq!(map_iter.next(), Some((Vec2::new(0., 100.), Vec2::new(3500., 100.))));
    assert_eq!(map_iter.next(), Some((Vec2::new(3500., 100.), Vec2::new(7000., 3000.))));
    assert_eq!(map_iter.next(), Some((Vec2::new(7000., 3000.), Vec2::new(0., 3000.))));
    assert_eq!(map_iter.next(), None);
}

#[test]
fn map_iterator_empty_terrain() {
    let mut map_iter = MapIterator::new(0., 7000., 3000., &Vec::<f64>::new(), &Vec::<f64>::new());

    assert_eq!(map_iter.next(), Some((Vec2::new(0., 3000.), Vec2::new(7000., 3000.))));
    assert_eq!(map_iter.next(), Some((Vec2::new(7000., 3000.), Vec2::new(0., 3000.))));
    assert_eq!(map_iter.next(), None);
}

#[test]
fn map_iterator_single_point_terrain() {
    let mut map_iter = MapIterator::new(0., 7000., 3000., &vec![3500.], &vec![100.]);

    assert_eq!(map_iter.next(), Some((Vec2::new(0., 3000.), Vec2::new(3500., 100.))));
    assert_eq!(map_iter.next(), Some((Vec2::new(3500., 100.), Vec2::new(7000., 3000.))));
    assert_eq!(map_iter.next(), Some((Vec2::new(7000., 3000.), Vec2::new(0., 3000.))));
    assert_eq!(map_iter.next(), None);
}

#[test]
fn the_walk_stops_for_good() {
    let mut map_iter = MapIterator::new(0, 10, 10, &vec![5], &vec![1]);
    for _ in 0..3 {
        assert!(map_iter.next().is_some());
    }
    for _ in 0..5 {
        assert_eq!(map_iter.next(), None);
    }
}

#[test]
fn the_ground_goes_as_far_as_both_coordinates_go() {
    let mut map_iter = MapIterator::new(0, 7000, 3000, &vec![0, 1000, 2000], &vec![100, 200]);
    assert_eq!(map_iter.next(), Some((Vec2::new(0, 3000), Vec2::new(0, 100))));
    assert_eq!(map_iter.next(), Some((Vec2::new(0, 100), Vec2::new(1000, 200))));
    assert_eq!(map_iter.next(), Some((Vec2::new(1000, 200), Vec2::new(7000, 3000))));
    assert_eq!(map_iter.next(), Some((Vec2::new(7000, 3000), Vec2::new(0, 3000))));
    assert_eq!(map_iter.next(), None);
}

#[test]
fn terrain_walks_the_closed_boundary() {
    let terrain = Terrain::new(0., 7000., 3000., vec![0., 2000., 4000., 7000.], vec![200., 100., 100., 150.]);
    assert_eq!(terrain.max_y(), 3000.);
    assert_eq!(
        terrain.iter_points(),
        vec![Vec2::new(0., 200.), Vec2::new(2000., 100.), Vec2::new(4000., 100.), Vec2::new(7000., 150.)]
    );
    assert_eq!(
        terrain.iter_segments(),
        vec![
            (Vec2::new(0., 3000.), Vec2::new(0., 200.)),
            (Vec2::new(0., 200.), Vec2::new(2000., 100.)),
            (Vec2::new(2000., 100.), Vec2::new(4000., 100.)),
            (Vec2::new(4000., 100.), Vec2::new(7000., 150.)),
            (Vec2::new(7000., 150.), Vec2::new(7000., 3000.)),
            (Vec2::new(7000., 3000.), Vec2::new(0., 3000.)),
        ]
    );
    let copy = terrain.duplicate();
    assert_eq!(copy.iter_segments(), terrain.iter_segments());
    assert_eq!(copy.max_y(), 3000.);
}

#[test]
fn the_first_hit_ends_the_walk() {
    let terrain = Terrain::new(0, 7000, 3000, vec![0, 2000, 4000, 7000], vec![200, 100, 100, 150]);
    // the first level segment is the pad
    assert_eq!(terrain.first_hit(|(from, to)| if from.y == to.y { Some(from.x) } else { None }), Some((2, 2000)));
    // the ceiling is level too, but comes later
    assert_eq!(terrain.first_hit(|(from, to)| if from.y == to.y && from.y == 3000 { Some(()) } else { None }), Some((5, ())));
    assert_eq!(terrain.first_hit(|(_, to)| Some(to.y)), Some((0, 200)));
    assert_eq!(terrain.first_hit(|_| None::<u8>), None);
    let asked = std::cell::Cell::new(0);
    assert_eq!(
        terrain.first_hit(|(from, _)| {
            asked.set(asked.get() + 1);
            if from.x == 2000 { Some(()) } else { None }
        }),
        Some((2, ()))
    );
    assert_eq!(asked.get(), 3);
}

#[test]
fn the_pad_is_sought_on_the_ground_alone() {
    let level = |(from, to): &(Vec2<i32>, Vec2<i32>)| if from.y == to.y { Some(from.x) } else { None };
    let terrain = Terrain::new(0, 7000, 3000, vec![0, 2000, 4000, 7000], vec![200, 100, 100, 150]);
    assert_eq!(terrain.first_hit_on_ground(level), Some((2, 2000)));
    // no two points of the ground are level: the ceiling is, but it is no ground
    let slope = Terrain::new(0, 7000, 3000, vec![0, 2000, 7000], vec![200, 100, 150]);
    assert_eq!(slope.first_hit_on_ground(level), None);
    assert_eq!(slope.first_hit(level), Some((4, 7000)));
    // a ground at the height of the upper left corner: the left wall is no ground either
    let high = Terrain::new(0, 7000, 3000, vec![5, 2000], vec![3000, 100]);
    assert_eq!(high.first_hit_on_ground(level), None);
    assert_eq!(high.first_hit(level), Some((0, 0)));
    // the last segment of the ground is asked about, the right wall is not
    let last = Terrain::new(0, 7000, 3000, vec![0, 2000, 7000], vec![200, 100, 100]);
    assert_eq!(last.first_hit_on_ground(level), Some((2, 2000)));
    assert_eq!(last.first_hit_on_ground(|_| Some(())), Some((1, ())));
}

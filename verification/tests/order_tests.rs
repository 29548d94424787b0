use voxel_terrain::coord::Coord;
use voxel_terrain::order::{
    desired_chunks, is_nearer, is_streamable, origin_of_chunk, player_chunk, sort_nearest_first,
};

#[test]
fn player_chunk_rounds_down() {
    assert_eq!(player_chunk(Coord::new(0, 15, 16), 16), Coord::new(0, 0, 1));
    assert_eq!(player_chunk(Coord::new(-1, -16, -17), 16), Coord::new(-1, -1, -2));
    assert_eq!(player_chunk(Coord::new(31, 32, -32), 16), Coord::new(1, 2, -2));
    assert_eq!(player_chunk(Coord::new(i32::MIN, i32::MAX, 7), 16), Coord::new(-134217728, 134217727, 0));
    assert_eq!(player_chunk(Coord::new(i32::MIN, i32::MAX, -7), 1), Coord::new(i32::MIN, i32::MAX, -7));
    assert_eq!(player_chunk(Coord::new(-5, 5, -3), 3), Coord::new(-2, 1, -1));
    assert_eq!(player_chunk(Coord::new(i32::MIN, i32::MAX, -1), 1024), Coord::new(-2097152, 2097151, -1));
}

#[test]
fn distance_squared_is_exact_at_the_extremes() {
    let a = Coord::new(i32::MIN, i32::MIN, i32::MIN);
    let b = Coord::new(i32::MAX, i32::MAX, i32::MAX);
    let side: u128 = 4294967295;
    assert_eq!(a.distance_squared(b), 3 * side * side);
    assert_eq!(b.distance_squared(a), 3 * side * side);
    assert_eq!(Coord::new(1, 2, 3).distance_squared(Coord::new(4, 6, 3)), 25);
    assert_eq!(Coord::new(-1, -1, -1).distance_squared(Coord::new(0, 0, 0)), 3);
    assert_eq!(a.distance_squared(a), 0);
}

#[test]
fn desired_chunks_walks_the_cube_x_slowest() {
    let wanted = desired_chunks(Coord::new(5, -3, 0), 1);
    assert_eq!(
        wanted,
        vec![
            Coord::new(4, -4, -1),
            Coord::new(4, -4, 0),
            Coord::new(4, -3, -1),
            Coord::new(4, -3, 0),
            Coord::new(5, -4, -1),
            Coord::new(5, -4, 0),
            Coord::new(5, -3, -1),
            Coord::new(5, -3, 0),
        ]
    );
    assert!(desired_chunks(Coord::new(5, -3, 0), 0).is_empty());
    assert_eq!(desired_chunks(Coord::new(0, 0, 0), 8).len(), 16 * 16 * 16);
    assert_eq!(desired_chunks(Coord::new(0, 0, 0), 3).len(), 6 * 6 * 6);
}

#[test]
fn sort_puts_nearest_first_and_breaks_ties_by_the_walk() {
    let center = Coord::new(0, 0, 0);
    let wanted = desired_chunks(center, 1);
    let order = sort_nearest_first(center, &wanted);
    assert_eq!(
        order,
        vec![
            Coord::new(0, 0, 0),
            Coord::new(-1, 0, 0),
            Coord::new(0, -1, 0),
            Coord::new(0, 0, -1),
            Coord::new(-1, -1, 0),
            Coord::new(-1, 0, -1),
            Coord::new(0, -1, -1),
            Coord::new(-1, -1, -1),
        ]
    );
    let big = sort_nearest_first(Coord::new(2, 2, 2), &desired_chunks(Coord::new(2, 2, 2), 3));
    assert_eq!(big.len(), 216);
    for pair in big.windows(2) {
        assert!(is_nearer(Coord::new(2, 2, 2), pair[0], pair[1]));
        assert!(!is_nearer(Coord::new(2, 2, 2), pair[1], pair[0]));
    }
    let reversed: Vec<Coord> = wanted.iter().rev().cloned().collect();
    assert_eq!(sort_nearest_first(center, &reversed), order);
}

#[test]
fn is_nearer_is_a_strict_order() {
    let c = Coord::new(1, 1, 1);
    assert!(is_nearer(c, Coord::new(1, 1, 1), Coord::new(1, 1, 2)));
    assert!(!is_nearer(c, Coord::new(1, 1, 2), Coord::new(1, 1, 1)));
    assert!(!is_nearer(c, Coord::new(1, 1, 2), Coord::new(1, 1, 2)));
    assert!(is_nearer(c, Coord::new(0, 1, 1), Coord::new(2, 1, 1)));
    assert!(is_nearer(c, Coord::new(1, 0, 1), Coord::new(1, 1, 0)));
    assert!(is_nearer(c, Coord::new(1, 1, 0), Coord::new(1, 1, 2)));
    assert!(!is_nearer(c, Coord::new(2, 1, 1), Coord::new(0, 1, 1)));
}

#[test]
fn streamable_stops_at_the_edge_of_the_world() {
    assert!(is_streamable(Coord::new(0, 0, 0), 8, 16));
    assert!(is_streamable(Coord::new(134217727, 0, 0), 0, 16));
    assert!(!is_streamable(Coord::new(134217727, 0, 0), 1, 16));
    assert!(is_streamable(Coord::new(134217726, 0, 0), 1, 16));
    assert!(!is_streamable(Coord::new(134217720, 0, 0), 8, 16));
    assert!(is_streamable(Coord::new(134217719, 0, 0), 8, 16));
    assert!(is_streamable(Coord::new(0, -134217720, 0), 8, 16));
    assert!(!is_streamable(Coord::new(0, -134217721, 0), 8, 16));
    assert_eq!(origin_of_chunk(Coord::new(-3, 2, 134217727), 16), Coord::new(-48, 32, 2147483632));
}

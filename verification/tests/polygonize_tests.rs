use voxel_terrain::chunk::Chunk;
use voxel_terrain::coord::Coord;
use voxel_terrain::density::{Density, DensityField};
use voxel_terrain::polygonize::{polygonize, polygonize_cube, EdgeCrossing};

fn dens(v: f32) -> Density {
    Density::from_bits(v.to_bits())
}

fn iso() -> Density {
    dens(0.5)
}

fn position(c: &EdgeCrossing) -> [f32; 3] {
    let d0 = f32::from_bits(c.start_density.to_bits());
    let d1 = f32::from_bits(c.end_density.to_bits());
    let from = [c.start.x as f32, c.start.y as f32, c.start.z as f32];
    let to = [c.end.x as f32, c.end.y as f32, c.end.z as f32];
    if d1 == d0 {
        return from;
    }
    let t = (0.5 - d0) / (d1 - d0);
    [
        from[0] + t * (to[0] - from[0]),
        from[1] + t * (to[1] - from[1]),
        from[2] + t * (to[2] - from[2]),
    ]
}

fn crossing(start: (i32, i32, i32), end: (i32, i32, i32), d0: f32, d1: f32) -> EdgeCrossing {
    EdgeCrossing {
        start: Coord::new(start.0, start.1, start.2),
        end: Coord::new(end.0, end.1, end.2),
        start_density: dens(d0),
        end_density: dens(d1),
    }
}

#[test]
fn one_low_corner_gives_one_triangle_on_its_three_edges() {
    let field = DensityField::sample_all(Coord::new(0, 0, 0), 2, &|x: i32, y: i32, z: i32| {
        if (x, y, z) == (0, 0, 0) {
            dens(0.0)
        } else {
            dens(1.0)
        }
    });
    let mesh = polygonize(&field, iso());
    assert_eq!(
        mesh,
        vec![
            crossing((0, 0, 0), (1, 0, 0), 0.0, 1.0),
            crossing((0, 0, 0), (0, 1, 0), 0.0, 1.0),
            crossing((0, 0, 1), (0, 0, 0), 1.0, 0.0),
        ]
    );
    let mut cubes_with_surface = 0;
    for x in 0..2usize {
        for y in 0..2usize {
            for z in 0..2usize {
                let mut part = Vec::new();
                polygonize_cube(&field, iso(), x, y, z, &mut part);
                if !part.is_empty() {
                    cubes_with_surface += 1;
                    assert_eq!((x, y, z), (0, 0, 0));
                }
            }
        }
    }
    assert_eq!(cubes_with_surface, 1);
    let points: Vec<[f32; 3]> = mesh.iter().map(position).collect();
    assert_eq!(points, vec![[0.5, 0.0, 0.0], [0.0, 0.5, 0.0], [0.0, 0.0, 0.5]]);
}

#[test]
fn low_corner_in_the_middle_touches_all_eight_cubes() {
    let field = DensityField::sample_all(Coord::new(10, 20, 30), 2, &|x: i32, y: i32, z: i32| {
        if (x, y, z) == (11, 21, 31) {
            dens(0.0)
        } else {
            dens(1.0)
        }
    });
    let mesh = polygonize(&field, iso());
    assert_eq!(mesh.len(), 8 * 3);
    for c in &mesh {
        let low_start = c.start == Coord::new(11, 21, 31);
        let low_end = c.end == Coord::new(11, 21, 31);
        assert!(low_start != low_end);
        assert_eq!(c.start_density, if low_start { dens(0.0) } else { dens(1.0) });
        assert_eq!(c.end_density, if low_end { dens(0.0) } else { dens(1.0) });
        let dx = (c.start.x - c.end.x).abs() + (c.start.y - c.end.y).abs() + (c.start.z - c.end.z).abs();
        assert_eq!(dx, 1);
    }
    assert_eq!(
        &mesh[0..3],
        &[
            crossing((11, 20, 31), (11, 21, 31), 1.0, 0.0),
            crossing((11, 21, 31), (10, 21, 31), 0.0, 1.0),
            crossing((11, 21, 30), (11, 21, 31), 1.0, 0.0),
        ]
    );
}

#[test]
fn uniform_fields_have_no_mesh() {
    let above = DensityField::sample_all(Coord::new(0, 0, 0), 3, &|_x: i32, _y: i32, _z: i32| dens(1.0));
    assert!(polygonize(&above, iso()).is_empty());
    let below = DensityField::sample_all(Coord::new(0, 0, 0), 3, &|_x: i32, _y: i32, _z: i32| dens(0.0));
    assert!(polygonize(&below, iso()).is_empty());
    let at_level = DensityField::sample_all(Coord::new(0, 0, 0), 3, &|_x: i32, _y: i32, _z: i32| dens(0.5));
    assert!(polygonize(&at_level, iso()).is_empty());
}

#[test]
fn density_at_the_iso_level_counts_as_not_below() {
    let field = DensityField::sample_all(Coord::new(0, 0, 0), 1, &|x: i32, _y: i32, _z: i32| {
        if x == 0 {
            dens(0.5)
        } else {
            dens(0.25)
        }
    });
    let mesh = polygonize(&field, iso());
    assert_eq!(
        mesh,
        vec![
            crossing((0, 0, 0), (1, 0, 0), 0.5, 0.25),
            crossing((1, 0, 1), (0, 0, 1), 0.25, 0.5),
            crossing((0, 1, 0), (1, 1, 0), 0.5, 0.25),
            crossing((0, 1, 0), (1, 1, 0), 0.5, 0.25),
            crossing((1, 0, 1), (0, 0, 1), 0.25, 0.5),
            crossing((1, 1, 1), (0, 1, 1), 0.25, 0.5),
        ]
    );
    for c in &mesh {
        assert!(c.start_density.is_below(iso()) != c.end_density.is_below(iso()));
    }
}

#[test]
fn flat_floor_makes_two_triangles_per_cube() {
    let field = DensityField::sample_all(Coord::new(0, 0, 0), 4, &|_x: i32, y: i32, _z: i32| {
        if y <= 1 {
            dens(0.0)
        } else {
            dens(1.0)
        }
    });
    let mesh = polygonize(&field, iso());
    assert_eq!(mesh.len(), 4 * 4 * 2 * 3);
    for c in &mesh {
        let p = position(c);
        assert_eq!(p[1], 1.5);
        assert!(c.start_density.is_below(iso()) != c.end_density.is_below(iso()));
    }
    let chunk = Chunk::new(
        &|_x: i32, y: i32, _z: i32| if y <= 1 { dens(0.0) } else { dens(1.0) },
        4,
        0,
        0,
        0,
    );
    assert_eq!(chunk.polygonize(iso()), mesh);
}

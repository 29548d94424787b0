use voxel_terrain::coord::Coord;
use voxel_terrain::density::{Density, DensityField, FieldError};

fn d(v: f32) -> Density {
    Density::from_bits(v.to_bits())
}

#[test]
fn is_below_agrees_with_float_comparison() {
    let samples: [f32; 14] = [
        0.0,
        -0.0,
        1.0,
        -1.0,
        0.5,
        -0.5,
        f32::MIN_POSITIVE,
        -f32::MIN_POSITIVE,
        f32::MAX,
        f32::MIN,
        f32::INFINITY,
        f32::NEG_INFINITY,
        f32::NAN,
        1.0e-40,
    ];
    for a in samples {
        for b in samples {
            assert_eq!(d(a).is_below(d(b)), a < b, "{} < {}", a, b);
        }
    }
}

#[test]
fn index_and_inverse_index_round_trip() {
    let field = DensityField::sample_all(Coord::new(0, 0, 0), 2, &|_x: i32, _y: i32, _z: i32| d(1.0));
    for i in 0..27usize {
        let (x, y, z) = field.inverse_index(i);
        assert!(x < 3 && y < 3 && z < 3);
        assert_eq!(field.index(x, y, z), i);
    }
    assert_eq!(field.index(1, 2, 0), 1 * 9 + 2 * 3);
    assert_eq!(field.inverse_index(26), (2, 2, 2));
    assert_eq!(field.inverse_index(5), (0, 1, 2));
}

#[test]
fn get_reports_out_of_range() {
    let field = DensityField::sample_all(Coord::new(10, 20, 30), 2, &|x: i32, y: i32, z: i32| {
        d((x + y + z) as f32)
    });
    assert_eq!(field.get(Coord::new(0, 0, 0)), Ok(d(60.0)));
    assert_eq!(field.get(Coord::new(2, 2, 2)), Ok(d(66.0)));
    assert_eq!(field.get(Coord::new(1, 0, 2)), Ok(d(63.0)));
    assert_eq!(field.get(Coord::new(3, 0, 0)), Err(FieldError::OutOfRange));
    assert_eq!(field.get(Coord::new(0, -1, 0)), Err(FieldError::OutOfRange));
    assert_eq!(field.get(Coord::new(0, 0, 3)), Err(FieldError::OutOfRange));
}

#[test]
fn default_iso_level_is_one_half() {
    assert_eq!(voxel_terrain::density::DEFAULT_ISO_BITS, 0.5f32.to_bits());
    assert_eq!(Density::from_bits(0x3f00_0000).to_bits(), 0x3f00_0000);
}

#[test]
fn sample_all_asks_noise_at_world_coordinates_in_index_order() {
    let asked = std::cell::RefCell::new(Vec::new());
    let field = DensityField::sample_all(Coord::new(-4, 8, 100), 1, &|x: i32, y: i32, z: i32| {
        asked.borrow_mut().push((x, y, z));
        d((x * 10000 + y * 100 + z) as f32)
    });
    assert_eq!(
        *asked.borrow(),
        vec![
            (-4, 8, 100),
            (-4, 8, 101),
            (-4, 9, 100),
            (-4, 9, 101),
            (-3, 8, 100),
            (-3, 8, 101),
            (-3, 9, 100),
            (-3, 9, 101),
        ]
    );
    assert_eq!(field.origin(), Coord::new(-4, 8, 100));
    assert_eq!(field.resolution(), 1);
    assert_eq!(field.cell(1, 0, 1), d((-3 * 10000 + 8 * 100 + 101) as f32));
    assert_eq!(field.cell_to_world(1, 1, 0), Coord::new(-3, 9, 100));
}

#[test]
fn edit_overwrites_inside_and_ignores_outside() {
    let mut field = DensityField::sample_all(Coord::new(4, 4, 4), 2, &|_x: i32, _y: i32, _z: i32| d(1.0));
    assert!(field.contains(Coord::new(4, 4, 4)));
    assert!(field.contains(Coord::new(6, 6, 6)));
    assert!(!field.contains(Coord::new(7, 6, 6)));
    assert!(!field.contains(Coord::new(3, 4, 4)));
    assert!(field.edit(Coord::new(5, 6, 4), d(0.25)));
    assert_eq!(field.get(Coord::new(1, 2, 0)), Ok(d(0.25)));
    let mut others = 0;
    for i in 0..27usize {
        let (x, y, z) = field.inverse_index(i);
        if (x, y, z) != (1, 2, 0) {
            assert_eq!(field.cell(x, y, z), d(1.0));
            others += 1;
        }
    }
    assert_eq!(others, 26);
    assert!(!field.edit(Coord::new(7, 4, 4), d(0.0)));
    assert!(!field.edit(Coord::new(4, 4, 3), d(0.0)));
    assert_eq!(field.get(Coord::new(0, 0, 0)), Ok(d(1.0)));
}

#[test]
fn can_hold_respects_limits() {
    assert!(DensityField::can_hold(Coord::new(0, 0, 0), 1));
    assert!(DensityField::can_hold(Coord::new(0, 0, 0), 1024));
    assert!(!DensityField::can_hold(Coord::new(0, 0, 0), 0));
    assert!(!DensityField::can_hold(Coord::new(0, 0, 0), 1025));
    assert!(DensityField::can_hold(Coord::new(i32::MAX - 16, 0, 0), 16));
    assert!(!DensityField::can_hold(Coord::new(i32::MAX - 15, 0, 0), 16));
    assert!(!DensityField::can_hold(Coord::new(0, 0, i32::MAX), 1));
}

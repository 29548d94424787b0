use voxel_terrain::tables::{edge_mask_of, tri_at, EDGE_TABLE};

const EDGE_ENDS: [(u8, u8); 12] = [
    (0, 1),
    (1, 2),
    (2, 3),
    (3, 0),
    (4, 5),
    (5, 6),
    (6, 7),
    (7, 4),
    (0, 4),
    (1, 5),
    (2, 6),
    (3, 7),
];

fn row(mask: u8) -> Vec<i8> {
    (0..16).map(|k| tri_at(mask, k)).collect()
}

fn triangles(mask: u8) -> Vec<i8> {
    row(mask).into_iter().take_while(|e| *e != -1).collect()
}

#[test]
fn edge_table_known_entries() {
    assert_eq!(edge_mask_of(0), 0x000);
    assert_eq!(edge_mask_of(1), 0x109);
    assert_eq!(edge_mask_of(2), 0x203);
    assert_eq!(edge_mask_of(3), 0x30a);
    assert_eq!(edge_mask_of(4), 0x406);
    assert_eq!(edge_mask_of(8), 0x80c);
    assert_eq!(edge_mask_of(15), 0xf00);
    assert_eq!(edge_mask_of(16), 0x190);
    assert_eq!(edge_mask_of(128), 0x8c0);
    assert_eq!(edge_mask_of(254), 0x109);
    assert_eq!(edge_mask_of(255), 0x000);
    assert_eq!(EDGE_TABLE[85], 0x0ff);
    assert_eq!(EDGE_TABLE[170], 0x0ff);
}

#[test]
fn edge_table_marks_edges_whose_ends_differ() {
    for mask in 0..=255u8 {
        let mut expected: u16 = 0;
        for (e, (a, b)) in EDGE_ENDS.iter().enumerate() {
            if (mask >> a) & 1 != (mask >> b) & 1 {
                expected |= 1 << e;
            }
        }
        assert_eq!(edge_mask_of(mask), expected, "mask {}", mask);
        assert_eq!(edge_mask_of(mask), edge_mask_of(255 - mask));
    }
}

#[test]
fn triangle_table_known_rows() {
    assert_eq!(row(0), vec![-1; 16]);
    assert_eq!(row(255), vec![-1; 16]);
    assert_eq!(triangles(1), vec![0, 8, 3]);
    assert_eq!(triangles(2), vec![0, 1, 9]);
    assert_eq!(triangles(3), vec![1, 8, 3, 9, 8, 1]);
    assert_eq!(triangles(15), vec![9, 8, 10, 10, 8, 11]);
    assert_eq!(triangles(31), vec![4, 7, 11, 4, 11, 9, 9, 11, 10]);
    assert_eq!(triangles(32), vec![9, 5, 4]);
    assert_eq!(triangles(63), vec![11, 10, 5, 7, 11, 5]);
    assert_eq!(triangles(64), vec![10, 6, 5]);
    assert_eq!(triangles(96), vec![10, 4, 9, 6, 4, 10]);
    assert_eq!(triangles(127), vec![7, 11, 6]);
    assert_eq!(triangles(128), vec![7, 6, 11]);
    assert_eq!(triangles(160), vec![4, 9, 5, 7, 6, 11]);
    assert_eq!(triangles(192), vec![11, 5, 10, 7, 5, 11]);
    assert_eq!(triangles(224), vec![4, 11, 7, 4, 9, 11, 9, 10, 11]);
    assert_eq!(triangles(240), vec![9, 10, 8, 10, 11, 8]);
    assert_eq!(triangles(254), vec![0, 3, 8]);
    assert_eq!(
        triangles(105),
        vec![0, 8, 2, 2, 8, 11, 4, 9, 10, 4, 10, 6]
    );
    assert_eq!(
        triangles(61),
        vec![5, 7, 0, 5, 0, 9, 7, 11, 0, 1, 0, 10, 11, 10, 0]
    );
}

#[test]
fn triangle_rows_use_exactly_the_marked_edges() {
    let mut total = 0usize;
    for mask in 0..=255u8 {
        let r = row(mask);
        let t = triangles(mask);
        assert_eq!(t.len() % 3, 0, "mask {}", mask);
        assert!(t.len() <= 15);
        assert!(r[t.len()..].iter().all(|e| *e == -1), "mask {}", mask);
        let mut used: u16 = 0;
        for e in &t {
            assert!((0..12).contains(e));
            used |= 1 << *e;
        }
        assert_eq!(used, edge_mask_of(mask), "mask {}", mask);
        total += t.len();
    }
    assert_eq!(total, 2460);
}

#[test]
fn uniform_masks_have_no_triangles_and_no_other_mask_is_empty() {
    for mask in 0..=255u8 {
        let empty = triangles(mask).is_empty();
        assert_eq!(empty, mask == 0 || mask == 255, "mask {}", mask);
        assert_eq!(edge_mask_of(mask) == 0, mask == 0 || mask == 255);
    }
}

//! The two lookup tables of the Marching Cubes algorithm, and what they
//! mean.
//!
//! A *corner mask* has bit `c` set when corner `c` of a cube lies below the
//! iso-level. [`EDGE_TABLE`] maps a corner
//! mask to the set of edges that the surface crosses, and the triangle table
//! maps it to the triangles that close the surface inside the cube, each
//! corner of a triangle given as the edge it lies on.
//!
//! The tables are plain data. What makes them usable is proved here:
//! [`lemma_edge_table`] shows that an edge is marked exactly when its two
//! ends fall on different sides, and [`lemma_triangle_rows`] shows that every
//! row is a whole number of triangles over marked edges only.
//!
//! The triangle table is kept in blocks of thirty-two rows, one module each,
//! so that the proof about a row looks at one block of literals at a time.
use vstd::prelude::*;
use crate::cube::{bit_set, edge_crossed};
use crate::tables::rows_000::TRI_ROWS_000;
use crate::tables::rows_032::TRI_ROWS_032;
use crate::tables::rows_064::TRI_ROWS_064;
use crate::tables::rows_096::TRI_ROWS_096;
use crate::tables::rows_128::TRI_ROWS_128;
use crate::tables::rows_160::TRI_ROWS_160;
use crate::tables::rows_192::TRI_ROWS_192;
use crate::tables::rows_224::TRI_ROWS_224;

pub mod rows_000;
pub mod rows_032;
pub mod rows_064;
pub mod rows_096;
pub mod rows_128;
pub mod rows_160;
pub mod rows_192;
pub mod rows_224;

verus! {

/// Corner mask to edge mask: bit `e` of `EDGE_TABLE[m]` is set when the surface
/// crosses edge `e` of a cube whose corner mask is `m`.
pub const EDGE_TABLE: [u16; 256] = [
    0x000, 0x109, 0x203, 0x30a, 0x406, 0x50f, 0x605, 0x70c,
    0x80c, 0x905, 0xa0f, 0xb06, 0xc0a, 0xd03, 0xe09, 0xf00,
    0x190, 0x099, 0x393, 0x29a, 0x596, 0x49f, 0x795, 0x69c,
    0x99c, 0x895, 0xb9f, 0xa96, 0xd9a, 0xc93, 0xf99, 0xe90,
    0x230, 0x339, 0x033, 0x13a, 0x636, 0x73f, 0x435, 0x53c,
    0xa3c, 0xb35, 0x83f, 0x936, 0xe3a, 0xf33, 0xc39, 0xd30,
    0x3a0, 0x2a9, 0x1a3, 0x0aa, 0x7a6, 0x6af, 0x5a5, 0x4ac,
    0xbac, 0xaa5, 0x9af, 0x8a6, 0xfaa, 0xea3, 0xda9, 0xca0,
    0x460, 0x569, 0x663, 0x76a, 0x066, 0x16f, 0x265, 0x36c,
    0xc6c, 0xd65, 0xe6f, 0xf66, 0x86a, 0x963, 0xa69, 0xb60,
    0x5f0, 0x4f9, 0x7f3, 0x6fa, 0x1f6, 0x0ff, 0x3f5, 0x2fc,
    0xdfc, 0xcf5, 0xfff, 0xef6, 0x9fa, 0x8f3, 0xbf9, 0xaf0,
    0x650, 0x759, 0x453, 0x55a, 0x256, 0x35f, 0x055, 0x15c,
    0xe5c, 0xf55, 0xc5f, 0xd56, 0xa5a, 0xb53, 0x859, 0x950,
    0x7c0, 0x6c9, 0x5c3, 0x4ca, 0x3c6, 0x2cf, 0x1c5, 0x0cc,
    0xfcc, 0xec5, 0xdcf, 0xcc6, 0xbca, 0xac3, 0x9c9, 0x8c0,
    0x8c0, 0x9c9, 0xac3, 0xbca, 0xcc6, 0xdcf, 0xec5, 0xfcc,
    0x0cc, 0x1c5, 0x2cf, 0x3c6, 0x4ca, 0x5c3, 0x6c9, 0x7c0,
    0x950, 0x859, 0xb53, 0xa5a, 0xd56, 0xc5f, 0xf55, 0xe5c,
    0x15c, 0x055, 0x35f, 0x256, 0x55a, 0x453, 0x759, 0x650,
    0xaf0, 0xbf9, 0x8f3, 0x9fa, 0xef6, 0xfff, 0xcf5, 0xdfc,
    0x2fc, 0x3f5, 0x0ff, 0x1f6, 0x6fa, 0x7f3, 0x4f9, 0x5f0,
    0xb60, 0xa69, 0x963, 0x86a, 0xf66, 0xe6f, 0xd65, 0xc6c,
    0x36c, 0x265, 0x16f, 0x066, 0x76a, 0x663, 0x569, 0x460,
    0xca0, 0xda9, 0xea3, 0xfaa, 0x8a6, 0x9af, 0xaa5, 0xbac,
    0x4ac, 0x5a5, 0x6af, 0x7a6, 0x0aa, 0x1a3, 0x2a9, 0x3a0,
    0xd30, 0xc39, 0xf33, 0xe3a, 0x936, 0x83f, 0xb35, 0xa3c,
    0x53c, 0x435, 0x73f, 0x636, 0x13a, 0x033, 0x339, 0x230,
    0xe90, 0xf99, 0xc93, 0xd9a, 0xa96, 0xb9f, 0x895, 0x99c,
    0x69c, 0x795, 0x49f, 0x596, 0x29a, 0x393, 0x099, 0x190,
    0xf00, 0xe09, 0xd03, 0xc0a, 0xb06, 0xa0f, 0x905, 0x80c,
    0x70c, 0x605, 0x50f, 0x406, 0x30a, 0x203, 0x109, 0x000,
];

/// The edge mask of a corner mask, as the table gives it.
pub closed spec fn edge_mask(mask: int) -> int
    recommends
        0 <= mask < 256,
{
    EDGE_TABLE[mask] as int
}

/// An edge-table entry is right when it marks exactly the crossed edges and
/// nothing above bit eleven, and is zero exactly for the two uniform masks.
#[verifier::opaque]
pub open spec fn edges_wf(mask: int) -> bool {
    &&& 0 <= (EDGE_TABLE[mask] as int) < 4096
    &&& bit_set((EDGE_TABLE[mask] as int), 0) == edge_crossed(mask, 0)
    &&& bit_set((EDGE_TABLE[mask] as int), 1) == edge_crossed(mask, 1)
    &&& bit_set((EDGE_TABLE[mask] as int), 2) == edge_crossed(mask, 2)
    &&& bit_set((EDGE_TABLE[mask] as int), 3) == edge_crossed(mask, 3)
    &&& bit_set((EDGE_TABLE[mask] as int), 4) == edge_crossed(mask, 4)
    &&& bit_set((EDGE_TABLE[mask] as int), 5) == edge_crossed(mask, 5)
    &&& bit_set((EDGE_TABLE[mask] as int), 6) == edge_crossed(mask, 6)
    &&& bit_set((EDGE_TABLE[mask] as int), 7) == edge_crossed(mask, 7)
    &&& bit_set((EDGE_TABLE[mask] as int), 8) == edge_crossed(mask, 8)
    &&& bit_set((EDGE_TABLE[mask] as int), 9) == edge_crossed(mask, 9)
    &&& bit_set((EDGE_TABLE[mask] as int), 10) == edge_crossed(mask, 10)
    &&& bit_set((EDGE_TABLE[mask] as int), 11) == edge_crossed(mask, 11)
    &&& ((EDGE_TABLE[mask] as int) == 0) == (mask == 0 || mask == 255)
}

/// The number of entries in a triangle row before its terminator: three for
/// each triangle.
pub open spec fn entries_before_end(row: [i8; 16]) -> int {
    if row[0] < 0 {
        0
    } else if row[3] < 0 {
        3
    } else if row[6] < 0 {
        6
    } else if row[9] < 0 {
        9
    } else if row[12] < 0 {
        12
    } else {
        15
    }
}

/// What entry `k` of a well-formed row looks like: an edge marked in `edges`
/// before the terminator, `-1` from the terminator on.
#[verifier::opaque]
pub open spec fn entry_wf(row: [i8; 16], edges: int, k: int) -> bool {
    if k < entries_before_end(row) {
        0 <= row[k] < 12 && bit_set(edges, row[k] as int)
    } else {
        row[k] == -1
    }
}

/// A triangle row is well formed for an edge mask when each of its sixteen
/// entries is, and it is empty exactly when the edge mask is zero.
#[verifier::opaque]
pub open spec fn row_wf(row: [i8; 16], edges: int) -> bool {
    &&& entry_wf(row, edges, 0)
    &&& entry_wf(row, edges, 1)
    &&& entry_wf(row, edges, 2)
    &&& entry_wf(row, edges, 3)
    &&& entry_wf(row, edges, 4)
    &&& entry_wf(row, edges, 5)
    &&& entry_wf(row, edges, 6)
    &&& entry_wf(row, edges, 7)
    &&& entry_wf(row, edges, 8)
    &&& entry_wf(row, edges, 9)
    &&& entry_wf(row, edges, 10)
    &&& entry_wf(row, edges, 11)
    &&& entry_wf(row, edges, 12)
    &&& entry_wf(row, edges, 13)
    &&& entry_wf(row, edges, 14)
    &&& entry_wf(row, edges, 15)
    &&& (entries_before_end(row) == 0) == (edges == 0)
}

/// The triangle row of `mask`: sixteen entries, of which the first
/// [`row_len`]`(mask)` are edge indices and the rest are `-1`.
pub closed spec fn tri_row(mask: int) -> [i8; 16]
    recommends
        0 <= mask < 256,
{
    if mask < 32 {
        TRI_ROWS_000[mask]
    } else if mask < 64 {
        TRI_ROWS_032[mask - 32]
    } else if mask < 96 {
        TRI_ROWS_064[mask - 64]
    } else if mask < 128 {
        TRI_ROWS_096[mask - 96]
    } else if mask < 160 {
        TRI_ROWS_128[mask - 128]
    } else if mask < 192 {
        TRI_ROWS_160[mask - 160]
    } else if mask < 224 {
        TRI_ROWS_192[mask - 192]
    } else {
        TRI_ROWS_224[mask - 224]
    }
}

/// Entry `k` of the triangle row of `mask`.
pub open spec fn tri_entry(mask: int, k: int) -> int
    recommends
        0 <= mask < 256,
        0 <= k < 16,
{
    tri_row(mask)[k] as int
}

/// The number of entries in the triangle row of `mask` before its terminator.
pub open spec fn row_len(mask: int) -> int
    recommends
        0 <= mask < 256,
{
    entries_before_end(tri_row(mask))
}

/// The triangles of a cube with corner mask `mask`: the edge on which each
/// triangle corner lies, three entries per triangle.
pub open spec fn cube_triangles(mask: int) -> Seq<int>
    recommends
        0 <= mask < 256,
{
    Seq::new(row_len(mask) as nat, |k: int| tri_entry(mask, k))
}

/// Looks up the edge mask of a corner mask.
pub fn edge_mask_of(mask: u8) -> (edges: u16)
    ensures
        edges as int == edge_mask(mask as int),
{
    EDGE_TABLE[mask as usize]
}

/// Looks up entry `k` of the triangle row of a corner mask.
pub fn tri_at(mask: u8, k: usize) -> (entry: i8)
    requires
        k < 16,
    ensures
        entry as int == tri_entry(mask as int, k as int),
{
    if mask < 32 {
        TRI_ROWS_000[mask as usize][k]
    } else if mask < 64 {
        TRI_ROWS_032[(mask - 32) as usize][k]
    } else if mask < 96 {
        TRI_ROWS_064[(mask - 64) as usize][k]
    } else if mask < 128 {
        TRI_ROWS_096[(mask - 96) as usize][k]
    } else if mask < 160 {
        TRI_ROWS_128[(mask - 128) as usize][k]
    } else if mask < 192 {
        TRI_ROWS_160[(mask - 160) as usize][k]
    } else if mask < 224 {
        TRI_ROWS_192[(mask - 192) as usize][k]
    } else {
        TRI_ROWS_224[(mask - 224) as usize][k]
    }
}

proof fn lemma_tables(mask: int)
    requires
        0 <= mask < 256,
    ensures
        edges_wf(mask),
        row_wf(tri_row(mask), edge_mask(mask)),
{
    if mask < 32 {
        rows_000::lemma_rows(mask);
    } else if mask < 64 {
        rows_032::lemma_rows(mask);
    } else if mask < 96 {
        rows_064::lemma_rows(mask);
    } else if mask < 128 {
        rows_096::lemma_rows(mask);
    } else if mask < 160 {
        rows_128::lemma_rows(mask);
    } else if mask < 192 {
        rows_160::lemma_rows(mask);
    } else if mask < 224 {
        rows_192::lemma_rows(mask);
    } else {
        rows_224::lemma_rows(mask);
    }
}

/// The edge table marks, for every corner mask, exactly the edges whose two
/// ends lie on different sides of the surface; its entry is zero for the two
/// uniform masks and for no other.
pub proof fn lemma_edge_table(mask: int)
    requires
        0 <= mask < 256,
    ensures
        0 <= edge_mask(mask) < 4096,
        forall|e: int| 0 <= e < 12 ==> bit_set(edge_mask(mask), e) == #[trigger] edge_crossed(mask, e),
        (edge_mask(mask) == 0) == (mask == 0 || mask == 255),
{
    lemma_tables(mask);
    reveal(edges_wf);
    assert forall|e: int| 0 <= e < 12 implies bit_set(edge_mask(mask), e) == #[trigger] edge_crossed(
        mask,
        e,
    ) by {
        if e == 0 {
        } else if e == 1 {
        } else if e == 2 {
        } else if e == 3 {
        } else if e == 4 {
        } else if e == 5 {
        } else if e == 6 {
        } else if e == 7 {
        } else if e == 8 {
        } else if e == 9 {
        } else if e == 10 {
        } else {
        }
    }
}

proof fn lemma_row_entry(row: [i8; 16], edges: int, k: int)
    requires
        row_wf(row, edges),
        0 <= k < 16,
    ensures
        entry_wf(row, edges, k),
        (entries_before_end(row) == 0) == (edges == 0),
{
    reveal(row_wf);
    if k == 0 {
    } else if k == 1 {
    } else if k == 2 {
    } else if k == 3 {
    } else if k == 4 {
    } else if k == 5 {
    } else if k == 6 {
    } else if k == 7 {
    } else if k == 8 {
    } else if k == 9 {
    } else if k == 10 {
    } else if k == 11 {
    } else if k == 12 {
    } else if k == 13 {
    } else if k == 14 {
    } else {
    }
}

/// Every triangle row holds a whole number of triangles, at most five, over
/// edges that the surface crosses, and nothing but terminators after them. A
/// row is empty exactly for the two uniform masks.
pub proof fn lemma_triangle_rows(mask: int)
    requires
        0 <= mask < 256,
    ensures
        0 <= row_len(mask) <= 15,
        row_len(mask) % 3 == 0,
        (row_len(mask) == 0) == (mask == 0 || mask == 255),
        forall|k: int|
            0 <= k < row_len(mask) ==> 0 <= #[trigger] tri_entry(mask, k) < 12 && edge_crossed(
                mask,
                tri_entry(mask, k),
            ),
        forall|k: int| row_len(mask) <= k < 16 ==> #[trigger] tri_entry(mask, k) == -1,
{
    lemma_tables(mask);
    lemma_edge_table(mask);
    let row = tri_row(mask);
    let edges = edge_mask(mask);
    lemma_row_entry(row, edges, 0);
    assert forall|k: int| 0 <= k < row_len(mask) implies 0 <= #[trigger] tri_entry(mask, k) < 12
        && edge_crossed(mask, tri_entry(mask, k)) by {
        lemma_row_entry(row, edges, k);
        reveal(entry_wf);
    }
    assert forall|k: int| row_len(mask) <= k < 16 implies #[trigger] tri_entry(mask, k) == -1 by {
        lemma_row_entry(row, edges, k);
        reveal(entry_wf);
    }
}

/// A cube whose corners all lie on one side of the surface has no triangles,
/// and no other cube is without one.
pub proof fn lemma_uniform_mask_has_no_triangles(mask: int)
    requires
        0 <= mask < 256,
    ensures
        (mask == 0 || mask == 255) <==> cube_triangles(mask).len() == 0,
        (mask == 0 || mask == 255) <==> edge_mask(mask) == 0,
{
    lemma_triangle_rows(mask);
    lemma_edge_table(mask);
}

/// What the closed names stand for: [`edge_mask`] is the entry of
/// [`EDGE_TABLE`], and [`tri_row`] is the row of the block that holds the
/// corner mask.
pub proof fn lemma_tables_are_the_literals(mask: int)
    requires
        0 <= mask < 256,
    ensures
        edge_mask(mask) == EDGE_TABLE[mask] as int,
        mask < 32 ==> tri_row(mask) == TRI_ROWS_000[mask],
        32 <= mask < 64 ==> tri_row(mask) == TRI_ROWS_032[mask - 32],
        64 <= mask < 96 ==> tri_row(mask) == TRI_ROWS_064[mask - 64],
        96 <= mask < 128 ==> tri_row(mask) == TRI_ROWS_096[mask - 96],
        128 <= mask < 160 ==> tri_row(mask) == TRI_ROWS_128[mask - 128],
        160 <= mask < 192 ==> tri_row(mask) == TRI_ROWS_160[mask - 160],
        192 <= mask < 224 ==> tri_row(mask) == TRI_ROWS_192[mask - 192],
        224 <= mask ==> tri_row(mask) == TRI_ROWS_224[mask - 224],
{
}

} // verus!

//! The triangle rows of the corner masks 0 to 31.
use vstd::prelude::*;
use crate::tables::{edges_wf, entry_wf, row_wf, EDGE_TABLE};

verus! {

/// Row `i` holds the triangles of corner mask `i`: up to five triangles as
/// edge indices, closed by `-1`.
pub const TRI_ROWS_000: [[i8; 16]; 32] = [
    [-1, -1, -1, -1, -1, -1, -1, -1, -1, -1, -1, -1, -1, -1, -1, -1],
    [0, 8, 3, -1, -1, -1, -1, -1, -1, -1, -1, -1, -1, -1, -1, -1],
    [0, 1, 9, -1, -1, -1, -1, -1, -1, -1, -1, -1, -1, -1, -1, -1],
    [1, 8, 3, 9, 8, 1, -1, -1, -1, -1, -1, -1, -1, -1, -1, -1],
    [1, 2, 10, -1, -1, -1, -1, -1, -1, -1, -1, -1, -1, -1, -1, -1],
    [0, 8, 3, 1, 2, 10, -1, -1, -1, -1, -1, -1, -1, -1, -1, -1],
    [9, 2, 10, 0, 2, 9, -1, -1, -1, -1, -1, -1, -1, -1, -1, -1],
    [2, 8, 3, 2, 10, 8, 10, 9, 8, -1, -1, -1, -1, -1, -1, -1],
    [3, 11, 2, -1, -1, -1, -1, -1, -1, -1, -1, -1, -1, -1, -1, -1],
    [0, 11, 2, 8, 11, 0, -1, -1, -1, -1, -1, -1, -1, -1, -1, -1],
    [1, 9, 0, 2, 3, 11, -1, -1, -1, -1, -1, -1, -1, -1, -1, -1],
    [1, 11, 2, 1, 9, 11, 9, 8, 11, -1, -1, -1, -1, -1, -1, -1],
    [3, 10, 1, 11, 10, 3, -1, -1, -1, -1, -1, -1, -1, -1, -1, -1],
    [0, 10, 1, 0, 8, 10, 8, 11, 10, -1, -1, -1, -1, -1, -1, -1],
    [3, 9, 0, 3, 11, 9, 11, 10, 9, -1, -1, -1, -1, -1, -1, -1],
    [9, 8, 10, 10, 8, 11, -1, -1, -1, -1, -1, -1, -1, -1, -1, -1],
    [4, 7, 8, -1, -1, -1, -1, -1, -1, -1, -1, -1, -1, -1, -1, -1],
    [4, 3, 0, 7, 3, 4, -1, -1, -1, -1, -1, -1, -1, -1, -1, -1],
    [0, 1, 9, 8, 4, 7, -1, -1, -1, -1, -1, -1, -1, -1, -1, -1],
    [4, 1, 9, 4, 7, 1, 7, 3, 1, -1, -1, -1, -1, -1, -1, -1],
    [1, 2, 10, 8, 4, 7, -1, -1, -1, -1, -1, -1, -1, -1, -1, -1],
    [3, 4, 7, 3, 0, 4, 1, 2, 10, -1, -1, -1, -1, -1, -1, -1],
    [9, 2, 10, 9, 0, 2, 8, 4, 7, -1, -1, -1, -1, -1, -1, -1],
    [2, 10, 9, 2, 9, 7, 2, 7, 3, 7, 9, 4, -1, -1, -1, -1],
    [8, 4, 7, 3, 11, 2, -1, -1, -1, -1, -1, -1, -1, -1, -1, -1],
    [11, 4, 7, 11, 2, 4, 2, 0, 4, -1, -1, -1, -1, -1, -1, -1],
    [9, 0, 1, 8, 4, 7, 2, 3, 11, -1, -1, -1, -1, -1, -1, -1],
    [4, 7, 11, 9, 4, 11, 9, 11, 2, 9, 2, 1, -1, -1, -1, -1],
    [3, 10, 1, 3, 11, 10, 7, 8, 4, -1, -1, -1, -1, -1, -1, -1],
    [1, 11, 10, 1, 4, 11, 1, 0, 4, 7, 11, 4, -1, -1, -1, -1],
    [4, 7, 8, 9, 0, 11, 9, 11, 10, 11, 0, 3, -1, -1, -1, -1],
    [4, 7, 11, 4, 11, 9, 9, 11, 10, -1, -1, -1, -1, -1, -1, -1],
];

proof fn lemma_rows_000_to_007(mask: int)
    requires
        0 <= mask < 8,
    ensures
        edges_wf(mask),
        row_wf(TRI_ROWS_000[mask], EDGE_TABLE[mask] as int),
{
    reveal(edges_wf);
    reveal(row_wf);
    reveal(entry_wf);
    assert(edges_wf(0) && row_wf(TRI_ROWS_000[0], EDGE_TABLE[0] as int));
    assert(edges_wf(1) && row_wf(TRI_ROWS_000[1], EDGE_TABLE[1] as int));
    assert(edges_wf(2) && row_wf(TRI_ROWS_000[2], EDGE_TABLE[2] as int));
    assert(edges_wf(3) && row_wf(TRI_ROWS_000[3], EDGE_TABLE[3] as int));
    assert(edges_wf(4) && row_wf(TRI_ROWS_000[4], EDGE_TABLE[4] as int));
    assert(edges_wf(5) && row_wf(TRI_ROWS_000[5], EDGE_TABLE[5] as int));
    assert(edges_wf(6) && row_wf(TRI_ROWS_000[6], EDGE_TABLE[6] as int));
    assert(edges_wf(7) && row_wf(TRI_ROWS_000[7], EDGE_TABLE[7] as int));
}

proof fn lemma_rows_008_to_015(mask: int)
    requires
        8 <= mask < 16,
    ensures
        edges_wf(mask),
        row_wf(TRI_ROWS_000[mask], EDGE_TABLE[mask] as int),
{
    reveal(edges_wf);
    reveal(row_wf);
    reveal(entry_wf);
    assert(edges_wf(8) && row_wf(TRI_ROWS_000[8], EDGE_TABLE[8] as int));
    assert(edges_wf(9) && row_wf(TRI_ROWS_000[9], EDGE_TABLE[9] as int));
    assert(edges_wf(10) && row_wf(TRI_ROWS_000[10], EDGE_TABLE[10] as int));
    assert(edges_wf(11) && row_wf(TRI_ROWS_000[11], EDGE_TABLE[11] as int));
    assert(edges_wf(12) && row_wf(TRI_ROWS_000[12], EDGE_TABLE[12] as int));
    assert(edges_wf(13) && row_wf(TRI_ROWS_000[13], EDGE_TABLE[13] as int));
    assert(edges_wf(14) && row_wf(TRI_ROWS_000[14], EDGE_TABLE[14] as int));
    assert(edges_wf(15) && row_wf(TRI_ROWS_000[15], EDGE_TABLE[15] as int));
}

proof fn lemma_rows_016_to_023(mask: int)
    requires
        16 <= mask < 24,
    ensures
        edges_wf(mask),
        row_wf(TRI_ROWS_000[mask], EDGE_TABLE[mask] as int),
{
    reveal(edges_wf);
    reveal(row_wf);
    reveal(entry_wf);
    assert(edges_wf(16) && row_wf(TRI_ROWS_000[16], EDGE_TABLE[16] as int));
    assert(edges_wf(17) && row_wf(TRI_ROWS_000[17], EDGE_TABLE[17] as int));
    assert(edges_wf(18) && row_wf(TRI_ROWS_000[18], EDGE_TABLE[18] as int));
    assert(edges_wf(19) && row_wf(TRI_ROWS_000[19], EDGE_TABLE[19] as int));
    assert(edges_wf(20) && row_wf(TRI_ROWS_000[20], EDGE_TABLE[20] as int));
    assert(edges_wf(21) && row_wf(TRI_ROWS_000[21], EDGE_TABLE[21] as int));
    assert(edges_wf(22) && row_wf(TRI_ROWS_000[22], EDGE_TABLE[22] as int));
    assert(edges_wf(23) && row_wf(TRI_ROWS_000[23], EDGE_TABLE[23] as int));
}

proof fn lemma_rows_024_to_031(mask: int)
    requires
        24 <= mask < 32,
    ensures
        edges_wf(mask),
        row_wf(TRI_ROWS_000[mask], EDGE_TABLE[mask] as int),
{
    reveal(edges_wf);
    reveal(row_wf);
    reveal(entry_wf);
    assert(edges_wf(24) && row_wf(TRI_ROWS_000[24], EDGE_TABLE[24] as int));
    assert(edges_wf(25) && row_wf(TRI_ROWS_000[25], EDGE_TABLE[25] as int));
    assert(edges_wf(26) && row_wf(TRI_ROWS_000[26], EDGE_TABLE[26] as int));
    assert(edges_wf(27) && row_wf(TRI_ROWS_000[27], EDGE_TABLE[27] as int));
    assert(edges_wf(28) && row_wf(TRI_ROWS_000[28], EDGE_TABLE[28] as int));
    assert(edges_wf(29) && row_wf(TRI_ROWS_000[29], EDGE_TABLE[29] as int));
    assert(edges_wf(30) && row_wf(TRI_ROWS_000[30], EDGE_TABLE[30] as int));
    assert(edges_wf(31) && row_wf(TRI_ROWS_000[31], EDGE_TABLE[31] as int));
}

/// Every row of this block is well formed for the edge mask of its corner
/// mask, and that edge mask is right.
pub proof fn lemma_rows(mask: int)
    requires
        0 <= mask < 32,
    ensures
        edges_wf(mask),
        row_wf(TRI_ROWS_000[mask], EDGE_TABLE[mask] as int),
{
    if mask < 8 {
        lemma_rows_000_to_007(mask);
    } else if mask < 16 {
        lemma_rows_008_to_015(mask);
    } else if mask < 24 {
        lemma_rows_016_to_023(mask);
    } else {
        lemma_rows_024_to_031(mask);
    }
}

} // verus!

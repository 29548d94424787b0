//! The triangle rows of the corner masks 32 to 63.
use vstd::prelude::*;
use crate::tables::{edges_wf, entry_wf, row_wf, EDGE_TABLE};

verus! {

/// Row `i` holds the triangles of corner mask `32 + i`: up to five triangles
/// as edge indices, closed by `-1`.
pub const TRI_ROWS_032: [[i8; 16]; 32] = [
    [9, 5, 4, -1, -1, -1, -1, -1, -1, -1, -1, -1, -1, -1, -1, -1],
    [9, 5, 4, 0, 8, 3, -1, -1, -1, -1, -1, -1, -1, -1, -1, -1],
    [0, 5, 4, 1, 5, 0, -1, -1, -1, -1, -1, -1, -1, -1, -1, -1],
    [8, 5, 4, 8, 3, 5, 3, 1, 5, -1, -1, -1, -1, -1, -1, -1],
    [1, 2, 10, 9, 5, 4, -1, -1, -1, -1, -1, -1, -1, -1, -1, -1],
    [3, 0, 8, 1, 2, 10, 4, 9, 5, -1, -1, -1, -1, -1, -1, -1],
    [5, 2, 10, 5, 4, 2, 4, 0, 2, -1, -1, -1, -1, -1, -1, -1],
    [2, 10, 5, 3, 2, 5, 3, 5, 4, 3, 4, 8, -1, -1, -1, -1],
    [9, 5, 4, 2, 3, 11, -1, -1, -1, -1, -1, -1, -1, -1, -1, -1],
    [0, 11, 2, 0, 8, 11, 4, 9, 5, -1, -1, -1, -1, -1, -1, -1],
    [0, 5, 4, 0, 1, 5, 2, 3, 11, -1, -1, -1, -1, -1, -1, -1],
    [2, 1, 5, 2, 5, 8, 2, 8, 11, 4, 8, 5, -1, -1, -1, -1],
    [10, 3, 11, 10, 1, 3, 9, 5, 4, -1, -1, -1, -1, -1, -1, -1],
    [4, 9, 5, 0, 8, 1, 8, 10, 1, 8, 11, 10, -1, -1, -1, -1],
    [5, 4, 0, 5, 0, 11, 5, 11, 10, 11, 0, 3, -1, -1, -1, -1],
    [5, 4, 8, 5, 8, 10, 10, 8, 11, -1, -1, -1, -1, -1, -1, -1],
    [9, 7, 8, 5, 7, 9, -1, -1, -1, -1, -1, -1, -1, -1, -1, -1],
    [9, 3, 0, 9, 5, 3, 5, 7, 3, -1, -1, -1, -1, -1, -1, -1],
    [0, 7, 8, 0, 1, 7, 1, 5, 7, -1, -1, -1, -1, -1, -1, -1],
    [1, 5, 3, 3, 5, 7, -1, -1, -1, -1, -1, -1, -1, -1, -1, -1],
    [9, 7, 8, 9, 5, 7, 10, 1, 2, -1, -1, -1, -1, -1, -1, -1],
    [10, 1, 2, 9, 5, 0, 5, 3, 0, 5, 7, 3, -1, -1, -1, -1],
    [8, 0, 2, 8, 2, 5, 8, 5, 7, 10, 5, 2, -1, -1, -1, -1],
    [2, 10, 5, 2, 5, 3, 3, 5, 7, -1, -1, -1, -1, -1, -1, -1],
    [7, 9, 5, 7, 8, 9, 3, 11, 2, -1, -1, -1, -1, -1, -1, -1],
    [9, 5, 7, 9, 7, 2, 9, 2, 0, 2, 7, 11, -1, -1, -1, -1],
    [2, 3, 11, 0, 1, 8, 1, 7, 8, 1, 5, 7, -1, -1, -1, -1],
    [11, 2, 1, 11, 1, 7, 7, 1, 5, -1, -1, -1, -1, -1, -1, -1],
    [9, 5, 8, 8, 5, 7, 10, 1, 3, 10, 3, 11, -1, -1, -1, -1],
    [5, 7, 0, 5, 0, 9, 7, 11, 0, 1, 0, 10, 11, 10, 0, -1],
    [11, 10, 0, 11, 0, 3, 10, 5, 0, 8, 0, 7, 5, 7, 0, -1],
    [11, 10, 5, 7, 11, 5, -1, -1, -1, -1, -1, -1, -1, -1, -1, -1],
];

proof fn lemma_rows_032_to_039(mask: int)
    requires
        32 <= mask < 40,
    ensures
        edges_wf(mask),
        row_wf(TRI_ROWS_032[mask - 32], EDGE_TABLE[mask] as int),
{
    reveal(edges_wf);
    reveal(row_wf);
    reveal(entry_wf);
    assert(edges_wf(32) && row_wf(TRI_ROWS_032[0], EDGE_TABLE[32] as int));
    assert(edges_wf(33) && row_wf(TRI_ROWS_032[1], EDGE_TABLE[33] as int));
    assert(edges_wf(34) && row_wf(TRI_ROWS_032[2], EDGE_TABLE[34] as int));
    assert(edges_wf(35) && row_wf(TRI_ROWS_032[3], EDGE_TABLE[35] as int));
    assert(edges_wf(36) && row_wf(TRI_ROWS_032[4], EDGE_TABLE[36] as int));
    assert(edges_wf(37) && row_wf(TRI_ROWS_032[5], EDGE_TABLE[37] as int));
    assert(edges_wf(38) && row_wf(TRI_ROWS_032[6], EDGE_TABLE[38] as int));
    assert(edges_wf(39) && row_wf(TRI_ROWS_032[7], EDGE_TABLE[39] as int));
}

proof fn lemma_rows_040_to_047(mask: int)
    requires
        40 <= mask < 48,
    ensures
        edges_wf(mask),
        row_wf(TRI_ROWS_032[mask - 32], EDGE_TABLE[mask] as int),
{
    reveal(edges_wf);
    reveal(row_wf);
    reveal(entry_wf);
    assert(edges_wf(40) && row_wf(TRI_ROWS_032[8], EDGE_TABLE[40] as int));
    assert(edges_wf(41) && row_wf(TRI_ROWS_032[9], EDGE_TABLE[41] as int));
    assert(edges_wf(42) && row_wf(TRI_ROWS_032[10], EDGE_TABLE[42] as int));
    assert(edges_wf(43) && row_wf(TRI_ROWS_032[11], EDGE_TABLE[43] as int));
    assert(edges_wf(44) && row_wf(TRI_ROWS_032[12], EDGE_TABLE[44] as int));
    assert(edges_wf(45) && row_wf(TRI_ROWS_032[13], EDGE_TABLE[45] as int));
    assert(edges_wf(46) && row_wf(TRI_ROWS_032[14], EDGE_TABLE[46] as int));
    assert(edges_wf(47) && row_wf(TRI_ROWS_032[15], EDGE_TABLE[47] as int));
}

proof fn lemma_rows_048_to_055(mask: int)
    requires
        48 <= mask < 56,
    ensures
        edges_wf(mask),
        row_wf(TRI_ROWS_032[mask - 32], EDGE_TABLE[mask] as int),
{
    reveal(edges_wf);
    reveal(row_wf);
    reveal(entry_wf);
    assert(edges_wf(48) && row_wf(TRI_ROWS_032[16], EDGE_TABLE[48] as int));
    assert(edges_wf(49) && row_wf(TRI_ROWS_032[17], EDGE_TABLE[49] as int));
    assert(edges_wf(50) && row_wf(TRI_ROWS_032[18], EDGE_TABLE[50] as int));
    assert(edges_wf(51) && row_wf(TRI_ROWS_032[19], EDGE_TABLE[51] as int));
    assert(edges_wf(52) && row_wf(TRI_ROWS_032[20], EDGE_TABLE[52] as int));
    assert(edges_wf(53) && row_wf(TRI_ROWS_032[21], EDGE_TABLE[53] as int));
    assert(edges_wf(54) && row_wf(TRI_ROWS_032[22], EDGE_TABLE[54] as int));
    assert(edges_wf(55) && row_wf(TRI_ROWS_032[23], EDGE_TABLE[55] as int));
}

proof fn lemma_rows_056_to_063(mask: int)
    requires
        56 <= mask < 64,
    ensures
        edges_wf(mask),
        row_wf(TRI_ROWS_032[mask - 32], EDGE_TABLE[mask] as int),
{
    reveal(edges_wf);
    reveal(row_wf);
    reveal(entry_wf);
    assert(edges_wf(56) && row_wf(TRI_ROWS_032[24], EDGE_TABLE[56] as int));
    assert(edges_wf(57) && row_wf(TRI_ROWS_032[25], EDGE_TABLE[57] as int));
    assert(edges_wf(58) && row_wf(TRI_ROWS_032[26], EDGE_TABLE[58] as int));
    assert(edges_wf(59) && row_wf(TRI_ROWS_032[27], EDGE_TABLE[59] as int));
    assert(edges_wf(60) && row_wf(TRI_ROWS_032[28], EDGE_TABLE[60] as int));
    assert(edges_wf(61) && row_wf(TRI_ROWS_032[29], EDGE_TABLE[61] as int));
    assert(edges_wf(62) && row_wf(TRI_ROWS_032[30], EDGE_TABLE[62] as int));
    assert(edges_wf(63) && row_wf(TRI_ROWS_032[31], EDGE_TABLE[63] as int));
}

/// Every row of this block is well formed for the edge mask of its corner
/// mask, and that edge mask is right.
pub proof fn lemma_rows(mask: int)
    requires
        32 <= mask < 64,
    ensures
        edges_wf(mask),
        row_wf(TRI_ROWS_032[mask - 32], EDGE_TABLE[mask] as int),
{
    if mask < 40 {
        lemma_rows_032_to_039(mask);
    } else if mask < 48 {
        lemma_rows_040_to_047(mask);
    } else if mask < 56 {
        lemma_rows_048_to_055(mask);
    } else {
        lemma_rows_056_to_063(mask);
    }
}

} // verus!

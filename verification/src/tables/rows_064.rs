//! The triangle rows of the corner masks 64 to 95.
use vstd::prelude::*;
use crate::tables::{edges_wf, entry_wf, row_wf, EDGE_TABLE};

verus! {

/// Row `i` holds the triangles of corner mask `64 + i`: up to five triangles
/// as edge indices, closed by `-1`.
pub const TRI_ROWS_064: [[i8; 16]; 32] = [
    [10, 6, 5, -1, -1, -1, -1, -1, -1, -1, -1, -1, -1, -1, -1, -1],
    [0, 8, 3, 5, 10, 6, -1, -1, -1, -1, -1, -1, -1, -1, -1, -1],
    [9, 0, 1, 5, 10, 6, -1, -1, -1, -1, -1, -1, -1, -1, -1, -1],
    [1, 8, 3, 1, 9, 8, 5, 10, 6, -1, -1, -1, -1, -1, -1, -1],
    [1, 6, 5, 2, 6, 1, -1, -1, -1, -1, -1, -1, -1, -1, -1, -1],
    [1, 6, 5, 1, 2, 6, 3, 0, 8, -1, -1, -1, -1, -1, -1, -1],
    [9, 6, 5, 9, 0, 6, 0, 2, 6, -1, -1, -1, -1, -1, -1, -1],
    [5, 9, 8, 5, 8, 2, 5, 2, 6, 3, 2, 8, -1, -1, -1, -1],
    [2, 3, 11, 10, 6, 5, -1, -1, -1, -1, -1, -1, -1, -1, -1, -1],
    [11, 0, 8, 11, 2, 0, 10, 6, 5, -1, -1, -1, -1, -1, -1, -1],
    [0, 1, 9, 2, 3, 11, 5, 10, 6, -1, -1, -1, -1, -1, -1, -1],
    [5, 10, 6, 1, 9, 2, 9, 11, 2, 9, 8, 11, -1, -1, -1, -1],
    [6, 3, 11, 6, 5, 3, 5, 1, 3, -1, -1, -1, -1, -1, -1, -1],
    [0, 8, 11, 0, 11, 5, 0, 5, 1, 5, 11, 6, -1, -1, -1, -1],
    [3, 11, 6, 0, 3, 6, 0, 6, 5, 0, 5, 9, -1, -1, -1, -1],
    [6, 5, 9, 6, 9, 11, 11, 9, 8, -1, -1, -1, -1, -1, -1, -1],
    [5, 10, 6, 4, 7, 8, -1, -1, -1, -1, -1, -1, -1, -1, -1, -1],
    [4, 3, 0, 4, 7, 3, 6, 5, 10, -1, -1, -1, -1, -1, -1, -1],
    [1, 9, 0, 5, 10, 6, 8, 4, 7, -1, -1, -1, -1, -1, -1, -1],
    [10, 6, 5, 1, 9, 7, 1, 7, 3, 7, 9, 4, -1, -1, -1, -1],
    [6, 1, 2, 6, 5, 1, 4, 7, 8, -1, -1, -1, -1, -1, -1, -1],
    [1, 2, 5, 5, 2, 6, 3, 0, 4, 3, 4, 7, -1, -1, -1, -1],
    [8, 4, 7, 9, 0, 5, 0, 6, 5, 0, 2, 6, -1, -1, -1, -1],
    [7, 3, 9, 7, 9, 4, 3, 2, 9, 5, 9, 6, 2, 6, 9, -1],
    [3, 11, 2, 7, 8, 4, 10, 6, 5, -1, -1, -1, -1, -1, -1, -1],
    [5, 10, 6, 4, 7, 2, 4, 2, 0, 2, 7, 11, -1, -1, -1, -1],
    [0, 1, 9, 4, 7, 8, 2, 3, 11, 5, 10, 6, -1, -1, -1, -1],
    [9, 2, 1, 9, 11, 2, 9, 4, 11, 7, 11, 4, 5, 10, 6, -1],
    [8, 4, 7, 3, 11, 5, 3, 5, 1, 5, 11, 6, -1, -1, -1, -1],
    [5, 1, 11, 5, 11, 6, 1, 0, 11, 7, 11, 4, 0, 4, 11, -1],
    [0, 5, 9, 0, 6, 5, 0, 3, 6, 11, 6, 3, 8, 4, 7, -1],
    [6, 5, 9, 6, 9, 11, 4, 7, 9, 7, 11, 9, -1, -1, -1, -1],
];

proof fn lemma_rows_064_to_071(mask: int)
    requires
        64 <= mask < 72,
    ensures
        edges_wf(mask),
        row_wf(TRI_ROWS_064[mask - 64], EDGE_TABLE[mask] as int),
{
    reveal(edges_wf);
    reveal(row_wf);
    reveal(entry_wf);
    assert(edges_wf(64) && row_wf(TRI_ROWS_064[0], EDGE_TABLE[64] as int));
    assert(edges_wf(65) && row_wf(TRI_ROWS_064[1], EDGE_TABLE[65] as int));
    assert(edges_wf(66) && row_wf(TRI_ROWS_064[2], EDGE_TABLE[66] as int));
    assert(edges_wf(67) && row_wf(TRI_ROWS_064[3], EDGE_TABLE[67] as int));
    assert(edges_wf(68) && row_wf(TRI_ROWS_064[4], EDGE_TABLE[68] as int));
    assert(edges_wf(69) && row_wf(TRI_ROWS_064[5], EDGE_TABLE[69] as int));
    assert(edges_wf(70) && row_wf(TRI_ROWS_064[6], EDGE_TABLE[70] as int));
    assert(edges_wf(71) && row_wf(TRI_ROWS_064[7], EDGE_TABLE[71] as int));
}

proof fn lemma_rows_072_to_079(mask: int)
    requires
        72 <= mask < 80,
    ensures
        edges_wf(mask),
        row_wf(TRI_ROWS_064[mask - 64], EDGE_TABLE[mask] as int),
{
    reveal(edges_wf);
    reveal(row_wf);
    reveal(entry_wf);
    assert(edges_wf(72) && row_wf(TRI_ROWS_064[8], EDGE_TABLE[72] as int));
    assert(edges_wf(73) && row_wf(TRI_ROWS_064[9], EDGE_TABLE[73] as int));
    assert(edges_wf(74) && row_wf(TRI_ROWS_064[10], EDGE_TABLE[74] as int));
    assert(edges_wf(75) && row_wf(TRI_ROWS_064[11], EDGE_TABLE[75] as int));
    assert(edges_wf(76) && row_wf(TRI_ROWS_064[12], EDGE_TABLE[76] as int));
    assert(edges_wf(77) && row_wf(TRI_ROWS_064[13], EDGE_TABLE[77] as int));
    assert(edges_wf(78) && row_wf(TRI_ROWS_064[14], EDGE_TABLE[78] as int));
    assert(edges_wf(79) && row_wf(TRI_ROWS_064[15], EDGE_TABLE[79] as int));
}

proof fn lemma_rows_080_to_087(mask: int)
    requires
        80 <= mask < 88,
    ensures
        edges_wf(mask),
        row_wf(TRI_ROWS_064[mask - 64], EDGE_TABLE[mask] as int),
{
    reveal(edges_wf);
    reveal(row_wf);
    reveal(entry_wf);
    assert(edges_wf(80) && row_wf(TRI_ROWS_064[16], EDGE_TABLE[80] as int));
    assert(edges_wf(81) && row_wf(TRI_ROWS_064[17], EDGE_TABLE[81] as int));
    assert(edges_wf(82) && row_wf(TRI_ROWS_064[18], EDGE_TABLE[82] as int));
    assert(edges_wf(83) && row_wf(TRI_ROWS_064[19], EDGE_TABLE[83] as int));
    assert(edges_wf(84) && row_wf(TRI_ROWS_064[20], EDGE_TABLE[84] as int));
    assert(edges_wf(85) && row_wf(TRI_ROWS_064[21], EDGE_TABLE[85] as int));
    assert(edges_wf(86) && row_wf(TRI_ROWS_064[22], EDGE_TABLE[86] as int));
    assert(edges_wf(87) && row_wf(TRI_ROWS_064[23], EDGE_TABLE[87] as int));
}

proof fn lemma_rows_088_to_095(mask: int)
    requires
        88 <= mask < 96,
    ensures
        edges_wf(mask),
        row_wf(TRI_ROWS_064[mask - 64], EDGE_TABLE[mask] as int),
{
    reveal(edges_wf);
    reveal(row_wf);
    reveal(entry_wf);
    assert(edges_wf(88) && row_wf(TRI_ROWS_064[24], EDGE_TABLE[88] as int));
    assert(edges_wf(89) && row_wf(TRI_ROWS_064[25], EDGE_TABLE[89] as int));
    assert(edges_wf(90) && row_wf(TRI_ROWS_064[26], EDGE_TABLE[90] as int));
    assert(edges_wf(91) && row_wf(TRI_ROWS_064[27], EDGE_TABLE[91] as int));
    assert(edges_wf(92) && row_wf(TRI_ROWS_064[28], EDGE_TABLE[92] as int));
    assert(edges_wf(93) && row_wf(TRI_ROWS_064[29], EDGE_TABLE[93] as int));
    assert(edges_wf(94) && row_wf(TRI_ROWS_064[30], EDGE_TABLE[94] as int));
    assert(edges_wf(95) && row_wf(TRI_ROWS_064[31], EDGE_TABLE[95] as int));
}

/// Every row of this block is well formed for the edge mask of its corner
/// mask, and that edge mask is right.
pub proof fn lemma_rows(mask: int)
    requires
        64 <= mask < 96,
    ensures
        edges_wf(mask),
        row_wf(TRI_ROWS_064[mask - 64], EDGE_TABLE[mask] as int),
{
    if mask < 72 {
        lemma_rows_064_to_071(mask);
    } else if mask < 80 {
        lemma_rows_072_to_079(mask);
    } else if mask < 88 {
        lemma_rows_080_to_087(mask);
    } else {
        lemma_rows_088_to_095(mask);
    }
}

} // verus!

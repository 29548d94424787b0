//! The triangle rows of the corner masks 128 to 159.
use vstd::prelude::*;
use crate::tables::{edges_wf, entry_wf, row_wf, EDGE_TABLE};

verus! {

/// Row `i` holds the triangles of corner mask `128 + i`: up to five triangles
/// as edge indices, closed by `-1`.
pub const TRI_ROWS_128: [[i8; 16]; 32] = [
    [7, 6, 11, -1, -1, -1, -1, -1, -1, -1, -1, -1, -1, -1, -1, -1],
    [3, 0, 8, 11, 7, 6, -1, -1, -1, -1, -1, -1, -1, -1, -1, -1],
    [0, 1, 9, 11, 7, 6, -1, -1, -1, -1, -1, -1, -1, -1, -1, -1],
    [8, 1, 9, 8, 3, 1, 11, 7, 6, -1, -1, -1, -1, -1, -1, -1],
    [10, 1, 2, 6, 11, 7, -1, -1, -1, -1, -1, -1, -1, -1, -1, -1],
    [1, 2, 10, 3, 0, 8, 6, 11, 7, -1, -1, -1, -1, -1, -1, -1],
    [2, 9, 0, 2, 10, 9, 6, 11, 7, -1, -1, -1, -1, -1, -1, -1],
    [6, 11, 7, 2, 10, 3, 10, 8, 3, 10, 9, 8, -1, -1, -1, -1],
    [7, 2, 3, 6, 2, 7, -1, -1, -1, -1, -1, -1, -1, -1, -1, -1],
    [7, 0, 8, 7, 6, 0, 6, 2, 0, -1, -1, -1, -1, -1, -1, -1],
    [2, 7, 6, 2, 3, 7, 0, 1, 9, -1, -1, -1, -1, -1, -1, -1],
    [1, 6, 2, 1, 8, 6, 1, 9, 8, 8, 7, 6, -1, -1, -1, -1],
    [10, 7, 6, 10, 1, 7, 1, 3, 7, -1, -1, -1, -1, -1, -1, -1],
    [10, 7, 6, 1, 7, 10, 1, 8, 7, 1, 0, 8, -1, -1, -1, -1],
    [0, 3, 7, 0, 7, 10, 0, 10, 9, 6, 10, 7, -1, -1, -1, -1],
    [7, 6, 10, 7, 10, 8, 8, 10, 9, -1, -1, -1, -1, -1, -1, -1],
    [6, 8, 4, 11, 8, 6, -1, -1, -1, -1, -1, -1, -1, -1, -1, -1],
    [3, 6, 11, 3, 0, 6, 0, 4, 6, -1, -1, -1, -1, -1, -1, -1],
    [8, 6, 11, 8, 4, 6, 9, 0, 1, -1, -1, -1, -1, -1, -1, -1],
    [9, 4, 6, 9, 6, 3, 9, 3, 1, 11, 3, 6, -1, -1, -1, -1],
    [6, 8, 4, 6, 11, 8, 2, 10, 1, -1, -1, -1, -1, -1, -1, -1],
    [1, 2, 10, 3, 0, 11, 0, 6, 11, 0, 4, 6, -1, -1, -1, -1],
    [4, 11, 8, 4, 6, 11, 0, 2, 9, 2, 10, 9, -1, -1, -1, -1],
    [10, 9, 3, 10, 3, 2, 9, 4, 3, 11, 3, 6, 4, 6, 3, -1],
    [8, 2, 3, 8, 4, 2, 4, 6, 2, -1, -1, -1, -1, -1, -1, -1],
    [0, 4, 2, 4, 6, 2, -1, -1, -1, -1, -1, -1, -1, -1, -1, -1],
    [1, 9, 0, 2, 3, 4, 2, 4, 6, 4, 3, 8, -1, -1, -1, -1],
    [1, 9, 4, 1, 4, 2, 2, 4, 6, -1, -1, -1, -1, -1, -1, -1],
    [8, 1, 3, 8, 6, 1, 8, 4, 6, 6, 10, 1, -1, -1, -1, -1],
    [10, 1, 0, 10, 0, 6, 6, 0, 4, -1, -1, -1, -1, -1, -1, -1],
    [4, 6, 3, 4, 3, 8, 6, 10, 3, 0, 3, 9, 10, 9, 3, -1],
    [10, 9, 4, 6, 10, 4, -1, -1, -1, -1, -1, -1, -1, -1, -1, -1],
];

proof fn lemma_rows_128_to_135(mask: int)
    requires
        128 <= mask < 136,
    ensures
        edges_wf(mask),
        row_wf(TRI_ROWS_128[mask - 128], EDGE_TABLE[mask] as int),
{
    reveal(edges_wf);
    reveal(row_wf);
    reveal(entry_wf);
    assert(edges_wf(128) && row_wf(TRI_ROWS_128[0], EDGE_TABLE[128] as int));
    assert(edges_wf(129) && row_wf(TRI_ROWS_128[1], EDGE_TABLE[129] as int));
    assert(edges_wf(130) && row_wf(TRI_ROWS_128[2], EDGE_TABLE[130] as int));
    assert(edges_wf(131) && row_wf(TRI_ROWS_128[3], EDGE_TABLE[131] as int));
    assert(edges_wf(132) && row_wf(TRI_ROWS_128[4], EDGE_TABLE[132] as int));
    assert(edges_wf(133) && row_wf(TRI_ROWS_128[5], EDGE_TABLE[133] as int));
    assert(edges_wf(134) && row_wf(TRI_ROWS_128[6], EDGE_TABLE[134] as int));
    assert(edges_wf(135) && row_wf(TRI_ROWS_128[7], EDGE_TABLE[135] as int));
}

proof fn lemma_rows_136_to_143(mask: int)
    requires
        136 <= mask < 144,
    ensures
        edges_wf(mask),
        row_wf(TRI_ROWS_128[mask - 128], EDGE_TABLE[mask] as int),
{
    reveal(edges_wf);
    reveal(row_wf);
    reveal(entry_wf);
    assert(edges_wf(136) && row_wf(TRI_ROWS_128[8], EDGE_TABLE[136] as int));
    assert(edges_wf(137) && row_wf(TRI_ROWS_128[9], EDGE_TABLE[137] as int));
    assert(edges_wf(138) && row_wf(TRI_ROWS_128[10], EDGE_TABLE[138] as int));
    assert(edges_wf(139) && row_wf(TRI_ROWS_128[11], EDGE_TABLE[139] as int));
    assert(edges_wf(140) && row_wf(TRI_ROWS_128[12], EDGE_TABLE[140] as int));
    assert(edges_wf(141) && row_wf(TRI_ROWS_128[13], EDGE_TABLE[141] as int));
    assert(edges_wf(142) && row_wf(TRI_ROWS_128[14], EDGE_TABLE[142] as int));
    assert(edges_wf(143) && row_wf(TRI_ROWS_128[15], EDGE_TABLE[143] as int));
}

proof fn lemma_rows_144_to_151(mask: int)
    requires
        144 <= mask < 152,
    ensures
        edges_wf(mask),
        row_wf(TRI_ROWS_128[mask - 128], EDGE_TABLE[mask] as int),
{
    reveal(edges_wf);
    reveal(row_wf);
    reveal(entry_wf);
    assert(edges_wf(144) && row_wf(TRI_ROWS_128[16], EDGE_TABLE[144] as int));
    assert(edges_wf(145) && row_wf(TRI_ROWS_128[17], EDGE_TABLE[145] as int));
    assert(edges_wf(146) && row_wf(TRI_ROWS_128[18], EDGE_TABLE[146] as int));
    assert(edges_wf(147) && row_wf(TRI_ROWS_128[19], EDGE_TABLE[147] as int));
    assert(edges_wf(148) && row_wf(TRI_ROWS_128[20], EDGE_TABLE[148] as int));
    assert(edges_wf(149) && row_wf(TRI_ROWS_128[21], EDGE_TABLE[149] as int));
    assert(edges_wf(150) && row_wf(TRI_ROWS_128[22], EDGE_TABLE[150] as int));
    assert(edges_wf(151) && row_wf(TRI_ROWS_128[23], EDGE_TABLE[151] as int));
}

proof fn lemma_rows_152_to_159(mask: int)
    requires
        152 <= mask < 160,
    ensures
        edges_wf(mask),
        row_wf(TRI_ROWS_128[mask - 128], EDGE_TABLE[mask] as int),
{
    reveal(edges_wf);
    reveal(row_wf);
    reveal(entry_wf);
    assert(edges_wf(152) && row_wf(TRI_ROWS_128[24], EDGE_TABLE[152] as int));
    assert(edges_wf(153) && row_wf(TRI_ROWS_128[25], EDGE_TABLE[153] as int));
    assert(edges_wf(154) && row_wf(TRI_ROWS_128[26], EDGE_TABLE[154] as int));
    assert(edges_wf(155) && row_wf(TRI_ROWS_128[27], EDGE_TABLE[155] as int));
    assert(edges_wf(156) && row_wf(TRI_ROWS_128[28], EDGE_TABLE[156] as int));
    assert(edges_wf(157) && row_wf(TRI_ROWS_128[29], EDGE_TABLE[157] as int));
    assert(edges_wf(158) && row_wf(TRI_ROWS_128[30], EDGE_TABLE[158] as int));
    assert(edges_wf(159) && row_wf(TRI_ROWS_128[31], EDGE_TABLE[159] as int));
}

/// Every row of this block is well formed for the edge mask of its corner
/// mask, and that edge mask is right.
pub proof fn lemma_rows(mask: int)
    requires
        128 <= mask < 160,
    ensures
        edges_wf(mask),
        row_wf(TRI_ROWS_128[mask - 128], EDGE_TABLE[mask] as int),
{
    if mask < 136 {
        lemma_rows_128_to_135(mask);
    } else if mask < 144 {
        lemma_rows_136_to_143(mask);
    } else if mask < 152 {
        lemma_rows_144_to_151(mask);
    } else {
        lemma_rows_152_to_159(mask);
    }
}

} // verus!

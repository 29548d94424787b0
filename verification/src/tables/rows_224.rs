//! The triangle rows of the corner masks 224 to 255.
use vstd::prelude::*;
use crate::tables::{edges_wf, entry_wf, row_wf, EDGE_TABLE};

verus! {

/// Row `i` holds the triangles of corner mask `224 + i`: up to five triangles
/// as edge indices, closed by `-1`.
pub const TRI_ROWS_224: [[i8; 16]; 32] = [
    [4, 11, 7, 4, 9, 11, 9, 10, 11, -1, -1, -1, -1, -1, -1, -1],
    [0, 8, 3, 4, 9, 7, 9, 11, 7, 9, 10, 11, -1, -1, -1, -1],
    [1, 10, 11, 1, 11, 4, 1, 4, 0, 7, 4, 11, -1, -1, -1, -1],
    [3, 1, 4, 3, 4, 8, 1, 10, 4, 7, 4, 11, 10, 11, 4, -1],
    [4, 11, 7, 9, 11, 4, 9, 2, 11, 9, 1, 2, -1, -1, -1, -1],
    [9, 7, 4, 9, 11, 7, 9, 1, 11, 2, 11, 1, 0, 8, 3, -1],
    [11, 7, 4, 11, 4, 2, 2, 4, 0, -1, -1, -1, -1, -1, -1, -1],
    [11, 7, 4, 11, 4, 2, 8, 3, 4, 3, 2, 4, -1, -1, -1, -1],
    [2, 9, 10, 2, 7, 9, 2, 3, 7, 7, 4, 9, -1, -1, -1, -1],
    [9, 10, 7, 9, 7, 4, 10, 2, 7, 8, 7, 0, 2, 0, 7, -1],
    [3, 7, 10, 3, 10, 2, 7, 4, 10, 1, 10, 0, 4, 0, 10, -1],
    [1, 10, 2, 8, 7, 4, -1, -1, -1, -1, -1, -1, -1, -1, -1, -1],
    [4, 9, 1, 4, 1, 7, 7, 1, 3, -1, -1, -1, -1, -1, -1, -1],
    [4, 9, 1, 4, 1, 7, 0, 8, 1, 8, 7, 1, -1, -1, -1, -1],
    [4, 0, 3, 7, 4, 3, -1, -1, -1, -1, -1, -1, -1, -1, -1, -1],
    [4, 8, 7, -1, -1, -1, -1, -1, -1, -1, -1, -1, -1, -1, -1, -1],
    [9, 10, 8, 10, 11, 8, -1, -1, -1, -1, -1, -1, -1, -1, -1, -1],
    [3, 0, 9, 3, 9, 11, 11, 9, 10, -1, -1, -1, -1, -1, -1, -1],
    [0, 1, 10, 0, 10, 8, 8, 10, 11, -1, -1, -1, -1, -1, -1, -1],
    [3, 1, 10, 11, 3, 10, -1, -1, -1, -1, -1, -1, -1, -1, -1, -1],
    [1, 2, 11, 1, 11, 9, 9, 11, 8, -1, -1, -1, -1, -1, -1, -1],
    [3, 0, 9, 3, 9, 11, 1, 2, 9, 2, 11, 9, -1, -1, -1, -1],
    [0, 2, 11, 8, 0, 11, -1, -1, -1, -1, -1, -1, -1, -1, -1, -1],
    [3, 2, 11, -1, -1, -1, -1, -1, -1, -1, -1, -1, -1, -1, -1, -1],
    [2, 3, 8, 2, 8, 10, 10, 8, 9, -1, -1, -1, -1, -1, -1, -1],
    [9, 10, 2, 0, 9, 2, -1, -1, -1, -1, -1, -1, -1, -1, -1, -1],
    [2, 3, 8, 2, 8, 10, 0, 1, 8, 1, 10, 8, -1, -1, -1, -1],
    [1, 10, 2, -1, -1, -1, -1, -1, -1, -1, -1, -1, -1, -1, -1, -1],
    [1, 3, 8, 9, 1, 8, -1, -1, -1, -1, -1, -1, -1, -1, -1, -1],
    [0, 9, 1, -1, -1, -1, -1, -1, -1, -1, -1, -1, -1, -1, -1, -1],
    [0, 3, 8, -1, -1, -1, -1, -1, -1, -1, -1, -1, -1, -1, -1, -1],
    [-1, -1, -1, -1, -1, -1, -1, -1, -1, -1, -1, -1, -1, -1, -1, -1],
];

proof fn lemma_rows_224_to_231(mask: int)
    requires
        224 <= mask < 232,
    ensures
        edges_wf(mask),
        row_wf(TRI_ROWS_224[mask - 224], EDGE_TABLE[mask] as int),
{
    reveal(edges_wf);
    reveal(row_wf);
    reveal(entry_wf);
    assert(edges_wf(224) && row_wf(TRI_ROWS_224[0], EDGE_TABLE[224] as int));
    assert(edges_wf(225) && row_wf(TRI_ROWS_224[1], EDGE_TABLE[225] as int));
    assert(edges_wf(226) && row_wf(TRI_ROWS_224[2], EDGE_TABLE[226] as int));
    assert(edges_wf(227) && row_wf(TRI_ROWS_224[3], EDGE_TABLE[227] as int));
    assert(edges_wf(228) && row_wf(TRI_ROWS_224[4], EDGE_TABLE[228] as int));
    assert(edges_wf(229) && row_wf(TRI_ROWS_224[5], EDGE_TABLE[229] as int));
    assert(edges_wf(230) && row_wf(TRI_ROWS_224[6], EDGE_TABLE[230] as int));
    assert(edges_wf(231) && row_wf(TRI_ROWS_224[7], EDGE_TABLE[231] as int));
}

proof fn lemma_rows_232_to_239(mask: int)
    requires
        232 <= mask < 240,
    ensures
        edges_wf(mask),
        row_wf(TRI_ROWS_224[mask - 224], EDGE_TABLE[mask] as int),
{
    reveal(edges_wf);
    reveal(row_wf);
    reveal(entry_wf);
    assert(edges_wf(232) && row_wf(TRI_ROWS_224[8], EDGE_TABLE[232] as int));
    assert(edges_wf(233) && row_wf(TRI_ROWS_224[9], EDGE_TABLE[233] as int));
    assert(edges_wf(234) && row_wf(TRI_ROWS_224[10], EDGE_TABLE[234] as int));
    assert(edges_wf(235) && row_wf(TRI_ROWS_224[11], EDGE_TABLE[235] as int));
    assert(edges_wf(236) && row_wf(TRI_ROWS_224[12], EDGE_TABLE[236] as int));
    assert(edges_wf(237) && row_wf(TRI_ROWS_224[13], EDGE_TABLE[237] as int));
    assert(edges_wf(238) && row_wf(TRI_ROWS_224[14], EDGE_TABLE[238] as int));
    assert(edges_wf(239) && row_wf(TRI_ROWS_224[15], EDGE_TABLE[239] as int));
}

proof fn lemma_rows_240_to_247(mask: int)
    requires
        240 <= mask < 248,
    ensures
        edges_wf(mask),
        row_wf(TRI_ROWS_224[mask - 224], EDGE_TABLE[mask] as int),
{
    reveal(edges_wf);
    reveal(row_wf);
    reveal(entry_wf);
    assert(edges_wf(240) && row_wf(TRI_ROWS_224[16], EDGE_TABLE[240] as int));
    assert(edges_wf(241) && row_wf(TRI_ROWS_224[17], EDGE_TABLE[241] as int));
    assert(edges_wf(242) && row_wf(TRI_ROWS_224[18], EDGE_TABLE[242] as int));
    assert(edges_wf(243) && row_wf(TRI_ROWS_224[19], EDGE_TABLE[243] as int));
    assert(edges_wf(244) && row_wf(TRI_ROWS_224[20], EDGE_TABLE[244] as int));
    assert(edges_wf(245) && row_wf(TRI_ROWS_224[21], EDGE_TABLE[245] as int));
    assert(edges_wf(246) && row_wf(TRI_ROWS_224[22], EDGE_TABLE[246] as int));
    assert(edges_wf(247) && row_wf(TRI_ROWS_224[23], EDGE_TABLE[247] as int));
}

proof fn lemma_rows_248_to_255(mask: int)
    requires
        248 <= mask < 256,
    ensures
        edges_wf(mask),
        row_wf(TRI_ROWS_224[mask - 224], EDGE_TABLE[mask] as int),
{
    reveal(edges_wf);
    reveal(row_wf);
    reveal(entry_wf);
    assert(edges_wf(248) && row_wf(TRI_ROWS_224[24], EDGE_TABLE[248] as int));
    assert(edges_wf(249) && row_wf(TRI_ROWS_224[25], EDGE_TABLE[249] as int));
    assert(edges_wf(250) && row_wf(TRI_ROWS_224[26], EDGE_TABLE[250] as int));
    assert(edges_wf(251) && row_wf(TRI_ROWS_224[27], EDGE_TABLE[251] as int));
    assert(edges_wf(252) && row_wf(TRI_ROWS_224[28], EDGE_TABLE[252] as int));
    assert(edges_wf(253) && row_wf(TRI_ROWS_224[29], EDGE_TABLE[253] as int));
    assert(edges_wf(254) && row_wf(TRI_ROWS_224[30], EDGE_TABLE[254] as int));
    assert(edges_wf(255) && row_wf(TRI_ROWS_224[31], EDGE_TABLE[255] as int));
}

/// Every row of this block is well formed for the edge mask of its corner
/// mask, and that edge mask is right.
pub proof fn lemma_rows(mask: int)
    requires
        224 <= mask < 256,
    ensures
        edges_wf(mask),
        row_wf(TRI_ROWS_224[mask - 224], EDGE_TABLE[mask] as int),
{
    if mask < 232 {
        lemma_rows_224_to_231(mask);
    } else if mask < 240 {
        lemma_rows_232_to_239(mask);
    } else if mask < 248 {
        lemma_rows_240_to_247(mask);
    } else {
        lemma_rows_248_to_255(mask);
    }
}

} // verus!

//! The triangle rows of the corner masks 192 to 223.
use vstd::prelude::*;
use crate::tables::{edges_wf, entry_wf, row_wf, EDGE_TABLE};

verus! {

/// Row `i` holds the triangles of corner mask `192 + i`: up to five triangles
/// as edge indices, closed by `-1`.
pub const TRI_ROWS_192: [[i8; 16]; 32] = [
    [11, 5, 10, 7, 5, 11, -1, -1, -1, -1, -1, -1, -1, -1, -1, -1],
    [11, 5, 10, 11, 7, 5, 8, 3, 0, -1, -1, -1, -1, -1, -1, -1],
    [5, 11, 7, 5, 10, 11, 1, 9, 0, -1, -1, -1, -1, -1, -1, -1],
    [10, 7, 5, 10, 11, 7, 9, 8, 1, 8, 3, 1, -1, -1, -1, -1],
    [11, 1, 2, 11, 7, 1, 7, 5, 1, -1, -1, -1, -1, -1, -1, -1],
    [0, 8, 3, 1, 2, 7, 1, 7, 5, 7, 2, 11, -1, -1, -1, -1],
    [9, 7, 5, 9, 2, 7, 9, 0, 2, 2, 11, 7, -1, -1, -1, -1],
    [7, 5, 2, 7, 2, 11, 5, 9, 2, 3, 2, 8, 9, 8, 2, -1],
    [2, 5, 10, 2, 3, 5, 3, 7, 5, -1, -1, -1, -1, -1, -1, -1],
    [8, 2, 0, 8, 5, 2, 8, 7, 5, 10, 2, 5, -1, -1, -1, -1],
    [9, 0, 1, 5, 10, 3, 5, 3, 7, 3, 10, 2, -1, -1, -1, -1],
    [9, 8, 2, 9, 2, 1, 8, 7, 2, 10, 2, 5, 7, 5, 2, -1],
    [1, 3, 5, 3, 7, 5, -1, -1, -1, -1, -1, -1, -1, -1, -1, -1],
    [0, 8, 7, 0, 7, 1, 1, 7, 5, -1, -1, -1, -1, -1, -1, -1],
    [9, 0, 3, 9, 3, 5, 5, 3, 7, -1, -1, -1, -1, -1, -1, -1],
    [9, 8, 7, 5, 9, 7, -1, -1, -1, -1, -1, -1, -1, -1, -1, -1],
    [5, 8, 4, 5, 10, 8, 10, 11, 8, -1, -1, -1, -1, -1, -1, -1],
    [5, 0, 4, 5, 11, 0, 5, 10, 11, 11, 3, 0, -1, -1, -1, -1],
    [0, 1, 9, 8, 4, 10, 8, 10, 11, 10, 4, 5, -1, -1, -1, -1],
    [10, 11, 4, 10, 4, 5, 11, 3, 4, 9, 4, 1, 3, 1, 4, -1],
    [2, 5, 1, 2, 8, 5, 2, 11, 8, 4, 5, 8, -1, -1, -1, -1],
    [0, 4, 11, 0, 11, 3, 4, 5, 11, 2, 11, 1, 5, 1, 11, -1],
    [0, 2, 5, 0, 5, 9, 2, 11, 5, 4, 5, 8, 11, 8, 5, -1],
    [9, 4, 5, 2, 11, 3, -1, -1, -1, -1, -1, -1, -1, -1, -1, -1],
    [2, 5, 10, 3, 5, 2, 3, 4, 5, 3, 8, 4, -1, -1, -1, -1],
    [5, 10, 2, 5, 2, 4, 4, 2, 0, -1, -1, -1, -1, -1, -1, -1],
    [3, 10, 2, 3, 5, 10, 3, 8, 5, 4, 5, 8, 0, 1, 9, -1],
    [5, 10, 2, 5, 2, 4, 1, 9, 2, 9, 4, 2, -1, -1, -1, -1],
    [8, 4, 5, 8, 5, 3, 3, 5, 1, -1, -1, -1, -1, -1, -1, -1],
    [0, 4, 5, 1, 0, 5, -1, -1, -1, -1, -1, -1, -1, -1, -1, -1],
    [8, 4, 5, 8, 5, 3, 9, 0, 5, 0, 3, 5, -1, -1, -1, -1],
    [9, 4, 5, -1, -1, -1, -1, -1, -1, -1, -1, -1, -1, -1, -1, -1],
];

proof fn lemma_rows_192_to_199(mask: int)
    requires
        192 <= mask < 200,
    ensures
        edges_wf(mask),
        row_wf(TRI_ROWS_192[mask - 192], EDGE_TABLE[mask] as int),
{
    reveal(edges_wf);
    reveal(row_wf);
    reveal(entry_wf);
    assert(edges_wf(192) && row_wf(TRI_ROWS_192[0], EDGE_TABLE[192] as int));
    assert(edges_wf(193) && row_wf(TRI_ROWS_192[1], EDGE_TABLE[193] as int));
    assert(edges_wf(194) && row_wf(TRI_ROWS_192[2], EDGE_TABLE[194] as int));
    assert(edges_wf(195) && row_wf(TRI_ROWS_192[3], EDGE_TABLE[195] as int));
    assert(edges_wf(196) && row_wf(TRI_ROWS_192[4], EDGE_TABLE[196] as int));
    assert(edges_wf(197) && row_wf(TRI_ROWS_192[5], EDGE_TABLE[197] as int));
    assert(edges_wf(198) && row_wf(TRI_ROWS_192[6], EDGE_TABLE[198] as int));
    assert(edges_wf(199) && row_wf(TRI_ROWS_192[7], EDGE_TABLE[199] as int));
}

proof fn lemma_rows_200_to_207(mask: int)
    requires
        200 <= mask < 208,
    ensures
        edges_wf(mask),
        row_wf(TRI_ROWS_192[mask - 192], EDGE_TABLE[mask] as int),
{
    reveal(edges_wf);
    reveal(row_wf);
    reveal(entry_wf);
    assert(edges_wf(200) && row_wf(TRI_ROWS_192[8], EDGE_TABLE[200] as int));
    assert(edges_wf(201) && row_wf(TRI_ROWS_192[9], EDGE_TABLE[201] as int));
    assert(edges_wf(202) && row_wf(TRI_ROWS_192[10], EDGE_TABLE[202] as int));
    assert(edges_wf(203) && row_wf(TRI_ROWS_192[11], EDGE_TABLE[203] as int));
    assert(edges_wf(204) && row_wf(TRI_ROWS_192[12], EDGE_TABLE[204] as int));
    assert(edges_wf(205) && row_wf(TRI_ROWS_192[13], EDGE_TABLE[205] as int));
    assert(edges_wf(206) && row_wf(TRI_ROWS_192[14], EDGE_TABLE[206] as int));
    assert(edges_wf(207) && row_wf(TRI_ROWS_192[15], EDGE_TABLE[207] as int));
}

proof fn lemma_rows_208_to_215(mask: int)
    requires
        208 <= mask < 216,
    ensures
        edges_wf(mask),
        row_wf(TRI_ROWS_192[mask - 192], EDGE_TABLE[mask] as int),
{
    reveal(edges_wf);
    reveal(row_wf);
    reveal(entry_wf);
    assert(edges_wf(208) && row_wf(TRI_ROWS_192[16], EDGE_TABLE[208] as int));
    assert(edges_wf(209) && row_wf(TRI_ROWS_192[17], EDGE_TABLE[209] as int));
    assert(edges_wf(210) && row_wf(TRI_ROWS_192[18], EDGE_TABLE[210] as int));
    assert(edges_wf(211) && row_wf(TRI_ROWS_192[19], EDGE_TABLE[211] as int));
    assert(edges_wf(212) && row_wf(TRI_ROWS_192[20], EDGE_TABLE[212] as int));
    assert(edges_wf(213) && row_wf(TRI_ROWS_192[21], EDGE_TABLE[213] as int));
    assert(edges_wf(214) && row_wf(TRI_ROWS_192[22], EDGE_TABLE[214] as int));
    assert(edges_wf(215) && row_wf(TRI_ROWS_192[23], EDGE_TABLE[215] as int));
}

proof fn lemma_rows_216_to_223(mask: int)
    requires
        216 <= mask < 224,
    ensures
        edges_wf(mask),
        row_wf(TRI_ROWS_192[mask - 192], EDGE_TABLE[mask] as int),
{
    reveal(edges_wf);
    reveal(row_wf);
    reveal(entry_wf);
    assert(edges_wf(216) && row_wf(TRI_ROWS_192[24], EDGE_TABLE[216] as int));
    assert(edges_wf(217) && row_wf(TRI_ROWS_192[25], EDGE_TABLE[217] as int));
    assert(edges_wf(218) && row_wf(TRI_ROWS_192[26], EDGE_TABLE[218] as int));
    assert(edges_wf(219) && row_wf(TRI_ROWS_192[27], EDGE_TABLE[219] as int));
    assert(edges_wf(220) && row_wf(TRI_ROWS_192[28], EDGE_TABLE[220] as int));
    assert(edges_wf(221) && row_wf(TRI_ROWS_192[29], EDGE_TABLE[221] as int));
    assert(edges_wf(222) && row_wf(TRI_ROWS_192[30], EDGE_TABLE[222] as int));
    assert(edges_wf(223) && row_wf(TRI_ROWS_192[31], EDGE_TABLE[223] as int));
}

/// Every row of this block is well formed for the edge mask of its corner
/// mask, and that edge mask is right.
pub proof fn lemma_rows(mask: int)
    requires
        192 <= mask < 224,
    ensures
        edges_wf(mask),
        row_wf(TRI_ROWS_192[mask - 192], EDGE_TABLE[mask] as int),
{
    if mask < 200 {
        lemma_rows_192_to_199(mask);
    } else if mask < 208 {
        lemma_rows_200_to_207(mask);
    } else if mask < 216 {
        lemma_rows_208_to_215(mask);
    } else {
        lemma_rows_216_to_223(mask);
    }
}

} // verus!

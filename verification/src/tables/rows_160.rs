//! The triangle rows of the corner masks 160 to 191.
use vstd::prelude::*;
use crate::tables::{edges_wf, entry_wf, row_wf, EDGE_TABLE};

verus! {

/// Row `i` holds the triangles of corner mask `160 + i`: up to five triangles
/// as edge indices, closed by `-1`.
pub const TRI_ROWS_160: [[i8; 16]; 32] = [
    [4, 9, 5, 7, 6, 11, -1, -1, -1, -1, -1, -1, -1, -1, -1, -1],
    [0, 8, 3, 4, 9, 5, 11, 7, 6, -1, -1, -1, -1, -1, -1, -1],
    [5, 0, 1, 5, 4, 0, 7, 6, 11, -1, -1, -1, -1, -1, -1, -1],
    [11, 7, 6, 8, 3, 4, 3, 5, 4, 3, 1, 5, -1, -1, -1, -1],
    [9, 5, 4, 10, 1, 2, 7, 6, 11, -1, -1, -1, -1, -1, -1, -1],
    [6, 11, 7, 1, 2, 10, 0, 8, 3, 4, 9, 5, -1, -1, -1, -1],
    [7, 6, 11, 5, 4, 10, 4, 2, 10, 4, 0, 2, -1, -1, -1, -1],
    [3, 4, 8, 3, 5, 4, 3, 2, 5, 10, 5, 2, 11, 7, 6, -1],
    [7, 2, 3, 7, 6, 2, 5, 4, 9, -1, -1, -1, -1, -1, -1, -1],
    [9, 5, 4, 0, 8, 6, 0, 6, 2, 6, 8, 7, -1, -1, -1, -1],
    [3, 6, 2, 3, 7, 6, 1, 5, 0, 5, 4, 0, -1, -1, -1, -1],
    [6, 2, 8, 6, 8, 7, 2, 1, 8, 4, 8, 5, 1, 5, 8, -1],
    [9, 5, 4, 10, 1, 6, 1, 7, 6, 1, 3, 7, -1, -1, -1, -1],
    [1, 6, 10, 1, 7, 6, 1, 0, 7, 8, 7, 0, 9, 5, 4, -1],
    [4, 0, 10, 4, 10, 5, 0, 3, 10, 6, 10, 7, 3, 7, 10, -1],
    [7, 6, 10, 7, 10, 8, 5, 4, 10, 4, 8, 10, -1, -1, -1, -1],
    [6, 9, 5, 6, 11, 9, 11, 8, 9, -1, -1, -1, -1, -1, -1, -1],
    [3, 6, 11, 0, 6, 3, 0, 5, 6, 0, 9, 5, -1, -1, -1, -1],
    [0, 11, 8, 0, 5, 11, 0, 1, 5, 5, 6, 11, -1, -1, -1, -1],
    [6, 11, 3, 6, 3, 5, 5, 3, 1, -1, -1, -1, -1, -1, -1, -1],
    [1, 2, 10, 9, 5, 11, 9, 11, 8, 11, 5, 6, -1, -1, -1, -1],
    [0, 11, 3, 0, 6, 11, 0, 9, 6, 5, 6, 9, 1, 2, 10, -1],
    [11, 8, 5, 11, 5, 6, 8, 0, 5, 10, 5, 2, 0, 2, 5, -1],
    [6, 11, 3, 6, 3, 5, 2, 10, 3, 10, 5, 3, -1, -1, -1, -1],
    [5, 8, 9, 5, 2, 8, 5, 6, 2, 3, 8, 2, -1, -1, -1, -1],
    [9, 5, 6, 9, 6, 0, 0, 6, 2, -1, -1, -1, -1, -1, -1, -1],
    [1, 5, 8, 1, 8, 0, 5, 6, 8, 3, 8, 2, 6, 2, 8, -1],
    [1, 5, 6, 2, 1, 6, -1, -1, -1, -1, -1, -1, -1, -1, -1, -1],
    [1, 3, 6, 1, 6, 10, 3, 8, 6, 5, 6, 9, 8, 9, 6, -1],
    [10, 1, 0, 10, 0, 6, 9, 5, 0, 5, 6, 0, -1, -1, -1, -1],
    [0, 3, 8, 5, 6, 10, -1, -1, -1, -1, -1, -1, -1, -1, -1, -1],
    [10, 5, 6, -1, -1, -1, -1, -1, -1, -1, -1, -1, -1, -1, -1, -1],
];

proof fn lemma_rows_160_to_167(mask: int)
    requires
        160 <= mask < 168,
    ensures
        edges_wf(mask),
        row_wf(TRI_ROWS_160[mask - 160], EDGE_TABLE[mask] as int),
{
    reveal(edges_wf);
    reveal(row_wf);
    reveal(entry_wf);
    assert(edges_wf(160) && row_wf(TRI_ROWS_160[0], EDGE_TABLE[160] as int));
    assert(edges_wf(161) && row_wf(TRI_ROWS_160[1], EDGE_TABLE[161] as int));
    assert(edges_wf(162) && row_wf(TRI_ROWS_160[2], EDGE_TABLE[162] as int));
    assert(edges_wf(163) && row_wf(TRI_ROWS_160[3], EDGE_TABLE[163] as int));
    assert(edges_wf(164) && row_wf(TRI_ROWS_160[4], EDGE_TABLE[164] as int));
    assert(edges_wf(165) && row_wf(TRI_ROWS_160[5], EDGE_TABLE[165] as int));
    assert(edges_wf(166) && row_wf(TRI_ROWS_160[6], EDGE_TABLE[166] as int));
    assert(edges_wf(167) && row_wf(TRI_ROWS_160[7], EDGE_TABLE[167] as int));
}

proof fn lemma_rows_168_to_175(mask: int)
    requires
        168 <= mask < 176,
    ensures
        edges_wf(mask),
        row_wf(TRI_ROWS_160[mask - 160], EDGE_TABLE[mask] as int),
{
    reveal(edges_wf);
    reveal(row_wf);
    reveal(entry_wf);
    assert(edges_wf(168) && row_wf(TRI_ROWS_160[8], EDGE_TABLE[168] as int));
    assert(edges_wf(169) && row_wf(TRI_ROWS_160[9], EDGE_TABLE[169] as int));
    assert(edges_wf(170) && row_wf(TRI_ROWS_160[10], EDGE_TABLE[170] as int));
    assert(edges_wf(171) && row_wf(TRI_ROWS_160[11], EDGE_TABLE[171] as int));
    assert(edges_wf(172) && row_wf(TRI_ROWS_160[12], EDGE_TABLE[172] as int));
    assert(edges_wf(173) && row_wf(TRI_ROWS_160[13], EDGE_TABLE[173] as int));
    assert(edges_wf(174) && row_wf(TRI_ROWS_160[14], EDGE_TABLE[174] as int));
    assert(edges_wf(175) && row_wf(TRI_ROWS_160[15], EDGE_TABLE[175] as int));
}

proof fn lemma_rows_176_to_183(mask: int)
    requires
        176 <= mask < 184,
    ensures
        edges_wf(mask),
        row_wf(TRI_ROWS_160[mask - 160], EDGE_TABLE[mask] as int),
{
    reveal(edges_wf);
    reveal(row_wf);
    reveal(entry_wf);
    assert(edges_wf(176) && row_wf(TRI_ROWS_160[16], EDGE_TABLE[176] as int));
    assert(edges_wf(177) && row_wf(TRI_ROWS_160[17], EDGE_TABLE[177] as int));
    assert(edges_wf(178) && row_wf(TRI_ROWS_160[18], EDGE_TABLE[178] as int));
    assert(edges_wf(179) && row_wf(TRI_ROWS_160[19], EDGE_TABLE[179] as int));
    assert(edges_wf(180) && row_wf(TRI_ROWS_160[20], EDGE_TABLE[180] as int));
    assert(edges_wf(181) && row_wf(TRI_ROWS_160[21], EDGE_TABLE[181] as int));
    assert(edges_wf(182) && row_wf(TRI_ROWS_160[22], EDGE_TABLE[182] as int));
    assert(edges_wf(183) && row_wf(TRI_ROWS_160[23], EDGE_TABLE[183] as int));
}

proof fn lemma_rows_184_to_191(mask: int)
    requires
        184 <= mask < 192,
    ensures
        edges_wf(mask),
        row_wf(TRI_ROWS_160[mask - 160], EDGE_TABLE[mask] as int),
{
    reveal(edges_wf);
    reveal(row_wf);
    reveal(entry_wf);
    assert(edges_wf(184) && row_wf(TRI_ROWS_160[24], EDGE_TABLE[184] as int));
    assert(edges_wf(185) && row_wf(TRI_ROWS_160[25], EDGE_TABLE[185] as int));
    assert(edges_wf(186) && row_wf(TRI_ROWS_160[26], EDGE_TABLE[186] as int));
    assert(edges_wf(187) && row_wf(TRI_ROWS_160[27], EDGE_TABLE[187] as int));
    assert(edges_wf(188) && row_wf(TRI_ROWS_160[28], EDGE_TABLE[188] as int));
    assert(edges_wf(189) && row_wf(TRI_ROWS_160[29], EDGE_TABLE[189] as int));
    assert(edges_wf(190) && row_wf(TRI_ROWS_160[30], EDGE_TABLE[190] as int));
    assert(edges_wf(191) && row_wf(TRI_ROWS_160[31], EDGE_TABLE[191] as int));
}

/// Every row of this block is well formed for the edge mask of its corner
/// mask, and that edge mask is right.
pub proof fn lemma_rows(mask: int)
    requires
        160 <= mask < 192,
    ensures
        edges_wf(mask),
        row_wf(TRI_ROWS_160[mask - 160], EDGE_TABLE[mask] as int),
{
    if mask < 168 {
        lemma_rows_160_to_167(mask);
    } else if mask < 176 {
        lemma_rows_168_to_175(mask);
    } else if mask < 184 {
        lemma_rows_176_to_183(mask);
    } else {
        lemma_rows_184_to_191(mask);
    }
}

} // verus!

//! The triangle rows of the corner masks 96 to 127.
use vstd::prelude::*;
use crate::tables::{edges_wf, entry_wf, row_wf, EDGE_TABLE};

verus! {

/// Row `i` holds the triangles of corner mask `96 + i`: up to five triangles
/// as edge indices, closed by `-1`.
pub const TRI_ROWS_096: [[i8; 16]; 32] = [
    [10, 4, 9, 6, 4, 10, -1, -1, -1, -1, -1, -1, -1, -1, -1, -1],
    [4, 10, 6, 4, 9, 10, 0, 8, 3, -1, -1, -1, -1, -1, -1, -1],
    [10, 0, 1, 10, 6, 0, 6, 4, 0, -1, -1, -1, -1, -1, -1, -1],
    [8, 3, 1, 8, 1, 6, 8, 6, 4, 6, 1, 10, -1, -1, -1, -1],
    [1, 4, 9, 1, 2, 4, 2, 6, 4, -1, -1, -1, -1, -1, -1, -1],
    [3, 0, 8, 1, 2, 9, 2, 4, 9, 2, 6, 4, -1, -1, -1, -1],
    [0, 2, 4, 4, 2, 6, -1, -1, -1, -1, -1, -1, -1, -1, -1, -1],
    [8, 3, 2, 8, 2, 4, 4, 2, 6, -1, -1, -1, -1, -1, -1, -1],
    [10, 4, 9, 10, 6, 4, 11, 2, 3, -1, -1, -1, -1, -1, -1, -1],
    [0, 8, 2, 2, 8, 11, 4, 9, 10, 4, 10, 6, -1, -1, -1, -1],
    [3, 11, 2, 0, 1, 6, 0, 6, 4, 6, 1, 10, -1, -1, -1, -1],
    [6, 4, 1, 6, 1, 10, 4, 8, 1, 2, 1, 11, 8, 11, 1, -1],
    [9, 6, 4, 9, 3, 6, 9, 1, 3, 11, 6, 3, -1, -1, -1, -1],
    [8, 11, 1, 8, 1, 0, 11, 6, 1, 9, 1, 4, 6, 4, 1, -1],
    [3, 11, 6, 3, 6, 0, 0, 6, 4, -1, -1, -1, -1, -1, -1, -1],
    [6, 4, 8, 11, 6, 8, -1, -1, -1, -1, -1, -1, -1, -1, -1, -1],
    [7, 10, 6, 7, 8, 10, 8, 9, 10, -1, -1, -1, -1, -1, -1, -1],
    [0, 7, 3, 0, 10, 7, 0, 9, 10, 6, 7, 10, -1, -1, -1, -1],
    [10, 6, 7, 1, 10, 7, 1, 7, 8, 1, 8, 0, -1, -1, -1, -1],
    [10, 6, 7, 10, 7, 1, 1, 7, 3, -1, -1, -1, -1, -1, -1, -1],
    [1, 2, 6, 1, 6, 8, 1, 8, 9, 8, 6, 7, -1, -1, -1, -1],
    [2, 6, 9, 2, 9, 1, 6, 7, 9, 0, 9, 3, 7, 3, 9, -1],
    [7, 8, 0, 7, 0, 6, 6, 0, 2, -1, -1, -1, -1, -1, -1, -1],
    [7, 3, 2, 6, 7, 2, -1, -1, -1, -1, -1, -1, -1, -1, -1, -1],
    [2, 3, 11, 10, 6, 8, 10, 8, 9, 8, 6, 7, -1, -1, -1, -1],
    [2, 0, 7, 2, 7, 11, 0, 9, 7, 6, 7, 10, 9, 10, 7, -1],
    [1, 8, 0, 1, 7, 8, 1, 10, 7, 6, 7, 10, 2, 3, 11, -1],
    [11, 2, 1, 11, 1, 7, 10, 6, 1, 6, 7, 1, -1, -1, -1, -1],
    [8, 9, 6, 8, 6, 7, 9, 1, 6, 11, 6, 3, 1, 3, 6, -1],
    [0, 9, 1, 11, 6, 7, -1, -1, -1, -1, -1, -1, -1, -1, -1, -1],
    [7, 8, 0, 7, 0, 6, 3, 11, 0, 11, 6, 0, -1, -1, -1, -1],
    [7, 11, 6, -1, -1, -1, -1, -1, -1, -1, -1, -1, -1, -1, -1, -1],
];

proof fn lemma_rows_096_to_103(mask: int)
    requires
        96 <= mask < 104,
    ensures
        edges_wf(mask),
        row_wf(TRI_ROWS_096[mask - 96], EDGE_TABLE[mask] as int),
{
    reveal(edges_wf);
    reveal(row_wf);
    reveal(entry_wf);
    assert(edges_wf(96) && row_wf(TRI_ROWS_096[0], EDGE_TABLE[96] as int));
    assert(edges_wf(97) && row_wf(TRI_ROWS_096[1], EDGE_TABLE[97] as int));
    assert(edges_wf(98) && row_wf(TRI_ROWS_096[2], EDGE_TABLE[98] as int));
    assert(edges_wf(99) && row_wf(TRI_ROWS_096[3], EDGE_TABLE[99] as int));
    assert(edges_wf(100) && row_wf(TRI_ROWS_096[4], EDGE_TABLE[100] as int));
    assert(edges_wf(101) && row_wf(TRI_ROWS_096[5], EDGE_TABLE[101] as int));
    assert(edges_wf(102) && row_wf(TRI_ROWS_096[6], EDGE_TABLE[102] as int));
    assert(edges_wf(103) && row_wf(TRI_ROWS_096[7], EDGE_TABLE[103] as int));
}

proof fn lemma_rows_104_to_111(mask: int)
    requires
        104 <= mask < 112,
    ensures
        edges_wf(mask),
        row_wf(TRI_ROWS_096[mask - 96], EDGE_TABLE[mask] as int),
{
    reveal(edges_wf);
    reveal(row_wf);
    reveal(entry_wf);
    assert(edges_wf(104) && row_wf(TRI_ROWS_096[8], EDGE_TABLE[104] as int));
    assert(edges_wf(105) && row_wf(TRI_ROWS_096[9], EDGE_TABLE[105] as int));
    assert(edges_wf(106) && row_wf(TRI_ROWS_096[10], EDGE_TABLE[106] as int));
    assert(edges_wf(107) && row_wf(TRI_ROWS_096[11], EDGE_TABLE[107] as int));
    assert(edges_wf(108) && row_wf(TRI_ROWS_096[12], EDGE_TABLE[108] as int));
    assert(edges_wf(109) && row_wf(TRI_ROWS_096[13], EDGE_TABLE[109] as int));
    assert(edges_wf(110) && row_wf(TRI_ROWS_096[14], EDGE_TABLE[110] as int));
    assert(edges_wf(111) && row_wf(TRI_ROWS_096[15], EDGE_TABLE[111] as int));
}

proof fn lemma_rows_112_to_119(mask: int)
    requires
        112 <= mask < 120,
    ensures
        edges_wf(mask),
        row_wf(TRI_ROWS_096[mask - 96], EDGE_TABLE[mask] as int),
{
    reveal(edges_wf);
    reveal(row_wf);
    reveal(entry_wf);
    assert(edges_wf(112) && row_wf(TRI_ROWS_096[16], EDGE_TABLE[112] as int));
    assert(edges_wf(113) && row_wf(TRI_ROWS_096[17], EDGE_TABLE[113] as int));
    assert(edges_wf(114) && row_wf(TRI_ROWS_096[18], EDGE_TABLE[114] as int));
    assert(edges_wf(115) && row_wf(TRI_ROWS_096[19], EDGE_TABLE[115] as int));
    assert(edges_wf(116) && row_wf(TRI_ROWS_096[20], EDGE_TABLE[116] as int));
    assert(edges_wf(117) && row_wf(TRI_ROWS_096[21], EDGE_TABLE[117] as int));
    assert(edges_wf(118) && row_wf(TRI_ROWS_096[22], EDGE_TABLE[118] as int));
    assert(edges_wf(119) && row_wf(TRI_ROWS_096[23], EDGE_TABLE[119] as int));
}

proof fn lemma_rows_120_to_127(mask: int)
    requires
        120 <= mask < 128,
    ensures
        edges_wf(mask),
        row_wf(TRI_ROWS_096[mask - 96], EDGE_TABLE[mask] as int),
{
    reveal(edges_wf);
    reveal(row_wf);
    reveal(entry_wf);
    assert(edges_wf(120) && row_wf(TRI_ROWS_096[24], EDGE_TABLE[120] as int));
    assert(edges_wf(121) && row_wf(TRI_ROWS_096[25], EDGE_TABLE[121] as int));
    assert(edges_wf(122) && row_wf(TRI_ROWS_096[26], EDGE_TABLE[122] as int));
    assert(edges_wf(123) && row_wf(TRI_ROWS_096[27], EDGE_TABLE[123] as int));
    assert(edges_wf(124) && row_wf(TRI_ROWS_096[28], EDGE_TABLE[124] as int));
    assert(edges_wf(125) && row_wf(TRI_ROWS_096[29], EDGE_TABLE[125] as int));
    assert(edges_wf(126) && row_wf(TRI_ROWS_096[30], EDGE_TABLE[126] as int));
    assert(edges_wf(127) && row_wf(TRI_ROWS_096[31], EDGE_TABLE[127] as int));
}

/// Every row of this block is well formed for the edge mask of its corner
/// mask, and that edge mask is right.
pub proof fn lemma_rows(mask: int)
    requires
        96 <= mask < 128,
    ensures
        edges_wf(mask),
        row_wf(TRI_ROWS_096[mask - 96], EDGE_TABLE[mask] as int),
{
    if mask < 104 {
        lemma_rows_096_to_103(mask);
    } else if mask < 112 {
        lemma_rows_104_to_111(mask);
    } else if mask < 120 {
        lemma_rows_112_to_119(mask);
    } else {
        lemma_rows_120_to_127(mask);
    }
}

} // verus!

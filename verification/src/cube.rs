//! The geometry of one cube: how its eight corners and twelve edges are
//! numbered, and how a set of corners or of edges is held in a mask.
//!
//! Corners 0 to 3 go round the bottom face, corners 4 to 7 round the top face
//! above them. Edges 0 to 3 go round the bottom face, edges 4 to 7 round the
//! top face, and edges 8 to 11 join the two faces.
use vstd::prelude::*;

verus! {

/// Whether bit `i` of `mask` is set, for the twelve bits that a mask can have.
pub open spec fn bit_set(mask: int, i: int) -> bool {
    if i == 0 {
        mask % 2 == 1
    } else if i == 1 {
        (mask / 2) % 2 == 1
    } else if i == 2 {
        (mask / 4) % 2 == 1
    } else if i == 3 {
        (mask / 8) % 2 == 1
    } else if i == 4 {
        (mask / 16) % 2 == 1
    } else if i == 5 {
        (mask / 32) % 2 == 1
    } else if i == 6 {
        (mask / 64) % 2 == 1
    } else if i == 7 {
        (mask / 128) % 2 == 1
    } else if i == 8 {
        (mask / 256) % 2 == 1
    } else if i == 9 {
        (mask / 512) % 2 == 1
    } else if i == 10 {
        (mask / 1024) % 2 == 1
    } else {
        (mask / 2048) % 2 == 1
    }
}

/// Offset along x of corner `c` from the cube's first corner.
pub open spec fn corner_dx(c: int) -> int {
    if c == 1 || c == 2 || c == 5 || c == 6 {
        1
    } else {
        0
    }
}

/// Offset along y of corner `c` from the cube's first corner.
pub open spec fn corner_dy(c: int) -> int {
    if c >= 4 {
        1
    } else {
        0
    }
}

/// Offset along z of corner `c` from the cube's first corner.
pub open spec fn corner_dz(c: int) -> int {
    if c == 2 || c == 3 || c == 6 || c == 7 {
        1
    } else {
        0
    }
}

/// The corner at which edge `e` starts.
pub open spec fn edge_start(e: int) -> int {
    if e == 0 || e == 8 {
        0
    } else if e == 1 || e == 9 {
        1
    } else if e == 2 || e == 10 {
        2
    } else if e == 3 || e == 11 {
        3
    } else if e == 4 {
        4
    } else if e == 5 {
        5
    } else if e == 6 {
        6
    } else {
        7
    }
}

/// The corner at which edge `e` ends.
pub open spec fn edge_end(e: int) -> int {
    if e == 3 {
        0
    } else if e == 0 {
        1
    } else if e == 1 {
        2
    } else if e == 2 {
        3
    } else if e == 7 || e == 8 {
        4
    } else if e == 4 || e == 9 {
        5
    } else if e == 5 || e == 10 {
        6
    } else {
        7
    }
}

/// Whether the two ends of edge `e` lie on different sides of the surface in a
/// cube with corner mask `mask`.
pub open spec fn edge_crossed(mask: int, e: int) -> bool {
    bit_set(mask, edge_start(e)) != bit_set(mask, edge_end(e))
}

/// 1 if `b` holds, else 0.
pub open spec fn bit_of(b: bool) -> int {
    if b {
        1
    } else {
        0
    }
}

/// The mask whose bit `c` is set exactly when `inside[c]` holds, for eight
/// corners.
pub open spec fn mask_of_corners(inside: Seq<bool>) -> int
    recommends
        inside.len() == 8,
{
    bit_of(inside[0]) + 2 * bit_of(inside[1]) + 4 * bit_of(inside[2]) + 8 * bit_of(inside[3]) + 16
        * bit_of(inside[4]) + 32 * bit_of(inside[5]) + 64 * bit_of(inside[6]) + 128 * bit_of(
        inside[7],
    )
}

/// Bit `c` of the mask of eight corners says whether corner `c` is inside,
/// and the mask is less than 256.
pub proof fn lemma_mask_of_corners(inside: Seq<bool>, c: int)
    requires
        0 <= c < 8,
    ensures
        0 <= mask_of_corners(inside) < 256,
        bit_set(mask_of_corners(inside), c) == inside[c],
{
    let m = mask_of_corners(inside);
    let t0 = bit_of(inside[0]);
    let t1 = bit_of(inside[1]);
    let t2 = bit_of(inside[2]);
    let t3 = bit_of(inside[3]);
    let t4 = bit_of(inside[4]);
    let t5 = bit_of(inside[5]);
    let t6 = bit_of(inside[6]);
    let t7 = bit_of(inside[7]);
    let s6 = t6 + 2 * t7;
    let s5 = t5 + 2 * s6;
    let s4 = t4 + 2 * s5;
    let s3 = t3 + 2 * s4;
    let s2 = t2 + 2 * s3;
    let s1 = t1 + 2 * s2;
    assert(m == t0 + 2 * s1);
    assert(m == t0 + 2 * t1 + 4 * s2);
    assert(m == t0 + 2 * t1 + 4 * t2 + 8 * s3);
    assert(m == t0 + 2 * t1 + 4 * t2 + 8 * t3 + 16 * s4);
    assert(m == t0 + 2 * t1 + 4 * t2 + 8 * t3 + 16 * t4 + 32 * s5);
    assert(m == t0 + 2 * t1 + 4 * t2 + 8 * t3 + 16 * t4 + 32 * t5 + 64 * s6);
    if c == 0 {
        assert(m % 2 == t0);
    } else if c == 1 {
        assert(m / 2 == s1);
    } else if c == 2 {
        assert(m / 4 == s2);
    } else if c == 3 {
        assert(m / 8 == s3);
    } else if c == 4 {
        assert(m / 16 == s4);
    } else if c == 5 {
        assert(m / 32 == s5);
    } else if c == 6 {
        assert(m / 64 == s6);
    } else {
        assert(m / 128 == t7);
    }
}

} // verus!

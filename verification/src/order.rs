//! Which chunks should exist around an observer, and in which order the
//! missing ones are made.
//!
//! Everything here is stated in chunk-grid coordinates: the chunk with grid
//! coordinate `g` is rooted at the world cell `g * resolution`. The desired
//! chunks fill a cube around the observer's chunk, and the missing ones are
//! made nearest first, ties going to the one that comes first when the cube is
//! walked with x slowest and z fastest.
use vstd::prelude::*;
use vstd::arithmetic::div_mod::lemma_fundamental_div_mod_converse;
use crate::coord::Coord;
use crate::density::{
    cell_count,
    cell_of,
    flat_index,
    lemma_index_then_inverse,
    lemma_inverse_then_index,
    DensityField,
    MAX_RESOLUTION,
};

verus! {

/// The largest spawn radius, in chunks. With it the number of desired chunks
/// fits every `usize`.
pub const MAX_SPAWN_RADIUS: i32 = 512;

/// The grid coordinate of the chunk that holds the world cell `p`: `p`
/// divided by the resolution, rounded down, on each axis.
pub open spec fn chunk_of(p: Coord, resolution: int) -> Coord {
    Coord {
        x: (p.x as int / resolution) as i32,
        y: (p.y as int / resolution) as i32,
        z: (p.z as int / resolution) as i32,
    }
}

/// The world cell at which the chunk with grid coordinate `g` is rooted.
pub open spec fn origin_of(g: Coord, resolution: int) -> Coord {
    Coord {
        x: (g.x * resolution) as i32,
        y: (g.y * resolution) as i32,
        z: (g.z * resolution) as i32,
    }
}

/// Whether the grid coordinate `g` lies in the cube of desired chunks around
/// `center`: from `center - radius` up to, but not including,
/// `center + radius` on each axis.
pub open spec fn in_desired(center: Coord, radius: int, g: Coord) -> bool {
    &&& center.x - radius <= g.x < center.x + radius
    &&& center.y - radius <= g.y < center.y + radius
    &&& center.z - radius <= g.z < center.z + radius
}

/// Whether all chunks desired around `center` can exist: the samples of each
/// have world coordinates that fit their type.
pub open spec fn streamable(center: Coord, radius: int, resolution: int) -> bool {
    radius == 0 || {
        &&& i32::MIN <= (center.x - radius) * resolution
        &&& (center.x + radius) * resolution <= i32::MAX
        &&& i32::MIN <= (center.y - radius) * resolution
        &&& (center.y + radius) * resolution <= i32::MAX
        &&& i32::MIN <= (center.z - radius) * resolution
        &&& (center.z + radius) * resolution <= i32::MAX
    }
}

/// Whether a chunk rooted at `origin` is one of those desired around
/// `center`.
pub open spec fn desired_origin(center: Coord, radius: int, resolution: int, origin: Coord) -> bool {
    exists|g: Coord| in_desired(center, radius, g) && #[trigger] origin_of(g, resolution) == origin
}

/// The smaller of two numbers.
pub open spec fn min(a: int, b: int) -> int {
    if a <= b {
        a
    } else {
        b
    }
}

/// Whether the cube of chunks desired around `center` has grid coordinates
/// that fit their type.
pub open spec fn in_reach(center: Coord, radius: int) -> bool {
    &&& 0 <= radius
    &&& i32::MIN <= center.x - radius
    &&& center.x + radius <= i32::MAX
    &&& i32::MIN <= center.y - radius
    &&& center.y + radius <= i32::MAX
    &&& i32::MIN <= center.z - radius
    &&& center.z + radius <= i32::MAX
}

/// The desired chunks in the order of the walk.
pub open spec fn walk(center: Coord, radius: int) -> Seq<Coord> {
    Seq::new(
        cell_count(2 * radius - 1) as nat,
        |j: int|
            Coord {
                x: (center.x - radius + cell_of(2 * radius - 1, j).0) as i32,
                y: (center.y - radius + cell_of(2 * radius - 1, j).1) as i32,
                z: (center.z - radius + cell_of(2 * radius - 1, j).2) as i32,
            },
    )
}

/// Whether `a` comes before `b` when the cube is walked with x slowest and z
/// fastest.
pub open spec fn lex_less(a: Coord, b: Coord) -> bool {
    a.x < b.x || (a.x == b.x && (a.y < b.y || (a.y == b.y && a.z < b.z)))
}

/// Whether `a` is made before `b`: it is nearer to `center`, or as near and
/// earlier in the walk.
pub open spec fn nearer(center: Coord, a: Coord, b: Coord) -> bool {
    a.dist2(center) < b.dist2(center) || (a.dist2(center) == b.dist2(center) && lex_less(a, b))
}

/// Whether the sequence is in the order of the walk, with nothing twice.
pub open spec fn ascending_lex(s: Seq<Coord>) -> bool {
    forall|i: int, j: int| 0 <= i < j < s.len() ==> lex_less(#[trigger] s[i], #[trigger] s[j])
}

/// Whether the sequence is in the order of making, with nothing twice.
pub open spec fn ascending_near(center: Coord, s: Seq<Coord>) -> bool {
    forall|i: int, j: int| 0 <= i < j < s.len() ==> nearer(center, #[trigger] s[i], #[trigger] s[j])
}

/// Whether `order` lists the missing chunks in the order of making: it holds
/// exactly the desired grid coordinates whose origin is not live, nearest
/// first.
pub open spec fn is_spawn_order(
    order: Seq<Coord>,
    center: Coord,
    radius: int,
    resolution: int,
    live: Set<Coord>,
) -> bool {
    &&& ascending_near(center, order)
    &&& forall|g: Coord| #[trigger]
        order.contains(g) <==> in_desired(center, radius, g) && !live.contains(
            origin_of(g, resolution),
        )
}

/// The missing chunks in the order of making. [`lemma_spawn_order_unique`]
/// shows that there is only one such sequence.
pub open spec fn spawn_order(center: Coord, radius: int, resolution: int, live: Set<Coord>) -> Seq<
    Coord,
> {
    choose|order: Seq<Coord>| is_spawn_order(order, center, radius, resolution, live)
}

/// Two sequences in the order of making that hold the same coordinates are
/// the same sequence.
pub proof fn lemma_ascending_unique(center: Coord, a: Seq<Coord>, b: Seq<Coord>)
    requires
        ascending_near(center, a),
        ascending_near(center, b),
        forall|g: Coord| a.contains(g) <==> b.contains(g),
    ensures
        a == b,
    decreases a.len(),
{
    if a.len() == 0 {
        if b.len() > 0 {
            assert(b.contains(b[0]));
            assert(a.contains(b[0]));
        }
        assert(a =~= b);
    } else {
        assert(a.contains(a[0]));
        assert(b.contains(a[0]));
        let j = choose|j: int| 0 <= j < b.len() && b[j] == a[0];
        assert(b.contains(b[0]));
        assert(a.contains(b[0]));
        let i = choose|i: int| 0 <= i < a.len() && a[i] == b[0];
        if j > 0 {
            assert(nearer(center, b[0], b[j]));
            if i > 0 {
                assert(nearer(center, a[0], a[i]));
            }
            assert(false);
        }
        let a1 = a.drop_first();
        let b1 = b.drop_first();
        assert forall|g: Coord| a1.contains(g) <==> b1.contains(g) by {
            if a1.contains(g) {
                let k = choose|k: int| 0 <= k < a1.len() && a1[k] == g;
                assert(a[k + 1] == g);
                assert(a.contains(g));
                let l = choose|l: int| 0 <= l < b.len() && b[l] == g;
                if l == 0 {
                    assert(nearer(center, a[0], a[k + 1]));
                    assert(false);
                }
                assert(b1[l - 1] == g);
            }
            if b1.contains(g) {
                let k = choose|k: int| 0 <= k < b1.len() && b1[k] == g;
                assert(b[k + 1] == g);
                assert(b.contains(g));
                let l = choose|l: int| 0 <= l < a.len() && a[l] == g;
                if l == 0 {
                    assert(nearer(center, b[0], b[k + 1]));
                    assert(false);
                }
                assert(a1[l - 1] == g);
            }
        }
        assert(ascending_near(center, a1)) by {
            assert forall|p: int, q: int| 0 <= p < q < a1.len() implies nearer(
                center,
                #[trigger] a1[p],
                #[trigger] a1[q],
            ) by {
                assert(nearer(center, a[p + 1], a[q + 1]));
            }
        }
        assert(ascending_near(center, b1)) by {
            assert forall|p: int, q: int| 0 <= p < q < b1.len() implies nearer(
                center,
                #[trigger] b1[p],
                #[trigger] b1[q],
            ) by {
                assert(nearer(center, b[p + 1], b[q + 1]));
            }
        }
        lemma_ascending_unique(center, a1, b1);
        assert(a.len() == b.len());
        assert forall|k: int| 0 <= k < a.len() implies a[k] == b[k] by {
            if k > 0 {
                assert(a[k] == a1[k - 1]);
                assert(b[k] == b1[k - 1]);
            }
        }
        assert(a =~= b);
    }
}

/// There is only one order of making: a sequence that lists the missing
/// chunks nearest first is [`spawn_order`].
pub proof fn lemma_spawn_order_unique(
    order: Seq<Coord>,
    center: Coord,
    radius: int,
    resolution: int,
    live: Set<Coord>,
)
    requires
        is_spawn_order(order, center, radius, resolution, live),
    ensures
        order == spawn_order(center, radius, resolution, live),
{
    let chosen = spawn_order(center, radius, resolution, live);
    assert(is_spawn_order(chosen, center, radius, resolution, live));
    assert forall|g: Coord| order.contains(g) <==> chosen.contains(g) by {
        assert(order.contains(g) <==> in_desired(center, radius, g) && !live.contains(
            origin_of(g, resolution),
        ));
        assert(chosen.contains(g) <==> in_desired(center, radius, g) && !live.contains(
            origin_of(g, resolution),
        ));
    }
    lemma_ascending_unique(center, order, chosen);
}

/// The walk visits every desired chunk once, and nothing else.
pub proof fn lemma_walk(center: Coord, radius: int)
    requires
        in_reach(center, radius),
    ensures
        walk(center, radius).no_duplicates(),
        forall|g: Coord| #[trigger] walk(center, radius).contains(g) <==> in_desired(center, radius, g),
{
    let w = walk(center, radius);
    let n = 2 * radius - 1;
    if radius == 0 {
        assert(cell_count(n) == 0) by (nonlinear_arith)
            requires
                n == -1,
                cell_count(n) == (n + 1) * (n + 1) * (n + 1),
        ;
    }
    assert forall|i: int, j: int| 0 <= i < w.len() && 0 <= j < w.len() && i != j implies w[i]
        != w[j] by {
        lemma_inverse_then_index(n, i);
        lemma_inverse_then_index(n, j);
    }
    assert forall|g: Coord| #[trigger] w.contains(g) <==> in_desired(center, radius, g) by {
        if w.contains(g) {
            let j = choose|j: int| 0 <= j < w.len() && w[j] == g;
            lemma_inverse_then_index(n, j);
        }
        if in_desired(center, radius, g) {
            let dx = g.x - (center.x - radius);
            let dy = g.y - (center.y - radius);
            let dz = g.z - (center.z - radius);
            lemma_index_then_inverse(n, dx, dy, dz);
            let j = flat_index(n, dx, dy, dz);
            assert(w[j] == g);
        }
    }
}

/// Finds where `x` goes in a sequence that is in the order of making.
proof fn insertion_point(center: Coord, s: Seq<Coord>, x: Coord) -> (at: int)
    requires
        ascending_near(center, s),
        !s.contains(x),
    ensures
        0 <= at <= s.len(),
        forall|k: int| 0 <= k < at ==> nearer(center, #[trigger] s[k], x),
        forall|k: int| at <= k < s.len() ==> nearer(center, x, #[trigger] s[k]),
    decreases s.len(),
{
    if s.len() == 0 {
        0
    } else if nearer(center, x, s[0]) {
        assert forall|k: int| 0 <= k < s.len() implies nearer(center, x, #[trigger] s[k]) by {
            if k > 0 {
                assert(nearer(center, s[0], s[k]));
            }
        }
        0
    } else {
        assert(s.contains(s[0]));
        let t = s.drop_first();
        assert(ascending_near(center, t)) by {
            assert forall|p: int, q: int| 0 <= p < q < t.len() implies nearer(
                center,
                #[trigger] t[p],
                #[trigger] t[q],
            ) by {
                assert(nearer(center, s[p + 1], s[q + 1]));
            }
        }
        assert(!t.contains(x)) by {
            if t.contains(x) {
                let k = choose|k: int| 0 <= k < t.len() && t[k] == x;
                assert(s[k + 1] == x);
            }
        }
        let at = insertion_point(center, t, x);
        assert forall|k: int| 0 <= k < at + 1 implies nearer(center, #[trigger] s[k], x) by {
            if k > 0 {
                assert(nearer(center, t[k - 1], x));
            }
        }
        assert forall|k: int| at + 1 <= k < s.len() implies nearer(center, x, #[trigger] s[k]) by {
            assert(nearer(center, x, t[k - 1]));
        }
        at + 1
    }
}

/// Puts those of `candidates` that `keep` holds of into the order of making.
proof fn sorted_subset(center: Coord, candidates: Seq<Coord>, keep: spec_fn(Coord) -> bool) -> (out:
    Seq<Coord>)
    requires
        candidates.no_duplicates(),
    ensures
        ascending_near(center, out),
        forall|g: Coord| #[trigger] out.contains(g) <==> candidates.contains(g) && keep(g),
    decreases candidates.len(),
{
    if candidates.len() == 0 {
        let out = Seq::<Coord>::empty();
        assert forall|g: Coord| #[trigger] out.contains(g) <==> candidates.contains(g) && keep(g) by {}
        out
    } else {
        let front = candidates.drop_last();
        let x = candidates.last();
        let rest = sorted_subset(center, front, keep);
        assert forall|g: Coord| front.contains(g) <==> candidates.contains(g) && g != x by {
            if front.contains(g) {
                let k = choose|k: int| 0 <= k < front.len() && front[k] == g;
                assert(candidates[k] == g);
            }
            if candidates.contains(g) && g != x {
                let k = choose|k: int| 0 <= k < candidates.len() && candidates[k] == g;
                assert(front[k] == g);
            }
        }
        assert(candidates.contains(x)) by {
            assert(candidates[candidates.len() - 1] == x);
        }
        if keep(x) {
            let at = insertion_point(center, rest, x);
            let out = rest.insert(at, x);
            lemma_insert_contains(rest, at, x);
            assert forall|p: int, q: int| 0 <= p < q < out.len() implies nearer(
                center,
                #[trigger] out[p],
                #[trigger] out[q],
            ) by {
                if q < at {
                    assert(nearer(center, rest[p], rest[q]));
                } else if q == at {
                    assert(nearer(center, rest[p], x));
                } else if p < at {
                    assert(nearer(center, rest[p], rest[q - 1]));
                } else if p == at {
                    assert(nearer(center, x, rest[q - 1]));
                } else {
                    assert(nearer(center, rest[p - 1], rest[q - 1]));
                }
            }
            out
        } else {
            rest
        }
    }
}

/// There always is an order of making: [`spawn_order`] lists the missing
/// chunks nearest first, whatever is live.
pub proof fn lemma_spawn_order_exists(center: Coord, radius: int, resolution: int, live: Set<Coord>)
    requires
        in_reach(center, radius),
    ensures
        is_spawn_order(
            spawn_order(center, radius, resolution, live),
            center,
            radius,
            resolution,
            live,
        ),
{
    lemma_walk(center, radius);
    let keep = |g: Coord| !live.contains(origin_of(g, resolution));
    let out = sorted_subset(center, walk(center, radius), keep);
    assert forall|g: Coord| #[trigger]
        out.contains(g) <==> in_desired(center, radius, g) && !live.contains(
            origin_of(g, resolution),
        ) by {
        assert(out.contains(g) <==> walk(center, radius).contains(g) && keep(g));
    }
    assert(is_spawn_order(out, center, radius, resolution, live));
}

/// Under [`streamable`], the cube of desired chunks is [`in_reach`].
pub proof fn lemma_streamable_in_reach(center: Coord, radius: int, resolution: int)
    requires
        1 <= resolution,
        0 <= radius,
        streamable(center, radius, resolution),
    ensures
        in_reach(center, radius),
{
    if radius > 0 {
        lemma_scaled_outwards(center.x - radius, resolution);
        lemma_scaled_outwards(center.x + radius, resolution);
        lemma_scaled_outwards(center.y - radius, resolution);
        lemma_scaled_outwards(center.y + radius, resolution);
        lemma_scaled_outwards(center.z - radius, resolution);
        lemma_scaled_outwards(center.z + radius, resolution);
    }
}

proof fn lemma_scaled_outwards(a: int, n: int)
    requires
        1 <= n,
    ensures
        a >= 0 ==> a <= a * n,
        a <= 0 ==> a * n <= a,
{
    assert((a >= 0 ==> a <= a * n) && (a <= 0 ==> a * n <= a)) by (nonlinear_arith)
        requires
            1 <= n,
    ;
}

/// Under [`streamable`], every desired chunk can be rooted at its origin, and
/// different grid coordinates have different origins.
pub proof fn lemma_desired_fits(center: Coord, radius: int, resolution: int, g: Coord)
    requires
        1 <= resolution <= MAX_RESOLUTION,
        streamable(center, radius, resolution),
        in_desired(center, radius, g),
    ensures
        origin_of(g, resolution).x == g.x * resolution,
        origin_of(g, resolution).y == g.y * resolution,
        origin_of(g, resolution).z == g.z * resolution,
        DensityField::fits(origin_of(g, resolution), resolution),
{
    lemma_scaled_between(center.x - radius, g.x as int, center.x + radius, resolution);
    lemma_scaled_between(center.y - radius, g.y as int, center.y + radius, resolution);
    lemma_scaled_between(center.z - radius, g.z as int, center.z + radius, resolution);
}

proof fn lemma_scaled_between(lo: int, g: int, hi: int, n: int)
    requires
        lo <= g < hi,
        1 <= n,
    ensures
        lo * n <= g * n,
        g * n + n <= hi * n,
{
    assert(lo * n <= g * n && g * n + n <= hi * n) by (nonlinear_arith)
        requires
            lo <= g,
            g + 1 <= hi,
            1 <= n,
    ;
}

/// Divides `p` by `n`, rounding down.
fn floor_div(p: i32, n: usize) -> (q: i32)
    requires
        1 <= n <= MAX_RESOLUTION,
    ensures
        q == (p as int) / (n as int),
{
    let d: i64 = n as i64;
    let v: i64 = p as i64;
    if v >= 0 {
        (v / d) as i32
    } else {
        let up: i64 = (-v + d - 1) / d;
        let rest: i64 = (-v + d - 1) % d;
        proof {
            assert(-v + d - 1 == d * up + rest) by {
                vstd::arithmetic::div_mod::lemma_fundamental_div_mod(-v + d - 1, d as int);
            }
            assert(v == (-up) * d + (d - 1 - rest)) by (nonlinear_arith)
                requires
                    -v + d - 1 == d * up + rest,
            ;
            lemma_fundamental_div_mod_converse(v as int, d as int, -up as int, d - 1 - rest);
            assert(0 <= up <= -v) by (nonlinear_arith)
                requires
                    -v + d - 1 == d * up + rest,
                    0 <= rest < d,
                    1 <= d,
                    v < 0,
            ;
        }
        (-up) as i32
    }
}

/// Finds the chunk that holds the observer: the observer's world cell divided
/// by the resolution, rounded down, on each axis.
pub fn player_chunk(observer: Coord, resolution: usize) -> (center: Coord)
    requires
        1 <= resolution <= MAX_RESOLUTION,
    ensures
        center == chunk_of(observer, resolution as int),
        center.x == observer.x as int / resolution as int,
        center.y == observer.y as int / resolution as int,
        center.z == observer.z as int / resolution as int,
{
    Coord {
        x: floor_div(observer.x, resolution),
        y: floor_div(observer.y, resolution),
        z: floor_div(observer.z, resolution),
    }
}

/// Decides whether all chunks desired around `center` can exist.
pub fn is_streamable(center: Coord, radius: i32, resolution: usize) -> (b: bool)
    requires
        0 <= radius <= MAX_SPAWN_RADIUS,
        1 <= resolution <= MAX_RESOLUTION,
    ensures
        b == streamable(center, radius as int, resolution as int),
{
    if radius == 0 {
        return true;
    }
    let n: i64 = resolution as i64;
    let r: i64 = radius as i64;
    let lo: i64 = i32::MIN as i64;
    let hi: i64 = i32::MAX as i64;
    proof {
        lemma_product_bound(center.x - radius, n as int);
        lemma_product_bound(center.x + radius, n as int);
        lemma_product_bound(center.y - radius, n as int);
        lemma_product_bound(center.y + radius, n as int);
        lemma_product_bound(center.z - radius, n as int);
        lemma_product_bound(center.z + radius, n as int);
    }
    lo <= (center.x as i64 - r) * n && (center.x as i64 + r) * n <= hi && lo <= (center.y as i64
        - r) * n && (center.y as i64 + r) * n <= hi && lo <= (center.z as i64 - r) * n && (
    center.z as i64 + r) * n <= hi
}

proof fn lemma_product_bound(a: int, n: int)
    requires
        -0x1_0000_0000 <= a <= 0x1_0000_0000,
        1 <= n <= 1024,
    ensures
        -0x400_0000_0000 <= a * n <= 0x400_0000_0000,
{
    assert(-0x400_0000_0000 <= a * n <= 0x400_0000_0000) by (nonlinear_arith)
        requires
            -0x1_0000_0000 <= a <= 0x1_0000_0000,
            1 <= n <= 1024,
    ;
}

/// Computes the world cell at which the chunk with grid coordinate `g` is
/// rooted.
pub fn origin_of_chunk(g: Coord, resolution: usize) -> (origin: Coord)
    requires
        1 <= resolution <= MAX_RESOLUTION,
        i32::MIN <= g.x * resolution <= i32::MAX,
        i32::MIN <= g.y * resolution <= i32::MAX,
        i32::MIN <= g.z * resolution <= i32::MAX,
    ensures
        origin == origin_of(g, resolution as int),
{
    let n: i64 = resolution as i64;
    Coord {
        x: (g.x as i64 * n) as i32,
        y: (g.y as i64 * n) as i32,
        z: (g.z as i64 * n) as i32,
    }
}

/// Decides whether `a` is made before `b`.
pub fn is_nearer(center: Coord, a: Coord, b: Coord) -> (r: bool)
    ensures
        r == nearer(center, a, b),
{
    let da: u128 = a.distance_squared(center);
    let db: u128 = b.distance_squared(center);
    if da != db {
        da < db
    } else {
        a.x < b.x || (a.x == b.x && (a.y < b.y || (a.y == b.y && a.z < b.z)))
    }
}

/// Lists the desired chunks around `center` in the order of the walk: x
/// slowest, z fastest.
pub fn desired_chunks(center: Coord, radius: i32) -> (wanted: Vec<Coord>)
    requires
        in_reach(center, radius as int),
        radius <= MAX_SPAWN_RADIUS,
    ensures
        wanted@ == walk(center, radius as int),
        ascending_lex(wanted@),
        forall|g: Coord| #[trigger] wanted@.contains(g) <==> in_desired(center, radius as int, g),
{
    let mut wanted: Vec<Coord> = Vec::new();
    let x_end: i32 = center.x + radius;
    let y_end: i32 = center.y + radius;
    let z_end: i32 = center.z + radius;
    let ghost n = 2 * radius - 1;
    let ghost all = walk(center, radius as int);
    let mut x: i32 = center.x - radius;
    proof {
        assert(all.take(0) =~= wanted@);
        assert(flat_index(n, 0, 0, 0) == 0) by (nonlinear_arith)
            requires
                flat_index(n, 0, 0, 0) == 0 * ((n + 1) * (n + 1)) + 0 * (n + 1) + 0,
        ;
    }
    while x < x_end
        invariant
            in_reach(center, radius as int),
            radius <= MAX_SPAWN_RADIUS,
            x_end == center.x + radius,
            y_end == center.y + radius,
            z_end == center.z + radius,
            n == 2 * radius - 1,
            all == walk(center, radius as int),
            center.x - radius <= x <= x_end,
            wanted@ == all.take(flat_index(n, x - (center.x - radius), 0, 0)),
            ascending_lex(wanted@),
            forall|g: Coord| #[trigger]
                wanted@.contains(g) <==> in_desired(center, radius as int, g) && g.x < x,
        decreases x_end - x,
    {
        let mut y: i32 = center.y - radius;
        while y < y_end
            invariant
                in_reach(center, radius as int),
                radius <= MAX_SPAWN_RADIUS,
                x_end == center.x + radius,
                y_end == center.y + radius,
                z_end == center.z + radius,
                n == 2 * radius - 1,
                all == walk(center, radius as int),
                center.x - radius <= x < x_end,
                center.y - radius <= y <= y_end,
                wanted@ == all.take(
                    flat_index(n, x - (center.x - radius), y - (center.y - radius), 0),
                ),
                ascending_lex(wanted@),
                forall|g: Coord| #[trigger]
                    wanted@.contains(g) <==> in_desired(center, radius as int, g) && (g.x < x || (g.x
                        == x && g.y < y)),
            decreases y_end - y,
        {
            let mut z: i32 = center.z - radius;
            while z < z_end
                invariant
                    in_reach(center, radius as int),
                    radius <= MAX_SPAWN_RADIUS,
                    x_end == center.x + radius,
                    y_end == center.y + radius,
                    z_end == center.z + radius,
                    n == 2 * radius - 1,
                    all == walk(center, radius as int),
                    center.x - radius <= x < x_end,
                    center.y - radius <= y < y_end,
                    center.z - radius <= z <= z_end,
                    wanted@ == all.take(
                        flat_index(
                            n,
                            x - (center.x - radius),
                            y - (center.y - radius),
                            z - (center.z - radius),
                        ),
                    ),
                    ascending_lex(wanted@),
                    forall|g: Coord| #[trigger]
                        wanted@.contains(g) <==> in_desired(center, radius as int, g) && lex_less(
                            g,
                            Coord { x, y, z },
                        ),
                decreases z_end - z,
            {
                let next = Coord { x, y, z };
                let ghost before = wanted@;
                let ghost at = flat_index(
                    n,
                    x - (center.x - radius),
                    y - (center.y - radius),
                    z - (center.z - radius),
                );
                wanted.push(next);
                proof {
                    lemma_index_then_inverse(
                        n,
                        x - (center.x - radius),
                        y - (center.y - radius),
                        z - (center.z - radius),
                    );
                    assert(all[at] == next);
                    assert(all.take(at + 1) =~= all.take(at).push(all[at]));
                    lemma_push_contains(before, next);
                    assert forall|i: int, j: int| 0 <= i < j < wanted@.len() implies lex_less(
                        #[trigger] wanted@[i],
                        #[trigger] wanted@[j],
                    ) by {
                        if j == before.len() {
                            assert(before.contains(before[i]));
                        } else {
                            assert(lex_less(before[i], before[j]));
                        }
                    }
                }
                z = z + 1;
            }
            proof {
                lemma_next_row(n, x - (center.x - radius), y - (center.y - radius));
            }
            y = y + 1;
        }
        proof {
            lemma_next_slab(n, x - (center.x - radius));
        }
        x = x + 1;
    }
    proof {
        lemma_next_slab(n, 2 * radius - 1);
        assert(flat_index(n, 2 * radius as int, 0, 0) == cell_count(n)) by (nonlinear_arith)
            requires
                n == 2 * radius - 1,
                flat_index(n, 2 * radius as int, 0, 0) == 2 * radius * ((n + 1) * (n + 1)) + 0 * (n
                    + 1) + 0,
                cell_count(n) == (n + 1) * (n + 1) * (n + 1),
        ;
        assert(all.take(all.len() as int) =~= all);
    }
    wanted
}

/// The sample after the last of a row is the first of the next row.
proof fn lemma_next_row(n: int, x: int, y: int)
    ensures
        flat_index(n, x, y, n + 1) == flat_index(n, x, y + 1, 0),
{
    assert(x * ((n + 1) * (n + 1)) + y * (n + 1) + (n + 1) == x * ((n + 1) * (n + 1)) + (y + 1) * (n
        + 1) + 0) by (nonlinear_arith);
}

/// The sample after the last of a slab is the first of the next slab.
proof fn lemma_next_slab(n: int, x: int)
    ensures
        flat_index(n, x, n + 1, 0) == flat_index(n, x + 1, 0, 0),
{
    assert(x * ((n + 1) * (n + 1)) + (n + 1) * (n + 1) + 0 == (x + 1) * ((n + 1) * (n + 1)) + 0 * (n
        + 1) + 0) by (nonlinear_arith);
}

/// A sequence with one more element at its end holds what it held before,
/// and that element.
pub proof fn lemma_push_contains(s: Seq<Coord>, x: Coord)
    ensures
        forall|g: Coord| #[trigger] s.push(x).contains(g) <==> s.contains(g) || g == x,
{
    assert forall|g: Coord| #[trigger] s.push(x).contains(g) <==> s.contains(g) || g == x by {
        let t = s.push(x);
        if t.contains(g) {
            let i = choose|i: int| 0 <= i < t.len() && t[i] == g;
            if i < s.len() {
                assert(s[i] == g);
            }
        }
        if s.contains(g) {
            let i = choose|i: int| 0 <= i < s.len() && s[i] == g;
            assert(t[i] == g);
        }
        if g == x {
            assert(t[s.len() as int] == g);
        }
    }
}

/// A sequence with one more element somewhere holds what it held before, and
/// that element.
pub proof fn lemma_insert_contains(s: Seq<Coord>, at: int, x: Coord)
    requires
        0 <= at <= s.len(),
    ensures
        forall|g: Coord| #[trigger] s.insert(at, x).contains(g) <==> s.contains(g) || g == x,
{
    let t = s.insert(at, x);
    assert forall|g: Coord| #[trigger] t.contains(g) <==> s.contains(g) || g == x by {
        if t.contains(g) {
            let i = choose|i: int| 0 <= i < t.len() && t[i] == g;
            if i < at {
                assert(s[i] == g);
            } else if i > at {
                assert(s[i - 1] == g);
            }
        }
        if s.contains(g) {
            let i = choose|i: int| 0 <= i < s.len() && s[i] == g;
            if i < at {
                assert(t[i] == g);
            } else {
                assert(t[i + 1] == g);
            }
        }
        if g == x {
            assert(t[at] == g);
        }
    }
}

/// A sequence with one element taken out holds what it held before, but for
/// that element, if nothing occurs in it twice.
pub proof fn lemma_remove_contains(s: Seq<Coord>, at: int)
    requires
        0 <= at < s.len(),
        s.no_duplicates(),
    ensures
        forall|g: Coord| #[trigger] s.remove(at).contains(g) <==> s.contains(g) && g != s[at],
{
    let t = s.remove(at);
    assert forall|g: Coord| #[trigger] t.contains(g) <==> s.contains(g) && g != s[at] by {
        if t.contains(g) {
            let i = choose|i: int| 0 <= i < t.len() && t[i] == g;
            if i < at {
                assert(s[i] == g);
            } else {
                assert(s[i + 1] == g);
            }
        }
        if s.contains(g) && g != s[at] {
            let i = choose|i: int| 0 <= i < s.len() && s[i] == g;
            if i < at {
                assert(t[i] == g);
            } else {
                assert(t[i - 1] == g);
            }
        }
    }
}

/// Merges two sequences that are in the order of making into one.
fn merge_nearest_first(center: Coord, a: &Vec<Coord>, b: &Vec<Coord>) -> (out: Vec<Coord>)
    requires
        ascending_near(center, a@),
        ascending_near(center, b@),
        forall|i: int, j: int| 0 <= i < a@.len() && 0 <= j < b@.len() ==> a@[i] != b@[j],
        a@.len() + b@.len() <= usize::MAX,
    ensures
        ascending_near(center, out@),
        out@.len() == a@.len() + b@.len(),
        forall|g: Coord| #[trigger] out@.contains(g) <==> a@.contains(g) || b@.contains(g),
{
    let mut out: Vec<Coord> = Vec::new();
    let mut i: usize = 0;
    let mut j: usize = 0;
    while i < a.len() || j < b.len()
        invariant
            ascending_near(center, a@),
            ascending_near(center, b@),
            forall|p: int, q: int| 0 <= p < a@.len() && 0 <= q < b@.len() ==> a@[p] != b@[q],
            a@.len() + b@.len() <= usize::MAX,
            i <= a@.len(),
            j <= b@.len(),
            out@.len() == i + j,
            ascending_near(center, out@),
            forall|k: int, p: int|
                0 <= k < out@.len() && i <= p < a@.len() ==> nearer(
                    center,
                    #[trigger] out@[k],
                    #[trigger] a@[p],
                ),
            forall|k: int, q: int|
                0 <= k < out@.len() && j <= q < b@.len() ==> nearer(
                    center,
                    #[trigger] out@[k],
                    #[trigger] b@[q],
                ),
            forall|g: Coord| #[trigger]
                out@.contains(g) <==> (exists|p: int| 0 <= p < i && a@[p] == g) || (exists|q: int|
                    0 <= q < j && b@[q] == g),
        decreases a@.len() + b@.len() - i - j,
    {
        let take_a: bool = if i >= a.len() {
            false
        } else if j >= b.len() {
            true
        } else {
            is_nearer(center, a[i], b[j])
        };
        let ghost before = out@;
        if take_a {
            let next = a[i];
            out.push(next);
            proof {
                lemma_push_contains(before, next);
                assert forall|k: int, p: int|
                    0 <= k < out@.len() && i + 1 <= p < a@.len() implies nearer(
                    center,
                    #[trigger] out@[k],
                    #[trigger] a@[p],
                ) by {
                    if k == before.len() {
                        assert(nearer(center, a@[i as int], a@[p]));
                    } else {
                        assert(nearer(center, before[k], a@[p]));
                    }
                }
                assert forall|k: int, q: int|
                    0 <= k < out@.len() && j <= q < b@.len() implies nearer(
                    center,
                    #[trigger] out@[k],
                    #[trigger] b@[q],
                ) by {
                    if k == before.len() {
                        assert(nearer(center, next, b@[j as int]));
                        if q > j {
                            assert(nearer(center, b@[j as int], b@[q]));
                        }
                    } else {
                        assert(nearer(center, before[k], b@[q]));
                    }
                }
                assert forall|p: int, q: int| 0 <= p < q < out@.len() implies nearer(
                    center,
                    #[trigger] out@[p],
                    #[trigger] out@[q],
                ) by {
                    if q == before.len() {
                        assert(nearer(center, before[p], a@[i as int]));
                    } else {
                        assert(nearer(center, before[p], before[q]));
                    }
                }
                assert forall|g: Coord| #[trigger]
                    out@.contains(g) <==> (exists|p: int| 0 <= p < i + 1 && a@[p] == g) || (exists|
                        q: int,
                    | 0 <= q < j && b@[q] == g) by {
                    if out@.contains(g) {
                        if g == next {
                            assert(a@[i as int] == g);
                        } else {
                            assert(before.contains(g));
                            if exists|p: int| 0 <= p < i && a@[p] == g {
                                let p = choose|p: int| 0 <= p < i && a@[p] == g;
                                assert(0 <= p < i + 1 && a@[p] == g);
                            }
                        }
                    }
                    if exists|p: int| 0 <= p < i + 1 && a@[p] == g {
                        let p = choose|p: int| 0 <= p < i + 1 && a@[p] == g;
                        if p < i {
                            assert(before.contains(g));
                        }
                    }
                    if exists|q: int| 0 <= q < j && b@[q] == g {
                        assert(before.contains(g));
                    }
                }
            }
            i += 1;
        } else {
            let next = b[j];
            out.push(next);
            proof {
                lemma_push_contains(before, next);
                if i < a@.len() {
                    assert(a@[i as int] != b@[j as int]);
                    assert(nearer(center, next, a@[i as int]));
                }
                assert forall|k: int, p: int|
                    0 <= k < out@.len() && i <= p < a@.len() implies nearer(
                    center,
                    #[trigger] out@[k],
                    #[trigger] a@[p],
                ) by {
                    if k == before.len() {
                        if p > i {
                            assert(nearer(center, a@[i as int], a@[p]));
                        }
                    } else {
                        assert(nearer(center, before[k], a@[p]));
                    }
                }
                assert forall|k: int, q: int|
                    0 <= k < out@.len() && j + 1 <= q < b@.len() implies nearer(
                    center,
                    #[trigger] out@[k],
                    #[trigger] b@[q],
                ) by {
                    if k == before.len() {
                        assert(nearer(center, b@[j as int], b@[q]));
                    } else {
                        assert(nearer(center, before[k], b@[q]));
                    }
                }
                assert forall|p: int, q: int| 0 <= p < q < out@.len() implies nearer(
                    center,
                    #[trigger] out@[p],
                    #[trigger] out@[q],
                ) by {
                    if q == before.len() {
                        assert(nearer(center, before[p], b@[j as int]));
                    } else {
                        assert(nearer(center, before[p], before[q]));
                    }
                }
                assert forall|g: Coord| #[trigger]
                    out@.contains(g) <==> (exists|p: int| 0 <= p < i && a@[p] == g) || (exists|
                        q: int,
                    | 0 <= q < j + 1 && b@[q] == g) by {
                    if out@.contains(g) {
                        if g == next {
                            assert(b@[j as int] == g);
                        } else {
                            assert(before.contains(g));
                            if exists|q: int| 0 <= q < j && b@[q] == g {
                                let q = choose|q: int| 0 <= q < j && b@[q] == g;
                                assert(0 <= q < j + 1 && b@[q] == g);
                            }
                        }
                    }
                    if exists|q: int| 0 <= q < j + 1 && b@[q] == g {
                        let q = choose|q: int| 0 <= q < j + 1 && b@[q] == g;
                        if q < j {
                            assert(before.contains(g));
                        }
                    }
                    if exists|p: int| 0 <= p < i && a@[p] == g {
                        assert(before.contains(g));
                    }
                }
            }
            j += 1;
        }
    }
    proof {
        assert forall|g: Coord| #[trigger] out@.contains(g) <==> a@.contains(g) || b@.contains(g) by {
            if a@.contains(g) {
                let p = choose|p: int| 0 <= p < a@.len() && a@[p] == g;
                assert(0 <= p < i && a@[p] == g);
            }
            if b@.contains(g) {
                let q = choose|q: int| 0 <= q < b@.len() && b@[q] == g;
                assert(0 <= q < j && b@[q] == g);
            }
        }
    }
    out
}

/// Sorts the part of `wanted` from `from` up to `to` into the order of
/// making.
fn sort_range(center: Coord, wanted: &Vec<Coord>, from: usize, to: usize) -> (order: Vec<Coord>)
    requires
        wanted@.no_duplicates(),
        from <= to <= wanted@.len(),
    ensures
        ascending_near(center, order@),
        order@.len() == to - from,
        forall|g: Coord| #[trigger]
            order@.contains(g) <==> exists|k: int| from <= k < to && wanted@[k] == g,
    decreases to - from,
{
    if to - from == 0 {
        let order: Vec<Coord> = Vec::new();
        assert forall|g: Coord| #[trigger]
            order@.contains(g) <==> exists|k: int| from <= k < to && wanted@[k] == g by {}
        order
    } else if to - from == 1 {
        let mut order: Vec<Coord> = Vec::new();
        order.push(wanted[from]);
        proof {
            lemma_push_contains(Seq::<Coord>::empty(), wanted@[from as int]);
            assert forall|g: Coord| #[trigger]
                order@.contains(g) <==> exists|k: int| from <= k < to && wanted@[k] == g by {
                if order@.contains(g) {
                    assert(wanted@[from as int] == g);
                }
            }
        }
        order
    } else {
        let middle: usize = from + (to - from) / 2;
        let low = sort_range(center, wanted, from, middle);
        let high = sort_range(center, wanted, middle, to);
        proof {
            assert forall|i: int, j: int| 0 <= i < low@.len() && 0 <= j < high@.len() implies low@[i]
                != high@[j] by {
                assert(low@.contains(low@[i]));
                assert(high@.contains(high@[j]));
                let p = choose|p: int| from <= p < middle && wanted@[p] == low@[i];
                let q = choose|q: int| middle <= q < to && wanted@[q] == high@[j];
                assert(wanted@[p] != wanted@[q]);
            }
        }
        let order = merge_nearest_first(center, &low, &high);
        proof {
            assert forall|g: Coord| #[trigger]
                order@.contains(g) <==> exists|k: int| from <= k < to && wanted@[k] == g by {
                if low@.contains(g) {
                    let p = choose|p: int| from <= p < middle && wanted@[p] == g;
                    assert(from <= p < to && wanted@[p] == g);
                }
                if high@.contains(g) {
                    let q = choose|q: int| middle <= q < to && wanted@[q] == g;
                    assert(from <= q < to && wanted@[q] == g);
                }
                if exists|k: int| from <= k < to && wanted@[k] == g {
                    let k = choose|k: int| from <= k < to && wanted@[k] == g;
                    if k < middle {
                        assert(low@.contains(g));
                    } else {
                        assert(high@.contains(g));
                    }
                }
            }
        }
        order
    }
}

/// Sorts grid coordinates into the order of making: nearest to `center`
/// first, ties in the order of the walk.
pub fn sort_nearest_first(center: Coord, wanted: &Vec<Coord>) -> (order: Vec<Coord>)
    requires
        wanted@.no_duplicates(),
    ensures
        ascending_near(center, order@),
        order@.len() == wanted@.len(),
        forall|g: Coord| #[trigger] order@.contains(g) <==> wanted@.contains(g),
{
    let order = sort_range(center, wanted, 0, wanted.len());
    proof {
        assert forall|g: Coord| #[trigger] order@.contains(g) <==> wanted@.contains(g) by {
            if order@.contains(g) {
                let k = choose|k: int| 0 <= k < wanted@.len() && wanted@[k] == g;
                assert(wanted@[k] == g);
            }
            if wanted@.contains(g) {
                let k = choose|k: int| 0 <= k < wanted@.len() && wanted@[k] == g;
                assert(0 <= k < wanted@.len() && wanted@[k] == g);
            }
        }
    }
    order
}

} // verus!

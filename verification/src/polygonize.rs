//! The polygonizer: from a density grid to a list of triangles.
//!
//! Each cube of the grid is classified by which of its eight corners lie below
//! the iso-level; the tables then say which edges the surface crosses and how
//! to join the crossings into triangles. A triangle corner is reported as an
//! [`EdgeCrossing`]: the two grid points between which it lies, with their
//! densities. Where on the edge the corner is placed is left to whoever
//! turns the crossings into positions.
use vstd::prelude::*;
use vstd::arithmetic::div_mod::lemma_div_denominator;
use crate::coord::Coord;
use crate::density::{
    cell_of,
    lemma_inverse_then_index,
    Density,
    DensityField,
    FieldView,
};
use crate::cube::{
    bit_of,
    bit_set,
    corner_dx,
    corner_dy,
    corner_dz,
    edge_crossed,
    edge_end,
    edge_start,
    lemma_mask_of_corners,
    mask_of_corners,
};
use crate::tables::{
    edge_mask,
    edge_mask_of,
    lemma_edge_table,
    lemma_triangle_rows,
    row_len,
    tri_at,
    tri_entry,
};

verus! {

/// A corner of a triangle: the point where the surface crosses the grid edge
/// from `start` to `end`. The densities are those of the two grid points.
#[derive(Clone, Copy, Debug, PartialEq, Eq, Structural)]
pub struct EdgeCrossing {
    pub start: Coord,
    pub end: Coord,
    pub start_density: Density,
    pub end_density: Density,
}

/// Whether `(cx, cy, cz)` is the first corner of a cube of the grid.
pub open spec fn in_cubes(resolution: int, cx: int, cy: int, cz: int) -> bool {
    0 <= cx < resolution && 0 <= cy < resolution && 0 <= cz < resolution
}

/// The density at corner `c` of the cube whose first corner is `(cx, cy, cz)`.
pub open spec fn corner_density(f: FieldView, cx: int, cy: int, cz: int, c: int) -> Density {
    f.at(cx + corner_dx(c), cy + corner_dy(c), cz + corner_dz(c))
}

/// The world coordinate of corner `c` of the cube whose first corner is
/// `(cx, cy, cz)`.
pub open spec fn corner_point(f: FieldView, cx: int, cy: int, cz: int, c: int) -> Coord {
    Coord {
        x: (f.origin.x + cx + corner_dx(c)) as i32,
        y: (f.origin.y + cy + corner_dy(c)) as i32,
        z: (f.origin.z + cz + corner_dz(c)) as i32,
    }
}

/// Which corners of a cube lie below the iso-level, in corner order.
pub open spec fn corners_below(f: FieldView, iso: Density, cx: int, cy: int, cz: int) -> Seq<bool> {
    Seq::new(8, |c: int| corner_density(f, cx, cy, cz, c).below(iso))
}

/// The corner mask of a cube: bit `c` is set exactly when the density at
/// corner `c` is less than the iso-level.
pub open spec fn corner_mask(f: FieldView, iso: Density, cx: int, cy: int, cz: int) -> int {
    mask_of_corners(corners_below(f, iso, cx, cy, cz))
}

/// The crossing on edge `e` of the cube whose first corner is `(cx, cy, cz)`.
pub open spec fn crossing(f: FieldView, cx: int, cy: int, cz: int, e: int) -> EdgeCrossing {
    EdgeCrossing {
        start: corner_point(f, cx, cy, cz, edge_start(e)),
        end: corner_point(f, cx, cy, cz, edge_end(e)),
        start_density: corner_density(f, cx, cy, cz, edge_start(e)),
        end_density: corner_density(f, cx, cy, cz, edge_end(e)),
    }
}

/// The triangle corners that one cube contributes, three for each triangle,
/// in the order of its triangle row.
pub open spec fn cube_mesh(f: FieldView, iso: Density, cx: int, cy: int, cz: int) -> Seq<
    EdgeCrossing,
> {
    Seq::new(
        row_len(corner_mask(f, iso, cx, cy, cz)) as nat,
        |k: int| crossing(f, cx, cy, cz, tri_entry(corner_mask(f, iso, cx, cy, cz), k)),
    )
}

/// The number of cubes in a grid with the given resolution.
pub open spec fn cube_count(resolution: int) -> int {
    resolution * resolution * resolution
}

/// The first corner of cube number `n`. Cubes are numbered as samples are,
/// x slowest and z fastest, in a grid that is one shorter along each axis.
pub open spec fn cube_of(resolution: int, n: int) -> (int, int, int) {
    cell_of(resolution - 1, n)
}

/// What the first `n` cubes contribute, in order.
pub open spec fn mesh_prefix(f: FieldView, iso: Density, n: int) -> Seq<EdgeCrossing>
    decreases n,
{
    if n <= 0 {
        Seq::empty()
    } else {
        mesh_prefix(f, iso, n - 1) + cube_mesh(
            f,
            iso,
            cube_of(f.resolution, n - 1).0,
            cube_of(f.resolution, n - 1).1,
            cube_of(f.resolution, n - 1).2,
        )
    }
}

/// The triangle list of a field at an iso-level: every cube's contribution,
/// cube after cube. Three consecutive entries make one triangle.
pub open spec fn mesh_of(f: FieldView, iso: Density) -> Seq<EdgeCrossing> {
    mesh_prefix(f, iso, cube_count(f.resolution))
}

/// Bit `c` of a cube's corner mask says whether corner `c` lies below the
/// iso-level, and the mask is one of the 256 that the tables know.
pub proof fn lemma_corner_mask(f: FieldView, iso: Density, cx: int, cy: int, cz: int, c: int)
    requires
        0 <= c < 8,
    ensures
        0 <= corner_mask(f, iso, cx, cy, cz) < 256,
        bit_set(corner_mask(f, iso, cx, cy, cz), c) == corner_density(f, cx, cy, cz, c).below(iso),
{
    lemma_mask_of_corners(corners_below(f, iso, cx, cy, cz), c);
}

/// A cube contributes whole triangles, five at most.
pub proof fn lemma_cube_mesh_whole_triangles(f: FieldView, iso: Density, cx: int, cy: int, cz: int)
    ensures
        cube_mesh(f, iso, cx, cy, cz).len() % 3 == 0,
        cube_mesh(f, iso, cx, cy, cz).len() <= 15,
{
    lemma_corner_mask(f, iso, cx, cy, cz, 0);
    lemma_triangle_rows(corner_mask(f, iso, cx, cy, cz));
}

/// Every corner of every triangle of a cube lies on an edge whose two ends
/// are on different sides of the iso-level.
pub proof fn lemma_cube_mesh_crosses(f: FieldView, iso: Density, cx: int, cy: int, cz: int, k: int)
    requires
        0 <= k < cube_mesh(f, iso, cx, cy, cz).len(),
    ensures
        cube_mesh(f, iso, cx, cy, cz)[k].start_density.below(iso) != cube_mesh(
            f,
            iso,
            cx,
            cy,
            cz,
        )[k].end_density.below(iso),
{
    let mask = corner_mask(f, iso, cx, cy, cz);
    lemma_corner_mask(f, iso, cx, cy, cz, 0);
    lemma_triangle_rows(mask);
    let e = tri_entry(mask, k);
    assert(edge_crossed(mask, e));
    lemma_corner_mask(f, iso, cx, cy, cz, edge_start(e));
    lemma_corner_mask(f, iso, cx, cy, cz, edge_end(e));
}

/// The triangle list of any number of cubes holds whole triangles.
pub proof fn lemma_mesh_whole_triangles(f: FieldView, iso: Density, n: int)
    ensures
        mesh_prefix(f, iso, n).len() % 3 == 0,
    decreases n,
{
    if n > 0 {
        lemma_mesh_whole_triangles(f, iso, n - 1);
        lemma_cube_mesh_whole_triangles(
            f,
            iso,
            cube_of(f.resolution, n - 1).0,
            cube_of(f.resolution, n - 1).1,
            cube_of(f.resolution, n - 1).2,
        );
    }
}

/// Every entry of the triangle list is a crossing: of the two grid points it
/// lies between, exactly one is below the iso-level.
pub proof fn lemma_mesh_crosses(f: FieldView, iso: Density, n: int, k: int)
    requires
        0 <= k < mesh_prefix(f, iso, n).len(),
    ensures
        mesh_prefix(f, iso, n)[k].start_density.below(iso) != mesh_prefix(
            f,
            iso,
            n,
        )[k].end_density.below(iso),
    decreases n,
{
    if n > 0 {
        let before = mesh_prefix(f, iso, n - 1);
        if k < before.len() {
            lemma_mesh_crosses(f, iso, n - 1, k);
        } else {
            lemma_cube_mesh_crosses(
                f,
                iso,
                cube_of(f.resolution, n - 1).0,
                cube_of(f.resolution, n - 1).1,
                cube_of(f.resolution, n - 1).2,
                k - before.len(),
            );
        }
    }
}

/// A cube whose corners all lie below the iso-level, or of which none does,
/// contributes no triangle; every other cube contributes at least one.
pub proof fn lemma_uniform_cube_is_empty(f: FieldView, iso: Density, cx: int, cy: int, cz: int)
    ensures
        (corner_mask(f, iso, cx, cy, cz) == 0 || corner_mask(f, iso, cx, cy, cz) == 255)
            <==> cube_mesh(f, iso, cx, cy, cz).len() == 0,
{
    lemma_corner_mask(f, iso, cx, cy, cz, 0);
    lemma_triangle_rows(corner_mask(f, iso, cx, cy, cz));
}

/// Reads the densities at the eight corners of a cube, in corner order.
fn cube_values(field: &DensityField, x: usize, y: usize, z: usize) -> (values: [Density; 8])
    requires
        field.wf(),
        in_cubes(field@.resolution, x as int, y as int, z as int),
    ensures
        forall|c: int|
            0 <= c < 8 ==> #[trigger] values[c] == corner_density(
                field@,
                x as int,
                y as int,
                z as int,
                c,
            ),
{
    [
        field.cell(x, y, z),
        field.cell(x + 1, y, z),
        field.cell(x + 1, y, z + 1),
        field.cell(x, y, z + 1),
        field.cell(x, y + 1, z),
        field.cell(x + 1, y + 1, z),
        field.cell(x + 1, y + 1, z + 1),
        field.cell(x, y + 1, z + 1),
    ]
}

/// Computes the world coordinates of the eight corners of a cube, in corner
/// order.
fn cube_corners(field: &DensityField, x: usize, y: usize, z: usize) -> (corners: [Coord; 8])
    requires
        field.wf(),
        in_cubes(field@.resolution, x as int, y as int, z as int),
    ensures
        forall|c: int|
            0 <= c < 8 ==> #[trigger] corners[c] == corner_point(
                field@,
                x as int,
                y as int,
                z as int,
                c,
            ),
{
    [
        field.cell_to_world(x, y, z),
        field.cell_to_world(x + 1, y, z),
        field.cell_to_world(x + 1, y, z + 1),
        field.cell_to_world(x, y, z + 1),
        field.cell_to_world(x, y + 1, z),
        field.cell_to_world(x + 1, y + 1, z),
        field.cell_to_world(x + 1, y + 1, z + 1),
        field.cell_to_world(x, y + 1, z + 1),
    ]
}

/// Sets bit `c` of the mask for every corner `c` whose density is less than
/// the iso-level.
fn mask_of(values: &[Density; 8], iso: Density) -> (mask: u8)
    ensures
        mask as int == bit_of(values[0].below(iso)) + 2 * bit_of(values[1].below(iso)) + 4 * bit_of(
            values[2].below(iso),
        ) + 8 * bit_of(values[3].below(iso)) + 16 * bit_of(values[4].below(iso)) + 32 * bit_of(
            values[5].below(iso),
        ) + 64 * bit_of(values[6].below(iso)) + 128 * bit_of(values[7].below(iso)),
{
    let mut mask: u8 = 0;
    if values[0].is_below(iso) {
        mask = mask + 1;
    }
    if values[1].is_below(iso) {
        mask = mask + 2;
    }
    if values[2].is_below(iso) {
        mask = mask + 4;
    }
    if values[3].is_below(iso) {
        mask = mask + 8;
    }
    if values[4].is_below(iso) {
        mask = mask + 16;
    }
    if values[5].is_below(iso) {
        mask = mask + 32;
    }
    if values[6].is_below(iso) {
        mask = mask + 64;
    }
    if values[7].is_below(iso) {
        mask = mask + 128;
    }
    mask
}

/// The two corners that edge `e` joins.
fn edge_ends(e: usize) -> (ends: (usize, usize))
    requires
        e < 12,
    ensures
        ends.0 == edge_start(e as int),
        ends.1 == edge_end(e as int),
        ends.0 < 8,
        ends.1 < 8,
{
    if e < 3 {
        (e, e + 1)
    } else if e == 3 {
        (3, 0)
    } else if e < 7 {
        (e, e + 1)
    } else if e == 7 {
        (7, 4)
    } else {
        (e - 8, e - 4)
    }
}

/// Tests bit `e` of an edge mask.
fn edge_marked(edges: u16, e: usize) -> (b: bool)
    requires
        e < 12,
    ensures
        b == bit_set(edges as int, e as int),
{
    if e == 0 {
        edges % 2 == 1
    } else if e == 1 {
        (edges / 2) % 2 == 1
    } else if e == 2 {
        (edges / 4) % 2 == 1
    } else if e == 3 {
        (edges / 8) % 2 == 1
    } else if e == 4 {
        (edges / 16) % 2 == 1
    } else if e == 5 {
        (edges / 32) % 2 == 1
    } else if e == 6 {
        (edges / 64) % 2 == 1
    } else if e == 7 {
        (edges / 128) % 2 == 1
    } else if e == 8 {
        (edges / 256) % 2 == 1
    } else if e == 9 {
        (edges / 512) % 2 == 1
    } else if e == 10 {
        (edges / 1024) % 2 == 1
    } else {
        (edges / 2048) % 2 == 1
    }
}

/// Computes the crossing on every edge that `edges` marks. The slots of the
/// other edges hold a filler that is never read.
fn edge_vertices(values: &[Density; 8], corners: &[Coord; 8], edges: u16) -> (vertices: Vec<
    EdgeCrossing,
>)
    ensures
        vertices@.len() == 12,
        forall|e: int|
            0 <= e < 12 && bit_set(edges as int, e) ==> #[trigger] vertices@[e] == (EdgeCrossing {
                start: corners[edge_start(e)],
                end: corners[edge_end(e)],
                start_density: values[edge_start(e)],
                end_density: values[edge_end(e)],
            }),
{
    let filler = EdgeCrossing {
        start: corners[0],
        end: corners[0],
        start_density: values[0],
        end_density: values[0],
    };
    let mut vertices: Vec<EdgeCrossing> = Vec::new();
    let mut e: usize = 0;
    while e < 12
        invariant
            e <= 12,
            vertices@.len() == e,
            forall|j: int|
                0 <= j < e && bit_set(edges as int, j) ==> #[trigger] vertices@[j] == (EdgeCrossing {
                    start: corners[edge_start(j)],
                    end: corners[edge_end(j)],
                    start_density: values[edge_start(j)],
                    end_density: values[edge_end(j)],
                }),
        decreases 12 - e,
    {
        if edge_marked(edges, e) {
            let (a, b) = edge_ends(e);
            vertices.push(
                EdgeCrossing {
                    start: corners[a],
                    end: corners[b],
                    start_density: values[a],
                    end_density: values[b],
                },
            );
        } else {
            vertices.push(filler);
        }
        e += 1;
    }
    vertices
}

/// Appends the triangles of the cube whose first corner is `(x, y, z)` to
/// `mesh`.
pub fn polygonize_cube(
    field: &DensityField,
    iso: Density,
    x: usize,
    y: usize,
    z: usize,
    mesh: &mut Vec<EdgeCrossing>,
)
    requires
        field.wf(),
        in_cubes(field@.resolution, x as int, y as int, z as int),
    ensures
        final(mesh)@ == old(mesh)@ + cube_mesh(field@, iso, x as int, y as int, z as int),
{
    let values = cube_values(field, x, y, z);
    let mask: u8 = mask_of(&values, iso);
    let ghost f = field@;
    let ghost m = mask as int;
    let ghost addition = cube_mesh(f, iso, x as int, y as int, z as int);
    proof {
        let below = corners_below(f, iso, x as int, y as int, z as int);
        assert(below[0] == values[0].below(iso));
        assert(below[1] == values[1].below(iso));
        assert(below[2] == values[2].below(iso));
        assert(below[3] == values[3].below(iso));
        assert(below[4] == values[4].below(iso));
        assert(below[5] == values[5].below(iso));
        assert(below[6] == values[6].below(iso));
        assert(below[7] == values[7].below(iso));
        assert(m == corner_mask(f, iso, x as int, y as int, z as int));
        lemma_mask_of_corners(below, 0);
        lemma_triangle_rows(m);
        lemma_edge_table(m);
    }
    let edges: u16 = edge_mask_of(mask);
    if edges == 0 {
        assert(old(mesh)@ + addition =~= old(mesh)@);
        return ;
    }
    let corners = cube_corners(field, x, y, z);
    let vertices = edge_vertices(&values, &corners, edges);
    let mut idx: usize = 0;
    while tri_at(mask, idx) != -1
        invariant
            m == mask,
            m == corner_mask(f, iso, x as int, y as int, z as int),
            f == field@,
            addition == cube_mesh(f, iso, x as int, y as int, z as int),
            edges as int == edge_mask(m),
            0 <= idx <= row_len(m) <= 15,
            idx % 3 == 0,
            row_len(m) % 3 == 0,
            forall|k: int|
                0 <= k < row_len(m) ==> 0 <= #[trigger] tri_entry(m, k) < 12 && edge_crossed(
                    m,
                    tri_entry(m, k),
                ),
            forall|k: int| row_len(m) <= k < 16 ==> #[trigger] tri_entry(m, k) == -1,
            forall|e: int| 0 <= e < 12 ==> bit_set(edge_mask(m), e) == #[trigger] edge_crossed(m, e),
            vertices@.len() == 12,
            forall|e: int|
                0 <= e < 12 && bit_set(edges as int, e) ==> #[trigger] vertices@[e] == (EdgeCrossing {
                    start: corners[edge_start(e)],
                    end: corners[edge_end(e)],
                    start_density: values[edge_start(e)],
                    end_density: values[edge_end(e)],
                }),
            forall|c: int|
                0 <= c < 8 ==> #[trigger] values[c] == corner_density(f, x as int, y as int, z as int, c),
            forall|c: int|
                0 <= c < 8 ==> #[trigger] corners[c] == corner_point(f, x as int, y as int, z as int, c),
            mesh@ == old(mesh)@ + addition.take(idx as int),
        decreases 16 - idx,
    {
        assert(idx < row_len(m));
        assert(idx + 3 <= row_len(m));
        let e1: usize = tri_at(mask, idx) as usize;
        let e2: usize = tri_at(mask, idx + 1) as usize;
        let e3: usize = tri_at(mask, idx + 2) as usize;
        proof {
            assert(edge_crossed(m, tri_entry(m, idx as int)));
            assert(edge_crossed(m, tri_entry(m, idx + 1)));
            assert(edge_crossed(m, tri_entry(m, idx + 2)));
            assert(vertices@[e1 as int] == addition[idx as int]);
            assert(vertices@[e2 as int] == addition[idx + 1]);
            assert(vertices@[e3 as int] == addition[idx + 2]);
        }
        mesh.push(vertices[e1]);
        mesh.push(vertices[e2]);
        mesh.push(vertices[e3]);
        proof {
            assert(addition.take(idx + 3) =~= addition.take(idx as int).push(addition[idx as int]).push(
                addition[idx + 1],
            ).push(addition[idx + 2]));
            assert(mesh@ =~= old(mesh)@ + addition.take(idx + 3));
        }
        idx += 3;
    }
    proof {
        assert(idx == row_len(m));
        assert(addition.take(idx as int) =~= addition);
    }
}

/// Runs Marching Cubes over the whole grid: for every cube, in order, the
/// triangles that its triangle row gives for the cube's corner mask.
pub fn polygonize(field: &DensityField, iso: Density) -> (mesh: Vec<EdgeCrossing>)
    requires
        field.wf(),
    ensures
        mesh@ == mesh_of(field@, iso),
{
    let n: usize = field.resolution();
    assert(n * n <= 1024 * 1024 && n * n * n <= 1024 * 1024 * 1024) by (nonlinear_arith)
        requires
            1 <= n <= 1024,
    ;
    let count: usize = n * n * n;
    let mut mesh: Vec<EdgeCrossing> = Vec::new();
    let mut k: usize = 0;
    while k < count
        invariant
            field.wf(),
            n == field@.resolution,
            count == cube_count(n as int),
            k <= count,
            mesh@ == mesh_prefix(field@, iso, k as int),
        decreases count - k,
    {
        proof {
            lemma_inverse_then_index(n - 1, k as int);
            lemma_div_denominator(k as int, n as int, n as int);
        }
        let z: usize = k % n;
        let y: usize = (k / n) % n;
        let x: usize = (k / n) / n;
        polygonize_cube(field, iso, x, y, z, &mut mesh);
        k += 1;
    }
    mesh
}

} // verus!

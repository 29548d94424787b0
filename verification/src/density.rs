//! Density values and the density grid of a chunk.
//!
//! A density is a single-precision number held by its bit pattern. The grid
//! only ever asks one thing of two densities, whether the first is less than
//! the second, and that question has an exact answer on bit patterns.
use vstd::prelude::*;
use vstd::arithmetic::div_mod::{
    lemma_div_denominator,
    lemma_fundamental_div_mod,
    lemma_fundamental_div_mod_converse,
};
use crate::coord::Coord;

verus! {

/// The largest cube resolution of a chunk. With it the number of grid cells
/// fits every `usize`.
pub const MAX_RESOLUTION: usize = 1024;

/// The bit pattern of the customary iso-level, one half.
pub const DEFAULT_ISO_BITS: u32 = 0x3f00_0000;

/// A scalar sample of the density field: the bit pattern of an IEEE 754
/// single-precision number. Two values are `==` when their patterns are the
/// same.
#[derive(Clone, Copy, Debug, PartialEq, Eq, Structural)]
pub struct Density {
    pub bits: u32,
}

impl Density {
    /// The pattern without its sign bit.
    pub open spec fn magnitude(self) -> int {
        if self.bits >= 0x8000_0000 {
            self.bits - 0x8000_0000
        } else {
            self.bits as int
        }
    }

    /// Whether the pattern is a not-a-number.
    pub open spec fn is_nan(self) -> bool {
        self.magnitude() > 0x7f80_0000
    }

    /// An integer that orders the patterns as the numbers they stand for are
    /// ordered. The two zeros share the rank 0.
    pub open spec fn rank(self) -> int {
        if self.bits >= 0x8000_0000 {
            -self.magnitude()
        } else {
            self.magnitude()
        }
    }

    /// Whether this density is less than `level`, as numbers. Nothing is less
    /// than a not-a-number, and a not-a-number is less than nothing.
    pub open spec fn below(self, level: Density) -> bool {
        !self.is_nan() && !level.is_nan() && self.rank() < level.rank()
    }

    /// The density with the given bit pattern.
    pub fn from_bits(bits: u32) -> (d: Density)
        ensures
            d.bits == bits,
    {
        Density { bits }
    }

    /// The bit pattern of this density.
    pub fn to_bits(self) -> (bits: u32)
        ensures
            bits == self.bits,
    {
        self.bits
    }

    /// Decides whether this density is less than `level`.
    pub fn is_below(self, level: Density) -> (b: bool)
        ensures
            b == self.below(level),
    {
        let a: i64 = signed_rank(self.bits);
        let l: i64 = signed_rank(level.bits);
        a <= 0x7f80_0000 && a >= -0x7f80_0000 && l <= 0x7f80_0000 && l >= -0x7f80_0000 && a < l
    }
}

fn signed_rank(bits: u32) -> (r: i64)
    ensures
        r == (Density { bits }).rank(),
        (Density { bits }).is_nan() <==> (r > 0x7f80_0000 || r < -0x7f80_0000),
{
    if bits >= 0x8000_0000 {
        -((bits - 0x8000_0000) as i64)
    } else {
        bits as i64
    }
}

/// The number of samples along one axis of a grid with the given resolution.
pub open spec fn grid_size(resolution: int) -> int {
    resolution + 1
}

/// The number of samples in a grid with the given resolution.
pub open spec fn cell_count(resolution: int) -> int {
    grid_size(resolution) * grid_size(resolution) * grid_size(resolution)
}

/// Whether `(x, y, z)` is a local coordinate of the grid.
pub open spec fn in_grid(resolution: int, x: int, y: int, z: int) -> bool {
    &&& 0 <= x < grid_size(resolution)
    &&& 0 <= y < grid_size(resolution)
    &&& 0 <= z < grid_size(resolution)
}

/// The place of the sample `(x, y, z)` in the flat array.
pub open spec fn flat_index(resolution: int, x: int, y: int, z: int) -> int {
    x * (grid_size(resolution) * grid_size(resolution)) + y * grid_size(resolution) + z
}

/// The local coordinate of the sample at place `i` of the flat array.
pub open spec fn cell_of(resolution: int, i: int) -> (int, int, int) {
    (
        i / (grid_size(resolution) * grid_size(resolution)),
        (i / grid_size(resolution)) % grid_size(resolution),
        i % grid_size(resolution),
    )
}

/// Indexing a local coordinate and taking the index apart again gives the
/// coordinate back, and the index lies inside the flat array.
pub proof fn lemma_index_then_inverse(resolution: int, x: int, y: int, z: int)
    requires
        0 <= resolution,
        in_grid(resolution, x, y, z),
    ensures
        0 <= flat_index(resolution, x, y, z) < cell_count(resolution),
        cell_of(resolution, flat_index(resolution, x, y, z)) == (x, y, z),
{
    let g = grid_size(resolution);
    let i = flat_index(resolution, x, y, z);
    let q = x * g + y;
    assert(i == q * g + z) by (nonlinear_arith)
        requires
            i == x * (g * g) + y * g + z,
            q == x * g + y,
    ;
    assert(0 <= q && q <= g * g - 1) by (nonlinear_arith)
        requires
            q == x * g + y,
            0 <= x < g,
            0 <= y < g,
    ;
    assert(0 <= i && i < g * g * g) by (nonlinear_arith)
        requires
            i == q * g + z,
            0 <= q <= g * g - 1,
            0 <= z < g,
            0 < g,
    ;
    lemma_fundamental_div_mod_converse(i, g, q, z);
    lemma_fundamental_div_mod_converse(q, g, x, y);
    lemma_div_denominator(i, g, g);
}

/// Taking a flat index apart and indexing the coordinate again gives the
/// index back, and the coordinate lies inside the grid.
pub proof fn lemma_inverse_then_index(resolution: int, i: int)
    requires
        0 <= resolution,
        0 <= i < cell_count(resolution),
    ensures
        in_grid(resolution, cell_of(resolution, i).0, cell_of(resolution, i).1, cell_of(resolution, i).2),
        flat_index(
            resolution,
            cell_of(resolution, i).0,
            cell_of(resolution, i).1,
            cell_of(resolution, i).2,
        ) == i,
{
    let g = grid_size(resolution);
    let q = i / g;
    let z = i % g;
    let x = q / g;
    let y = q % g;
    lemma_fundamental_div_mod(i, g);
    lemma_fundamental_div_mod(q, g);
    lemma_div_denominator(i, g, g);
    assert(0 <= q && q < g * g) by (nonlinear_arith)
        requires
            i == g * q + z,
            0 <= z < g,
            0 <= i < g * g * g,
    ;
    assert(0 <= x && x < g) by (nonlinear_arith)
        requires
            q == g * x + y,
            0 <= y < g,
            0 <= q < g * g,
    ;
    assert(x * (g * g) + y * g + z == i) by (nonlinear_arith)
        requires
            i == g * q + z,
            q == g * x + y,
    ;
}

/// The mathematical content of a [`DensityField`].
pub struct FieldView {
    /// World coordinate of the sample with local coordinate `(0, 0, 0)`.
    pub origin: Coord,
    /// Number of cubes along one axis.
    pub resolution: int,
    /// The samples, in the order of [`flat_index`].
    pub cells: Seq<Density>,
}

impl FieldView {
    /// What holds of every field: the resolution is within its limits, every
    /// sample has a world coordinate that fits its type, and there is one
    /// stored value for each sample.
    pub open spec fn wf(self) -> bool {
        &&& 1 <= self.resolution <= MAX_RESOLUTION
        &&& self.origin.x + self.resolution <= i32::MAX
        &&& self.origin.y + self.resolution <= i32::MAX
        &&& self.origin.z + self.resolution <= i32::MAX
        &&& self.cells.len() == cell_count(self.resolution)
    }

    /// The density stored for the local coordinate `(x, y, z)`.
    pub open spec fn at(self, x: int, y: int, z: int) -> Density
        recommends
            in_grid(self.resolution, x, y, z),
    {
        self.cells[flat_index(self.resolution, x, y, z)]
    }

    /// Whether the world point `p` is one of the samples of this field: the
    /// samples fill a box of `resolution + 1` points along each axis, rooted
    /// at the origin.
    pub open spec fn contains(self, p: Coord) -> bool {
        in_grid(self.resolution, p.x - self.origin.x, p.y - self.origin.y, p.z - self.origin.z)
    }

    /// The flat index of the sample at the world point `p`.
    pub open spec fn index_of_world(self, p: Coord) -> int
        recommends
            self.contains(p),
    {
        flat_index(self.resolution, p.x - self.origin.x, p.y - self.origin.y, p.z - self.origin.z)
    }

    /// The field after an edit at the world point `p`: the sample there takes
    /// the new value; a point outside the field changes nothing.
    pub open spec fn edited(self, p: Coord, value: Density) -> FieldView {
        if self.contains(p) {
            FieldView { cells: self.cells.update(self.index_of_world(p), value), ..self }
        } else {
            self
        }
    }
}

/// Whether every sample of the field is a density that `noise` gives for the
/// sample's world coordinate.
pub open spec fn sampled_from<F: Fn(i32, i32, i32) -> Density>(field: FieldView, noise: &F) -> bool {
    forall|x: int, y: int, z: int|
        in_grid(field.resolution, x, y, z) ==> noise.ensures(
            ((field.origin.x + x) as i32, (field.origin.y + y) as i32, (field.origin.z + z) as i32),
            #[trigger] field.at(x, y, z),
        )
}

/// Whether `noise` can be asked for the density at every sample of a field
/// with this origin and resolution.
pub open spec fn covers<F: Fn(i32, i32, i32) -> Density>(
    noise: &F,
    origin: Coord,
    resolution: int,
) -> bool {
    forall|x: int, y: int, z: int|
        in_grid(resolution, x, y, z) ==> #[trigger] noise.requires(
            ((origin.x + x) as i32, (origin.y + y) as i32, (origin.z + z) as i32),
        )
}

/// Why a sample could not be read.
#[derive(Clone, Copy, Debug, PartialEq, Eq, Structural)]
pub enum FieldError {
    /// A component of the local coordinate lies outside the grid.
    OutOfRange,
}

/// The scalar grid of one chunk: `resolution + 1` samples along each axis,
/// stored flat.
pub struct DensityField {
    origin: Coord,
    resolution: usize,
    cells: Vec<Density>,
}

impl View for DensityField {
    type V = FieldView;

    closed spec fn view(&self) -> FieldView {
        FieldView { origin: self.origin, resolution: self.resolution as int, cells: self.cells@ }
    }
}

impl DensityField {
    /// The invariant of the type. Every constructor establishes it and every
    /// method keeps it.
    pub open spec fn wf(&self) -> bool {
        self@.wf()
    }

    /// Whether a field of this resolution can be rooted at `origin`.
    pub open spec fn fits(origin: Coord, resolution: int) -> bool {
        &&& 1 <= resolution <= MAX_RESOLUTION
        &&& origin.x + resolution <= i32::MAX
        &&& origin.y + resolution <= i32::MAX
        &&& origin.z + resolution <= i32::MAX
    }

    /// Decides whether a field of this resolution can be rooted at `origin`.
    pub fn can_hold(origin: Coord, resolution: usize) -> (b: bool)
        ensures
            b == Self::fits(origin, resolution as int),
    {
        1 <= resolution && resolution <= MAX_RESOLUTION && origin.x as i64 + resolution as i64
            <= i32::MAX as i64 && origin.y as i64 + resolution as i64 <= i32::MAX as i64
            && origin.z as i64 + resolution as i64 <= i32::MAX as i64
    }

    /// Fills a new field rooted at `origin` by asking `noise` for the density
    /// at the world coordinate of every sample, in the order of the flat
    /// array. Any scaling of the coordinate is part of `noise`.
    pub fn sample_all<F: Fn(i32, i32, i32) -> Density>(
        origin: Coord,
        resolution: usize,
        noise: &F,
    ) -> (field: DensityField)
        requires
            Self::fits(origin, resolution as int),
            covers(noise, origin, resolution as int),
        ensures
            field.wf(),
            field@.origin == origin,
            field@.resolution == resolution,
            sampled_from(field@, noise),
    {
        let g: usize = resolution + 1;
        assert(g * g * g <= 1025 * 1025 * 1025 && g * g <= 1025 * 1025) by (nonlinear_arith)
            requires
                1 <= g <= 1025,
        ;
        let count: usize = g * g * g;
        let mut cells: Vec<Density> = Vec::new();
        let mut i: usize = 0;
        while i < count
            invariant
                Self::fits(origin, resolution as int),
                g == resolution + 1,
                count == cell_count(resolution as int),
                i <= count,
                cells@.len() == i,
                forall|x: int, y: int, z: int|
                    in_grid(resolution as int, x, y, z) ==> #[trigger] noise.requires(
                        ((origin.x + x) as i32, (origin.y + y) as i32, (origin.z + z) as i32),
                    ),
                forall|j: int|
                    0 <= j < i ==> noise.ensures(
                        (
                            (origin.x + cell_of(resolution as int, j).0) as i32,
                            (origin.y + cell_of(resolution as int, j).1) as i32,
                            (origin.z + cell_of(resolution as int, j).2) as i32,
                        ),
                        #[trigger] cells@[j],
                    ),
            decreases count - i,
        {
            proof {
                lemma_inverse_then_index(resolution as int, i as int);
                lemma_div_denominator(i as int, g as int, g as int);
            }
            let z: usize = i % g;
            let y: usize = (i / g) % g;
            let x: usize = (i / g) / g;
            let wx: i32 = (origin.x as i64 + x as i64) as i32;
            let wy: i32 = (origin.y as i64 + y as i64) as i32;
            let wz: i32 = (origin.z as i64 + z as i64) as i32;
            assert(noise.requires(((origin.x + x as int) as i32, (origin.y + y as int) as i32, (origin.z + z as int) as i32)));
            let value = noise(wx, wy, wz);
            cells.push(value);
            i += 1;
        }
        let field = DensityField { origin, resolution, cells };
        proof {
            assert forall|x: int, y: int, z: int| in_grid(resolution as int, x, y, z) implies noise.ensures(
                ((origin.x + x) as i32, (origin.y + y) as i32, (origin.z + z) as i32),
                #[trigger] field@.at(x, y, z),
            ) by {
                lemma_index_then_inverse(resolution as int, x, y, z);
            }
        }
        field
    }

    /// The world coordinate of the sample with local coordinate `(0, 0, 0)`.
    pub fn origin(&self) -> (o: Coord)
        ensures
            o == self@.origin,
    {
        self.origin
    }

    /// The number of cubes along one axis.
    pub fn resolution(&self) -> (n: usize)
        ensures
            n == self@.resolution,
    {
        self.resolution
    }

    /// The flat index of the local coordinate `(x, y, z)`.
    pub fn index(&self, x: usize, y: usize, z: usize) -> (i: usize)
        requires
            self.wf(),
            in_grid(self@.resolution, x as int, y as int, z as int),
        ensures
            i == flat_index(self@.resolution, x as int, y as int, z as int),
            i < self@.cells.len(),
    {
        let g: usize = self.resolution + 1;
        proof {
            lemma_index_then_inverse(self@.resolution, x as int, y as int, z as int);
            assert(g * g <= 1025 * 1025) by (nonlinear_arith)
                requires
                    1 <= g <= 1025,
            ;
            assert(x * (g * g) <= 1024 * (1025 * 1025) && y * g <= 1024 * 1025) by (nonlinear_arith)
                requires
                    0 <= x <= 1024,
                    0 <= y <= 1024,
                    1 <= g <= 1025,
                    g * g <= 1025 * 1025,
            ;
        }
        x * (g * g) + y * g + z
    }

    /// The local coordinate of the sample at flat index `i`.
    pub fn inverse_index(&self, i: usize) -> (c: (usize, usize, usize))
        requires
            self.wf(),
            i < self@.cells.len(),
        ensures
            (c.0 as int, c.1 as int, c.2 as int) == cell_of(self@.resolution, i as int),
            in_grid(self@.resolution, c.0 as int, c.1 as int, c.2 as int),
    {
        let g: usize = self.resolution + 1;
        proof {
            lemma_inverse_then_index(self@.resolution, i as int);
            lemma_div_denominator(i as int, g as int, g as int);
        }
        ((i / g) / g, (i / g) % g, i % g)
    }

    /// The world coordinate of the sample with local coordinate `(x, y, z)`.
    pub fn cell_to_world(&self, x: usize, y: usize, z: usize) -> (p: Coord)
        requires
            self.wf(),
            in_grid(self@.resolution, x as int, y as int, z as int),
        ensures
            p.x == self@.origin.x + x,
            p.y == self@.origin.y + y,
            p.z == self@.origin.z + z,
    {
        Coord {
            x: (self.origin.x as i64 + x as i64) as i32,
            y: (self.origin.y as i64 + y as i64) as i32,
            z: (self.origin.z as i64 + z as i64) as i32,
        }
    }

    /// The density at the local coordinate `(x, y, z)` of the grid.
    pub fn cell(&self, x: usize, y: usize, z: usize) -> (d: Density)
        requires
            self.wf(),
            in_grid(self@.resolution, x as int, y as int, z as int),
        ensures
            d == self@.at(x as int, y as int, z as int),
    {
        let i: usize = self.index(x, y, z);
        self.cells[i]
    }

    /// Reads the density at a local coordinate, or reports that the
    /// coordinate lies outside the grid.
    pub fn get(&self, local: Coord) -> (r: Result<Density, FieldError>)
        requires
            self.wf(),
        ensures
            in_grid(self@.resolution, local.x as int, local.y as int, local.z as int) ==> r == Ok::<
                Density,
                FieldError,
            >(self@.at(local.x as int, local.y as int, local.z as int)),
            !in_grid(self@.resolution, local.x as int, local.y as int, local.z as int) ==> r == Err::<
                Density,
                FieldError,
            >(FieldError::OutOfRange),
    {
        let g: i64 = self.resolution as i64 + 1;
        if 0 <= local.x && (local.x as i64) < g && 0 <= local.y && (local.y as i64) < g && 0
            <= local.z && (local.z as i64) < g {
            Ok(self.cell(local.x as usize, local.y as usize, local.z as usize))
        } else {
            Err(FieldError::OutOfRange)
        }
    }

    /// Decides whether the world point `p` is one of the samples of this
    /// field.
    pub fn contains(&self, p: Coord) -> (b: bool)
        requires
            self.wf(),
        ensures
            b == self@.contains(p),
    {
        let g: i64 = self.resolution as i64 + 1;
        let dx: i64 = p.x as i64 - self.origin.x as i64;
        let dy: i64 = p.y as i64 - self.origin.y as i64;
        let dz: i64 = p.z as i64 - self.origin.z as i64;
        0 <= dx && dx < g && 0 <= dy && dy < g && 0 <= dz && dz < g
    }

    /// Overwrites the density at the world point `p`, if `p` is a sample of
    /// this field, and says whether it was.
    pub fn edit(&mut self, p: Coord, value: Density) -> (written: bool)
        requires
            old(self).wf(),
        ensures
            final(self).wf(),
            written == old(self)@.contains(p),
            final(self)@ == old(self)@.edited(p, value),
    {
        if self.contains(p) {
            let x: usize = (p.x as i64 - self.origin.x as i64) as usize;
            let y: usize = (p.y as i64 - self.origin.y as i64) as usize;
            let z: usize = (p.z as i64 - self.origin.z as i64) as usize;
            let i: usize = self.index(x, y, z);
            self.cells[i] = value;
            true
        } else {
            false
        }
    }
}

} // verus!

//! The voxel lattice of a chunk: its shape, the row-major order of its
//! samples, and dense fields laid out in that order.

use vstd::prelude::*;
use vstd::arithmetic::div_mod::{
    lemma_fundamental_div_mod,
    lemma_fundamental_div_mod_converse,
    lemma_mod_bound,
    lemma_multiply_divide_lt,
};
use vstd::arithmetic::mul::lemma_mul_strictly_positive;
use ndshape::{RuntimeShape, Shape};

verus! {

/// Extents of a lattice along its three axes.
pub struct Extents {
    pub x: int,
    pub y: int,
    pub z: int,
}

/// A lattice point.
pub struct Point {
    pub x: int,
    pub y: int,
    pub z: int,
}

/// Extents that a lattice can have: every axis is at least one sample long
/// and the number of samples fits the index type.
pub open spec fn extents_valid(e: Extents) -> bool {
    &&& 0 < e.x
    &&& 0 < e.y
    &&& 0 < e.z
    &&& e.x * e.y * e.z <= u32::MAX
}

/// Number of samples of a lattice.
pub open spec fn sample_count(e: Extents) -> int {
    e.x * e.y * e.z
}

/// Whether a point lies on the lattice.
pub open spec fn on_lattice(e: Extents, p: Point) -> bool {
    &&& 0 <= p.x < e.x
    &&& 0 <= p.y < e.y
    &&& 0 <= p.z < e.z
}

/// Position of a point in row-major order: the first axis varies fastest.
pub open spec fn linear_index(e: Extents, p: Point) -> int {
    p.x + e.x * p.y + e.x * e.y * p.z
}

/// The point at a position of the row-major order.
pub open spec fn point_at(e: Extents, i: int) -> Point {
    Point { x: (i % (e.x * e.y)) % e.x, y: (i % (e.x * e.y)) / e.x, z: i / (e.x * e.y) }
}

/// Every lattice point has a position below the sample count, and that
/// position leads back to the point.
pub proof fn lemma_index_of_point(e: Extents, p: Point)
    requires
        extents_valid(e),
        on_lattice(e, p),
    ensures
        0 <= linear_index(e, p) < sample_count(e),
        point_at(e, linear_index(e, p)) == p,
{
    let plane = e.x * e.y;
    let row = p.x + e.x * p.y;
    lemma_mul_strictly_positive(e.x, e.y);
    assert(0 <= row < plane) by (nonlinear_arith)
        requires
            0 <= p.x < e.x,
            0 <= p.y < e.y,
            row == p.x + e.x * p.y,
            plane == e.x * e.y,
    ;
    assert(0 <= row + plane * p.z < plane * e.z) by (nonlinear_arith)
        requires
            0 <= row < plane,
            0 <= p.z < e.z,
    ;
    assert(plane * p.z == e.x * e.y * p.z);
    assert(plane * e.z == e.x * e.y * e.z);
    let i = linear_index(e, p);
    assert(i == p.z * plane + row) by (nonlinear_arith)
        requires
            i == p.x + e.x * p.y + e.x * e.y * p.z,
            row == p.x + e.x * p.y,
            plane == e.x * e.y,
    ;
    lemma_fundamental_div_mod_converse(i, plane, p.z, row);
    assert(row == p.y * e.x + p.x) by (nonlinear_arith)
        requires
            row == p.x + e.x * p.y,
    ;
    lemma_fundamental_div_mod_converse(row, e.x, p.y, p.x);
}

/// Every position below the sample count names a lattice point, and that
/// point leads back to the position.
pub proof fn lemma_point_of_index(e: Extents, i: int)
    requires
        extents_valid(e),
        0 <= i < sample_count(e),
    ensures
        on_lattice(e, point_at(e, i)),
        linear_index(e, point_at(e, i)) == i,
{
    let plane = e.x * e.y;
    lemma_mul_strictly_positive(e.x, e.y);
    let p = point_at(e, i);
    let row = i % plane;
    lemma_fundamental_div_mod(i, plane);
    lemma_mod_bound(i, plane);
    lemma_fundamental_div_mod(row, e.x);
    lemma_mod_bound(row, e.x);
    assert(i < plane * e.z);
    lemma_multiply_divide_lt(i, plane, e.z);
    lemma_multiply_divide_lt(row, e.x, e.y);
    assert(0 <= p.z) by {
        if i / plane < 0 {
            assert(plane * (i / plane) <= -plane) by (nonlinear_arith)
                requires
                    i / plane <= -1,
                    plane > 0,
            ;
        }
    }
    assert(0 <= p.y) by {
        if row / e.x < 0 {
            assert(e.x * (row / e.x) <= -e.x) by (nonlinear_arith)
                requires
                    row / e.x <= -1,
                    e.x > 0,
            ;
        }
    }
    assert(e.x * e.y * p.z == plane * p.z);
}

/// The extents that an array of three axis lengths stands for.
pub open spec fn extents_of(dims: [u32; 3]) -> Extents {
    Extents { x: dims[0] as int, y: dims[1] as int, z: dims[2] as int }
}

/// The point that an array of three axis values stands for.
pub open spec fn point_of(p: [u32; 3]) -> Point {
    Point { x: p[0] as int, y: p[1] as int, z: p[2] as int }
}

/// `RuntimeShape::new` and `Shape::size`: the number of samples of a shape,
/// the product of its extents. The extents are asked to be valid, so that
/// no product in the making of the shape overflows.
#[verifier::external_body]
fn shape_size(dims: [u32; 3]) -> (n: u32)
    requires
        extents_valid(extents_of(dims)),
    ensures
        n == sample_count(extents_of(dims)),
{
    RuntimeShape::<u32, 3>::new(dims).size()
}

/// `RuntimeShape::new` and `Shape::linearize`: the row-major position of a
/// point, the first axis varying fastest. The position is asked to fit the
/// index type, so that the sum does not overflow.
#[verifier::external_body]
fn shape_linearize(dims: [u32; 3], p: [u32; 3]) -> (i: u32)
    requires
        extents_valid(extents_of(dims)),
        linear_index(extents_of(dims), point_of(p)) <= u32::MAX,
    ensures
        i == linear_index(extents_of(dims), point_of(p)),
{
    RuntimeShape::<u32, 3>::new(dims).linearize(p)
}

/// `RuntimeShape::new` and `Shape::delinearize`: the point at a row-major
/// position, found by dividing by the size of a plane and then of a row.
/// The extents are asked to be valid, so that no divisor is zero.
#[verifier::external_body]
fn shape_delinearize(dims: [u32; 3], i: u32) -> (p: [u32; 3])
    requires
        extents_valid(extents_of(dims)),
    ensures
        point_of(p) == point_at(extents_of(dims), i as int),
{
    RuntimeShape::<u32, 3>::new(dims).delinearize(i)
}

/// Number of samples in the unit to which the accelerator's rows are padded
/// when they are read back.
pub const ROW_UNIT: u32 = 64;

/// Extents with the first axis rounded up to a whole number of row units.
pub open spec fn padded_extents(e: Extents) -> Extents {
    Extents {
        x: if e.x % (ROW_UNIT as int) == 0 {
            e.x
        } else {
            e.x + ROW_UNIT - e.x % (ROW_UNIT as int)
        },
        y: e.y,
        z: e.z,
    }
}

/// Whether every extent of `inner` is at most that of `outer`.
pub open spec fn fits_within(inner: Extents, outer: Extents) -> bool {
    inner.x <= outer.x && inner.y <= outer.y && inner.z <= outer.z
}

/// Number of bytes of one sample as the accelerator stores it.
pub const SAMPLE_BYTES: u32 = 4;

/// How the accelerator's samples lie in the buffer they are read back from.
#[derive(Clone, Copy, Debug, PartialEq, Eq, Structural)]
pub struct Readback {
    /// Bytes from the start of one row to the start of the next.
    pub bytes_per_row: u32,
    /// Rows from the start of one plane to the start of the next.
    pub rows_per_image: u32,
    /// Bytes of the whole buffer.
    pub buffer_size: u64,
}

/// The shape of a chunk's voxel lattice.
#[derive(Clone, Copy, Debug)]
pub struct Lattice {
    dims: [u32; 3],
}

impl Lattice {
    #[verifier::type_invariant]
    spec fn consistent(&self) -> bool {
        extents_valid(self.extents())
    }

    /// The extents of the lattice.
    pub closed spec fn extents(&self) -> Extents {
        extents_of(self.dims)
    }

    /// A lattice with the given extents, if they are valid.
    pub fn new(x: u32, y: u32, z: u32) -> (lattice: Option<Lattice>)
        ensures
            lattice.is_some() == extents_valid(Extents { x: x as int, y: y as int, z: z as int }),
            lattice matches Some(l) ==> l.extents() == (Extents {
                x: x as int,
                y: y as int,
                z: z as int,
            }),
    {
        if x == 0 || y == 0 || z == 0 {
            return None;
        }
        assert(1 <= x * y <= 0xffff_ffff * 0xffff_ffff) by (nonlinear_arith)
            requires
                1 <= x <= 0xffff_ffff,
                1 <= y <= 0xffff_ffff,
        ;
        let plane: u64 = (x as u64) * (y as u64);
        if plane > 0xffff_ffff {
            assert(x * y * z > u32::MAX) by (nonlinear_arith)
                requires
                    x * y > u32::MAX,
                    z >= 1,
            ;
            return None;
        }
        assert(plane * z <= 0xffff_ffff * 0xffff_ffff) by (nonlinear_arith)
            requires
                plane <= 0xffff_ffff,
                z <= 0xffff_ffff,
        ;
        let total: u64 = plane * (z as u64);
        if total > 0xffff_ffff {
            return None;
        }
        Some(Lattice { dims: [x, y, z] })
    }

    /// A lattice with the same extent along every axis.
    pub fn cube(edge: u32) -> (lattice: Option<Lattice>)
        ensures
            lattice.is_some() == extents_valid(
                Extents { x: edge as int, y: edge as int, z: edge as int },
            ),
            lattice matches Some(l) ==> l.extents() == (Extents {
                x: edge as int,
                y: edge as int,
                z: edge as int,
            }),
    {
        Lattice::new(edge, edge, edge)
    }

    /// The extents along the three axes.
    pub fn dims(&self) -> (dims: [u32; 3])
        ensures
            dims[0] == self.extents().x,
            dims[1] == self.extents().y,
            dims[2] == self.extents().z,
            extents_valid(self.extents()),
    {
        proof {
            use_type_invariant(self);
        }
        self.dims
    }

    /// Number of samples.
    pub fn size(&self) -> (n: u32)
        ensures
            n == sample_count(self.extents()),
            n > 0,
    {
        proof {
            use_type_invariant(self);
            lemma_mul_strictly_positive(self.extents().x, self.extents().y);
            lemma_mul_strictly_positive(self.extents().x * self.extents().y, self.extents().z);
        }
        shape_size(self.dims)
    }

    /// Row-major position of a point, or `None` for a point off the lattice.
    pub fn linearize(&self, p: [u32; 3]) -> (i: Option<u32>)
        ensures
            i.is_some() == on_lattice(self.extents(), point_of(p)),
            i matches Some(n) ==> n == linear_index(self.extents(), point_of(p)),
    {
        proof {
            use_type_invariant(self);
        }
        if p[0] >= self.dims[0] || p[1] >= self.dims[1] || p[2] >= self.dims[2] {
            return None;
        }
        proof {
            lemma_index_of_point(self.extents(), point_of(p));
        }
        Some(shape_linearize(self.dims, p))
    }

    /// The point at a row-major position, or `None` for a position at or
    /// beyond the sample count.
    pub fn delinearize(&self, i: u32) -> (p: Option<[u32; 3]>)
        ensures
            p.is_some() == (i < sample_count(self.extents())),
            p matches Some(q) ==> point_of(q) == point_at(self.extents(), i as int),
    {
        proof {
            use_type_invariant(self);
        }
        if i >= self.size() {
            return None;
        }
        Some(shape_delinearize(self.dims, i))
    }

    /// The lattice that the accelerator fills for this one: the same, but
    /// with rows padded to a whole number of read-back units. `None` where
    /// the padded lattice has more samples than can be counted.
    pub fn padded(&self) -> (lattice: Option<Lattice>)
        ensures
            lattice.is_some() == extents_valid(padded_extents(self.extents())),
            lattice matches Some(l) ==> l.extents() == padded_extents(self.extents())
                && fits_within(self.extents(), l.extents()),
    {
        proof {
            use_type_invariant(self);
        }
        let x = self.dims[0];
        let rest = x % ROW_UNIT;
        let wide: u64 = if rest == 0 {
            x as u64
        } else {
            (x as u64) + ((ROW_UNIT - rest) as u64)
        };
        if wide > 0xffff_ffff {
            assert(padded_extents(self.extents()).x * self.extents().y * self.extents().z
                > u32::MAX) by (nonlinear_arith)
                requires
                    padded_extents(self.extents()).x > u32::MAX,
                    self.extents().y >= 1,
                    self.extents().z >= 1,
            ;
            return None;
        }
        Lattice::new(wide as u32, self.dims[1], self.dims[2])
    }

    /// How a field over this lattice lies in a read-back buffer: row after
    /// row without gaps. `None` where a row has more bytes than can be
    /// counted.
    pub fn readback(&self) -> (layout: Option<Readback>)
        ensures
            layout.is_some() == (SAMPLE_BYTES * self.extents().x <= u32::MAX),
            layout matches Some(r) ==> r.bytes_per_row == SAMPLE_BYTES * self.extents().x
                && r.rows_per_image == self.extents().y && r.buffer_size == SAMPLE_BYTES
                * sample_count(self.extents()),
    {
        proof {
            use_type_invariant(self);
        }
        if self.dims[0] > 0x3fff_ffff {
            return None;
        }
        let samples = self.size();
        Some(
            Readback {
                bytes_per_row: SAMPLE_BYTES * self.dims[0],
                rows_per_image: self.dims[1],
                buffer_size: (SAMPLE_BYTES as u64) * (samples as u64),
            },
        )
    }

    /// The inclusive range of lattice points that leaves out the outermost
    /// layer on every axis, or `None` where an axis is too short to have an
    /// interior.
    pub fn extraction_range(&self) -> (range: Option<([u32; 3], [u32; 3])>)
        ensures
            range.is_some() == (self.extents().x >= 3 && self.extents().y >= 3 && self.extents().z
                >= 3),
            range matches Some((lo, hi)) ==> {
                &&& lo[0] == 1 && lo[1] == 1 && lo[2] == 1
                &&& hi[0] == self.extents().x - 2
                &&& hi[1] == self.extents().y - 2
                &&& hi[2] == self.extents().z - 2
            },
    {
        if self.dims[0] < 3 || self.dims[1] < 3 || self.dims[2] < 3 {
            return None;
        }
        Some(([1, 1, 1], [self.dims[0] - 2, self.dims[1] - 2, self.dims[2] - 2]))
    }
}

/// One sample for every point of a lattice, in row-major order. The sample
/// type is left to the caller.
#[derive(Debug)]
pub struct DensityField<T> {
    lattice: Lattice,
    samples: Vec<T>,
}

impl<T> View for DensityField<T> {
    type V = Seq<T>;

    closed spec fn view(&self) -> Seq<T> {
        self.samples@
    }
}

impl<T> DensityField<T> {
    #[verifier::type_invariant]
    spec fn consistent(&self) -> bool {
        self.samples@.len() == sample_count(self.lattice.extents())
    }

    /// The extents of the lattice that the samples cover.
    pub closed spec fn extents(&self) -> Extents {
        self.lattice.extents()
    }

    /// A field over `lattice`, or `None` unless there is exactly one sample
    /// for each of its points.
    pub fn new(lattice: Lattice, samples: Vec<T>) -> (field: Option<Self>)
        ensures
            field.is_some() == (samples@.len() == sample_count(lattice.extents())),
            field matches Some(f) ==> f@ == samples@ && f.extents() == lattice.extents(),
    {
        if samples.len() != lattice.size() as usize {
            return None;
        }
        Some(DensityField { lattice, samples })
    }

    /// The lattice that the samples cover.
    pub fn lattice(&self) -> (lattice: Lattice)
        ensures
            lattice.extents() == self.extents(),
            self@.len() == sample_count(self.extents()),
    {
        proof {
            use_type_invariant(self);
        }
        self.lattice
    }

    /// The samples in row-major order.
    pub fn samples(&self) -> (samples: &Vec<T>)
        ensures
            samples@ == self@,
            samples@.len() == sample_count(self.extents()),
    {
        proof {
            use_type_invariant(self);
        }
        &self.samples
    }
}

impl<T: Copy> DensityField<T> {
    /// Lays the samples of the leading corner of this field out in the
    /// row-major order of a smaller lattice: the sample of every point of
    /// `target` is the one this field has at the same point. `None` where
    /// `target` reaches beyond this field's lattice.
    pub fn relinearize(&self, target: Lattice) -> (field: Option<DensityField<T>>)
        ensures
            field.is_some() == fits_within(target.extents(), self.extents()),
            field matches Some(f) ==> {
                &&& f.extents() == target.extents()
                &&& f@.len() == sample_count(target.extents())
                &&& forall|p: Point| #[trigger]
                    on_lattice(target.extents(), p) ==> f@[linear_index(target.extents(), p)]
                        == self@[linear_index(self.extents(), p)]
            },
    {
        proof {
            use_type_invariant(self);
        }
        let from = self.lattice.dims();
        let to = target.dims();
        if to[0] > from[0] || to[1] > from[1] || to[2] > from[2] {
            return None;
        }
        let n = target.size();
        let mut out: Vec<T> = Vec::new();
        let mut i: u32 = 0;
        while i < n
            invariant
                i <= n,
                n == sample_count(target.extents()),
                extents_valid(target.extents()),
                extents_valid(self.lattice.extents()),
                fits_within(target.extents(), self.lattice.extents()),
                self.samples@.len() == sample_count(self.lattice.extents()),
                out@.len() == i,
                forall|k: int|
                    0 <= k < i ==> #[trigger] out@[k] == self.samples@[linear_index(
                        self.lattice.extents(),
                        point_at(target.extents(), k),
                    )],
            decreases n - i,
        {
            proof {
                lemma_point_of_index(target.extents(), i as int);
                lemma_index_of_point(self.lattice.extents(), point_at(target.extents(), i as int));
            }
            let p = target.delinearize(i).unwrap();
            let j = self.lattice.linearize(p).unwrap();
            out.push(self.samples[j as usize]);
            i += 1;
        }
        proof {
            assert forall|p: Point| #[trigger] on_lattice(target.extents(), p) implies out@[linear_index(
                target.extents(),
                p,
            )] == self@[linear_index(self.extents(), p)] by {
                lemma_index_of_point(target.extents(), p);
            }
        }
        Some(DensityField { lattice: target, samples: out })
    }
}

} // verus!

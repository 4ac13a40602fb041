//! One generation job: what it works on, and what follows each attempt to
//! synthesize a field and extract a mesh from it.

use vstd::prelude::*;
use crate::config::Settings;
use crate::coord::{ChunkCoord, BOUNDARY_OVERLAP};
use crate::lattice::{Lattice, Extents};
use crate::mesh::ChunkData;

verus! {

/// Number of attempts after which a job on the accelerator gives up.
pub const MAX_ATTEMPTS: u32 = 2;

/// Where the density field of a job is computed.
#[derive(Clone, Copy, Debug, PartialEq, Eq, Structural)]
pub enum Backend {
    /// Layered noise on the worker itself. An empty mesh is final.
    Cpu,
    /// The accelerator, whose field may come back degenerate for no lasting
    /// reason. An empty mesh is tried again.
    Accelerator,
}

/// How a job ended.
#[derive(Debug)]
pub enum JobOutcome<V> {
    /// A mesh with geometry.
    Success(ChunkData<V>),
    /// No geometry in this chunk.
    Empty,
    /// No geometry after the last attempt that the accelerator is given.
    Exhausted,
}

/// What a job does after an attempt.
#[derive(Debug)]
pub enum JobStep<V> {
    /// Synthesize and extract once more.
    Retry,
    /// Stop with this outcome.
    Done(JobOutcome<V>),
}

/// What a job works on.
#[derive(Clone, Copy, Debug)]
pub struct JobParameters {
    /// The lattice of the density field.
    pub lattice: Lattice,
    /// Lattice coordinates of the chunk's first sample in the world.
    pub offset: (i64, i64, i64),
    /// First point of the range from which the mesh is extracted.
    pub lowest: [u32; 3],
    /// Last point of that range.
    pub highest: [u32; 3],
    /// Seed of the terrain.
    pub seed: i32,
}

/// Lattice coordinate at which a chunk starts along one axis: neighbouring
/// chunks share their boundary layers.
pub open spec fn axis_offset(cell: i32, data_resolution: u32) -> int {
    cell * (data_resolution - BOUNDARY_OVERLAP)
}

/// Decides what follows an attempt that produced `mesh`, the `attempts`-th
/// of its job. A mesh with geometry ends the job. An empty one ends it on
/// the worker's own backend; on the accelerator the job tries again until
/// the attempts are used up.
pub fn after_attempt<V>(backend: Backend, attempts: u32, mesh: ChunkData<V>) -> (step: JobStep<V>)
    ensures
        !mesh@.is_empty() ==> step == JobStep::Done(JobOutcome::Success(mesh)),
        mesh@.is_empty() && backend == Backend::Cpu ==> step == JobStep::<V>::Done(
            JobOutcome::Empty,
        ),
        mesh@.is_empty() && backend == Backend::Accelerator && attempts < MAX_ATTEMPTS ==> step
            == JobStep::<V>::Retry,
        mesh@.is_empty() && backend == Backend::Accelerator && attempts >= MAX_ATTEMPTS ==> step
            == JobStep::<V>::Done(JobOutcome::Exhausted),
{
    if !mesh.is_empty() {
        return JobStep::Done(JobOutcome::Success(mesh));
    }
    match backend {
        Backend::Cpu => JobStep::Done(JobOutcome::Empty),
        Backend::Accelerator => {
            if attempts < MAX_ATTEMPTS {
                JobStep::Retry
            } else {
                JobStep::Done(JobOutcome::Exhausted)
            }
        },
    }
}

/// The lattice offset of a chunk along one axis.
pub fn chunk_offset(cell: i32, data_resolution: u32) -> (offset: i64)
    requires
        BOUNDARY_OVERLAP < data_resolution,
    ensures
        offset == axis_offset(cell, data_resolution),
{
    let inner: i64 = (data_resolution - BOUNDARY_OVERLAP) as i64;
    assert(-0x8000_0000 * 0xffff_ffff <= cell * inner <= 0x8000_0000 * 0xffff_ffff)
        by (nonlinear_arith)
        requires
            -0x8000_0000 <= cell <= 0x8000_0000,
            0 <= inner <= 0xffff_ffff,
    ;
    (cell as i64) * inner
}

/// What the job of a chunk works on: a cubic lattice of the configured
/// resolution, placed at the chunk's offset, with the outermost layer left
/// out of the extraction.
pub fn job_parameters(settings: &Settings, coord: ChunkCoord) -> (job: JobParameters)
    requires
        settings.valid(),
    ensures
        job.lattice.extents() == (Extents {
            x: settings.data_resolution as int,
            y: settings.data_resolution as int,
            z: settings.data_resolution as int,
        }),
        job.offset.0 == axis_offset(coord.x, settings.data_resolution),
        job.offset.1 == axis_offset(coord.y, settings.data_resolution),
        job.offset.2 == axis_offset(coord.z, settings.data_resolution),
        job.lowest[0] == 1 && job.lowest[1] == 1 && job.lowest[2] == 1,
        job.highest[0] == settings.data_resolution - 2,
        job.highest[1] == settings.data_resolution - 2,
        job.highest[2] == settings.data_resolution - 2,
        job.seed == settings.seed,
{
    let lattice = Lattice::cube(settings.data_resolution).unwrap();
    let (lowest, highest) = lattice.extraction_range().unwrap();
    JobParameters {
        lattice,
        offset: (
            chunk_offset(coord.x, settings.data_resolution),
            chunk_offset(coord.y, settings.data_resolution),
            chunk_offset(coord.z, settings.data_resolution),
        ),
        lowest,
        highest,
        seed: settings.seed,
    }
}

} // verus!

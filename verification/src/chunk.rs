//! A chunk as the host holds it.

use vstd::prelude::*;
use crate::coord::ChunkCoord;
use crate::manager::VoxelChunkManager;
use crate::mesh::ChunkData;

verus! {

/// A chunk that the host has built from a finished mesh.
#[derive(Debug)]
pub struct VoxelChunk<V> {
    /// Number of lattice samples along each edge of the chunk.
    pub data_resolution: u32,
    /// Edge length of a voxel in sub-units.
    pub voxel_size: u32,
    /// Seed of the terrain.
    pub seed: i32,
    /// The grid cell of the chunk.
    pub coord: ChunkCoord,
    /// The handle of the chunk's host object.
    pub handle: i64,
    /// The mesh of the chunk.
    pub mesh: ChunkData<V>,
    /// Whether the mesh has been handed to the host object.
    pub generated: bool,
}

impl<V: Clone + Send + Sync + 'static> VoxelChunk<V> {
    /// Tells the manager that the chunk has entered the host's scene: its
    /// cell is resident under the chunk's handle and no longer waits.
    pub fn add_to_tree(&self, manager: &mut VoxelChunkManager<V>)
        requires
            old(manager).wf(),
        ensures
            final(manager).wf(),
            final(manager).residents() == old(manager).residents().insert(self.coord, self.handle),
            final(manager).pending() == old(manager).pending().remove(self.coord),
            final(manager).observer() == old(manager).observer(),
            final(manager).settings() == old(manager).settings(),
            final(manager).is_ready() == old(manager).is_ready(),
            final(manager).in_flight() == old(manager).in_flight(),
    {
        manager.on_chunk_added(self.coord, self.handle);
    }
}

} // verus!

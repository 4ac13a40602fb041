//! The settings of a streaming session and the check they must pass before
//! any chunk is generated.

use vstd::prelude::*;
use crate::coord::{BOUNDARY_OVERLAP, SUBUNITS_PER_UNIT, cell_size};

verus! {

/// Why a set of settings is refused.
#[derive(Clone, Copy, Debug, PartialEq, Eq, Structural)]
pub enum ConfigError {
    /// The voxel size is zero.
    VoxelSize,
    /// The lattice has no interior between its shared boundary layers, or
    /// more samples than its index type can count.
    Resolution,
    /// The render radius is zero.
    RenderDistance,
    /// The worker pool is empty.
    Workers,
    /// The cache has no room for a single mesh.
    CacheCapacity,
}

/// The settings of a streaming session. Lengths are in fixed-point
/// sub-units, distances between chunks in grid cells.
#[derive(Clone, Copy, Debug, PartialEq, Eq, Structural)]
pub struct Settings {
    /// Edge length of a voxel in sub-units.
    pub voxel_size: u32,
    /// Number of lattice samples along each edge of a chunk.
    pub data_resolution: u32,
    /// Seed of the terrain.
    pub seed: i32,
    /// Radius of the planning window in grid cells.
    pub render_distance: u32,
    /// Number of workers that run generation jobs.
    pub workers: u32,
    /// Number of meshes that the cache may hold.
    pub cache_capacity: u64,
    /// How far, in sub-units, the observer has to move before the chunks
    /// around it are planned anew.
    pub hysteresis: u32,
    /// A resident chunk is retired once it lies farther from the observer
    /// than this many times the render radius, in grid cells.
    pub eviction_multiple: u32,
}

/// A resolution that leaves an interior between the shared boundary layers
/// and whose cube fits the index type of the lattice.
pub open spec fn resolution_valid(resolution: u32) -> bool {
    BOUNDARY_OVERLAP < resolution && resolution * resolution * resolution <= u32::MAX
}

impl Settings {
    /// The first fault of the settings, in the order of the checks, or
    /// `None` where they are valid.
    pub open spec fn first_fault(&self) -> Option<ConfigError> {
        if self.voxel_size == 0 {
            Some(ConfigError::VoxelSize)
        } else if !resolution_valid(self.data_resolution) {
            Some(ConfigError::Resolution)
        } else if self.render_distance == 0 {
            Some(ConfigError::RenderDistance)
        } else if self.workers == 0 {
            Some(ConfigError::Workers)
        } else if self.cache_capacity == 0 {
            Some(ConfigError::CacheCapacity)
        } else {
            None
        }
    }

    /// Settings without a fault.
    pub open spec fn valid(&self) -> bool {
        self.first_fault() is None
    }

    /// The distance in grid cells beyond which a resident chunk is retired.
    pub open spec fn eviction_limit(&self) -> int {
        self.eviction_multiple * self.render_distance
    }

    /// The usual settings for a given seed: voxels of one world unit, 32
    /// samples per edge, a render radius of 3, 16 workers, room for 100
    /// meshes, a hysteresis of 10 world units and an eviction multiple of
    /// twice the resolution.
    pub fn standard(seed: i32) -> (settings: Settings)
        ensures
            settings == (Settings {
                voxel_size: SUBUNITS_PER_UNIT,
                data_resolution: 32,
                seed,
                render_distance: 3,
                workers: 16,
                cache_capacity: 100,
                hysteresis: 10240,
                eviction_multiple: 64,
            }),
            settings.valid(),
    {
        Settings {
            voxel_size: SUBUNITS_PER_UNIT,
            data_resolution: 32,
            seed,
            render_distance: 3,
            workers: 16,
            cache_capacity: 100,
            hysteresis: 10240,
            eviction_multiple: 64,
        }
    }

    /// Checks the settings and names their first fault.
    pub fn validate(&self) -> (checked: Result<(), ConfigError>)
        ensures
            checked == match self.first_fault() {
                Some(fault) => Err::<(), ConfigError>(fault),
                None => Ok(()),
            },
    {
        if self.voxel_size == 0 {
            return Err(ConfigError::VoxelSize);
        }
        if !resolution_fits(self.data_resolution) {
            return Err(ConfigError::Resolution);
        }
        if self.render_distance == 0 {
            return Err(ConfigError::RenderDistance);
        }
        if self.workers == 0 {
            return Err(ConfigError::Workers);
        }
        if self.cache_capacity == 0 {
            return Err(ConfigError::CacheCapacity);
        }
        Ok(())
    }

    /// Edge length of one grid cell in sub-units.
    pub fn cell(&self) -> (cell: u64)
        requires
            self.valid(),
        ensures
            cell == cell_size(self.data_resolution, self.voxel_size),
            cell > 0,
    {
        let inner: u64 = (self.data_resolution - BOUNDARY_OVERLAP) as u64;
        assert(0 < inner * self.voxel_size <= 0xffff_ffff * 0xffff_ffff) by (nonlinear_arith)
            requires
                0 < inner <= 0xffff_ffff,
                0 < self.voxel_size <= 0xffff_ffff,
        ;
        inner * (self.voxel_size as u64)
    }

    /// The distance in grid cells beyond which a resident chunk is retired.
    pub fn retire_limit(&self) -> (limit: u64)
        ensures
            limit == self.eviction_limit(),
    {
        assert(self.eviction_multiple * self.render_distance <= 0xffff_ffff * 0xffff_ffff)
            by (nonlinear_arith)
            requires
                self.eviction_multiple <= 0xffff_ffff,
                self.render_distance <= 0xffff_ffff,
        ;
        (self.eviction_multiple as u64) * (self.render_distance as u64)
    }
}

/// Whether a resolution is valid.
pub fn resolution_fits(resolution: u32) -> (fits: bool)
    ensures
        fits == resolution_valid(resolution),
{
    if resolution <= BOUNDARY_OVERLAP {
        return false;
    }
    if resolution > 1625 {
        assert(resolution * resolution * resolution > u32::MAX) by (nonlinear_arith)
            requires
                resolution >= 1626,
        ;
        return false;
    }
    assert(resolution * resolution * resolution <= 1625 * 1625 * 1625) by (nonlinear_arith)
        requires
            0 <= resolution <= 1625,
    ;
    true
}

} // verus!

//! Triangle meshes as the extraction step hands them over.

use vstd::prelude::*;

verus! {

/// What makes three buffers a triangle mesh: one normal per vertex, indices
/// in groups of three, and every index naming a vertex.
pub open spec fn mesh_well_formed(vertex_count: nat, normal_count: nat, indices: Seq<u32>) -> bool {
    &&& vertex_count == normal_count
    &&& indices.len() % 3 == 0
    &&& forall|i: int| 0 <= i < indices.len() ==> (#[trigger] indices[i]) < vertex_count
}

/// The mathematical content of a mesh.
pub ghost struct MeshModel<V> {
    pub positions: Seq<V>,
    pub normals: Seq<V>,
    pub indices: Seq<u32>,
}

impl<V> MeshModel<V> {
    /// A mesh without vertices or without triangles shows nothing.
    pub open spec fn is_empty(self) -> bool {
        self.positions.len() == 0 || self.indices.len() == 0
    }
}

/// The mesh of one chunk. The vertex type is left to the caller; the mesh
/// itself only relates the three buffers to one another.
#[derive(Debug)]
pub struct ChunkData<V> {
    positions: Vec<V>,
    normals: Vec<V>,
    indices: Vec<u32>,
}

impl<V> View for ChunkData<V> {
    type V = MeshModel<V>;

    closed spec fn view(&self) -> MeshModel<V> {
        MeshModel { positions: self.positions@, normals: self.normals@, indices: self.indices@ }
    }
}

impl<V: Clone> Clone for ChunkData<V> {
    /// A mesh with the same indices and a clone of every vertex and normal.
    fn clone(&self) -> (copy: Self)
        ensures
            copy@.indices == self@.indices,
            copy@.positions.len() == self@.positions.len(),
            copy@.normals.len() == self@.normals.len(),
            forall|i: int|
                0 <= i < self@.positions.len() ==> cloned(
                    self@.positions[i],
                    #[trigger] copy@.positions[i],
                ),
            forall|i: int|
                0 <= i < self@.normals.len() ==> cloned(
                    self@.normals[i],
                    #[trigger] copy@.normals[i],
                ),
    {
        proof {
            use_type_invariant(self);
        }
        let positions = self.positions.clone();
        let normals = self.normals.clone();
        let indices = self.indices.clone();
        assert(indices@ =~= self.indices@);
        ChunkData { positions, normals, indices }
    }
}

impl<V> ChunkData<V> {
    #[verifier::type_invariant]
    spec fn consistent(&self) -> bool {
        mesh_well_formed(self.positions@.len(), self.normals@.len(), self.indices@)
    }

    /// Builds a mesh from extraction output, or refuses buffers that do not
    /// form one.
    pub fn new(positions: Vec<V>, normals: Vec<V>, indices: Vec<u32>) -> (mesh: Option<Self>)
        ensures
            mesh.is_some() == mesh_well_formed(positions@.len(), normals@.len(), indices@),
            mesh matches Some(m) ==> m@.positions == positions@ && m@.normals == normals@
                && m@.indices == indices@,
    {
        if positions.len() != normals.len() || indices.len() % 3 != 0 {
            return None;
        }
        let count = positions.len();
        let mut i: usize = 0;
        while i < indices.len()
            invariant
                i <= indices.len(),
                count == positions.len(),
                forall|k: int| 0 <= k < i ==> (#[trigger] indices@[k]) < count,
            decreases indices.len() - i,
        {
            if indices[i] as usize >= count {
                return None;
            }
            i += 1;
        }
        Some(ChunkData { positions, normals, indices })
    }

    /// The mesh without any geometry.
    pub fn empty() -> (mesh: Self)
        ensures
            mesh@.positions.len() == 0,
            mesh@.normals.len() == 0,
            mesh@.indices.len() == 0,
            mesh@.is_empty(),
    {
        ChunkData { positions: Vec::new(), normals: Vec::new(), indices: Vec::new() }
    }

    /// Whether the mesh lacks vertices or triangles, so that there is nothing
    /// to show.
    pub fn is_empty(&self) -> (empty: bool)
        ensures
            empty == self@.is_empty(),
    {
        self.positions.len() == 0 || self.indices.len() == 0
    }

    /// Number of triangles.
    pub fn triangle_count(&self) -> (count: usize)
        ensures
            count * 3 == self@.indices.len(),
    {
        proof {
            use_type_invariant(self);
        }
        self.indices.len() / 3
    }

    /// The vertex positions.
    pub fn positions(&self) -> (positions: &Vec<V>)
        ensures
            positions@ == self@.positions,
            mesh_well_formed(positions@.len(), self@.normals.len(), self@.indices),
    {
        proof {
            use_type_invariant(self);
        }
        &self.positions
    }

    /// The vertex normals, one for each position.
    pub fn normals(&self) -> (normals: &Vec<V>)
        ensures
            normals@ == self@.normals,
            mesh_well_formed(self@.positions.len(), normals@.len(), self@.indices),
    {
        proof {
            use_type_invariant(self);
        }
        &self.normals
    }

    /// The triangle indices, three for each triangle.
    pub fn indices(&self) -> (indices: &Vec<u32>)
        ensures
            indices@ == self@.indices,
            mesh_well_formed(self@.positions.len(), self@.normals.len(), indices@),
    {
        proof {
            use_type_invariant(self);
        }
        &self.indices
    }
}

} // verus!

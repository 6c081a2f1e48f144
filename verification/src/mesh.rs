use vstd::prelude::*;

verus! {

/// What is wrong with the arrays of a mesh.
#[derive(Clone, Copy, Debug, PartialEq, Eq, Structural)]
pub enum MeshError {
    /// There is no vertex.
    NoVertices,
    /// The positions are not three numbers for each vertex.
    BrokenVertex,
    /// The colours are not four numbers for each vertex.
    ColorCount,
    /// The normals are not three numbers for each vertex.
    NormalCount,
    /// The indices are not three for each triangle.
    BrokenTriangle,
    /// An index names a vertex that is not there.
    IndexOutOfRange,
}

/// How long the arrays of a mesh are: how many numbers the positions, the colours
/// and the normals hold.
#[derive(Clone, Copy, Debug, PartialEq, Eq, Structural)]
pub struct MeshShape {
    pub position_floats: usize,
    pub color_floats: usize,
    pub normal_floats: usize,
}

impl MeshShape {
    /// The number of vertices, where the positions are three numbers for each.
    pub open spec fn vertex_count(self) -> int {
        self.position_floats as int / 3
    }
}

/// The first thing that is wrong with a mesh, if anything is: the arrays are
/// looked at in the order positions, colours, normals, indices.
pub open spec fn mesh_fault(shape: MeshShape, indices: Seq<u32>) -> Option<MeshError> {
    if shape.position_floats == 0 {
        Some(MeshError::NoVertices)
    } else if shape.position_floats % 3 != 0 {
        Some(MeshError::BrokenVertex)
    } else if shape.color_floats != 4 * shape.vertex_count() {
        Some(MeshError::ColorCount)
    } else if shape.normal_floats != 3 * shape.vertex_count() {
        Some(MeshError::NormalCount)
    } else if indices.len() % 3 != 0 {
        Some(MeshError::BrokenTriangle)
    } else if exists|i: int| 0 <= i < indices.len() && indices[i] >= shape.vertex_count() {
        Some(MeshError::IndexOutOfRange)
    } else {
        None
    }
}

/// Checks the arrays of a mesh before anything is made from them.
pub fn check_mesh(shape: MeshShape, indices: &Vec<u32>) -> (checked: Result<(), MeshError>)
    ensures
        match mesh_fault(shape, indices@) {
            Some(fault) => checked == Err::<(), MeshError>(fault),
            None => checked is Ok,
        },
{
    if shape.position_floats == 0 {
        return Err(MeshError::NoVertices);
    }
    if shape.position_floats % 3 != 0 {
        return Err(MeshError::BrokenVertex);
    }
    let vertex_count: usize = shape.position_floats / 3;
    if shape.color_floats % 4 != 0 || shape.color_floats / 4 != vertex_count {
        return Err(MeshError::ColorCount);
    }
    if shape.normal_floats != shape.position_floats {
        return Err(MeshError::NormalCount);
    }
    if indices.len() % 3 != 0 {
        return Err(MeshError::BrokenTriangle);
    }
    let mut i: usize = 0;
    while i < indices.len()
        invariant
            i <= indices.len(),
            vertex_count == shape.vertex_count(),
            shape.position_floats != 0,
            shape.position_floats % 3 == 0,
            shape.color_floats == 4 * shape.vertex_count(),
            shape.normal_floats == 3 * shape.vertex_count(),
            indices.len() % 3 == 0,
            forall|j: int| 0 <= j < i ==> indices@[j] < shape.vertex_count(),
        decreases indices.len() - i,
    {
        if indices[i] as usize >= vertex_count {
            assert(0 <= i < indices@.len() && indices@[i as int] >= shape.vertex_count());
            return Err(MeshError::IndexOutOfRange);
        }
        i += 1;
    }
    Ok(())
}

} // verus!

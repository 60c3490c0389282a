//! Canonical identities for vertices and faces synthesized while a new mesh
//! is under construction.
//!
//! Two discovery paths for "the same" synthesized element (for example the two
//! directed traversals of one undirected edge) must converge on one key, so
//! that the [`crate::builder::Builder`] can merge them without ever comparing
//! positions.

use vstd::prelude::*;

verus! {

/// Identity of a vertex of the mesh under construction.
#[derive(Clone, Copy, PartialEq, Eq, Structural, Debug)]
pub enum VertexKey {
    /// An original vertex, carried through unchanged.
    Seed(u32),
    /// The midpoint of the undirected edge between two original vertices,
    /// always stored with the smaller index first.
    Midpoint(u32, u32),
    /// The synthesized center of an original face (a centroid, or the apex of
    /// a pyramid erected over the face).
    Centroid(u32),
}

impl VertexKey {
    /// The canonical key for the midpoint of the undirected edge {first,
    /// second}: both orientations of the edge resolve to the same key.
    pub fn midpoint(first: u32, second: u32) -> (key: VertexKey)
        ensures
            key == VertexKey::spec_midpoint(first, second),
    {
        if first < second {
            VertexKey::Midpoint(first, second)
        } else {
            VertexKey::Midpoint(second, first)
        }
    }

    /// What [`VertexKey::midpoint`] returns: the edge's endpoints in
    /// nondecreasing order.
    pub open spec fn spec_midpoint(first: u32, second: u32) -> VertexKey {
        if first < second {
            VertexKey::Midpoint(first, second)
        } else {
            VertexKey::Midpoint(second, first)
        }
    }
}

/// Identity of a face of the mesh under construction.
#[derive(Clone, Copy, PartialEq, Eq, Structural, Debug)]
pub enum FaceKey {
    /// The replacement of an original face.
    Seed(u32),
    /// A new face surrounding an original vertex (ambo's small faces, dual's
    /// faces).
    Vertex(u32),
    /// One triangular side of the pyramid erected over an original face,
    /// identified by the face and by the pyramid-base vertex the side starts
    /// from.
    PyramidFace(u32, VertexKey),
}

/// The canonical midpoint key does not depend on the orientation in which an
/// edge is discovered.
pub proof fn lemma_midpoint_symmetric(first: u32, second: u32)
    ensures
        VertexKey::spec_midpoint(first, second) == VertexKey::spec_midpoint(second, first),
{
}

} // verus!

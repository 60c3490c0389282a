//! The named seed solids.
//!
//! The catalog itself is pure data — vertex positions parameterized by edge
//! length, and face index loops — supplied by the caller as an ordinary
//! starting mesh; these are the names it is indexed by.

use vstd::prelude::*;

verus! {

/// The five Platonic solids.
#[derive(Clone, Copy, Debug, Hash, Eq, Ord, PartialOrd, PartialEq, Structural)]
pub enum Platonic {
    Tetrahedron,
    Cube,
    Octahedron,
    Dodecahedron,
    Icosahedron,
}

impl Platonic {
    /// All five Platonic solids, in ascending face count.
    pub fn all() -> (r: Vec<Platonic>)
        ensures
            r@ == seq![
                Platonic::Tetrahedron,
                Platonic::Cube,
                Platonic::Octahedron,
                Platonic::Dodecahedron,
                Platonic::Icosahedron,
            ],
    {
        let mut r: Vec<Platonic> = Vec::new();
        r.push(Platonic::Tetrahedron);
        r.push(Platonic::Cube);
        r.push(Platonic::Octahedron);
        r.push(Platonic::Dodecahedron);
        r.push(Platonic::Icosahedron);
        proof {
            assert(r@ =~= seq![
                Platonic::Tetrahedron,
                Platonic::Cube,
                Platonic::Octahedron,
                Platonic::Dodecahedron,
                Platonic::Icosahedron,
            ]);
        }
        r
    }
}

/// A named seed mesh.
#[derive(Clone, Copy, Debug, Hash, Eq, Ord, PartialOrd, PartialEq, Structural)]
pub enum Seed {
    Platonic(Platonic),
}

} // verus!

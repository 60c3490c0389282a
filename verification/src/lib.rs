//! A polyhedral mesh engine: seed meshes are transformed by Conway-style
//! combinatorial operators (ambo, dual, kis) and their faces are grouped into
//! congruence classes for texturing.
//!
//! The engine is purely combinatorial. A mesh is generic in its point type
//! `P`: operators never inspect positions, they only synthesize new vertices
//! under canonical [`keys::VertexKey`] identities. Applying an operator yields
//! a `Polyhedron<VertexKey>` whose "positions" are those keys; a caller that
//! wants geometry evaluates each key against the input mesh (midpoint of an
//! edge, centroid of a face, apex above a face) in whatever scalar type it
//! uses for points.

pub mod builder;
pub mod classify;
pub mod keys;
pub mod laws;
pub mod notation;
pub mod operators;
pub mod polyhedron;
pub mod seeds;

pub use builder::BuildError;
pub use builder::Builder;
pub use keys::FaceKey;
pub use keys::VertexKey;
pub use operators::Kis;
pub use operators::KisError;
pub use operators::Operator;
pub use polyhedron::Face;
pub use polyhedron::Polyhedron;
pub use seeds::Platonic;
pub use seeds::Seed;

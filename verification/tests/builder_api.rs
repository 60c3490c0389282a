//! Unit tests of the mesh accumulator: key deduplication, flag registration,
//! and cycle reconstruction, including each reported defect.

use polyhedrator::BuildError;
use polyhedrator::Builder;
use polyhedrator::FaceKey;
use polyhedrator::VertexKey;

#[test]
fn midpoint_key_is_canonical() {
    assert_eq!(VertexKey::midpoint(3, 7), VertexKey::Midpoint(3, 7));
    assert_eq!(VertexKey::midpoint(7, 3), VertexKey::Midpoint(3, 7));
    assert_eq!(VertexKey::midpoint(5, 5), VertexKey::Midpoint(5, 5));
}

#[test]
fn add_vertex_assigns_sequential_indices_and_merges_keys() {
    let mut b: Builder<u32> = Builder::new();
    b.add_vertex(VertexKey::Seed(0), 100).unwrap();
    b.add_vertex(VertexKey::Seed(1), 101).unwrap();
    // Re-registration under an existing key is a no-op.
    b.add_vertex(VertexKey::Seed(0), 999).unwrap();
    b.add_vertex(VertexKey::midpoint(1, 0), 102).unwrap();
    b.add_vertex(VertexKey::midpoint(0, 1), 888).unwrap();
    assert_eq!(b.vertices, vec![100, 101, 102]);
    assert_eq!(
        b.keys,
        vec![
            VertexKey::Seed(0),
            VertexKey::Seed(1),
            VertexKey::Midpoint(0, 1)
        ]
    );
}

#[test]
fn add_flag_rejects_degenerate_and_conflicting_edges() {
    let mut b: Builder<u32> = Builder::new();
    assert_eq!(
        b.add_flag(FaceKey::Seed(0), VertexKey::Seed(1), VertexKey::Seed(1)),
        Err(BuildError::DegenerateEdge)
    );
    b.add_flag(FaceKey::Seed(0), VertexKey::Seed(1), VertexKey::Seed(2)).unwrap();
    // Re-registering the same edge is a no-op.
    b.add_flag(FaceKey::Seed(0), VertexKey::Seed(1), VertexKey::Seed(2)).unwrap();
    // A different destination from a registered source is a defect.
    assert_eq!(
        b.add_flag(FaceKey::Seed(0), VertexKey::Seed(1), VertexKey::Seed(3)),
        Err(BuildError::ConflictingEdge)
    );
    // The same source under another face key is its own successor map.
    b.add_flag(FaceKey::Seed(1), VertexKey::Seed(1), VertexKey::Seed(3)).unwrap();
}

#[test]
fn build_recovers_cyclic_order_from_any_registration_order() {
    let mut b: Builder<u32> = Builder::new();
    for i in 0..4u32 {
        b.add_vertex(VertexKey::Seed(i), i).unwrap();
    }
    // Register a square's edges out of order; the walk recovers the cycle.
    b.add_flag(FaceKey::Seed(0), VertexKey::Seed(2), VertexKey::Seed(3)).unwrap();
    b.add_flag(FaceKey::Seed(0), VertexKey::Seed(0), VertexKey::Seed(1)).unwrap();
    b.add_flag(FaceKey::Seed(0), VertexKey::Seed(3), VertexKey::Seed(0)).unwrap();
    b.add_flag(FaceKey::Seed(0), VertexKey::Seed(1), VertexKey::Seed(2)).unwrap();
    let mesh = b.build_polyhedron().unwrap();
    assert_eq!(mesh.vertices, vec![0, 1, 2, 3]);
    assert_eq!(mesh.faces.len(), 1);
    // The walk starts at the first registered edge's destination.
    assert_eq!(mesh.faces[0].indices, vec![3, 0, 1, 2]);
}

#[test]
fn build_reports_a_walk_with_no_successor() {
    let mut b: Builder<u32> = Builder::new();
    for i in 0..3u32 {
        b.add_vertex(VertexKey::Seed(i), i).unwrap();
    }
    b.add_flag(FaceKey::Seed(0), VertexKey::Seed(0), VertexKey::Seed(1)).unwrap();
    b.add_flag(FaceKey::Seed(0), VertexKey::Seed(1), VertexKey::Seed(2)).unwrap();
    // 2 has no outgoing edge: the walk cannot close.
    match b.build_polyhedron() {
        Err(e) => assert_eq!(e, BuildError::MissingSuccessor),
        Ok(_) => panic!("expected a missing-successor defect"),
    }
}

#[test]
fn build_reports_an_unregistered_vertex() {
    let mut b: Builder<u32> = Builder::new();
    b.add_vertex(VertexKey::Seed(0), 0).unwrap();
    b.add_flag(FaceKey::Seed(0), VertexKey::Seed(0), VertexKey::Seed(1)).unwrap();
    b.add_flag(FaceKey::Seed(0), VertexKey::Seed(1), VertexKey::Seed(0)).unwrap();
    // Seed(1) was walked but never registered as a vertex.
    match b.build_polyhedron() {
        Err(e) => assert_eq!(e, BuildError::UnregisteredVertex),
        Ok(_) => panic!("expected an unregistered-vertex defect"),
    }
}

#[test]
fn build_reports_a_walk_that_cannot_return_to_its_start() {
    let mut b: Builder<u32> = Builder::new();
    for i in 0..4u32 {
        b.add_vertex(VertexKey::Seed(i), i).unwrap();
    }
    // The walk starts at 1 but runs into the cycle 2 -> 3 -> 2, never
    // returning to its start.
    b.add_flag(FaceKey::Seed(0), VertexKey::Seed(0), VertexKey::Seed(1)).unwrap();
    b.add_flag(FaceKey::Seed(0), VertexKey::Seed(1), VertexKey::Seed(2)).unwrap();
    b.add_flag(FaceKey::Seed(0), VertexKey::Seed(2), VertexKey::Seed(3)).unwrap();
    b.add_flag(FaceKey::Seed(0), VertexKey::Seed(3), VertexKey::Seed(2)).unwrap();
    match b.build_polyhedron() {
        Err(e) => assert_eq!(e, BuildError::UnclosedWalk),
        Ok(_) => panic!("expected an unclosed-walk defect"),
    }
}

#[test]
fn build_keeps_bucket_registration_order() {
    let mut b: Builder<&'static str> = Builder::new();
    b.add_vertex(VertexKey::Seed(0), "a").unwrap();
    b.add_vertex(VertexKey::Seed(1), "b").unwrap();
    b.add_vertex(VertexKey::Seed(2), "c").unwrap();
    for face in 0..3u32 {
        b.add_flag(FaceKey::Vertex(face), VertexKey::Seed(0), VertexKey::Seed(1)).unwrap();
        b.add_flag(FaceKey::Vertex(face), VertexKey::Seed(1), VertexKey::Seed(2)).unwrap();
        b.add_flag(FaceKey::Vertex(face), VertexKey::Seed(2), VertexKey::Seed(0)).unwrap();
    }
    let mesh = b.build_polyhedron().unwrap();
    assert_eq!(mesh.faces.len(), 3);
    for face in &mesh.faces {
        assert_eq!(face.indices, vec![1, 2, 0]);
    }
}

#[test]
fn build_of_an_empty_accumulator_is_the_empty_mesh() {
    let b: Builder<u32> = Builder::new();
    let mesh = b.build_polyhedron().unwrap();
    assert_eq!(mesh.vertices.len(), 0);
    assert_eq!(mesh.faces.len(), 0);
}

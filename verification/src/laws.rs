//! Combinatorial laws of the operators.
//!
//! The central one is the triangulation law of the unrestricted `kis`: on a
//! well-formed mesh — every face simple with valid indices — it succeeds and
//! replaces every face by exactly as many triangles as it has sides, adding
//! one apex vertex per face. The proof characterizes the builder state the
//! operator's fold accumulates (one fresh three-edge bucket per original
//! edge, the seed keys followed by one apex key per face) and then walks
//! each bucket. From it follows that `kis` preserves the mesh's Euler
//! characteristic. Alongside stands the count half of the dual involution:
//! dual trades each face for exactly one centroid vertex.

use vstd::prelude::*;

use crate::builder::BuildError;
use crate::builder::Edge;
use crate::builder::lemma_find_bucket;
use crate::builder::lemma_key_index;
use crate::builder::spec_add_edge;
use crate::builder::spec_add_flag;
use crate::builder::spec_bucket_face;
use crate::builder::spec_build_faces;
use crate::builder::spec_find_bucket;
use crate::builder::spec_find_next;
use crate::builder::spec_key_index;
use crate::builder::spec_walk;
use crate::keys::FaceKey;
use crate::keys::VertexKey;
use crate::operators::OpState;
use crate::operators::cyclic_prev;
use crate::operators::mesh_fits_u32;
use crate::operators::spec_dual;
use crate::operators::spec_kis;
use crate::operators::spec_kis_face;
use crate::operators::spec_kis_faces;
use crate::operators::spec_kis_seeds;
use crate::operators::spec_kis_step;
use crate::operators::spec_register_key;
use crate::polyhedron::face_indices_valid;
use crate::polyhedron::face_simple;
use crate::polyhedron::lemma_sum_of_valences_take_step;
use crate::polyhedron::mesh_well_formed;
use crate::polyhedron::seed_keys;
use crate::polyhedron::sum_of_valences;

verus! {

/// The apex key of face `fi`.
pub open spec fn apex_of(fi: int) -> VertexKey {
    VertexKey::Centroid(fi as u32)
}

/// The three edges of the pyramid side grown over the edge ending at
/// position `j` of face `fi`: around the triangle `v1 -> v2 -> apex -> v1`.
pub open spec fn tri_edges(face: Seq<u32>, fi: int, j: int) -> Seq<Edge> {
    let v1 = VertexKey::Seed(cyclic_prev(face, j, 1));
    let v2 = VertexKey::Seed(face[j]);
    seq![
        Edge { source: v1, destination: v2 },
        Edge { source: v2, destination: apex_of(fi) },
        Edge { source: apex_of(fi), destination: v1 },
    ]
}

/// The finished bucket of that pyramid side, under its face key.
pub open spec fn tri_bucket(face: Seq<u32>, fi: int, j: int) -> (FaceKey, Seq<Edge>) {
    (
        FaceKey::PyramidFace(fi as u32, VertexKey::Seed(cyclic_prev(face, j, 1))),
        tri_edges(face, fi, j),
    )
}

/// All of face `fi`'s pyramid-side buckets, one per edge, in edge order.
pub open spec fn face_buckets(face: Seq<u32>, fi: int) -> Seq<(FaceKey, Seq<Edge>)> {
    Seq::new(face.len(), |j: int| tri_bucket(face, fi, j))
}

/// The flag buckets after the first `i` faces have been pyramided.
pub open spec fn kis_flags(faces: Seq<Seq<u32>>, i: int) -> Seq<(FaceKey, Seq<Edge>)>
    decreases i,
{
    if i <= 0 {
        Seq::empty()
    } else {
        kis_flags(faces, i - 1) + face_buckets(faces[i - 1], i - 1)
    }
}

/// The registered keys after the first `i` faces have been pyramided: every
/// seed key, then one apex per face in face order.
pub open spec fn kis_keys(num_vertices: nat, i: int) -> Seq<VertexKey> {
    seed_keys(num_vertices) + Seq::new(i as nat, |f: int| apex_of(f))
}

/// A pyramid-side face key of one of the first `i` faces.
pub open spec fn is_pyramid_key_below(key: FaceKey, i: int) -> bool {
    match key {
        FaceKey::PyramidFace(f, _) => (f as int) < i,
        _ => false,
    }
}

/// A bucket of three edges around a triangle of three distinct, registered
/// keys: the shape every accumulated bucket has.
pub open spec fn is_triangle_bucket(
    bucket: Seq<Edge>,
    keys: Seq<VertexKey>,
) -> bool {
    &&& bucket.len() == 3
    &&& bucket[1].source == bucket[0].destination
    &&& bucket[2].source == bucket[1].destination
    &&& bucket[2].destination == bucket[0].source
    &&& bucket[0].source != bucket[0].destination
    &&& bucket[0].source != bucket[1].destination
    &&& bucket[0].destination != bucket[1].destination
    &&& keys.contains(bucket[0].source)
    &&& keys.contains(bucket[0].destination)
    &&& keys.contains(bucket[1].destination)
}

/// Every accumulated bucket key names one of the first `i` faces, and every
/// accumulated bucket is a triangle over registered keys; there is one
/// bucket per walked edge.
proof fn lemma_kis_flags_shape(faces: Seq<Seq<u32>>, num_vertices: nat, i: int, n: int)
    requires
        mesh_well_formed(faces, num_vertices),
        faces.len() <= u32::MAX,
        num_vertices <= u32::MAX,
        0 <= i <= n <= faces.len(),
    ensures
        kis_flags(faces, i).len() == sum_of_valences(faces.take(i)),
        forall|b: int|
            0 <= b < kis_flags(faces, i).len() ==> is_pyramid_key_below(
                (#[trigger] kis_flags(faces, i)[b]).0,
                i,
            ),
        forall|b: int|
            0 <= b < kis_flags(faces, i).len() ==> is_triangle_bucket(
                (#[trigger] kis_flags(faces, i)[b]).1,
                kis_keys(num_vertices, n),
            ),
    decreases i,
{
    if i > 0 {
        lemma_kis_flags_shape(faces, num_vertices, i - 1, n);
        lemma_sum_of_valences_take_step(faces, i - 1);
        assert(faces.take(i).drop_last() =~= faces.take(i - 1));
        let prev = kis_flags(faces, i - 1);
        let face = faces[i - 1];
        let group = face_buckets(face, i - 1);
        let cur = kis_flags(faces, i);
        assert(face_simple(face) && face_indices_valid(face, num_vertices));
        assert forall|b: int| 0 <= b < cur.len() implies is_pyramid_key_below(
            (#[trigger] cur[b]).0,
            i,
        ) && is_triangle_bucket(cur[b].1, kis_keys(num_vertices, n)) by {
            if b < prev.len() {
                assert(cur[b] == prev[b]);
            } else {
                let jj = b - prev.len();
                assert(cur[b] == group[jj]);
                assert(cur[b] == tri_bucket(face, i - 1, jj));
                lemma_tri_bucket_is_triangle(faces, num_vertices, i - 1, jj, n);
            }
        }
    } else {
        assert(faces.take(0) =~= Seq::<Seq<u32>>::empty());
    }
}

/// One pyramid side of a well-formed face is a triangle bucket over
/// registered keys, named below its own face index plus one.
proof fn lemma_tri_bucket_is_triangle(
    faces: Seq<Seq<u32>>,
    num_vertices: nat,
    fi: int,
    j: int,
    n: int,
)
    requires
        mesh_well_formed(faces, num_vertices),
        faces.len() <= u32::MAX,
        num_vertices <= u32::MAX,
        0 <= fi < n <= faces.len(),
        0 <= j < faces[fi].len(),
    ensures
        is_pyramid_key_below(tri_bucket(faces[fi], fi, j).0, fi + 1),
        is_triangle_bucket(tri_bucket(faces[fi], fi, j).1, kis_keys(num_vertices, n)),
{
    let face = faces[fi];
    assert(face_simple(face) && face_indices_valid(face, num_vertices));
    let p = if j - 1 >= 0 {
        j - 1
    } else {
        face.len() as int - 1
    };
    let v1 = face[p];
    let v2 = face[j];
    assert(cyclic_prev(face, j, 1) == v1);
    assert(v1 != v2);
    let keys = kis_keys(num_vertices, n);
    assert(keys[v1 as int] == seed_keys(num_vertices)[v1 as int]);
    assert(keys[v1 as int] == VertexKey::Seed(v1));
    assert(keys[v2 as int] == VertexKey::Seed(v2));
    assert(keys[num_vertices + fi] == Seq::new(n as nat, |f: int| apex_of(f))[fi]);
    assert(keys[num_vertices + fi] == apex_of(fi));
    assert(keys.contains(VertexKey::Seed(v1)));
    assert(keys.contains(VertexKey::Seed(v2)));
    assert(keys.contains(apex_of(fi)));
}

/// The first pass registers exactly the seed keys, in index order.
proof fn lemma_kis_seeds_run(num_vertices: nat, i: int)
    requires
        num_vertices <= u32::MAX,
        0 <= i <= num_vertices,
    ensures
        spec_kis_seeds(seed_keys(num_vertices).take(i), num_vertices as int, i) == Ok::<
            Seq<VertexKey>,
            BuildError,
        >(seed_keys(num_vertices)),
    decreases num_vertices - i,
{
    let all = seed_keys(num_vertices);
    let keys = all.take(i);
    if i < num_vertices {
        let key = VertexKey::Seed(i as u32);
        assert forall|k: int| 0 <= k < keys.len() implies keys[k] != key by {
            assert(keys[k] == VertexKey::Seed(k as u32));
        }
        assert(!keys.contains(key));
        assert(spec_register_key(keys, key) == Ok::<Seq<VertexKey>, BuildError>(keys.push(key)));
        assert(keys.push(key) =~= all.take(i + 1));
        lemma_kis_seeds_run(num_vertices, i + 1);
    } else {
        assert(keys =~= all);
    }
}

/// No accumulated key equals face `fi`'s apex before that face is pyramided.
proof fn lemma_apex_fresh(num_vertices: nat, fi: int)
    requires
        0 <= fi <= u32::MAX,
    ensures
        !kis_keys(num_vertices, fi).contains(apex_of(fi)),
{
    let keys = kis_keys(num_vertices, fi);
    assert forall|k: int| 0 <= k < keys.len() implies keys[k] != apex_of(fi) by {
        if k < num_vertices {
            assert(keys[k] == seed_keys(num_vertices)[k]);
            assert(keys[k] == VertexKey::Seed(k as u32));
        } else {
            assert(keys[k] == Seq::new(fi as nat, |f: int| apex_of(f))[k - num_vertices]);
            assert(keys[k] == apex_of(k - num_vertices));
        }
    }
}

/// No accumulated bucket carries face `fi`'s pyramid key for the edge at
/// position `j` before that edge is walked.
proof fn lemma_pyramid_key_fresh(
    faces: Seq<Seq<u32>>,
    num_vertices: nat,
    fi: int,
    j: int,
    flags: Seq<(FaceKey, Seq<Edge>)>,
)
    requires
        mesh_well_formed(faces, num_vertices),
        faces.len() <= u32::MAX,
        num_vertices <= u32::MAX,
        0 <= fi < faces.len(),
        0 <= j < faces[fi].len(),
        flags == kis_flags(faces, fi) + face_buckets(faces[fi], fi).take(j),
    ensures
        spec_find_bucket(flags, tri_bucket(faces[fi], fi, j).0) is None,
        forall|b: int|
            0 <= b < flags.len() ==> (#[trigger] flags[b]).0 != tri_bucket(faces[fi], fi, j).0,
{
    let face = faces[fi];
    let pk = tri_bucket(face, fi, j).0;
    lemma_kis_flags_shape(faces, num_vertices, fi, fi);
    let prev = kis_flags(faces, fi);
    assert forall|b: int| 0 <= b < flags.len() implies (#[trigger] flags[b]).0 != pk by {
        if b < prev.len() {
            assert(flags[b] == prev[b]);
            assert(is_pyramid_key_below(prev[b].0, fi));
        } else {
            let jj = b - prev.len();
            assert(flags[b] == face_buckets(face, fi).take(j)[jj]);
            assert(flags[b] == tri_bucket(face, fi, jj));
            assert(0 <= jj < j);
            // Distinct edge positions start from distinct vertices of a
            // simple face.
            assert(face_simple(face));
            let a1 = if jj - 1 >= 0 {
                jj - 1
            } else {
                face.len() as int - 1
            };
            let a2 = if j - 1 >= 0 {
                j - 1
            } else {
                face.len() as int - 1
            };
            assert(cyclic_prev(face, jj, 1) == face[a1]);
            assert(cyclic_prev(face, j, 1) == face[a2]);
            assert(a1 != a2);
            assert(face[a1] != face[a2]);
        }
    }
    lemma_find_bucket(flags, pk);
    if spec_find_bucket(flags, pk) is Some {
        let b = spec_find_bucket(flags, pk).unwrap();
        assert(flags[b].0 == pk);
    }
}

/// Processing face `fi` from edge position `j` on completes the face's
/// pyramid: one fresh triangle bucket per remaining edge, the apex key
/// registered once.
proof fn lemma_kis_face_state(faces: Seq<Seq<u32>>, num_vertices: nat, fi: int, j: int)
    requires
        mesh_well_formed(faces, num_vertices),
        mesh_fits_u32(faces, num_vertices),
        num_vertices + faces.len() <= u32::MAX,
        0 <= fi < faces.len(),
        0 <= j <= faces[fi].len(),
    ensures
        ({
            let keys0 = if j == 0 {
                kis_keys(num_vertices, fi)
            } else {
                kis_keys(num_vertices, fi + 1)
            };
            let flags0 = kis_flags(faces, fi) + face_buckets(faces[fi], fi).take(j);
            spec_kis_face((flags0, keys0), 0, fi, faces[fi], j) == Ok::<OpState, BuildError>(
                (kis_flags(faces, fi + 1), kis_keys(num_vertices, fi + 1)),
            )
        }),
    decreases faces[fi].len() - j,
{
    let face = faces[fi];
    assert(face_simple(face) && face_indices_valid(face, num_vertices));
    let keys0 = if j == 0 {
        kis_keys(num_vertices, fi)
    } else {
        kis_keys(num_vertices, fi + 1)
    };
    let flags0 = kis_flags(faces, fi) + face_buckets(face, fi).take(j);
    if j == face.len() {
        assert(face_buckets(face, fi).take(j) =~= face_buckets(face, fi));
        assert(flags0 == kis_flags(faces, fi + 1));
        assert(spec_kis_face((flags0, keys0), 0, fi, face, j) == Ok::<OpState, BuildError>(
            (flags0, keys0),
        ));
    } else {
        let p = if j - 1 >= 0 {
            j - 1
        } else {
            face.len() as int - 1
        };
        let v1u = face[p];
        let v2u = face[j];
        assert(cyclic_prev(face, j, 1) == v1u);
        assert(v1u != v2u);
        let v1 = VertexKey::Seed(v1u);
        let v2 = VertexKey::Seed(v2u);
        let apex = apex_of(fi);
        let pk = tri_bucket(face, fi, j).0;
        let e1 = Edge { source: v1, destination: v2 };
        let e2 = Edge { source: v2, destination: apex };
        let e3 = Edge { source: apex, destination: v1 };

        // The apex is registered once, at the face's first edge.
        let keys1 = kis_keys(num_vertices, fi + 1);
        if j == 0 {
            lemma_apex_fresh(num_vertices, fi);
            assert(keys0.len() == num_vertices + fi < u32::MAX);
            assert(spec_register_key(keys0, apex) == Ok::<Seq<VertexKey>, BuildError>(
                keys0.push(apex),
            ));
            assert(keys0.push(apex) =~= keys1);
        } else {
            assert(keys0[num_vertices as int + fi] == Seq::new(
                (fi + 1) as nat,
                |f: int| apex_of(f),
            )[fi]);
            assert(keys0[num_vertices as int + fi] == apex);
            assert(keys0.contains(apex));
            assert(spec_register_key(keys0, apex) == Ok::<Seq<VertexKey>, BuildError>(keys0));
        }

        // First flag: the bucket is fresh, so it is appended with one edge.
        lemma_pyramid_key_fresh(faces, num_vertices, fi, j, flags0);
        let flags1 = flags0.push((pk, seq![e1]));
        assert(spec_add_flag(flags0, pk, v1, v2) == Ok::<Seq<(FaceKey, Seq<Edge>)>, BuildError>(
            flags1,
        ));
        let last = flags0.len() as int;

        // Second flag: appended to the bucket just created.
        lemma_find_bucket(flags1, pk);
        assert(flags1[last].0 == pk);
        assert(spec_find_bucket(flags1, pk) == Some(last)) by {
            match spec_find_bucket(flags1, pk) {
                Some(b) => {
                    if b < last {
                        assert(flags1[b] == flags0[b]);
                    }
                },
                None => {
                    assert(flags1[last].0 != pk);
                },
            }
        }
        assert(seq![e1].drop_first() =~= Seq::<Edge>::empty());
        assert(spec_find_next(Seq::<Edge>::empty(), v2) is None);
        assert(spec_find_next(seq![e1], v2) is None);
        assert(spec_add_edge(seq![e1], v2, apex) == Ok::<Seq<Edge>, BuildError>(
            seq![e1].push(e2),
        ));
        assert(seq![e1].push(e2) =~= seq![e1, e2]);
        let flags2 = flags1.update(last, (pk, seq![e1, e2]));
        assert(spec_add_flag(flags1, pk, v2, apex) == Ok::<Seq<(FaceKey, Seq<Edge>)>, BuildError>(
            flags2,
        ));

        // Third flag: closes the triangle.
        lemma_find_bucket(flags2, pk);
        assert(flags2[last].0 == pk);
        assert(spec_find_bucket(flags2, pk) == Some(last)) by {
            match spec_find_bucket(flags2, pk) {
                Some(b) => {
                    if b < last {
                        assert(flags2[b] == flags1[b]);
                        assert(flags1[b] == flags0[b]);
                    }
                },
                None => {
                    assert(flags2[last].0 != pk);
                },
            }
        }
        assert(seq![e1, e2].drop_first() =~= seq![e2]);
        assert(seq![e2].drop_first() =~= Seq::<Edge>::empty());
        assert(spec_find_next(Seq::<Edge>::empty(), apex) is None);
        assert(spec_find_next(seq![e2], apex) is None);
        assert(spec_find_next(seq![e1, e2], apex) is None);
        assert(spec_add_edge(seq![e1, e2], apex, v1) == Ok::<Seq<Edge>, BuildError>(
            seq![e1, e2].push(e3),
        ));
        assert(seq![e1, e2].push(e3) =~= tri_edges(face, fi, j));
        let flags3 = flags2.update(last, tri_bucket(face, fi, j));
        assert(spec_add_flag(flags2, pk, apex, v1) == Ok::<Seq<(FaceKey, Seq<Edge>)>, BuildError>(
            flags3,
        ));

        // The state now holds this edge's finished bucket as well.
        assert(flags3 =~~= kis_flags(faces, fi) + face_buckets(face, fi).take(j + 1)) by {
            assert(face_buckets(face, fi).take(j + 1) =~= face_buckets(face, fi).take(j).push(
                tri_bucket(face, fi, j),
            ));
        }
        assert(spec_kis_step((flags0, keys0), 0, fi, face, j) == Ok::<OpState, BuildError>(
            (flags3, keys1),
        ));
        lemma_kis_face_state(faces, num_vertices, fi, j + 1);
        assert(spec_kis_face((flags3, keys1), 0, fi, face, j + 1) == Ok::<OpState, BuildError>(
            (kis_flags(faces, fi + 1), kis_keys(num_vertices, fi + 1)),
        ));
    }
}

/// A triangle bucket over registered keys always assembles: the walk starts
/// at the first edge's destination and closes after visiting the bucket's
/// three corners.
proof fn lemma_triangle_bucket_walk(bucket: Seq<Edge>, keys: Seq<VertexKey>)
    requires
        is_triangle_bucket(bucket, keys),
    ensures
        spec_bucket_face(bucket, keys) is Ok,
        spec_bucket_face(bucket, keys).unwrap().len() == 3,
{
    let e1 = bucket[0];
    let e2 = bucket[1];
    let e3 = bucket[2];
    let s0 = e1.source;
    let s1 = e1.destination;
    let s2 = e2.destination;
    assert(bucket =~= seq![e1, e2, e3]);
    assert(bucket.drop_first() =~= seq![e2, e3]);
    assert(seq![e2, e3].drop_first() =~= seq![e3]);

    lemma_key_index(keys, s0);
    lemma_key_index(keys, s1);
    lemma_key_index(keys, s2);
    assert(spec_key_index(keys, s0) is Some);
    assert(spec_key_index(keys, s1) is Some);
    assert(spec_key_index(keys, s2) is Some);

    // The successor of each corner.
    assert(spec_find_next(seq![e2, e3], s1) == Some(s2));
    assert(spec_find_next(bucket, s1) == Some(s2));
    assert(spec_find_next(seq![e3], s2) == Some(s0));
    assert(spec_find_next(seq![e2, e3], s2) == Some(s0));
    assert(spec_find_next(bucket, s2) == Some(s0));
    assert(spec_find_next(bucket, s0) == Some(s1));

    // The walk: s1 -> s2 -> s0 -> back to s1.
    let i0 = spec_key_index(keys, s0).unwrap();
    let i1 = spec_key_index(keys, s1).unwrap();
    let i2 = spec_key_index(keys, s2).unwrap();
    assert(spec_walk(bucket, keys, s1, s0, 1) == Ok::<Seq<u32>, BuildError>(seq![i0 as u32]));
    assert(spec_walk(bucket, keys, s1, s2, 2) == Ok::<Seq<u32>, BuildError>(
        seq![i2 as u32] + seq![i0 as u32],
    ));
    assert(spec_walk(bucket, keys, s1, s1, 3) == Ok::<Seq<u32>, BuildError>(
        seq![i1 as u32] + (seq![i2 as u32] + seq![i0 as u32]),
    ));
    assert(spec_bucket_face(bucket, keys) == spec_walk(bucket, keys, s1, s1, 3));
}

/// A bucket list of triangles over registered keys builds into one triangle
/// per bucket, in bucket order.
proof fn lemma_build_all_triangles(flags: Seq<(FaceKey, Seq<Edge>)>, keys: Seq<VertexKey>)
    requires
        forall|b: int|
            0 <= b < flags.len() ==> is_triangle_bucket((#[trigger] flags[b]).1, keys),
    ensures
        spec_build_faces(flags, keys) is Ok,
        spec_build_faces(flags, keys).unwrap().len() == flags.len(),
        forall|k: int|
            0 <= k < flags.len() ==> (#[trigger] spec_build_faces(flags, keys).unwrap()[k]).len()
                == 3,
    decreases flags.len(),
{
    if flags.len() > 0 {
        assert forall|b: int| 0 <= b < flags.drop_first().len() implies is_triangle_bucket(
            (#[trigger] flags.drop_first()[b]).1,
            keys,
        ) by {
            assert(flags.drop_first()[b] == flags[b + 1]);
        }
        lemma_build_all_triangles(flags.drop_first(), keys);
        lemma_triangle_bucket_walk(flags[0].1, keys);
        let rest = spec_build_faces(flags.drop_first(), keys).unwrap();
        let head = spec_bucket_face(flags[0].1, keys).unwrap();
        assert(spec_build_faces(flags, keys) == Ok::<Seq<Seq<u32>>, BuildError>(
            seq![head] + rest,
        ));
        assert forall|k: int| 0 <= k < flags.len() implies (#[trigger] spec_build_faces(
            flags,
            keys,
        ).unwrap()[k]).len() == 3 by {
            if k > 0 {
                assert((seq![head] + rest)[k] == rest[k - 1]);
            }
        }
    }
}

/// The face fold from face `i` on completes every remaining pyramid.
proof fn lemma_kis_faces_state(faces: Seq<Seq<u32>>, num_vertices: nat, i: int)
    requires
        mesh_well_formed(faces, num_vertices),
        mesh_fits_u32(faces, num_vertices),
        num_vertices + faces.len() <= u32::MAX,
        0 <= i <= faces.len(),
    ensures
        spec_kis_faces((kis_flags(faces, i), kis_keys(num_vertices, i)), 0, faces, i) == Ok::<
            OpState,
            BuildError,
        >((kis_flags(faces, faces.len() as int), kis_keys(num_vertices, faces.len() as int))),
    decreases faces.len() - i,
{
    if i < faces.len() {
        lemma_kis_face_state(faces, num_vertices, i, 0);
        assert(face_buckets(faces[i], i).take(0) =~= Seq::<(FaceKey, Seq<Edge>)>::empty());
        assert(kis_flags(faces, i) + face_buckets(faces[i], i).take(0) =~= kis_flags(faces, i));
        assert(spec_kis_face((kis_flags(faces, i), kis_keys(num_vertices, i)), 0, i, faces[i], 0)
            == Ok::<OpState, BuildError>(
            (kis_flags(faces, i + 1), kis_keys(num_vertices, i + 1)),
        ));
        lemma_kis_faces_state(faces, num_vertices, i + 1);
    }
}

/// LAW (unrestricted kis triangulates): on any well-formed mesh that fits
/// 32-bit indexing, `kis` with no valence restriction succeeds; every face of
/// the output is a triangle; there are exactly as many triangles as the input
/// has face sides in total; and the output has one vertex per input vertex
/// plus one apex per input face. (That each apex lies on its face's plane
/// when the apex scale is zero is a fact about positions, which the engine
/// does not compute.)
pub proof fn lemma_kis_unrestricted_triangulates(faces: Seq<Seq<u32>>, num_vertices: nat)
    requires
        mesh_well_formed(faces, num_vertices),
        mesh_fits_u32(faces, num_vertices),
        num_vertices + faces.len() <= u32::MAX,
    ensures
        spec_kis(faces, num_vertices, 0) is Ok,
        spec_kis(faces, num_vertices, 0).unwrap().0.len() == num_vertices + faces.len(),
        spec_kis(faces, num_vertices, 0).unwrap().1.len() == sum_of_valences(faces),
        forall|k: int|
            0 <= k < sum_of_valences(faces) ==> (#[trigger] spec_kis(
                faces,
                num_vertices,
                0,
            ).unwrap().1[k]).len() == 3,
{
    let n = faces.len() as int;

    // The first pass registers the seed keys.
    lemma_kis_seeds_run(num_vertices, 0);
    assert(seed_keys(num_vertices).take(0) =~= Seq::<VertexKey>::empty());
    assert(spec_kis_seeds(Seq::empty(), num_vertices as int, 0) == Ok::<
        Seq<VertexKey>,
        BuildError,
    >(seed_keys(num_vertices)));

    // The face fold accumulates one triangle bucket per edge and one apex per
    // face.
    lemma_kis_faces_state(faces, num_vertices, 0);
    assert(kis_flags(faces, 0) =~= Seq::<(FaceKey, Seq<Edge>)>::empty());
    assert(kis_keys(num_vertices, 0) =~= seed_keys(num_vertices));
    assert((Seq::<(FaceKey, Seq<Edge>)>::empty(), seed_keys(num_vertices)) == (
        kis_flags(faces, 0),
        kis_keys(num_vertices, 0),
    ));
    let flags = kis_flags(faces, n);
    let keys = kis_keys(num_vertices, n);
    assert(spec_kis_faces((Seq::empty(), seed_keys(num_vertices)), 0, faces, 0) == Ok::<
        OpState,
        BuildError,
    >((flags, keys)));

    // Every accumulated bucket walks into a triangle.
    lemma_kis_flags_shape(faces, num_vertices, n, n);
    assert(faces.take(n) =~= faces);
    lemma_build_all_triangles(flags, keys);
    assert(keys.len() == num_vertices + n);
}

/// A list of triangles has three sides per face.
proof fn lemma_sum_of_valences_all_three(faces: Seq<Seq<u32>>)
    requires
        forall|k: int| 0 <= k < faces.len() ==> (#[trigger] faces[k]).len() == 3,
    ensures
        sum_of_valences(faces) == 3 * faces.len(),
    decreases faces.len(),
{
    if faces.len() > 0 {
        lemma_sum_of_valences_all_three(faces.drop_last());
    }
}

/// LAW (kis preserves the Euler characteristic): on any well-formed mesh
/// that fits 32-bit indexing, the unrestricted kis output satisfies
/// `2V - valence_sum + 2F == 2v - valence_sum + 2f` — the doubled Euler
/// characteristic `V - E + F` with `E` half the valence sum is unchanged, so
/// it remains 2 on every closed mesh.
pub proof fn lemma_kis_preserves_euler(faces: Seq<Seq<u32>>, num_vertices: nat)
    requires
        mesh_well_formed(faces, num_vertices),
        mesh_fits_u32(faces, num_vertices),
        num_vertices + faces.len() <= u32::MAX,
    ensures
        ({
            let out = spec_kis(faces, num_vertices, 0).unwrap();
            2 * out.0.len() - sum_of_valences(out.1) + 2 * out.1.len() == 2 * num_vertices
                - sum_of_valences(faces) + 2 * faces.len()
        }),
{
    lemma_kis_unrestricted_triangulates(faces, num_vertices);
    let out = spec_kis(faces, num_vertices, 0).unwrap();
    assert forall|k: int| 0 <= k < out.1.len() implies (#[trigger] out.1[k]).len() == 3 by {
        assert(spec_kis(faces, num_vertices, 0).unwrap().1[k].len() == 3);
    }
    lemma_sum_of_valences_all_three(out.1);
}

/// Dual's first pass registers exactly one centroid key per face, in face
/// order.
proof fn lemma_dual_centroids_run(nfaces: int, i: int)
    requires
        0 <= i <= nfaces <= u32::MAX,
    ensures
        crate::operators::spec_dual_centroids(
            Seq::new(i as nat, |f: int| apex_of(f)),
            nfaces,
            i,
        ) == Ok::<Seq<VertexKey>, BuildError>(Seq::new(nfaces as nat, |f: int| apex_of(f))),
    decreases nfaces - i,
{
    let keys = Seq::new(i as nat, |f: int| apex_of(f));
    if i < nfaces {
        let key = VertexKey::Centroid(i as u32);
        assert forall|k: int| 0 <= k < keys.len() implies keys[k] != key by {
            assert(keys[k] == apex_of(k));
        }
        assert(!keys.contains(key));
        assert(spec_register_key(keys, key) == Ok::<Seq<VertexKey>, BuildError>(keys.push(key)));
        assert(keys.push(key) =~= Seq::new((i + 1) as nat, |f: int| apex_of(f)));
        lemma_dual_centroids_run(nfaces, i + 1);
    } else {
        assert(keys =~= Seq::new(nfaces as nat, |f: int| apex_of(f)));
    }
}

/// LAW (dual trades faces for vertices): whenever dual succeeds, its output
/// has exactly one vertex — the face's centroid — per input face. (This is
/// one half of the dual involution's count argument; that the output face
/// count equals the input vertex count additionally needs the input to be
/// closed and manifold, so that every vertex's surrounding centroids close
/// into a cycle.)
pub proof fn lemma_dual_vertex_count(faces: Seq<Seq<u32>>, num_vertices: nat)
    requires
        spec_dual(faces, num_vertices) is Ok,
    ensures
        spec_dual(faces, num_vertices).unwrap().0.len() == faces.len(),
        forall|f: int|
            0 <= f < faces.len() ==> spec_dual(faces, num_vertices).unwrap().0[f] == apex_of(f),
{
    assert(mesh_fits_u32(faces, num_vertices));
    assert(Seq::new(0nat, |f: int| apex_of(f)) =~= Seq::<VertexKey>::empty());
    lemma_dual_centroids_run(faces.len() as int, 0);
}

} // verus!

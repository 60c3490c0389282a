//! The Conway operators: pure functions from one mesh to another.
//!
//! Each operator walks the input mesh's faces and edges and emits vertices and
//! flags into a fresh [`Builder`]; the builder then reassembles the emitted
//! successor maps into the output mesh. Operators never read a point: every
//! synthesized vertex is emitted under its canonical [`VertexKey`], and the
//! output mesh carries those keys as its points, for the caller to evaluate
//! into positions (an original vertex's position, an edge midpoint, a face
//! centroid, a pyramid apex above a face centroid).
//!
//! Every operator is specified exactly: its result — the output mesh or the
//! reported defect — equals a spec-level fold over the input mesh, so two
//! applications to equal inputs give equal outputs.

use vstd::prelude::*;

use crate::builder::BuildError;
use crate::builder::Builder;
use crate::builder::Edge;
use crate::builder::spec_add_flag;
use crate::builder::spec_build_faces;
use crate::keys::FaceKey;
use crate::keys::VertexKey;
use crate::polyhedron::Polyhedron;
use crate::polyhedron::face_indices_valid;
use crate::polyhedron::face_simple;
use crate::polyhedron::faces_view;
use crate::polyhedron::mesh_well_formed;
use crate::polyhedron::seed_keys;

verus! {

/// The bit pattern of the default apex height factor (one tenth) used by
/// `kis` when no explicit scale is given.
pub const DEFAULT_APEX_SCALE_BITS: u64 = 0x3FB9_9999_9999_999A;

/// The double-precision value with these bits is finite (neither an infinity
/// nor a not-a-number): its exponent field is not all ones.
pub open spec fn apex_scale_finite(bits: u64) -> bool {
    (bits >> 52) & 0x7FF != 0x7FF
}

/// The double-precision value with these bits is a not-a-number: exponent
/// field all ones and a nonzero fraction field.
pub open spec fn apex_scale_nan(bits: u64) -> bool {
    (bits >> 52) & 0x7FF == 0x7FF && bits & 0xF_FFFF_FFFF_FFFF != 0
}

/// A rejected operator parameter.
#[derive(Clone, Copy, PartialEq, Eq, Structural, Debug)]
pub enum KisError {
    /// The apex scale must not be a not-a-number.
    ApexScaleNan,
    /// The apex scale must be finite.
    ApexScaleInfinite,
}

/// The `kis` operator (short for triakis): replaces each n-sided face with an
/// n-sided pyramid of triangles. `side_count` restricts it to faces with that
/// many sides (zero restricts nothing); `apex_scale` — carried as the bit
/// pattern of a double-precision value, which the engine itself never
/// evaluates — scales the apex height above the face's centroid, and is
/// validated finite and not-a-number-free when the operator value is
/// constructed.
#[derive(Clone, Copy, PartialEq, Eq, Structural, Debug)]
pub struct Kis {
    pub side_count: u32,
    pub apex_scale_bits: u64,
}

impl Kis {
    /// A `kis` that acts only on faces with `side_count` sides (every face
    /// when zero), with the default apex scale.
    pub fn restrict_to_sides(side_count: u32) -> (k: Kis)
        ensures
            k == (Kis { side_count, apex_scale_bits: DEFAULT_APEX_SCALE_BITS }),
    {
        Kis { side_count, apex_scale_bits: DEFAULT_APEX_SCALE_BITS }
    }

    /// A `kis` acting on every face, with the given apex scale, rejected
    /// unless it is finite and not a not-a-number.
    pub fn scale_apex(apex_scale_bits: u64) -> (r: Result<Kis, KisError>)
        ensures
            r == Kis::spec_with_scale(0, apex_scale_bits),
    {
        Kis::restrict_to_sides_and_scale_apex(0, apex_scale_bits)
    }

    /// A `kis` restricted to faces with `side_count` sides, with the given
    /// apex scale, rejected unless it is finite and not a not-a-number.
    pub fn restrict_to_sides_and_scale_apex(side_count: u32, apex_scale_bits: u64) -> (r: Result<
        Kis,
        KisError,
    >)
        ensures
            r == Kis::spec_with_scale(side_count, apex_scale_bits),
    {
        if (apex_scale_bits >> 52) & 0x7FF == 0x7FF {
            if apex_scale_bits & 0xF_FFFF_FFFF_FFFF != 0 {
                Err(KisError::ApexScaleNan)
            } else {
                Err(KisError::ApexScaleInfinite)
            }
        } else {
            Ok(Kis { side_count, apex_scale_bits })
        }
    }

    /// What the validating constructors return: the operator value exactly
    /// when the scale is finite, the reason for rejection otherwise.
    pub open spec fn spec_with_scale(side_count: u32, apex_scale_bits: u64) -> Result<
        Kis,
        KisError,
    > {
        if apex_scale_nan(apex_scale_bits) {
            Err(KisError::ApexScaleNan)
        } else if !apex_scale_finite(apex_scale_bits) {
            Err(KisError::ApexScaleInfinite)
        } else {
            Ok(Kis { side_count, apex_scale_bits })
        }
    }

    /// The face valence this operator is restricted to; zero restricts
    /// nothing.
    pub fn side_count(&self) -> (r: u32)
        ensures
            r == self.side_count,
    {
        self.side_count
    }

    /// The bit pattern of the apex height factor: the apex stands above the
    /// face centroid by this value times the mean distance from the centroid
    /// to the face's vertices.
    pub fn apex_scale_bits(&self) -> (r: u64)
        ensures
            r == self.apex_scale_bits,
    {
        self.apex_scale_bits
    }
}

impl Default for Kis {
    /// An unrestricted `kis` with the default apex scale.
    fn default() -> (k: Kis)
        ensures
            k == (Kis { side_count: 0u32, apex_scale_bits: DEFAULT_APEX_SCALE_BITS }),
    {
        Kis { side_count: 0, apex_scale_bits: DEFAULT_APEX_SCALE_BITS }
    }
}

/// A Conway operator to apply to a polyhedron.
#[derive(Clone, Copy, PartialEq, Eq, Structural, Debug)]
pub enum Operator {
    /// Replaces each face by its shrunk copy over the edge midpoints and each
    /// vertex by the small face of the midpoints around it.
    Ambo,
    /// Replaces each face by a vertex at its centroid and each vertex by the
    /// face of the centroids around it.
    Dual,
    /// Erects a pyramid over each (selected) face.
    Kis(Kis),
}

/// The vertex whose position in the cyclic face is `back` steps before `j`.
pub open spec fn cyclic_prev(face: Seq<u32>, j: int, back: int) -> u32
    recommends
        0 <= j < face.len(),
        0 <= back <= face.len(),
{
    if j - back >= 0 {
        face[j - back]
    } else {
        face[face.len() + j - back]
    }
}

/// What registering a vertex key in an operator's builder yields (operators
/// register each key as its own point): a key already present is a no-op,
/// otherwise it is appended, unless the 32-bit index space is full.
pub open spec fn spec_register_key(keys: Seq<VertexKey>, key: VertexKey) -> Result<
    Seq<VertexKey>,
    BuildError,
> {
    if keys.contains(key) {
        Ok(keys)
    } else if keys.len() >= u32::MAX {
        Err(BuildError::IndexSpaceExhausted)
    } else {
        Ok(keys.push(key))
    }
}

/// A mesh is small enough for its faces and vertices to be numbered by
/// 32-bit indices.
pub open spec fn mesh_fits_u32(faces: Seq<Seq<u32>>, num_vertices: nat) -> bool {
    faces.len() <= u32::MAX && num_vertices <= u32::MAX
}

/// An operator's accumulated builder state: the flag buckets and the
/// registered vertex keys (each key standing as its own point).
pub type OpState = (Seq<(FaceKey, Seq<Edge>)>, Seq<VertexKey>);

/// One edge step of ambo on face `fi`, at face position `j`, over the
/// directed edges `v1 -> v2 -> v3` ending at that position: the midpoint of
/// {v1, v2} is registered once per undirected edge (by whichever face walks
/// it in ascending order), the shrunk copy of the face connects midpoint(v1,
/// v2) to midpoint(v2, v3), and the small face around `v2` connects them in
/// reverse.
pub open spec fn spec_ambo_step(st: OpState, fi: int, face: Seq<u32>, j: int) -> Result<
    OpState,
    BuildError,
> {
    let v1 = cyclic_prev(face, j, 2);
    let v2 = cyclic_prev(face, j, 1);
    let v3 = face[j];
    let m12 = VertexKey::spec_midpoint(v1, v2);
    let m23 = VertexKey::spec_midpoint(v2, v3);
    let keys1 = if v1 < v2 {
        spec_register_key(st.1, m12)
    } else {
        Ok(st.1)
    };
    match keys1 {
        Err(e) => Err(e),
        Ok(ks) => match spec_add_flag(st.0, FaceKey::Seed(fi as u32), m12, m23) {
            Err(e) => Err(e),
            Ok(f1) => match spec_add_flag(f1, FaceKey::Vertex(v2), m23, m12) {
                Err(e) => Err(e),
                Ok(f2) => Ok((f2, ks)),
            },
        },
    }
}

/// Ambo's edge steps over face `fi` from position `j` on.
pub open spec fn spec_ambo_face(st: OpState, fi: int, face: Seq<u32>, j: int) -> Result<
    OpState,
    BuildError,
>
    decreases face.len() - j,
{
    if j < 0 || j >= face.len() {
        Ok(st)
    } else {
        match spec_ambo_step(st, fi, face, j) {
            Err(e) => Err(e),
            Ok(st2) => spec_ambo_face(st2, fi, face, j + 1),
        }
    }
}

/// Ambo's steps over the faces from index `i` on.
pub open spec fn spec_ambo_faces(st: OpState, faces: Seq<Seq<u32>>, i: int) -> Result<
    OpState,
    BuildError,
>
    decreases faces.len() - i,
{
    if i < 0 || i >= faces.len() {
        Ok(st)
    } else {
        match spec_ambo_face(st, i, faces[i], 0) {
            Err(e) => Err(e),
            Ok(st2) => spec_ambo_faces(st2, faces, i + 1),
        }
    }
}

/// What ambo returns on a mesh with the given face views and vertex count:
/// the registered midpoint keys in first-discovery order together with the
/// assembled face views, or the first defect found.
pub open spec fn spec_ambo(faces: Seq<Seq<u32>>, num_vertices: nat) -> Result<
    (Seq<VertexKey>, Seq<Seq<u32>>),
    BuildError,
> {
    if !mesh_fits_u32(faces, num_vertices) {
        Err(BuildError::IndexSpaceExhausted)
    } else if !mesh_well_formed(faces, num_vertices) {
        Err(BuildError::NotWellFormed)
    } else {
        match spec_ambo_faces((Seq::empty(), Seq::empty()), faces, 0) {
            Err(e) => Err(e),
            Ok(st) => match spec_build_faces(st.0, st.1) {
                Err(e) => Err(e),
                Ok(fs) => Ok((st.1, fs)),
            },
        }
    }
}

/// The value recorded under `k` in a small association map, if any.
pub open spec fn spec_amap_get(m: Seq<(u32, VertexKey)>, k: u32) -> Option<VertexKey>
    decreases m.len(),
{
    if m.len() == 0 {
        None
    } else if m[0].0 == k {
        Some(m[0].1)
    } else {
        spec_amap_get(m.drop_first(), k)
    }
}

/// The position of the entry recorded under `k`, if any.
pub open spec fn spec_amap_index(m: Seq<(u32, VertexKey)>, k: u32) -> Option<int>
    decreases m.len(),
{
    if m.len() == 0 {
        None
    } else if m[0].0 == k {
        Some(0)
    } else {
        match spec_amap_index(m.drop_first(), k) {
            Some(i) => Some(i + 1),
            None => None,
        }
    }
}

/// Recording `k -> v` in a small association map: an existing entry under `k`
/// is overwritten in place, a new key is appended.
pub open spec fn spec_amap_set(m: Seq<(u32, VertexKey)>, k: u32, v: VertexKey) -> Seq<
    (u32, VertexKey),
>
    decreases m.len(),
{
    if m.len() == 0 {
        seq![(k, v)]
    } else if m[0].0 == k {
        seq![(k, v)] + m.drop_first()
    } else {
        seq![m[0]] + spec_amap_set(m.drop_first(), k, v)
    }
}

/// `spec_amap_set` as an update of the first entry under `k`, or an append
/// when there is none; and where `spec_amap_index` points.
pub proof fn lemma_amap_set(m: Seq<(u32, VertexKey)>, k: u32, v: VertexKey)
    ensures
        match spec_amap_index(m, k) {
            Some(i) => {
                &&& 0 <= i < m.len()
                &&& m[i].0 == k
                &&& forall|j: int| 0 <= j < i ==> (#[trigger] m[j]).0 != k
                &&& spec_amap_set(m, k, v) == m.update(i, (k, v))
            },
            None => {
                &&& forall|j: int| 0 <= j < m.len() ==> (#[trigger] m[j]).0 != k
                &&& spec_amap_set(m, k, v) == m.push((k, v))
            },
        },
    decreases m.len(),
{
    if m.len() == 0 {
        assert(spec_amap_set(m, k, v) =~= m.push((k, v)));
    } else if m[0].0 == k {
        assert(spec_amap_set(m, k, v) =~= m.update(0, (k, v)));
    } else {
        lemma_amap_set(m.drop_first(), k, v);
        assert forall|j: int| 1 <= j < m.len() implies m.drop_first()[j - 1] == m[j] by {}
        match spec_amap_index(m.drop_first(), k) {
            Some(i) => {
                assert(spec_amap_set(m, k, v) =~= m.update(i + 1, (k, v)));
            },
            None => {
                assert(spec_amap_set(m, k, v) =~= m.push((k, v)));
                assert forall|j: int| 0 <= j < m.len() implies (#[trigger] m[j]).0 != k by {
                    if j >= 1 {
                        assert(m.drop_first()[j - 1] == m[j]);
                    }
                }
            },
        }
    }
}

/// Looks `k` up in a small association map, per [`spec_amap_get`].
fn amap_get(m: &Vec<(u32, VertexKey)>, k: u32) -> (r: Option<VertexKey>)
    ensures
        r == spec_amap_get(m@, k),
{
    let n = m.len();
    let mut i: usize = 0;
    proof {
        assert(m@.skip(0) =~= m@);
    }
    while i < n
        invariant
            0 <= i <= n,
            n == m@.len(),
            spec_amap_get(m@, k) == spec_amap_get(m@.skip(i as int), k),
        decreases n - i,
    {
        if m[i].0 == k {
            assert(m@.skip(i as int)[0] == m@[i as int]);
            return Some(m[i].1);
        }
        proof {
            assert(m@.skip(i as int)[0] == m@[i as int]);
            assert(m@.skip(i as int).drop_first() =~= m@.skip(i + 1));
        }
        i = i + 1;
    }
    proof {
        assert(m@.skip(n as int) =~= Seq::<(u32, VertexKey)>::empty());
    }
    None
}

/// Records `k -> v` in a small association map, per [`spec_amap_set`].
fn amap_set(m: &mut Vec<(u32, VertexKey)>, k: u32, v: VertexKey)
    ensures
        final(m)@ == spec_amap_set(old(m)@, k, v),
{
    proof {
        lemma_amap_set(old(m)@, k, v);
    }
    let n = m.len();
    let mut i: usize = 0;
    while i < n
        invariant
            0 <= i <= n,
            n == m@.len(),
            m@ == old(m)@,
            forall|j: int| 0 <= j < i ==> (#[trigger] m@[j]).0 != k,
            match spec_amap_index(old(m)@, k) {
                Some(fi) => {
                    &&& 0 <= fi < old(m)@.len()
                    &&& old(m)@[fi].0 == k
                    &&& forall|j: int| 0 <= j < fi ==> (#[trigger] old(m)@[j]).0 != k
                    &&& spec_amap_set(old(m)@, k, v) == old(m)@.update(fi, (k, v))
                },
                None => {
                    &&& forall|j: int| 0 <= j < old(m)@.len() ==> (#[trigger] old(m)@[j]).0 != k
                    &&& spec_amap_set(old(m)@, k, v) == old(m)@.push((k, v))
                },
            },
        decreases n - i,
    {
        if m[i].0 == k {
            m.set(i, (k, v));
            return ;
        }
        i = i + 1;
    }
    m.push((k, v));
}

/// The views of the per-vertex association maps.
pub open spec fn fm_view(fm: Seq<Vec<(u32, VertexKey)>>) -> Seq<Seq<(u32, VertexKey)>> {
    fm.map_values(|v: Vec<(u32, VertexKey)>| v@)
}

/// Records `k -> v` in the association map of vertex `vi`.
fn fm_set(fm: &mut Vec<Vec<(u32, VertexKey)>>, vi: usize, k: u32, v: VertexKey)
    requires
        vi < old(fm)@.len(),
    ensures
        final(fm)@.len() == old(fm)@.len(),
        fm_view(final(fm)@) == fm_view(old(fm)@).update(
            vi as int,
            spec_amap_set(fm_view(old(fm)@)[vi as int], k, v),
        ),
{
    let mut entry = fm.remove(vi);
    amap_set(&mut entry, k, v);
    fm.insert(vi, entry);
    proof {
        let b = vi as int;
        let n = old(fm)@.len();
        assert(fm@.len() == n);
        assert forall|j: int| 0 <= j < n && j != b implies fm@[j] == old(fm)@[j] by {
            let removed = old(fm)@.remove(b);
            if j < b {
                assert(removed[j] == old(fm)@[j]);
                assert(fm@[j] == removed[j]);
            } else {
                assert(removed[j - 1] == old(fm)@[j]);
                assert(fm@[j] == removed[j - 1]);
            }
        }
        assert(fm@[b] == entry);
        assert(fm_view(fm@) =~~= fm_view(old(fm)@).update(
            b,
            spec_amap_set(fm_view(old(fm)@)[b], k, v),
        ));
    }
}

/// One empty association map per original vertex.
pub open spec fn empty_face_map(num_vertices: nat) -> Seq<Seq<(u32, VertexKey)>> {
    Seq::new(num_vertices, |k: int| Seq::<(u32, VertexKey)>::empty())
}

/// Dual's first pass from face `i` on: one centroid vertex per face, in face
/// order.
pub open spec fn spec_dual_centroids(keys: Seq<VertexKey>, nfaces: int, i: int) -> Result<
    Seq<VertexKey>,
    BuildError,
>
    decreases nfaces - i,
{
    if i < 0 || i >= nfaces {
        Ok(keys)
    } else {
        match spec_register_key(keys, VertexKey::Centroid(i as u32)) {
            Err(e) => Err(e),
            Ok(ks) => spec_dual_centroids(ks, nfaces, i + 1),
        }
    }
}

/// Dual's second pass over one face from position `j` on: under each vertex
/// `v1` of face `fi`, the edge arriving from `v2` is recorded as belonging to
/// that face's centroid.
pub open spec fn spec_dual_map_face(
    fm: Seq<Seq<(u32, VertexKey)>>,
    fi: int,
    face: Seq<u32>,
    j: int,
) -> Seq<Seq<(u32, VertexKey)>>
    decreases face.len() - j,
{
    if j < 0 || j >= face.len() {
        fm
    } else {
        let v1 = cyclic_prev(face, j, 1);
        let v2 = face[j];
        let fm2 = fm.update(
            v1 as int,
            spec_amap_set(fm[v1 as int], v2, VertexKey::Centroid(fi as u32)),
        );
        spec_dual_map_face(fm2, fi, face, j + 1)
    }
}

/// Dual's second pass from face `i` on.
pub open spec fn spec_dual_map(
    fm: Seq<Seq<(u32, VertexKey)>>,
    faces: Seq<Seq<u32>>,
    i: int,
) -> Seq<Seq<(u32, VertexKey)>>
    decreases faces.len() - i,
{
    if i < 0 || i >= faces.len() {
        fm
    } else {
        spec_dual_map(spec_dual_map_face(fm, i, faces[i], 0), faces, i + 1)
    }
}

/// One step of dual's third pass: around vertex `v1`, the centroid of the
/// face on the other side of the edge arriving from `v2` connects to face
/// `fi`'s own centroid; a missing record means the mesh is not closed.
pub open spec fn spec_dual_flag_step(
    flags: Seq<(FaceKey, Seq<Edge>)>,
    fm: Seq<Seq<(u32, VertexKey)>>,
    fi: int,
    face: Seq<u32>,
    j: int,
) -> Result<Seq<(FaceKey, Seq<Edge>)>, BuildError> {
    let v1 = cyclic_prev(face, j, 1);
    let v2 = face[j];
    match spec_amap_get(fm[v2 as int], v1) {
        None => Err(BuildError::MissingReverseEdge),
        Some(c) => spec_add_flag(flags, FaceKey::Vertex(v1), c, VertexKey::Centroid(fi as u32)),
    }
}

/// Dual's third pass over one face from position `j` on.
pub open spec fn spec_dual_flags_face(
    flags: Seq<(FaceKey, Seq<Edge>)>,
    fm: Seq<Seq<(u32, VertexKey)>>,
    fi: int,
    face: Seq<u32>,
    j: int,
) -> Result<Seq<(FaceKey, Seq<Edge>)>, BuildError>
    decreases face.len() - j,
{
    if j < 0 || j >= face.len() {
        Ok(flags)
    } else {
        match spec_dual_flag_step(flags, fm, fi, face, j) {
            Err(e) => Err(e),
            Ok(f2) => spec_dual_flags_face(f2, fm, fi, face, j + 1),
        }
    }
}

/// Dual's third pass from face `i` on.
pub open spec fn spec_dual_flags(
    flags: Seq<(FaceKey, Seq<Edge>)>,
    fm: Seq<Seq<(u32, VertexKey)>>,
    faces: Seq<Seq<u32>>,
    i: int,
) -> Result<Seq<(FaceKey, Seq<Edge>)>, BuildError>
    decreases faces.len() - i,
{
    if i < 0 || i >= faces.len() {
        Ok(flags)
    } else {
        match spec_dual_flags_face(flags, fm, i, faces[i], 0) {
            Err(e) => Err(e),
            Ok(f2) => spec_dual_flags(f2, fm, faces, i + 1),
        }
    }
}

/// What dual returns on a mesh with the given face views and vertex count:
/// one centroid vertex per face, and around every original vertex the face of
/// the surrounding centroids in adjacency order, or the first defect found.
pub open spec fn spec_dual(faces: Seq<Seq<u32>>, num_vertices: nat) -> Result<
    (Seq<VertexKey>, Seq<Seq<u32>>),
    BuildError,
> {
    if !mesh_fits_u32(faces, num_vertices) {
        Err(BuildError::IndexSpaceExhausted)
    } else if !mesh_well_formed(faces, num_vertices) {
        Err(BuildError::NotWellFormed)
    } else {
        match spec_dual_centroids(Seq::empty(), faces.len() as int, 0) {
            Err(e) => Err(e),
            Ok(keys) => {
                let fm = spec_dual_map(empty_face_map(num_vertices), faces, 0);
                match spec_dual_flags(Seq::empty(), fm, faces, 0) {
                    Err(e) => Err(e),
                    Ok(flags) => match spec_build_faces(flags, keys) {
                        Err(e) => Err(e),
                        Ok(fs) => Ok((keys, fs)),
                    },
                }
            },
        }
    }
}

/// Kis's first pass from vertex `i` on: every original vertex is carried
/// through under its seed key, in index order.
pub open spec fn spec_kis_seeds(keys: Seq<VertexKey>, nverts: int, i: int) -> Result<
    Seq<VertexKey>,
    BuildError,
>
    decreases nverts - i,
{
    if i < 0 || i >= nverts {
        Ok(keys)
    } else {
        match spec_register_key(keys, VertexKey::Seed(i as u32)) {
            Err(e) => Err(e),
            Ok(ks) => spec_kis_seeds(ks, nverts, i + 1),
        }
    }
}

/// One edge step of kis on face `fi` over the directed edge `v1 -> v2` ending
/// at position `j`: a face whose valence escapes the restriction is copied
/// through unchanged; otherwise the face's apex is registered and the edge
/// grows its triangular pyramid side `v1 -> v2 -> apex -> v1`.
pub open spec fn spec_kis_step(
    st: OpState,
    side_count: u32,
    fi: int,
    face: Seq<u32>,
    j: int,
) -> Result<OpState, BuildError> {
    let v1 = VertexKey::Seed(cyclic_prev(face, j, 1));
    let v2 = VertexKey::Seed(face[j]);
    if side_count != 0 && side_count != face.len() {
        match spec_add_flag(st.0, FaceKey::Seed(fi as u32), v1, v2) {
            Err(e) => Err(e),
            Ok(f1) => Ok((f1, st.1)),
        }
    } else {
        let apex = VertexKey::Centroid(fi as u32);
        let pk = FaceKey::PyramidFace(fi as u32, v1);
        match spec_register_key(st.1, apex) {
            Err(e) => Err(e),
            Ok(ks) => match spec_add_flag(st.0, pk, v1, v2) {
                Err(e) => Err(e),
                Ok(f1) => match spec_add_flag(f1, pk, v2, apex) {
                    Err(e) => Err(e),
                    Ok(f2) => match spec_add_flag(f2, pk, apex, v1) {
                        Err(e) => Err(e),
                        Ok(f3) => Ok((f3, ks)),
                    },
                },
            },
        }
    }
}

/// Kis's edge steps over face `fi` from position `j` on.
pub open spec fn spec_kis_face(
    st: OpState,
    side_count: u32,
    fi: int,
    face: Seq<u32>,
    j: int,
) -> Result<OpState, BuildError>
    decreases face.len() - j,
{
    if j < 0 || j >= face.len() {
        Ok(st)
    } else {
        match spec_kis_step(st, side_count, fi, face, j) {
            Err(e) => Err(e),
            Ok(st2) => spec_kis_face(st2, side_count, fi, face, j + 1),
        }
    }
}

/// Kis's steps over the faces from index `i` on.
pub open spec fn spec_kis_faces(st: OpState, side_count: u32, faces: Seq<Seq<u32>>, i: int) -> Result<
    OpState,
    BuildError,
>
    decreases faces.len() - i,
{
    if i < 0 || i >= faces.len() {
        Ok(st)
    } else {
        match spec_kis_face(st, side_count, i, faces[i], 0) {
            Err(e) => Err(e),
            Ok(st2) => spec_kis_faces(st2, side_count, faces, i + 1),
        }
    }
}

/// What kis returns on a mesh with the given face views and vertex count:
/// every original vertex carried through, every face whose valence matches
/// the restriction replaced by its pyramid of triangles, every other face
/// copied through unchanged, or the first defect found.
pub open spec fn spec_kis(faces: Seq<Seq<u32>>, num_vertices: nat, side_count: u32) -> Result<
    (Seq<VertexKey>, Seq<Seq<u32>>),
    BuildError,
> {
    if !mesh_fits_u32(faces, num_vertices) {
        Err(BuildError::IndexSpaceExhausted)
    } else if !mesh_well_formed(faces, num_vertices) {
        Err(BuildError::NotWellFormed)
    } else {
        match spec_kis_seeds(Seq::empty(), num_vertices as int, 0) {
            Err(e) => Err(e),
            Ok(keys0) => match spec_kis_faces((Seq::empty(), keys0), side_count, faces, 0) {
                Err(e) => Err(e),
                Ok(st) => match spec_build_faces(st.0, st.1) {
                    Err(e) => Err(e),
                    Ok(fs) => Ok((st.1, fs)),
                },
            },
        }
    }
}

impl<P> Polyhedron<P> {
    /// Applies the `ambo` operator: each face shrinks onto its edge
    /// midpoints, and each original vertex grows a small face of the
    /// midpoints around it. The result is pinned by [`spec_ambo`].
    pub fn ambo(self) -> (r: Result<Polyhedron<VertexKey>, BuildError>)
        ensures
            match r {
                Ok(mesh) => spec_ambo(self.spec_faces(), self.vertices@.len()) == Ok::<
                    (Seq<VertexKey>, Seq<Seq<u32>>),
                    BuildError,
                >((mesh.vertices@, faces_view(mesh.faces@))),
                Err(e) => spec_ambo(self.spec_faces(), self.vertices@.len()) == Err::<
                    (Seq<VertexKey>, Seq<Seq<u32>>),
                    BuildError,
                >(e),
            },
    {
        if self.vertices.len() > u32::MAX as usize || self.faces.len() > u32::MAX as usize {
            return Err(BuildError::IndexSpaceExhausted);
        }
        if !self.check_well_formed() {
            return Err(BuildError::NotWellFormed);
        }
        let ghost all_faces = self.spec_faces();
        let ghost init: OpState = (Seq::empty(), Seq::empty());
        let mut builder: Builder<VertexKey> = Builder::new();
        let nfaces = self.faces.len();
        let mut i: usize = 0;
        while i < nfaces
            invariant
                0 <= i <= nfaces,
                nfaces == self.faces@.len(),
                all_faces == self.spec_faces(),
                init == (Seq::<(FaceKey, Seq<Edge>)>::empty(), Seq::<VertexKey>::empty()),
                mesh_well_formed(all_faces, self.vertices@.len()),
                mesh_fits_u32(all_faces, self.vertices@.len()),
                builder.wf(),
                builder.vertices@ == builder.keys@,
                spec_ambo_faces(init, all_faces, 0) == spec_ambo_faces(
                    (builder.spec_flags(), builder.keys@),
                    all_faces,
                    i as int,
                ),
            decreases nfaces - i,
        {
            let face = &self.faces[i];
            let len = face.indices.len();
            proof {
                assert(face@ == all_faces[i as int]);
                assert(face_simple(face@) && face_indices_valid(face@, self.vertices@.len()));
            }
            let mut v1 = face.indices[len - 2];
            let mut v2 = face.indices[len - 1];
            let mut j: usize = 0;
            while j < len
                invariant
                    0 <= j <= len,
                    len == face@.len(),
                    3 <= len,
                    0 <= i < all_faces.len(),
                    face@ == all_faces[i as int],
                    all_faces == self.spec_faces(),
                    mesh_well_formed(all_faces, self.vertices@.len()),
                    mesh_fits_u32(all_faces, self.vertices@.len()),
                    init == (Seq::<(FaceKey, Seq<Edge>)>::empty(), Seq::<VertexKey>::empty()),
                    v1 == cyclic_prev(face@, j as int, 2),
                    v2 == cyclic_prev(face@, j as int, 1),
                    builder.wf(),
                    builder.vertices@ == builder.keys@,
                    spec_ambo_faces(init, all_faces, 0) == match spec_ambo_face(
                        (builder.spec_flags(), builder.keys@),
                        i as int,
                        face@,
                        j as int,
                    ) {
                        Ok(st2) => spec_ambo_faces(st2, all_faces, i as int + 1),
                        Err(e) => Err::<OpState, BuildError>(e),
                    },
                decreases len - j,
            {
                let ghost st0: OpState = (builder.spec_flags(), builder.keys@);
                let v3 = face.indices[j];
                let m12 = VertexKey::midpoint(v1, v2);
                let m23 = VertexKey::midpoint(v2, v3);
                proof {
                    assert(v3 == face@[j as int]);
                    assert(m12 == VertexKey::spec_midpoint(
                        cyclic_prev(face@, j as int, 2),
                        cyclic_prev(face@, j as int, 1),
                    ));
                }
                if v1 < v2 {
                    match builder.add_vertex(m12, m12) {
                        Ok(_) => {},
                        Err(e) => {
                            proof {
                                assert(spec_ambo_step(st0, i as int, face@, j as int) == Err::<
                                    OpState,
                                    BuildError,
                                >(e));
                            }
                            return Err(e);
                        },
                    }
                }
                let ghost keys1 = builder.keys@;
                proof {
                    assert(Ok::<Seq<VertexKey>, BuildError>(keys1) == if v1 < v2 {
                        spec_register_key(st0.1, m12)
                    } else {
                        Ok(st0.1)
                    });
                    assert(builder.spec_flags() == st0.0);
                }
                match builder.add_flag(FaceKey::Seed(i as u32), m12, m23) {
                    Ok(_) => {},
                    Err(e) => {
                        proof {
                            assert(spec_ambo_step(st0, i as int, face@, j as int) == Err::<
                                OpState,
                                BuildError,
                            >(e));
                        }
                        return Err(e);
                    },
                }
                match builder.add_flag(FaceKey::Vertex(v2), m23, m12) {
                    Ok(_) => {},
                    Err(e) => {
                        proof {
                            assert(spec_ambo_step(st0, i as int, face@, j as int) == Err::<
                                OpState,
                                BuildError,
                            >(e));
                        }
                        return Err(e);
                    },
                }
                proof {
                    assert(spec_ambo_step(st0, i as int, face@, j as int) == Ok::<
                        OpState,
                        BuildError,
                    >((builder.spec_flags(), builder.keys@)));
                }
                v1 = v2;
                v2 = v3;
                j = j + 1;
            }
            i = i + 1;
        }
        proof {
            assert(spec_ambo_faces(
                (builder.spec_flags(), builder.keys@),
                all_faces,
                nfaces as int,
            ) == Ok::<OpState, BuildError>((builder.spec_flags(), builder.keys@)));
        }
        match builder.build_polyhedron() {
            Ok(mesh) => {
                proof {
                    assert(spec_ambo(self.spec_faces(), self.vertices@.len()) == Ok::<
                        (Seq<VertexKey>, Seq<Seq<u32>>),
                        BuildError,
                    >((mesh.vertices@, faces_view(mesh.faces@))));
                }
                Ok(mesh)
            },
            Err(e) => Err(e),
        }
    }

    /// Applies the `dual` operator: each face becomes a vertex at its
    /// centroid, and each original vertex becomes the face of the centroids
    /// of its surrounding faces, in adjacency order, recovered through the
    /// directed-edge-reversal relationship of a closed mesh. The result is
    /// pinned by [`spec_dual`].
    pub fn dual(self) -> (r: Result<Polyhedron<VertexKey>, BuildError>)
        ensures
            match r {
                Ok(mesh) => spec_dual(self.spec_faces(), self.vertices@.len()) == Ok::<
                    (Seq<VertexKey>, Seq<Seq<u32>>),
                    BuildError,
                >((mesh.vertices@, faces_view(mesh.faces@))),
                Err(e) => spec_dual(self.spec_faces(), self.vertices@.len()) == Err::<
                    (Seq<VertexKey>, Seq<Seq<u32>>),
                    BuildError,
                >(e),
            },
    {
        if self.vertices.len() > u32::MAX as usize || self.faces.len() > u32::MAX as usize {
            return Err(BuildError::IndexSpaceExhausted);
        }
        if !self.check_well_formed() {
            return Err(BuildError::NotWellFormed);
        }
        let ghost all_faces = self.spec_faces();
        let ghost nverts = self.vertices@.len();
        let mut builder: Builder<VertexKey> = Builder::new();
        let nfaces = self.faces.len();

        // First pass: one centroid vertex per face.
        let mut i: usize = 0;
        while i < nfaces
            invariant
                0 <= i <= nfaces,
                nfaces == self.faces@.len(),
                all_faces == self.spec_faces(),
                nverts == self.vertices@.len(),
                mesh_well_formed(all_faces, nverts),
                mesh_fits_u32(all_faces, nverts),
                builder.wf(),
                builder.vertices@ == builder.keys@,
                builder.spec_flags() == Seq::<(FaceKey, Seq<Edge>)>::empty(),
                spec_dual_centroids(Seq::empty(), nfaces as int, 0) == spec_dual_centroids(
                    builder.keys@,
                    nfaces as int,
                    i as int,
                ),
            decreases nfaces - i,
        {
            let ghost keys0 = builder.keys@;
            let key = VertexKey::Centroid(i as u32);
            match builder.add_vertex(key, key) {
                Ok(_) => {},
                Err(e) => {
                    proof {
                        assert(spec_register_key(keys0, key) == Err::<Seq<VertexKey>, BuildError>(
                            e,
                        ));
                    }
                    return Err(e);
                },
            }
            i = i + 1;
        }
        let ghost keys_reg = builder.keys@;
        proof {
            assert(spec_dual_centroids(keys_reg, nfaces as int, nfaces as int) == Ok::<
                Seq<VertexKey>,
                BuildError,
            >(keys_reg));
        }

        // Second pass: under each original vertex, record for each arriving
        // edge the centroid of the face the edge belongs to.
        let mut face_map: Vec<Vec<(u32, VertexKey)>> = Vec::new();
        let nv = self.vertices.len();
        let mut k: usize = 0;
        while k < nv
            invariant
                0 <= k <= nv,
                face_map@.len() == k,
                forall|a: int| 0 <= a < k ==> (#[trigger] face_map@[a])@ == Seq::<
                    (u32, VertexKey),
                >::empty(),
            decreases nv - k,
        {
            face_map.push(Vec::new());
            k = k + 1;
        }
        let ghost fm0 = fm_view(face_map@);
        proof {
            assert(fm0 =~~= empty_face_map(nverts));
        }
        let mut i: usize = 0;
        while i < nfaces
            invariant
                0 <= i <= nfaces,
                nfaces == self.faces@.len(),
                all_faces == self.spec_faces(),
                nverts == self.vertices@.len(),
                mesh_well_formed(all_faces, nverts),
                mesh_fits_u32(all_faces, nverts),
                face_map@.len() == nverts,
                fm0 == empty_face_map(nverts),
                spec_dual_map(fm0, all_faces, 0) == spec_dual_map(
                    fm_view(face_map@),
                    all_faces,
                    i as int,
                ),
            decreases nfaces - i,
        {
            let face = &self.faces[i];
            let len = face.indices.len();
            proof {
                assert(face@ == all_faces[i as int]);
                assert(face_simple(face@) && face_indices_valid(face@, nverts));
            }
            let mut v1 = face.indices[len - 1];
            let mut j: usize = 0;
            while j < len
                invariant
                    0 <= j <= len,
                    len == face@.len(),
                    3 <= len,
                    0 <= i < all_faces.len(),
                    face@ == all_faces[i as int],
                    all_faces == self.spec_faces(),
                    nverts == self.vertices@.len(),
                    mesh_well_formed(all_faces, nverts),
                    mesh_fits_u32(all_faces, nverts),
                    face_indices_valid(face@, nverts),
                    face_map@.len() == nverts,
                    v1 == cyclic_prev(face@, j as int, 1),
                    fm0 == empty_face_map(nverts),
                    spec_dual_map(fm0, all_faces, 0) == match spec_dual_map_face(
                        fm_view(face_map@),
                        i as int,
                        face@,
                        j as int,
                    ) {
                        fm2 => spec_dual_map(fm2, all_faces, i as int + 1),
                    },
                decreases len - j,
            {
                let v2 = face.indices[j];
                proof {
                    assert(v2 == face@[j as int]);
                    assert((v1 as int) < nverts);
                }
                fm_set(&mut face_map, v1 as usize, v2, VertexKey::Centroid(i as u32));
                v1 = v2;
                j = j + 1;
            }
            i = i + 1;
        }
        let ghost fm = fm_view(face_map@);
        proof {
            assert(spec_dual_map(fm, all_faces, nfaces as int) == fm);
        }

        // Third pass: around every original vertex, connect its surrounding
        // centroids in adjacency order.
        let mut i: usize = 0;
        while i < nfaces
            invariant
                0 <= i <= nfaces,
                nfaces == self.faces@.len(),
                all_faces == self.spec_faces(),
                nverts == self.vertices@.len(),
                mesh_well_formed(all_faces, nverts),
                mesh_fits_u32(all_faces, nverts),
                face_map@.len() == nverts,
                fm == fm_view(face_map@),
                fm == spec_dual_map(fm0, all_faces, 0),
                fm0 == empty_face_map(nverts),
                builder.wf(),
                builder.vertices@ == builder.keys@,
                builder.keys@ == keys_reg,
                spec_dual_centroids(Seq::empty(), nfaces as int, 0) == Ok::<
                    Seq<VertexKey>,
                    BuildError,
                >(keys_reg),
                spec_dual_flags(Seq::empty(), fm, all_faces, 0) == spec_dual_flags(
                    builder.spec_flags(),
                    fm,
                    all_faces,
                    i as int,
                ),
            decreases nfaces - i,
        {
            let face = &self.faces[i];
            let len = face.indices.len();
            proof {
                assert(face@ == all_faces[i as int]);
                assert(face_simple(face@) && face_indices_valid(face@, nverts));
            }
            let mut v1 = face.indices[len - 1];
            let mut j: usize = 0;
            while j < len
                invariant
                    0 <= j <= len,
                    len == face@.len(),
                    3 <= len,
                    0 <= i < all_faces.len(),
                    nfaces == all_faces.len(),
                    face@ == all_faces[i as int],
                    all_faces == self.spec_faces(),
                    nverts == self.vertices@.len(),
                    mesh_well_formed(all_faces, nverts),
                    mesh_fits_u32(all_faces, nverts),
                    face_indices_valid(face@, nverts),
                    face_map@.len() == nverts,
                    fm == fm_view(face_map@),
                    fm == spec_dual_map(fm0, all_faces, 0),
                    fm0 == empty_face_map(nverts),
                    v1 == cyclic_prev(face@, j as int, 1),
                    builder.wf(),
                    builder.vertices@ == builder.keys@,
                    builder.keys@ == keys_reg,
                    spec_dual_centroids(Seq::empty(), nfaces as int, 0) == Ok::<
                        Seq<VertexKey>,
                        BuildError,
                    >(keys_reg),
                    spec_dual_flags(Seq::empty(), fm, all_faces, 0) == match spec_dual_flags_face(
                        builder.spec_flags(),
                        fm,
                        i as int,
                        face@,
                        j as int,
                    ) {
                        Ok(f2) => spec_dual_flags(f2, fm, all_faces, i as int + 1),
                        Err(e) => Err::<Seq<(FaceKey, Seq<Edge>)>, BuildError>(e),
                    },
                decreases len - j,
            {
                let ghost flags0 = builder.spec_flags();
                let v2 = face.indices[j];
                proof {
                    assert(v2 == face@[j as int]);
                    assert((v2 as int) < nverts);
                    assert(fm[v2 as int] == face_map@[v2 as int]@);
                }
                let centroid = match amap_get(&face_map[v2 as usize], v1) {
                    Some(c) => c,
                    None => {
                        proof {
                            assert(spec_dual_flag_step(flags0, fm, i as int, face@, j as int)
                                == Err::<Seq<(FaceKey, Seq<Edge>)>, BuildError>(
                                BuildError::MissingReverseEdge,
                            ));
                        }
                        return Err(BuildError::MissingReverseEdge);
                    },
                };
                match builder.add_flag(FaceKey::Vertex(v1), centroid, VertexKey::Centroid(
                    i as u32,
                )) {
                    Ok(_) => {},
                    Err(e) => {
                        proof {
                            assert(spec_dual_flag_step(flags0, fm, i as int, face@, j as int)
                                == Err::<Seq<(FaceKey, Seq<Edge>)>, BuildError>(e));
                        }
                        return Err(e);
                    },
                }
                proof {
                    assert(spec_dual_flag_step(flags0, fm, i as int, face@, j as int) == Ok::<
                        Seq<(FaceKey, Seq<Edge>)>,
                        BuildError,
                    >(builder.spec_flags()));
                }
                v1 = v2;
                j = j + 1;
            }
            i = i + 1;
        }
        proof {
            assert(spec_dual_flags(builder.spec_flags(), fm, all_faces, nfaces as int) == Ok::<
                Seq<(FaceKey, Seq<Edge>)>,
                BuildError,
            >(builder.spec_flags()));
        }
        match builder.build_polyhedron() {
            Ok(mesh) => {
                proof {
                    assert(spec_dual(self.spec_faces(), self.vertices@.len()) == Ok::<
                        (Seq<VertexKey>, Seq<Seq<u32>>),
                        BuildError,
                    >((mesh.vertices@, faces_view(mesh.faces@))));
                }
                Ok(mesh)
            },
            Err(e) => Err(e),
        }
    }

    /// Applies the `kis` operator: each face whose valence matches the
    /// restriction is replaced by as many triangles as it has sides, meeting
    /// at a new apex vertex above its centroid; every other face is copied
    /// through unchanged. The result is pinned by [`spec_kis`].
    pub fn kis(self, kis: Kis) -> (r: Result<Polyhedron<VertexKey>, BuildError>)
        ensures
            match r {
                Ok(mesh) => spec_kis(self.spec_faces(), self.vertices@.len(), kis.side_count)
                    == Ok::<(Seq<VertexKey>, Seq<Seq<u32>>), BuildError>(
                    (mesh.vertices@, faces_view(mesh.faces@)),
                ),
                Err(e) => spec_kis(self.spec_faces(), self.vertices@.len(), kis.side_count)
                    == Err::<(Seq<VertexKey>, Seq<Seq<u32>>), BuildError>(e),
            },
    {
        if self.vertices.len() > u32::MAX as usize || self.faces.len() > u32::MAX as usize {
            return Err(BuildError::IndexSpaceExhausted);
        }
        if !self.check_well_formed() {
            return Err(BuildError::NotWellFormed);
        }
        let ghost all_faces = self.spec_faces();
        let ghost nverts = self.vertices@.len();
        let side_count = kis.side_count;
        let mut builder: Builder<VertexKey> = Builder::new();

        // First pass: carry every original vertex through under its seed key.
        let nv = self.vertices.len();
        let mut k: usize = 0;
        while k < nv
            invariant
                0 <= k <= nv,
                nv == self.vertices@.len(),
                nverts == self.vertices@.len(),
                all_faces == self.spec_faces(),
                side_count == kis.side_count,
                mesh_well_formed(all_faces, nverts),
                mesh_fits_u32(all_faces, nverts),
                builder.wf(),
                builder.vertices@ == builder.keys@,
                builder.spec_flags() == Seq::<(FaceKey, Seq<Edge>)>::empty(),
                spec_kis_seeds(Seq::empty(), nv as int, 0) == spec_kis_seeds(
                    builder.keys@,
                    nv as int,
                    k as int,
                ),
            decreases nv - k,
        {
            let ghost keys0 = builder.keys@;
            let key = VertexKey::Seed(k as u32);
            match builder.add_vertex(key, key) {
                Ok(_) => {},
                Err(e) => {
                    proof {
                        assert(spec_register_key(keys0, key) == Err::<Seq<VertexKey>, BuildError>(
                            e,
                        ));
                    }
                    return Err(e);
                },
            }
            k = k + 1;
        }
        let ghost keys_reg = builder.keys@;
        proof {
            assert(spec_kis_seeds(keys_reg, nv as int, nv as int) == Ok::<
                Seq<VertexKey>,
                BuildError,
            >(keys_reg));
        }

        // Second pass: pyramid or copy each face.
        let nfaces = self.faces.len();
        let mut i: usize = 0;
        while i < nfaces
            invariant
                0 <= i <= nfaces,
                nfaces == self.faces@.len(),
                all_faces == self.spec_faces(),
                nverts == self.vertices@.len(),
                side_count == kis.side_count,
                mesh_well_formed(all_faces, nverts),
                mesh_fits_u32(all_faces, nverts),
                builder.wf(),
                builder.vertices@ == builder.keys@,
                spec_kis_seeds(Seq::empty(), nverts as int, 0) == Ok::<Seq<VertexKey>, BuildError>(
                    keys_reg,
                ),
                spec_kis_faces((Seq::empty(), keys_reg), side_count, all_faces, 0)
                    == spec_kis_faces(
                    (builder.spec_flags(), builder.keys@),
                    side_count,
                    all_faces,
                    i as int,
                ),
            decreases nfaces - i,
        {
            let face = &self.faces[i];
            let len = face.indices.len();
            proof {
                assert(face@ == all_faces[i as int]);
                assert(face_simple(face@) && face_indices_valid(face@, nverts));
            }
            let is_identity = side_count != 0 && side_count as usize != len;
            let mut v1 = face.indices[len - 1];
            let mut j: usize = 0;
            while j < len
                invariant
                    0 <= j <= len,
                    len == face@.len(),
                    3 <= len,
                    0 <= i < all_faces.len(),
                    nfaces == all_faces.len(),
                    face@ == all_faces[i as int],
                    all_faces == self.spec_faces(),
                    nverts == self.vertices@.len(),
                    side_count == kis.side_count,
                    is_identity == (side_count != 0 && side_count != face@.len()),
                    mesh_well_formed(all_faces, nverts),
                    mesh_fits_u32(all_faces, nverts),
                    v1 == cyclic_prev(face@, j as int, 1),
                    builder.wf(),
                    builder.vertices@ == builder.keys@,
                    spec_kis_seeds(Seq::empty(), nverts as int, 0) == Ok::<
                        Seq<VertexKey>,
                        BuildError,
                    >(keys_reg),
                    spec_kis_faces((Seq::empty(), keys_reg), side_count, all_faces, 0) == match
                        spec_kis_face(
                        (builder.spec_flags(), builder.keys@),
                        side_count,
                        i as int,
                        face@,
                        j as int,
                    ) {
                        Ok(st2) => spec_kis_faces(st2, side_count, all_faces, i as int + 1),
                        Err(e) => Err::<OpState, BuildError>(e),
                    },
                decreases len - j,
            {
                let ghost st0: OpState = (builder.spec_flags(), builder.keys@);
                let v2 = face.indices[j];
                proof {
                    assert(v2 == face@[j as int]);
                }
                let v1_key = VertexKey::Seed(v1);
                let v2_key = VertexKey::Seed(v2);
                if is_identity {
                    match builder.add_flag(FaceKey::Seed(i as u32), v1_key, v2_key) {
                        Ok(_) => {},
                        Err(e) => {
                            proof {
                                assert(spec_kis_step(st0, side_count, i as int, face@, j as int)
                                    == Err::<OpState, BuildError>(e));
                            }
                            return Err(e);
                        },
                    }
                    proof {
                        assert(spec_kis_step(st0, side_count, i as int, face@, j as int) == Ok::<
                            OpState,
                            BuildError,
                        >((builder.spec_flags(), builder.keys@)));
                    }
                } else {
                    let apex = VertexKey::Centroid(i as u32);
                    let pk = FaceKey::PyramidFace(i as u32, v1_key);
                    match builder.add_vertex(apex, apex) {
                        Ok(_) => {},
                        Err(e) => {
                            proof {
                                assert(spec_kis_step(st0, side_count, i as int, face@, j as int)
                                    == Err::<OpState, BuildError>(e));
                            }
                            return Err(e);
                        },
                    }
                    proof {
                        assert(Ok::<Seq<VertexKey>, BuildError>(builder.keys@)
                            == spec_register_key(st0.1, apex));
                        assert(builder.spec_flags() == st0.0);
                    }
                    match builder.add_flag(pk, v1_key, v2_key) {
                        Ok(_) => {},
                        Err(e) => {
                            proof {
                                assert(spec_kis_step(st0, side_count, i as int, face@, j as int)
                                    == Err::<OpState, BuildError>(e));
                            }
                            return Err(e);
                        },
                    }
                    match builder.add_flag(pk, v2_key, apex) {
                        Ok(_) => {},
                        Err(e) => {
                            proof {
                                assert(spec_kis_step(st0, side_count, i as int, face@, j as int)
                                    == Err::<OpState, BuildError>(e));
                            }
                            return Err(e);
                        },
                    }
                    match builder.add_flag(pk, apex, v1_key) {
                        Ok(_) => {},
                        Err(e) => {
                            proof {
                                assert(spec_kis_step(st0, side_count, i as int, face@, j as int)
                                    == Err::<OpState, BuildError>(e));
                            }
                            return Err(e);
                        },
                    }
                    proof {
                        assert(spec_kis_step(st0, side_count, i as int, face@, j as int) == Ok::<
                            OpState,
                            BuildError,
                        >((builder.spec_flags(), builder.keys@)));
                    }
                }
                v1 = v2;
                j = j + 1;
            }
            i = i + 1;
        }
        proof {
            assert(spec_kis_faces(
                (builder.spec_flags(), builder.keys@),
                side_count,
                all_faces,
                nfaces as int,
            ) == Ok::<OpState, BuildError>((builder.spec_flags(), builder.keys@)));
        }
        match builder.build_polyhedron() {
            Ok(mesh) => {
                proof {
                    assert(spec_kis(self.spec_faces(), self.vertices@.len(), kis.side_count)
                        == Ok::<(Seq<VertexKey>, Seq<Seq<u32>>), BuildError>(
                        (mesh.vertices@, faces_view(mesh.faces@)),
                    ));
                }
                Ok(mesh)
            },
            Err(e) => Err(e),
        }
    }

    /// Applies one operator, per [`spec_apply`].
    pub fn apply(self, operator: Operator) -> (r: Result<Polyhedron<VertexKey>, BuildError>)
        ensures
            match r {
                Ok(mesh) => spec_apply(self.spec_faces(), self.vertices@.len(), operator) == Ok::<
                    (Seq<VertexKey>, Seq<Seq<u32>>),
                    BuildError,
                >((mesh.vertices@, faces_view(mesh.faces@))),
                Err(e) => spec_apply(self.spec_faces(), self.vertices@.len(), operator) == Err::<
                    (Seq<VertexKey>, Seq<Seq<u32>>),
                    BuildError,
                >(e),
            },
    {
        match operator {
            Operator::Ambo => self.ambo(),
            Operator::Dual => self.dual(),
            Operator::Kis(kis) => self.kis(kis),
        }
    }

    /// Applies each operator in order, starting from this mesh under its
    /// identity seed keys, per [`spec_apply_iter`]. The points of the result
    /// are keys into the last intermediate mesh; a caller that wants geometry
    /// applies the operators one at a time and evaluates each step's keys.
    pub fn apply_iter(self, operators: &Vec<Operator>) -> (r: Result<
        Polyhedron<VertexKey>,
        BuildError,
    >)
        ensures
            match r {
                Ok(mesh) => spec_apply_iter(self.spec_faces(), self.vertices@.len(), operators@)
                    == Ok::<(Seq<VertexKey>, Seq<Seq<u32>>), BuildError>(
                    (mesh.vertices@, faces_view(mesh.faces@)),
                ),
                Err(e) => spec_apply_iter(self.spec_faces(), self.vertices@.len(), operators@)
                    == Err::<(Seq<VertexKey>, Seq<Seq<u32>>), BuildError>(e),
            },
    {
        if self.vertices.len() > u32::MAX as usize {
            return Err(BuildError::IndexSpaceExhausted);
        }
        let ghost faces0 = self.spec_faces();
        let ghost nverts0 = self.vertices@.len();
        let mut mesh = self.into_seed_keys();
        let n = operators.len();
        let mut oi: usize = 0;
        while oi < n
            invariant
                0 <= oi <= n,
                n == operators@.len(),
                nverts0 <= u32::MAX,
                faces0 == self.spec_faces(),
                nverts0 == self.vertices@.len(),
                spec_apply_fold((seed_keys(nverts0), faces0), operators@, 0) == spec_apply_fold(
                    (mesh.vertices@, faces_view(mesh.faces@)),
                    operators@,
                    oi as int,
                ),
            decreases n - oi,
        {
            let ghost st0 = (mesh.vertices@, faces_view(mesh.faces@));
            let op = operators[oi];
            mesh = match mesh.apply(op) {
                Ok(m) => m,
                Err(e) => {
                    proof {
                        assert(spec_apply(st0.1, st0.0.len(), op) == Err::<
                            (Seq<VertexKey>, Seq<Seq<u32>>),
                            BuildError,
                        >(e));
                    }
                    return Err(e);
                },
            };
            oi = oi + 1;
        }
        proof {
            assert(spec_apply_fold(
                (mesh.vertices@, faces_view(mesh.faces@)),
                operators@,
                n as int,
            ) == Ok::<(Seq<VertexKey>, Seq<Seq<u32>>), BuildError>(
                (mesh.vertices@, faces_view(mesh.faces@)),
            ));
        }
        Ok(mesh)
    }
}

/// What applying one operator to a mesh with the given face views and vertex
/// count returns.
pub open spec fn spec_apply(faces: Seq<Seq<u32>>, num_vertices: nat, operator: Operator) -> Result<
    (Seq<VertexKey>, Seq<Seq<u32>>),
    BuildError,
> {
    match operator {
        Operator::Ambo => spec_ambo(faces, num_vertices),
        Operator::Dual => spec_dual(faces, num_vertices),
        Operator::Kis(kis) => spec_kis(faces, num_vertices, kis.side_count),
    }
}

/// Folding the operators from index `i` over a keyed mesh state.
pub open spec fn spec_apply_fold(
    st: (Seq<VertexKey>, Seq<Seq<u32>>),
    operators: Seq<Operator>,
    i: int,
) -> Result<(Seq<VertexKey>, Seq<Seq<u32>>), BuildError>
    decreases operators.len() - i,
{
    if i < 0 || i >= operators.len() {
        Ok(st)
    } else {
        match spec_apply(st.1, st.0.len(), operators[i]) {
            Err(e) => Err(e),
            Ok(st2) => spec_apply_fold(st2, operators, i + 1),
        }
    }
}

/// What applying a sequence of operators to a mesh returns: the fold of
/// [`spec_apply`] over the operators, starting from the mesh under its
/// identity seed keys.
pub open spec fn spec_apply_iter(
    faces: Seq<Seq<u32>>,
    num_vertices: nat,
    operators: Seq<Operator>,
) -> Result<(Seq<VertexKey>, Seq<Seq<u32>>), BuildError> {
    if num_vertices > u32::MAX {
        Err(BuildError::IndexSpaceExhausted)
    } else {
        spec_apply_fold((seed_keys(num_vertices), faces), operators, 0)
    }
}

/// LAW (operator determinism): every operator's output is a function of its
/// input mesh alone. [`Polyhedron::apply`] pins its result — vertex keys and
/// face cycles alike, or the reported defect — to [`spec_apply`] of its
/// input, so two independent applications of one operator to equal meshes
/// return equal meshes: the face lists agree outright, not merely as
/// multisets.
pub proof fn lemma_apply_deterministic(
    faces1: Seq<Seq<u32>>,
    num_vertices1: nat,
    operator1: Operator,
    faces2: Seq<Seq<u32>>,
    num_vertices2: nat,
    operator2: Operator,
)
    requires
        faces1 == faces2,
        num_vertices1 == num_vertices2,
        operator1 == operator2,
    ensures
        spec_apply(faces1, num_vertices1, operator1) == spec_apply(
            faces2,
            num_vertices2,
            operator2,
        ),
{
}

} // verus!

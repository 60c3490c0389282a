//! The mesh value: an immutable vertex list plus face list, the currency
//! between the seed catalog, the operators and the classifier.

use vstd::prelude::*;

use crate::keys::VertexKey;

verus! {

/// An ordered cyclic sequence of vertex indices; the last index connects back
/// to the first. A well-formed face has at least three indices, all of them
/// valid positions into the owning mesh's vertex list.
#[derive(Clone, Debug)]
pub struct Face {
    pub indices: Vec<u32>,
}

impl View for Face {
    type V = Seq<u32>;

    open spec fn view(&self) -> Seq<u32> {
        self.indices@
    }
}

impl Face {
    /// A face over the given vertex indices.
    pub fn new(indices: Vec<u32>) -> (face: Face)
        ensures
            face@ == indices@,
    {
        Face { indices }
    }

    /// The face's vertex indices, in cyclic order.
    pub fn indices(&self) -> (r: &Vec<u32>)
        ensures
            r@ == self@,
    {
        &self.indices
    }

    /// The face's last directed edge: its two final indices, whose successor
    /// wraps around to the front.
    pub fn last(&self) -> (r: (u32, u32))
        requires
            self@.len() > 1,
        ensures
            r.0 == self@[self@.len() - 2],
            r.1 == self@[self@.len() - 1],
    {
        let last_index = self.indices.len() - 1;
        (self.indices[last_index - 1], self.indices[last_index])
    }
}

/// A closed polyhedral mesh, generic in its point type `P`. The engine never
/// inspects a point: a mesh produced by an operator has `P =`
/// [`crate::keys::VertexKey`], each point being the canonical identity from
/// which a caller computes the actual position.
#[derive(Clone, Debug)]
pub struct Polyhedron<P> {
    pub vertices: Vec<P>,
    pub faces: Vec<Face>,
}

/// The views of a mesh's faces: one cyclic index sequence per face.
pub open spec fn faces_view(faces: Seq<Face>) -> Seq<Seq<u32>> {
    faces.map_values(|f: Face| f@)
}

/// Every index of the face names a vertex of a mesh with `num_vertices`
/// vertices.
pub open spec fn face_indices_valid(face: Seq<u32>, num_vertices: nat) -> bool {
    forall|j: int| 0 <= j < face.len() ==> (#[trigger] face[j]) < num_vertices
}

/// A face that visits no vertex twice and has at least three sides.
pub open spec fn face_simple(face: Seq<u32>) -> bool {
    &&& face.len() >= 3
    &&& face.no_duplicates()
}

/// The structural invariant required of every operator input: each face is
/// simple and refers only to existing vertices. (Operators additionally
/// assume, but cannot see locally, that the mesh is closed and manifold;
/// where that fails they report a topology defect instead of building a
/// malformed mesh.)
pub open spec fn mesh_well_formed(faces: Seq<Seq<u32>>, num_vertices: nat) -> bool {
    forall|i: int| 0 <= i < faces.len() ==> {
        &&& face_simple(#[trigger] faces[i])
        &&& face_indices_valid(faces[i], num_vertices)
    }
}

impl<P> Polyhedron<P> {
    /// A mesh from its parts.
    pub fn from_parts(vertices: Vec<P>, faces: Vec<Face>) -> (mesh: Polyhedron<P>)
        ensures
            mesh.vertices@ == vertices@,
            mesh.faces@ == faces@,
    {
        Polyhedron { vertices, faces }
    }

    /// The mesh's faces.
    pub fn faces(&self) -> (r: &Vec<Face>)
        ensures
            r@ == self.faces@,
    {
        &self.faces
    }

    /// The mesh's vertex points, in index order.
    pub fn vertices(&self) -> (r: &Vec<P>)
        ensures
            r@ == self.vertices@,
    {
        &self.vertices
    }

    /// The views of this mesh's faces.
    pub open spec fn spec_faces(&self) -> Seq<Seq<u32>> {
        faces_view(self.faces@)
    }

    /// The structural invariant of an operator input, on this mesh.
    pub open spec fn well_formed(&self) -> bool {
        mesh_well_formed(self.spec_faces(), self.vertices@.len())
    }
}

/// Each of the first `num_vertices` vertex indices under its own seed key.
pub open spec fn seed_keys(num_vertices: nat) -> Seq<VertexKey> {
    Seq::new(num_vertices, |i: int| VertexKey::Seed(i as u32))
}

impl<P> Polyhedron<P> {
    /// Decides [`Polyhedron::well_formed`]: every face has at least three
    /// sides, visits no vertex twice, and refers only to existing vertices.
    pub fn check_well_formed(&self) -> (r: bool)
        ensures
            r == self.well_formed(),
    {
        let nv = self.vertices.len();
        let nf = self.faces.len();
        let mut i: usize = 0;
        while i < nf
            invariant
                0 <= i <= nf,
                nf == self.spec_faces().len(),
                nv == self.vertices@.len(),
                forall|k: int| 0 <= k < i ==> face_simple(#[trigger] self.spec_faces()[k])
                    && face_indices_valid(self.spec_faces()[k], self.vertices@.len()),
            decreases nf - i,
        {
            let face = &self.faces[i];
            let len = face.indices.len();
            if len < 3 {
                assert(!face_simple(self.spec_faces()[i as int]));
                return false;
            }
            let mut j: usize = 0;
            while j < len
                invariant
                    0 <= j <= len,
                    len == face@.len(),
                    nv == self.vertices@.len(),
                    face@ == self.spec_faces()[i as int],
                    0 <= i < self.spec_faces().len(),
                    forall|a: int| 0 <= a < j ==> (#[trigger] face@[a]) < nv,
                    forall|a: int, b: int| 0 <= a < j && a < b < len ==> face@[a] != face@[b],
                decreases len - j,
            {
                if face.indices[j] as usize >= nv {
                    assert(!face_indices_valid(self.spec_faces()[i as int], self.vertices@.len()));
                    return false;
                }
                let mut k: usize = j + 1;
                while k < len
                    invariant
                        j < k <= len,
                        len == face@.len(),
                        0 <= i < self.spec_faces().len(),
                        face@ == self.spec_faces()[i as int],
                        forall|b: int| j < b < k ==> face@[j as int] != (#[trigger] face@[b]),
                    decreases len - k,
                {
                    if face.indices[k] == face.indices[j] {
                        assert(face@[j as int] == face@[k as int] && j < k);
                        assert(!face@.no_duplicates());
                        assert(!face_simple(self.spec_faces()[i as int]));
                        return false;
                    }
                    k = k + 1;
                }
                j = j + 1;
            }
            assert(face@.no_duplicates());
            i = i + 1;
        }
        true
    }

    /// The same mesh with each vertex's point replaced by its own seed key:
    /// the identity recipe, from which chained operator application starts.
    pub fn into_seed_keys(self) -> (r: Polyhedron<VertexKey>)
        requires
            self.vertices@.len() <= u32::MAX,
        ensures
            r.faces@ == self.faces@,
            r.vertices@ == seed_keys(self.vertices@.len()),
    {
        let n = self.vertices.len();
        let mut keys: Vec<VertexKey> = Vec::new();
        let mut i: usize = 0;
        while i < n
            invariant
                0 <= i <= n,
                n == self.vertices@.len() <= u32::MAX,
                keys@.len() == i,
                forall|k: int| 0 <= k < i ==> keys@[k] == VertexKey::Seed(k as u32),
            decreases n - i,
        {
            keys.push(VertexKey::Seed(i as u32));
            i = i + 1;
        }
        proof {
            assert(keys@ =~= seed_keys(self.vertices@.len()));
        }
        Polyhedron { vertices: keys, faces: self.faces }
    }
}

/// Twice the number of undirected edges of a mesh whose faces have the given
/// views: each undirected edge of a closed mesh appears as a directed edge of
/// exactly two faces, so the sum of the face valences counts it twice.
pub open spec fn sum_of_valences(faces: Seq<Seq<u32>>) -> int
    decreases faces.len(),
{
    if faces.len() == 0 {
        0
    } else {
        sum_of_valences(faces.drop_last()) + faces.last().len()
    }
}

impl<P> Polyhedron<P> {
    /// The sum of the face valences, which on a closed mesh is twice the
    /// number of undirected edges: the Euler characteristic of this mesh is
    /// `vertices.len() - valence_sum() / 2 + faces.len()`.
    pub fn valence_sum(&self) -> (r: u64)
        requires
            sum_of_valences(self.spec_faces()) <= u64::MAX,
        ensures
            r == sum_of_valences(self.spec_faces()),
    {
        let mut valences: u64 = 0;
        let nfaces = self.faces.len();
        let mut i: usize = 0;
        while i < nfaces
            invariant
                0 <= i <= nfaces,
                nfaces == self.faces@.len(),
                sum_of_valences(self.spec_faces()) <= u64::MAX,
                valences == sum_of_valences(self.spec_faces().take(i as int)),
                0 <= valences,
            decreases nfaces - i,
        {
            proof {
                lemma_sum_of_valences_take_step(self.spec_faces(), i as int);
                lemma_sum_of_valences_take_bound(self.spec_faces(), i + 1);
            }
            let v = self.faces[i].indices.len();
            assert(self.spec_faces()[i as int].len() == v);
            valences = valences + v as u64;
            i = i + 1;
        }
        proof {
            assert(self.spec_faces().take(nfaces as int) =~= self.spec_faces());
        }
        valences
    }
}

/// Taking one more face adds that face's valence to the running sum.
pub proof fn lemma_sum_of_valences_take_step(faces: Seq<Seq<u32>>, i: int)
    requires
        0 <= i < faces.len(),
    ensures
        sum_of_valences(faces.take(i + 1)) == sum_of_valences(faces.take(i)) + faces[i].len(),
{
    assert(faces.take(i + 1).drop_last() =~= faces.take(i));
    assert(faces.take(i + 1).last() == faces[i]);
}

/// A prefix's valence sum is at most the whole sequence's, and at least 0.
proof fn lemma_sum_of_valences_take_bound(faces: Seq<Seq<u32>>, n: int)
    requires
        0 <= n <= faces.len(),
    ensures
        0 <= sum_of_valences(faces.take(n)) <= sum_of_valences(faces),
    decreases faces.len(),
{
    if n == faces.len() {
        assert(faces.take(n) =~= faces);
        lemma_sum_of_valences_nonneg(faces);
    } else {
        lemma_sum_of_valences_take_bound(faces.drop_last(), if n <= faces.len() - 1 {
            n
        } else {
            faces.len() - 1
        });
        assert(faces.take(n) =~= faces.drop_last().take(n));
    }
}

/// A sum of lengths is never negative.
proof fn lemma_sum_of_valences_nonneg(faces: Seq<Seq<u32>>)
    ensures
        0 <= sum_of_valences(faces),
    decreases faces.len(),
{
    if faces.len() > 0 {
        lemma_sum_of_valences_nonneg(faces.drop_last());
    }
}

} // verus!

//! Face classification: groups faces into congruence classes.
//!
//! Congruence is decided on a rotation- and winding-invariant signature: per
//! face, the magnitude of the cross product of the two edge vectors meeting
//! at each vertex, quantized to a fixed number of significant mantissa bits.
//! Computing and quantizing those magnitudes is the caller's (floating-point)
//! work; this module owns what makes the signature canonical and the classes
//! stable: sorting each face's magnitude list ascending — discarding the
//! starting vertex and the winding direction — and grouping equal signatures
//! under small class ids in first-seen order.

use vstd::prelude::*;

use crate::polyhedron::Polyhedron;

verus! {

/// Every element is at most each element after it.
pub open spec fn sorted(s: Seq<u64>) -> bool {
    forall|i: int, j: int| 0 <= i < j < s.len() ==> s[i] <= s[j]
}

/// `x` inserted in front of the first element it does not exceed.
pub open spec fn spec_sorted_insert(s: Seq<u64>, x: u64) -> Seq<u64>
    decreases s.len(),
{
    if s.len() == 0 {
        seq![x]
    } else if x <= s[0] {
        seq![x] + s
    } else {
        seq![s[0]] + spec_sorted_insert(s.drop_first(), x)
    }
}

/// The sequence sorted ascending by repeated insertion, in order.
pub open spec fn spec_sort(s: Seq<u64>) -> Seq<u64>
    decreases s.len(),
{
    if s.len() == 0 {
        s
    } else {
        spec_sorted_insert(spec_sort(s.drop_last()), s.last())
    }
}

/// Inserting into a sorted sequence at the first position whose element is
/// not exceeded: the result is the positional insertion there, it stays
/// sorted, and it grows by one.
pub proof fn lemma_sorted_insert(s: Seq<u64>, x: u64, p: int)
    requires
        sorted(s),
        0 <= p <= s.len(),
        forall|k: int| 0 <= k < p ==> s[k] < x,
        p < s.len() ==> x <= s[p],
    ensures
        spec_sorted_insert(s, x) == s.insert(p, x),
        sorted(s.insert(p, x)),
        s.insert(p, x).len() == s.len() + 1,
    decreases s.len(),
{
    if s.len() == 0 {
        assert(spec_sorted_insert(s, x) =~= s.insert(0, x));
    } else if x <= s[0] {
        assert(p == 0);
        assert(spec_sorted_insert(s, x) =~= s.insert(0, x));
    } else {
        assert(s.drop_first().len() == s.len() - 1);
        assert forall|k: int| 0 <= k < p - 1 implies s.drop_first()[k] < x by {
            assert(s.drop_first()[k] == s[k + 1]);
        }
        lemma_sorted_insert(s.drop_first(), x, p - 1);
        assert(spec_sorted_insert(s, x) =~= s.insert(p, x));
    }
    let t = s.insert(p, x);
    assert forall|i: int, j: int| 0 <= i < j < t.len() implies t[i] <= t[j] by {
        if j < p {
        } else if i < p && j == p {
        } else if i < p && j > p {
            assert(t[j] == s[j - 1]);
        } else if i == p {
            assert(t[j] == s[j - 1]);
            assert(p < s.len() && x <= s[p]);
            assert(s[p] <= s[j - 1] || p == j - 1);
        } else {
            assert(t[i] == s[i - 1] && t[j] == s[j - 1]);
        }
    }
}

/// Sorting preserves the length and the multiset of elements.
pub proof fn lemma_spec_sort_len(s: Seq<u64>)
    ensures
        spec_sort(s).len() == s.len(),
        sorted(spec_sort(s)),
        spec_sort(s).to_multiset() == s.to_multiset(),
    decreases s.len(),
{
    if s.len() > 0 {
        lemma_spec_sort_len(s.drop_last());
        let d = spec_sort(s.drop_last());
        let x = s.last();
        let p = lemma_first_not_less(d, x);
        lemma_sorted_insert(d, x, p);
        vstd::seq_lib::to_multiset_insert(d, p, x);
        vstd::seq_lib::to_multiset_build(s.drop_last(), x);
        assert(s.drop_last().push(x) =~= s);
    }
}

/// The first position in a sorted sequence whose element is not below `x`
/// (possibly the end).
proof fn lemma_first_not_less(s: Seq<u64>, x: u64) -> (p: int)
    requires
        sorted(s),
    ensures
        0 <= p <= s.len(),
        forall|k: int| 0 <= k < p ==> s[k] < x,
        p < s.len() ==> x <= s[p],
    decreases s.len(),
{
    if s.len() == 0 {
        0
    } else if x <= s[0] {
        0
    } else {
        assert forall|i: int, j: int|
            0 <= i < j < s.drop_first().len() implies s.drop_first()[i]
            <= s.drop_first()[j] by {
            assert(s.drop_first()[i] == s[i + 1]);
            assert(s.drop_first()[j] == s[j + 1]);
        }
        let q = lemma_first_not_less(s.drop_first(), x);
        let p = q + 1;
        assert forall|k: int| 0 <= k < p implies s[k] < x by {
            if k >= 1 {
                assert(s.drop_first()[k - 1] == s[k]);
            }
        }
        assert(p < s.len() ==> x <= s[p]) by {
            if p < s.len() {
                assert(s.drop_first()[q] == s[p]);
            }
        }
        p
    }
}

/// Sorts the magnitudes ascending, per [`spec_sort`].
pub fn sort_magnitudes(values: &Vec<u64>) -> (r: Vec<u64>)
    ensures
        r@ == spec_sort(values@),
        sorted(r@),
        r@.to_multiset() == values@.to_multiset(),
        r@.len() == values@.len(),
{
    proof {
        lemma_spec_sort_len(values@);
    }
    let n = values.len();
    let mut out: Vec<u64> = Vec::new();
    let mut i: usize = 0;
    proof {
        assert(values@.take(0) =~= Seq::<u64>::empty());
    }
    while i < n
        invariant
            0 <= i <= n,
            n == values@.len(),
            out@ == spec_sort(values@.take(i as int)),
            sorted(out@),
            out@.len() == i,
        decreases n - i,
    {
        let x = values[i];
        let mut p: usize = 0;
        while p < out.len() && out[p] < x
            invariant
                0 <= p <= out@.len(),
                sorted(out@),
                forall|k: int| 0 <= k < p ==> out@[k] < x,
            decreases out@.len() - p,
        {
            p = p + 1;
        }
        let ghost pre = out@;
        out.insert(p, x);
        proof {
            lemma_sorted_insert(pre, x, p as int);
            assert(values@.take(i + 1).drop_last() =~= values@.take(i as int));
            assert(values@.take(i + 1).last() == values@[i as int]);
        }
        i = i + 1;
    }
    proof {
        assert(values@.take(n as int) =~= values@);
    }
    out
}

/// The position of the first signature equal to `sig`, if any.
pub open spec fn spec_sig_index(sigs: Seq<Seq<u64>>, sig: Seq<u64>) -> Option<int>
    decreases sigs.len(),
{
    if sigs.len() == 0 {
        None
    } else if sigs[0] == sig {
        Some(0)
    } else {
        match spec_sig_index(sigs.drop_first(), sig) {
            Some(i) => Some(i + 1),
            None => None,
        }
    }
}

/// Where `spec_sig_index` points: at the first equal signature, or nowhere
/// when none is equal.
pub proof fn lemma_sig_index(sigs: Seq<Seq<u64>>, sig: Seq<u64>)
    ensures
        match spec_sig_index(sigs, sig) {
            Some(i) => {
                &&& 0 <= i < sigs.len()
                &&& sigs[i] == sig
                &&& forall|j: int| 0 <= j < i ==> sigs[j] != sig
            },
            None => forall|j: int| 0 <= j < sigs.len() ==> sigs[j] != sig,
        },
    decreases sigs.len(),
{
    if sigs.len() > 0 && sigs[0] != sig {
        lemma_sig_index(sigs.drop_first(), sig);
        assert forall|j: int| 1 <= j < sigs.len() implies sigs.drop_first()[j - 1] == sigs[j] by {}
        if spec_sig_index(sigs.drop_first(), sig) is None {
            assert forall|j: int| 0 <= j < sigs.len() implies sigs[j] != sig by {
                if j >= 1 {
                    assert(sigs.drop_first()[j - 1] == sigs[j]);
                }
            }
        }
    }
}

/// The views of a list of signatures.
pub open spec fn sigs_view(sigs: Seq<Vec<u64>>) -> Seq<Seq<u64>> {
    sigs.map_values(|v: Vec<u64>| v@)
}

/// The views of the per-face magnitude lists.
pub open spec fn mags_view(mags: Seq<Vec<u64>>) -> Seq<Seq<u64>> {
    mags.map_values(|v: Vec<u64>| v@)
}

/// The signature of each face: its quantized turn magnitudes sorted
/// ascending, or the empty signature for a face with fewer than three sides
/// (which therefore collides with every other degenerate face).
pub open spec fn spec_face_signatures(faces: Seq<Seq<u32>>, mags: Seq<Seq<u64>>) -> Seq<Seq<u64>> {
    Seq::new(
        faces.len(),
        |i: int|
            if faces[i].len() < 3 {
                Seq::<u64>::empty()
            } else {
                spec_sort(mags[i])
            },
    )
}

/// Grouping the signatures from index `i` on: a signature seen before gets
/// that occurrence's class id, a new one gets the next id, in first-seen
/// order.
pub open spec fn spec_classify_fold(
    distinct: Seq<Seq<u64>>,
    classes: Seq<usize>,
    sigs: Seq<Seq<u64>>,
    i: int,
) -> (Seq<Seq<u64>>, Seq<usize>)
    decreases sigs.len() - i,
{
    if i < 0 || i >= sigs.len() {
        (distinct, classes)
    } else {
        match spec_sig_index(distinct, sigs[i]) {
            Some(ci) => spec_classify_fold(distinct, classes.push(ci as usize), sigs, i + 1),
            None => spec_classify_fold(
                distinct.push(sigs[i]),
                classes.push(distinct.len() as usize),
                sigs,
                i + 1,
            ),
        }
    }
}

/// What the classifier returns: one small class id per face, in face order,
/// classes discovered in first-seen order.
pub open spec fn spec_classify_faces(faces: Seq<Seq<u32>>, mags: Seq<Seq<u64>>) -> Seq<usize> {
    spec_classify_fold(Seq::empty(), Seq::empty(), spec_face_signatures(faces, mags), 0).1
}

/// Two signature lists hold the same values.
fn signatures_equal(a: &Vec<u64>, b: &Vec<u64>) -> (r: bool)
    ensures
        r == (a@ == b@),
{
    let n = a.len();
    if n != b.len() {
        return false;
    }
    let mut i: usize = 0;
    while i < n
        invariant
            0 <= i <= n,
            n == a@.len() == b@.len(),
            forall|k: int| 0 <= k < i ==> a@[k] == b@[k],
        decreases n - i,
    {
        if a[i] != b[i] {
            return false;
        }
        i = i + 1;
    }
    proof {
        assert(a@ =~= b@);
    }
    true
}

/// The position of the first signature equal to `sig` among those discovered
/// so far.
fn find_signature(distinct: &Vec<Vec<u64>>, sig: &Vec<u64>) -> (r: Option<usize>)
    ensures
        r is Some <==> spec_sig_index(sigs_view(distinct@), sig@) is Some,
        r is Some ==> spec_sig_index(sigs_view(distinct@), sig@) == Some(r.unwrap() as int),
{
    proof {
        lemma_sig_index(sigs_view(distinct@), sig@);
    }
    let n = distinct.len();
    let mut i: usize = 0;
    while i < n
        invariant
            0 <= i <= n,
            n == distinct@.len(),
            forall|j: int| 0 <= j < i ==> (#[trigger] sigs_view(distinct@)[j]) != sig@,
            match spec_sig_index(sigs_view(distinct@), sig@) {
                Some(k) => {
                    &&& 0 <= k < distinct@.len()
                    &&& sigs_view(distinct@)[k] == sig@
                    &&& forall|j: int| 0 <= j < k ==> (#[trigger] sigs_view(distinct@)[j]) != sig@
                },
                None => forall|j: int|
                    0 <= j < distinct@.len() ==> (#[trigger] sigs_view(distinct@)[j]) != sig@,
            },
        decreases n - i,
    {
        if signatures_equal(&distinct[i], sig) {
            assert(sigs_view(distinct@)[i as int] == sig@);
            return Some(i);
        }
        assert(sigs_view(distinct@)[i as int] != sig@);
        i = i + 1;
    }
    None
}

impl<P> Polyhedron<P> {
    /// Returns, for every face in face order, a small class id: two faces get
    /// the same id exactly when their signatures — the given per-vertex
    /// quantized turn magnitudes, sorted — are element-wise identical.
    /// Classes are numbered in first-seen order, stable within one call. The
    /// caller supplies one magnitude list per face, one value per vertex,
    /// computed from the face's geometry.
    pub fn classify_faces(&self, magnitudes: &Vec<Vec<u64>>) -> (r: Vec<usize>)
        requires
            magnitudes@.len() == self.faces@.len(),
        ensures
            r@ == spec_classify_faces(self.spec_faces(), mags_view(magnitudes@)),
    {
        let ghost all_sigs = spec_face_signatures(self.spec_faces(), mags_view(magnitudes@));
        let nfaces = self.faces.len();
        let mut distinct: Vec<Vec<u64>> = Vec::new();
        let mut classes: Vec<usize> = Vec::new();
        let mut i: usize = 0;
        proof {
            assert(sigs_view(distinct@) =~~= Seq::<Seq<u64>>::empty());
        }
        while i < nfaces
            invariant
                0 <= i <= nfaces,
                nfaces == self.faces@.len(),
                magnitudes@.len() == self.faces@.len(),
                all_sigs == spec_face_signatures(self.spec_faces(), mags_view(magnitudes@)),
                spec_classify_fold(Seq::empty(), Seq::empty(), all_sigs, 0) == spec_classify_fold(
                    sigs_view(distinct@),
                    classes@,
                    all_sigs,
                    i as int,
                ),
            decreases nfaces - i,
        {
            let sig = if self.faces[i].indices.len() < 3 {
                Vec::new()
            } else {
                sort_magnitudes(&magnitudes[i])
            };
            proof {
                assert(self.spec_faces()[i as int] == self.faces@[i as int]@);
                assert(mags_view(magnitudes@)[i as int] == magnitudes@[i as int]@);
                assert(sig@ == all_sigs[i as int]);
            }
            let ghost pre_distinct = sigs_view(distinct@);
            let ghost pre_classes = classes@;
            match find_signature(&distinct, &sig) {
                Some(ci) => {
                    classes.push(ci);
                },
                None => {
                    classes.push(distinct.len());
                    distinct.push(sig);
                    proof {
                        assert(sigs_view(distinct@) =~~= pre_distinct.push(
                            all_sigs[i as int],
                        ));
                    }
                },
            }
            i = i + 1;
        }
        classes
    }
}

/// Throughout classification, every assigned class id points at the distinct
/// signature it stands for, and the distinct signatures never repeat.
proof fn lemma_classify_fold_props(
    distinct: Seq<Seq<u64>>,
    classes: Seq<usize>,
    sigs: Seq<Seq<u64>>,
    i: int,
)
    requires
        0 <= i <= sigs.len(),
        classes.len() == i,
        distinct.len() + (sigs.len() - i) <= usize::MAX,
        forall|a: int, b: int| 0 <= a < b < distinct.len() ==> distinct[a] != distinct[b],
        forall|k: int|
            0 <= k < i ==> (classes[k] as int) < distinct.len() && distinct[#[trigger] classes[k] as int]
                == sigs[k],
    ensures
        ({
            let r = spec_classify_fold(distinct, classes, sigs, i);
            &&& r.1.len() == sigs.len()
            &&& forall|a: int, b: int| 0 <= a < b < r.0.len() ==> r.0[a] != r.0[b]
            &&& forall|k: int|
                0 <= k < sigs.len() ==> (r.1[k] as int) < r.0.len() && r.0[#[trigger] r.1[k] as int]
                    == sigs[k]
        }),
    decreases sigs.len() - i,
{
    if i < sigs.len() {
        lemma_sig_index(distinct, sigs[i]);
        match spec_sig_index(distinct, sigs[i]) {
            Some(ci) => {
                lemma_classify_fold_props(distinct, classes.push(ci as usize), sigs, i + 1);
            },
            None => {
                lemma_classify_fold_props(
                    distinct.push(sigs[i]),
                    classes.push(distinct.len() as usize),
                    sigs,
                    i + 1,
                );
            },
        }
    }
}

/// LAW (classifier faithfulness): two faces receive the same class id exactly
/// when their signatures — sorted, quantized turn-magnitude lists — are
/// element-wise identical. This is both directions of the classifier's
/// contract: congruent faces (equal signatures) always share a class, and
/// faces with different signatures never collide.
pub proof fn lemma_same_class_iff_same_signature(
    faces: Seq<Seq<u32>>,
    mags: Seq<Seq<u64>>,
    i: int,
    j: int,
)
    requires
        faces.len() <= usize::MAX,
        0 <= i < faces.len(),
        0 <= j < faces.len(),
    ensures
        ({
            let classes = spec_classify_faces(faces, mags);
            let sigs = spec_face_signatures(faces, mags);
            classes[i] == classes[j] <==> sigs[i] == sigs[j]
        }),
{
    let sigs = spec_face_signatures(faces, mags);
    lemma_classify_fold_props(Seq::empty(), Seq::empty(), sigs, 0);
    let r = spec_classify_fold(Seq::<Seq<u64>>::empty(), Seq::<usize>::empty(), sigs, 0);
    let classes = spec_classify_faces(faces, mags);
    assert(classes == r.1);
    assert(r.0[classes[i] as int] == sigs[i]);
    assert(r.0[classes[j] as int] == sigs[j]);
    if sigs[i] == sigs[j] && classes[i] != classes[j] {
        let a = classes[i] as int;
        let b = classes[j] as int;
        if a < b {
            assert(r.0[a] != r.0[b]);
        } else {
            assert(r.0[b] != r.0[a]);
        }
    }
}

/// LAW (classifier determinism): the classifier's output is a function of
/// the mesh's faces and their quantized magnitudes alone.
/// [`Polyhedron::classify_faces`] pins its result to [`spec_classify_faces`]
/// of its input, so two independent runs on equal input return equal class
/// lists.
pub proof fn lemma_classify_deterministic(
    faces1: Seq<Seq<u32>>,
    mags1: Seq<Seq<u64>>,
    faces2: Seq<Seq<u32>>,
    mags2: Seq<Seq<u64>>,
)
    requires
        faces1 == faces2,
        mags1 == mags2,
    ensures
        spec_classify_faces(faces1, mags1) == spec_classify_faces(faces2, mags2),
{
}

/// LAW (distinct valences never collide): with one quantized magnitude per
/// vertex, two faces of different valence — each a real polygon of at least
/// three sides — never share a class: their signatures have different
/// lengths, and signatures of different length are never equal.
pub proof fn lemma_different_valence_different_class(
    faces: Seq<Seq<u32>>,
    mags: Seq<Seq<u64>>,
    i: int,
    j: int,
)
    requires
        faces.len() <= usize::MAX,
        mags.len() == faces.len(),
        0 <= i < faces.len(),
        0 <= j < faces.len(),
        mags[i].len() == faces[i].len(),
        mags[j].len() == faces[j].len(),
        faces[i].len() >= 3,
        faces[j].len() >= 3,
        faces[i].len() != faces[j].len(),
    ensures
        spec_classify_faces(faces, mags)[i] != spec_classify_faces(faces, mags)[j],
{
    lemma_spec_sort_len(mags[i]);
    lemma_spec_sort_len(mags[j]);
    let sigs = spec_face_signatures(faces, mags);
    assert(sigs[i].len() == faces[i].len());
    assert(sigs[j].len() == faces[j].len());
    lemma_same_class_iff_same_signature(faces, mags, i, j);
}

} // verus!

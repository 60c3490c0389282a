//! A transient, single-use mesh accumulator.
//!
//! A `Builder` receives vertex points under canonical
//! [`VertexKey`](crate::keys::VertexKey) identities and directed edges
//! ("flags") under [`FaceKey`](crate::keys::FaceKey) identities. Per face key
//! the flags form a successor map `source -> destination`; once an operator
//! has emitted every flag, [`Builder::build_polyhedron`] walks each successor
//! map from an arbitrary start back around to it, recovering the face's
//! cyclic vertex order, and emits the finished mesh.
//!
//! Topology defects — a source re-registered with a different destination, a
//! walk with no successor or one that fails to close, a key with no assigned
//! index — indicate a defect in the caller's edge emission and are reported
//! as a [`BuildError`] instead of degrading into a malformed mesh.

use vstd::prelude::*;

use crate::keys::FaceKey;
use crate::keys::VertexKey;
use crate::polyhedron::Face;
use crate::polyhedron::Polyhedron;
use crate::polyhedron::faces_view;

verus! {

/// A failure while accumulating or assembling a mesh.
#[derive(Clone, Copy, PartialEq, Eq, Structural, Debug)]
pub enum BuildError {
    /// A flag's source and destination were the same key.
    DegenerateEdge,
    /// A face already had an outgoing edge from the same source with a
    /// different destination.
    ConflictingEdge,
    /// Every index a 32-bit vertex index can name has been assigned.
    IndexSpaceExhausted,
    /// A face walk reached a key with no outgoing edge.
    MissingSuccessor,
    /// A face walk failed to return to its start.
    UnclosedWalk,
    /// A walked key was never registered as a vertex.
    UnregisteredVertex,
    /// An operator input broke the mesh invariant: a face with fewer than
    /// three sides, a repeated vertex in a face, or an index past the vertex
    /// list.
    NotWellFormed,
    /// The dual operator found no face on the other side of a directed edge:
    /// the input mesh is not closed.
    MissingReverseEdge,
}

/// A directed edge awaiting assembly into a face cycle.
#[derive(Clone, Copy, PartialEq, Eq, Structural, Debug)]
pub struct Edge {
    pub source: VertexKey,
    pub destination: VertexKey,
}

/// The edge bucket of one face under construction: a successor map,
/// represented as the list of its edges in registration order (each source
/// appears at most once).
#[derive(Clone, Debug)]
pub struct BuilderFace {
    pub edges: Vec<Edge>,
}

/// The destination of the first edge leaving `source`, if any.
pub open spec fn spec_find_next(edges: Seq<Edge>, source: VertexKey) -> Option<VertexKey>
    decreases edges.len(),
{
    if edges.len() == 0 {
        None
    } else if edges[0].source == source {
        Some(edges[0].destination)
    } else {
        spec_find_next(edges.drop_first(), source)
    }
}

/// What adding the directed edge `source -> destination` to a bucket yields:
/// a repeated registration with the same destination is a no-op, one with a
/// different destination is a defect, and a new source appends the edge.
pub open spec fn spec_add_edge(
    edges: Seq<Edge>,
    source: VertexKey,
    destination: VertexKey,
) -> Result<Seq<Edge>, BuildError> {
    match spec_find_next(edges, source) {
        Some(existing) => if existing == destination {
            Ok(edges)
        } else {
            Err(BuildError::ConflictingEdge)
        },
        None => Ok(edges.push(Edge { source, destination })),
    }
}

impl BuilderFace {
    /// An empty bucket.
    pub fn new() -> (r: BuilderFace)
        ensures
            r.edges@ == Seq::<Edge>::empty(),
    {
        BuilderFace { edges: Vec::new() }
    }

    /// The number of edges registered so far.
    pub fn len(&self) -> (r: usize)
        ensures
            r == self.edges@.len(),
    {
        self.edges.len()
    }

    /// The destination of the first edge registered, if any: the start
    /// vertex of this bucket's face walk.
    pub fn first(&self) -> (r: Option<VertexKey>)
        ensures
            r == if self.edges@.len() == 0 {
                Option::<VertexKey>::None
            } else {
                Some(self.edges@[0].destination)
            },
    {
        if self.edges.len() == 0 {
            None
        } else {
            Some(self.edges[0].destination)
        }
    }

    /// The successor of `source` in this bucket.
    pub fn find_next(&self, source: VertexKey) -> (r: Option<VertexKey>)
        ensures
            r == spec_find_next(self.edges@, source),
    {
        let n = self.edges.len();
        let mut i: usize = 0;
        proof {
            assert(self.edges@.skip(0) =~= self.edges@);
        }
        while i < n
            invariant
                0 <= i <= n,
                n == self.edges@.len(),
                spec_find_next(self.edges@, source) == spec_find_next(
                    self.edges@.skip(i as int),
                    source,
                ),
            decreases n - i,
        {
            if self.edges[i].source == source {
                assert(self.edges@.skip(i as int)[0] == self.edges@[i as int]);
                return Some(self.edges[i].destination);
            }
            proof {
                assert(self.edges@.skip(i as int)[0] == self.edges@[i as int]);
                assert(self.edges@.skip(i as int).drop_first() =~= self.edges@.skip(i + 1));
            }
            i = i + 1;
        }
        proof {
            assert(self.edges@.skip(n as int) =~= Seq::<Edge>::empty());
        }
        None
    }

    /// Registers the directed edge `source -> destination`, per
    /// [`spec_add_edge`].
    pub fn add_edge(&mut self, source: VertexKey, destination: VertexKey) -> (r: Result<
        (),
        BuildError,
    >)
        requires
            source != destination,
        ensures
            match spec_add_edge(old(self).edges@, source, destination) {
                Ok(es) => r is Ok && final(self).edges@ == es,
                Err(e) => r == Err::<(), BuildError>(e) && final(self).edges@ == old(self).edges@,
            },
    {
        match self.find_next(source) {
            Some(existing) => {
                if existing == destination {
                    Ok(())
                } else {
                    Err(BuildError::ConflictingEdge)
                }
            },
            None => {
                self.edges.push(Edge { source, destination });
                Ok(())
            },
        }
    }
}

/// The accumulator: an index map from vertex key to assigned output index
/// (kept as the key list in assignment order, so the key at position `i` owns
/// index `i`), the point registered under each key, and the edge bucket of
/// each face key, in first-registration order.
pub struct Builder<P> {
    pub flags: Vec<(FaceKey, BuilderFace)>,
    pub keys: Vec<VertexKey>,
    pub vertices: Vec<P>,
}

/// The position of the first pair registered under `face`, if any.
pub open spec fn spec_find_bucket(flags: Seq<(FaceKey, Seq<Edge>)>, face: FaceKey) -> Option<int>
    decreases flags.len(),
{
    if flags.len() == 0 {
        None
    } else if flags[0].0 == face {
        Some(0)
    } else {
        match spec_find_bucket(flags.drop_first(), face) {
            Some(i) => Some(i + 1),
            None => None,
        }
    }
}

/// Where `spec_find_bucket` points: at the first pair whose key is `face`,
/// or nowhere when no pair has that key.
pub proof fn lemma_find_bucket(flags: Seq<(FaceKey, Seq<Edge>)>, face: FaceKey)
    ensures
        match spec_find_bucket(flags, face) {
            Some(i) => {
                &&& 0 <= i < flags.len()
                &&& flags[i].0 == face
                &&& forall|j: int| 0 <= j < i ==> (#[trigger] flags[j]).0 != face
            },
            None => forall|j: int| 0 <= j < flags.len() ==> (#[trigger] flags[j]).0 != face,
        },
    decreases flags.len(),
{
    if flags.len() > 0 && flags[0].0 != face {
        lemma_find_bucket(flags.drop_first(), face);
        assert forall|j: int| 1 <= j < flags.len() implies flags.drop_first()[j - 1] == flags[j] by {}
    }
}

/// The assigned index of `key`: its position in the key list, if registered.
pub open spec fn spec_key_index(keys: Seq<VertexKey>, key: VertexKey) -> Option<int>
    decreases keys.len(),
{
    if keys.len() == 0 {
        None
    } else if keys[0] == key {
        Some(0)
    } else {
        match spec_key_index(keys.drop_first(), key) {
            Some(i) => Some(i + 1),
            None => None,
        }
    }
}

/// Where `spec_key_index` points: at the first occurrence of `key`, or
/// nowhere when the key was never registered.
pub proof fn lemma_key_index(keys: Seq<VertexKey>, key: VertexKey)
    ensures
        match spec_key_index(keys, key) {
            Some(i) => {
                &&& 0 <= i < keys.len()
                &&& keys[i] == key
                &&& forall|j: int| 0 <= j < i ==> keys[j] != key
            },
            None => !keys.contains(key),
        },
    decreases keys.len(),
{
    if keys.len() > 0 && keys[0] != key {
        lemma_key_index(keys.drop_first(), key);
        assert forall|j: int| 1 <= j < keys.len() implies keys.drop_first()[j - 1] == keys[j] by {}
        if spec_key_index(keys.drop_first(), key) is None {
            assert forall|j: int| 0 <= j < keys.len() implies keys[j] != key by {
                if j >= 1 {
                    assert(keys.drop_first()[j - 1] == keys[j]);
                }
            }
        }
    }
}

/// The face recovered by walking a bucket's successor map from `current`:
/// each visited key is resolved to its assigned index in `keys`, and the walk
/// ends on returning to `start`. It fails when a visited key was never
/// registered, when a key has no successor, or when `fuel` steps have not
/// closed the cycle (the successor map is not a single cycle through
/// `start`).
pub open spec fn spec_walk(
    edges: Seq<Edge>,
    keys: Seq<VertexKey>,
    start: VertexKey,
    current: VertexKey,
    fuel: nat,
) -> Result<Seq<u32>, BuildError>
    decreases fuel,
{
    match spec_key_index(keys, current) {
        None => Err(BuildError::UnregisteredVertex),
        Some(idx) => match spec_find_next(edges, current) {
            None => Err(BuildError::MissingSuccessor),
            Some(next) => if next == start {
                Ok(seq![idx as u32])
            } else if fuel == 0 {
                Err(BuildError::UnclosedWalk)
            } else {
                match spec_walk(edges, keys, start, next, (fuel - 1) as nat) {
                    Ok(rest) => Ok(seq![idx as u32] + rest),
                    Err(e) => Err(e),
                }
            },
        },
    }
}

/// The face a nonempty bucket assembles into: the walk starting (and ending)
/// at the first registered edge's destination. A bucket whose successor map
/// is a cycle of length `L <= edges.len()` through that start always closes,
/// since a walk is granted one step per registered edge.
pub open spec fn spec_bucket_face(edges: Seq<Edge>, keys: Seq<VertexKey>) -> Result<
    Seq<u32>,
    BuildError,
>
    recommends
        edges.len() > 0,
{
    spec_walk(edges, keys, edges[0].destination, edges[0].destination, edges.len())
}

/// The face list of the finished mesh: each nonempty bucket's assembled face,
/// in bucket registration order; the first defect anywhere is reported
/// instead.
pub open spec fn spec_build_faces(
    flags: Seq<(FaceKey, Seq<Edge>)>,
    keys: Seq<VertexKey>,
) -> Result<Seq<Seq<u32>>, BuildError>
    decreases flags.len(),
{
    if flags.len() == 0 {
        Ok(Seq::empty())
    } else if flags[0].1.len() == 0 {
        spec_build_faces(flags.drop_first(), keys)
    } else {
        match spec_bucket_face(flags[0].1, keys) {
            Err(e) => Err(e),
            Ok(face) => match spec_build_faces(flags.drop_first(), keys) {
                Ok(faces) => Ok(seq![face] + faces),
                Err(e) => Err(e),
            },
        }
    }
}

/// The assigned index of `key` in the key list, as
/// [`Builder::index_of_key`] computes it.
fn key_index_in(keys: &Vec<VertexKey>, key: VertexKey) -> (r: Option<u32>)
    requires
        keys@.len() <= u32::MAX,
    ensures
        r is Some <==> spec_key_index(keys@, key) is Some,
        r is Some ==> spec_key_index(keys@, key) == Some(r.unwrap() as int),
{
    proof {
        lemma_key_index(keys@, key);
    }
    let n = keys.len();
    let mut i: usize = 0;
    while i < n
        invariant
            0 <= i <= n,
            n == keys@.len() <= u32::MAX,
            forall|j: int| 0 <= j < i ==> keys@[j] != key,
            match spec_key_index(keys@, key) {
                Some(k) => {
                    &&& 0 <= k < keys@.len()
                    &&& keys@[k] == key
                    &&& forall|j: int| 0 <= j < k ==> keys@[j] != key
                },
                None => !keys@.contains(key),
            },
        decreases n - i,
    {
        if keys[i] == key {
            return Some(i as u32);
        }
        i = i + 1;
    }
    None
}

/// Walks one bucket's successor map and resolves each visited key to its
/// index, per [`spec_bucket_face`].
fn walk_bucket(bucket: &BuilderFace, keys: &Vec<VertexKey>) -> (r: Result<Vec<u32>, BuildError>)
    requires
        keys@.len() <= u32::MAX,
        bucket.edges@.len() > 0,
    ensures
        match r {
            Ok(v) => spec_bucket_face(bucket.edges@, keys@) == Ok::<Seq<u32>, BuildError>(v@),
            Err(e) => spec_bucket_face(bucket.edges@, keys@) == Err::<Seq<u32>, BuildError>(e),
        },
{
    let start = bucket.edges[0].destination;
    let mut current = start;
    let mut fuel: usize = bucket.edges.len();
    let mut indices: Vec<u32> = Vec::new();
    proof {
        match spec_walk(bucket.edges@, keys@, start, current, fuel as nat) {
            Ok(rest) => {
                assert(indices@ + rest =~= rest);
            },
            Err(_) => {},
        }
    }
    loop
        invariant
            keys@.len() <= u32::MAX,
            bucket.edges@.len() > 0,
            start == bucket.edges@[0].destination,
            spec_bucket_face(bucket.edges@, keys@) == match spec_walk(
                bucket.edges@,
                keys@,
                start,
                current,
                fuel as nat,
            ) {
                Ok(rest) => Ok::<Seq<u32>, BuildError>(indices@ + rest),
                Err(e) => Err::<Seq<u32>, BuildError>(e),
            },
        decreases fuel,
    {
        let idx = match key_index_in(keys, current) {
            Some(i) => i,
            None => {
                return Err(BuildError::UnregisteredVertex);
            },
        };
        let next = match bucket.find_next(current) {
            Some(n) => n,
            None => {
                return Err(BuildError::MissingSuccessor);
            },
        };
        let ghost pre = indices@;
        indices.push(idx);
        if next == start {
            proof {
                assert(spec_walk(bucket.edges@, keys@, start, current, fuel as nat) == Ok::<
                    Seq<u32>,
                    BuildError,
                >(seq![idx]));
                assert(pre + seq![idx] =~= indices@);
            }
            return Ok(indices);
        }
        if fuel == 0 {
            return Err(BuildError::UnclosedWalk);
        }
        proof {
            match spec_walk(bucket.edges@, keys@, start, next, (fuel - 1) as nat) {
                Ok(rest) => {
                    assert(spec_walk(bucket.edges@, keys@, start, current, fuel as nat) == Ok::<
                        Seq<u32>,
                        BuildError,
                    >(seq![idx] + rest));
                    assert(pre + (seq![idx] + rest) =~= indices@ + rest);
                },
                Err(_) => {},
            }
        }
        fuel = fuel - 1;
        current = next;
    }
}

/// What registering a vertex yields: a key already present is a no-op, a
/// full index space is reported, and otherwise the key is assigned the next
/// sequential index.
pub open spec fn spec_add_vertex<P>(
    keys: Seq<VertexKey>,
    vertices: Seq<P>,
    key: VertexKey,
    position: P,
) -> Result<(Seq<VertexKey>, Seq<P>), BuildError> {
    if keys.contains(key) {
        Ok((keys, vertices))
    } else if keys.len() >= u32::MAX {
        Err(BuildError::IndexSpaceExhausted)
    } else {
        Ok((keys.push(key), vertices.push(position)))
    }
}

/// What registering a flag yields: a degenerate edge is a defect; otherwise
/// the edge goes to `face`'s bucket per [`spec_add_edge`], a fresh bucket
/// being appended for a face key not seen before.
pub open spec fn spec_add_flag(
    flags: Seq<(FaceKey, Seq<Edge>)>,
    face: FaceKey,
    source: VertexKey,
    destination: VertexKey,
) -> Result<Seq<(FaceKey, Seq<Edge>)>, BuildError> {
    if source == destination {
        Err(BuildError::DegenerateEdge)
    } else {
        match spec_find_bucket(flags, face) {
            Some(i) => match spec_add_edge(flags[i].1, source, destination) {
                Ok(es) => Ok(flags.update(i, (face, es))),
                Err(e) => Err(e),
            },
            None => Ok(flags.push((face, seq![Edge { source, destination }]))),
        }
    }
}

impl<P> Builder<P> {
    /// The flag view: each face key with its bucket's edge list.
    pub open spec fn spec_flags(&self) -> Seq<(FaceKey, Seq<Edge>)> {
        self.flags@.map_values(|p: (FaceKey, BuilderFace)| (p.0, p.1.edges@))
    }

    /// The accumulator's invariant: one point per assigned index, and no more
    /// indices assigned than a 32-bit index can name. Keys are never assigned
    /// twice.
    pub open spec fn wf(&self) -> bool {
        &&& self.keys@.len() == self.vertices@.len()
        &&& self.keys@.len() <= u32::MAX
        &&& self.keys@.no_duplicates()
    }

    /// An empty accumulator.
    pub fn new() -> (r: Builder<P>)
        ensures
            r.wf(),
            r.spec_flags() == Seq::<(FaceKey, Seq<Edge>)>::empty(),
            r.keys@ == Seq::<VertexKey>::empty(),
            r.vertices@ == Seq::<P>::empty(),
    {
        let r = Builder { flags: Vec::new(), keys: Vec::new(), vertices: Vec::new() };
        proof {
            assert(r.spec_flags() =~= Seq::<(FaceKey, Seq<Edge>)>::empty());
        }
        r
    }

    /// The assigned index of `key`, if registered.
    pub fn index_of_key(&self, key: VertexKey) -> (r: Option<u32>)
        requires
            self.wf(),
        ensures
            r is Some <==> spec_key_index(self.keys@, key) is Some,
            r is Some ==> spec_key_index(self.keys@, key) == Some(r.unwrap() as int),
    {
        proof {
            lemma_key_index(self.keys@, key);
        }
        let n = self.keys.len();
        let mut i: usize = 0;
        while i < n
            invariant
                0 <= i <= n,
                n == self.keys@.len() <= u32::MAX,
                self.wf(),
                forall|j: int| 0 <= j < i ==> self.keys@[j] != key,
                match spec_key_index(self.keys@, key) {
                    Some(k) => {
                        &&& 0 <= k < self.keys@.len()
                        &&& self.keys@[k] == key
                        &&& forall|j: int| 0 <= j < k ==> self.keys@[j] != key
                    },
                    None => !self.keys@.contains(key),
                },
            decreases n - i,
        {
            if self.keys[i] == key {
                return Some(i as u32);
            }
            i = i + 1;
        }
        None
    }

    /// Registers `position` under `key`, per [`spec_add_vertex`]: assigning
    /// it the next sequential index, unless the key is already registered (a
    /// no-op; the caller is responsible for re-supplying a consistent
    /// position) or the index space is exhausted.
    pub fn add_vertex(&mut self, key: VertexKey, position: P) -> (r: Result<(), BuildError>)
        requires
            old(self).wf(),
        ensures
            final(self).wf(),
            final(self).flags@ == old(self).flags@,
            match spec_add_vertex(old(self).keys@, old(self).vertices@, key, position) {
                Ok(kv) => {
                    &&& r is Ok
                    &&& final(self).keys@ == kv.0
                    &&& final(self).vertices@ == kv.1
                },
                Err(e) => {
                    &&& r == Err::<(), BuildError>(e)
                    &&& final(self).keys@ == old(self).keys@
                    &&& final(self).vertices@ == old(self).vertices@
                },
            },
    {
        match self.index_of_key(key) {
            Some(_) => {
                proof {
                    lemma_key_index(self.keys@, key);
                }
                Ok(())
            },
            None => {
                proof {
                    lemma_key_index(self.keys@, key);
                }
                if self.keys.len() == u32::MAX as usize {
                    Err(BuildError::IndexSpaceExhausted)
                } else {
                    self.keys.push(key);
                    self.vertices.push(position);
                    Ok(())
                }
            },
        }
    }

    /// The position of `face`'s bucket, if one exists.
    fn find_bucket_index(&self, face: FaceKey) -> (r: Option<usize>)
        ensures
            r is Some <==> spec_find_bucket(self.spec_flags(), face) is Some,
            r is Some ==> spec_find_bucket(self.spec_flags(), face) == Some(r.unwrap() as int),
    {
        proof {
            lemma_find_bucket(self.spec_flags(), face);
        }
        let n = self.flags.len();
        let mut i: usize = 0;
        while i < n
            invariant
                0 <= i <= n,
                n == self.flags@.len(),
                forall|j: int| 0 <= j < i ==> (#[trigger] self.spec_flags()[j]).0 != face,
                match spec_find_bucket(self.spec_flags(), face) {
                    Some(k) => {
                        &&& 0 <= k < self.spec_flags().len()
                        &&& self.spec_flags()[k].0 == face
                        &&& forall|j: int| 0 <= j < k ==> (#[trigger] self.spec_flags()[j]).0
                            != face
                    },
                    None => forall|j: int|
                        0 <= j < self.spec_flags().len() ==> (#[trigger] self.spec_flags()[j]).0
                            != face,
                },
            decreases n - i,
        {
            if self.flags[i].0 == face {
                assert(self.spec_flags()[i as int].0 == face);
                return Some(i);
            }
            assert(self.spec_flags()[i as int].0 != face);
            i = i + 1;
        }
        None
    }

    /// Registers the flag `source -> destination` against `face`, per
    /// [`spec_add_flag`]. A mismatching re-registration of `source` signals a
    /// malformed operator implementation and is reported, not absorbed.
    pub fn add_flag(&mut self, face: FaceKey, source: VertexKey, destination: VertexKey) -> (r:
        Result<(), BuildError>)
        requires
            old(self).wf(),
        ensures
            final(self).wf(),
            final(self).keys@ == old(self).keys@,
            final(self).vertices@ == old(self).vertices@,
            match spec_add_flag(old(self).spec_flags(), face, source, destination) {
                Ok(fs) => r is Ok && final(self).spec_flags() == fs,
                Err(e) => r == Err::<(), BuildError>(e) && final(self).spec_flags() == old(
                    self,
                ).spec_flags(),
            },
    {
        if source == destination {
            return Err(BuildError::DegenerateEdge);
        }
        match self.find_bucket_index(face) {
            Some(bi) => {
                let ghost old_flags = self.spec_flags();
                proof {
                    lemma_find_bucket(old_flags, face);
                }
                let (fk, mut bucket) = self.flags.remove(bi);
                let r = bucket.add_edge(source, destination);
                self.flags.insert(bi, (fk, bucket));
                proof {
                    lemma_find_bucket(old_flags, face);
                    let b = bi as int;
                    let n = old(self).flags@.len();
                    assert(old_flags[b] == (old(self).flags@[b].0, old(self).flags@[b].1.edges@));
                    assert(self.flags@.len() == n);
                    assert forall|j: int| 0 <= j < n && j != b implies self.flags@[j] == old(
                        self,
                    ).flags@[j] by {
                        let removed = old(self).flags@.remove(b);
                        if j < b {
                            assert(removed[j] == old(self).flags@[j]);
                            assert(self.flags@[j] == removed[j]);
                        } else {
                            assert(removed[j - 1] == old(self).flags@[j]);
                            assert(self.flags@[j] == removed[j - 1]);
                        }
                    }
                    assert(self.flags@[b] == (fk, bucket));
                    assert(fk == face);
                    match spec_add_edge(old_flags[b].1, source, destination) {
                        Ok(es) => {
                            assert(bucket.edges@ == es);
                            assert(self.spec_flags()[b] == (face, es));
                            assert forall|j: int| 0 <= j < n && j != b implies self.spec_flags()[j]
                                == old_flags[j] by {
                                assert(self.flags@[j] == old(self).flags@[j]);
                            }
                            assert(self.spec_flags() =~~= old_flags.update(b, (face, es)));
                        },
                        Err(_) => {
                            assert(self.spec_flags() =~~= old_flags);
                        },
                    }
                }
                r
            },
            None => {
                let mut bucket = BuilderFace::new();
                let add_r = bucket.add_edge(source, destination);
                proof {
                    assert(add_r is Ok);
                }
                self.flags.push((face, bucket));
                proof {
                    assert(self.spec_flags() =~~= old(self).spec_flags().push(
                        (face, seq![Edge { source, destination }]),
                    ));
                }
                Ok(())
            },
        }
    }

    /// Consumes the accumulator and assembles the finished mesh: the vertex
    /// list in assignment order, and one face per nonempty bucket, assembled
    /// per [`spec_build_faces`]. The first topology defect is reported
    /// instead of being silently absorbed into a truncated face.
    pub fn build_polyhedron(self) -> (r: Result<Polyhedron<P>, BuildError>)
        requires
            self.wf(),
        ensures
            match r {
                Ok(mesh) => {
                    &&& spec_build_faces(self.spec_flags(), self.keys@) == Ok::<
                        Seq<Seq<u32>>,
                        BuildError,
                    >(faces_view(mesh.faces@))
                    &&& mesh.vertices@ == self.vertices@
                },
                Err(e) => spec_build_faces(self.spec_flags(), self.keys@) == Err::<
                    Seq<Seq<u32>>,
                    BuildError,
                >(e),
            },
    {
        let mut faces: Vec<Face> = Vec::new();
        let n = self.flags.len();
        let mut bi: usize = 0;
        proof {
            assert(self.spec_flags().skip(0) =~= self.spec_flags());
            match spec_build_faces(self.spec_flags(), self.keys@) {
                Ok(rest) => {
                    assert(faces_view(faces@) + rest =~= rest);
                },
                Err(_) => {},
            }
        }
        while bi < n
            invariant
                0 <= bi <= n,
                n == self.flags@.len(),
                self.wf(),
                spec_build_faces(self.spec_flags(), self.keys@) == match spec_build_faces(
                    self.spec_flags().skip(bi as int),
                    self.keys@,
                ) {
                    Ok(rest) => Ok::<Seq<Seq<u32>>, BuildError>(faces_view(faces@) + rest),
                    Err(e) => Err::<Seq<Seq<u32>>, BuildError>(e),
                },
            decreases n - bi,
        {
            let ghost remaining = self.spec_flags().skip(bi as int);
            proof {
                assert(remaining[0] == self.spec_flags()[bi as int]);
                assert(remaining.drop_first() =~= self.spec_flags().skip(bi as int + 1));
            }
            let bucket = &self.flags[bi].1;
            if bucket.len() > 0 {
                match walk_bucket(bucket, &self.keys) {
                    Ok(idxs) => {
                        let ghost pre = faces@;
                        faces.push(Face::new(idxs));
                        proof {
                            match spec_build_faces(remaining.drop_first(), self.keys@) {
                                Ok(rest) => {
                                    assert(faces_view(pre) + (seq![idxs@] + rest) =~= faces_view(
                                        faces@,
                                    ) + rest);
                                },
                                Err(_) => {},
                            }
                        }
                    },
                    Err(e) => {
                        return Err(e);
                    },
                }
            }
            bi = bi + 1;
        }
        proof {
            assert(self.spec_flags().skip(n as int) =~= Seq::<(FaceKey, Seq<Edge>)>::empty());
            match spec_build_faces(self.spec_flags(), self.keys@) {
                Ok(out) => {
                    assert(faces_view(faces@) + Seq::<Seq<u32>>::empty() =~= faces_view(faces@));
                },
                Err(_) => {},
            }
        }
        Ok(Polyhedron { vertices: self.vertices, faces })
    }
}

/// The successor map of a cyclic key sequence: one edge into each key from
/// the key before it, wrapping at the front.
pub open spec fn cycle_edges(cycle: Seq<VertexKey>) -> Seq<Edge> {
    Seq::new(
        cycle.len(),
        |j: int|
            Edge {
                source: if j == 0 {
                    cycle[cycle.len() - 1]
                } else {
                    cycle[j - 1]
                },
                destination: cycle[j],
            },
    )
}

/// When exactly one edge leaves `source`, the successor map resolves to it.
proof fn lemma_find_next_unique(edges: Seq<Edge>, source: VertexKey, j: int)
    requires
        0 <= j < edges.len(),
        edges[j].source == source,
        forall|k: int| 0 <= k < edges.len() && k != j ==> (#[trigger] edges[k]).source != source,
    ensures
        spec_find_next(edges, source) == Some(edges[j].destination),
    decreases edges.len(),
{
    if j > 0 {
        assert forall|k: int|
            0 <= k < edges.drop_first().len() && k != j - 1 implies (#[trigger] edges.drop_first()[k]).source
            != source by {
            assert(edges.drop_first()[k] == edges[k + 1]);
        }
        assert(edges.drop_first()[j - 1] == edges[j]);
        lemma_find_next_unique(edges.drop_first(), source, j - 1);
    }
}

/// The indices the walk of a cycle's successor map visits from position `k`
/// on: each key's assigned index, in cycle order.
pub open spec fn cycle_indices_from(cycle: Seq<VertexKey>, keys: Seq<VertexKey>, k: int) -> Seq<
    u32,
>
    decreases cycle.len() - k,
{
    let idx = seq![spec_key_index(keys, cycle[k]).unwrap() as u32];
    if k >= cycle.len() - 1 {
        idx
    } else {
        idx + cycle_indices_from(cycle, keys, k + 1)
    }
}

/// The walk of a cycle's successor map, from position `k`, visits the
/// remaining keys in cycle order and closes at the front.
proof fn lemma_cycle_walk(cycle: Seq<VertexKey>, keys: Seq<VertexKey>, k: int)
    requires
        2 <= cycle.len(),
        cycle.no_duplicates(),
        forall|j: int| 0 <= j < cycle.len() ==> keys.contains(#[trigger] cycle[j]),
        0 <= k < cycle.len(),
    ensures
        spec_walk(cycle_edges(cycle), keys, cycle[0], cycle[k], (cycle.len() - k) as nat) == Ok::<
            Seq<u32>,
            BuildError,
        >(cycle_indices_from(cycle, keys, k)),
    decreases cycle.len() - k,
{
    let edges = cycle_edges(cycle);
    let n = cycle.len() as int;
    lemma_key_index(keys, cycle[k]);
    assert(spec_key_index(keys, cycle[k]) is Some);

    // The one edge leaving cycle[k] arrives at the next key around.
    let succ = if k + 1 < n {
        k + 1
    } else {
        0
    };
    assert(edges[succ].source == cycle[k]);
    assert forall|m: int| 0 <= m < n && m != succ implies (#[trigger] edges[m]).source
        != cycle[k] by {
        let p = if m == 0 {
            n - 1
        } else {
            m - 1
        };
        assert(edges[m].source == cycle[p]);
        assert(p != k);
    }
    lemma_find_next_unique(edges, cycle[k], succ);
    assert(spec_find_next(edges, cycle[k]) == Some(cycle[succ]));

    if k == n - 1 {
        assert(cycle[succ] == cycle[0]);
    } else {
        assert(cycle[succ] != cycle[0]);
        lemma_cycle_walk(cycle, keys, k + 1);
    }
}

/// LAW (cycle reconstruction): a bucket holding exactly the successor map of
/// a simple cyclic key sequence, every key registered, assembles back into
/// that cycle: the walk starts at the first registered edge's destination —
/// the cycle's front — and recovers each key's assigned index in cycle
/// order. This is the builder's contract with the operators: emitting one
/// flag per directed edge of a face suffices to reconstruct the face.
pub proof fn lemma_cycle_round_trip(cycle: Seq<VertexKey>, keys: Seq<VertexKey>)
    requires
        2 <= cycle.len(),
        cycle.no_duplicates(),
        forall|j: int| 0 <= j < cycle.len() ==> keys.contains(#[trigger] cycle[j]),
    ensures
        spec_bucket_face(cycle_edges(cycle), keys) is Ok,
        spec_bucket_face(cycle_edges(cycle), keys).unwrap().len() == cycle.len(),
        forall|j: int|
            0 <= j < cycle.len() ==> spec_bucket_face(cycle_edges(cycle), keys).unwrap()[j]
                == spec_key_index(keys, #[trigger] cycle[j]).unwrap() as u32,
{
    let edges = cycle_edges(cycle);
    assert(edges[0].destination == cycle[0]);
    assert(edges.len() == cycle.len());
    lemma_cycle_walk(cycle, keys, 0);
    lemma_cycle_indices_shape(cycle, keys, 0);
    assert(spec_bucket_face(edges, keys) == spec_walk(
        edges,
        keys,
        cycle[0],
        cycle[0],
        cycle.len(),
    ));
}

/// The shape of the visited-index list: one entry per remaining key.
proof fn lemma_cycle_indices_shape(cycle: Seq<VertexKey>, keys: Seq<VertexKey>, k: int)
    requires
        0 <= k < cycle.len(),
    ensures
        cycle_indices_from(cycle, keys, k).len() == cycle.len() - k,
        forall|m: int|
            0 <= m < cycle.len() - k ==> #[trigger] cycle_indices_from(cycle, keys, k)[m]
                == spec_key_index(keys, cycle[k + m]).unwrap() as u32,
    decreases cycle.len() - k,
{
    if k < cycle.len() - 1 {
        lemma_cycle_indices_shape(cycle, keys, k + 1);
    }
}

} // verus!

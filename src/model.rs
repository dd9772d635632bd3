//! The meshlet partition as mathematical values: the builder's state, one
//! step of the greedy algorithm, and the invariant that every step keeps.
use vstd::prelude::*;

verus! {

/// Most distinct vertices that one meshlet references, by default.
pub const MAX_MESHLET_VERTICES: usize = 64;

/// Most triangles that one meshlet holds, by default.
pub const MAX_MESHLET_TRIANGLES: usize = 126;

/// Most triangles that one builder takes in all: with this bound every count
/// and offset of the packed buffer fits its 32-bit field.
pub const MAX_TRIANGLES: usize = 0x0800_0000;

/// Where one meshlet's tables lie in the flattened index tables.
#[derive(Clone, Copy, Debug, PartialEq, Eq, Structural)]
pub struct MeshletDescriptor {
    /// Number of entries in the meshlet's vertex table.
    pub vertex_count: u32,
    /// Number of triangles in the meshlet.
    pub primitive_count: u32,
    /// Offset of the vertex table in the flattened vertex-index table.
    pub vertex_begin: u32,
    /// Offset of the first triangle, in whole triangles, in the flattened
    /// primitive-index table.
    pub primitive_begin: u32,
}

/// The builder's index tables and cursors, as mathematical values.
pub struct MeshletState {
    pub descriptors: Seq<MeshletDescriptor>,
    pub vertex_indices: Seq<u32>,
    pub primitive_indices: Seq<u8>,
    pub vertex_begin: int,
    pub primitive_begin: int,
    pub max_vertices: int,
    pub max_triangles: int,
    /// The global vertex indices of every triangle taken in, three per
    /// triangle, in order.
    pub input: Seq<u32>,
}

/// The vertex table of meshlet `d`.
pub open spec fn vertex_table(vertex_indices: Seq<u32>, d: MeshletDescriptor) -> Seq<u32> {
    vertex_indices.subrange(d.vertex_begin as int, d.vertex_begin + d.vertex_count)
}

/// Meshlet `d` respects the limits, has at least one triangle, has a vertex
/// table without repeats, and each of its local indices falls in that table.
pub open spec fn meshlet_ok(
    vertex_indices: Seq<u32>,
    primitive_indices: Seq<u8>,
    d: MeshletDescriptor,
    max_vertices: int,
    max_triangles: int,
) -> bool {
    &&& d.vertex_count <= max_vertices
    &&& 1 <= d.primitive_count <= max_triangles
    &&& d.vertex_begin + d.vertex_count <= vertex_indices.len()
    &&& 3 * (d.primitive_begin + d.primitive_count) <= primitive_indices.len()
    &&& vertex_table(vertex_indices, d).no_duplicates()
    &&& forall|j: int|
        3 * d.primitive_begin <= j < 3 * (d.primitive_begin + d.primitive_count)
            ==> #[trigger] primitive_indices[j] < d.vertex_count
}

/// Where the vertex table of the meshlet after the first `n` of `ds` begins.
pub open spec fn vertex_end(ds: Seq<MeshletDescriptor>, n: int) -> int {
    if n <= 0 {
        0
    } else {
        ds[n - 1].vertex_begin + ds[n - 1].vertex_count
    }
}

/// Where, in whole triangles, the meshlet after the first `n` of `ds` begins.
pub open spec fn primitive_end(ds: Seq<MeshletDescriptor>, n: int) -> int {
    if n <= 0 {
        0
    } else {
        ds[n - 1].primitive_begin + ds[n - 1].primitive_count
    }
}

/// Total number of triangles that the descriptors hold.
pub open spec fn sum_primitive_counts(ds: Seq<MeshletDescriptor>) -> int
    decreases ds.len(),
{
    if ds.len() == 0 {
        0
    } else {
        sum_primitive_counts(ds.drop_last()) + ds.last().primitive_count
    }
}

/// The global index of a fragment's vertex `local` when the fragment's
/// vertices start at `start`.
pub open spec fn global_index(start: int, local: u16) -> u32 {
    (start + local) as u32
}

impl MeshletState {
    /// No meshlet yet, with the given limits.
    pub open spec fn empty(max_vertices: int, max_triangles: int) -> MeshletState {
        MeshletState {
            descriptors: Seq::empty(),
            vertex_indices: Seq::empty(),
            primitive_indices: Seq::empty(),
            vertex_begin: 0,
            primitive_begin: 0,
            max_vertices,
            max_triangles,
            input: Seq::empty(),
        }
    }

    /// The vertex table of the meshlet in progress.
    pub open spec fn current_table(self) -> Seq<u32> {
        self.vertex_indices.subrange(self.vertex_begin, self.vertex_indices.len() as int)
    }

    /// Number of triangles in the meshlet in progress.
    pub open spec fn current_primitive_count(self) -> int {
        (self.primitive_indices.len() - self.primitive_begin) / 3
    }

    /// The descriptor of the meshlet in progress.
    pub open spec fn current_descriptor(self) -> MeshletDescriptor {
        MeshletDescriptor {
            vertex_count: self.current_table().len() as u32,
            primitive_count: self.current_primitive_count() as u32,
            vertex_begin: self.vertex_begin as u32,
            primitive_begin: (self.primitive_begin / 3) as u32,
        }
    }

    /// Closes the meshlet in progress and starts an empty one.
    pub open spec fn flush(self) -> MeshletState {
        MeshletState {
            descriptors: self.descriptors.push(self.current_descriptor()),
            vertex_begin: self.vertex_indices.len() as int,
            primitive_begin: self.primitive_indices.len() as int,
            ..self
        }
    }

    /// Adds `v` to the vertex table in progress unless it is there already.
    pub open spec fn with_vertex(self, v: u32) -> MeshletState {
        if self.current_table().contains(v) {
            self
        } else {
            MeshletState { vertex_indices: self.vertex_indices.push(v), ..self }
        }
    }

    /// Adds the vertices of a triangle, in order, to the vertex table in progress.
    pub open spec fn with_vertices(self, a: u32, b: u32, c: u32) -> MeshletState {
        self.with_vertex(a).with_vertex(b).with_vertex(c)
    }

    /// Position of `v` in the vertex table in progress.
    pub open spec fn local_index(self, v: u32) -> u8 {
        self.current_table().index_of(v) as u8
    }

    /// Adds a triangle, as three local indices, to the meshlet in progress.
    pub open spec fn with_primitive(self, a: u32, b: u32, c: u32) -> MeshletState {
        MeshletState {
            primitive_indices: self.primitive_indices + seq![
                self.local_index(a),
                self.local_index(b),
                self.local_index(c),
            ],
            input: self.input + seq![a, b, c],
            ..self
        }
    }

    /// One step of the greedy partition: the meshlet in progress is closed
    /// first when the triangle's new vertices would not fit, and after the
    /// triangle when it has reached the triangle limit.
    pub open spec fn add_triangle(self, a: u32, b: u32, c: u32) -> MeshletState {
        let opened = if self.with_vertices(a, b, c).current_table().len() > self.max_vertices {
            self.flush()
        } else {
            self
        };
        let filled = opened.with_vertices(a, b, c).with_primitive(a, b, c);
        if filled.current_primitive_count() >= filled.max_triangles {
            filled.flush()
        } else {
            filled
        }
    }

    /// The descriptors that a build emits: those closed so far, and the one in
    /// progress when it holds a triangle.
    pub open spec fn finished_descriptors(self) -> Seq<MeshletDescriptor> {
        if self.current_primitive_count() > 0 {
            self.descriptors.push(self.current_descriptor())
        } else {
            self.descriptors
        }
    }

    /// Number of triangles taken in so far.
    pub open spec fn triangle_count(self) -> int {
        self.primitive_indices.len() as int / 3
    }

    /// The closed meshlets are well formed and lie one after another, the
    /// meshlet in progress starts where the last one ends, and the cursors
    /// and table lengths are in range.
    #[verifier::opaque]
    pub open spec fn closed_ok(self) -> bool {
        &&& 0 <= self.vertex_begin <= self.vertex_indices.len() <= 3 * MAX_TRIANGLES
        &&& 0 <= self.primitive_begin <= self.primitive_indices.len() <= 3 * MAX_TRIANGLES
        &&& self.primitive_begin % 3 == 0
        &&& self.primitive_indices.len() % 3 == 0
        &&& forall|i: int|
            0 <= i < self.descriptors.len() ==> {
                &&& meshlet_ok(
                    self.vertex_indices,
                    self.primitive_indices,
                    #[trigger] self.descriptors[i],
                    self.max_vertices,
                    self.max_triangles,
                )
                &&& self.descriptors[i].vertex_begin == vertex_end(self.descriptors, i)
                &&& self.descriptors[i].primitive_begin == primitive_end(self.descriptors, i)
            }
        &&& self.vertex_begin == vertex_end(self.descriptors, self.descriptors.len() as int)
        &&& self.primitive_begin == 3 * primitive_end(
            self.descriptors,
            self.descriptors.len() as int,
        )
    }

    /// The vertex table in progress has no repeats, and every local index of
    /// the meshlet in progress falls in it.
    #[verifier::opaque]
    pub open spec fn current_ok(self) -> bool {
        &&& self.current_table().no_duplicates()
        &&& forall|j: int|
            self.primitive_begin <= j < self.primitive_indices.len()
                ==> #[trigger] self.primitive_indices[j] < self.current_table().len()
    }

    /// Each local index, looked up in its meshlet's vertex table, gives the
    /// global vertex index that was taken in at its position.
    #[verifier::opaque]
    pub open spec fn faithful(self) -> bool {
        &&& self.input.len() == self.primitive_indices.len()
        &&& forall|i: int, j: int|
            0 <= i < self.descriptors.len() && 3 * self.descriptors[i].primitive_begin <= j < 3 * (
            self.descriptors[i].primitive_begin + self.descriptors[i].primitive_count) ==> 
            #[trigger] self.vertex_indices[self.descriptors[i].vertex_begin
                + self.primitive_indices[j]] == #[trigger] self.input[j]
        &&& forall|j: int|
            self.primitive_begin <= j < self.primitive_indices.len() ==> self.vertex_indices[
            self.vertex_begin + self.primitive_indices[j]] == #[trigger] self.input[j]
    }

    /// The limits admit any triangle and keep local indices within a byte.
    pub open spec fn limits_ok(self) -> bool {
        3 <= self.max_vertices <= 256 && 1 <= self.max_triangles
    }

    /// The invariant that every state of a builder keeps.
    pub open spec fn wf(self) -> bool {
        &&& self.limits_ok()
        &&& self.closed_ok()
        &&& self.current_ok()
        &&& self.faithful()
        &&& self.vertex_indices.len() <= self.primitive_indices.len()
        &&& self.current_table().len() <= self.max_vertices
        &&& self.current_table().len() <= 3 * self.current_primitive_count()
        &&& self.current_primitive_count() < self.max_triangles
    }
}

/// The global vertex indices of a fragment's first `n` indices, when its
/// vertices start at global index `start`.
pub open spec fn global_indices(start: int, indices: Seq<u16>, n: int) -> Seq<u32> {
    Seq::new(n as nat, |j: int| global_index(start, indices[j]))
}

/// The state after the first `n` triangles of `indices`, a fragment whose
/// vertices start at global index `start`, have been added to `s`.
pub open spec fn append_triangles(
    s: MeshletState,
    start: int,
    indices: Seq<u16>,
    n: nat,
) -> MeshletState
    decreases n,
{
    if n == 0 {
        s
    } else {
        let k = 3 * (n - 1);
        append_triangles(s, start, indices, (n - 1) as nat).add_triangle(
            global_index(start, indices[k]),
            global_index(start, indices[k + 1]),
            global_index(start, indices[k + 2]),
        )
    }
}

/// Closing a meshlet that holds between one triangle and the limit keeps the
/// closed meshlets well formed and starts an empty one.
pub proof fn lemma_flush(s: MeshletState)
    requires
        s.closed_ok(),
        s.current_ok(),
        1 <= s.current_primitive_count() <= s.max_triangles,
        s.current_table().len() <= s.max_vertices,
    ensures
        s.flush().closed_ok(),
        s.flush().current_ok(),
        s.faithful() ==> s.flush().faithful(),
        s.flush().input == s.input,
        s.flush().current_table().len() == 0,
        s.flush().current_primitive_count() == 0,
        s.flush().vertex_indices == s.vertex_indices,
        s.flush().primitive_indices == s.primitive_indices,
        s.flush().max_vertices == s.max_vertices,
        s.flush().max_triangles == s.max_triangles,
{
    reveal(MeshletState::closed_ok);
    reveal(MeshletState::current_ok);
    let f = s.flush();
    let d = s.current_descriptor();
    let n = s.descriptors.len() as int;
    let pb = s.primitive_begin;
    let len = s.primitive_indices.len() as int;
    assert(3 * (pb / 3) == pb);
    assert(3 * (pb / 3 + (len - pb) / 3) == len);
    assert(vertex_table(s.vertex_indices, d) =~= s.current_table());
    assert(meshlet_ok(s.vertex_indices, s.primitive_indices, d, s.max_vertices, s.max_triangles));
    assert forall|i: int| 0 <= i < f.descriptors.len() implies {
        &&& meshlet_ok(
            f.vertex_indices,
            f.primitive_indices,
            #[trigger] f.descriptors[i],
            f.max_vertices,
            f.max_triangles,
        )
        &&& f.descriptors[i].vertex_begin == vertex_end(f.descriptors, i)
        &&& f.descriptors[i].primitive_begin == primitive_end(f.descriptors, i)
    } by {
        if i < n {
            assert(f.descriptors[i] == s.descriptors[i]);
            if i > 0 {
                assert(f.descriptors[i - 1] == s.descriptors[i - 1]);
            }
        } else {
            if i > 0 {
                assert(f.descriptors[i - 1] == s.descriptors[i - 1]);
            }
        }
    }
    assert(f.current_table() =~= Seq::<u32>::empty());
    if s.faithful() {
        lemma_flush_faithful(s);
    }
}

/// Closing a meshlet keeps every local index resolving to its input vertex.
proof fn lemma_flush_faithful(s: MeshletState)
    requires
        s.closed_ok(),
        s.faithful(),
    ensures
        s.flush().faithful(),
{
    reveal(MeshletState::closed_ok);
    reveal(MeshletState::faithful);
    let f = s.flush();
    let n = s.descriptors.len() as int;
    let pb = s.primitive_begin;
    let len = s.primitive_indices.len() as int;
    assert(3 * (pb / 3) == pb);
    assert(3 * (pb / 3 + (len - pb) / 3) == len);
    assert forall|i: int, j: int|
        0 <= i < f.descriptors.len() && 3 * f.descriptors[i].primitive_begin <= j < 3 * (
        f.descriptors[i].primitive_begin + f.descriptors[i].primitive_count) implies 
        #[trigger] f.vertex_indices[f.descriptors[i].vertex_begin + f.primitive_indices[j]]
        == #[trigger] f.input[j] by {
        if i < n {
            assert(f.descriptors[i] == s.descriptors[i]);
        } else {
            assert(f.descriptors[i] == s.current_descriptor());
            assert(s.vertex_indices[s.vertex_begin + s.primitive_indices[j]] == s.input[j]);
        }
    }
}

/// The cursors and table lengths that the invariant bounds.
pub proof fn lemma_bounds(s: MeshletState)
    requires
        s.closed_ok(),
    ensures
        0 <= s.vertex_begin <= s.vertex_indices.len() <= 3 * MAX_TRIANGLES,
        0 <= s.primitive_begin <= s.primitive_indices.len() <= 3 * MAX_TRIANGLES,
        s.primitive_begin % 3 == 0,
        s.primitive_indices.len() % 3 == 0,
{
    reveal(MeshletState::closed_ok);
}

/// The vertex table in progress has no repeats.
pub proof fn lemma_current_no_duplicates(s: MeshletState)
    requires
        s.current_ok(),
    ensures
        s.current_table().no_duplicates(),
{
    reveal(MeshletState::current_ok);
}

/// The empty state keeps the invariant.
pub proof fn lemma_empty(max_vertices: int, max_triangles: int)
    requires
        3 <= max_vertices <= 256,
        1 <= max_triangles,
    ensures
        MeshletState::empty(max_vertices, max_triangles).wf(),
{
    reveal(MeshletState::closed_ok);
    reveal(MeshletState::current_ok);
    reveal(MeshletState::faithful);
    let s = MeshletState::empty(max_vertices, max_triangles);
    assert(s.current_table() =~= Seq::<u32>::empty());
}

/// Adding a vertex to the table in progress keeps the closed meshlets and the
/// local indices valid, keeps the table free of repeats, and leaves it
/// holding `v` and whatever it held.
pub proof fn lemma_with_vertex(s: MeshletState, v: u32)
    requires
        s.closed_ok(),
        s.current_ok(),
        s.vertex_indices.len() < 3 * MAX_TRIANGLES,
    ensures
        s.with_vertex(v).closed_ok(),
        s.with_vertex(v).current_ok(),
        s.faithful() ==> s.with_vertex(v).faithful(),
        s.with_vertex(v).input == s.input,
        s.with_vertex(v).current_table().contains(v),
        forall|w: u32|
            #[trigger] s.with_vertex(v).current_table().contains(w) <==> (
            s.current_table().contains(w) || w == v),
        s.with_vertex(v).current_table().len() <= s.current_table().len() + 1,
        s.with_vertex(v).current_table().len() == s.current_table().len() + 1 <==> !s.current_table().contains(v),
        s.with_vertex(v).current_table().len() - s.current_table().len()
            == s.with_vertex(v).vertex_indices.len() - s.vertex_indices.len(),
        s.with_vertex(v).current_table().len() >= s.current_table().len(),
        s.with_vertex(v).current_table() == if s.current_table().contains(v) {
            s.current_table()
        } else {
            s.current_table().push(v)
        },
        s.with_vertex(v).primitive_indices == s.primitive_indices,
        s.with_vertex(v).descriptors == s.descriptors,
        s.with_vertex(v).vertex_begin == s.vertex_begin,
        s.with_vertex(v).primitive_begin == s.primitive_begin,
        s.with_vertex(v).max_vertices == s.max_vertices,
        s.with_vertex(v).max_triangles == s.max_triangles,
{
    reveal(MeshletState::closed_ok);
    reveal(MeshletState::current_ok);
    let t = s.current_table();
    let w = s.with_vertex(v);
    if s.faithful() {
        lemma_with_vertex_faithful(s, v);
    }
    if !t.contains(v) {
        assert(w.current_table() =~= t.push(v));
        assert(w.current_table()[t.len() as int] == v);
        assert forall|i: int| 0 <= i < s.descriptors.len() implies #[trigger] vertex_table(
            w.vertex_indices,
            s.descriptors[i],
        ) == vertex_table(s.vertex_indices, s.descriptors[i]) by {
            assert(vertex_table(w.vertex_indices, s.descriptors[i]) =~= vertex_table(
                s.vertex_indices,
                s.descriptors[i],
            ));
        }
        assert forall|x: u32| w.current_table().contains(x) <==> (t.contains(x) || x == v) by {
            if t.contains(x) {
                let j = choose|j: int| 0 <= j < t.len() && t[j] == x;
                assert(w.current_table()[j] == x);
            }
            if w.current_table().contains(x) && x != v {
                let j = choose|j: int|
                    0 <= j < w.current_table().len() && w.current_table()[j] == x;
                assert(t[j] == x);
            }
        }
        assert(w.current_table().no_duplicates());
    } else {
        let j = choose|j: int| 0 <= j < t.len() && t[j] == v;
        assert(w.current_table()[j] == v);
    }
}

/// Growing the vertex table in progress keeps every local index resolving to
/// its input vertex.
proof fn lemma_with_vertex_faithful(s: MeshletState, v: u32)
    requires
        s.closed_ok(),
        s.current_ok(),
        s.faithful(),
    ensures
        s.with_vertex(v).faithful(),
{
    reveal(MeshletState::closed_ok);
    reveal(MeshletState::current_ok);
    reveal(MeshletState::faithful);
    let w = s.with_vertex(v);
    assert forall|i: int, j: int|
        0 <= i < w.descriptors.len() && 3 * w.descriptors[i].primitive_begin <= j < 3 * (
        w.descriptors[i].primitive_begin + w.descriptors[i].primitive_count) implies 
        #[trigger] w.vertex_indices[w.descriptors[i].vertex_begin + w.primitive_indices[j]]
        == #[trigger] w.input[j] by {
        let d = s.descriptors[i];
        assert(meshlet_ok(s.vertex_indices, s.primitive_indices, d, s.max_vertices, s.max_triangles));
        assert(s.primitive_indices[j] < d.vertex_count);
        assert(s.vertex_indices[d.vertex_begin + s.primitive_indices[j]] == s.input[j]);
    }
    assert forall|j: int| w.primitive_begin <= j < w.primitive_indices.len() implies w.vertex_indices[
        w.vertex_begin + w.primitive_indices[j]] == #[trigger] w.input[j] by {
        assert(s.primitive_indices[j] < s.current_table().len());
        assert(s.vertex_indices[s.vertex_begin + s.primitive_indices[j]] == s.input[j]);
    }
}

/// Every entry of `vertex_indices` is below `bound`.
pub open spec fn indices_below(vertex_indices: Seq<u32>, bound: int) -> bool {
    forall|j: int| 0 <= j < vertex_indices.len() ==> #[trigger] vertex_indices[j] < bound
}

/// Adding the local indices of a triangle whose vertices are in the table in
/// progress keeps the closed meshlets and the local indices valid.
#[verifier::rlimit(40)]
pub proof fn lemma_with_primitive(s: MeshletState, a: u32, b: u32, c: u32)
    requires
        s.closed_ok(),
        s.current_ok(),
        s.current_table().contains(a),
        s.current_table().contains(b),
        s.current_table().contains(c),
        s.current_table().len() <= 256,
        s.primitive_indices.len() + 3 <= 3 * MAX_TRIANGLES,
    ensures
        s.with_primitive(a, b, c).closed_ok(),
        s.with_primitive(a, b, c).current_ok(),
        s.faithful() ==> s.with_primitive(a, b, c).faithful(),
        s.with_primitive(a, b, c).current_primitive_count() == s.current_primitive_count() + 1,
        s.with_primitive(a, b, c).primitive_indices.len() == s.primitive_indices.len() + 3,
{
    reveal(MeshletState::closed_ok);
    reveal(MeshletState::current_ok);
    let t = s.current_table();
    let p = s.with_primitive(a, b, c);
    let len = s.primitive_indices.len() as int;
    if s.faithful() {
        lemma_with_primitive_faithful(s, a, b, c);
    }
    assert(p.primitive_indices[len] == s.local_index(a));
    assert(p.primitive_indices[len + 1] == s.local_index(b));
    assert(p.primitive_indices[len + 2] == s.local_index(c));
    assert(0 <= t.index_of(a) < t.len() && t[t.index_of(a)] == a);
    assert(0 <= t.index_of(b) < t.len() && t[t.index_of(b)] == b);
    assert(0 <= t.index_of(c) < t.len() && t[t.index_of(c)] == c);
    assert forall|i: int| 0 <= i < s.descriptors.len() implies meshlet_ok(
        p.vertex_indices,
        p.primitive_indices,
        #[trigger] p.descriptors[i],
        p.max_vertices,
        p.max_triangles,
    ) by {
        let d = s.descriptors[i];
        assert(meshlet_ok(s.vertex_indices, s.primitive_indices, d, s.max_vertices, s.max_triangles));
        assert forall|j: int|
            3 * d.primitive_begin <= j < 3 * (d.primitive_begin + d.primitive_count) implies
            #[trigger] p.primitive_indices[j] < d.vertex_count by {
            assert(p.primitive_indices[j] == s.primitive_indices[j]);
        }
    }
    assert forall|j: int| p.primitive_begin <= j < p.primitive_indices.len() implies #[trigger]
        p.primitive_indices[j] < p.current_table().len() by {
        if j < len {
            assert(p.primitive_indices[j] == s.primitive_indices[j]);
        }
    }
}

/// Adding a triangle keeps the local indices of the closed meshlets resolving
/// to their input vertices.
proof fn lemma_with_primitive_closed_faithful(s: MeshletState, a: u32, b: u32, c: u32)
    requires
        s.closed_ok(),
        s.faithful(),
    ensures
        forall|i: int, j: int|
            0 <= i < s.descriptors.len() && 3 * s.descriptors[i].primitive_begin <= j < 3 * (
            s.descriptors[i].primitive_begin + s.descriptors[i].primitive_count) ==> 
            #[trigger] s.with_primitive(a, b, c).vertex_indices[s.descriptors[i].vertex_begin
                + s.with_primitive(a, b, c).primitive_indices[j]]
                == #[trigger] s.with_primitive(a, b, c).input[j],
{
    lemma_closed(s);
    reveal(MeshletState::faithful);
    let p = s.with_primitive(a, b, c);
    let len = s.primitive_indices.len() as int;
    assert(p.primitive_indices == s.primitive_indices + seq![
        s.local_index(a),
        s.local_index(b),
        s.local_index(c),
    ]);
    assert(p.input == s.input + seq![a, b, c]);
    assert forall|i: int, j: int|
        0 <= i < p.descriptors.len() && 3 * p.descriptors[i].primitive_begin <= j < 3 * (
        p.descriptors[i].primitive_begin + p.descriptors[i].primitive_count) implies 
        #[trigger] p.vertex_indices[p.descriptors[i].vertex_begin + p.primitive_indices[j]]
        == #[trigger] p.input[j] by {
        let d = s.descriptors[i];
        assert(meshlet_ok(s.vertex_indices, s.primitive_indices, d, s.max_vertices, s.max_triangles));
        assert(j < len);
        assert(p.primitive_indices[j] == s.primitive_indices[j]);
        assert(p.input[j] == s.input[j]);
        assert(s.vertex_indices[d.vertex_begin + s.primitive_indices[j]] == s.input[j]);
    }
}

/// Adding a triangle whose vertices are in the table in progress keeps every
/// local index resolving to its input vertex, the new ones included.
proof fn lemma_with_primitive_faithful(s: MeshletState, a: u32, b: u32, c: u32)
    requires
        s.closed_ok(),
        s.faithful(),
        s.current_table().contains(a),
        s.current_table().contains(b),
        s.current_table().contains(c),
        s.current_table().len() <= 256,
    ensures
        s.with_primitive(a, b, c).faithful(),
{
    reveal(MeshletState::closed_ok);
    reveal(MeshletState::faithful);
    let t = s.current_table();
    let p = s.with_primitive(a, b, c);
    let len = s.primitive_indices.len() as int;
    assert(0 <= t.index_of(a) < t.len() && t[t.index_of(a)] == a);
    assert(0 <= t.index_of(b) < t.len() && t[t.index_of(b)] == b);
    assert(0 <= t.index_of(c) < t.len() && t[t.index_of(c)] == c);
    lemma_with_primitive_closed_faithful(s, a, b, c);
    assert forall|j: int| p.primitive_begin <= j < p.primitive_indices.len() implies p.vertex_indices[
        p.vertex_begin + p.primitive_indices[j]] == #[trigger] p.input[j] by {
        if j < len {
            assert(p.primitive_indices[j] == s.primitive_indices[j]);
            assert(p.input[j] == s.input[j]);
            assert(s.vertex_indices[s.vertex_begin + s.primitive_indices[j]] == s.input[j]);
        } else if j == len {
            assert(p.vertex_indices[p.vertex_begin + p.primitive_indices[j]] == t[t.index_of(a)]);
        } else if j == len + 1 {
            assert(p.vertex_indices[p.vertex_begin + p.primitive_indices[j]] == t[t.index_of(b)]);
        } else {
            assert(p.vertex_indices[p.vertex_begin + p.primitive_indices[j]] == t[t.index_of(c)]);
        }
    }
}

/// One step of the greedy partition keeps the invariant, takes in exactly one
/// triangle, and adds to the vertex-index table only vertices of that triangle.
pub proof fn lemma_add_triangle(s: MeshletState, a: u32, b: u32, c: u32, bound: int)
    requires
        s.wf(),
        s.primitive_indices.len() + 3 <= 3 * MAX_TRIANGLES,
        indices_below(s.vertex_indices, bound),
        a < bound,
        b < bound,
        c < bound,
    ensures
        s.add_triangle(a, b, c).wf(),
        s.add_triangle(a, b, c).triangle_count() == s.triangle_count() + 1,
        indices_below(s.add_triangle(a, b, c).vertex_indices, bound),
        s.add_triangle(a, b, c).max_vertices == s.max_vertices,
        s.add_triangle(a, b, c).max_triangles == s.max_triangles,
        s.add_triangle(a, b, c).input == s.input + seq![a, b, c],
{
    let w = s.with_vertices(a, b, c);
    lemma_with_vertex(s, a);
    lemma_with_vertex(s.with_vertex(a), b);
    lemma_with_vertex(s.with_vertex(a).with_vertex(b), c);
    let overflow = w.current_table().len() > s.max_vertices;
    let o = if overflow {
        s.flush()
    } else {
        s
    };
    if overflow {
        lemma_flush(s);
    }
    let o1 = o.with_vertex(a);
    let o2 = o1.with_vertex(b);
    let o3 = o2.with_vertex(c);
    lemma_with_vertex(o, a);
    lemma_with_vertex(o1, b);
    lemma_with_vertex(o2, c);
    assert(o3 == o.with_vertices(a, b, c));
    lemma_with_primitive(o3, a, b, c);
    let filled = o3.with_primitive(a, b, c);
    assert(filled.current_table() == o3.current_table());
    assert(indices_below(filled.vertex_indices, bound)) by {
        assert forall|j: int| 0 <= j < o1.vertex_indices.len() implies #[trigger]
            o1.vertex_indices[j] < bound by {
            if j < o.vertex_indices.len() {
                assert(o1.vertex_indices[j] == o.vertex_indices[j]);
            }
        }
        assert forall|j: int| 0 <= j < o2.vertex_indices.len() implies #[trigger]
            o2.vertex_indices[j] < bound by {
            if j < o1.vertex_indices.len() {
                assert(o2.vertex_indices[j] == o1.vertex_indices[j]);
            }
        }
        assert forall|j: int| 0 <= j < o3.vertex_indices.len() implies #[trigger]
            o3.vertex_indices[j] < bound by {
            if j < o2.vertex_indices.len() {
                assert(o3.vertex_indices[j] == o2.vertex_indices[j]);
            }
        }
    }
    if filled.current_primitive_count() >= filled.max_triangles {
        lemma_flush(filled);
    }
}

/// Each closed meshlet holds a triangle, so the first `i` of them hold at
/// least `i` triangles.
proof fn lemma_primitive_end_at_least(s: MeshletState, i: int)
    requires
        s.closed_ok(),
        0 <= i <= s.descriptors.len(),
    ensures
        primitive_end(s.descriptors, i) >= i,
    decreases i,
{
    reveal(MeshletState::closed_ok);
    if i > 0 {
        lemma_primitive_end_at_least(s, i - 1);
        assert(meshlet_ok(
            s.vertex_indices,
            s.primitive_indices,
            s.descriptors[i - 1],
            s.max_vertices,
            s.max_triangles,
        ));
    }
}

/// A build emits no more meshlets than there are triangles.
pub proof fn lemma_finished_count(s: MeshletState)
    requires
        s.wf(),
    ensures
        s.finished_descriptors().len() <= s.triangle_count(),
{
    reveal(MeshletState::closed_ok);
    lemma_primitive_end_at_least(s, s.descriptors.len() as int);
}

/// The descriptors follow one another: each begins where the one before ends.
pub open spec fn chained(ds: Seq<MeshletDescriptor>) -> bool {
    forall|i: int|
        0 <= i < ds.len() ==> {
            &&& (#[trigger] ds[i]).vertex_begin == vertex_end(ds, i)
            &&& ds[i].primitive_begin == primitive_end(ds, i)
        }
}

/// Chained descriptors hold as many triangles as the last one's end.
pub proof fn lemma_sum_primitive_counts(ds: Seq<MeshletDescriptor>)
    requires
        chained(ds),
    ensures
        sum_primitive_counts(ds) == primitive_end(ds, ds.len() as int),
    decreases ds.len(),
{
    if ds.len() > 0 {
        let init = ds.drop_last();
        assert(chained(init)) by {
            assert forall|i: int| 0 <= i < init.len() implies {
                &&& (#[trigger] init[i]).vertex_begin == vertex_end(init, i)
                &&& init[i].primitive_begin == primitive_end(init, i)
            } by {
                assert(init[i] == ds[i]);
                if i > 0 {
                    assert(init[i - 1] == ds[i - 1]);
                }
            }
        }
        lemma_sum_primitive_counts(init);
        assert(ds[ds.len() - 1].primitive_begin == primitive_end(ds, ds.len() - 1));
        if ds.len() > 1 {
            assert(init[init.len() - 1] == ds[ds.len() - 2]);
        }
    }
}

/// What the invariant says of the closed meshlets.
pub proof fn lemma_closed(s: MeshletState)
    requires
        s.closed_ok(),
    ensures
        forall|i: int|
            0 <= i < s.descriptors.len() ==> meshlet_ok(
                s.vertex_indices,
                s.primitive_indices,
                #[trigger] s.descriptors[i],
                s.max_vertices,
                s.max_triangles,
            ),
        chained(s.descriptors),
        s.primitive_begin == 3 * primitive_end(s.descriptors, s.descriptors.len() as int),
{
    reveal(MeshletState::closed_ok);
}

/// The meshlets that a build emits are well formed, follow one another, and
/// together hold every triangle taken in.
#[verifier::rlimit(30)]
pub proof fn lemma_finished(s: MeshletState)
    requires
        s.wf(),
    ensures
        forall|i: int|
            0 <= i < s.finished_descriptors().len() ==> meshlet_ok(
                s.vertex_indices,
                s.primitive_indices,
                #[trigger] s.finished_descriptors()[i],
                s.max_vertices,
                s.max_triangles,
            ),
        chained(s.finished_descriptors()),
        sum_primitive_counts(s.finished_descriptors()) == s.triangle_count(),
        s.finished_descriptors().len() <= s.triangle_count(),
{
    lemma_finished_count(s);
    lemma_bounds(s);
    let fs = s.finished_descriptors();
    if s.current_primitive_count() > 0 {
        lemma_flush(s);
        let f = s.flush();
        lemma_bounds(f);
        lemma_closed(f);
        assert(fs == f.descriptors);
    } else {
        lemma_closed(s);
        assert(s.primitive_indices.len() == s.primitive_begin);
    }
    lemma_sum_primitive_counts(fs);
}

/// In the meshlets that a build emits, each local index, looked up in its
/// meshlet's vertex table, gives the global vertex index taken in at its
/// position.
pub proof fn lemma_finished_faithful(s: MeshletState)
    requires
        s.wf(),
    ensures
        s.input.len() == s.primitive_indices.len(),
        forall|i: int, j: int|
            0 <= i < s.finished_descriptors().len() && 3 * s.finished_descriptors()[i].primitive_begin
                <= j < 3 * (s.finished_descriptors()[i].primitive_begin
                + s.finished_descriptors()[i].primitive_count) ==> #[trigger] s.vertex_indices[
            s.finished_descriptors()[i].vertex_begin + s.primitive_indices[j]]
                == #[trigger] s.input[j],
{
    lemma_bounds(s);
    if s.current_primitive_count() > 0 {
        lemma_flush(s);
        assert(s.finished_descriptors() == s.flush().descriptors);
    }
    reveal(MeshletState::faithful);
}

/// What holds of every state of a builder, so of every state that `append`
/// leaves: the closed meshlets and the one in progress stay within the limits
/// (with `MeshletBuilder::new`, 64 vertices and 126 triangles), hold whole
/// triangles, have vertex tables without repeats, and resolve each local index,
/// in their own vertex table, to the global vertex index appended at its
/// position; together they hold every appended triangle exactly once.
pub proof fn lemma_state_meshlets(s: MeshletState)
    requires
        s.wf(),
    ensures
        s.primitive_indices.len() % 3 == 0,
        s.primitive_begin % 3 == 0,
        s.input.len() == s.primitive_indices.len(),
        forall|i: int|
            0 <= i < s.descriptors.len() ==> meshlet_ok(
                s.vertex_indices,
                s.primitive_indices,
                #[trigger] s.descriptors[i],
                s.max_vertices,
                s.max_triangles,
            ),
        forall|i: int, j: int|
            0 <= i < s.descriptors.len() && 3 * s.descriptors[i].primitive_begin <= j < 3 * (
            s.descriptors[i].primitive_begin + s.descriptors[i].primitive_count) ==> 
            #[trigger] s.vertex_indices[s.descriptors[i].vertex_begin + s.primitive_indices[j]]
                == #[trigger] s.input[j],
        s.current_table().len() <= s.max_vertices,
        s.current_primitive_count() < s.max_triangles,
        s.current_table().no_duplicates(),
        forall|j: int|
            s.primitive_begin <= j < s.primitive_indices.len() ==> s.primitive_indices[j]
                < s.current_table().len() && s.vertex_indices[s.vertex_begin
                + s.primitive_indices[j]] == #[trigger] s.input[j],
        sum_primitive_counts(s.descriptors) + s.current_primitive_count() == s.triangle_count(),
{
    lemma_bounds(s);
    lemma_closed(s);
    lemma_sum_primitive_counts(s.descriptors);
    reveal(MeshletState::current_ok);
    reveal(MeshletState::faithful);
}

} // verus!

//! The meshlet builder: takes mesh fragments one after another and packs them
//! into meshlets and one binary buffer for a mesh-shading stage.
use vstd::prelude::*;
use crate::layout::{lemma_words_bytes_push, padded, push_u32, round_up4, words_bytes};
use crate::packed::{descriptor_words, header_words, lemma_descriptor_words_take, packed_words};
use crate::model::{
    append_triangles, global_indices, indices_below, lemma_add_triangle, lemma_bounds,
    lemma_current_no_duplicates, lemma_empty, lemma_finished_count, lemma_flush,
    lemma_with_primitive, lemma_with_vertex, MeshletDescriptor, MeshletState,
    MAX_MESHLET_TRIANGLES, MAX_MESHLET_VERTICES, MAX_TRIANGLES,
};

verus! {

/// The result of a build: the vertices as they were appended, the packed
/// meshlet buffer, and how many meshlets it describes.
#[derive(Debug)]
pub struct MeshData<V> {
    pub vertex_data: Vec<V>,
    pub meshlet_data: Vec<u8>,
    pub num_meshlets: usize,
}

/// Accumulates mesh fragments into one vertex array and a sequence of
/// meshlets; consumed by `build`.
pub struct MeshletBuilder<V> {
    vertices: Vec<V>,
    meshlet_descriptors: Vec<MeshletDescriptor>,
    vertex_indices: Vec<u32>,
    primitive_indices: Vec<u8>,
    vertex_begin: usize,
    primitive_begin: usize,
    max_vertices: usize,
    max_triangles: usize,
    input: Ghost<Seq<u32>>,
}

impl<V: Clone> MeshletBuilder<V> {
    /// The vertices appended so far.
    pub closed spec fn vertices(&self) -> Seq<V> {
        self.vertices@
    }

    /// The index tables, cursors and limits.
    pub closed spec fn state(&self) -> MeshletState {
        MeshletState {
            descriptors: self.meshlet_descriptors@,
            vertex_indices: self.vertex_indices@,
            primitive_indices: self.primitive_indices@,
            vertex_begin: self.vertex_begin as int,
            primitive_begin: self.primitive_begin as int,
            max_vertices: self.max_vertices as int,
            max_triangles: self.max_triangles as int,
            input: self.input@,
        }
    }

    /// The builder's invariant: the state's own, and every global vertex index
    /// names an appended vertex.
    pub open spec fn wf(&self) -> bool {
        &&& self.state().wf()
        &&& self.vertices().len() <= u32::MAX
        &&& indices_below(self.state().vertex_indices, self.vertices().len() as int)
    }

    /// An empty builder with the default limits of 64 vertices and 126
    /// triangles per meshlet.
    pub fn new() -> (r: Self)
        ensures
            r.wf(),
            r.vertices() == Seq::<V>::empty(),
            r.state() == MeshletState::empty(
                MAX_MESHLET_VERTICES as int,
                MAX_MESHLET_TRIANGLES as int,
            ),
    {
        Self::with_limits(MAX_MESHLET_VERTICES, MAX_MESHLET_TRIANGLES)
    }

    /// An empty builder whose meshlets hold at most `max_vertices` distinct
    /// vertices and `max_triangles` triangles.
    pub fn with_limits(max_vertices: usize, max_triangles: usize) -> (r: Self)
        requires
            3 <= max_vertices <= 256,
            1 <= max_triangles,
        ensures
            r.wf(),
            r.vertices() == Seq::<V>::empty(),
            r.state() == MeshletState::empty(max_vertices as int, max_triangles as int),
    {
        let r = MeshletBuilder {
            vertices: Vec::new(),
            meshlet_descriptors: Vec::new(),
            vertex_indices: Vec::new(),
            primitive_indices: Vec::new(),
            vertex_begin: 0,
            primitive_begin: 0,
            max_vertices,
            max_triangles,
            input: Ghost(Seq::empty()),
        };
        assert(r.state() == MeshletState::empty(max_vertices as int, max_triangles as int));
        proof {
            lemma_empty(max_vertices as int, max_triangles as int);
        }
        r
    }

    /// Whether `v` is in the vertex table of the meshlet in progress.
    fn current_contains(&self, v: u32) -> (r: bool)
        requires
            self.vertex_begin <= self.vertex_indices.len(),
        ensures
            r == self.state().current_table().contains(v),
    {
        let ghost t = self.state().current_table();
        let mut i = self.vertex_begin;
        while i < self.vertex_indices.len()
            invariant
                self.vertex_begin <= i <= self.vertex_indices.len(),
                t == self.state().current_table(),
                forall|j: int| 0 <= j < i - self.vertex_begin ==> t[j] != v,
            decreases self.vertex_indices.len() - i,
        {
            if self.vertex_indices[i] == v {
                assert(t[i - self.vertex_begin] == v);
                return true;
            }
            i += 1;
        }
        false
    }

    /// Position of `v` in the vertex table of the meshlet in progress.
    fn local_index(&self, v: u32) -> (r: u8)
        requires
            self.vertex_begin <= self.vertex_indices.len(),
            self.state().current_table().contains(v),
            self.state().current_table().no_duplicates(),
            self.state().current_table().len() <= 256,
        ensures
            r == self.state().local_index(v),
    {
        let ghost t = self.state().current_table();
        let mut i = self.vertex_begin;
        while i < self.vertex_indices.len()
            invariant
                self.vertex_begin <= i <= self.vertex_indices.len(),
                t == self.state().current_table(),
                t.contains(v),
                t.no_duplicates(),
                t.len() <= 256,
                forall|j: int| 0 <= j < i - self.vertex_begin ==> t[j] != v,
            decreases self.vertex_indices.len() - i,
        {
            if self.vertex_indices[i] == v {
                proof {
                    let k = t.index_of(v);
                    assert(t[i - self.vertex_begin] == v);
                    assert(t[k] == v);
                }
                return (i - self.vertex_begin) as u8;
            }
            i += 1;
        }
        assert(false);
        0
    }

    /// Closes the meshlet in progress and starts an empty one.
    fn flush(&mut self)
        requires
            old(self).state().closed_ok(),
        ensures
            final(self).state() == old(self).state().flush(),
            final(self).vertices() == old(self).vertices(),
    {
        proof {
            lemma_bounds(self.state());
        }
        let descriptor = MeshletDescriptor {
            vertex_count: (self.vertex_indices.len() - self.vertex_begin) as u32,
            primitive_count: ((self.primitive_indices.len() - self.primitive_begin) / 3) as u32,
            vertex_begin: self.vertex_begin as u32,
            primitive_begin: (self.primitive_begin / 3) as u32,
        };
        self.meshlet_descriptors.push(descriptor);
        self.vertex_begin = self.vertex_indices.len();
        self.primitive_begin = self.primitive_indices.len();
    }

    /// Adds `v` to the vertex table in progress unless it is there already.
    fn push_vertex(&mut self, v: u32)
        requires
            old(self).vertex_begin <= old(self).vertex_indices.len() < 3 * MAX_TRIANGLES,
        ensures
            final(self).state() == old(self).state().with_vertex(v),
            final(self).vertices() == old(self).vertices(),
    {
        if !self.current_contains(v) {
            self.vertex_indices.push(v);
        }
    }

    /// How many distinct vertices of the triangle the vertex table in
    /// progress lacks.
    fn count_new_vertices(&self, a: u32, b: u32, c: u32) -> (r: usize)
        requires
            self.state().closed_ok(),
            self.state().current_ok(),
            self.state().vertex_indices.len() + 3 <= 3 * MAX_TRIANGLES,
        ensures
            r == self.state().with_vertices(a, b, c).current_table().len()
                - self.state().current_table().len(),
    {
        let ghost s = self.state();
        proof {
            lemma_bounds(s);
            lemma_with_vertex(s, a);
            lemma_with_vertex(s.with_vertex(a), b);
            lemma_with_vertex(s.with_vertex(a).with_vertex(b), c);
        }
        let mut r: usize = 0;
        if !self.current_contains(a) {
            r += 1;
        }
        if !self.current_contains(b) && b != a {
            r += 1;
        }
        if !self.current_contains(c) && c != a && c != b {
            r += 1;
        }
        r
    }

    /// Adds a triangle to the meshlet in progress: its new vertices to the
    /// vertex table, then its three local indices.
    fn push_triangle(&mut self, a: u32, b: u32, c: u32)
        requires
            old(self).state().closed_ok(),
            old(self).state().current_ok(),
            old(self).state().with_vertices(a, b, c).current_table().len() <= 256,
            old(self).state().vertex_indices.len() + 3 <= 3 * MAX_TRIANGLES,
        ensures
            final(self).state() == old(self).state().with_vertices(a, b, c).with_primitive(
                a,
                b,
                c,
            ),
            final(self).vertices() == old(self).vertices(),
    {
        let ghost o = self.state();
        proof {
            lemma_with_vertex(o, a);
            lemma_with_vertex(o.with_vertex(a), b);
            lemma_with_vertex(o.with_vertex(a).with_vertex(b), c);
            lemma_bounds(o);
            lemma_bounds(o.with_vertex(a));
            lemma_bounds(o.with_vertex(a).with_vertex(b));
            lemma_current_no_duplicates(o.with_vertices(a, b, c));
        }
        self.push_vertex(a);
        self.push_vertex(b);
        self.push_vertex(c);
        let local_a = self.local_index(a);
        let local_b = self.local_index(b);
        let local_c = self.local_index(c);
        self.primitive_indices.push(local_a);
        self.primitive_indices.push(local_b);
        self.primitive_indices.push(local_c);
        self.input = Ghost(self.input@ + seq![a, b, c]);
        assert(self.primitive_indices@ =~= o.with_vertices(a, b, c).primitive_indices + seq![
            local_a,
            local_b,
            local_c,
        ]);
    }

    /// One step of the greedy partition, on a triangle of global indices.
    fn add_triangle(&mut self, a: u32, b: u32, c: u32)
        requires
            old(self).state().wf(),
            old(self).state().primitive_indices.len() + 3 <= 3 * MAX_TRIANGLES,
        ensures
            final(self).state() == old(self).state().add_triangle(a, b, c),
            final(self).vertices() == old(self).vertices(),
    {
        let ghost s = self.state();
        proof {
            lemma_bounds(s);
        }
        let new_vertices = self.count_new_vertices(a, b, c);
        let vertex_count = self.vertex_indices.len() - self.vertex_begin;
        if vertex_count + new_vertices > self.max_vertices {
            proof {
                lemma_with_vertex(s, a);
                lemma_with_vertex(s.with_vertex(a), b);
                lemma_with_vertex(s.with_vertex(a).with_vertex(b), c);
                lemma_flush(s);
            }
            self.flush();
        }
        let ghost o = self.state();
        proof {
            lemma_with_vertex(o, a);
            lemma_with_vertex(o.with_vertex(a), b);
            lemma_with_vertex(o.with_vertex(a).with_vertex(b), c);
        }
        self.push_triangle(a, b, c);
        proof {
            lemma_with_primitive(o.with_vertices(a, b, c), a, b, c);
        }
        let primitive_count = (self.primitive_indices.len() - self.primitive_begin) / 3;
        if primitive_count >= self.max_triangles {
            self.flush();
        }
    }

    /// Appends a fragment: its vertices go to the end of the vertex array, and
    /// its triangles, with indices shifted by the number of vertices appended
    /// before, are added one after another to the meshlets.
    pub fn append(&mut self, vertices: &[V], triangle_indices: &[u16])
        requires
            old(self).wf(),
            triangle_indices@.len() % 3 == 0,
            forall|i: int|
                0 <= i < triangle_indices@.len() ==> #[trigger] triangle_indices@[i]
                    < vertices@.len(),
            old(self).vertices().len() + vertices@.len() <= u32::MAX,
            old(self).state().triangle_count() + triangle_indices@.len() / 3 <= MAX_TRIANGLES,
        ensures
            final(self).wf(),
            final(self).vertices().len() == old(self).vertices().len() + vertices@.len(),
            forall|i: int|
                0 <= i < old(self).vertices().len() ==> #[trigger] final(self).vertices()[i]
                    == old(self).vertices()[i],
            forall|i: int|
                0 <= i < vertices@.len() ==> cloned(
                    vertices@[i],
                    #[trigger] final(self).vertices()[old(self).vertices().len() + i],
                ),
            final(self).state() == append_triangles(
                old(self).state(),
                old(self).vertices().len() as int,
                triangle_indices@,
                (triangle_indices@.len() / 3) as nat,
            ),
            final(self).state().triangle_count() == old(self).state().triangle_count()
                + triangle_indices@.len() / 3,
            final(self).state().input == old(self).state().input + global_indices(
                old(self).vertices().len() as int,
                triangle_indices@,
                triangle_indices@.len() as int,
            ),
    {
        let vertex_start = self.vertices.len() as u32;
        self.vertices.extend_from_slice(vertices);
        let ghost appended = self.vertices();
        let n = triangle_indices.len() / 3;
        let mut k: usize = 0;
        while k < n
            invariant
                k <= n,
                3 * n == triangle_indices@.len(),
                vertex_start == old(self).vertices().len(),
                appended.len() == vertex_start + vertices@.len(),
                appended.len() <= u32::MAX,
                forall|i: int|
                    0 <= i < triangle_indices@.len() ==> #[trigger] triangle_indices@[i]
                        < vertices@.len(),
                old(self).state().triangle_count() + n <= MAX_TRIANGLES,
                self.vertices() == appended,
                self.wf(),
                self.state() == append_triangles(
                    old(self).state(),
                    vertex_start as int,
                    triangle_indices@,
                    k as nat,
                ),
                self.state().triangle_count() == old(self).state().triangle_count() + k,
                self.state().input == old(self).state().input + global_indices(
                    vertex_start as int,
                    triangle_indices@,
                    3 * k,
                ),
            decreases n - k,
        {
            let a = vertex_start + triangle_indices[3 * k] as u32;
            let b = vertex_start + triangle_indices[3 * k + 1] as u32;
            let c = vertex_start + triangle_indices[3 * k + 2] as u32;
            proof {
                lemma_bounds(self.state());
                lemma_add_triangle(self.state(), a, b, c, appended.len() as int);
            }
            self.add_triangle(a, b, c);
            assert(global_indices(vertex_start as int, triangle_indices@, 3 * k + 3) =~= global_indices(
                vertex_start as int,
                triangle_indices@,
                3 * k,
            ) + seq![a, b, c]);
            k += 1;
        }
    }

    /// Appends one word to the buffer and to its ghost word sequence.
    fn push_word(buffer: &mut Vec<u8>, words: Ghost<Seq<u32>>, x: u32) -> (r: Ghost<Seq<u32>>)
        requires
            old(buffer)@ == words_bytes(words@),
        ensures
            final(buffer)@ == words_bytes(r@),
            r@ == words@.push(x),
    {
        push_u32(buffer, x);
        proof {
            lemma_words_bytes_push(words@, x);
        }
        Ghost(words@.push(x))
    }

    /// Finishes the meshlet in progress if it holds a triangle, and packs the
    /// header, the descriptors, the vertex-index table and the zero-padded
    /// local indices into one buffer.
    pub fn build(self) -> (r: MeshData<V>)
        requires
            self.wf(),
        ensures
            r.vertex_data@ == self.vertices(),
            r.num_meshlets == self.state().finished_descriptors().len(),
            r.meshlet_data@ == self.state().packed(),
    {
        let ghost s = self.state();
        let mut this = self;
        proof {
            lemma_bounds(s);
            lemma_finished_count(s);
        }
        let primitive_count = (this.primitive_indices.len() - this.primitive_begin) / 3;
        if primitive_count > 0 {
            this.flush();
        }
        assert(this.meshlet_descriptors@ == s.finished_descriptors());
        let ghost ds = s.finished_descriptors();
        let ghost vis = s.vertex_indices;
        let n = this.meshlet_descriptors.len();
        let nv = this.vertex_indices.len();

        let mut primitive_bytes = this.primitive_indices;
        let ghost pis = s.primitive_indices;
        while primitive_bytes.len() % 4 != 0
            invariant
                pis.len() <= primitive_bytes@.len() <= round_up4(pis.len() as int),
                primitive_bytes@ == padded(pis).take(primitive_bytes@.len() as int),
                pis.len() <= 3 * MAX_TRIANGLES,
            decreases round_up4(pis.len() as int) - primitive_bytes@.len(),
        {
            primitive_bytes.push(0);
        }
        assert(primitive_bytes@ =~= padded(pis));

        let header_size: usize = 8;
        let descriptor_size: usize = 16 * n;
        let vertex_indices_size: usize = 4 * nv;
        let vertex_indices_offset = ((header_size + descriptor_size) / 4) as u32;
        let primitive_indices_offset = ((header_size + descriptor_size + vertex_indices_size) / 4) as u32;

        let mut buffer: Vec<u8> = Vec::new();
        let ghost mut words: Seq<u32> = Seq::empty();
        assert(buffer@ =~= words_bytes(words));
        let w = Self::push_word(&mut buffer, Ghost(words), vertex_indices_offset);
        proof {
            words = w@;
        }
        let w = Self::push_word(&mut buffer, Ghost(words), primitive_indices_offset);
        proof {
            words = w@;
        }
        assert(words =~= header_words(ds, vis) + descriptor_words(ds.take(0)));

        let mut i: usize = 0;
        while i < n
            invariant
                i <= n,
                n == ds.len(),
                this.meshlet_descriptors@ == ds,
                buffer@ == words_bytes(words),
                words == header_words(ds, vis) + descriptor_words(ds.take(i as int)),
            decreases n - i,
        {
            let d = this.meshlet_descriptors[i];
            proof {
                lemma_descriptor_words_take(ds, i as int);
            }
            let w = Self::push_word(&mut buffer, Ghost(words), d.vertex_count);
            proof {
                words = w@;
            }
            let w = Self::push_word(&mut buffer, Ghost(words), d.primitive_count);
            proof {
                words = w@;
            }
            let w = Self::push_word(&mut buffer, Ghost(words), d.vertex_begin);
            proof {
                words = w@;
            }
            let w = Self::push_word(&mut buffer, Ghost(words), d.primitive_begin);
            proof {
                words = w@;
            }
            assert(words =~= header_words(ds, vis) + descriptor_words(ds.take(i + 1)));
            i += 1;
        }
        assert(ds.take(n as int) =~= ds);
        assert(words =~= header_words(ds, vis) + descriptor_words(ds) + vis.take(0));

        let mut j: usize = 0;
        while j < nv
            invariant
                j <= nv,
                nv == vis.len(),
                this.vertex_indices@ == vis,
                buffer@ == words_bytes(words),
                words == header_words(ds, vis) + descriptor_words(ds) + vis.take(j as int),
            decreases nv - j,
        {
            let w = Self::push_word(&mut buffer, Ghost(words), this.vertex_indices[j]);
            proof {
                words = w@;
            }
            assert(words =~= header_words(ds, vis) + descriptor_words(ds) + vis.take(j + 1));
            j += 1;
        }
        assert(vis.take(nv as int) =~= vis);
        assert(words == packed_words(ds, vis));

        let ghost prefix = buffer@;
        let mut k: usize = 0;
        while k < primitive_bytes.len()
            invariant
                k <= primitive_bytes@.len(),
                primitive_bytes@ == padded(pis),
                buffer@ == prefix + padded(pis).take(k as int),
            decreases primitive_bytes@.len() - k,
        {
            buffer.push(primitive_bytes[k]);
            assert(buffer@ =~= prefix + padded(pis).take(k + 1));
            k += 1;
        }
        assert(padded(pis).take(primitive_bytes@.len() as int) =~= padded(pis));

        MeshData { vertex_data: this.vertices, meshlet_data: buffer, num_meshlets: n }
    }
}

} // verus!

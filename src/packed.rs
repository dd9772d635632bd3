//! The packed meshlet buffer: its layout as a function of the builder's
//! tables, how it is read back, and what holds of every buffer a builder emits.
use vstd::prelude::*;
use crate::layout::{
    lemma_read_prefix, lemma_words_bytes, padded, read_u32, round_up4, words_bytes,
};
use crate::model::{
    chained, lemma_bounds, lemma_finished, lemma_finished_faithful, lemma_sum_primitive_counts,
    meshlet_ok, primitive_end, sum_primitive_counts, vertex_table, MeshletDescriptor, MeshletState,
};

verus! {

/// The descriptors as words: vertex count, primitive count, vertex begin and
/// primitive begin of each, one descriptor after another.
pub open spec fn descriptor_words(ds: Seq<MeshletDescriptor>) -> Seq<u32>
    decreases ds.len(),
{
    if ds.len() == 0 {
        Seq::empty()
    } else {
        let d = ds.last();
        descriptor_words(ds.drop_last()) + seq![
            d.vertex_count,
            d.primitive_count,
            d.vertex_begin,
            d.primitive_begin,
        ]
    }
}

/// Word offset of the vertex-index region when `n` descriptors precede it.
pub open spec fn vertex_region_word(n: int) -> int {
    2 + 4 * n
}

/// Word offset of the primitive-index region.
pub open spec fn primitive_region_word(n: int, vertex_index_count: int) -> int {
    2 + 4 * n + vertex_index_count
}

/// The header: the word offsets of the vertex-index and primitive-index regions.
pub open spec fn header_words(ds: Seq<MeshletDescriptor>, vertex_indices: Seq<u32>) -> Seq<u32> {
    seq![
        vertex_region_word(ds.len() as int) as u32,
        primitive_region_word(ds.len() as int, vertex_indices.len() as int) as u32,
    ]
}

/// Header, descriptors and vertex-index table, as words.
pub open spec fn packed_words(ds: Seq<MeshletDescriptor>, vertex_indices: Seq<u32>) -> Seq<u32> {
    header_words(ds, vertex_indices) + descriptor_words(ds) + vertex_indices
}

/// The whole buffer: the words in little-endian order, then the local indices
/// padded with zeros to a multiple of four bytes.
pub open spec fn packed_bytes(
    ds: Seq<MeshletDescriptor>,
    vertex_indices: Seq<u32>,
    primitive_indices: Seq<u8>,
) -> Seq<u8> {
    words_bytes(packed_words(ds, vertex_indices)) + padded(primitive_indices)
}

impl MeshletState {
    /// The buffer that a build of this state emits.
    pub open spec fn packed(self) -> Seq<u8> {
        packed_bytes(self.finished_descriptors(), self.vertex_indices, self.primitive_indices)
    }
}

/// Extending the descriptors by one extends their words by its four fields.
pub proof fn lemma_descriptor_words_take(ds: Seq<MeshletDescriptor>, i: int)
    requires
        0 <= i < ds.len(),
    ensures
        descriptor_words(ds.take(i + 1)) == descriptor_words(ds.take(i)) + seq![
            ds[i].vertex_count,
            ds[i].primitive_count,
            ds[i].vertex_begin,
            ds[i].primitive_begin,
        ],
{
    assert(ds.take(i + 1).drop_last() =~= ds.take(i));
}

/// The descriptor words hold four words per descriptor, its fields in order.
pub proof fn lemma_descriptor_words(ds: Seq<MeshletDescriptor>)
    ensures
        descriptor_words(ds).len() == 4 * ds.len(),
        forall|i: int|
            0 <= i < ds.len() ==> {
                &&& descriptor_words(ds)[4 * i] == (#[trigger] ds[i]).vertex_count
                &&& descriptor_words(ds)[4 * i + 1] == ds[i].primitive_count
                &&& descriptor_words(ds)[4 * i + 2] == ds[i].vertex_begin
                &&& descriptor_words(ds)[4 * i + 3] == ds[i].primitive_begin
            },
    decreases ds.len(),
{
    if ds.len() > 0 {
        let init = ds.drop_last();
        lemma_descriptor_words(init);
        assert forall|i: int| 0 <= i < ds.len() implies {
            &&& descriptor_words(ds)[4 * i] == (#[trigger] ds[i]).vertex_count
            &&& descriptor_words(ds)[4 * i + 1] == ds[i].primitive_count
            &&& descriptor_words(ds)[4 * i + 2] == ds[i].vertex_begin
            &&& descriptor_words(ds)[4 * i + 3] == ds[i].primitive_begin
        } by {
            if i < init.len() {
                assert(init[i] == ds[i]);
            }
        }
    }
}

/// Word `k` of a buffer, counted from its start.
pub open spec fn word_at(data: Seq<u8>, k: int) -> u32 {
    read_u32(data, 4 * k)
}

/// The header's word offset of the vertex-index region.
pub open spec fn vertex_indices_offset(data: Seq<u8>) -> int {
    word_at(data, 0) as int
}

/// The header's word offset of the primitive-index region.
pub open spec fn primitive_indices_offset(data: Seq<u8>) -> int {
    word_at(data, 1) as int
}

/// The number of descriptors, as the header implies it: they fill the words
/// between the header and the vertex-index region.
pub open spec fn meshlet_count(data: Seq<u8>) -> int {
    (vertex_indices_offset(data) - 2) / 4
}

/// Descriptor `i`, read from the buffer.
pub open spec fn read_descriptor(data: Seq<u8>, i: int) -> MeshletDescriptor {
    MeshletDescriptor {
        vertex_count: word_at(data, 2 + 4 * i),
        primitive_count: word_at(data, 3 + 4 * i),
        vertex_begin: word_at(data, 4 + 4 * i),
        primitive_begin: word_at(data, 5 + 4 * i),
    }
}

/// All descriptors, read from the buffer.
pub open spec fn read_descriptors(data: Seq<u8>) -> Seq<MeshletDescriptor> {
    Seq::new(meshlet_count(data) as nat, |i: int| read_descriptor(data, i))
}

/// The global vertex index at entry `k` of the vertex table of meshlet `d`,
/// read through the header.
pub open spec fn read_vertex(data: Seq<u8>, d: MeshletDescriptor, k: int) -> u32 {
    word_at(data, vertex_indices_offset(data) + d.vertex_begin + k)
}

/// Local index `j` of meshlet `d` (vertex `j % 3` of its triangle `j / 3`),
/// read through the header.
pub open spec fn read_local_index(data: Seq<u8>, d: MeshletDescriptor, j: int) -> u8 {
    data[4 * primitive_indices_offset(data) + 3 * d.primitive_begin + j]
}

/// Where everything of a packed buffer lies, read back byte by byte.
proof fn lemma_read_back(s: MeshletState)
    requires
        s.wf(),
    ensures
        ({
            let data = s.packed();
            let ds = s.finished_descriptors();
            let n = ds.len() as int;
            let vi = s.vertex_indices;
            let pi = s.primitive_indices;
            &&& vertex_indices_offset(data) == 2 + 4 * n
            &&& primitive_indices_offset(data) == 2 + 4 * n + vi.len()
            &&& meshlet_count(data) == n
            &&& data.len() == 4 * primitive_indices_offset(data) + round_up4(pi.len() as int)
            &&& forall|i: int| 0 <= i < n ==> #[trigger] read_descriptor(data, i) == ds[i]
            &&& forall|k: int|
                0 <= k < vi.len() ==> #[trigger] word_at(data, vertex_indices_offset(data) + k)
                    == vi[k]
            &&& forall|j: int|
                0 <= j < round_up4(pi.len() as int) ==> #[trigger] data[4
                    * primitive_indices_offset(data) + j] == padded(pi)[j]
        }),
{
    let data = s.packed();
    let ds = s.finished_descriptors();
    let n = ds.len() as int;
    let vi = s.vertex_indices;
    let pi = s.primitive_indices;
    let words = packed_words(ds, vi);
    let wb = words_bytes(words);
    lemma_bounds(s);
    lemma_finished(s);
    lemma_descriptor_words(ds);
    lemma_words_bytes(words);
    let m = 2 + 4 * n + vi.len();
    assert(words.len() == m);
    assert(data == wb + padded(pi));
    assert forall|k: int| 0 <= k < m implies #[trigger] word_at(data, k) == words[k] by {
        lemma_read_prefix(wb, padded(pi), 4 * k);
    }
    assert(word_at(data, 0) == words[0]);
    assert(word_at(data, 1) == words[1]);
    assert forall|i: int| 0 <= i < n implies #[trigger] read_descriptor(data, i) == ds[i] by {
        assert(word_at(data, 2 + 4 * i) == words[2 + 4 * i]);
        assert(word_at(data, 3 + 4 * i) == words[3 + 4 * i]);
        assert(word_at(data, 4 + 4 * i) == words[4 + 4 * i]);
        assert(word_at(data, 5 + 4 * i) == words[5 + 4 * i]);
        assert(words[2 + 4 * i] == descriptor_words(ds)[4 * i]);
        assert(words[3 + 4 * i] == descriptor_words(ds)[4 * i + 1]);
        assert(words[4 + 4 * i] == descriptor_words(ds)[4 * i + 2]);
        assert(words[5 + 4 * i] == descriptor_words(ds)[4 * i + 3]);
    }
    assert forall|k: int| 0 <= k < vi.len() implies #[trigger] word_at(
        data,
        vertex_indices_offset(data) + k,
    ) == vi[k] by {
        assert(word_at(data, 2 + 4 * n + k) == words[2 + 4 * n + k]);
    }
    assert forall|j: int| 0 <= j < round_up4(pi.len() as int) implies #[trigger] data[4
        * primitive_indices_offset(data) + j] == padded(pi)[j] by {
        assert(data[wb.len() + j] == padded(pi)[j]);
    }
}

/// Every meshlet that the buffer describes stays within the builder's limits
/// (with `MeshletBuilder::new`, 64 vertices and 126 triangles).
pub proof fn lemma_meshlet_capacity(s: MeshletState)
    requires
        s.wf(),
    ensures
        forall|i: int|
            0 <= i < meshlet_count(s.packed()) ==> {
                &&& (#[trigger] read_descriptor(s.packed(), i)).vertex_count <= s.max_vertices
                &&& read_descriptor(s.packed(), i).primitive_count <= s.max_triangles
            },
{
    lemma_read_back(s);
    lemma_finished(s);
}

/// No triangle is split between meshlets: each meshlet's triangles lie
/// whole in the primitive-index region, and every local index of them falls
/// in that meshlet's own vertex table.
pub proof fn lemma_triangles_within_meshlet(s: MeshletState)
    requires
        s.wf(),
    ensures
        ({
            let data = s.packed();
            forall|i: int|
                0 <= i < meshlet_count(data) ==> {
                    let d = #[trigger] read_descriptor(data, i);
                    &&& 4 * primitive_indices_offset(data) + 3 * (d.primitive_begin
                        + d.primitive_count) <= data.len()
                    &&& forall|j: int|
                        0 <= j < 3 * d.primitive_count ==> #[trigger] read_local_index(data, d, j)
                            < d.vertex_count
                }
        }),
{
    let data = s.packed();
    let ds = s.finished_descriptors();
    lemma_read_back(s);
    lemma_finished(s);
    assert forall|i: int| 0 <= i < meshlet_count(data) implies {
        let d = #[trigger] read_descriptor(data, i);
        &&& 4 * primitive_indices_offset(data) + 3 * (d.primitive_begin + d.primitive_count)
            <= data.len()
        &&& forall|j: int|
            0 <= j < 3 * d.primitive_count ==> #[trigger] read_local_index(data, d, j)
                < d.vertex_count
    } by {
        let d = read_descriptor(data, i);
        assert(d == ds[i]);
        assert(meshlet_ok(s.vertex_indices, s.primitive_indices, d, s.max_vertices, s.max_triangles));
        assert forall|j: int| 0 <= j < 3 * d.primitive_count implies #[trigger] read_local_index(
            data,
            d,
            j,
        ) < d.vertex_count by {
            let at = 3 * d.primitive_begin + j;
            assert(data[4 * primitive_indices_offset(data) + at] == padded(s.primitive_indices)[at]);
            assert(s.primitive_indices[at] < d.vertex_count);
        }
    }
}

/// Within one meshlet's vertex table no global vertex index appears twice.
pub proof fn lemma_vertex_tables_distinct(s: MeshletState)
    requires
        s.wf(),
    ensures
        ({
            let data = s.packed();
            forall|i: int, k1: int, k2: int|
                0 <= i < meshlet_count(data) && 0 <= k1 < k2 < read_descriptor(
                    data,
                    i,
                ).vertex_count ==> #[trigger] read_vertex(data, read_descriptor(data, i), k1)
                    != #[trigger] read_vertex(data, read_descriptor(data, i), k2)
        }),
{
    let data = s.packed();
    let ds = s.finished_descriptors();
    lemma_read_back(s);
    lemma_finished(s);
    assert forall|i: int, k1: int, k2: int|
        0 <= i < meshlet_count(data) && 0 <= k1 < k2 < read_descriptor(data, i).vertex_count
        implies #[trigger] read_vertex(data, read_descriptor(data, i), k1)
        != #[trigger] read_vertex(data, read_descriptor(data, i), k2) by {
        lemma_read_vertex(s, i, k1);
        lemma_read_vertex(s, i, k2);
        let d = ds[i];
        assert(meshlet_ok(s.vertex_indices, s.primitive_indices, d, s.max_vertices, s.max_triangles));
        let t = vertex_table(s.vertex_indices, d);
        assert(t.no_duplicates());
        assert(t[k1] != t[k2]);
    }
}

/// Entry `k` of meshlet `i`'s vertex table, read from the buffer.
proof fn lemma_read_vertex(s: MeshletState, i: int, k: int)
    requires
        s.wf(),
        0 <= i < s.finished_descriptors().len(),
        0 <= k < s.finished_descriptors()[i].vertex_count,
    ensures
        read_descriptor(s.packed(), i) == s.finished_descriptors()[i],
        read_vertex(s.packed(), s.finished_descriptors()[i], k) == vertex_table(
            s.vertex_indices,
            s.finished_descriptors()[i],
        )[k],
{
    let data = s.packed();
    let d = s.finished_descriptors()[i];
    lemma_read_back(s);
    lemma_finished(s);
    assert(meshlet_ok(s.vertex_indices, s.primitive_indices, d, s.max_vertices, s.max_triangles));
    assert(word_at(data, vertex_indices_offset(data) + (d.vertex_begin + k))
        == s.vertex_indices[d.vertex_begin + k]);
}

/// The meshlets read from the buffer together hold every triangle that was
/// appended.
pub proof fn lemma_all_triangles_emitted(s: MeshletState)
    requires
        s.wf(),
    ensures
        sum_primitive_counts(read_descriptors(s.packed())) == s.triangle_count(),
{
    lemma_round_trip(s);
    lemma_finished(s);
}

/// The header's offsets point exactly at the start of the vertex-index region,
/// right after the descriptors, and of the primitive-index region, right after
/// the vertex indices; the two regions hold the builder's tables.
pub proof fn lemma_region_offsets(s: MeshletState)
    requires
        s.wf(),
    ensures
        ({
            let data = s.packed();
            let n = s.finished_descriptors().len();
            let vi = s.vertex_indices;
            let pi = s.primitive_indices;
            &&& 4 * vertex_indices_offset(data) == 8 + 16 * n
            &&& 4 * primitive_indices_offset(data) == 4 * vertex_indices_offset(data) + 4 * vi.len()
            &&& forall|k: int|
                0 <= k < vi.len() ==> #[trigger] word_at(data, vertex_indices_offset(data) + k)
                    == vi[k]
            &&& forall|j: int|
                0 <= j < pi.len() ==> #[trigger] data[4 * primitive_indices_offset(data) + j]
                    == pi[j]
        }),
{
    let data = s.packed();
    let pi = s.primitive_indices;
    lemma_read_back(s);
    assert forall|j: int| 0 <= j < pi.len() implies #[trigger] data[4 * primitive_indices_offset(
        data,
    ) + j] == pi[j] by {
        assert(padded(pi)[j] == pi[j]);
    }
}

/// The buffer and each of its regions (header, descriptors, vertex indices,
/// primitive indices) are a whole number of 4-byte words; the primitive region
/// ends with fewer than four zero bytes of padding.
pub proof fn lemma_aligned(s: MeshletState)
    requires
        s.wf(),
    ensures
        ({
            let data = s.packed();
            let voff = vertex_indices_offset(data);
            let poff = primitive_indices_offset(data);
            let pi = s.primitive_indices;
            &&& data.len() % 4 == 0
            &&& voff >= 2
            &&& (4 * voff - 8) % 16 == 0
            &&& poff >= voff
            &&& 4 * poff <= data.len()
            &&& (data.len() - 4 * poff) % 4 == 0
            &&& pi.len() <= data.len() - 4 * poff < pi.len() + 4
            &&& forall|j: int|
                4 * poff + pi.len() <= j < data.len() ==> #[trigger] data[j] == 0
        }),
{
    let data = s.packed();
    let poff = primitive_indices_offset(data);
    let pi = s.primitive_indices;
    lemma_read_back(s);
    assert forall|j: int| 4 * poff + pi.len() <= j < data.len() implies #[trigger] data[j] == 0 by {
        assert(data[4 * poff + (j - 4 * poff)] == padded(pi)[j - 4 * poff]);
    }
}

/// Reading the descriptors back from the buffer, through its header, gives
/// the emitted descriptors: their number, and each one's counts and offsets.
pub proof fn lemma_round_trip(s: MeshletState)
    requires
        s.wf(),
    ensures
        meshlet_count(s.packed()) == s.finished_descriptors().len(),
        read_descriptors(s.packed()) == s.finished_descriptors(),
{
    lemma_read_back(s);
    assert(read_descriptors(s.packed()) =~= s.finished_descriptors());
}

/// Decoding gives back the input. The meshlets' triangle ranges follow one
/// another from the first appended triangle to the last; and each local index
/// of a meshlet, looked up in that meshlet's vertex table, gives the global
/// vertex index that was appended at its position. So every appended triangle
/// comes back exactly once, in the order it was appended, whole within one
/// meshlet.
pub proof fn lemma_triangles_reproduced(s: MeshletState)
    requires
        s.wf(),
    ensures
        ({
            let data = s.packed();
            &&& s.input.len() == 3 * s.triangle_count()
            &&& chained(read_descriptors(data))
            &&& primitive_end(read_descriptors(data), meshlet_count(data)) == s.triangle_count()
            &&& forall|i: int, j: int|
                0 <= i < meshlet_count(data) && 0 <= j < 3 * read_descriptor(data, i).primitive_count
                    ==> read_vertex(
                    data,
                    read_descriptor(data, i),
                    #[trigger] read_local_index(data, read_descriptor(data, i), j) as int,
                ) == s.input[3 * read_descriptor(data, i).primitive_begin + j]
        }),
{
    let data = s.packed();
    let ds = s.finished_descriptors();
    lemma_bounds(s);
    lemma_round_trip(s);
    lemma_read_back(s);
    lemma_finished(s);
    lemma_finished_faithful(s);
    lemma_sum_primitive_counts(ds);
    assert forall|i: int, j: int|
        0 <= i < meshlet_count(data) && 0 <= j < 3 * read_descriptor(data, i).primitive_count
        implies read_vertex(
        data,
        read_descriptor(data, i),
        #[trigger] read_local_index(data, read_descriptor(data, i), j) as int,
    ) == s.input[3 * read_descriptor(data, i).primitive_begin + j] by {
        let d = ds[i];
        assert(read_descriptor(data, i) == d);
        assert(meshlet_ok(s.vertex_indices, s.primitive_indices, d, s.max_vertices, s.max_triangles));
        let at = 3 * d.primitive_begin + j;
        assert(data[4 * primitive_indices_offset(data) + at] == padded(s.primitive_indices)[at]);
        let local = s.primitive_indices[at];
        assert(read_local_index(data, d, j) == local);
        assert(local < d.vertex_count);
        assert(word_at(data, vertex_indices_offset(data) + (d.vertex_begin + local))
            == s.vertex_indices[d.vertex_begin + local]);
        assert(s.vertex_indices[d.vertex_begin + s.primitive_indices[at]] == s.input[at]);
    }
}

} // verus!

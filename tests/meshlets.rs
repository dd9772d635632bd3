use meshlets::mesh::{MeshData, MeshletBuilder};

fn word(data: &[u8], k: usize) -> u32 {
    u32::from_le_bytes([data[4 * k], data[4 * k + 1], data[4 * k + 2], data[4 * k + 3]])
}

struct Decoded {
    vertex_offset: usize,
    primitive_offset: usize,
    descriptors: Vec<[u32; 4]>,
}

fn decode(data: &[u8]) -> Decoded {
    let vertex_offset = word(data, 0) as usize;
    let primitive_offset = word(data, 1) as usize;
    let count = (vertex_offset - 2) / 4;
    let mut descriptors = Vec::new();
    for i in 0..count {
        descriptors.push([
            word(data, 2 + 4 * i),
            word(data, 3 + 4 * i),
            word(data, 4 + 4 * i),
            word(data, 5 + 4 * i),
        ]);
    }
    Decoded { vertex_offset, primitive_offset, descriptors }
}

fn meshlet_vertices(data: &[u8], dec: &Decoded, d: &[u32; 4]) -> Vec<u32> {
    (0..d[0] as usize).map(|k| word(data, dec.vertex_offset + d[2] as usize + k)).collect()
}

fn meshlet_local_indices(data: &[u8], dec: &Decoded, d: &[u32; 4]) -> Vec<u8> {
    let start = 4 * dec.primitive_offset + 3 * d[3] as usize;
    data[start..start + 3 * d[1] as usize].to_vec()
}

/// The triangles of all meshlets, in global indices, in order.
fn reconstruct(data: &[u8]) -> Vec<[u32; 3]> {
    let dec = decode(data);
    let mut out = Vec::new();
    for d in &dec.descriptors {
        let verts = meshlet_vertices(data, &dec, d);
        let locals = meshlet_local_indices(data, &dec, d);
        for t in locals.chunks(3) {
            out.push([verts[t[0] as usize], verts[t[1] as usize], verts[t[2] as usize]]);
        }
    }
    out
}

/// A grid of `w` by `h` quads, two triangles each.
fn grid(w: u16, h: u16) -> (Vec<[f32; 3]>, Vec<u16>) {
    let mut vertices = Vec::new();
    for y in 0..=h {
        for x in 0..=w {
            vertices.push([x as f32, y as f32, 0.0]);
        }
    }
    let mut indices = Vec::new();
    for y in 0..h {
        for x in 0..w {
            let a = y * (w + 1) + x;
            let b = a + 1;
            let c = a + w + 1;
            let d = c + 1;
            indices.extend_from_slice(&[a, b, c, c, b, d]);
        }
    }
    (vertices, indices)
}

fn build_grid() -> (MeshData<[f32; 3]>, Vec<u16>) {
    let (vertices, indices) = grid(20, 20);
    let mut mb = MeshletBuilder::new();
    mb.append(&vertices, &indices);
    (mb.build(), indices)
}

const CUBE: [u16; 36] = [
    0, 1, 2, 2, 1, 3, 4, 6, 5, 5, 6, 7, 0, 4, 1, 1, 4, 5, 2, 3, 6, 3, 7, 6, 0, 2, 4, 2, 6, 4, 1, 5,
    3, 3, 5, 7,
];

#[test]
fn cube_with_reduced_limits() {
    let vertices: Vec<u32> = (0..8).collect();
    let mut mb = MeshletBuilder::with_limits(5, 6);
    mb.append(&vertices, &CUBE);
    let mesh = mb.build();
    assert_eq!(mesh.vertex_data, vertices);
    assert_eq!(mesh.num_meshlets, 6);
    let dec = decode(&mesh.meshlet_data);
    assert_eq!(dec.descriptors.len(), 6);
    let mut total = 0;
    for (i, d) in dec.descriptors.iter().enumerate() {
        assert!(d[0] <= 5 && d[1] <= 6 && d[1] >= 1);
        assert_eq!(*d, [4, 2, 4 * i as u32, 2 * i as u32]);
        total += d[1];
    }
    assert_eq!(total, 12);
    let expected: Vec<u8> = vec![
        26, 0, 0, 0, 50, 0, 0, 0, 4, 0, 0, 0, 2, 0, 0, 0, 0, 0, 0, 0, 0, 0, 0, 0, 4, 0, 0, 0, 2,
        0, 0, 0, 4, 0, 0, 0, 2, 0, 0, 0, 4, 0, 0, 0, 2, 0, 0, 0, 8, 0, 0, 0, 4, 0, 0, 0, 4, 0, 0,
        0, 2, 0, 0, 0, 12, 0, 0, 0, 6, 0, 0, 0, 4, 0, 0, 0, 2, 0, 0, 0, 16, 0, 0, 0, 8, 0, 0, 0,
        4, 0, 0, 0, 2, 0, 0, 0, 20, 0, 0, 0, 10, 0, 0, 0, 0, 0, 0, 0, 1, 0, 0, 0, 2, 0, 0, 0, 3,
        0, 0, 0, 4, 0, 0, 0, 6, 0, 0, 0, 5, 0, 0, 0, 7, 0, 0, 0, 0, 0, 0, 0, 4, 0, 0, 0, 1, 0, 0,
        0, 5, 0, 0, 0, 2, 0, 0, 0, 3, 0, 0, 0, 6, 0, 0, 0, 7, 0, 0, 0, 0, 0, 0, 0, 2, 0, 0, 0, 4,
        0, 0, 0, 6, 0, 0, 0, 1, 0, 0, 0, 5, 0, 0, 0, 3, 0, 0, 0, 7, 0, 0, 0, 0, 1, 2, 2, 1, 3, 0,
        1, 2, 2, 1, 3, 0, 1, 2, 2, 1, 3, 0, 1, 2, 1, 3, 2, 0, 1, 2, 1, 3, 2, 0, 1, 2, 2, 1, 3,
    ];
    assert_eq!(mesh.meshlet_data, expected);
    let triangles = reconstruct(&mesh.meshlet_data);
    let input: Vec<[u32; 3]> =
        CUBE.chunks(3).map(|t| [t[0] as u32, t[1] as u32, t[2] as u32]).collect();
    assert_eq!(triangles, input);
}

#[test]
fn second_fragment_is_offset_and_not_merged() {
    let quad_a: Vec<u32> = vec![10, 11, 12, 13];
    let quad_b: Vec<u32> = vec![20, 21, 22, 23];
    let indices: [u16; 6] = [0, 1, 2, 2, 1, 3];
    let mut mb = MeshletBuilder::new();
    mb.append(&quad_a, &indices);
    mb.append(&quad_b, &indices);
    let mesh = mb.build();
    assert_eq!(mesh.vertex_data, vec![10, 11, 12, 13, 20, 21, 22, 23]);
    assert_eq!(mesh.num_meshlets, 1);
    let expected: Vec<u8> = vec![
        6, 0, 0, 0, 14, 0, 0, 0, 8, 0, 0, 0, 4, 0, 0, 0, 0, 0, 0, 0, 0, 0, 0, 0, 0, 0, 0, 0, 1, 0,
        0, 0, 2, 0, 0, 0, 3, 0, 0, 0, 4, 0, 0, 0, 5, 0, 0, 0, 6, 0, 0, 0, 7, 0, 0, 0, 0, 1, 2, 2,
        1, 3, 4, 5, 6, 6, 5, 7,
    ];
    assert_eq!(mesh.meshlet_data, expected);
    assert_eq!(
        reconstruct(&mesh.meshlet_data),
        vec![[0, 1, 2], [2, 1, 3], [4, 5, 6], [6, 5, 7]]
    );
}

#[test]
fn vertex_limit_reached_exactly_then_exceeded() {
    let vertices: Vec<u32> = (0..65).collect();
    let mut indices: Vec<u16> = Vec::new();
    for k in 0..21u16 {
        indices.extend_from_slice(&[3 * k, 3 * k + 1, 3 * k + 2]);
    }
    // brings the first meshlet to exactly 64 vertices
    indices.extend_from_slice(&[62, 63, 0]);
    // uses only vertices already in the meshlet
    indices.extend_from_slice(&[0, 1, 63]);
    // needs vertex 64
    indices.extend_from_slice(&[64, 0, 1]);
    let mut mb = MeshletBuilder::new();
    mb.append(&vertices, &indices);
    let mesh = mb.build();
    assert_eq!(mesh.num_meshlets, 2);
    let dec = decode(&mesh.meshlet_data);
    assert_eq!(dec.descriptors[0], [64, 23, 0, 0]);
    assert_eq!(dec.descriptors[1], [3, 1, 64, 23]);
    assert_eq!(meshlet_vertices(&mesh.meshlet_data, &dec, &dec.descriptors[1]), vec![64, 0, 1]);
    assert_eq!(meshlet_local_indices(&mesh.meshlet_data, &dec, &dec.descriptors[1]), vec![0, 1, 2]);
}

#[test]
fn flush_at_triangle_limit() {
    let vertices: Vec<u32> = vec![0, 1, 2];
    let mut indices: Vec<u16> = Vec::new();
    for _ in 0..127 {
        indices.extend_from_slice(&[0, 1, 2]);
    }
    let mut mb = MeshletBuilder::new();
    mb.append(&vertices, &indices);
    let mesh = mb.build();
    assert_eq!(mesh.num_meshlets, 2);
    let dec = decode(&mesh.meshlet_data);
    assert_eq!(dec.descriptors[0], [3, 126, 0, 0]);
    assert_eq!(dec.descriptors[1], [3, 1, 3, 126]);
}

#[test]
fn exactly_one_full_meshlet_emits_no_empty_descriptor() {
    let vertices: Vec<u32> = vec![0, 1, 2];
    let mut indices: Vec<u16> = Vec::new();
    for _ in 0..126 {
        indices.extend_from_slice(&[0, 1, 2]);
    }
    let mut mb = MeshletBuilder::new();
    mb.append(&vertices, &indices);
    let mesh = mb.build();
    assert_eq!(mesh.num_meshlets, 1);
    assert_eq!(decode(&mesh.meshlet_data).descriptors, vec![[3, 126, 0, 0]]);
}

#[test]
fn empty_builder_emits_header_only() {
    let mb: MeshletBuilder<u32> = MeshletBuilder::new();
    let mesh = mb.build();
    assert!(mesh.vertex_data.is_empty());
    assert_eq!(mesh.num_meshlets, 0);
    assert_eq!(mesh.meshlet_data, vec![2, 0, 0, 0, 2, 0, 0, 0]);
}

#[test]
fn fragment_without_triangles_adds_vertices_only() {
    let mut mb = MeshletBuilder::new();
    mb.append(&[1u32, 2, 3], &[]);
    let mesh = mb.build();
    assert_eq!(mesh.vertex_data, vec![1, 2, 3]);
    assert_eq!(mesh.num_meshlets, 0);
    assert_eq!(mesh.meshlet_data, vec![2, 0, 0, 0, 2, 0, 0, 0]);
}

#[test]
fn degenerate_triangle_keeps_table_free_of_repeats() {
    let mut mb = MeshletBuilder::new();
    mb.append(&[0u32, 1], &[0, 0, 1]);
    let mesh = mb.build();
    assert_eq!(mesh.num_meshlets, 1);
    let dec = decode(&mesh.meshlet_data);
    assert_eq!(dec.descriptors[0], [2, 1, 0, 0]);
    assert_eq!(meshlet_vertices(&mesh.meshlet_data, &dec, &dec.descriptors[0]), vec![0, 1]);
    assert_eq!(meshlet_local_indices(&mesh.meshlet_data, &dec, &dec.descriptors[0]), vec![0, 0, 1]);
}

#[test]
fn single_triangle_is_padded_with_zero() {
    let mut mb = MeshletBuilder::new();
    mb.append(&[7u32, 8, 9], &[2, 1, 0]);
    let mesh = mb.build();
    assert_eq!(
        mesh.meshlet_data,
        vec![
            6, 0, 0, 0, 9, 0, 0, 0, 3, 0, 0, 0, 1, 0, 0, 0, 0, 0, 0, 0, 0, 0, 0, 0, 2, 0, 0, 0, 1,
            0, 0, 0, 0, 0, 0, 0, 0, 1, 2, 0,
        ]
    );
}

#[test]
fn grid_meshlets_respect_capacity() {
    let (mesh, _) = build_grid();
    let dec = decode(&mesh.meshlet_data);
    assert_eq!(dec.descriptors.len(), mesh.num_meshlets);
    assert!(mesh.num_meshlets > 1);
    for d in &dec.descriptors {
        assert!(d[0] <= 64);
        assert!(d[1] >= 1 && d[1] <= 126);
    }
}

#[test]
fn grid_triangles_stay_within_one_meshlet() {
    let (mesh, indices) = build_grid();
    let data = &mesh.meshlet_data;
    let dec = decode(data);
    for d in &dec.descriptors {
        for &l in &meshlet_local_indices(data, &dec, d) {
            assert!((l as u32) < d[0]);
        }
    }
    let input: Vec<[u32; 3]> =
        indices.chunks(3).map(|t| [t[0] as u32, t[1] as u32, t[2] as u32]).collect();
    assert_eq!(reconstruct(data), input);
}

#[test]
fn grid_vertex_tables_have_no_repeats() {
    let (mesh, _) = build_grid();
    let data = &mesh.meshlet_data;
    let dec = decode(data);
    for d in &dec.descriptors {
        let mut verts = meshlet_vertices(data, &dec, d);
        let n = verts.len();
        verts.sort();
        verts.dedup();
        assert_eq!(verts.len(), n);
    }
}

#[test]
fn grid_all_triangles_emitted() {
    let (mesh, indices) = build_grid();
    let dec = decode(&mesh.meshlet_data);
    let total: u32 = dec.descriptors.iter().map(|d| d[1]).sum();
    assert_eq!(total as usize, indices.len() / 3);
    assert_eq!(total, 800);
}

#[test]
fn grid_header_offsets_point_at_regions() {
    let (mesh, _) = build_grid();
    let data = &mesh.meshlet_data;
    let dec = decode(data);
    let n = mesh.num_meshlets;
    assert_eq!(4 * dec.vertex_offset, 8 + 16 * n);
    let vertex_entries: usize = dec.descriptors.iter().map(|d| d[0] as usize).sum();
    assert_eq!(dec.primitive_offset, dec.vertex_offset + vertex_entries);
    assert_eq!(dec.descriptors[0][2], 0);
    assert_eq!(dec.descriptors[0][3], 0);
    for w in dec.descriptors.windows(2) {
        assert_eq!(w[1][2], w[0][2] + w[0][0]);
        assert_eq!(w[1][3], w[0][3] + w[0][1]);
    }
}

#[test]
fn grid_buffer_is_word_aligned() {
    let (mesh, indices) = build_grid();
    let data = &mesh.meshlet_data;
    let dec = decode(data);
    assert_eq!(data.len() % 4, 0);
    let primitive_region = data.len() - 4 * dec.primitive_offset;
    assert_eq!(primitive_region % 4, 0);
    assert!(primitive_region >= indices.len() && primitive_region < indices.len() + 4);
    assert!(data[4 * dec.primitive_offset + indices.len()..].iter().all(|&b| b == 0));
}

#[test]
fn grid_descriptors_read_back() {
    let (mesh, _) = build_grid();
    let data = &mesh.meshlet_data;
    let dec = decode(data);
    assert_eq!(dec.descriptors.len(), mesh.num_meshlets);
    for d in &dec.descriptors {
        assert_eq!(meshlet_vertices(data, &dec, d).len(), d[0] as usize);
        assert_eq!(meshlet_local_indices(data, &dec, d).len(), 3 * d[1] as usize);
    }
}

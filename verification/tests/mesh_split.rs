use overlay_draw::mesh::{ColoredVertex, Mesh};

fn tagged_vertex(tag: u32) -> ColoredVertex {
    ColoredVertex { pos: [0, 0], texture: [0, 0], color: tag }
}

#[test]
fn oversized_mesh_splits_into_16_bit_parts() {
    // 65546 vertices, each triangle over three consecutive vertices, plus a
    // final triangle reaching the last vertex.
    let count: usize = 65536 + 10;
    let vertices: Vec<ColoredVertex> = (0..count as u32).map(tagged_vertex).collect();
    let mut indices: Vec<u32> = Vec::new();
    for t in 0..(count as u32 - 2) / 3 {
        indices.push(3 * t);
        indices.push(3 * t + 1);
        indices.push(3 * t + 2);
    }
    indices.push(count as u32 - 3);
    indices.push(count as u32 - 2);
    indices.push(count as u32 - 1);
    let mesh = Mesh { texture_id: 0, vertices, indices: indices.clone() };

    let subs = mesh.split_to_u16();
    assert!(subs.len() >= 2);
    let mut rebuilt: Vec<u32> = Vec::new();
    for sub in &subs {
        // Every part fits the 16-bit index type.
        assert!(sub.vertices.len() < 65536);
        assert_eq!(sub.indices.len() % 3, 0);
        // Its vertices are the original run starting at its base, by the
        // identity tag planted in each vertex.
        for (off, v) in sub.vertices.iter().enumerate() {
            assert_eq!(v.color, (sub.vertex_base + off) as u32);
        }
        // Its indices, rebased, name original vertices.
        for &i in &sub.indices {
            assert!((i as usize) < sub.vertices.len());
            rebuilt.push(i + sub.vertex_base as u32);
        }
    }
    // The union of the parts' triangles is exactly the original triangles,
    // in order, by original vertex identity.
    assert_eq!(rebuilt, indices);
}

#[test]
fn small_mesh_stays_whole() {
    let vertices: Vec<ColoredVertex> = (0..9u32).map(tagged_vertex).collect();
    let indices: Vec<u32> = vec![0, 1, 2, 3, 4, 5, 6, 7, 8];
    let mesh = Mesh { texture_id: 0, vertices, indices: indices.clone() };
    let subs = mesh.split_to_u16();
    assert_eq!(subs.len(), 1);
    assert_eq!(subs[0].vertex_base, 0);
    assert_eq!(subs[0].vertices.len(), 9);
    assert_eq!(subs[0].indices, indices);
}

#[test]
fn empty_mesh_splits_into_nothing() {
    let mesh = Mesh { texture_id: 0, vertices: Vec::new(), indices: Vec::new() };
    assert!(mesh.split_to_u16().is_empty());
}

#[test]
fn sparse_triangles_get_their_own_parts() {
    // Two triangles whose spans cannot share one 16-bit window.
    let count: usize = 70000;
    let vertices: Vec<ColoredVertex> = (0..count as u32).map(tagged_vertex).collect();
    let indices: Vec<u32> = vec![0, 1, 2, 69000, 69001, 69002];
    let mesh = Mesh { texture_id: 0, vertices, indices: indices.clone() };
    let subs = mesh.split_to_u16();
    assert_eq!(subs.len(), 2);
    assert_eq!(subs[0].vertex_base, 0);
    assert_eq!(subs[0].indices, vec![0, 1, 2]);
    assert_eq!(subs[1].vertex_base, 69000);
    assert_eq!(subs[1].indices, vec![0, 1, 2]);
    assert_eq!(subs[1].vertices.len(), 3);
    assert_eq!(subs[1].vertices[0].color, 69000);
}

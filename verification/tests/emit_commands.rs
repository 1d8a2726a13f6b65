use overlay_draw::arena::VertexBuffer;
use overlay_draw::coord::RenderTarget;
use overlay_draw::emit::{
    add_overlays, align4, align6, draw_egui_mesh, frame_quad_budget, mesh_quad_budget,
    new_draw_command, BwVars, DrawCommands, F32_ONE_BITS, OVERLAY_LAYER,
};
use overlay_draw::error::DrawError;
use overlay_draw::mesh::{ColoredVertex, Mesh};
use overlay_draw::texture::{complete_texture_create, texture_create_params, RenderState};

fn vertex(tag: u32) -> ColoredVertex {
    ColoredVertex { pos: [tag, tag + 1], texture: [tag + 2, tag + 3], color: tag }
}

fn state_with_texture(id: u64, handle: usize) -> RenderState {
    let mut state = RenderState::new();
    let p = texture_create_params((4, 4), 64, false).unwrap();
    complete_texture_create(&mut state, id, p, handle).unwrap();
    state
}

fn test_target() -> RenderTarget {
    RenderTarget::new(1, 640, 480, (1.0f32 / 640.0).to_bits(), (1.0f32 / 480.0).to_bits())
}

#[test]
fn align4_rounds_up_and_wraps_at_the_top() {
    assert_eq!(align4(0), 0);
    assert_eq!(align4(1), 4);
    assert_eq!(align4(4), 4);
    assert_eq!(align4(5), 8);
    assert_eq!(align4(0xffff_fffc), 0xffff_fffc);
    assert_eq!(align4(0xffff_fffd), 0);
}

#[test]
fn align6_rounds_up() {
    assert_eq!(align6(0), 0);
    assert_eq!(align6(1), 6);
    assert_eq!(align6(6), 6);
    assert_eq!(align6(7), 12);
    assert_eq!(align6(13), 18);
}

#[test]
fn single_triangle_is_padded_to_one_quad() {
    let state = state_with_texture(7, 0x1234);
    let mut bw = BwVars {
        commands: DrawCommands::new(16, 8),
        vertex_buf: VertexBuffer::new(64, 64),
    };
    let rt = test_target();
    let mesh = Mesh {
        texture_id: 7,
        vertices: vec![vertex(100), vertex(200), vertex(300)],
        indices: vec![0, 1, 2],
    };
    draw_egui_mesh(OVERLAY_LAYER, &state, &mesh, &mut bw, &rt).unwrap();

    assert_eq!(bw.commands.draw_command_count, 1);
    let cmd = &bw.commands.commands[0];
    assert_eq!(cmd.allocated_vertex_count, 4);
    assert_eq!(cmd.used_vertex_count, 4);
    assert_eq!(cmd.render_target_id, 1);
    assert_eq!(cmd.draw_mode, 1);
    assert_eq!(cmd.shader_id, 4);
    assert_eq!(cmd.blend_mode, 0);
    assert_eq!(cmd.is_hd, 0);
    assert_eq!(cmd.unk3c, 0xffff);
    assert_eq!(cmd.vertex_buffer_offset_bytes, 0);
    assert_eq!(cmd.index_buffer_offset_bytes, 0);
    assert_eq!(cmd.texture_ids, [0x1234, 0, 0, 0, 0, 0, 0]);
    // Opaque-white multiply color and the reciprocal extents.
    assert_eq!(cmd.shader_constants[0], F32_ONE_BITS);
    assert_eq!(cmd.shader_constants[3], F32_ONE_BITS);
    assert_eq!(cmd.shader_constants[4], 0);
    assert_eq!(cmd.shader_constants[0xe], (1.0f32 / 640.0).to_bits());
    assert_eq!(cmd.shader_constants[0xf], (1.0f32 / 480.0).to_bits());
    // The three real indices, then three zero-valued padding indices.
    assert_eq!(&bw.vertex_buf.index_buffer[0..6], &[0, 1, 2, 0, 0, 0]);
    // One quad of 4 vertices at 8 floats each: 128 bytes of vertex arena.
    assert_eq!(bw.vertex_buf.allocated_size_bytes, 128);
    assert_eq!(bw.vertex_buf.index_buffer_allocated_bytes, 12);
    // The true vertices sit packed at the start, 5 words each.
    assert_eq!(&bw.vertex_buf.buffer[0..5], &[100, 101, 102, 103, 100]);
    assert_eq!(&bw.vertex_buf.buffer[5..10], &[200, 201, 202, 203, 200]);
    // One sort entry at the overlay layer, insertion index 0.
    assert_eq!(bw.commands.draw_sort_vector.data.len(), 1);
    let entry = &bw.commands.draw_sort_vector.data[0];
    assert_eq!(entry.layer, OVERLAY_LAYER);
    assert_eq!(entry.index, 0);
    assert_eq!(entry.command, 0);
}

#[test]
fn full_command_list_fails_without_touching_the_sort_vector() {
    let state = state_with_texture(7, 0x1234);
    let mut bw = BwVars {
        commands: DrawCommands::new(0, 8),
        vertex_buf: VertexBuffer::new(64, 64),
    };
    let rt = test_target();
    let mesh = Mesh {
        texture_id: 7,
        vertices: vec![vertex(1), vertex(2), vertex(3)],
        indices: vec![0, 1, 2],
    };
    let r = draw_egui_mesh(OVERLAY_LAYER, &state, &mesh, &mut bw, &rt);
    assert_eq!(r, Err(DrawError::OutOfDrawCommands));
    assert_eq!(bw.commands.draw_sort_vector.data.len(), 0);
    assert_eq!(bw.commands.draw_command_count, 0);
}

#[test]
fn unknown_texture_fails_without_consuming_arena_space() {
    let state = RenderState::new();
    let mut bw = BwVars {
        commands: DrawCommands::new(16, 8),
        vertex_buf: VertexBuffer::new(64, 64),
    };
    let rt = test_target();
    let mesh = Mesh {
        texture_id: 99,
        vertices: vec![vertex(1), vertex(2), vertex(3)],
        indices: vec![0, 1, 2],
    };
    let r = draw_egui_mesh(OVERLAY_LAYER, &state, &mesh, &mut bw, &rt);
    assert_eq!(r, Err(DrawError::InvalidTexture(99)));
    assert_eq!(bw.vertex_buf.allocated_size_bytes, 0);
    assert_eq!(bw.vertex_buf.index_buffer_allocated_bytes, 0);
    assert_eq!(bw.commands.draw_command_count, 0);
    assert_eq!(bw.commands.draw_sort_vector.data.len(), 0);
}

#[test]
fn sort_entries_keep_layers_and_insertion_order() {
    let mut commands = DrawCommands::new(8, 4);
    assert_eq!(new_draw_command(&mut commands, 5), Some(0));
    assert_eq!(new_draw_command(&mut commands, 3), Some(1));
    assert_eq!(new_draw_command(&mut commands, 5), Some(2));
    let entries = &commands.draw_sort_vector.data;
    assert_eq!(entries.len(), 3);
    assert_eq!((entries[0].layer, entries[0].index), (5, 0));
    assert_eq!((entries[1].layer, entries[1].index), (3, 1));
    assert_eq!((entries[2].layer, entries[2].index), (5, 2));
    // Host order is by (layer, index): the layer-3 entry draws first, and
    // the two layer-5 entries keep their emission order.
    let mut keys: Vec<(u16, u16)> = entries.iter().map(|e| (e.layer, e.index)).collect();
    keys.sort();
    assert_eq!(keys, vec![(3, 1), (5, 0), (5, 2)]);
}

#[test]
fn frame_results_are_isolated_per_mesh() {
    let state = state_with_texture(7, 0x1234);
    let mut bw = BwVars {
        commands: DrawCommands::new(16, 8),
        vertex_buf: VertexBuffer::new(64, 64),
    };
    let rt = test_target();
    let meshes = vec![
        Mesh { texture_id: 7, vertices: vec![vertex(1), vertex(2), vertex(3)], indices: vec![0, 1, 2] },
        Mesh { texture_id: 42, vertices: vec![vertex(4)], indices: vec![0, 0, 0] },
        Mesh { texture_id: 7, vertices: vec![vertex(5), vertex(6), vertex(7)], indices: vec![2, 1, 0] },
    ];
    let results = add_overlays(&state, &meshes, &mut bw, &rt);
    assert_eq!(results.len(), 3);
    assert!(results[0].is_ok());
    assert_eq!(results[1], Err(DrawError::InvalidTexture(42)));
    assert!(results[2].is_ok());
    // The failed middle mesh dropped nothing around it.
    assert_eq!(bw.commands.draw_command_count, 2);
    assert_eq!(bw.commands.draw_sort_vector.data.len(), 2);
    // Both emitted commands belong to their meshes: consecutive slots, the
    // frame's layer, the resolved texture, and back-to-back arena placements.
    for c in 0..2usize {
        let entry = &bw.commands.draw_sort_vector.data[c];
        assert_eq!(entry.layer, OVERLAY_LAYER);
        assert_eq!(entry.index as usize, c);
        assert_eq!(entry.command, c);
        assert_eq!(bw.commands.commands[c].texture_ids[0], 0x1234);
    }
    assert_eq!(bw.commands.commands[0].vertex_buffer_offset_bytes, 0);
    assert_eq!(bw.commands.commands[0].index_buffer_offset_bytes, 0);
    assert_eq!(bw.commands.commands[1].vertex_buffer_offset_bytes, 128);
    assert_eq!(bw.commands.commands[1].index_buffer_offset_bytes, 12);
    // The first mesh's indices are still in place after the failure.
    assert_eq!(&bw.vertex_buf.index_buffer[0..6], &[0, 1, 2, 0, 0, 0]);
    assert_eq!(&bw.vertex_buf.index_buffer[6..12], &[2, 1, 0, 0, 0, 0]);
}

#[test]
fn oversized_mesh_draws_as_several_commands() {
    let state = state_with_texture(7, 0x1234);
    let mut bw = BwVars {
        commands: DrawCommands::new(16, 8),
        vertex_buf: VertexBuffer::new(64, 64),
    };
    let rt = test_target();
    let count: u32 = 65536 + 10;
    let vertices: Vec<ColoredVertex> = (0..count).map(vertex).collect();
    let mut indices: Vec<u32> = Vec::new();
    for t in 0..(count - 2) / 3 {
        indices.extend_from_slice(&[3 * t, 3 * t + 1, 3 * t + 2]);
    }
    indices.extend_from_slice(&[count - 3, count - 2, count - 1]);
    let mesh = Mesh { texture_id: 7, vertices, indices };
    draw_egui_mesh(OVERLAY_LAYER, &state, &mesh, &mut bw, &rt).unwrap();

    // The mesh needed more than one part, each with its own command and
    // sort entry, all quad-padded.
    let parts = bw.commands.draw_command_count as usize;
    assert!(parts >= 2);
    assert_eq!(bw.commands.draw_sort_vector.data.len(), parts);
    for c in 0..parts {
        let cmd = &bw.commands.commands[c];
        assert_eq!(cmd.allocated_vertex_count % 4, 0);
        assert_eq!(cmd.used_vertex_count, cmd.allocated_vertex_count);
        assert!(cmd.allocated_vertex_count <= 65536 + 4);
        assert_eq!(cmd.texture_ids[0], 0x1234);
        let entry = &bw.commands.draw_sort_vector.data[c];
        assert_eq!(entry.index as usize, c);
        assert_eq!(entry.command, c);
    }
}

#[test]
fn errors_describe_themselves() {
    assert_eq!(DrawError::OutOfDrawCommands.describe(), "Ran out of draw commands");
    assert_eq!(DrawError::InvalidTexture(3).describe(), "Invalid texture ID");
    assert_eq!(DrawError::BadAlignment.describe(), "Bad arena alignment");
    assert_eq!(DrawError::InvalidImageData.describe(), "Invalid image data");
    assert_eq!(DrawError::TextureCreationFailed.describe(), "Could not create texture");
}

#[test]
fn quad_budget_counts_the_frame_exactly() {
    // One triangle pads to one quad; seven vertices with nine indices pad to
    // two quads (eight vertices in fours, twelve index slots in sixes).
    let small = Mesh {
        texture_id: 7,
        vertices: vec![vertex(1), vertex(2), vertex(3)],
        indices: vec![0, 1, 2],
    };
    let bigger = Mesh {
        texture_id: 7,
        vertices: (0..7).map(vertex).collect(),
        indices: vec![0, 1, 2, 2, 3, 4, 4, 5, 6],
    };
    assert_eq!(mesh_quad_budget(&small), Some(1));
    assert_eq!(mesh_quad_budget(&bigger), Some(2));
    let meshes = vec![small, bigger];
    assert_eq!(frame_quad_budget(&meshes), Some(3));
    assert_eq!(frame_quad_budget(&Vec::new()), Some(0));
}

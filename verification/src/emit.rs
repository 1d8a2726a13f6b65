//! Command emitter: packs triangle meshes into the host's quad-oriented
//! draw-command slots.
//!
//! The host draws indexed quads: every command must allocate its vertices in
//! fours and its indices in sixes. A mesh with other counts is padded — the
//! spare index slots are zero-filled so the padding quads collapse to
//! zero-area triangles. Each emitted command is entered into the host's
//! layer-sorted command index, which the host consumes ordered by
//! `(layer, insertion index)`; this subsystem only appends, so same-layer
//! commands keep their emission order.

use vstd::prelude::*;

use crate::arena::MAX_ARENA_ALLOC_BYTES;
use crate::arena::VertexBuffer;
use crate::arena::allocate_indices;
use crate::arena::allocate_vertices;
use crate::bw_vector::BwVector;
use crate::bw_vector::bw_vector_push;
use crate::coord::RenderTarget;
use crate::error::DrawError;
use crate::mesh::ColoredVertex;
use crate::mesh::Mesh;
use crate::mesh::lemma_split_spans_ok;
use crate::mesh::span_ok;
use crate::mesh::split_spans;
use crate::mesh::vertex_words;
use crate::texture::OwnedBwTexture;
use crate::texture::RenderState;

verus! {

/// Bit pattern of the 32-bit float 1.0, the opaque-white multiply color.
pub const F32_ONE_BITS: u32 = 0x3f80_0000;

/// Compositing layer the overlay draws at.
pub const OVERLAY_LAYER: u16 = 0x17;

/// The pre/post subcommand list of a draw command; always empty for this
/// subsystem (its list-head pointer is not modeled).
#[derive(Clone, Copy, PartialEq, Eq, Structural, Debug)]
pub struct DrawSubCommands {
    pub unk: u32,
}

/// One fixed-format draw command as the host reads it. Float-valued shader
/// constants are held as 32-bit bit patterns.
#[derive(Clone, Copy, Debug)]
pub struct DrawCommand {
    pub render_target_id: u32,
    pub is_hd: u8,
    /// Up to 7 texture bindings; only slot 0 is used here.
    pub texture_ids: [usize; 7],
    /// 1 = indexed quad.
    pub draw_mode: u8,
    /// 2 = flat color, 4 = colored/textured.
    pub shader_id: u8,
    pub vertex_buffer_offset_bytes: usize,
    pub index_buffer_offset_bytes: usize,
    pub allocated_vertex_count: u32,
    pub used_vertex_count: u32,
    pub unk3c: u16,
    pub blend_mode: u8,
    pub subcommands_pre: DrawSubCommands,
    pub subcommands_post: DrawSubCommands,
    /// 20 shader constants: multiply color at `[0..4)`, render-target
    /// reciprocal extents at `[0xe, 0xf]`.
    pub shader_constants: [u32; 20],
}

/// One entry of the host's layer-sorted command index.
#[derive(Clone, Copy, PartialEq, Eq, Structural, Debug)]
pub struct DrawSort {
    /// Compositing layer; the host draws low layers first.
    pub layer: u16,
    /// Insertion-order index, the tie-breaker within a layer.
    pub index: u16,
    /// Which command slot the entry points at (a pointer in the host).
    pub command: usize,
}

/// The host's draw-command list: a fixed-capacity slot array, the count of
/// slots used, and the growable sort vector with one entry per command.
pub struct DrawCommands {
    /// The command slots; the length is the fixed capacity.
    pub commands: Vec<DrawCommand>,
    /// Slots used so far this frame.
    pub draw_command_count: u16,
    /// The layer-sorted command index; append-only from here.
    pub draw_sort_vector: BwVector<DrawSort>,
}

impl DrawCommands {
    /// The count fits the capacity and the sort vector carries exactly one
    /// entry per used slot, in slot order.
    pub open spec fn wf(self) -> bool {
        &&& self.commands.len() <= 0xffff
        &&& self.draw_command_count as int <= self.commands.len()
        &&& self.draw_sort_vector.wf()
        &&& self.draw_sort_vector.data.len() == self.draw_command_count
        &&& forall|k: int|
            0 <= k < self.draw_sort_vector.data.len() ==> (#[trigger] self.draw_sort_vector.data@[
                k
            ]).index == k && self.draw_sort_vector.data@[k].command == k
    }

    /// An empty command list with `capacity` slots, as the host lays it out.
    #[verifier::loop_isolation(false)]
    pub fn new(capacity: usize, sort_capacity: usize) -> (r: DrawCommands)
        requires
            capacity <= 0xffff,
            1 <= sort_capacity <= 0x1000_0000,
        ensures
            r.wf(),
            r.commands.len() == capacity,
            r.draw_command_count == 0,
            r.draw_sort_vector.data@ == Seq::<DrawSort>::empty(),
    {
        let mut commands: Vec<DrawCommand> = Vec::new();
        let mut i: usize = 0;
        while i < capacity
            invariant
                i <= capacity,
                commands.len() == i,
            decreases capacity - i,
        {
            commands.push(empty_draw_command());
            i = i + 1;
        }
        DrawCommands {
            commands,
            draw_command_count: 0,
            draw_sort_vector: BwVector::with_capacity(sort_capacity),
        }
    }
}

/// A zeroed command slot, as the host's list holds before use.
pub fn empty_draw_command() -> DrawCommand {
    DrawCommand {
        render_target_id: 0,
        is_hd: 0,
        texture_ids: [0; 7],
        draw_mode: 0,
        shader_id: 0,
        vertex_buffer_offset_bytes: 0,
        index_buffer_offset_bytes: 0,
        allocated_vertex_count: 0,
        used_vertex_count: 0,
        unk3c: 0,
        blend_mode: 0,
        subcommands_pre: DrawSubCommands { unk: 0 },
        subcommands_post: DrawSubCommands { unk: 0 },
        shader_constants: [0; 20],
    }
}

/// The host state the emitter writes into: the command list and the shared
/// vertex/index arenas.
pub struct BwVars {
    pub commands: DrawCommands,
    pub vertex_buf: VertexBuffer,
}

impl BwVars {
    /// Both host structures are well-formed.
    pub open spec fn wf(self) -> bool {
        self.commands.wf() && self.vertex_buf.wf()
    }
}

/// The least multiple of 4 that is at least `val`.
pub open spec fn spec_align4(val: int) -> int {
    if val % 4 == 0 {
        val
    } else {
        val + (4 - val % 4)
    }
}

/// The least multiple of 6 that is at least `val`.
pub open spec fn spec_align6(val: int) -> int {
    if val % 6 == 0 {
        val
    } else {
        val + (6 - val % 6)
    }
}

/// Rounds `val` up to a multiple of 4. The host computes this with wrapping
/// bit tricks, so the three values above `0xffff_fffc` wrap around to 0; the
/// contract keeps that behaviour.
pub fn align4(val: u32) -> (r: u32)
    ensures
        val <= 0xffff_fffc ==> r == spec_align4(val as int),
        val > 0xffff_fffc ==> r == 0,
{
    if val > 0xffff_fffc {
        0
    } else if val % 4 == 0 {
        val
    } else {
        val + (4 - val % 4)
    }
}

/// Rounds `val` up to a multiple of 6.
pub fn align6(val: u32) -> (r: u32)
    requires
        val <= 0xffff_fffa,
    ensures
        r == spec_align6(val as int),
{
    let rem = val % 6;
    if rem == 0 {
        val
    } else {
        val + (6 - rem)
    }
}

/// Quads one mesh needs: enough fours of vertices and sixes of indices.
pub open spec fn quad_count_of(vertex_count: int, index_count: int) -> int {
    let v = spec_align4(vertex_count) / 4;
    let i = spec_align6(index_count) / 6;
    if v >= i {
        v
    } else {
        i
    }
}

/// Takes the next slot of the host's command list and enters it into the
/// layer-sorted index, keyed by `layer` with the running insertion index as
/// tie-breaker. When the list is full nothing is touched — in particular the
/// sort vector — and the caller reports `OutOfDrawCommands`.
pub fn new_draw_command(commands: &mut DrawCommands, layer: u16) -> (r: Option<usize>)
    requires
        old(commands).wf(),
    ensures
        final(commands).wf(),
        old(commands).draw_command_count as int == old(commands).commands.len() ==> r is None
            && *final(commands) == *old(commands),
        (old(commands).draw_command_count as int) < old(commands).commands.len() ==> (r matches Some(
            idx,
        ) && {
            &&& idx == old(commands).draw_command_count
            &&& final(commands).draw_command_count == old(commands).draw_command_count + 1
            &&& final(commands).commands@ == old(commands).commands@
            &&& final(commands).draw_sort_vector.data@ == old(
                commands,
            ).draw_sort_vector.data@.push(
                DrawSort {
                    layer,
                    index: old(commands).draw_command_count,
                    command: old(commands).draw_command_count as usize,
                },
            )
        }),
{
    let index = commands.draw_command_count as usize;
    if index >= commands.commands.len() {
        return None;
    }
    commands.draw_command_count = (index as u16) + 1;
    let draw_sort_index = commands.draw_sort_vector.data.len() as u16;
    bw_vector_push(
        &mut commands.draw_sort_vector,
        DrawSort { layer, index: draw_sort_index, command: index },
    );
    Some(index)
}

/// Writes the render target's reciprocal extents into shader constants
/// `0xe` and `0xf`, where the host's shader reads them.
pub fn set_render_target_wh_recip(command: &mut DrawCommand, render_target: &RenderTarget)
    ensures
        final(command).shader_constants@ == old(command).shader_constants@.update(
            0xe,
            render_target.w_recip_bits,
        ).update(0xf, render_target.h_recip_bits),
        final(command).render_target_id == old(command).render_target_id,
        final(command).is_hd == old(command).is_hd,
        final(command).texture_ids == old(command).texture_ids,
        final(command).draw_mode == old(command).draw_mode,
        final(command).shader_id == old(command).shader_id,
        final(command).vertex_buffer_offset_bytes == old(command).vertex_buffer_offset_bytes,
        final(command).index_buffer_offset_bytes == old(command).index_buffer_offset_bytes,
        final(command).allocated_vertex_count == old(command).allocated_vertex_count,
        final(command).used_vertex_count == old(command).used_vertex_count,
        final(command).unk3c == old(command).unk3c,
        final(command).blend_mode == old(command).blend_mode,
        final(command).subcommands_pre == old(command).subcommands_pre,
        final(command).subcommands_post == old(command).subcommands_post,
{
    command.shader_constants[0xe] = render_target.w_recip_bits;
    command.shader_constants[0xf] = render_target.h_recip_bits;
}

/// The 20 shader constants of an overlay mesh command: opaque-white multiply
/// color in slots 0 to 3 and the render target's reciprocal extents in
/// slots 0xe and 0xf.
pub open spec fn mesh_shader_constants(render_target: RenderTarget) -> Seq<u32> {
    seq![
        F32_ONE_BITS,
        F32_ONE_BITS,
        F32_ONE_BITS,
        F32_ONE_BITS,
        0u32,
        0u32,
        0u32,
        0u32,
        0u32,
        0u32,
        0u32,
        0u32,
        0u32,
        0u32,
        render_target.w_recip_bits,
        render_target.h_recip_bits,
        0u32,
        0u32,
        0u32,
        0u32,
    ]
}

/// What one emitted mesh command must hold, given where its data was placed.
pub open spec fn is_mesh_draw_command(
    cmd: DrawCommand,
    render_target: RenderTarget,
    texture_handle: usize,
    vertex_offset: int,
    index_offset: int,
    vertex_count: int,
) -> bool {
    &&& cmd.render_target_id == render_target.id
    &&& cmd.is_hd == 0
    &&& cmd.texture_ids@ == seq![texture_handle, 0usize, 0usize, 0usize, 0usize, 0usize, 0usize]
    &&& cmd.draw_mode == 1
    &&& cmd.shader_id == 4
    &&& cmd.vertex_buffer_offset_bytes == vertex_offset
    &&& cmd.index_buffer_offset_bytes == index_offset
    &&& cmd.allocated_vertex_count == vertex_count
    &&& cmd.used_vertex_count == vertex_count
    &&& cmd.unk3c == 0xffff
    &&& cmd.blend_mode == 0
    &&& cmd.subcommands_pre == (DrawSubCommands { unk: 0 })
    &&& cmd.subcommands_post == (DrawSubCommands { unk: 0 })
    &&& cmd.shader_constants@ == mesh_shader_constants(render_target)
}

/// Everything one call of the quad-padded emit step does to the host state:
/// how the arenas advance and what they hold, and what the command list
/// takes — or that it was full and untouched. `pre` and `post` are the host
/// state before and after, `r` the call's result.
pub open spec fn mesh_emit_effects(
    pre: BwVars,
    post: BwVars,
    r: Result<(), DrawError>,
    layer: u16,
    indices: Seq<u32>,
    vertices: Seq<ColoredVertex>,
    texture_handle: usize,
    render_target: RenderTarget,
) -> bool {
    let qc = quad_count_of(vertices.len() as int, indices.len() as int);
    let voff = pre.vertex_buf.allocated_size_bytes as int;
    let ioff = pre.vertex_buf.index_buffer_allocated_bytes as int;
    let vwords = voff / 4;
    let ientries = ioff / 2;
    // Arena effects, failure or not: offsets advance by the padded counts,
    // earlier allocations keep their contents, the true data sits at the
    // start of each allocation and the spare index slots are zero.
    &&& post.vertex_buf.allocated_size_bytes == voff + qc * 128
    &&& post.vertex_buf.index_buffer_allocated_bytes == ioff + qc * 12
    &&& post.vertex_buf.buffer@.subrange(0, vwords) == pre.vertex_buf.buffer@.subrange(0, vwords)
    &&& post.vertex_buf.index_buffer@.subrange(0, ientries)
        == pre.vertex_buf.index_buffer@.subrange(0, ientries)
    &&& forall|v: int, w: int|
        #![trigger vertex_words(vertices[v])[w]]
        0 <= v < vertices.len() && 0 <= w < 5 ==> post.vertex_buf.buffer@[vwords + 5 * v + w]
            == vertex_words(vertices[v])[w]
    &&& forall|k: int|
        0 <= k < indices.len() ==> post.vertex_buf.index_buffer@[ientries + k] == (
        #[trigger] indices[k]) as u16
    &&& forall|p: int|
        ientries + indices.len() <= p < ientries + qc * 6 ==> post.vertex_buf.index_buffer@[p]
            == 0
    // The command list takes the mesh unless it is already full; a full list
    // changes nothing there, the sort vector included.
    &&& (pre.commands.draw_command_count as int == pre.commands.commands.len()) == (r is Err)
    &&& r is Err ==> r == Err::<(), DrawError>(DrawError::OutOfDrawCommands) && post.commands
        == pre.commands
    &&& r is Ok ==> {
        let slot = pre.commands.draw_command_count as int;
        &&& post.commands.draw_command_count == slot + 1
        &&& post.commands.draw_sort_vector.data@ == pre.commands.draw_sort_vector.data@.push(
            DrawSort {
                layer,
                index: pre.commands.draw_command_count,
                command: pre.commands.draw_command_count as usize,
            },
        )
        &&& post.commands.commands@ == pre.commands.commands@.update(
            slot,
            post.commands.commands@[slot],
        )
        &&& is_mesh_draw_command(
            post.commands.commands@[slot],
            render_target,
            texture_handle,
            voff,
            ioff,
            qc * 4,
        )
    }
}

/// Emits one mesh whose indices already fit the 16-bit index type: allocates
/// quad-padded room in both arenas, writes the true vertices and indices at
/// the start of the allocations, zero-fills the spare index slots, and fills
/// one draw-command slot. A full command list is the one failure; the arena
/// space is consumed either way, but the command list and its sort vector
/// are then left untouched.
#[verifier::loop_isolation(false)]
#[verifier::rlimit(100)]
pub fn draw_egui_mesh_main(
    layer: u16,
    indices: &Vec<u32>,
    vertices: &Vec<ColoredVertex>,
    texture: &OwnedBwTexture,
    bw: &mut BwVars,
    render_target: &RenderTarget,
) -> (r: Result<(), DrawError>)
    requires
        old(bw).wf(),
        vertices.len() < 0x10000,
        indices.len() <= 0x00ff_ffff,
        forall|k: int| 0 <= k < indices.len() ==> (#[trigger] indices@[k]) < 0x10000,
        old(bw).vertex_buf.allocated_size_bytes + quad_count_of(
            vertices.len() as int,
            indices.len() as int,
        ) * 128 <= MAX_ARENA_ALLOC_BYTES,
        old(bw).vertex_buf.index_buffer_allocated_bytes + quad_count_of(
            vertices.len() as int,
            indices.len() as int,
        ) * 12 <= MAX_ARENA_ALLOC_BYTES,
    ensures
        final(bw).wf(),
        mesh_emit_effects(
            *old(bw),
            *final(bw),
            r,
            layer,
            indices@,
            vertices@,
            texture.texture,
            *render_target,
        ),
{
    let init_vertex_count = align4(vertices.len() as u32);
    let init_index_count = align6(indices.len() as u32);
    let quad_count = if init_vertex_count / 4 >= init_index_count / 6 {
        init_vertex_count / 4
    } else {
        init_index_count / 6
    };
    let ghost qc = quad_count_of(vertices.len() as int, indices.len() as int);
    proof {
        assert(quad_count == qc);
        assert(spec_align4(vertices.len() as int) >= vertices.len());
        assert(spec_align6(indices.len() as int) >= indices.len());
        assert(qc * 4 >= spec_align4(vertices.len() as int));
        assert(qc * 6 >= spec_align6(indices.len() as int));
    }
    let vertex_count = quad_count * 4;
    let index_count = quad_count * 6;
    let vertex_alloc = allocate_vertices(&mut bw.vertex_buf, 0x8, vertex_count);
    let index_alloc = allocate_indices(&mut bw.vertex_buf, index_count);
    let ghost va = bw.vertex_buf;
    let mut v: usize = 0;
    while v < vertices.len()
        invariant
            v <= vertices.len(),
            bw.vertex_buf.buffer@.len() == va.buffer@.len(),
            forall|j: int, w: int|
                #![trigger vertex_words(vertices@[j])[w]]
                0 <= j < v && 0 <= w < 5 ==> bw.vertex_buf.buffer@[vertex_alloc.word_offset() + 5
                    * j + w] == vertex_words(vertices@[j])[w],
            forall|p: int|
                0 <= p < va.buffer@.len() && !(vertex_alloc.word_offset() <= p
                    < vertex_alloc.word_offset() + 5 * v) ==> bw.vertex_buf.buffer@[p]
                    == va.buffer@[p],
            bw.vertex_buf.buffer_size_u32s == va.buffer_size_u32s,
            bw.vertex_buf.allocated_size_bytes == va.allocated_size_bytes,
            bw.vertex_buf.heap_allocated == va.heap_allocated,
            bw.vertex_buf.index_buffer == va.index_buffer,
            bw.vertex_buf.index_buf_size_u16s == va.index_buf_size_u16s,
            bw.vertex_buf.index_buffer_allocated_bytes == va.index_buffer_allocated_bytes,
            bw.vertex_buf.index_buf_heap_allocated == va.index_buf_heap_allocated,
            bw.commands == old(bw).commands,
        decreases vertices.len() - v,
    {
        proof {
            assert(5 * (v as int) + 4 < vertex_alloc.length);
        }
        let vert = vertices[v];
        vertex_alloc.set_word(&mut bw.vertex_buf, 5 * v, vert.pos[0]);
        vertex_alloc.set_word(&mut bw.vertex_buf, 5 * v + 1, vert.pos[1]);
        vertex_alloc.set_word(&mut bw.vertex_buf, 5 * v + 2, vert.texture[0]);
        vertex_alloc.set_word(&mut bw.vertex_buf, 5 * v + 3, vert.texture[1]);
        vertex_alloc.set_word(&mut bw.vertex_buf, 5 * v + 4, vert.color);
        v = v + 1;
    }
    let ghost vb = bw.vertex_buf;
    let mut k: usize = 0;
    while k < indices.len()
        invariant
            k <= indices.len(),
            bw.vertex_buf.index_buffer@.len() == vb.index_buffer@.len(),
            forall|j: int|
                0 <= j < k ==> bw.vertex_buf.index_buffer@[index_alloc.entry_offset() + j] == (
                #[trigger] indices@[j]) as u16,
            forall|p: int|
                0 <= p < vb.index_buffer@.len() && !(index_alloc.entry_offset() <= p
                    < index_alloc.entry_offset() + k) ==> bw.vertex_buf.index_buffer@[p]
                    == vb.index_buffer@[p],
            bw.vertex_buf.buffer == vb.buffer,
            bw.vertex_buf.buffer_size_u32s == vb.buffer_size_u32s,
            bw.vertex_buf.allocated_size_bytes == vb.allocated_size_bytes,
            bw.vertex_buf.heap_allocated == vb.heap_allocated,
            bw.vertex_buf.index_buf_size_u16s == vb.index_buf_size_u16s,
            bw.vertex_buf.index_buffer_allocated_bytes == vb.index_buffer_allocated_bytes,
            bw.vertex_buf.index_buf_heap_allocated == vb.index_buf_heap_allocated,
            bw.commands == old(bw).commands,
        decreases indices.len() - k,
    {
        proof {
            assert((k as int) < index_alloc.length);
        }
        let idx16 = indices[k] as u16;
        index_alloc.set_entry(&mut bw.vertex_buf, k, idx16);
        k = k + 1;
    }
    index_alloc.zero_after(&mut bw.vertex_buf, indices.len());
    proof {
        let vwords = old(bw).vertex_buf.allocated_size_bytes as int / 4;
        let ientries = old(bw).vertex_buf.index_buffer_allocated_bytes as int / 2;
        assert(4 * vwords == old(bw).vertex_buf.allocated_size_bytes);
        assert(vwords <= old(bw).vertex_buf.buffer.len());
        assert forall|p: int| 0 <= p < vwords implies bw.vertex_buf.buffer@[p] == old(
            bw,
        ).vertex_buf.buffer@[p] by {
            assert(va.buffer@.subrange(0, old(bw).vertex_buf.buffer.len() as int)[p]
                == va.buffer@[p]);
        }
        assert(bw.vertex_buf.buffer@.subrange(0, vwords) =~= old(
            bw,
        ).vertex_buf.buffer@.subrange(0, vwords));
        assert(2 * ientries == old(bw).vertex_buf.index_buffer_allocated_bytes);
        assert(ientries <= old(bw).vertex_buf.index_buffer.len());
        assert forall|p: int| 0 <= p < ientries implies bw.vertex_buf.index_buffer@[p] == old(
            bw,
        ).vertex_buf.index_buffer@[p] by {
            assert(vb.index_buffer@.subrange(0, old(bw).vertex_buf.index_buffer.len() as int)[p]
                == vb.index_buffer@[p]);
        }
        assert(bw.vertex_buf.index_buffer@.subrange(0, ientries) =~= old(
            bw,
        ).vertex_buf.index_buffer@.subrange(0, ientries));
    }
    match new_draw_command(&mut bw.commands, layer) {
        None => {
            let r: Result<(), DrawError> = Err(DrawError::OutOfDrawCommands);
            proof {
                assert(mesh_emit_effects(
                    *old(bw),
                    *bw,
                    r,
                    layer,
                    indices@,
                    vertices@,
                    texture.texture,
                    *render_target,
                ));
            }
            r
        },
        Some(idx) => {
            let mut constants: [u32; 20] = [0; 20];
            constants[0] = F32_ONE_BITS;
            constants[1] = F32_ONE_BITS;
            constants[2] = F32_ONE_BITS;
            constants[3] = F32_ONE_BITS;
            let mut texture_ids: [usize; 7] = [0; 7];
            texture_ids[0] = texture.bw();
            let mut command = DrawCommand {
                render_target_id: render_target.id,
                is_hd: 0,
                texture_ids,
                draw_mode: 1,
                shader_id: 4,
                vertex_buffer_offset_bytes: vertex_alloc.byte_offset,
                index_buffer_offset_bytes: index_alloc.byte_offset,
                allocated_vertex_count: vertex_count,
                used_vertex_count: vertex_count,
                unk3c: 0xffff,
                blend_mode: 0,
                subcommands_pre: DrawSubCommands { unk: 0 },
                subcommands_post: DrawSubCommands { unk: 0 },
                shader_constants: constants,
            };
            set_render_target_wh_recip(&mut command, render_target);
            proof {
                assert(command.shader_constants@ =~= mesh_shader_constants(*render_target));
                assert(command.texture_ids@ =~= seq![
                    texture.texture,
                    0usize,
                    0usize,
                    0usize,
                    0usize,
                    0usize,
                    0usize,
                ]);
            }
            bw.commands.commands[idx] = command;
            let r: Result<(), DrawError> = Ok(());
            proof {
                assert(mesh_emit_effects(
                    *old(bw),
                    *bw,
                    r,
                    layer,
                    indices@,
                    vertices@,
                    texture.texture,
                    *render_target,
                ));
            }
            r
        },
    }
}


/// Quads the parts of a split mesh need, part by part: each span's vertex
/// range padded to fours and its indices padded to sixes.
pub open spec fn split_quads(spans: Seq<(int, int, int, int)>) -> int
    decreases spans.len(),
{
    if spans.len() == 0 {
        0
    } else {
        quad_count_of(spans[0].3 - spans[0].2 + 1, 3 * (spans[0].1 - spans[0].0)) + split_quads(
            spans.drop_first(),
        )
    }
}

/// Quads one mesh consumes from the arenas in total, split or not.
pub open spec fn mesh_quads(m: Mesh) -> int {
    if m.vertices.len() < 0x10000 {
        quad_count_of(m.vertices.len() as int, m.indices.len() as int)
    } else {
        split_quads(split_spans(m))
    }
}

/// Quads a whole frame's meshes consume together.
pub open spec fn frame_quads(meshes: Seq<Mesh>) -> int
    decreases meshes.len(),
{
    if meshes.len() == 0 {
        0
    } else {
        mesh_quads(meshes[0]) + frame_quads(meshes.drop_first())
    }
}

/// A quad count is never negative.
pub proof fn lemma_quad_count_nonneg(vc: int, ic: int)
    requires
        vc >= 0,
        ic >= 0,
    ensures
        quad_count_of(vc, ic) >= 0,
{
    assert(spec_align4(vc) >= 0);
    assert(spec_align6(ic) >= 0);
}

/// The split's quad total is never negative.
pub proof fn lemma_split_quads_nonneg(m: Mesh, spans: Seq<(int, int, int, int)>)
    requires
        forall|s: int| 0 <= s < spans.len() ==> span_ok(m, #[trigger] spans[s]),
    ensures
        split_quads(spans) >= 0,
    decreases spans.len(),
{
    if spans.len() > 0 {
        assert(span_ok(m, spans[0]));
        lemma_quad_count_nonneg(spans[0].3 - spans[0].2 + 1, 3 * (spans[0].1 - spans[0].0));
        assert(forall|s: int|
            0 <= s < spans.drop_first().len() ==> span_ok(
                m,
                #[trigger] spans.drop_first()[s],
            ));
        lemma_split_quads_nonneg(m, spans.drop_first());
    }
}

/// A mesh's quad total is never negative.
pub proof fn lemma_mesh_quads_nonneg(m: Mesh)
    requires
        m.wf(),
        m.splittable(),
    ensures
        mesh_quads(m) >= 0,
{
    if m.vertices.len() < 0x10000 {
        lemma_quad_count_nonneg(m.vertices.len() as int, m.indices.len() as int);
    } else {
        lemma_split_spans_ok(m);
        lemma_split_quads_nonneg(m, split_spans(m));
    }
}

/// A frame's quad total is never negative.
pub proof fn lemma_frame_quads_nonneg(meshes: Seq<Mesh>)
    requires
        forall|j: int|
            0 <= j < meshes.len() ==> (#[trigger] meshes[j]).wf() && meshes[j].splittable(),
    ensures
        frame_quads(meshes) >= 0,
    decreases meshes.len(),
{
    if meshes.len() > 0 {
        lemma_mesh_quads_nonneg(meshes[0]);
        assert(forall|j: int|
            0 <= j < meshes.drop_first().len() ==> (#[trigger] meshes.drop_first()[j]).wf()
                && meshes.drop_first()[j].splittable());
        lemma_frame_quads_nonneg(meshes.drop_first());
    }
}

/// Draw-command slots one mesh takes: one per part of its split.
pub open spec fn mesh_parts(m: Mesh) -> int {
    if m.vertices.len() < 0x10000 {
        1
    } else {
        split_spans(m).len() as int
    }
}

/// Draw-command slots a frame's meshes take together.
pub open spec fn frame_parts(meshes: Seq<Mesh>) -> int
    decreases meshes.len(),
{
    if meshes.len() == 0 {
        0
    } else {
        mesh_parts(meshes[0]) + frame_parts(meshes.drop_first())
    }
}

/// Quads the frame's meshes with a held texture consume; a mesh whose id
/// the cache does not hold is dropped and consumes nothing.
pub open spec fn frame_quads_present(
    meshes: Seq<Mesh>,
    textures: Map<u64, OwnedBwTexture>,
) -> int
    decreases meshes.len(),
{
    if meshes.len() == 0 {
        0
    } else {
        (if textures.contains_key(meshes[0].texture_id) {
            mesh_quads(meshes[0])
        } else {
            0
        }) + frame_quads_present(meshes.drop_first(), textures)
    }
}

/// Command slots the frame's meshes with a held texture take.
pub open spec fn frame_parts_present(
    meshes: Seq<Mesh>,
    textures: Map<u64, OwnedBwTexture>,
) -> int
    decreases meshes.len(),
{
    if meshes.len() == 0 {
        0
    } else {
        (if textures.contains_key(meshes[0].texture_id) {
            mesh_parts(meshes[0])
        } else {
            0
        }) + frame_parts_present(meshes.drop_first(), textures)
    }
}

/// Splitting the mesh sequence anywhere splits the present-slot total.
proof fn lemma_frame_parts_present_decompose(
    meshes: Seq<Mesh>,
    textures: Map<u64, OwnedBwTexture>,
    s: int,
)
    requires
        0 <= s <= meshes.len(),
    ensures
        frame_parts_present(meshes, textures) == frame_parts_present(
            meshes.subrange(0, s),
            textures,
        ) + frame_parts_present(meshes.subrange(s, meshes.len() as int), textures),
    decreases s,
{
    if s == 0 {
        assert(meshes.subrange(0, 0) =~= Seq::<Mesh>::empty());
        assert(meshes.subrange(0, meshes.len() as int) =~= meshes);
    } else {
        let df = meshes.drop_first();
        lemma_frame_parts_present_decompose(df, textures, s - 1);
        assert(df.subrange(0, s - 1) =~= meshes.subrange(0, s).drop_first());
        assert(df.subrange(s - 1, df.len() as int) =~= meshes.subrange(
            s,
            meshes.len() as int,
        ));
        assert(meshes.subrange(0, s)[0] == meshes[0]);
    }
}

/// Splitting the mesh sequence anywhere splits the present-quad total.
proof fn lemma_frame_quads_present_decompose(
    meshes: Seq<Mesh>,
    textures: Map<u64, OwnedBwTexture>,
    s: int,
)
    requires
        0 <= s <= meshes.len(),
    ensures
        frame_quads_present(meshes, textures) == frame_quads_present(
            meshes.subrange(0, s),
            textures,
        ) + frame_quads_present(meshes.subrange(s, meshes.len() as int), textures),
    decreases s,
{
    if s == 0 {
        assert(meshes.subrange(0, 0) =~= Seq::<Mesh>::empty());
        assert(meshes.subrange(0, meshes.len() as int) =~= meshes);
    } else {
        let df = meshes.drop_first();
        lemma_frame_quads_present_decompose(df, textures, s - 1);
        assert(df.subrange(0, s - 1) =~= meshes.subrange(0, s).drop_first());
        assert(df.subrange(s - 1, df.len() as int) =~= meshes.subrange(
            s,
            meshes.len() as int,
        ));
        assert(meshes.subrange(0, s)[0] == meshes[0]);
    }
}

/// The present-slot total is never negative.
proof fn lemma_frame_parts_present_nonneg(meshes: Seq<Mesh>, textures: Map<u64, OwnedBwTexture>)
    ensures
        frame_parts_present(meshes, textures) >= 0,
    decreases meshes.len(),
{
    if meshes.len() > 0 {
        lemma_frame_parts_present_nonneg(meshes.drop_first(), textures);
    }
}

/// A frame's slot total is never negative.
pub proof fn lemma_frame_parts_nonneg(meshes: Seq<Mesh>)
    ensures
        frame_parts(meshes) >= 0,
    decreases meshes.len(),
{
    if meshes.len() > 0 {
        lemma_frame_parts_nonneg(meshes.drop_first());
    }
}

/// Splitting a span sequence anywhere splits its quad total.
pub proof fn lemma_split_quads_decompose(spans: Seq<(int, int, int, int)>, s: int)
    requires
        0 <= s <= spans.len(),
    ensures
        split_quads(spans) == split_quads(spans.subrange(0, s)) + split_quads(
            spans.subrange(s, spans.len() as int),
        ),
    decreases s,
{
    if s == 0 {
        assert(spans.subrange(0, 0) =~= Seq::<(int, int, int, int)>::empty());
        assert(spans.subrange(0, spans.len() as int) =~= spans);
    } else {
        let df = spans.drop_first();
        lemma_split_quads_decompose(df, s - 1);
        assert(df.subrange(0, s - 1) =~= spans.subrange(0, s).drop_first());
        assert(df.subrange(s - 1, df.len() as int) =~= spans.subrange(
            s,
            spans.len() as int,
        ));
        assert(spans.subrange(0, s)[0] == spans[0]);
        assert(split_quads(spans.subrange(0, s)) == quad_count_of(
            spans[0].3 - spans[0].2 + 1,
            3 * (spans[0].1 - spans[0].0),
        ) + split_quads(spans.subrange(0, s).drop_first()));
    }
}

/// Vertex-arena byte offset where part `s` of the mesh's split lands, given
/// the host state before the mesh was drawn.
pub open spec fn split_part_voff(pre: BwVars, m: Mesh, s: int) -> int {
    pre.vertex_buf.allocated_size_bytes + split_quads(split_spans(m).subrange(0, s)) * 128
}

/// Index-arena byte offset where part `s` of the mesh's split lands.
pub open spec fn split_part_ioff(pre: BwVars, m: Mesh, s: int) -> int {
    pre.vertex_buf.index_buffer_allocated_bytes + split_quads(split_spans(m).subrange(0, s))
        * 12
}

/// What part `s` of the mesh's split leaves in the arenas: its slice of the
/// original vertices packed at the part's vertex offset, its indices —
/// rebased by the part's lowest vertex — at the part's index offset, and
/// zero in the padding slots beyond them.
pub open spec fn split_part_arena_effects(pre: BwVars, post: BwVars, m: Mesh, s: int) -> bool {
    let e = split_spans(m)[s];
    let si = 3 * (e.1 - e.0);
    let qc = quad_count_of(e.3 - e.2 + 1, si);
    let vwords = split_part_voff(pre, m, s) / 4;
    let ientries = split_part_ioff(pre, m, s) / 2;
    &&& forall|v: int, w: int|
        #![trigger vertex_words(m.vertices@[v])[w]]
        e.2 <= v <= e.3 && 0 <= w < 5 ==> post.vertex_buf.buffer@[vwords + 5 * (v - e.2) + w]
            == vertex_words(m.vertices@[v])[w]
    &&& forall|k: int|
        3 * e.0 <= k < 3 * e.1 ==> post.vertex_buf.index_buffer@[ientries + (k - 3 * e.0)]
            == ((#[trigger] m.indices@[k]) - e.2) as u16
    &&& forall|p: int|
        ientries + si <= p < ientries + qc * 6 ==> post.vertex_buf.index_buffer@[p] == 0
}

/// The command slot and sort entry part `s` of the split took, when every
/// part of the mesh was drawn: slot `pre count + s`, pointing at the part's
/// arena placements.
pub open spec fn split_part_command(
    pre: BwVars,
    post: BwVars,
    m: Mesh,
    s: int,
    layer: u16,
    texture_handle: usize,
    render_target: RenderTarget,
) -> bool {
    let e = split_spans(m)[s];
    let qc = quad_count_of(e.3 - e.2 + 1, 3 * (e.1 - e.0));
    let slot = pre.commands.draw_command_count + s;
    &&& is_mesh_draw_command(
        post.commands.commands@[slot],
        render_target,
        texture_handle,
        split_part_voff(pre, m, s),
        split_part_ioff(pre, m, s),
        qc * 4,
    )
    &&& post.commands.draw_sort_vector.data@[slot] == (DrawSort {
        layer,
        index: slot as u16,
        command: slot as usize,
    })
}

/// Slot `c` of the command list holds one of this mesh's part commands:
/// the full record of some part of its split, with that part's arena
/// placements. Which part sits where depends on which parts found a free
/// slot; every taken slot belongs to some part.
pub open spec fn holds_split_part_command(
    pre: BwVars,
    post: BwVars,
    m: Mesh,
    c: int,
    texture_handle: usize,
    render_target: RenderTarget,
) -> bool {
    exists|s: int|
        #![trigger split_part_voff(pre, m, s)]
        0 <= s < split_spans(m).len() && {
            let e = split_spans(m)[s];
            let qc = quad_count_of(e.3 - e.2 + 1, 3 * (e.1 - e.0));
            is_mesh_draw_command(
                post.commands.commands@[c],
                render_target,
                texture_handle,
                split_part_voff(pre, m, s),
                split_part_ioff(pre, m, s),
                qc * 4,
            )
        }
}

/// Largest quad total a frame budget reports as affordable: the whole
/// modeled arena (`MAX_ARENA_ALLOC_BYTES`) at 128 vertex bytes per quad.
pub const MAX_FRAME_QUADS: u64 = 0x0020_0000;

/// Computes one mesh's quad total, `mesh_quads`, executably — splitting the
/// mesh the same way the emitter will — so an unverified caller can test the
/// emitter's arena budget before asking it to draw. `None` means the mesh
/// alone is over the modeled arena's whole budget.
#[verifier::loop_isolation(false)]
pub fn mesh_quad_budget(mesh: &Mesh) -> (r: Option<u64>)
    requires
        mesh.wf(),
        mesh.splittable(),
        mesh.indices.len() <= 0x00ff_ffff,
    ensures
        r matches Some(q) ==> q == mesh_quads(*mesh) && q <= MAX_FRAME_QUADS,
        r is None ==> mesh_quads(*mesh) > MAX_FRAME_QUADS,
{
    if mesh.vertices.len() < 0x10000 {
        let qa = align4(mesh.vertices.len() as u32) / 4;
        let qi = align6(mesh.indices.len() as u32) / 6;
        let qc: u64 = if qa >= qi {
            qa as u64
        } else {
            qi as u64
        };
        proof {
            assert(qc == quad_count_of(mesh.vertices.len() as int, mesh.indices.len() as int));
        }
        if qc > MAX_FRAME_QUADS {
            None
        } else {
            Some(qc)
        }
    } else {
        let subs = mesh.split_to_u16();
        let ghost spans = split_spans(*mesh);
        proof {
            lemma_split_spans_ok(*mesh);
            assert(spans.subrange(0, spans.len() as int) =~= spans);
        }
        let mut acc: u64 = 0;
        let mut s: usize = 0;
        while s < subs.len()
            invariant
                s <= subs.len(),
                acc <= MAX_FRAME_QUADS,
                acc + split_quads(spans.subrange(s as int, spans.len() as int)) == split_quads(
                    spans,
                ),
            decreases subs.len() - s,
        {
            let ghost rem = spans.subrange(s as int, spans.len() as int);
            proof {
                assert(rem[0] == spans[s as int]);
                assert(rem.drop_first() =~= spans.subrange(s as int + 1, spans.len() as int));
                assert(span_ok(*mesh, spans[s as int]));
                assert(forall|j: int|
                    0 <= j < rem.drop_first().len() ==> span_ok(
                        *mesh,
                        #[trigger] rem.drop_first()[j],
                    ));
                lemma_split_quads_nonneg(*mesh, rem.drop_first());
                assert(subs@[s as int].indices.len() <= mesh.indices.len());
                assert(split_quads(rem) == quad_count_of(
                    subs@[s as int].vertices.len() as int,
                    subs@[s as int].indices.len() as int,
                ) + split_quads(rem.drop_first()));
            }
            let sub = &subs[s];
            let qa = align4(sub.vertices.len() as u32) / 4;
            let qi = align6(sub.indices.len() as u32) / 6;
            let qc: u64 = if qa >= qi {
                qa as u64
            } else {
                qi as u64
            };
            proof {
                assert(qc == quad_count_of(
                    sub.vertices.len() as int,
                    sub.indices.len() as int,
                ));
            }
            if acc + qc > MAX_FRAME_QUADS {
                return None;
            }
            acc = acc + qc;
            s = s + 1;
        }
        proof {
            assert(spans.subrange(spans.len() as int, spans.len() as int) =~= Seq::<
                (int, int, int, int),
            >::empty());
        }
        Some(acc)
    }
}

/// Computes a whole frame's quad total, `frame_quads`, executably, so the
/// driver can test `add_overlays`' arena budget before calling it. `None`
/// means the frame is over the modeled arena's whole budget.
#[verifier::loop_isolation(false)]
pub fn frame_quad_budget(meshes: &Vec<Mesh>) -> (r: Option<u64>)
    requires
        forall|j: int|
            0 <= j < meshes.len() ==> (#[trigger] meshes@[j]).wf() && meshes@[j].splittable()
                && meshes@[j].indices.len() <= 0x00ff_ffff,
    ensures
        r matches Some(q) ==> q == frame_quads(meshes@) && q <= MAX_FRAME_QUADS,
        r is None ==> frame_quads(meshes@) > MAX_FRAME_QUADS,
{
    proof {
        assert(meshes@.subrange(0, meshes@.len() as int) =~= meshes@);
    }
    let mut acc: u64 = 0;
    let mut m: usize = 0;
    while m < meshes.len()
        invariant
            m <= meshes.len(),
            acc <= MAX_FRAME_QUADS,
            acc + frame_quads(meshes@.subrange(m as int, meshes@.len() as int)) == frame_quads(
                meshes@,
            ),
        decreases meshes.len() - m,
    {
        let ghost rem = meshes@.subrange(m as int, meshes@.len() as int);
        proof {
            assert(rem[0] == meshes@[m as int]);
            assert(rem.drop_first() =~= meshes@.subrange(m as int + 1, meshes@.len() as int));
            assert(forall|j: int|
                0 <= j < rem.drop_first().len() ==> (#[trigger] rem.drop_first()[j]).wf()
                    && rem.drop_first()[j].splittable());
            lemma_frame_quads_nonneg(rem.drop_first());
            lemma_mesh_quads_nonneg(meshes@[m as int]);
            assert(frame_quads(rem) == mesh_quads(meshes@[m as int]) + frame_quads(
                rem.drop_first(),
            ));
        }
        match mesh_quad_budget(&meshes[m]) {
            None => {
                return None;
            },
            Some(q) => {
                if acc + q > MAX_FRAME_QUADS {
                    return None;
                }
                acc = acc + q;
            },
        }
        m = m + 1;
    }
    proof {
        assert(meshes@.subrange(meshes@.len() as int, meshes@.len() as int) =~= Seq::<
            Mesh,
        >::empty());
    }
    Some(acc)
}

proof fn lemma_split_part_offsets_ordered(old_bw: BwVars, m: Mesh, j: int, s: int)
    requires
        0 <= j < s <= split_spans(m).len(),
        forall|i: int|
            0 <= i < split_spans(m).len() ==> span_ok(m, #[trigger] split_spans(m)[i]),
    ensures
        ({
            let e = split_spans(m)[j];
            let qc = quad_count_of(e.3 - e.2 + 1, 3 * (e.1 - e.0));
            &&& qc >= 1
            &&& split_part_voff(old_bw, m, j) + 128 * qc <= split_part_voff(old_bw, m, s)
            &&& split_part_ioff(old_bw, m, j) + 12 * qc <= split_part_ioff(old_bw, m, s)
        }),
{
    let spans = split_spans(m);
    let e = spans[j];
    let qc = quad_count_of(e.3 - e.2 + 1, 3 * (e.1 - e.0));
    assert(span_ok(m, e));
    assert(spec_align4(e.3 - e.2 + 1) >= e.3 - e.2 + 1 >= 1);
    assert(qc >= 1);
    let head = spans.subrange(0, s);
    lemma_split_quads_decompose(head, j + 1);
    assert(head.subrange(0, j + 1) =~= spans.subrange(0, j + 1));
    assert(head.subrange(j + 1, head.len() as int) =~= spans.subrange(j + 1, s));
    assert(forall|i: int|
        0 <= i < spans.subrange(j + 1, s).len() ==> span_ok(
            m,
            #[trigger] spans.subrange(j + 1, s)[i],
        ));
    lemma_split_quads_nonneg(m, spans.subrange(j + 1, s));
    let upto = spans.subrange(0, j + 1);
    lemma_split_quads_decompose(upto, j);
    assert(upto.subrange(0, j) =~= spans.subrange(0, j));
    let single = upto.subrange(j, j + 1);
    assert(single.len() == 1);
    assert(single[0] == e);
    assert(single.drop_first() =~= Seq::<(int, int, int, int)>::empty());
    assert(split_quads(Seq::<(int, int, int, int)>::empty()) == 0);
    assert(split_quads(single) == qc);
    assert(split_quads(spans.subrange(0, j)) + qc <= split_quads(spans.subrange(0, s)));
}

proof fn lemma_split_part_arena_stable(
    old_bw: BwVars,
    pre: BwVars,
    post: BwVars,
    m: Mesh,
    j: int,
    s: int,
    r: Result<(), DrawError>,
    layer: u16,
    indices: Seq<u32>,
    vertices: Seq<ColoredVertex>,
    texture_handle: usize,
    render_target: RenderTarget,
)
    requires
        0 <= j < s <= split_spans(m).len(),
        forall|i: int|
            0 <= i < split_spans(m).len() ==> span_ok(m, #[trigger] split_spans(m)[i]),
        split_part_arena_effects(old_bw, pre, m, j),
        mesh_emit_effects(pre, post, r, layer, indices, vertices, texture_handle, render_target),
        pre.vertex_buf.allocated_size_bytes == split_part_voff(old_bw, m, s),
        pre.vertex_buf.index_buffer_allocated_bytes == split_part_ioff(old_bw, m, s),
        pre.vertex_buf.wf(),
        post.vertex_buf.wf(),
        old_bw.vertex_buf.vertex_aligned(),
        old_bw.vertex_buf.index_aligned(),
        split_quads(split_spans(m).subrange(0, j)) >= 0,
    ensures
        split_part_arena_effects(old_bw, post, m, j),
{
    let spans = split_spans(m);
    let e = spans[j];
    let si = 3 * (e.1 - e.0);
    let sv = e.3 - e.2 + 1;
    let qc = quad_count_of(sv, si);
    lemma_split_part_offsets_ordered(old_bw, m, j, s);
    let voff_j = split_part_voff(old_bw, m, j);
    let ioff_j = split_part_ioff(old_bw, m, j);
    let voff_s = split_part_voff(old_bw, m, s);
    let ioff_s = split_part_ioff(old_bw, m, s);
    // The offsets inherit the arenas' alignments, so word and entry indexes
    // convert exactly.
    assert(voff_j % 4 == 0 && voff_s % 4 == 0);
    assert(ioff_j % 2 == 0 && ioff_s % 2 == 0);
    assert(4 * (voff_j / 4) == voff_j && 4 * (voff_s / 4) == voff_s);
    assert(2 * (ioff_j / 2) == ioff_j && 2 * (ioff_s / 2) == ioff_s);
    let vwords = voff_j / 4;
    let ientries = ioff_j / 2;
    let vw_pre = voff_s / 4;
    let ie_pre = ioff_s / 2;
    // Part j's data ends at or before part s's start.
    assert(span_ok(m, e));
    assert(spec_align4(sv) >= sv && spec_align4(sv) % 4 == 0);
    assert(4 * qc >= spec_align4(sv) >= sv);
    assert(spec_align6(si) >= si && spec_align6(si) % 6 == 0);
    assert(6 * qc >= spec_align6(si) >= si);
    assert(vwords + 32 * qc <= vw_pre);
    assert(ientries + 6 * qc <= ie_pre);
    let vw_clause = pre.vertex_buf.allocated_size_bytes as int / 4;
    let ie_clause = pre.vertex_buf.index_buffer_allocated_bytes as int / 2;
    assert(vw_clause == vw_pre && ie_clause == ie_pre);
    assert(vw_pre <= pre.vertex_buf.buffer@.len());
    assert(ie_pre <= pre.vertex_buf.index_buffer@.len());
    lemma_quad_count_nonneg(vertices.len() as int, indices.len() as int);
    assert(post.vertex_buf.allocated_size_bytes >= pre.vertex_buf.allocated_size_bytes);
    assert(vw_pre <= post.vertex_buf.buffer@.len());
    assert(ie_pre <= post.vertex_buf.index_buffer@.len());
    assert forall|v: int, w: int|
        #![trigger vertex_words(m.vertices@[v])[w]]
        e.2 <= v <= e.3 && 0 <= w < 5 implies post.vertex_buf.buffer@[vwords + 5 * (v - e.2)
        + w] == vertex_words(m.vertices@[v])[w] by {
        let p = vwords + 5 * (v - e.2) + w;
        assert(5 * (v - e.2) + w < 20 * qc);
        assert(p < vw_pre);
        assert(post.vertex_buf.buffer@.subrange(0, vw_clause)[p]
            == post.vertex_buf.buffer@[p]);
        assert(pre.vertex_buf.buffer@.subrange(0, vw_clause)[p] == pre.vertex_buf.buffer@[p]);
        assert(pre.vertex_buf.buffer@[p] == vertex_words(m.vertices@[v])[w]);
    }
    assert forall|k: int| 3 * e.0 <= k < 3 * e.1 implies post.vertex_buf.index_buffer@[ientries
        + (k - 3 * e.0)] == ((#[trigger] m.indices@[k]) - e.2) as u16 by {
        let p = ientries + (k - 3 * e.0);
        assert(p < ie_pre);
        assert(post.vertex_buf.index_buffer@.subrange(0, ie_clause)[p]
            == post.vertex_buf.index_buffer@[p]);
        assert(pre.vertex_buf.index_buffer@.subrange(0, ie_clause)[p]
            == pre.vertex_buf.index_buffer@[p]);
        assert(pre.vertex_buf.index_buffer@[p] == (m.indices@[k] - e.2) as u16);
    }
    assert forall|p: int| ientries + si <= p < ientries + qc * 6
        implies post.vertex_buf.index_buffer@[p] == 0 by {
        assert(p < ie_pre);
        assert(post.vertex_buf.index_buffer@.subrange(0, ie_clause)[p]
            == post.vertex_buf.index_buffer@[p]);
        assert(pre.vertex_buf.index_buffer@.subrange(0, ie_clause)[p]
            == pre.vertex_buf.index_buffer@[p]);
        assert(pre.vertex_buf.index_buffer@[p] == 0);
    }
}

/// Emits one mesh: resolves its texture — a missing id fails with
/// `InvalidTexture` before any arena space is consumed — then draws it in
/// one command when its vertices fit 16-bit indexing, or splits it first and
/// draws every part. Per-part failures are isolated: a full command list
/// fails one part, the rest are still drawn, and the first error is
/// returned.
#[verifier::loop_isolation(false)]
#[verifier::rlimit(100)]
pub fn draw_egui_mesh(
    layer: u16,
    state: &RenderState,
    mesh: &Mesh,
    bw: &mut BwVars,
    render_target: &RenderTarget,
) -> (r: Result<(), DrawError>)
    requires
        old(bw).wf(),
        mesh.wf(),
        mesh.splittable(),
        mesh.indices.len() <= 0x00ff_ffff,
        old(bw).vertex_buf.allocated_size_bytes + mesh_quads(*mesh) * 128
            <= MAX_ARENA_ALLOC_BYTES,
        old(bw).vertex_buf.index_buffer_allocated_bytes + mesh_quads(*mesh) * 12
            <= MAX_ARENA_ALLOC_BYTES,
    ensures
        final(bw).wf(),
        !state.textures@.contains_key(mesh.texture_id) ==> r == Err::<(), DrawError>(
            DrawError::InvalidTexture(mesh.texture_id),
        ) && *final(bw) == *old(bw),
        state.textures@.contains_key(mesh.texture_id) ==> {
            &&& r is Ok || r == Err::<(), DrawError>(DrawError::OutOfDrawCommands)
            &&& final(bw).vertex_buf.allocated_size_bytes == old(
                bw,
            ).vertex_buf.allocated_size_bytes + mesh_quads(*mesh) * 128
            &&& final(bw).vertex_buf.index_buffer_allocated_bytes == old(
                bw,
            ).vertex_buf.index_buffer_allocated_bytes + mesh_quads(*mesh) * 12
            &&& final(bw).commands.commands@.len() == old(bw).commands.commands@.len()
            &&& final(bw).commands.draw_command_count >= old(bw).commands.draw_command_count
            &&& final(bw).commands.draw_command_count <= old(bw).commands.draw_command_count
                + mesh_parts(*mesh)
            &&& r is Ok ==> final(bw).commands.draw_command_count == old(
                bw,
            ).commands.draw_command_count + mesh_parts(*mesh)
            &&& old(bw).commands.draw_command_count + mesh_parts(*mesh) <= old(
                bw,
            ).commands.commands.len() ==> r is Ok
            &&& final(bw).commands.draw_sort_vector.data@.len() >= old(
                bw,
            ).commands.draw_sort_vector.data@.len()
            &&& final(bw).commands.draw_sort_vector.data@.subrange(
                0,
                old(bw).commands.draw_sort_vector.data@.len() as int,
            ) == old(bw).commands.draw_sort_vector.data@
        },
        forall|c: int|
            0 <= c < old(bw).commands.commands@.len() && !(old(
                bw,
            ).commands.draw_command_count <= c < final(bw).commands.draw_command_count) ==> (
            #[trigger] final(bw).commands.commands@[c]) == old(bw).commands.commands@[c],
        forall|c: int|
            old(bw).commands.draw_command_count <= c < final(bw).commands.draw_command_count
                ==> (#[trigger] final(bw).commands.draw_sort_vector.data@[c]) == (DrawSort {
                layer,
                index: c as u16,
                command: c as usize,
            }),
        state.textures@.contains_key(mesh.texture_id) && mesh.vertices.len() < 0x10000
            ==> mesh_emit_effects(
            *old(bw),
            *final(bw),
            r,
            layer,
            mesh.indices@,
            mesh.vertices@,
            state.textures@[mesh.texture_id].texture,
            *render_target,
        ),
        state.textures@.contains_key(mesh.texture_id) && mesh.vertices.len() >= 0x10000
            ==> forall|c: int|
            old(bw).commands.draw_command_count <= c < final(bw).commands.draw_command_count
                ==> #[trigger] holds_split_part_command(
                *old(bw),
                *final(bw),
                *mesh,
                c,
                state.textures@[mesh.texture_id].texture,
                *render_target,
            ),
        state.textures@.contains_key(mesh.texture_id) && mesh.vertices.len() >= 0x10000
            ==> forall|s: int|
            0 <= s < split_spans(*mesh).len() ==> #[trigger] split_part_arena_effects(
                *old(bw),
                *final(bw),
                *mesh,
                s,
            ),
        state.textures@.contains_key(mesh.texture_id) && mesh.vertices.len() >= 0x10000 && r
            is Ok ==> forall|s: int|
            0 <= s < split_spans(*mesh).len() ==> #[trigger] split_part_command(
                *old(bw),
                *final(bw),
                *mesh,
                s,
                layer,
                state.textures@[mesh.texture_id].texture,
                *render_target,
            ),
{
    let texture = match state.textures.get(&mesh.texture_id) {
        Some(t) => t,
        None => {
            return Err(DrawError::InvalidTexture(mesh.texture_id));
        },
    };
    if mesh.vertices.len() < 0x10000 {
        draw_egui_mesh_main(layer, &mesh.indices, &mesh.vertices, texture, bw, render_target)
    } else {
        let subs = mesh.split_to_u16();
        let ghost spans = split_spans(*mesh);
        proof {
            lemma_split_spans_ok(*mesh);
            assert(spans.subrange(0, spans.len() as int) =~= spans);
        }
        let mut result: Result<(), DrawError> = Ok(());
        let mut s: usize = 0;
        while s < subs.len()
            invariant
                s <= subs.len(),
                bw.wf(),
                bw.vertex_buf.allocated_size_bytes + split_quads(
                    spans.subrange(s as int, spans.len() as int),
                ) * 128 == old(bw).vertex_buf.allocated_size_bytes + split_quads(spans) * 128,
                bw.vertex_buf.index_buffer_allocated_bytes + split_quads(
                    spans.subrange(s as int, spans.len() as int),
                ) * 12 == old(bw).vertex_buf.index_buffer_allocated_bytes + split_quads(spans)
                    * 12,
                bw.commands.commands@.len() == old(bw).commands.commands@.len(),
                bw.commands.draw_command_count >= old(bw).commands.draw_command_count,
                bw.commands.draw_command_count <= old(bw).commands.draw_command_count + s,
                result is Ok ==> bw.commands.draw_command_count == old(
                    bw,
                ).commands.draw_command_count + s,
                old(bw).commands.draw_command_count + subs.len() <= old(
                    bw,
                ).commands.commands@.len() ==> result is Ok,
                forall|j: int|
                    0 <= j < s ==> #[trigger] split_part_arena_effects(
                        *old(bw),
                        *bw,
                        *mesh,
                        j,
                    ),
                result is Ok ==> forall|j: int|
                    0 <= j < s ==> #[trigger] split_part_command(
                        *old(bw),
                        *bw,
                        *mesh,
                        j,
                        layer,
                        texture.texture,
                        *render_target,
                    ),
                forall|c: int|
                    0 <= c < old(bw).commands.commands@.len() && !(old(
                        bw,
                    ).commands.draw_command_count <= c < bw.commands.draw_command_count) ==> (
                    #[trigger] bw.commands.commands@[c]) == old(bw).commands.commands@[c],
                forall|c: int|
                    old(bw).commands.draw_command_count <= c < bw.commands.draw_command_count
                        ==> (#[trigger] bw.commands.draw_sort_vector.data@[c]) == (DrawSort {
                        layer,
                        index: c as u16,
                        command: c as usize,
                    }) && holds_split_part_command(
                        *old(bw),
                        *bw,
                        *mesh,
                        c,
                        texture.texture,
                        *render_target,
                    ),
                bw.commands.draw_sort_vector.data@.len() >= old(
                    bw,
                ).commands.draw_sort_vector.data@.len(),
                bw.commands.draw_sort_vector.data@.subrange(
                    0,
                    old(bw).commands.draw_sort_vector.data@.len() as int,
                ) == old(bw).commands.draw_sort_vector.data@,
                result is Ok || result == Err::<(), DrawError>(DrawError::OutOfDrawCommands),
            decreases subs.len() - s,
        {
            let ghost rem = spans.subrange(s as int, spans.len() as int);
            proof {
                assert(rem[0] == spans[s as int]);
                assert(rem.drop_first() =~= spans.subrange(s as int + 1, spans.len() as int));
                assert(span_ok(*mesh, spans[s as int]));
                assert(forall|j: int|
                    0 <= j < rem.drop_first().len() ==> span_ok(
                        *mesh,
                        #[trigger] rem.drop_first()[j],
                    ));
                lemma_split_quads_nonneg(*mesh, rem.drop_first());
                assert(subs@[s as int].indices.len() <= mesh.indices.len());
                assert(split_quads(rem) == quad_count_of(
                    subs@[s as int].vertices.len() as int,
                    subs@[s as int].indices.len() as int,
                ) + split_quads(rem.drop_first()));
                lemma_split_quads_decompose(spans, s as int);
                assert(forall|i: int|
                    0 <= i < spans.subrange(0, s as int).len() ==> span_ok(
                        *mesh,
                        #[trigger] spans.subrange(0, s as int)[i],
                    ));
                lemma_split_quads_nonneg(*mesh, spans.subrange(0, s as int));
                assert(bw.vertex_buf.allocated_size_bytes == split_part_voff(
                    *old(bw),
                    *mesh,
                    s as int,
                ));
                assert(bw.vertex_buf.index_buffer_allocated_bytes == split_part_ioff(
                    *old(bw),
                    *mesh,
                    s as int,
                ));
            }
            let sub = &subs[s];
            let ghost pre = *bw;
            let res = draw_egui_mesh_main(
                layer,
                &sub.indices,
                &sub.vertices,
                texture,
                bw,
                render_target,
            );
            proof {
                if res is Ok {
                    assert(bw.commands.draw_sort_vector.data@.subrange(
                        0,
                        old(bw).commands.draw_sort_vector.data@.len() as int,
                    ) =~= old(bw).commands.draw_sort_vector.data@);
                }
                let e = spans[s as int];
                let si = 3 * (e.1 - e.0);
                let qc = quad_count_of(e.3 - e.2 + 1, si);
                let vwords = split_part_voff(*old(bw), *mesh, s as int) / 4;
                let ientries = split_part_ioff(*old(bw), *mesh, s as int) / 2;
                assert(sub.vertices@ == mesh.vertices@.subrange(
                    e.2,
                    e.2 + sub.vertices.len(),
                ));
                // Part s's fresh facts, rephrased from the emit step's
                // effects over the sub-mesh onto the original mesh.
                assert forall|v: int, w: int|
                    #![trigger vertex_words(mesh.vertices@[v])[w]]
                    e.2 <= v <= e.3 && 0 <= w < 5 implies bw.vertex_buf.buffer@[vwords + 5 * (
                v - e.2) + w] == vertex_words(mesh.vertices@[v])[w] by {
                    assert(mesh.vertices@.subrange(e.2, e.2 + sub.vertices.len())[v - e.2]
                        == mesh.vertices@[v]);
                    assert(sub.vertices@[v - e.2] == mesh.vertices@[v]);
                    assert(bw.vertex_buf.buffer@[vwords + 5 * (v - e.2) + w]
                        == vertex_words(sub.vertices@[v - e.2])[w]);
                }
                assert forall|k: int| 3 * e.0 <= k < 3 * e.1
                    implies bw.vertex_buf.index_buffer@[ientries + (k - 3 * e.0)] == ((
                #[trigger] mesh.indices@[k]) - e.2) as u16 by {
                    let j = k - 3 * e.0;
                    assert(sub.indices@[j] == mesh.indices@[k] - e.2);
                    assert(bw.vertex_buf.index_buffer@[ientries + j] == (sub.indices@[j])
                        as u16);
                }
                assert(split_part_arena_effects(*old(bw), *bw, *mesh, s as int));
                if res is Ok && pre.commands.draw_command_count as int == old(
                    bw,
                ).commands.draw_command_count + s {
                    let slot = old(bw).commands.draw_command_count + s as int;
                    assert(bw.commands.draw_sort_vector.data@[slot] == (DrawSort {
                        layer,
                        index: slot as u16,
                        command: slot as usize,
                    }));
                    assert(split_part_command(
                        *old(bw),
                        *bw,
                        *mesh,
                        s as int,
                        layer,
                        texture.texture,
                        *render_target,
                    ));
                }
                // Slots outside this call's window are untouched, and each
                // taken slot keeps (or gains) one part's command record.
                assert forall|c: int|
                    0 <= c < old(bw).commands.commands@.len() && !(old(
                        bw,
                    ).commands.draw_command_count <= c < bw.commands.draw_command_count)
                    implies (#[trigger] bw.commands.commands@[c]) == old(
                    bw,
                ).commands.commands@[c] by {
                    if res is Ok {
                        assert(c != pre.commands.draw_command_count as int);
                        assert(bw.commands.commands@[c] == pre.commands.commands@[c]);
                    }
                }
                assert forall|c: int|
                    old(bw).commands.draw_command_count <= c
                        < bw.commands.draw_command_count implies (
                #[trigger] bw.commands.draw_sort_vector.data@[c]) == (DrawSort {
                    layer,
                    index: c as u16,
                    command: c as usize,
                }) && holds_split_part_command(
                    *old(bw),
                    *bw,
                    *mesh,
                    c,
                    texture.texture,
                    *render_target,
                ) by {
                    if c < pre.commands.draw_command_count as int {
                        assert(bw.commands.commands@[c] == pre.commands.commands@[c]);
                        assert(bw.commands.draw_sort_vector.data@[c]
                            == pre.commands.draw_sort_vector.data@[c]);
                        assert(holds_split_part_command(
                            *old(bw),
                            pre,
                            *mesh,
                            c,
                            texture.texture,
                            *render_target,
                        ));
                        let wit = choose|w: int|
                            #![trigger split_part_voff(*old(bw), *mesh, w)]
                            0 <= w < split_spans(*mesh).len() && {
                                let e = split_spans(*mesh)[w];
                                let qc = quad_count_of(e.3 - e.2 + 1, 3 * (e.1 - e.0));
                                is_mesh_draw_command(
                                    pre.commands.commands@[c],
                                    *render_target,
                                    texture.texture,
                                    split_part_voff(*old(bw), *mesh, w),
                                    split_part_ioff(*old(bw), *mesh, w),
                                    qc * 4,
                                )
                            };
                        let ew = split_spans(*mesh)[wit];
                        let qcw = quad_count_of(ew.3 - ew.2 + 1, 3 * (ew.1 - ew.0));
                        assert(is_mesh_draw_command(
                            bw.commands.commands@[c],
                            *render_target,
                            texture.texture,
                            split_part_voff(*old(bw), *mesh, wit),
                            split_part_ioff(*old(bw), *mesh, wit),
                            qcw * 4,
                        ));
                    } else {
                        assert(res is Ok);
                        assert(c == pre.commands.draw_command_count as int);
                        assert(is_mesh_draw_command(
                            bw.commands.commands@[c],
                            *render_target,
                            texture.texture,
                            split_part_voff(*old(bw), *mesh, s as int),
                            split_part_ioff(*old(bw), *mesh, s as int),
                            quad_count_of(e.3 - e.2 + 1, si) * 4,
                        ));
                    }
                }
                // Earlier parts' data survives this emit step untouched.
                assert forall|j: int| 0 <= j < s implies #[trigger] split_part_arena_effects(
                    *old(bw),
                    *bw,
                    *mesh,
                    j,
                ) by {
                    assert(forall|i: int|
                        0 <= i < spans.subrange(0, j).len() ==> span_ok(
                            *mesh,
                            #[trigger] spans.subrange(0, j)[i],
                        ));
                    lemma_split_quads_nonneg(*mesh, spans.subrange(0, j));
                    lemma_split_part_arena_stable(
                        *old(bw),
                        pre,
                        *bw,
                        *mesh,
                        j,
                        s as int,
                        res,
                        layer,
                        sub.indices@,
                        sub.vertices@,
                        texture.texture,
                        *render_target,
                    );
                }
                if res is Ok {
                    assert forall|j: int| 0 <= j < s && result is Ok
                        implies #[trigger] split_part_command(
                        *old(bw),
                        *bw,
                        *mesh,
                        j,
                        layer,
                        texture.texture,
                        *render_target,
                    ) by {
                        assert(split_part_command(
                            *old(bw),
                            pre,
                            *mesh,
                            j,
                            layer,
                            texture.texture,
                            *render_target,
                        ));
                        let slot_j = old(bw).commands.draw_command_count + j;
                        let slot_new = pre.commands.draw_command_count as int;
                        assert(slot_j < slot_new);
                        assert(slot_new <= pre.commands.commands@.len());
                        assert(bw.commands.commands@[slot_j]
                            == pre.commands.commands@[slot_j]);
                        assert(bw.commands.draw_sort_vector.data@[slot_j]
                            == pre.commands.draw_sort_vector.data@[slot_j]);
                    }
                }
            }
            if res.is_err() && result.is_ok() {
                result = res;
            }
            s = s + 1;
        }
        proof {
            assert(spans.subrange(spans.len() as int, spans.len() as int) =~= Seq::<
                (int, int, int, int),
            >::empty());
            assert(*texture == state.textures@[mesh.texture_id]);
            assert forall|c: int|
                old(bw).commands.draw_command_count <= c < bw.commands.draw_command_count
                implies #[trigger] holds_split_part_command(
                *old(bw),
                *bw,
                *mesh,
                c,
                state.textures@[mesh.texture_id].texture,
                *render_target,
            ) by {
                assert(bw.commands.draw_sort_vector.data@[c] == (DrawSort {
                    layer,
                    index: c as u16,
                    command: c as usize,
                }));
                assert(holds_split_part_command(
                    *old(bw),
                    *bw,
                    *mesh,
                    c,
                    texture.texture,
                    *render_target,
                ));
            }
        }
        result
    }
}

/// The command records and sort entries mesh `j` of the frame owns, when
/// every mesh before it that the cache holds was fully drawn: its slots
/// start after the slots those meshes took, its data sits after the bytes
/// they consumed, and each of its parts' records points at that part's
/// placements, entered in the sort index at the frame's layer.
pub open spec fn frame_mesh_commands(
    pre: BwVars,
    post: BwVars,
    meshes: Seq<Mesh>,
    textures: Map<u64, OwnedBwTexture>,
    j: int,
    layer: u16,
    render_target: RenderTarget,
) -> bool {
    let m = meshes[j];
    let handle = textures[m.texture_id].texture;
    let slot0 = pre.commands.draw_command_count + frame_parts_present(
        meshes.subrange(0, j),
        textures,
    );
    let voff0 = pre.vertex_buf.allocated_size_bytes + frame_quads_present(
        meshes.subrange(0, j),
        textures,
    ) * 128;
    let ioff0 = pre.vertex_buf.index_buffer_allocated_bytes + frame_quads_present(
        meshes.subrange(0, j),
        textures,
    ) * 12;
    if m.vertices.len() < 0x10000 {
        let qc = quad_count_of(m.vertices.len() as int, m.indices.len() as int);
        &&& is_mesh_draw_command(
            post.commands.commands@[slot0],
            render_target,
            handle,
            voff0,
            ioff0,
            qc * 4,
        )
        &&& post.commands.draw_sort_vector.data@[slot0] == (DrawSort {
            layer,
            index: slot0 as u16,
            command: slot0 as usize,
        })
    } else {
        forall|s: int|
            #![trigger split_spans(m).subrange(0, s)]
            0 <= s < split_spans(m).len() ==> {
                let e = split_spans(m)[s];
                let qc = quad_count_of(e.3 - e.2 + 1, 3 * (e.1 - e.0));
                &&& is_mesh_draw_command(
                    post.commands.commands@[slot0 + s],
                    render_target,
                    handle,
                    voff0 + split_quads(split_spans(m).subrange(0, s)) * 128,
                    ioff0 + split_quads(split_spans(m).subrange(0, s)) * 12,
                    qc * 4,
                )
                &&& post.commands.draw_sort_vector.data@[slot0 + s] == (DrawSort {
                    layer,
                    index: (slot0 + s) as u16,
                    command: (slot0 + s) as usize,
                })
            }
    }
}

proof fn lemma_frame_mesh_commands_stable(
    old_bw: BwVars,
    pre: BwVars,
    post: BwVars,
    meshes: Seq<Mesh>,
    textures: Map<u64, OwnedBwTexture>,
    j: int,
    m: int,
    layer: u16,
    render_target: RenderTarget,
)
    requires
        0 <= j < m <= meshes.len(),
        textures.contains_key(meshes[j].texture_id),
        frame_mesh_commands(old_bw, pre, meshes, textures, j, layer, render_target),
        pre.commands.draw_command_count as int == old_bw.commands.draw_command_count
            + frame_parts_present(meshes.subrange(0, m), textures),
        post.commands.commands@.len() == pre.commands.commands@.len(),
        (pre.commands.draw_command_count as int) <= pre.commands.commands@.len(),
        forall|c: int|
            0 <= c < pre.commands.commands@.len() && !((pre.commands.draw_command_count
                as int) <= c < post.commands.draw_command_count as int) ==> (
            #[trigger] post.commands.commands@[c]) == pre.commands.commands@[c],
        post.commands.draw_command_count >= pre.commands.draw_command_count,
        post.commands.draw_sort_vector.data@.len()
            >= pre.commands.draw_sort_vector.data@.len(),
        post.commands.draw_sort_vector.data@.subrange(
            0,
            pre.commands.draw_sort_vector.data@.len() as int,
        ) == pre.commands.draw_sort_vector.data@,
        pre.commands.draw_sort_vector.data@.len() == pre.commands.draw_command_count,
    ensures
        frame_mesh_commands(old_bw, post, meshes, textures, j, layer, render_target),
{
    let mj = meshes[j];
    let old_count = old_bw.commands.draw_command_count as int;
    let pre_count = pre.commands.draw_command_count as int;
    let slot0 = old_count + frame_parts_present(meshes.subrange(0, j), textures);
    // Mesh j's slots all sit below the step's first slot.
    lemma_frame_parts_present_decompose(meshes.subrange(0, m), textures, j + 1);
    assert(meshes.subrange(0, m).subrange(0, j + 1) =~= meshes.subrange(0, j + 1));
    assert(meshes.subrange(0, m).subrange(j + 1, m) =~= meshes.subrange(j + 1, m));
    lemma_frame_parts_present_nonneg(meshes.subrange(j + 1, m), textures);
    lemma_frame_parts_present_decompose(meshes.subrange(0, j + 1), textures, j);
    assert(meshes.subrange(0, j + 1).subrange(0, j) =~= meshes.subrange(0, j));
    let single = meshes.subrange(0, j + 1).subrange(j, j + 1);
    assert(single.len() == 1);
    assert(single[0] == mj);
    assert(single.drop_first() =~= Seq::<Mesh>::empty());
    assert(frame_parts_present(Seq::<Mesh>::empty(), textures) == 0);
    assert(frame_parts_present(single, textures) == mesh_parts(mj));
    lemma_frame_parts_present_nonneg(meshes.subrange(0, j), textures);
    assert(0 <= slot0);
    assert(slot0 + mesh_parts(mj) <= pre_count);
    if mj.vertices.len() < 0x10000 {
        assert(slot0 < pre_count);
        assert(post.commands.commands@[slot0] == pre.commands.commands@[slot0]);
        assert(post.commands.draw_sort_vector.data@.subrange(0, pre_count)[slot0]
            == post.commands.draw_sort_vector.data@[slot0]);
        assert(pre.commands.draw_sort_vector.data@.subrange(0, pre_count)[slot0]
            == pre.commands.draw_sort_vector.data@[slot0]);
    } else {
        assert(mesh_parts(mj) == split_spans(mj).len());
        let hj = textures[mj.texture_id].texture;
        let voff0 = old_bw.vertex_buf.allocated_size_bytes + frame_quads_present(
            meshes.subrange(0, j),
            textures,
        ) * 128;
        let ioff0 = old_bw.vertex_buf.index_buffer_allocated_bytes + frame_quads_present(
            meshes.subrange(0, j),
            textures,
        ) * 12;
        assert forall|sp: int|
            #![trigger split_spans(mj).subrange(0, sp)]
            0 <= sp < split_spans(mj).len() implies {
            let e = split_spans(mj)[sp];
            let qc = quad_count_of(e.3 - e.2 + 1, 3 * (e.1 - e.0));
            &&& is_mesh_draw_command(
                post.commands.commands@[slot0 + sp],
                render_target,
                hj,
                voff0 + split_quads(split_spans(mj).subrange(0, sp)) * 128,
                ioff0 + split_quads(split_spans(mj).subrange(0, sp)) * 12,
                qc * 4,
            )
            &&& post.commands.draw_sort_vector.data@[slot0 + sp] == (DrawSort {
                layer,
                index: (slot0 + sp) as u16,
                command: (slot0 + sp) as usize,
            })
        } by {
            assert(slot0 + sp < pre_count);
            assert(post.commands.commands@[slot0 + sp] == pre.commands.commands@[slot0 + sp]);
            assert(post.commands.draw_sort_vector.data@.subrange(0, pre_count)[slot0 + sp]
                == post.commands.draw_sort_vector.data@[slot0 + sp]);
            assert(pre.commands.draw_sort_vector.data@.subrange(0, pre_count)[slot0 + sp]
                == pre.commands.draw_sort_vector.data@[slot0 + sp]);
        }
    }
}

/// Draws a frame's meshes into the host state at the overlay's compositing
/// layer. Failures are isolated per mesh: each result reports its own mesh,
/// a mesh whose texture id the cache does not hold is dropped with
/// `InvalidTexture`, and the rest of the frame is still drawn. Texture-delta
/// handling precedes this pass and freeing follows it, through the cache's
/// own operations.
#[verifier::loop_isolation(false)]
#[verifier::rlimit(100)]
pub fn add_overlays(
    state: &RenderState,
    meshes: &Vec<Mesh>,
    bw: &mut BwVars,
    render_target: &RenderTarget,
) -> (results: Vec<Result<(), DrawError>>)
    requires
        old(bw).wf(),
        forall|j: int|
            0 <= j < meshes.len() ==> (#[trigger] meshes@[j]).wf() && meshes@[j].splittable()
                && meshes@[j].indices.len() <= 0x00ff_ffff,
        old(bw).vertex_buf.allocated_size_bytes + frame_quads(meshes@) * 128
            <= MAX_ARENA_ALLOC_BYTES,
        old(bw).vertex_buf.index_buffer_allocated_bytes + frame_quads(meshes@) * 12
            <= MAX_ARENA_ALLOC_BYTES,
    ensures
        final(bw).wf(),
        results@.len() == meshes@.len(),
        forall|j: int|
            0 <= j < meshes.len() ==> ((#[trigger] results@[j]) == Err::<(), DrawError>(
                DrawError::InvalidTexture(meshes@[j].texture_id),
            ) <==> !state.textures@.contains_key(meshes@[j].texture_id)),
        forall|j: int|
            0 <= j < meshes.len() ==> (#[trigger] results@[j]) is Ok || results@[j] == Err::<
                (),
                DrawError,
            >(DrawError::InvalidTexture(meshes@[j].texture_id)) || results@[j] == Err::<
                (),
                DrawError,
            >(DrawError::OutOfDrawCommands),
        final(bw).vertex_buf.allocated_size_bytes == old(bw).vertex_buf.allocated_size_bytes
            + frame_quads_present(meshes@, state.textures@) * 128,
        final(bw).vertex_buf.index_buffer_allocated_bytes == old(
            bw,
        ).vertex_buf.index_buffer_allocated_bytes + frame_quads_present(
            meshes@,
            state.textures@,
        ) * 12,
        final(bw).commands.draw_command_count >= old(bw).commands.draw_command_count,
        final(bw).commands.commands@.len() == old(bw).commands.commands@.len(),
        forall|c: int|
            0 <= c < old(bw).commands.commands@.len() && !(old(
                bw,
            ).commands.draw_command_count <= c < final(bw).commands.draw_command_count) ==> (
            #[trigger] final(bw).commands.commands@[c]) == old(bw).commands.commands@[c],
        forall|c: int|
            old(bw).commands.draw_command_count <= c < final(bw).commands.draw_command_count
                ==> (#[trigger] final(bw).commands.draw_sort_vector.data@[c]) == (DrawSort {
                layer: OVERLAY_LAYER,
                index: c as u16,
                command: c as usize,
            }),
        old(bw).commands.draw_command_count + frame_parts(meshes@) <= old(
            bw,
        ).commands.commands.len() ==> final(bw).commands.draw_command_count == old(
            bw,
        ).commands.draw_command_count + frame_parts_present(meshes@, state.textures@),
        old(bw).commands.draw_command_count + frame_parts(meshes@) <= old(
            bw,
        ).commands.commands.len() ==> forall|j: int|
            0 <= j < meshes.len() && state.textures@.contains_key(meshes@[j].texture_id)
                ==> #[trigger] frame_mesh_commands(
                *old(bw),
                *final(bw),
                meshes@,
                state.textures@,
                j,
                OVERLAY_LAYER,
                *render_target,
            ),
        old(bw).commands.draw_command_count + frame_parts(meshes@) <= old(
            bw,
        ).commands.commands.len() ==> forall|j: int|
            0 <= j < meshes.len() ==> (#[trigger] results@[j]) is Ok || results@[j] == Err::<
                (),
                DrawError,
            >(DrawError::InvalidTexture(meshes@[j].texture_id)),
        final(bw).commands.draw_sort_vector.data@.len() >= old(
            bw,
        ).commands.draw_sort_vector.data@.len(),
        final(bw).commands.draw_sort_vector.data@.subrange(
            0,
            old(bw).commands.draw_sort_vector.data@.len() as int,
        ) == old(bw).commands.draw_sort_vector.data@,
{
    let mut results: Vec<Result<(), DrawError>> = Vec::new();
    let mut m: usize = 0;
    proof {
        assert(meshes@.subrange(0, meshes@.len() as int) =~= meshes@);
    }
    while m < meshes.len()
        invariant
            m <= meshes.len(),
            bw.wf(),
            results@.len() == m,
            forall|j: int|
                0 <= j < m ==> ((#[trigger] results@[j]) == Err::<(), DrawError>(
                    DrawError::InvalidTexture(meshes@[j].texture_id),
                ) <==> !state.textures@.contains_key(meshes@[j].texture_id)),
            forall|j: int|
                0 <= j < m ==> (#[trigger] results@[j]) is Ok || results@[j] == Err::<
                    (),
                    DrawError,
                >(DrawError::InvalidTexture(meshes@[j].texture_id)) || results@[j] == Err::<
                    (),
                    DrawError,
                >(DrawError::OutOfDrawCommands),
            bw.vertex_buf.allocated_size_bytes + frame_quads(
                meshes@.subrange(m as int, meshes@.len() as int),
            ) * 128 <= MAX_ARENA_ALLOC_BYTES,
            bw.vertex_buf.index_buffer_allocated_bytes + frame_quads(
                meshes@.subrange(m as int, meshes@.len() as int),
            ) * 12 <= MAX_ARENA_ALLOC_BYTES,
            bw.vertex_buf.allocated_size_bytes + frame_quads_present(
                meshes@.subrange(m as int, meshes@.len() as int),
                state.textures@,
            ) * 128 == old(bw).vertex_buf.allocated_size_bytes + frame_quads_present(
                meshes@,
                state.textures@,
            ) * 128,
            bw.vertex_buf.index_buffer_allocated_bytes + frame_quads_present(
                meshes@.subrange(m as int, meshes@.len() as int),
                state.textures@,
            ) * 12 == old(bw).vertex_buf.index_buffer_allocated_bytes + frame_quads_present(
                meshes@,
                state.textures@,
            ) * 12,
            bw.commands.commands@.len() == old(bw).commands.commands@.len(),
            bw.commands.draw_command_count >= old(bw).commands.draw_command_count,
            bw.commands.draw_command_count + frame_parts(
                meshes@.subrange(m as int, meshes@.len() as int),
            ) <= old(bw).commands.draw_command_count + frame_parts(meshes@),
            old(bw).commands.draw_command_count + frame_parts(meshes@) <= old(
                bw,
            ).commands.commands@.len() ==> bw.commands.draw_command_count
                + frame_parts_present(
                meshes@.subrange(m as int, meshes@.len() as int),
                state.textures@,
            ) == old(bw).commands.draw_command_count + frame_parts_present(
                meshes@,
                state.textures@,
            ),
            forall|c: int|
                0 <= c < old(bw).commands.commands@.len() && !(old(
                    bw,
                ).commands.draw_command_count <= c < bw.commands.draw_command_count) ==> (
                #[trigger] bw.commands.commands@[c]) == old(bw).commands.commands@[c],
            forall|c: int|
                old(bw).commands.draw_command_count <= c < bw.commands.draw_command_count
                    ==> (#[trigger] bw.commands.draw_sort_vector.data@[c]) == (DrawSort {
                    layer: OVERLAY_LAYER,
                    index: c as u16,
                    command: c as usize,
                }),
            old(bw).commands.draw_command_count + frame_parts(meshes@) <= old(
                bw,
            ).commands.commands@.len() ==> forall|j: int|
                0 <= j < m && state.textures@.contains_key(meshes@[j].texture_id)
                    ==> #[trigger] frame_mesh_commands(
                    *old(bw),
                    *bw,
                    meshes@,
                    state.textures@,
                    j,
                    OVERLAY_LAYER,
                    *render_target,
                ),
            old(bw).commands.draw_command_count + frame_parts(meshes@) <= old(
                bw,
            ).commands.commands@.len() ==> forall|j: int|
                0 <= j < m ==> (#[trigger] results@[j]) is Ok || results@[j] == Err::<
                    (),
                    DrawError,
                >(DrawError::InvalidTexture(meshes@[j].texture_id)),
            bw.commands.draw_sort_vector.data@.len() >= old(
                bw,
            ).commands.draw_sort_vector.data@.len(),
            bw.commands.draw_sort_vector.data@.subrange(
                0,
                old(bw).commands.draw_sort_vector.data@.len() as int,
            ) == old(bw).commands.draw_sort_vector.data@,
        decreases meshes.len() - m,
    {
        let ghost rem = meshes@.subrange(m as int, meshes@.len() as int);
        proof {
            assert(rem[0] == meshes@[m as int]);
            assert(rem.drop_first() =~= meshes@.subrange(m as int + 1, meshes@.len() as int));
            assert(forall|j: int|
                0 <= j < rem.drop_first().len() ==> (#[trigger] rem.drop_first()[j]).wf()
                    && rem.drop_first()[j].splittable());
            lemma_frame_quads_nonneg(rem.drop_first());
            lemma_mesh_quads_nonneg(meshes@[m as int]);
            assert(frame_quads(rem) == mesh_quads(meshes@[m as int]) + frame_quads(
                rem.drop_first(),
            ));
            lemma_frame_parts_nonneg(rem.drop_first());
            assert(frame_parts(rem) == mesh_parts(meshes@[m as int]) + frame_parts(
                rem.drop_first(),
            ));
            assert(frame_quads_present(rem, state.textures@) == (if state.textures@.contains_key(
                meshes@[m as int].texture_id,
            ) {
                mesh_quads(meshes@[m as int])
            } else {
                0
            }) + frame_quads_present(rem.drop_first(), state.textures@));
            assert(frame_parts_present(rem, state.textures@) == (if state.textures@.contains_key(
                meshes@[m as int].texture_id,
            ) {
                mesh_parts(meshes@[m as int])
            } else {
                0
            }) + frame_parts_present(rem.drop_first(), state.textures@));
        }
        let mesh = &meshes[m];
        let ghost pre = *bw;
        let res = draw_egui_mesh(OVERLAY_LAYER, state, mesh, bw, render_target);
        proof {
            if state.textures@.contains_key(mesh.texture_id) {
                assert(bw.commands.draw_sort_vector.data@.subrange(
                    0,
                    old(bw).commands.draw_sort_vector.data@.len() as int,
                ) =~= pre.commands.draw_sort_vector.data@.subrange(
                    0,
                    old(bw).commands.draw_sort_vector.data@.len() as int,
                ));
            }
            let textures = state.textures@;
            let old_count = old(bw).commands.draw_command_count as int;
            let pre_count = pre.commands.draw_command_count as int;
            let new_count = bw.commands.draw_command_count as int;
            // Slots outside this call's window are untouched.
            assert forall|c: int|
                0 <= c < old(bw).commands.commands@.len() && !(old_count <= c < new_count)
                implies (#[trigger] bw.commands.commands@[c]) == old(
                bw,
            ).commands.commands@[c] by {
                assert(bw.commands.commands@[c] == pre.commands.commands@[c]);
            }
            // Every slot this call took carries a sort entry at the frame's
            // layer; slots from earlier meshes keep theirs.
            assert forall|c: int| old_count <= c < new_count implies (
            #[trigger] bw.commands.draw_sort_vector.data@[c]) == (DrawSort {
                layer: OVERLAY_LAYER,
                index: c as u16,
                command: c as usize,
            }) by {
                if c < pre_count {
                    assert(bw.commands.draw_sort_vector.data@.subrange(0, pre_count)[c]
                        == bw.commands.draw_sort_vector.data@[c]);
                    assert(pre.commands.draw_sort_vector.data@.subrange(0, pre_count)[c]
                        == pre.commands.draw_sort_vector.data@[c]);
                }
            }
            if old_count + frame_parts(meshes@) <= old(bw).commands.commands@.len() {
                lemma_frame_parts_present_decompose(meshes@, textures, m as int);
                lemma_frame_quads_present_decompose(meshes@, textures, m as int);
                let prefix = meshes@.subrange(0, m as int);
                assert(pre_count == old_count + frame_parts_present(prefix, textures));
                assert(pre.vertex_buf.allocated_size_bytes == old(
                    bw,
                ).vertex_buf.allocated_size_bytes + frame_quads_present(prefix, textures)
                    * 128);
                assert(pre.vertex_buf.index_buffer_allocated_bytes == old(
                    bw,
                ).vertex_buf.index_buffer_allocated_bytes + frame_quads_present(
                    prefix,
                    textures,
                ) * 12);
                // The new mesh's own command records, when its texture is held.
                if textures.contains_key(meshes@[m as int].texture_id) {
                    assert(res is Ok);
                    let mm = meshes@[m as int];
                    let handle = textures[mm.texture_id].texture;
                    if mm.vertices.len() < 0x10000 {
                        assert(mesh_emit_effects(
                            pre,
                            *bw,
                            res,
                            OVERLAY_LAYER,
                            mm.indices@,
                            mm.vertices@,
                            handle,
                            *render_target,
                        ));
                        assert(frame_mesh_commands(
                            *old(bw),
                            *bw,
                            meshes@,
                            textures,
                            m as int,
                            OVERLAY_LAYER,
                            *render_target,
                        ));
                    } else {
                        assert forall|sp: int|
                            #![trigger split_spans(mm).subrange(0, sp)]
                            0 <= sp < split_spans(mm).len() implies {
                            let e = split_spans(mm)[sp];
                            let qc = quad_count_of(e.3 - e.2 + 1, 3 * (e.1 - e.0));
                            &&& is_mesh_draw_command(
                                bw.commands.commands@[pre_count + sp],
                                *render_target,
                                handle,
                                pre.vertex_buf.allocated_size_bytes + split_quads(
                                    split_spans(mm).subrange(0, sp),
                                ) * 128,
                                pre.vertex_buf.index_buffer_allocated_bytes + split_quads(
                                    split_spans(mm).subrange(0, sp),
                                ) * 12,
                                qc * 4,
                            )
                            &&& bw.commands.draw_sort_vector.data@[pre_count + sp]
                                == (DrawSort {
                                layer: OVERLAY_LAYER,
                                index: (pre_count + sp) as u16,
                                command: (pre_count + sp) as usize,
                            })
                        } by {
                            assert(split_part_command(
                                pre,
                                *bw,
                                mm,
                                sp,
                                OVERLAY_LAYER,
                                handle,
                                *render_target,
                            ));
                        }
                        assert(frame_mesh_commands(
                            *old(bw),
                            *bw,
                            meshes@,
                            textures,
                            m as int,
                            OVERLAY_LAYER,
                            *render_target,
                        ));
                    }
                }
                // Earlier meshes' records are untouched by this call.
                assert forall|j: int|
                    0 <= j < m && textures.contains_key(meshes@[j].texture_id)
                    implies #[trigger] frame_mesh_commands(
                    *old(bw),
                    *bw,
                    meshes@,
                    textures,
                    j,
                    OVERLAY_LAYER,
                    *render_target,
                ) by {
                    assert(frame_mesh_commands(
                        *old(bw),
                        pre,
                        meshes@,
                        textures,
                        j,
                        OVERLAY_LAYER,
                        *render_target,
                    ));
                    assert(bw.commands.draw_sort_vector.data@.subrange(
                        0,
                        pre.commands.draw_sort_vector.data@.len() as int,
                    ) =~= pre.commands.draw_sort_vector.data@);
                    lemma_frame_mesh_commands_stable(
                        *old(bw),
                        pre,
                        *bw,
                        meshes@,
                        textures,
                        j,
                        m as int,
                        OVERLAY_LAYER,
                        *render_target,
                    );
                }
            }
        }
        results.push(res);
        m = m + 1;
    }
    results
}

/// The order in which the host draws two sort entries: the lower layer
/// first, and within a layer the lower insertion index first.
pub open spec fn draw_sort_precedes(a: DrawSort, b: DrawSort) -> bool {
    a.layer < b.layer || (a.layer == b.layer && a.index < b.index)
}

/// TESTABLE PROPERTY — sort-vector ordering. For any two entries of a
/// well-formed command list: an entry at a lower layer precedes one at a
/// higher layer in the host's draw order, whichever was emitted first; and
/// two entries at the same layer are drawn in insertion order, which is
/// their order in the vector, since this subsystem only appends.
pub proof fn lemma_draw_sort_order(commands: DrawCommands, i: int, j: int)
    requires
        commands.wf(),
        0 <= i < j < commands.draw_sort_vector.data@.len(),
    ensures
        commands.draw_sort_vector.data@[i].layer < commands.draw_sort_vector.data@[j].layer
            ==> draw_sort_precedes(
            commands.draw_sort_vector.data@[i],
            commands.draw_sort_vector.data@[j],
        ),
        commands.draw_sort_vector.data@[j].layer < commands.draw_sort_vector.data@[i].layer
            ==> draw_sort_precedes(
            commands.draw_sort_vector.data@[j],
            commands.draw_sort_vector.data@[i],
        ),
        commands.draw_sort_vector.data@[i].layer == commands.draw_sort_vector.data@[j].layer
            ==> draw_sort_precedes(
            commands.draw_sort_vector.data@[i],
            commands.draw_sort_vector.data@[j],
        ),
{
    assert(commands.draw_sort_vector.data@[i].index == i);
    assert(commands.draw_sort_vector.data@[j].index == j);
}


} // verus!

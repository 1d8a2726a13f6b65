//! The two growable byte arenas shared with the host renderer.
//!
//! The host keeps one structure holding a vertex arena (read as 32-bit floats;
//! modeled here as raw 32-bit words) and an index arena (16-bit entries).
//! Allocation bump-allocates from the current offset, doubling the backing
//! capacity until the request fits. Growth keeps every previously allocated
//! byte, and must set the `heap_allocated` flag each time: the host's own
//! bookkeeping distinguishes never-grown storage from storage grown at least
//! once.

use vstd::prelude::*;
use vstd::arithmetic::power2::pow2;
use vstd::arithmetic::power2::lemma_pow2_unfold;
use vstd::arithmetic::power2::lemma_pow2_adds;
use vstd::arithmetic::power::lemma_pow0;

use crate::error::DrawError;

verus! {

/// Largest end offset, in bytes, that one arena allocation may reach. Keeps
/// every offset computation inside `usize` on any platform.
pub const MAX_ARENA_ALLOC_BYTES: usize = 0x1000_0000;

/// Largest backing capacity in bytes: one doubling above the allocation cap.
pub const MAX_ARENA_CAPACITY_BYTES: usize = 0x2000_0000;

/// Model of the host's vertex-buffer structure: the vertex arena (32-bit
/// words) and the index arena (16-bit entries), each with its capacity,
/// bump-allocation offset and heap flag.
pub struct VertexBuffer {
    /// Backing words of the vertex arena; its length always equals
    /// `buffer_size_u32s`.
    pub buffer: Vec<u32>,
    /// Capacity of the vertex arena in 32-bit words.
    pub buffer_size_u32s: usize,
    /// Bytes of the vertex arena handed out so far this frame.
    pub allocated_size_bytes: usize,
    /// Set whenever the vertex arena has grown; the host reads it.
    pub heap_allocated: bool,
    /// Backing entries of the index arena; its length always equals
    /// `index_buf_size_u16s`.
    pub index_buffer: Vec<u16>,
    /// Capacity of the index arena in 16-bit entries.
    pub index_buf_size_u16s: usize,
    /// Bytes of the index arena handed out so far this frame.
    pub index_buffer_allocated_bytes: usize,
    /// Set whenever the index arena has grown.
    pub index_buf_heap_allocated: bool,
}

/// A capability over the vertex-arena slice `[byte_offset, byte_offset +
/// length * 4)`: writers go through it and cannot reach past `length` words.
#[derive(Clone, Copy, PartialEq, Eq, Structural, Debug)]
pub struct VertexBufferAlloc {
    /// Byte offset of the allocation inside the vertex arena.
    pub byte_offset: usize,
    /// Usable length in 32-bit words.
    pub length: usize,
}

/// A capability over the index-arena slice `[byte_offset, byte_offset +
/// length * 2)`, counted in 16-bit entries.
#[derive(Clone, Copy, PartialEq, Eq, Structural, Debug)]
pub struct IndexBufferAlloc {
    /// Byte offset of the allocation inside the index arena.
    pub byte_offset: usize,
    /// Usable length in 16-bit entries.
    pub length: usize,
}

impl VertexBufferAlloc {
    /// The capability covers storage the vertex arena really holds.
    pub open spec fn valid_for(self, buf: VertexBuffer) -> bool {
        &&& self.byte_offset % 4 == 0
        &&& self.byte_offset + self.length * 4 <= buf.buffer.len() * 4
    }

    /// Index of the first backing word the capability covers.
    pub open spec fn word_offset(self) -> int {
        self.byte_offset as int / 4
    }

    /// Writes word `i` of the allocation; nothing outside it can be reached.
    pub fn set_word(&self, buf: &mut VertexBuffer, i: usize, word: u32)
        requires
            i < self.length,
            self.valid_for(*old(buf)),
        ensures
            final(buf).buffer@ == old(buf).buffer@.update(self.word_offset() + i, word),
            final(buf).buffer_size_u32s == old(buf).buffer_size_u32s,
            final(buf).allocated_size_bytes == old(buf).allocated_size_bytes,
            final(buf).heap_allocated == old(buf).heap_allocated,
            final(buf).index_buffer == old(buf).index_buffer,
            final(buf).index_buf_size_u16s == old(buf).index_buf_size_u16s,
            final(buf).index_buffer_allocated_bytes == old(buf).index_buffer_allocated_bytes,
            final(buf).index_buf_heap_allocated == old(buf).index_buf_heap_allocated,
    {
        let idx = self.byte_offset / 4 + i;
        buf.buffer[idx] = word;
    }
}

impl IndexBufferAlloc {
    /// The capability covers storage the index arena really holds.
    pub open spec fn valid_for(self, buf: VertexBuffer) -> bool {
        &&& self.byte_offset % 2 == 0
        &&& self.byte_offset + self.length * 2 <= buf.index_buffer.len() * 2
    }

    /// Index of the first backing entry the capability covers.
    pub open spec fn entry_offset(self) -> int {
        self.byte_offset as int / 2
    }

    /// Writes entry `i` of the allocation.
    pub fn set_entry(&self, buf: &mut VertexBuffer, i: usize, value: u16)
        requires
            i < self.length,
            self.valid_for(*old(buf)),
        ensures
            final(buf).index_buffer@ == old(buf).index_buffer@.update(
                self.entry_offset() + i,
                value,
            ),
            final(buf).index_buf_size_u16s == old(buf).index_buf_size_u16s,
            final(buf).index_buffer_allocated_bytes == old(buf).index_buffer_allocated_bytes,
            final(buf).index_buf_heap_allocated == old(buf).index_buf_heap_allocated,
            final(buf).buffer == old(buf).buffer,
            final(buf).buffer_size_u32s == old(buf).buffer_size_u32s,
            final(buf).allocated_size_bytes == old(buf).allocated_size_bytes,
            final(buf).heap_allocated == old(buf).heap_allocated,
    {
        let idx = self.byte_offset / 2 + i;
        buf.index_buffer[idx] = value;
    }

    /// Zero-fills every entry of the allocation from `pos` on, so padding
    /// slots reference vertex 0 and the padding quads render as zero-area
    /// triangles instead of garbage. A `pos` at or past the allocation's
    /// length clears nothing: the call is a no-op.
    #[verifier::loop_isolation(false)]
    pub fn zero_after(&self, buf: &mut VertexBuffer, pos: usize)
        requires
            self.valid_for(*old(buf)),
        ensures
            final(buf).index_buffer@.len() == old(buf).index_buffer@.len(),
            forall|j: int|
                0 <= j < old(buf).index_buffer@.len() && !(self.entry_offset() + pos <= j
                    < self.entry_offset() + self.length) ==> final(buf).index_buffer@[j]
                    == old(buf).index_buffer@[j],
            forall|j: int|
                self.entry_offset() + pos <= j < self.entry_offset() + self.length
                    ==> final(buf).index_buffer@[j] == 0,
            final(buf).index_buf_size_u16s == old(buf).index_buf_size_u16s,
            final(buf).index_buffer_allocated_bytes == old(buf).index_buffer_allocated_bytes,
            final(buf).index_buf_heap_allocated == old(buf).index_buf_heap_allocated,
            final(buf).buffer == old(buf).buffer,
            final(buf).buffer_size_u32s == old(buf).buffer_size_u32s,
            final(buf).allocated_size_bytes == old(buf).allocated_size_bytes,
            final(buf).heap_allocated == old(buf).heap_allocated,
    {
        if pos >= self.length {
            return ;
        }
        let mut i: usize = pos;
        while i < self.length
            invariant
                pos <= i <= self.length,
                buf.index_buffer@.len() == old(buf).index_buffer@.len(),
                forall|j: int|
                    0 <= j < old(buf).index_buffer@.len() && !(self.entry_offset() + pos <= j
                        < self.entry_offset() + i) ==> buf.index_buffer@[j]
                        == old(buf).index_buffer@[j],
                forall|j: int|
                    self.entry_offset() + pos <= j < self.entry_offset() + i
                        ==> buf.index_buffer@[j] == 0,
                buf.index_buf_size_u16s == old(buf).index_buf_size_u16s,
                buf.index_buffer_allocated_bytes == old(buf).index_buffer_allocated_bytes,
                buf.index_buf_heap_allocated == old(buf).index_buf_heap_allocated,
                buf.buffer == old(buf).buffer,
                buf.buffer_size_u32s == old(buf).buffer_size_u32s,
                buf.allocated_size_bytes == old(buf).allocated_size_bytes,
                buf.heap_allocated == old(buf).heap_allocated,
            decreases self.length - i,
        {
            let idx = self.byte_offset / 2 + i;
            buf.index_buffer[idx] = 0;
            i = i + 1;
        }
    }
}

/// `cap` is `base` times a power of two: the shape every grown capacity keeps.
pub open spec fn is_pow2_multiple(base: int, cap: int) -> bool {
    exists|k: nat| cap == base * pow2(k)
}

impl VertexBuffer {
    /// The vertex arena's storage is consistent: backing length matches the
    /// capacity, the capacity is bounded, and no more is allocated than held.
    pub open spec fn vertex_storage_ok(self) -> bool {
        &&& self.buffer.len() == self.buffer_size_u32s
        &&& 1 <= self.buffer_size_u32s
        &&& self.buffer_size_u32s * 4 <= MAX_ARENA_CAPACITY_BYTES
        &&& self.allocated_size_bytes <= self.buffer_size_u32s * 4
    }

    /// The index arena's storage is consistent.
    pub open spec fn index_storage_ok(self) -> bool {
        &&& self.index_buffer.len() == self.index_buf_size_u16s
        &&& 1 <= self.index_buf_size_u16s
        &&& self.index_buf_size_u16s * 2 <= MAX_ARENA_CAPACITY_BYTES
        &&& self.index_buffer_allocated_bytes <= self.index_buf_size_u16s * 2
    }

    /// Vertex allocations are 4-byte aligned, so the bump offset always is.
    pub open spec fn vertex_aligned(self) -> bool {
        self.allocated_size_bytes % 4 == 0
    }

    /// Index allocations are 2-byte aligned, so the bump offset always is.
    pub open spec fn index_aligned(self) -> bool {
        self.index_buffer_allocated_bytes % 2 == 0
    }

    /// Full well-formedness: storage consistency plus both alignment
    /// invariants. Constructors establish it and every operation keeps it.
    pub open spec fn wf(self) -> bool {
        &&& self.vertex_storage_ok()
        &&& self.index_storage_ok()
        &&& self.vertex_aligned()
        &&& self.index_aligned()
    }

    /// A fresh pair of arenas with the given capacities and nothing allocated,
    /// as the host sets them up before the first frame.
    #[verifier::loop_isolation(false)]
    pub fn new(vertex_capacity_u32s: usize, index_capacity_u16s: usize) -> (r: VertexBuffer)
        requires
            1 <= vertex_capacity_u32s,
            vertex_capacity_u32s * 4 <= MAX_ARENA_CAPACITY_BYTES,
            1 <= index_capacity_u16s,
            index_capacity_u16s * 2 <= MAX_ARENA_CAPACITY_BYTES,
        ensures
            r.wf(),
            r.buffer_size_u32s == vertex_capacity_u32s,
            r.index_buf_size_u16s == index_capacity_u16s,
            r.allocated_size_bytes == 0,
            r.index_buffer_allocated_bytes == 0,
            !r.heap_allocated,
            !r.index_buf_heap_allocated,
            forall|i: int| 0 <= i < vertex_capacity_u32s ==> r.buffer@[i] == 0,
            forall|i: int| 0 <= i < index_capacity_u16s ==> r.index_buffer@[i] == 0,
    {
        let mut buffer: Vec<u32> = Vec::new();
        let mut i: usize = 0;
        while i < vertex_capacity_u32s
            invariant
                i <= vertex_capacity_u32s,
                buffer.len() == i,
                forall|j: int| 0 <= j < i ==> buffer@[j] == 0,
            decreases vertex_capacity_u32s - i,
        {
            buffer.push(0);
            i = i + 1;
        }
        let mut index_buffer: Vec<u16> = Vec::new();
        let mut j: usize = 0;
        while j < index_capacity_u16s
            invariant
                j <= index_capacity_u16s,
                index_buffer.len() == j,
                forall|k: int| 0 <= k < j ==> index_buffer@[k] == 0,
            decreases index_capacity_u16s - j,
        {
            index_buffer.push(0);
            j = j + 1;
        }
        VertexBuffer {
            buffer,
            buffer_size_u32s: vertex_capacity_u32s,
            allocated_size_bytes: 0,
            heap_allocated: false,
            index_buffer,
            index_buf_size_u16s: index_capacity_u16s,
            index_buffer_allocated_bytes: 0,
            index_buf_heap_allocated: false,
        }
    }
}

/// Capacity of the vertex arena in bytes.
pub fn vertex_buf_capacity_bytes(vertex_buf: &VertexBuffer) -> (r: usize)
    requires
        vertex_buf.buffer_size_u32s * 4 <= MAX_ARENA_CAPACITY_BYTES,
    ensures
        r == vertex_buf.buffer_size_u32s * 4,
{
    vertex_buf.buffer_size_u32s * 4
}

/// Capacity of the index arena in bytes.
pub fn index_buf_capacity_bytes(vertex_buf: &VertexBuffer) -> (r: usize)
    requires
        vertex_buf.index_buf_size_u16s * 2 <= MAX_ARENA_CAPACITY_BYTES,
    ensures
        r == vertex_buf.index_buf_size_u16s * 2,
{
    vertex_buf.index_buf_size_u16s * 2
}

/// One vertex-arena growth step: capacity doubles, every held word is kept,
/// and the heap flag is set — on every step, not only the first, because the
/// host distinguishes never-grown from grown-at-least-once storage.
#[verifier::loop_isolation(false)]
pub fn vertex_buf_grow(vertex_buf: &mut VertexBuffer)
    requires
        old(vertex_buf).vertex_storage_ok(),
        old(vertex_buf).buffer_size_u32s * 8 <= MAX_ARENA_CAPACITY_BYTES,
    ensures
        final(vertex_buf).vertex_storage_ok(),
        final(vertex_buf).buffer_size_u32s == old(vertex_buf).buffer_size_u32s * 2,
        final(vertex_buf).heap_allocated,
        final(vertex_buf).allocated_size_bytes == old(vertex_buf).allocated_size_bytes,
        final(vertex_buf).buffer@.subrange(0, old(vertex_buf).buffer.len() as int)
            == old(vertex_buf).buffer@,
        final(vertex_buf).index_buffer == old(vertex_buf).index_buffer,
        final(vertex_buf).index_buf_size_u16s == old(vertex_buf).index_buf_size_u16s,
        final(vertex_buf).index_buffer_allocated_bytes
            == old(vertex_buf).index_buffer_allocated_bytes,
        final(vertex_buf).index_buf_heap_allocated
            == old(vertex_buf).index_buf_heap_allocated,
    {
    let new_capacity = vertex_buf.buffer_size_u32s * 2;
    vertex_buf.buffer_size_u32s = new_capacity;
    vertex_buf.heap_allocated = true;
    let ghost old_words = vertex_buf.buffer@;
    while vertex_buf.buffer.len() < new_capacity
        invariant
            old_words.len() <= vertex_buf.buffer.len() <= new_capacity,
            vertex_buf.buffer@.subrange(0, old_words.len() as int) == old_words,
            vertex_buf.buffer_size_u32s == new_capacity,
            vertex_buf.heap_allocated,
            vertex_buf.allocated_size_bytes == old(vertex_buf).allocated_size_bytes,
            vertex_buf.index_buffer == old(vertex_buf).index_buffer,
            vertex_buf.index_buf_size_u16s == old(vertex_buf).index_buf_size_u16s,
            vertex_buf.index_buffer_allocated_bytes
                == old(vertex_buf).index_buffer_allocated_bytes,
            vertex_buf.index_buf_heap_allocated == old(vertex_buf).index_buf_heap_allocated,
        decreases new_capacity - vertex_buf.buffer.len(),
    {
        vertex_buf.buffer.push(0);
        proof {
            assert(vertex_buf.buffer@.subrange(0, old_words.len() as int) =~= old_words);
        }
    }
}

/// One index-arena growth step; the mirror of `vertex_buf_grow`.
#[verifier::loop_isolation(false)]
pub fn index_buf_grow(vertex_buf: &mut VertexBuffer)
    requires
        old(vertex_buf).index_storage_ok(),
        old(vertex_buf).index_buf_size_u16s * 4 <= MAX_ARENA_CAPACITY_BYTES,
    ensures
        final(vertex_buf).index_storage_ok(),
        final(vertex_buf).index_buf_size_u16s == old(vertex_buf).index_buf_size_u16s * 2,
        final(vertex_buf).index_buf_heap_allocated,
        final(vertex_buf).index_buffer_allocated_bytes
            == old(vertex_buf).index_buffer_allocated_bytes,
        final(vertex_buf).index_buffer@.subrange(0, old(vertex_buf).index_buffer.len() as int)
            == old(vertex_buf).index_buffer@,
        final(vertex_buf).buffer == old(vertex_buf).buffer,
        final(vertex_buf).buffer_size_u32s == old(vertex_buf).buffer_size_u32s,
        final(vertex_buf).allocated_size_bytes == old(vertex_buf).allocated_size_bytes,
        final(vertex_buf).heap_allocated == old(vertex_buf).heap_allocated,
    {
    let new_capacity = vertex_buf.index_buf_size_u16s * 2;
    vertex_buf.index_buf_size_u16s = new_capacity;
    vertex_buf.index_buf_heap_allocated = true;
    let ghost old_entries = vertex_buf.index_buffer@;
    while vertex_buf.index_buffer.len() < new_capacity
        invariant
            old_entries.len() <= vertex_buf.index_buffer.len() <= new_capacity,
            vertex_buf.index_buffer@.subrange(0, old_entries.len() as int) == old_entries,
            vertex_buf.index_buf_size_u16s == new_capacity,
            vertex_buf.index_buf_heap_allocated,
            vertex_buf.index_buffer_allocated_bytes
                == old(vertex_buf).index_buffer_allocated_bytes,
            vertex_buf.buffer == old(vertex_buf).buffer,
            vertex_buf.buffer_size_u32s == old(vertex_buf).buffer_size_u32s,
            vertex_buf.allocated_size_bytes == old(vertex_buf).allocated_size_bytes,
            vertex_buf.heap_allocated == old(vertex_buf).heap_allocated,
        decreases new_capacity - vertex_buf.index_buffer.len(),
    {
        vertex_buf.index_buffer.push(0);
        proof {
            assert(vertex_buf.index_buffer@.subrange(0, old_entries.len() as int)
                =~= old_entries);
        }
    }
}

/// Bump-allocates `vertex_count * floats_per_vertex` 32-bit words from the
/// vertex arena, growing it by doubling until the request fits. The offset
/// handed out is the pre-call bump offset, 4-byte aligned by the arena
/// invariant; the new bump offset advances by exactly the request's bytes,
/// and every previously allocated word keeps its value.
#[verifier::loop_isolation(false)]
pub fn allocate_vertices(
    vertex_buf: &mut VertexBuffer,
    floats_per_vertex: u32,
    vertex_count: u32,
) -> (alloc: VertexBufferAlloc)
    requires
        old(vertex_buf).vertex_storage_ok(),
        old(vertex_buf).vertex_aligned(),
        old(vertex_buf).allocated_size_bytes
            + (vertex_count as int) * (floats_per_vertex as int) * 4 <= MAX_ARENA_ALLOC_BYTES,
    ensures
        final(vertex_buf).vertex_storage_ok(),
        final(vertex_buf).vertex_aligned(),
        alloc.byte_offset == old(vertex_buf).allocated_size_bytes,
        alloc.byte_offset % 4 == 0,
        alloc.length == (vertex_count as int) * (floats_per_vertex as int),
        final(vertex_buf).allocated_size_bytes == alloc.byte_offset + alloc.length * 4,
        final(vertex_buf).allocated_size_bytes <= final(vertex_buf).buffer_size_u32s * 4,
        final(vertex_buf).buffer@.subrange(0, old(vertex_buf).buffer.len() as int)
            == old(vertex_buf).buffer@,
        is_pow2_multiple(
            old(vertex_buf).buffer_size_u32s as int,
            final(vertex_buf).buffer_size_u32s as int,
        ),
        final(vertex_buf).buffer_size_u32s >= old(vertex_buf).buffer_size_u32s,
        final(vertex_buf).buffer_size_u32s > old(vertex_buf).buffer_size_u32s ==> 2 * (
        alloc.byte_offset + alloc.length * 4) > final(vertex_buf).buffer_size_u32s * 4,
        alloc.byte_offset + alloc.length * 4 <= old(vertex_buf).buffer_size_u32s * 4
            ==> final(vertex_buf).buffer_size_u32s == old(vertex_buf).buffer_size_u32s,
        final(vertex_buf).buffer_size_u32s > old(vertex_buf).buffer_size_u32s
            ==> final(vertex_buf).heap_allocated,
        final(vertex_buf).buffer_size_u32s == old(vertex_buf).buffer_size_u32s
            ==> final(vertex_buf).heap_allocated == old(vertex_buf).heap_allocated,
        final(vertex_buf).index_buffer == old(vertex_buf).index_buffer,
        final(vertex_buf).index_buf_size_u16s == old(vertex_buf).index_buf_size_u16s,
        final(vertex_buf).index_buffer_allocated_bytes
            == old(vertex_buf).index_buffer_allocated_bytes,
        final(vertex_buf).index_buf_heap_allocated
            == old(vertex_buf).index_buf_heap_allocated,
    {
    let float_count = (vertex_count as usize) * (floats_per_vertex as usize);
    let start_offset = vertex_buf.allocated_size_bytes;
    let end_offset = start_offset + float_count * 4;
    proof {
        lemma_pow0(2);
        assert(pow2(0) == 1);
        assert(old(vertex_buf).buffer_size_u32s as int
            == old(vertex_buf).buffer_size_u32s as int * pow2(0));
    }
    while end_offset > vertex_buf.buffer_size_u32s * 4
        invariant
            vertex_buf.vertex_storage_ok(),
            vertex_buf.allocated_size_bytes == old(vertex_buf).allocated_size_bytes,
            end_offset == start_offset + float_count * 4,
            start_offset == old(vertex_buf).allocated_size_bytes,
            end_offset <= MAX_ARENA_ALLOC_BYTES,
            vertex_buf.buffer@.subrange(0, old(vertex_buf).buffer.len() as int)
                == old(vertex_buf).buffer@,
            is_pow2_multiple(
                old(vertex_buf).buffer_size_u32s as int,
                vertex_buf.buffer_size_u32s as int,
            ),
            vertex_buf.buffer_size_u32s >= old(vertex_buf).buffer_size_u32s,
            vertex_buf.buffer_size_u32s > old(vertex_buf).buffer_size_u32s ==> 2 * end_offset
                > vertex_buf.buffer_size_u32s * 4,
            end_offset > old(vertex_buf).buffer_size_u32s * 4 || vertex_buf.buffer_size_u32s
                == old(vertex_buf).buffer_size_u32s,
            vertex_buf.buffer_size_u32s > old(vertex_buf).buffer_size_u32s
                ==> vertex_buf.heap_allocated,
            vertex_buf.buffer_size_u32s == old(vertex_buf).buffer_size_u32s
                ==> vertex_buf.heap_allocated == old(vertex_buf).heap_allocated,
            vertex_buf.index_buffer == old(vertex_buf).index_buffer,
            vertex_buf.index_buf_size_u16s == old(vertex_buf).index_buf_size_u16s,
            vertex_buf.index_buffer_allocated_bytes
                == old(vertex_buf).index_buffer_allocated_bytes,
            vertex_buf.index_buf_heap_allocated == old(vertex_buf).index_buf_heap_allocated,
        decreases MAX_ARENA_CAPACITY_BYTES - vertex_buf.buffer_size_u32s * 4,
    {
        let ghost pre_cap = vertex_buf.buffer_size_u32s as int;
        let ghost pre_words = vertex_buf.buffer@;
        vertex_buf_grow(vertex_buf);
        proof {
            let base = old(vertex_buf).buffer_size_u32s as int;
            let k0 = choose|k: nat| pre_cap == base * pow2(k);
            lemma_pow2_unfold(k0 + 1);
            assert(vertex_buf.buffer_size_u32s as int == base * pow2(k0 + 1))
                by (nonlinear_arith)
                requires
                    pre_cap == base * pow2(k0),
                    vertex_buf.buffer_size_u32s as int == 2 * pre_cap,
                    pow2(k0 + 1) == 2 * pow2(k0),
            ;
            let old_len = old(vertex_buf).buffer.len() as int;
            assert forall|i: int| 0 <= i < old_len implies vertex_buf.buffer@[i]
                == old(vertex_buf).buffer@[i] by {
                assert(vertex_buf.buffer@.subrange(0, pre_words.len() as int)[i]
                    == pre_words[i]);
                assert(pre_words.subrange(0, old_len)[i] == pre_words[i]);
            }
            assert(vertex_buf.buffer@.subrange(0, old_len) =~= old(vertex_buf).buffer@);
        }
    }
    vertex_buf.allocated_size_bytes = end_offset;
    VertexBufferAlloc { byte_offset: start_offset, length: float_count }
}

/// Bump-allocates `count` 16-bit entries from the index arena, growing it by
/// doubling; the mirror of `allocate_vertices` with 2-byte alignment.
#[verifier::loop_isolation(false)]
pub fn allocate_indices(vertex_buf: &mut VertexBuffer, count: u32) -> (alloc: IndexBufferAlloc)
    requires
        old(vertex_buf).index_storage_ok(),
        old(vertex_buf).index_aligned(),
        old(vertex_buf).index_buffer_allocated_bytes + (count as int) * 2
            <= MAX_ARENA_ALLOC_BYTES,
    ensures
        final(vertex_buf).index_storage_ok(),
        final(vertex_buf).index_aligned(),
        alloc.byte_offset == old(vertex_buf).index_buffer_allocated_bytes,
        alloc.byte_offset % 2 == 0,
        alloc.length == count,
        final(vertex_buf).index_buffer_allocated_bytes == alloc.byte_offset + alloc.length * 2,
        final(vertex_buf).index_buffer_allocated_bytes
            <= final(vertex_buf).index_buf_size_u16s * 2,
        final(vertex_buf).index_buffer@.subrange(0, old(vertex_buf).index_buffer.len() as int)
            == old(vertex_buf).index_buffer@,
        is_pow2_multiple(
            old(vertex_buf).index_buf_size_u16s as int,
            final(vertex_buf).index_buf_size_u16s as int,
        ),
        final(vertex_buf).index_buf_size_u16s >= old(vertex_buf).index_buf_size_u16s,
        final(vertex_buf).index_buf_size_u16s > old(vertex_buf).index_buf_size_u16s ==> 2 * (
        alloc.byte_offset + alloc.length * 2) > final(vertex_buf).index_buf_size_u16s * 2,
        alloc.byte_offset + alloc.length * 2 <= old(vertex_buf).index_buf_size_u16s * 2
            ==> final(vertex_buf).index_buf_size_u16s == old(vertex_buf).index_buf_size_u16s,
        final(vertex_buf).index_buf_size_u16s > old(vertex_buf).index_buf_size_u16s
            ==> final(vertex_buf).index_buf_heap_allocated,
        final(vertex_buf).index_buf_size_u16s == old(vertex_buf).index_buf_size_u16s
            ==> final(vertex_buf).index_buf_heap_allocated
                == old(vertex_buf).index_buf_heap_allocated,
        final(vertex_buf).buffer == old(vertex_buf).buffer,
        final(vertex_buf).buffer_size_u32s == old(vertex_buf).buffer_size_u32s,
        final(vertex_buf).allocated_size_bytes == old(vertex_buf).allocated_size_bytes,
        final(vertex_buf).heap_allocated == old(vertex_buf).heap_allocated,
    {
    let entry_count = count as usize;
    let start_offset = vertex_buf.index_buffer_allocated_bytes;
    let end_offset = start_offset + entry_count * 2;
    proof {
        lemma_pow0(2);
        assert(pow2(0) == 1);
        assert(old(vertex_buf).index_buf_size_u16s as int
            == old(vertex_buf).index_buf_size_u16s as int * pow2(0));
    }
    while end_offset > vertex_buf.index_buf_size_u16s * 2
        invariant
            vertex_buf.index_storage_ok(),
            vertex_buf.index_buffer_allocated_bytes
                == old(vertex_buf).index_buffer_allocated_bytes,
            end_offset == start_offset + entry_count * 2,
            start_offset == old(vertex_buf).index_buffer_allocated_bytes,
            end_offset <= MAX_ARENA_ALLOC_BYTES,
            vertex_buf.index_buffer@.subrange(0, old(vertex_buf).index_buffer.len() as int)
                == old(vertex_buf).index_buffer@,
            is_pow2_multiple(
                old(vertex_buf).index_buf_size_u16s as int,
                vertex_buf.index_buf_size_u16s as int,
            ),
            vertex_buf.index_buf_size_u16s >= old(vertex_buf).index_buf_size_u16s,
            vertex_buf.index_buf_size_u16s > old(vertex_buf).index_buf_size_u16s ==> 2
                * end_offset > vertex_buf.index_buf_size_u16s * 2,
            end_offset > old(vertex_buf).index_buf_size_u16s * 2
                || vertex_buf.index_buf_size_u16s == old(vertex_buf).index_buf_size_u16s,
            vertex_buf.index_buf_size_u16s > old(vertex_buf).index_buf_size_u16s
                ==> vertex_buf.index_buf_heap_allocated,
            vertex_buf.index_buf_size_u16s == old(vertex_buf).index_buf_size_u16s
                ==> vertex_buf.index_buf_heap_allocated
                    == old(vertex_buf).index_buf_heap_allocated,
            vertex_buf.buffer == old(vertex_buf).buffer,
            vertex_buf.buffer_size_u32s == old(vertex_buf).buffer_size_u32s,
            vertex_buf.allocated_size_bytes == old(vertex_buf).allocated_size_bytes,
            vertex_buf.heap_allocated == old(vertex_buf).heap_allocated,
        decreases MAX_ARENA_CAPACITY_BYTES - vertex_buf.index_buf_size_u16s * 2,
    {
        let ghost pre_cap = vertex_buf.index_buf_size_u16s as int;
        let ghost pre_entries = vertex_buf.index_buffer@;
        index_buf_grow(vertex_buf);
        proof {
            let base = old(vertex_buf).index_buf_size_u16s as int;
            let k0 = choose|k: nat| pre_cap == base * pow2(k);
            lemma_pow2_unfold(k0 + 1);
            assert(vertex_buf.index_buf_size_u16s as int == base * pow2(k0 + 1))
                by (nonlinear_arith)
                requires
                    pre_cap == base * pow2(k0),
                    vertex_buf.index_buf_size_u16s as int == 2 * pre_cap,
                    pow2(k0 + 1) == 2 * pow2(k0),
            ;
            let old_len = old(vertex_buf).index_buffer.len() as int;
            assert forall|i: int| 0 <= i < old_len implies vertex_buf.index_buffer@[i]
                == old(vertex_buf).index_buffer@[i] by {
                assert(vertex_buf.index_buffer@.subrange(0, pre_entries.len() as int)[i]
                    == pre_entries[i]);
                assert(pre_entries.subrange(0, old_len)[i] == pre_entries[i]);
            }
            assert(vertex_buf.index_buffer@.subrange(0, old_len)
                =~= old(vertex_buf).index_buffer@);
        }
    }
    vertex_buf.index_buffer_allocated_bytes = end_offset;
    IndexBufferAlloc { byte_offset: start_offset, length: entry_count }
}

/// `allocate_vertices` behind a run-time alignment check. The host owns the
/// arenas between frames; if its bump offset comes back misaligned its state
/// is corrupt, and the allocation is refused with `BadAlignment` rather than
/// carried out at a bad offset.
pub fn try_allocate_vertices(
    vertex_buf: &mut VertexBuffer,
    floats_per_vertex: u32,
    vertex_count: u32,
) -> (r: Result<VertexBufferAlloc, DrawError>)
    requires
        old(vertex_buf).vertex_storage_ok(),
        old(vertex_buf).allocated_size_bytes
            + (vertex_count as int) * (floats_per_vertex as int) * 4 <= MAX_ARENA_ALLOC_BYTES,
    ensures
        old(vertex_buf).vertex_aligned() == r.is_ok(),
        !old(vertex_buf).vertex_aligned() ==> r == Result::<
            VertexBufferAlloc,
            DrawError,
        >::Err(DrawError::BadAlignment) && *final(vertex_buf) == *old(vertex_buf),
        r matches Ok(alloc) ==> {
            &&& final(vertex_buf).wf() == old(vertex_buf).wf()
            &&& final(vertex_buf).vertex_storage_ok()
            &&& alloc.byte_offset == old(vertex_buf).allocated_size_bytes
            &&& alloc.length == (vertex_count as int) * (floats_per_vertex as int)
            &&& final(vertex_buf).allocated_size_bytes == alloc.byte_offset + alloc.length * 4
            &&& final(vertex_buf).buffer@.subrange(0, old(vertex_buf).buffer.len() as int)
                == old(vertex_buf).buffer@
            &&& is_pow2_multiple(
                old(vertex_buf).buffer_size_u32s as int,
                final(vertex_buf).buffer_size_u32s as int,
            )
            &&& final(vertex_buf).buffer_size_u32s >= old(vertex_buf).buffer_size_u32s
            &&& alloc.byte_offset + alloc.length * 4 <= old(vertex_buf).buffer_size_u32s * 4
                ==> final(vertex_buf).buffer_size_u32s == old(vertex_buf).buffer_size_u32s
            &&& final(vertex_buf).buffer_size_u32s > old(vertex_buf).buffer_size_u32s
                ==> final(vertex_buf).heap_allocated
            &&& final(vertex_buf).index_buffer == old(vertex_buf).index_buffer
            &&& final(vertex_buf).index_buffer_allocated_bytes == old(
                vertex_buf,
            ).index_buffer_allocated_bytes
        },
{
    if vertex_buf.allocated_size_bytes % 4 != 0 {
        return Err(DrawError::BadAlignment);
    }
    Ok(allocate_vertices(vertex_buf, floats_per_vertex, vertex_count))
}

/// `allocate_indices` behind the 2-byte run-time alignment check.
pub fn try_allocate_indices(vertex_buf: &mut VertexBuffer, count: u32) -> (r: Result<
    IndexBufferAlloc,
    DrawError,
>)
    requires
        old(vertex_buf).index_storage_ok(),
        old(vertex_buf).index_buffer_allocated_bytes + (count as int) * 2
            <= MAX_ARENA_ALLOC_BYTES,
    ensures
        old(vertex_buf).index_aligned() == r.is_ok(),
        !old(vertex_buf).index_aligned() ==> r == Result::<
            IndexBufferAlloc,
            DrawError,
        >::Err(DrawError::BadAlignment) && *final(vertex_buf) == *old(vertex_buf),
        r matches Ok(alloc) ==> {
            &&& final(vertex_buf).index_storage_ok()
            &&& alloc.byte_offset == old(vertex_buf).index_buffer_allocated_bytes
            &&& alloc.length == count
            &&& final(vertex_buf).index_buffer_allocated_bytes
                == alloc.byte_offset + alloc.length * 2
            &&& final(vertex_buf).index_buffer@.subrange(
                0,
                old(vertex_buf).index_buffer.len() as int,
            ) == old(vertex_buf).index_buffer@
            &&& is_pow2_multiple(
                old(vertex_buf).index_buf_size_u16s as int,
                final(vertex_buf).index_buf_size_u16s as int,
            )
            &&& final(vertex_buf).index_buf_size_u16s >= old(vertex_buf).index_buf_size_u16s
            &&& alloc.byte_offset + alloc.length * 2 <= old(vertex_buf).index_buf_size_u16s * 2
                ==> final(vertex_buf).index_buf_size_u16s == old(vertex_buf).index_buf_size_u16s
            &&& final(vertex_buf).index_buf_size_u16s > old(vertex_buf).index_buf_size_u16s
                ==> final(vertex_buf).index_buf_heap_allocated
            &&& final(vertex_buf).buffer == old(vertex_buf).buffer
            &&& final(vertex_buf).allocated_size_bytes == old(vertex_buf).allocated_size_bytes
        },
{
    if vertex_buf.index_buffer_allocated_bytes % 2 != 0 {
        return Err(DrawError::BadAlignment);
    }
    Ok(allocate_indices(vertex_buf, count))
}

/// Capacity growth compounds: a power-of-two multiple of a power-of-two
/// multiple is itself a power-of-two multiple. So after any number of grow
/// steps, across any number of allocations, an arena's capacity is a
/// power-of-two multiple of the capacity it started with.
pub proof fn lemma_growth_compounds(c0: int, c1: int, c2: int)
    requires
        is_pow2_multiple(c0, c1),
        is_pow2_multiple(c1, c2),
    ensures
        is_pow2_multiple(c0, c2),
{
    let k1 = choose|k: nat| c1 == c0 * pow2(k);
    let k2 = choose|k: nat| c2 == c1 * pow2(k);
    lemma_pow2_adds(k1, k2);
    assert(c2 == c0 * (pow2(k1) * pow2(k2))) by (nonlinear_arith)
        requires
            c1 == c0 * pow2(k1),
            c2 == c1 * pow2(k2),
    ;
    assert(c2 == c0 * pow2(k1 + k2));
}

} // verus!

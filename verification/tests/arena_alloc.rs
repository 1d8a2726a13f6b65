use overlay_draw::arena::{
    allocate_indices, allocate_vertices, index_buf_capacity_bytes, try_allocate_indices,
    try_allocate_vertices, vertex_buf_capacity_bytes, VertexBuffer,
};
use overlay_draw::bw_vector::{bw_vector_push, BwVector};
use overlay_draw::error::DrawError;

#[test]
fn allocate_vertices_advances_offset_exactly() {
    let mut vb = VertexBuffer::new(64, 64);
    let a = allocate_vertices(&mut vb, 8, 3);
    assert_eq!(a.byte_offset, 0);
    assert_eq!(a.length, 24);
    assert_eq!(vb.allocated_size_bytes, 96);
    let b = allocate_vertices(&mut vb, 8, 1);
    assert_eq!(b.byte_offset, 96);
    assert_eq!(b.length, 8);
    assert_eq!(vb.allocated_size_bytes, 128);
    assert_eq!(a.byte_offset % 4, 0);
    assert_eq!(b.byte_offset % 4, 0);
}

#[test]
fn allocate_indices_advances_offset_exactly() {
    let mut vb = VertexBuffer::new(16, 16);
    let a = allocate_indices(&mut vb, 6);
    assert_eq!(a.byte_offset, 0);
    assert_eq!(a.length, 6);
    assert_eq!(vb.index_buffer_allocated_bytes, 12);
    let b = allocate_indices(&mut vb, 0);
    assert_eq!(b.byte_offset, 12);
    assert_eq!(b.length, 0);
    assert_eq!(vb.index_buffer_allocated_bytes, 12);
}

#[test]
fn zero_element_allocation_is_valid() {
    let mut vb = VertexBuffer::new(4, 4);
    let a = allocate_vertices(&mut vb, 8, 0);
    assert_eq!(a.byte_offset, 0);
    assert_eq!(a.length, 0);
    assert_eq!(vb.allocated_size_bytes, 0);
}

#[test]
fn growth_doubles_capacity_and_sets_flag() {
    let mut vb = VertexBuffer::new(4, 4);
    assert!(!vb.heap_allocated);
    // 4 u32s = 16 bytes of capacity; one vertex of 8 floats needs 32 bytes.
    let _ = allocate_vertices(&mut vb, 8, 1);
    assert_eq!(vb.buffer_size_u32s, 8);
    assert!(vb.heap_allocated);
    assert_eq!(vertex_buf_capacity_bytes(&vb), 32);
    // The index side is untouched.
    assert_eq!(vb.index_buf_size_u16s, 4);
    assert!(!vb.index_buf_heap_allocated);
}

#[test]
fn growth_is_power_of_two_multiple_and_preserves_contents() {
    let mut vb = VertexBuffer::new(2, 2);
    let a = allocate_vertices(&mut vb, 1, 2);
    a.set_word(&mut vb, 0, 0xdead_beef);
    a.set_word(&mut vb, 1, 0x1234_5678);
    // Force several doublings: 2 -> 4 -> 8 -> 16 -> 32 words.
    let _ = allocate_vertices(&mut vb, 1, 30);
    assert_eq!(vb.buffer_size_u32s, 32);
    assert_eq!(vb.buffer_size_u32s % 2, 0);
    assert!(vb.buffer_size_u32s / 2 == 16 && 16_u32.is_power_of_two());
    // Previously written words survived every reallocation.
    assert_eq!(vb.buffer[0], 0xdead_beef);
    assert_eq!(vb.buffer[1], 0x1234_5678);

    let mut iv = VertexBuffer::new(2, 2);
    let ia = allocate_indices(&mut iv, 2);
    ia.set_entry(&mut iv, 0, 41);
    ia.set_entry(&mut iv, 1, 42);
    let _ = allocate_indices(&mut iv, 30);
    assert_eq!(iv.index_buf_size_u16s, 32);
    assert!(iv.index_buf_heap_allocated);
    assert_eq!(index_buf_capacity_bytes(&iv), 64);
    assert_eq!(iv.index_buffer[0], 41);
    assert_eq!(iv.index_buffer[1], 42);
}

#[test]
fn misaligned_vertex_offset_is_refused() {
    let mut vb = VertexBuffer::new(16, 16);
    vb.allocated_size_bytes = 3;
    let r = try_allocate_vertices(&mut vb, 8, 1);
    assert_eq!(r, Err(DrawError::BadAlignment));
    assert_eq!(vb.allocated_size_bytes, 3);
}

#[test]
fn misaligned_index_offset_is_refused() {
    let mut vb = VertexBuffer::new(16, 16);
    vb.index_buffer_allocated_bytes = 1;
    let r = try_allocate_indices(&mut vb, 6);
    assert_eq!(r, Err(DrawError::BadAlignment));
    assert_eq!(vb.index_buffer_allocated_bytes, 1);
}

#[test]
fn aligned_try_allocate_succeeds() {
    let mut vb = VertexBuffer::new(16, 16);
    let r = try_allocate_vertices(&mut vb, 8, 1).unwrap();
    assert_eq!(r.byte_offset, 0);
    assert_eq!(r.length, 8);
    let ri = try_allocate_indices(&mut vb, 6).unwrap();
    assert_eq!(ri.byte_offset, 0);
    assert_eq!(ri.length, 6);
}

#[test]
fn zero_after_clears_only_the_tail() {
    let mut vb = VertexBuffer::new(4, 8);
    let a = allocate_indices(&mut vb, 6);
    a.set_entry(&mut vb, 0, 1);
    a.set_entry(&mut vb, 1, 2);
    a.set_entry(&mut vb, 2, 3);
    a.set_entry(&mut vb, 3, 9);
    a.zero_after(&mut vb, 3);
    assert_eq!(&vb.index_buffer[0..6], &[1, 2, 3, 0, 0, 0]);
}

#[test]
fn zero_after_beyond_the_allocation_is_a_no_op() {
    let mut vb = VertexBuffer::new(4, 8);
    let a = allocate_indices(&mut vb, 4);
    a.set_entry(&mut vb, 0, 7);
    a.set_entry(&mut vb, 1, 8);
    a.set_entry(&mut vb, 2, 9);
    a.set_entry(&mut vb, 3, 10);
    a.zero_after(&mut vb, 4);
    assert_eq!(&vb.index_buffer[0..4], &[7, 8, 9, 10]);
    a.zero_after(&mut vb, 9);
    assert_eq!(&vb.index_buffer[0..4], &[7, 8, 9, 10]);
}

#[test]
fn allocation_that_fits_never_grows() {
    let mut vb = VertexBuffer::new(64, 64);
    let _ = allocate_vertices(&mut vb, 8, 4);
    assert_eq!(vb.buffer_size_u32s, 64);
    assert!(!vb.heap_allocated);
    let _ = allocate_indices(&mut vb, 24);
    assert_eq!(vb.index_buf_size_u16s, 64);
    assert!(!vb.index_buf_heap_allocated);
    // A zero-element request on a full-to-capacity arena grows nothing.
    let _ = allocate_vertices(&mut vb, 8, 0);
    assert_eq!(vb.buffer_size_u32s, 64);
    assert!(!vb.heap_allocated);
}

#[test]
fn bw_vector_push_doubles_when_full() {
    let mut v: BwVector<u32> = BwVector::with_capacity(2);
    bw_vector_push(&mut v, 10);
    bw_vector_push(&mut v, 20);
    assert_eq!(v.capacity, 2);
    bw_vector_push(&mut v, 30);
    assert_eq!(v.capacity, 4);
    assert_eq!(&v.data[..], &[10, 20, 30]);
}

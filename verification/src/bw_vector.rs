//! The host's growable vector, as used for the draw-sort index: a data
//! pointer, a length and a capacity, grown by doubling when an append finds
//! it full. Growth reallocates and copies, so every held element is kept.

use vstd::prelude::*;

verus! {

/// Largest capacity the model accepts; keeps the doubling inside `usize`.
pub const MAX_BW_VECTOR_CAPACITY: usize = 0x1000_0000;

/// Model of the host's vector: the elements it holds plus the capacity of
/// its backing storage.
pub struct BwVector<T> {
    /// The held elements, in order; the model of the host's data + length.
    pub data: Vec<T>,
    /// Capacity of the backing storage, in elements.
    pub capacity: usize,
}

impl<T> BwVector<T> {
    /// The length never exceeds the capacity, and the capacity is positive
    /// (the host seeds its vectors with room) and bounded.
    pub open spec fn wf(self) -> bool {
        &&& self.data.len() <= self.capacity
        &&& 1 <= self.capacity <= MAX_BW_VECTOR_CAPACITY
    }

    /// An empty vector over backing storage for `capacity` elements.
    pub fn with_capacity(capacity: usize) -> (r: BwVector<T>)
        requires
            1 <= capacity <= MAX_BW_VECTOR_CAPACITY,
        ensures
            r.wf(),
            r.data@ == Seq::<T>::empty(),
            r.capacity == capacity,
    {
        BwVector { data: Vec::new(), capacity }
    }
}

/// Appends `value`, first doubling the capacity if the vector is full; the
/// elements already held are kept, in order.
pub fn bw_vector_push<T>(vec: &mut BwVector<T>, value: T)
    requires
        old(vec).wf(),
        old(vec).data.len() < 0x0800_0000,
    ensures
        final(vec).wf(),
        final(vec).data@ == old(vec).data@.push(value),
        old(vec).data.len() < old(vec).capacity ==> final(vec).capacity == old(vec).capacity,
        old(vec).data.len() >= old(vec).capacity ==> final(vec).capacity == 2 * old(
            vec,
        ).capacity,
{
    if vec.data.len() >= vec.capacity {
        let new_cap = vec.capacity * 2;
        vec.capacity = new_cap;
    }
    vec.data.push(value);
}

} // verus!

//! A double-ended bump allocator for the early boot phase.
//!
//! One contiguous address range serves byte allocations that grow forward
//! from its low end and page allocations that grow backward from its high
//! end. Byte allocations are reclaimed in bulk once every one of them has
//! been released; pages are never given back.
pub mod align;
pub mod early;
pub mod laws;

//! Low-level memory-buffer abstractions and bump/stack-style allocators over
//! caller-supplied byte regions, together with a free-list-based general
//! allocator and an append-only vector built on the bump family.
//!
//! Machine addresses are modelled as logical `usize` addresses: a region is an
//! owned byte buffer paired with the caller-chosen address of its first byte,
//! and allocators hand out addresses inside that span instead of raw pointers.

pub mod align_twiddle;
pub mod aligned_generic_buffer;
pub mod aligned_raw_slice;
pub mod backing_alloc;
pub mod const_allocator_shared;
pub mod const_vec;
pub mod experimental_allocator;
pub mod nonstandard_slices;
pub mod slice_accessor;
pub mod slice_allocator;
pub mod stack_allocator;
pub mod unaligned_const_allocator;
pub mod unaligned_generic_buffer;
pub mod weird_allocator;

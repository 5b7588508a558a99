//! Common vocabularies for the buffer types: what a raw span exposes, and
//! what a span whose contents are known initialized may add on top.

use crate::nonstandard_slices::BaseAddress;
use vstd::prelude::*;

verus! {

/// Access to a described span of elements: its length, its addresses, and
/// its address/length descriptors.
pub trait RawSliceAccessor<T> {
    /// The element count.
    fn len(&self) -> usize;

    /// Whether the span holds no elements.
    fn is_empty(&self) -> bool;

    /// The address of the first element.
    fn as_ptr(&self) -> usize;

    /// The address of the first element, for writes by the span's owner.
    fn as_mut_ptr(&mut self) -> usize;

    /// The span as an address/length descriptor.
    fn as_raw_slice(&self) -> BaseAddress;

    /// The span as an address/length descriptor, for writes by its owner.
    fn as_raw_mut_slice(&mut self) -> BaseAddress;
}

/// Read access to the underlying elements for spans whose initialization is
/// the caller's responsibility: callers must ensure every element was
/// written before reading through these.
pub trait UnsafeSliceAccessor<T>: RawSliceAccessor<T> {
    /// The elements, on the caller's promise that all are initialized.
    fn as_slice(&self) -> &[T];
}

/// Read access to the underlying elements for spans known by construction
/// to be fully initialized.
pub trait SafeSliceAccessor<T>: RawSliceAccessor<T> {
    /// The elements.
    fn as_slice(&self) -> &[T];
}

} // verus!

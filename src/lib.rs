//! Per-field fallibility for record types.
//!
//! A strict record names, field by field, whether the value is always
//! present (`Raw`), may be absent (`Optional`) or may carry an error
//! (`Fallible`). From that annotated declaration this library builds a
//! schema, describes the wrapper record that mirrors it, and defines the
//! all-or-nothing collapse from a wrapper back to the strict record.
use vstd::prelude::*;

pub mod directive;
pub mod schema;
pub mod collapse;

verus! {

/// Links a strict record to its wrapper record.
pub trait ErrPerField {
    /// The wrapper record of this strict record.
    type Wrapper;
}

/// The wrapper record of the strict record `T`.
pub type Wrapper<T> = <T as ErrPerField>::Wrapper;

} // verus!

//! Schema-driven synthesis of structured values from unstructured bytes.
//!
//! A schema lists enum, struct and opaque type nodes. The library classifies
//! each field type, compiles every non-opaque node into a construction
//! recipe, selects enum variants without modulo bias, and can interpret a
//! schema directly against a finite byte source.
use vstd::prelude::*;

pub mod classify;
pub mod compile;
pub mod schema;
pub mod select;
pub mod source;
pub mod synth;

verus! {

} // verus!

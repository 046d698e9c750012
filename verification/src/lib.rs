//! Synthesis of dynamically-dispatchable sibling interfaces.
//!
//! Given an abstract interface definition whose methods may mention the
//! implementing type itself, or generic parameters declared *dynamic*,
//! anywhere inside nested type expressions, this library computes:
//!
//! - where boundary conversion between the concrete representation and an
//!   opaque, type-erased handle is required (the occurrence classifier),
//! - the conversion expressions themselves, in both directions, including
//!   through closures where argument and result convert with opposite
//!   variance (the boundary code generator),
//! - the rewritten method signatures for the dynamic-safe sibling and the
//!   factory sibling of the interface (the method signature rewriter),
//! - forwarding implementations for a fixed catalogue of capability bounds
//!   such as equality, ordering, cloning and the arithmetic operators
//!   (the capability translator), and
//! - a standalone field-by-field structural-equality implementation for
//!   record and tagged-union data shapes.
//!
//! Parsing raw source text into the model used here, and rendering the
//! generated definitions back to source text, are left to collaborating
//! front ends; everything in this crate is a pure function from model
//! values to model values.

pub mod capability;
pub mod classify;
pub mod equality;
pub mod generate;
pub mod model;
pub mod rewrite;
pub mod values;

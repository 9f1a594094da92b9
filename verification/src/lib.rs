//! Core of a foreign-language binding generator for a native module.
//!
//! The heart of the crate is a directed graph of native types and
//! conversion rules over which the generator searches for a path that
//! expresses how a native value of one type becomes a foreign value of
//! another, possibly through an intermediate C-ABI type.  Around that
//! core the crate merges declarative conversion rules, aggregates the
//! emitted code into per-module output buffers, resolves method
//! signatures and emits the native glue together with the foreign-side
//! source text.
use vstd::prelude::*;

pub mod cpp;
pub mod diag;
pub mod dotnet;
pub mod ext;
pub mod graph;
pub mod out;
pub mod registrar;
pub mod rules;
pub mod seed;
pub mod sig;
pub mod text;
pub mod types;

verus! {

/// Identifier of the source file a declaration came from, used in
/// diagnostics.
pub type SourceId = u32;

/// A half-open byte range inside a source file.
#[derive(Clone, Copy, PartialEq, Eq, Structural, Debug)]
pub struct Span {
    pub lo: usize,
    pub hi: usize,
}

} // verus!

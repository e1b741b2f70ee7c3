//! A compile-time aggregate synthesizer.
//!
//! Given a declaration container holding tagged field declarations, tagged
//! import declarations, and splice directives that pull other files'
//! declarations in, the pipeline collects the declarations bound to a named
//! target aggregate, flattens the splice chain into a single declaration
//! stream, and produces a structured description of one aggregate type with
//! a default constructor, its re-exported imports, and a named view for each
//! container-level view declaration: a projection onto a subset of the
//! aggregate's fields, together with a constructor and a reborrow operation.
//!
//! The pipeline is a single forward pass, scan, resolve, collect, partition,
//! emit, that either returns the full structured output or stops at the
//! first diagnostic. Reading files, looking environment variables up,
//! parsing source text and rendering the output into tokens stay outside:
//! the pipeline receives an environment snapshot and a store of already
//! parsed files, and returns plain values.

pub mod bytes;
pub mod collect;
pub mod copy;
pub mod emit;
pub mod expand;
pub mod laws;
pub mod model;
pub mod scan;
pub mod synth;
pub mod tags;

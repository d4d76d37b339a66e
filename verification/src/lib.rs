//! Verified core of a procedure-tracing toolkit.
//!
//! The crate has two halves. The transformation half rewrites a structured
//! procedure definition into two instrumented variants (an entry-point "root"
//! form and a nested "internal" form) and derives constructor and display-name
//! functions for a tagged union of trace events. The runtime half models the
//! trace tree those variants build at run time: an append-only item arena, a
//! flat store of `Op` nodes linked by index, and a current-parent stack whose
//! push/pop balance is the principal structural invariant.

pub mod arena;
pub mod ast;
pub mod attr;
pub mod config;
pub mod helpers;
pub mod step_derive;
pub mod trace;
pub mod transform;

//! Runtime permission engine for a dynamically checked ownership discipline.
//!
//! Every heap value in the interpreted language carries a permission that
//! says what the binding holding it may do: read, write, give it away,
//! lease it out, or hold it across a suspension point.  The engine tracks
//! those rights at run time and, when an operation on one binding conflicts
//! with a lease held by another, revokes the lease rather than crashing.

pub mod code;
pub mod diagnostic;
pub mod invalidated;
pub mod machine;
pub mod permission;
pub mod run;
pub mod tenant;

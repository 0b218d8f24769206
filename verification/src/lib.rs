//! Ownership evidence for natively spawned processes and the bookkeeping of
//! owned-termination operations.

pub mod debug_text;
pub mod identity;
pub mod keyed;
pub mod path;
pub mod protocol;
pub mod registry;
pub mod text;
pub mod token;

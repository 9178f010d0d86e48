//! What the service promises, in terms of what goes in and what comes out.
//!
//! Each law speaks of the contracts' own relations and of plain fields, counts and texts, so
//! that it holds them to what they are for.

pub mod admission;
pub mod requests;
pub mod rows;
pub mod numbers;
pub mod settings;
pub mod answers;
pub mod seconds;

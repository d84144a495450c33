//! Text extraction from page content streams: an interpreter for the text
//! operators, and the projection of the text it yields into renderer space.
//!
//! Numbers are fixed-point integers in millionths of a document unit, so
//! every position the interpreter computes is stated exactly.

pub mod fixed;
pub mod content;
pub mod text;
pub mod page;

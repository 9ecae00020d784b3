//! Fibonacci numbers by index, the line-by-line dialogue that asks for the
//! index, and a few small functions on integers and strings.

pub mod dialogue;
pub mod functions;
pub mod ownership;
pub mod references;
pub mod sequence;
pub mod text;
pub mod validation;

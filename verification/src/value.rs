//! Schemas, dynamically typed values, and the loader that reads the second
//! by the first.

pub mod facts;
pub mod reify;
pub mod render;
pub mod system;
pub mod ty;
pub mod val;

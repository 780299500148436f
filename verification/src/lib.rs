//! Strict encoding: a deterministic, self-delimiting binary format for
//! structured data, and a schema-driven loader that turns strict-encoded
//! bytes into dynamically typed values.

pub mod confinement;
pub mod encoding;
pub mod value;

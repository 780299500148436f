//! The wire format: length tiers, integers, and the byte reader and writer.

pub mod builders;
pub mod error;
pub mod ident;
pub mod le;
pub mod primitives;
pub mod reader;
pub mod sizing;
pub mod text;
pub mod traits;
pub mod writer;

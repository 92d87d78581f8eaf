//! A small core for embedding pipelines: a non-empty, order-preserving
//! container (`OneOrMany`) and the `Embeddable` capability, through which
//! domain types expose the ordered text fragments that should each be turned
//! into one embedding vector.

pub mod decimal;
pub mod embeddable;
pub mod one_or_many;

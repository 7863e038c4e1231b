//! Evolut models creatures whose behaviour is driven by a small neural
//! network (a "brain") compiled from a fixed-width gene sequence (a
//! "genome").
//!
//! The crate covers the core pipeline: the gene codec, the address
//! resolver that folds raw 8-bit identifiers onto the small neuron address
//! spaces, the brain compiler that turns an unordered and possibly cyclic
//! genome into a pruned, cycle-free, deduplicated graph, and the
//! activation evaluator that runs that graph against sensory input.
//!
//! Connection weights travel through the whole pipeline as the raw bit
//! pattern of their IEEE-754 single-precision value; only the caller of
//! the evaluator interprets them numerically.

pub mod brain;
pub mod compiler;
pub mod evaluator;
pub mod gene;
pub mod genome;
pub mod resolver;
pub mod sensory;

//! The genome: an ordered list of a creature's genes.

use crate::gene::Gene;
use vstd::prelude::*;

verus! {

/// Represents a list of a creature's genes. This genome is required to
/// build a creature's brain. Order matters: when several genes target the
/// same resolved neuron id, the earlier gene wins, because each gene is
/// consumed at most once during compilation.
#[derive(Clone, Debug)]
pub struct Genome {
    /// The genes, in genome order.
    pub genes: Vec<Gene>,
}

impl Genome {
    /// Builds a new genome.
    pub fn new(genes: Vec<Gene>) -> (r: Genome)
        ensures
            r.genes@ == genes@,
    {
        Genome { genes }
    }

    /// Gets the creature's genes.
    pub fn genes(&self) -> (r: &Vec<Gene>)
        ensures
            r@ == self.genes@,
    {
        &self.genes
    }
}

} // verus!

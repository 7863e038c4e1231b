use evolut::brain::{Brain, InputNeuron};
use evolut::gene::Gene;
use evolut::genome::Genome;

const MAX_INTERNAL_NEURONS: u8 = 5;
const SENSORY_COUNT: u8 = 13;
const ACTION_COUNT: u8 = 2;

fn gene(source_id: u8, destination_id: u8, weight: f32) -> Gene {
    Gene::new(source_id, destination_id, weight.to_bits())
}

/// The regression genome: it exercises sharing, pruning of a dead-end
/// subtree, and the discarding of a self-cycle gene.
fn regression_genome() -> Genome {
    Genome::new(vec![
        gene(0, 0, 0.1),
        gene(0, 128, 0.2),
        gene(129, 130, 0.3),
        gene(131, 130, 0.4),
        gene(130, 1, 0.5),
        gene(1, 131, 0.6),
        gene(2, 131, 0.7),
        gene(3, 132, 0.8),
        gene(132, 131, 0.9),
        gene(130, 132, 1.0),
        gene(131, 131, 1.1),
    ])
}

fn compile_regression() -> Brain {
    Brain::new(&regression_genome(), SENSORY_COUNT, ACTION_COUNT, MAX_INTERNAL_NEURONS)
}

fn combine(terms: Vec<(u32, u32)>) -> u32 {
    terms
        .iter()
        .fold(0.0f32, |acc, &(w, a)| acc + f32::from_bits(w) * f32::from_bits(a))
        .tanh()
        .to_bits()
}

#[test]
fn regression_brain_structure() {
    let brain = compile_regression();

    // Two action neurons, discovered in genome order.
    let actions = brain.actions();
    assert_eq!(actions.len(), 2);
    assert_eq!(actions[0].action_id, 0);
    assert_eq!(actions[1].action_id, 1);

    // Action 0 is fed by sensory channel 0 (age) alone.
    assert_eq!(actions[0].inputs().len(), 1);
    assert_eq!(actions[0].inputs()[0].input(), InputNeuron::Sensory(0));
    assert_eq!(actions[0].inputs()[0].weight(), 0.1f32.to_bits());

    // Three internal neurons survive, registered bottom-up:
    // slot 0 is internal id 132, slot 1 is id 131, slot 2 is id 130.
    let internals = brain.internals();
    assert_eq!(internals.len(), 3);

    // Internal 132: only (3, 132, 0.8); the cycle gene (130, 132, 1.0)
    // back into the in-progress id 130 is discarded.
    assert_eq!(internals[0].inputs().len(), 1);
    assert_eq!(internals[0].inputs()[0].input(), InputNeuron::Sensory(3));
    assert_eq!(internals[0].inputs()[0].weight(), 0.8f32.to_bits());

    // Internal 131: two sensory inputs and the shared internal 132; the
    // self-cycle gene (131, 131, 1.1) is discarded.
    assert_eq!(internals[1].inputs().len(), 3);
    assert_eq!(internals[1].inputs()[0].input(), InputNeuron::Sensory(1));
    assert_eq!(internals[1].inputs()[1].input(), InputNeuron::Sensory(2));
    assert_eq!(internals[1].inputs()[2].input(), InputNeuron::Internal(0));
    assert_eq!(internals[1].inputs()[2].weight(), 0.9f32.to_bits());

    // Internal 130: fed by internal 131 alone; the gene (129, 130, 0.3)
    // was consumed but its source id 129 has no genes and was pruned.
    assert_eq!(internals[2].inputs().len(), 1);
    assert_eq!(internals[2].inputs()[0].input(), InputNeuron::Internal(1));
    assert_eq!(internals[2].inputs()[0].weight(), 0.4f32.to_bits());

    // Action 1 is fed by internal 130.
    assert_eq!(actions[1].inputs().len(), 1);
    assert_eq!(actions[1].inputs()[0].input(), InputNeuron::Internal(2));
    assert_eq!(actions[1].inputs()[0].weight(), 0.5f32.to_bits());
}

#[test]
fn regression_brain_outputs() {
    let brain = compile_regression();
    // All channels zero except age (channel 0) = 1.0.
    let mut channels = vec![0.0f32.to_bits(); SENSORY_COUNT as usize];
    channels[0] = 1.0f32.to_bits();
    let out = brain.evaluate(&channels, &combine);
    assert_eq!(out.len(), 2);
    // Action 0 sees exactly the term (0.1, age = 1.0).
    let expected0 = combine(vec![(0.1f32.to_bits(), 1.0f32.to_bits())]);
    assert_eq!(out[0], expected0);
    assert!((f32::from_bits(out[0]) - 0.09966799).abs() < 1e-6);
    // Every neuron feeding action 1 sums to zero, and tanh(0) = 0.
    assert_eq!(f32::from_bits(out[1]), 0.0);
}

#[test]
fn every_gene_contributes_at_most_one_connection() {
    let brain = compile_regression();
    let total: usize = brain
        .internals()
        .iter()
        .map(|n| n.inputs().len())
        .sum::<usize>()
        + brain.actions().iter().map(|n| n.inputs().len()).sum::<usize>();
    // Eleven genes: the two cycle genes and the dead-end gene (129, 130)
    // contribute nothing, and gene (0, 128, 0.2) is never consumed at all.
    assert_eq!(total, 7);
    assert!(total <= regression_genome().genes().len());
}

#[test]
fn genome_without_action_destinations_compiles_to_an_empty_brain() {
    // Every destination keeps its high bit, so nothing resolves to an
    // action neuron and the whole genome is dead.
    let genome = Genome::new(vec![
        gene(0, 128, 0.5),
        gene(129, 130, 0.25),
        gene(130, 129, -0.5),
        gene(200, 255, 1.0),
    ]);
    let brain = Brain::new(&genome, SENSORY_COUNT, ACTION_COUNT, MAX_INTERNAL_NEURONS);
    assert_eq!(brain.actions().len(), 0);
}

#[test]
fn empty_genome_compiles_to_an_empty_brain() {
    let brain = Brain::new(&Genome::new(Vec::new()), SENSORY_COUNT, ACTION_COUNT, MAX_INTERNAL_NEURONS);
    assert_eq!(brain.actions().len(), 0);
    assert_eq!(brain.internals().len(), 0);
}

#[test]
fn dead_end_action_tree_is_pruned() {
    // The only action-destined gene draws on an internal id that no gene
    // feeds, so the action neuron itself ends up with no inputs.
    let genome = Genome::new(vec![gene(128, 0, 0.5)]);
    let brain = Brain::new(&genome, SENSORY_COUNT, ACTION_COUNT, MAX_INTERNAL_NEURONS);
    assert_eq!(brain.actions().len(), 0);
    assert_eq!(brain.internals().len(), 0);
}

#[test]
fn traversal_from_actions_never_revisits_a_neuron() {
    // Structural acyclicity: an arena neuron only ever points to a
    // strictly smaller slot, so a depth-first walk cannot loop.
    let brain = compile_regression();
    for (i, neuron) in brain.internals().iter().enumerate() {
        for c in neuron.inputs() {
            if let InputNeuron::Internal(j) = c.input() {
                assert!(j < i);
            }
        }
    }
    for neuron in brain.actions() {
        for c in neuron.inputs() {
            if let InputNeuron::Internal(j) = c.input() {
                assert!(j < brain.internals().len());
            }
        }
    }
}

#[test]
fn compiling_twice_and_evaluating_gives_identical_outputs() {
    let genome = regression_genome();
    let b1 = Brain::new(&genome, SENSORY_COUNT, ACTION_COUNT, MAX_INTERNAL_NEURONS);
    let b2 = Brain::new(&genome, SENSORY_COUNT, ACTION_COUNT, MAX_INTERNAL_NEURONS);
    let mut channels = vec![0.0f32.to_bits(); SENSORY_COUNT as usize];
    channels[0] = 1.0f32.to_bits();
    channels[2] = 0.75f32.to_bits();
    channels[3] = (-0.5f32).to_bits();
    let out1 = b1.evaluate(&channels, &combine);
    let out2 = b2.evaluate(&channels, &combine);
    assert_eq!(out1, out2);
}

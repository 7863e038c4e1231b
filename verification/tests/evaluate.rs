use std::cell::Cell;

use evolut::brain::{ActionOutput, Brain, InputNeuron};
use evolut::gene::Gene;
use evolut::genome::Genome;
use evolut::resolver::{
    calculate_action_neuron_id, calculate_internal_neuron_id, calculate_sensory_neuron_id,
};
use evolut::sensory::{
    LineOfSight, LinesOfSight, SensoryInput, SensoryInputs, SensoryNeuron, SENSORY_CHANNEL_COUNT,
};

fn gene(source_id: u8, destination_id: u8, weight: f32) -> Gene {
    Gene::new(source_id, destination_id, weight.to_bits())
}

fn combine(terms: Vec<(u32, u32)>) -> u32 {
    terms
        .iter()
        .fold(0.0f32, |acc, &(w, a)| acc + f32::from_bits(w) * f32::from_bits(a))
        .tanh()
        .to_bits()
}

/// Two action neurons that both depend on the same internal neuron.
fn sharing_brain() -> Brain {
    let genome = Genome::new(vec![
        gene(0, 128, 0.5),
        gene(128, 0, 0.25),
        gene(128, 1, -0.75),
    ]);
    Brain::new(&genome, SENSORY_CHANNEL_COUNT, 2, 5)
}

#[test]
fn shared_internal_neuron_is_computed_once() {
    let brain = sharing_brain();
    assert_eq!(brain.internals().len(), 1);
    assert_eq!(brain.actions().len(), 2);
    assert_eq!(brain.actions()[0].inputs()[0].input(), InputNeuron::Internal(0));
    assert_eq!(brain.actions()[1].inputs()[0].input(), InputNeuron::Internal(0));

    // Instrumented combine function: the evaluator must call it exactly
    // once per neuron -- once for the shared internal neuron, once per
    // action neuron -- and never recompute the shared activation.
    let calls = Cell::new(0u32);
    let counting = |terms: Vec<(u32, u32)>| -> u32 {
        calls.set(calls.get() + 1);
        combine(terms)
    };
    let mut channels = vec![0.0f32.to_bits(); SENSORY_CHANNEL_COUNT as usize];
    channels[0] = 0.8f32.to_bits();
    let out = brain.evaluate(&channels, &counting);
    assert_eq!(calls.get(), 3);

    // Both consumers observe the identical cached value.
    let shared = combine(vec![(0.5f32.to_bits(), 0.8f32.to_bits())]);
    assert_eq!(out[0], combine(vec![(0.25f32.to_bits(), shared)]));
    assert_eq!(out[1], combine(vec![((-0.75f32).to_bits(), shared)]));
}

#[test]
fn summation_follows_connection_order() {
    // One action neuron with three sensory inputs. Folding in connection
    // order cancels exactly -- (1e8 + 1) rounds to 1e8, then subtracting
    // 1e8 leaves zero -- while any other order would leave a sum of 1 and
    // an output near tanh(1). The zero output pins the order.
    let genome = Genome::new(vec![
        gene(0, 0, 1.0),
        gene(1, 0, 1.0),
        gene(2, 0, 1.0),
    ]);
    let brain = Brain::new(&genome, SENSORY_CHANNEL_COUNT, 2, 5);
    assert_eq!(brain.actions().len(), 1);
    assert_eq!(brain.actions()[0].inputs().len(), 3);
    let mut channels = vec![0.0f32.to_bits(); SENSORY_CHANNEL_COUNT as usize];
    channels[0] = 1.0e8f32.to_bits();
    channels[1] = 1.0f32.to_bits();
    channels[2] = (-1.0e8f32).to_bits();
    let out = brain.evaluate(&channels, &combine);
    assert_eq!(f32::from_bits(out[0]), 0.0);
}

#[test]
fn resolver_folds_ids_onto_their_address_spaces() {
    assert_eq!(calculate_sensory_neuron_id(0, 13), 0);
    assert_eq!(calculate_sensory_neuron_id(13, 13), 0);
    assert_eq!(calculate_sensory_neuron_id(27, 13), 1);
    assert_eq!(calculate_action_neuron_id(0, 2), 0);
    assert_eq!(calculate_action_neuron_id(5, 2), 1);
    assert_eq!(calculate_internal_neuron_id(128, 5), 128);
    assert_eq!(calculate_internal_neuron_id(133, 5), 128);
    assert_eq!(calculate_internal_neuron_id(131, 5), 131);
    assert_eq!(calculate_internal_neuron_id(255, 5), 130);
}

#[test]
fn sensory_catalog_matches_channel_ids() {
    assert_eq!(SensoryNeuron::new(0).input(), SensoryInput::Age);
    assert_eq!(SensoryNeuron::new(1).input(), SensoryInput::Speed);
    assert_eq!(SensoryNeuron::new(2).input(), SensoryInput::AngularVelocity);
    assert_eq!(
        SensoryNeuron::new(3).input(),
        SensoryInput::LineOfSight(LineOfSight::LeftCreature)
    );
    assert_eq!(
        SensoryNeuron::new(11).input(),
        SensoryInput::LineOfSight(LineOfSight::RightObstacle)
    );
    assert_eq!(SensoryNeuron::new(12).input(), SensoryInput::StoredEnergy);
}

#[test]
fn channel_values_lay_the_snapshot_out_in_catalog_order() {
    let inputs = SensoryInputs {
        age: 1.0f32.to_bits(),
        speed: 2.0f32.to_bits(),
        angular_velocity: 3.0f32.to_bits(),
        lines_of_sight: LinesOfSight {
            left_creature: 4.0f32.to_bits(),
            left_food: 5.0f32.to_bits(),
            left_obstacle: 6.0f32.to_bits(),
            middle_creature: 7.0f32.to_bits(),
            middle_food: 8.0f32.to_bits(),
            middle_obstacle: 9.0f32.to_bits(),
            right_creature: 10.0f32.to_bits(),
            right_food: 11.0f32.to_bits(),
            right_obstacle: 12.0f32.to_bits(),
        },
        stored_energy: 13.0f32.to_bits(),
    };
    let channels = inputs.channel_values();
    assert_eq!(channels.len(), SENSORY_CHANNEL_COUNT as usize);
    for (i, &bits) in channels.iter().enumerate() {
        assert_eq!(f32::from_bits(bits), (i + 1) as f32);
    }
}

#[test]
fn snapshot_reads_agree_between_catalog_and_fields() {
    let inputs = SensoryInputs {
        age: 0.25f32.to_bits(),
        speed: 0.5f32.to_bits(),
        angular_velocity: (-0.125f32).to_bits(),
        lines_of_sight: LinesOfSight {
            left_creature: 0.1f32.to_bits(),
            left_food: 0.2f32.to_bits(),
            left_obstacle: 0.3f32.to_bits(),
            middle_creature: 0.4f32.to_bits(),
            middle_food: 0.5f32.to_bits(),
            middle_obstacle: 0.6f32.to_bits(),
            right_creature: 0.7f32.to_bits(),
            right_food: 0.8f32.to_bits(),
            right_obstacle: 0.9f32.to_bits(),
        },
        stored_energy: 42.0f32.to_bits(),
    };
    let channels = inputs.channel_values();
    for id in 0..SENSORY_CHANNEL_COUNT {
        let neuron = SensoryNeuron::new(id);
        assert_eq!(inputs.value_of(&neuron), channels[id as usize]);
    }
}

#[test]
fn action_outputs_follow_the_action_id() {
    let brain = sharing_brain();
    assert_eq!(brain.actions()[0].output(), ActionOutput::Acceleration);
    assert_eq!(brain.actions()[1].output(), ActionOutput::AngularAcceleration);
}

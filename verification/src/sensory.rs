//! The sensory channel catalog: what each resolved sensory id measures,
//! and the per-tick snapshot of channel values.

use vstd::prelude::*;

verus! {

/// How many sensory channels the catalog below describes.
pub const SENSORY_CHANNEL_COUNT: u8 = 13;

/// A direction and object kind pair for a line-of-sight channel.
#[derive(Clone, Copy, Debug, PartialEq, Eq, Structural)]
pub enum LineOfSight {
    LeftCreature,
    LeftFood,
    LeftObstacle,
    MiddleCreature,
    MiddleFood,
    MiddleObstacle,
    RightCreature,
    RightFood,
    RightObstacle,
}

/// The environmental or physiological quantity a sensory neuron exposes.
#[derive(Clone, Copy, Debug, PartialEq, Eq, Structural)]
pub enum SensoryInput {
    Age,
    Speed,
    AngularVelocity,
    LineOfSight(LineOfSight),
    StoredEnergy,
}

/// The catalog: which quantity each resolved sensory id measures.
pub open spec fn spec_sensory_input(sensory_neuron_id: u8) -> SensoryInput {
    if sensory_neuron_id == 0 {
        SensoryInput::Age
    } else if sensory_neuron_id == 1 {
        SensoryInput::Speed
    } else if sensory_neuron_id == 2 {
        SensoryInput::AngularVelocity
    } else if sensory_neuron_id == 3 {
        SensoryInput::LineOfSight(LineOfSight::LeftCreature)
    } else if sensory_neuron_id == 4 {
        SensoryInput::LineOfSight(LineOfSight::LeftFood)
    } else if sensory_neuron_id == 5 {
        SensoryInput::LineOfSight(LineOfSight::LeftObstacle)
    } else if sensory_neuron_id == 6 {
        SensoryInput::LineOfSight(LineOfSight::MiddleCreature)
    } else if sensory_neuron_id == 7 {
        SensoryInput::LineOfSight(LineOfSight::MiddleFood)
    } else if sensory_neuron_id == 8 {
        SensoryInput::LineOfSight(LineOfSight::MiddleObstacle)
    } else if sensory_neuron_id == 9 {
        SensoryInput::LineOfSight(LineOfSight::RightCreature)
    } else if sensory_neuron_id == 10 {
        SensoryInput::LineOfSight(LineOfSight::RightFood)
    } else if sensory_neuron_id == 11 {
        SensoryInput::LineOfSight(LineOfSight::RightObstacle)
    } else {
        SensoryInput::StoredEnergy
    }
}

/// The inputs to the neural network.
#[derive(Clone, Copy, Debug, PartialEq, Eq, Structural)]
pub struct SensoryNeuron {
    /// The quantity this neuron exposes.
    pub input: SensoryInput,
}

impl SensoryNeuron {
    /// Creates a new sensory neuron for a resolved sensory id.
    pub fn new(sensory_neuron_id: u8) -> (r: SensoryNeuron)
        requires
            sensory_neuron_id < SENSORY_CHANNEL_COUNT,
        ensures
            r.input == spec_sensory_input(sensory_neuron_id),
    {
        let input = match sensory_neuron_id {
            0 => SensoryInput::Age,
            1 => SensoryInput::Speed,
            2 => SensoryInput::AngularVelocity,
            3 => SensoryInput::LineOfSight(LineOfSight::LeftCreature),
            4 => SensoryInput::LineOfSight(LineOfSight::LeftFood),
            5 => SensoryInput::LineOfSight(LineOfSight::LeftObstacle),
            6 => SensoryInput::LineOfSight(LineOfSight::MiddleCreature),
            7 => SensoryInput::LineOfSight(LineOfSight::MiddleFood),
            8 => SensoryInput::LineOfSight(LineOfSight::MiddleObstacle),
            9 => SensoryInput::LineOfSight(LineOfSight::RightCreature),
            10 => SensoryInput::LineOfSight(LineOfSight::RightFood),
            11 => SensoryInput::LineOfSight(LineOfSight::RightObstacle),
            _ => SensoryInput::StoredEnergy,
        };
        SensoryNeuron { input }
    }

    /// Returns its input type.
    pub fn input(&self) -> (r: SensoryInput)
        ensures
            r == self.input,
    {
        self.input
    }
}

/// The per-direction line-of-sight magnitudes, each carried as the raw
/// bit pattern of its IEEE-754 single-precision value.
#[derive(Clone, Copy, Debug, PartialEq, Eq, Structural, Default)]
pub struct LinesOfSight {
    pub left_creature: u32,
    pub left_food: u32,
    pub left_obstacle: u32,
    pub middle_creature: u32,
    pub middle_food: u32,
    pub middle_obstacle: u32,
    pub right_creature: u32,
    pub right_food: u32,
    pub right_obstacle: u32,
}

/// A per-tick snapshot of every sensory channel, each value carried as
/// the raw bit pattern of its IEEE-754 single-precision value.
#[derive(Clone, Copy, Debug, PartialEq, Eq, Structural)]
pub struct SensoryInputs {
    pub age: u32,
    pub speed: u32,
    pub angular_velocity: u32,
    pub lines_of_sight: LinesOfSight,
    pub stored_energy: u32,
}

/// The snapshot value of one resolved sensory id, per the catalog.
pub open spec fn spec_channel_value(inputs: SensoryInputs, sensory_neuron_id: u8) -> u32 {
    if sensory_neuron_id == 0 {
        inputs.age
    } else if sensory_neuron_id == 1 {
        inputs.speed
    } else if sensory_neuron_id == 2 {
        inputs.angular_velocity
    } else if sensory_neuron_id == 3 {
        inputs.lines_of_sight.left_creature
    } else if sensory_neuron_id == 4 {
        inputs.lines_of_sight.left_food
    } else if sensory_neuron_id == 5 {
        inputs.lines_of_sight.left_obstacle
    } else if sensory_neuron_id == 6 {
        inputs.lines_of_sight.middle_creature
    } else if sensory_neuron_id == 7 {
        inputs.lines_of_sight.middle_food
    } else if sensory_neuron_id == 8 {
        inputs.lines_of_sight.middle_obstacle
    } else if sensory_neuron_id == 9 {
        inputs.lines_of_sight.right_creature
    } else if sensory_neuron_id == 10 {
        inputs.lines_of_sight.right_food
    } else if sensory_neuron_id == 11 {
        inputs.lines_of_sight.right_obstacle
    } else {
        inputs.stored_energy
    }
}

/// The snapshot value of one sensory quantity.
pub open spec fn spec_input_value(inputs: SensoryInputs, input: SensoryInput) -> u32 {
    match input {
        SensoryInput::Age => inputs.age,
        SensoryInput::Speed => inputs.speed,
        SensoryInput::AngularVelocity => inputs.angular_velocity,
        SensoryInput::LineOfSight(direction) => match direction {
            LineOfSight::LeftCreature => inputs.lines_of_sight.left_creature,
            LineOfSight::LeftFood => inputs.lines_of_sight.left_food,
            LineOfSight::LeftObstacle => inputs.lines_of_sight.left_obstacle,
            LineOfSight::MiddleCreature => inputs.lines_of_sight.middle_creature,
            LineOfSight::MiddleFood => inputs.lines_of_sight.middle_food,
            LineOfSight::MiddleObstacle => inputs.lines_of_sight.middle_obstacle,
            LineOfSight::RightCreature => inputs.lines_of_sight.right_creature,
            LineOfSight::RightFood => inputs.lines_of_sight.right_food,
            LineOfSight::RightObstacle => inputs.lines_of_sight.right_obstacle,
        },
        SensoryInput::StoredEnergy => inputs.stored_energy,
    }
}

/// Reading the snapshot through the catalog and reading it by channel id
/// agree: the value of channel `id` is the value of the quantity the
/// catalog assigns to `id`.
pub proof fn lemma_catalog_coherent(inputs: SensoryInputs, sensory_neuron_id: u8)
    requires
        sensory_neuron_id < SENSORY_CHANNEL_COUNT,
    ensures
        spec_channel_value(inputs, sensory_neuron_id) == spec_input_value(
            inputs,
            spec_sensory_input(sensory_neuron_id),
        ),
{
}

impl SensoryInputs {
    /// The snapshot value a sensory neuron exposes.
    pub fn value_of(&self, neuron: &SensoryNeuron) -> (r: u32)
        ensures
            r == spec_input_value(*self, neuron.input),
    {
        match neuron.input {
            SensoryInput::Age => self.age,
            SensoryInput::Speed => self.speed,
            SensoryInput::AngularVelocity => self.angular_velocity,
            SensoryInput::LineOfSight(direction) => match direction {
                LineOfSight::LeftCreature => self.lines_of_sight.left_creature,
                LineOfSight::LeftFood => self.lines_of_sight.left_food,
                LineOfSight::LeftObstacle => self.lines_of_sight.left_obstacle,
                LineOfSight::MiddleCreature => self.lines_of_sight.middle_creature,
                LineOfSight::MiddleFood => self.lines_of_sight.middle_food,
                LineOfSight::MiddleObstacle => self.lines_of_sight.middle_obstacle,
                LineOfSight::RightCreature => self.lines_of_sight.right_creature,
                LineOfSight::RightFood => self.lines_of_sight.right_food,
                LineOfSight::RightObstacle => self.lines_of_sight.right_obstacle,
            },
            SensoryInput::StoredEnergy => self.stored_energy,
        }
    }

    /// Lays the snapshot out as one value per resolved sensory id, in
    /// catalog order, ready to hand to the activation evaluator.
    pub fn channel_values(&self) -> (r: Vec<u32>)
        ensures
            r@.len() == SENSORY_CHANNEL_COUNT,
            forall|id: u8| id < SENSORY_CHANNEL_COUNT ==> r@[id as int] == spec_channel_value(*self, id),
    {
        let mut r: Vec<u32> = Vec::new();
        r.push(self.age);
        r.push(self.speed);
        r.push(self.angular_velocity);
        r.push(self.lines_of_sight.left_creature);
        r.push(self.lines_of_sight.left_food);
        r.push(self.lines_of_sight.left_obstacle);
        r.push(self.lines_of_sight.middle_creature);
        r.push(self.lines_of_sight.middle_food);
        r.push(self.lines_of_sight.middle_obstacle);
        r.push(self.lines_of_sight.right_creature);
        r.push(self.lines_of_sight.right_food);
        r.push(self.lines_of_sight.right_obstacle);
        r.push(self.stored_energy);
        r
    }
}

} // verus!

//! The brain: a pruned, cycle-free, deduplicated graph of neurons.
//!
//! Internal neurons live in a flat arena owned by the brain, and a
//! connection names its input either by sensory channel id or by arena
//! slot. A well-formed brain only ever points from an arena slot to a
//! strictly smaller one, which makes cycle-freedom structural.

use vstd::prelude::*;

verus! {

/// The specific neuron which a connection depends upon.
#[derive(Clone, Copy, Debug, PartialEq, Eq, Structural)]
pub enum InputNeuron {
    /// A sensory neuron, named by its resolved channel id.
    Sensory(u8),
    /// An internal neuron, named by its slot in the brain's arena.
    Internal(usize),
}

/// Represents a weighted dependency on another neuron.
#[derive(Clone, Copy, Debug, PartialEq, Eq, Structural)]
pub struct Connection {
    /// The neuron the connection draws its input from.
    pub input: InputNeuron,
    /// The weight of the connection, carried as the raw bit pattern of
    /// its IEEE-754 single-precision value.
    pub weight: u32,
}

impl Connection {
    /// Creates a new connection.
    pub fn new(input: InputNeuron, weight: u32) -> (r: Connection)
        ensures
            r == (Connection { input, weight }),
    {
        Connection { input, weight }
    }

    /// Returns the connection input.
    pub fn input(&self) -> (r: InputNeuron)
        ensures
            r == self.input,
    {
        self.input
    }

    /// Returns the weight of the connection.
    pub fn weight(&self) -> (r: u32)
        ensures
            r == self.weight,
    {
        self.weight
    }
}

/// A connection may only name a sensory channel below the configured
/// channel count, or an arena slot below the given bound.
pub open spec fn connection_wf(c: Connection, slot_bound: int, sensory_count: u8) -> bool {
    match c.input {
        InputNeuron::Sensory(channel) => channel < sensory_count,
        InputNeuron::Internal(slot) => (slot as int) < slot_bound,
    }
}

/// Neurons which exist to facilitate more complexity in the neural
/// network.
#[derive(Clone, Debug)]
pub struct InternalNeuron {
    /// The ordered inputs of the neuron.
    pub inputs: Vec<Connection>,
}

impl InternalNeuron {
    /// Creates a new internal neuron.
    pub fn new(inputs: Vec<Connection>) -> (r: InternalNeuron)
        ensures
            r.inputs@ == inputs@,
    {
        InternalNeuron { inputs }
    }

    /// Returns a reference to its inputs.
    pub fn inputs(&self) -> (r: &Vec<Connection>)
        ensures
            r@ == self.inputs@,
    {
        &self.inputs
    }
}

/// The outputs of a creature's neural network.
#[derive(Clone, Debug)]
pub struct ActionNeuron {
    /// The resolved action id that selects the neuron's output kind.
    pub action_id: u8,
    /// The ordered inputs of the neuron.
    pub inputs: Vec<Connection>,
}

impl ActionNeuron {
    /// Creates a new action neuron.
    pub fn new(action_neuron_id: u8, inputs: Vec<Connection>) -> (r: ActionNeuron)
        ensures
            r.action_id == action_neuron_id,
            r.inputs@ == inputs@,
    {
        ActionNeuron { action_id: action_neuron_id, inputs }
    }

    /// Returns a reference to its inputs.
    pub fn inputs(&self) -> (r: &Vec<Connection>)
        ensures
            r@ == self.inputs@,
    {
        &self.inputs
    }
}

/// How many action outputs the catalog below describes.
pub const ACTION_CHANNEL_COUNT: u8 = 2;

/// The output type of an action neuron.
#[derive(Clone, Copy, Debug, PartialEq, Eq, Structural)]
pub enum ActionOutput {
    /// The acceleration to be applied to a creature's velocity.
    Acceleration,
    /// The angular acceleration to be applied to a creature's angular
    /// velocity.
    AngularAcceleration,
}

/// The catalog: which output each resolved action id drives.
pub open spec fn spec_action_output(action_neuron_id: u8) -> ActionOutput {
    if action_neuron_id == 0 {
        ActionOutput::Acceleration
    } else {
        ActionOutput::AngularAcceleration
    }
}

impl ActionNeuron {
    /// Returns its output type.
    pub fn output(&self) -> (r: ActionOutput)
        requires
            self.action_id < ACTION_CHANNEL_COUNT,
        ensures
            r == spec_action_output(self.action_id),
    {
        if self.action_id == 0 {
            ActionOutput::Acceleration
        } else {
            ActionOutput::AngularAcceleration
        }
    }
}

/// A collection of neurons.
///
/// The brain is a neural network, where the sensory channels are the
/// inputs to the network, and the action neurons are the outputs,
/// directly modifying the behaviour of the creature. Internal neurons sit
/// in the arena; a brain is immutable once compiled.
#[derive(Clone, Debug)]
pub struct Brain {
    /// How many sensory channels the brain was compiled against.
    pub sensory_count: u8,
    /// How many action outputs the brain was compiled against.
    pub action_count: u8,
    /// The configured internal address space size.
    pub max_internal_neurons: u8,
    /// The arena of internal neurons. A neuron in slot `i` only draws on
    /// sensory channels and on slots strictly below `i`.
    pub internals: Vec<InternalNeuron>,
    /// The action neurons, in order of first discovery.
    pub actions: Vec<ActionNeuron>,
}

impl Brain {
    /// Well-formedness: every neuron kept in the brain has at least one
    /// input, every connection stays inside the address spaces, and a
    /// connection of an arena neuron only ever points to a strictly
    /// smaller slot, so the dependency graph is acyclic by construction.
    pub open spec fn wf(&self) -> bool {
        &&& forall|i: int|
            0 <= i < self.internals@.len() ==> {
                &&& (#[trigger] self.internals@[i]).inputs@.len() > 0
                &&& forall|k: int|
                    0 <= k < self.internals@[i].inputs@.len() ==> connection_wf(
                        #[trigger] self.internals@[i].inputs@[k],
                        i,
                        self.sensory_count,
                    )
            }
        &&& forall|a: int|
            0 <= a < self.actions@.len() ==> {
                &&& (#[trigger] self.actions@[a]).inputs@.len() > 0
                &&& self.actions@[a].action_id < self.action_count
                &&& forall|k: int|
                    0 <= k < self.actions@[a].inputs@.len() ==> connection_wf(
                        #[trigger] self.actions@[a].inputs@[k],
                        self.internals@.len() as int,
                        self.sensory_count,
                    )
            }
    }

    /// Returns a reference to the arena of internal neurons.
    pub fn internals(&self) -> (r: &Vec<InternalNeuron>)
        ensures
            r@ == self.internals@,
    {
        &self.internals
    }

    /// Returns a reference to the action neurons, in order of first
    /// discovery.
    pub fn actions(&self) -> (r: &Vec<ActionNeuron>)
        ensures
            r@ == self.actions@,
    {
        &self.actions
    }

    /// There is a dependency edge from arena slot `a` to arena slot `b`.
    pub open spec fn edge(&self, a: int, b: int) -> bool {
        &&& 0 <= a < self.internals@.len()
        &&& exists|k: int|
            0 <= k < self.internals@[a].inputs@.len() && (#[trigger] self.internals@[a].inputs@[k]).input is Internal
                && self.internals@[a].inputs@[k].input->Internal_0 as int == b
    }

    /// The slot sequence `p` walks dependency edges through the arena.
    pub open spec fn is_path(&self, p: Seq<int>) -> bool {
        forall|k: int| 0 <= k < p.len() - 1 ==> self.edge(p[k], #[trigger] p[k + 1])
    }
}

/// In a well-formed brain, every dependency edge leads to a strictly
/// smaller arena slot.
proof fn lemma_edge_decreases(brain: &Brain, a: int, b: int)
    requires
        brain.wf(),
        brain.edge(a, b),
    ensures
        0 <= b < a,
{
}

/// Law: the brain is acyclic. A forward traversal from any neuron through
/// its connections walks strictly decreasing arena slots, so it can never
/// revisit a neuron already on the current traversal path. Action neurons
/// start such traversals: each of their connections enters the arena at
/// some slot, and every continuation from there is a path in this sense.
pub proof fn lemma_traversal_never_revisits(brain: &Brain, p: Seq<int>)
    requires
        brain.wf(),
        brain.is_path(p),
    ensures
        forall|i: int, j: int| 0 <= i < j < p.len() ==> p[j] < p[i],
    decreases p.len(),
{
    if p.len() > 1 {
        let q = p.drop_last();
        assert forall|k: int| 0 <= k < q.len() - 1 implies brain.edge(q[k], #[trigger] q[k + 1]) by {
            assert(brain.edge(p[k], p[k + 1]));
        }
        lemma_traversal_never_revisits(brain, q);
        let n = p.len() - 1;
        assert(brain.edge(p[n - 1], p[(n - 1) + 1]));
        lemma_edge_decreases(brain, p[n - 1], p[n]);
        assert forall|i: int, j: int| 0 <= i < j < p.len() implies p[j] < p[i] by {
            if j < n {
                assert(q[j] < q[i]);
            } else if i < n - 1 {
                assert(q[n - 1] < q[i]);
            }
        }
    }
}

} // verus!

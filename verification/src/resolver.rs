//! The address resolver: modular arithmetic that folds the raw 8-bit
//! identifiers carried by a gene onto the small fixed address spaces of
//! the three neuron kinds.
//!
//! Several distinct raw ids resolve to the same neuron id on purpose:
//! this collapse is the mechanism by which independently encoded genes
//! converge on shared structure.

use vstd::arithmetic::div_mod::lemma_mod_decreases;
use vstd::prelude::*;

verus! {

/// The resolved id of a sensory neuron: the raw source id folded onto the
/// sensory channel address space.
pub open spec fn spec_sensory_neuron_id(source_id: u8, sensory_count: u8) -> u8 {
    ((source_id as int) % (sensory_count as int)) as u8
}

/// The resolved id of an action neuron: the raw destination id folded
/// onto the action output address space.
pub open spec fn spec_action_neuron_id(destination_id: u8, action_count: u8) -> u8 {
    ((destination_id as int) % (action_count as int)) as u8
}

/// The resolved id of an internal neuron: the raw id, which carries a set
/// high bit, folded onto the internal address space and offset back by
/// 128 so that resolved internal ids stay disjoint from resolved sensory
/// and action ids.
pub open spec fn spec_internal_neuron_id(raw_id: u8, max_internal_neurons: u8) -> u8 {
    (128 + (raw_id as int - 128) % (max_internal_neurons as int)) as u8
}

/// A resolved id never exceeds the raw id it came from.
proof fn lemma_mod_le(x: u8, m: u8)
    requires
        m > 0,
    ensures
        0 <= (x as int) % (m as int) <= x,
        (x as int) % (m as int) < m,
{
    lemma_mod_decreases(x as nat, m as nat);
}

/// Folds a raw source id onto the sensory channel address space.
pub fn calculate_sensory_neuron_id(source_id: u8, sensory_count: u8) -> (r: u8)
    requires
        sensory_count > 0,
    ensures
        r == spec_sensory_neuron_id(source_id, sensory_count),
        r < sensory_count,
        r <= source_id,
{
    proof {
        lemma_mod_le(source_id, sensory_count);
    }
    source_id % sensory_count
}

/// Folds a raw destination id onto the action output address space.
pub fn calculate_action_neuron_id(destination_id: u8, action_count: u8) -> (r: u8)
    requires
        action_count > 0,
    ensures
        r == spec_action_neuron_id(destination_id, action_count),
        r < action_count,
        r <= destination_id,
{
    proof {
        lemma_mod_le(destination_id, action_count);
    }
    destination_id % action_count
}

/// Folds a raw internal-neuron id onto the internal address space. The
/// result keeps its high bit, so it can never collide with a resolved
/// sensory or action id.
pub fn calculate_internal_neuron_id(raw_id: u8, max_internal_neurons: u8) -> (r: u8)
    requires
        max_internal_neurons > 0,
        raw_id >= 128,
    ensures
        r == spec_internal_neuron_id(raw_id, max_internal_neurons),
        128 <= r,
        r as int - 128 < max_internal_neurons,
        r as int - 128 < 128,
{
    proof {
        lemma_mod_le((raw_id - 128) as u8, max_internal_neurons);
    }
    128 + (raw_id - 128) % max_internal_neurons
}

} // verus!

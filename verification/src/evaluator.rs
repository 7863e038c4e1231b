//! The activation evaluator: runs a compiled brain against one snapshot
//! of sensory channel values and yields one scalar per action neuron.
//!
//! All scalars are carried as raw IEEE-754 single-precision bit patterns.
//! The one numeric step -- folding a neuron's weighted terms into its
//! activation and squashing the sum -- is supplied by the caller as a
//! combine function from the ordered `(weight, input)` term list to the
//! activation. Everything else is verified here: each arena neuron's
//! activation is computed exactly once, in arena order, every consumer
//! reads that single cached value, and the terms handed to the combine
//! function are exactly the neuron's connections, in connection order.

use crate::brain::{Brain, Connection, InputNeuron, connection_wf};
use crate::compiler::{actions_view, arena_view, spec_compile};
use crate::gene::Gene;
use vstd::prelude::*;

verus! {

/// The ordered `(weight, input activation)` terms of one neuron: one term
/// per connection, pairing the connection's weight with the value its
/// input carries -- the channel snapshot for a sensory input, the arena
/// activation for an internal input.
pub open spec fn spec_terms(conns: Seq<Connection>, acts: Seq<u32>, channels: Seq<u32>) -> Seq<
    (u32, u32),
> {
    conns.map_values(
        |c: Connection|
            (
                c.weight,
                match c.input {
                    InputNeuron::Sensory(channel) => channels[channel as int],
                    InputNeuron::Internal(slot) => acts[slot as int],
                },
            ),
    )
}

/// `r` is a value the combine function may return for the given term
/// list.
pub open spec fn slot_value<F: Fn(Vec<(u32, u32)>) -> u32>(
    f: F,
    terms: Seq<(u32, u32)>,
    r: u32,
) -> bool {
    exists|v: Vec<(u32, u32)>| #[trigger] call_ensures(f, (v,), r) && v@ == terms
}

/// One full evaluation trace over the views of a brain: `acts` assigns
/// every arena slot exactly one activation, computed by the combine
/// function from that slot's terms, and `out` likewise assigns each
/// action neuron its output, in order of discovery.
pub open spec fn eval_trace<F: Fn(Vec<(u32, u32)>) -> u32>(
    arena: Seq<Seq<Connection>>,
    actions: Seq<(u8, Seq<Connection>)>,
    channels: Seq<u32>,
    f: F,
    acts: Seq<u32>,
    out: Seq<u32>,
) -> bool {
    &&& acts.len() == arena.len()
    &&& out.len() == actions.len()
    &&& forall|i: int|
        0 <= i < acts.len() ==> slot_value(f, spec_terms(arena[i], acts, channels), #[trigger] acts[i])
    &&& forall|a: int|
        0 <= a < out.len() ==> slot_value(
            f,
            spec_terms(actions[a].1, acts, channels),
            #[trigger] out[a],
        )
}

/// The combine function looks only at the term list it is handed: equal
/// term lists always yield the equal result.
pub open spec fn combine_deterministic<F: Fn(Vec<(u32, u32)>) -> u32>(f: F) -> bool {
    forall|v1: Vec<(u32, u32)>, v2: Vec<(u32, u32)>, r1: u32, r2: u32|
        #![trigger call_ensures(f, (v1,), r1), call_ensures(f, (v2,), r2)]
        call_ensures(f, (v1,), r1) && call_ensures(f, (v2,), r2) && v1@ == v2@ ==> r1 == r2
}

/// A neuron's terms depend only on the activations of the slots its
/// connections can reach.
proof fn lemma_terms_frame(
    conns: Seq<Connection>,
    acts1: Seq<u32>,
    acts2: Seq<u32>,
    channels: Seq<u32>,
    bound: int,
    sensory_count: u8,
)
    requires
        forall|k: int|
            0 <= k < conns.len() ==> connection_wf(#[trigger] conns[k], bound, sensory_count),
        bound <= acts1.len(),
        bound <= acts2.len(),
        forall|j: int| 0 <= j < bound ==> acts1[j] == acts2[j],
        sensory_count <= channels.len(),
    ensures
        spec_terms(conns, acts1, channels) == spec_terms(conns, acts2, channels),
{
    assert(spec_terms(conns, acts1, channels) =~= spec_terms(conns, acts2, channels));
}

/// The ordered terms of one neuron, gathered from the snapshot and the
/// activations computed so far.
fn gather_terms(
    conns: &Vec<Connection>,
    acts: &Vec<u32>,
    channels: &Vec<u32>,
    Ghost(bound): Ghost<int>,
    Ghost(sensory_count): Ghost<u8>,
) -> (r: Vec<(u32, u32)>)
    requires
        forall|k: int|
            0 <= k < conns@.len() ==> connection_wf(#[trigger] conns@[k], bound, sensory_count),
        bound <= acts@.len(),
        sensory_count <= channels@.len(),
    ensures
        r@ == spec_terms(conns@, acts@, channels@),
{
    let mut r: Vec<(u32, u32)> = Vec::new();
    let mut k: usize = 0;
    while k < conns.len()
        invariant
            forall|j: int|
                0 <= j < conns@.len() ==> connection_wf(#[trigger] conns@[j], bound, sensory_count),
            bound <= acts@.len(),
            sensory_count <= channels@.len(),
            0 <= k <= conns@.len(),
            r@.len() == k,
            forall|j: int|
                0 <= j < k ==> #[trigger] r@[j] == spec_terms(conns@, acts@, channels@)[j],
        decreases conns@.len() - k,
    {
        let c = conns[k];
        let value = match c.input {
            InputNeuron::Sensory(channel) => channels[channel as usize],
            InputNeuron::Internal(slot) => acts[slot],
        };
        r.push((c.weight, value));
        k += 1;
    }
    proof {
        assert(r@ =~= spec_terms(conns@, acts@, channels@));
    }
    r
}

impl Brain {
    /// Evaluates the brain against one snapshot of sensory channel
    /// values, walking the arena in order so that every internal neuron's
    /// activation is computed exactly once and every consumer reads that
    /// single cached value. The combine function turns one neuron's
    /// ordered `(weight, input)` terms into its activation; the caller
    /// interprets the bit patterns numerically.
    ///
    /// Returns one output per action neuron, in order of discovery.
    pub fn evaluate<F: Fn(Vec<(u32, u32)>) -> u32>(&self, channels: &Vec<u32>, combine: &F) -> (out:
        Vec<u32>)
        requires
            self.wf(),
            channels@.len() == self.sensory_count,
            forall|v: Vec<(u32, u32)>| #[trigger] call_requires(*combine, (v,)),
        ensures
            out@.len() == self.actions@.len(),
            exists|acts: Seq<u32>|
                eval_trace(
                    arena_view(self.internals@),
                    actions_view(self.actions@),
                    channels@,
                    *combine,
                    acts,
                    out@,
                ),
    {
        let ghost arena = arena_view(self.internals@);
        let ghost acted = actions_view(self.actions@);
        let mut acts: Vec<u32> = Vec::new();
        let mut i: usize = 0;
        while i < self.internals.len()
            invariant
                self.wf(),
                channels@.len() == self.sensory_count,
                forall|v: Vec<(u32, u32)>| #[trigger] call_requires(*combine, (v,)),
                arena == arena_view(self.internals@),
                0 <= i <= self.internals@.len(),
                acts@.len() == i,
                forall|j: int|
                    0 <= j < i ==> slot_value(
                        *combine,
                        spec_terms(arena[j], acts@, channels@),
                        #[trigger] acts@[j],
                    ),
            decreases self.internals@.len() - i,
        {
            let ghost acts_pre = acts@;
            let terms = gather_terms(
                &self.internals[i].inputs,
                &acts,
                channels,
                Ghost(i as int),
                Ghost(self.sensory_count),
            );
            let ghost termsv = terms@;
            let value = combine(terms);
            acts.push(value);
            proof {
                assert(arena[i as int] == self.internals@[i as int].inputs@);
                assert forall|j: int| 0 <= j < i + 1 implies slot_value(
                    *combine,
                    spec_terms(arena[j], acts@, channels@),
                    #[trigger] acts@[j],
                ) by {
                    if j < i {
                        lemma_terms_frame(
                            arena[j],
                            acts_pre,
                            acts@,
                            channels@,
                            j,
                            self.sensory_count,
                        );
                    } else {
                        lemma_terms_frame(
                            arena[j],
                            acts_pre,
                            acts@,
                            channels@,
                            j,
                            self.sensory_count,
                        );
                        assert(spec_terms(arena[j], acts_pre, channels@) == termsv);
                        assert(call_ensures(*combine, (terms,), value));
                    }
                }
            }
            i += 1;
        }
        let mut out: Vec<u32> = Vec::new();
        let mut a: usize = 0;
        while a < self.actions.len()
            invariant
                self.wf(),
                channels@.len() == self.sensory_count,
                forall|v: Vec<(u32, u32)>| #[trigger] call_requires(*combine, (v,)),
                arena == arena_view(self.internals@),
                acted == actions_view(self.actions@),
                acts@.len() == self.internals@.len(),
                forall|j: int|
                    0 <= j < acts@.len() ==> slot_value(
                        *combine,
                        spec_terms(arena[j], acts@, channels@),
                        #[trigger] acts@[j],
                    ),
                0 <= a <= self.actions@.len(),
                out@.len() == a,
                forall|b: int|
                    0 <= b < a ==> slot_value(
                        *combine,
                        spec_terms(acted[b].1, acts@, channels@),
                        #[trigger] out@[b],
                    ),
            decreases self.actions@.len() - a,
        {
            let terms = gather_terms(
                &self.actions[a].inputs,
                &acts,
                channels,
                Ghost(self.internals@.len() as int),
                Ghost(self.sensory_count),
            );
            let ghost termsv = terms@;
            let value = combine(terms);
            out.push(value);
            proof {
                assert(acted[a as int].1 == self.actions@[a as int].inputs@);
                assert(call_ensures(*combine, (terms,), value));
                assert(spec_terms(acted[a as int].1, acts@, channels@) == termsv);
            }
            a += 1;
        }
        proof {
            assert(eval_trace(arena, acted, channels@, *combine, acts@, out@));
        }
        out
    }
}

/// Law: sharing. Within one evaluation trace, any two connections -- in
/// any two action neurons -- that resolve to the same internal neuron
/// slot observe the identical value: the single activation the trace
/// assigned to that slot.
pub proof fn lemma_sharing<F: Fn(Vec<(u32, u32)>) -> u32>(
    arena: Seq<Seq<Connection>>,
    actions: Seq<(u8, Seq<Connection>)>,
    channels: Seq<u32>,
    f: F,
    acts: Seq<u32>,
    out: Seq<u32>,
    a1: int,
    k1: int,
    a2: int,
    k2: int,
    slot: usize,
)
    requires
        eval_trace(arena, actions, channels, f, acts, out),
        0 <= a1 < actions.len(),
        0 <= k1 < actions[a1].1.len(),
        0 <= a2 < actions.len(),
        0 <= k2 < actions[a2].1.len(),
        actions[a1].1[k1].input == InputNeuron::Internal(slot),
        actions[a2].1[k2].input == InputNeuron::Internal(slot),
        slot < acts.len(),
    ensures
        spec_terms(actions[a1].1, acts, channels)[k1].1 == acts[slot as int],
        spec_terms(actions[a2].1, acts, channels)[k2].1 == acts[slot as int],
        slot_value(f, spec_terms(arena[slot as int], acts, channels), acts[slot as int]),
{
}

/// The activations of two traces over one arena agree on every slot below
/// `n`, because every slot's terms only reach strictly smaller slots.
proof fn lemma_trace_acts_agree<F: Fn(Vec<(u32, u32)>) -> u32>(
    arena: Seq<Seq<Connection>>,
    channels: Seq<u32>,
    f: F,
    acts1: Seq<u32>,
    acts2: Seq<u32>,
    sensory_count: u8,
    n: int,
)
    requires
        combine_deterministic(f),
        sensory_count <= channels.len(),
        acts1.len() == arena.len(),
        acts2.len() == arena.len(),
        forall|i: int, k: int|
            0 <= i < arena.len() && 0 <= k < arena[i].len() ==> connection_wf(
                #[trigger] arena[i][k],
                i,
                sensory_count,
            ),
        forall|i: int|
            0 <= i < arena.len() ==> slot_value(
                f,
                spec_terms(arena[i], acts1, channels),
                #[trigger] acts1[i],
            ),
        forall|i: int|
            0 <= i < arena.len() ==> slot_value(
                f,
                spec_terms(arena[i], acts2, channels),
                #[trigger] acts2[i],
            ),
        0 <= n <= arena.len(),
    ensures
        forall|i: int| 0 <= i < n ==> acts1[i] == acts2[i],
    decreases n,
{
    if n > 0 {
        lemma_trace_acts_agree(arena, channels, f, acts1, acts2, sensory_count, n - 1);
        let i = n - 1;
        lemma_terms_frame(arena[i], acts1, acts2, channels, i, sensory_count);
        let terms = spec_terms(arena[i], acts1, channels);
        let v1 = choose|v: Vec<(u32, u32)>| call_ensures(f, (v,), acts1[i]) && v@ == terms;
        let v2 = choose|v: Vec<(u32, u32)>|
            call_ensures(f, (v,), acts2[i]) && v@ == spec_terms(arena[i], acts2, channels);
        assert(call_ensures(f, (v1,), acts1[i]));
        assert(call_ensures(f, (v2,), acts2[i]));
        assert(v1@ == v2@);
        assert forall|j: int| 0 <= j < n implies acts1[j] == acts2[j] by {}
    }
}

/// Law: determinism. Two evaluation traces over the same brain views, the
/// same channel snapshot, and a combine function that looks only at its
/// term list assign the same activation to every neuron and yield the
/// same outputs. Together with the compiler's functional contract --
/// compiling one genome twice gives brains with equal views -- this says
/// that compiling the same genome twice and evaluating both brains
/// against the same snapshot yields identical outputs.
pub proof fn lemma_determinism<F: Fn(Vec<(u32, u32)>) -> u32>(
    arena: Seq<Seq<Connection>>,
    actions: Seq<(u8, Seq<Connection>)>,
    channels: Seq<u32>,
    f: F,
    sensory_count: u8,
    acts1: Seq<u32>,
    out1: Seq<u32>,
    acts2: Seq<u32>,
    out2: Seq<u32>,
)
    requires
        combine_deterministic(f),
        sensory_count <= channels.len(),
        forall|i: int, k: int|
            0 <= i < arena.len() && 0 <= k < arena[i].len() ==> connection_wf(
                #[trigger] arena[i][k],
                i,
                sensory_count,
            ),
        forall|a: int, k: int|
            0 <= a < actions.len() && 0 <= k < actions[a].1.len() ==> connection_wf(
                #[trigger] actions[a].1[k],
                arena.len() as int,
                sensory_count,
            ),
        eval_trace(arena, actions, channels, f, acts1, out1),
        eval_trace(arena, actions, channels, f, acts2, out2),
    ensures
        acts1 == acts2,
        out1 == out2,
{
    lemma_trace_acts_agree(arena, channels, f, acts1, acts2, sensory_count, arena.len() as int);
    assert(acts1 =~= acts2);
    assert forall|b: int| 0 <= b < out1.len() implies out1[b] == out2[b] by {
        let terms = spec_terms(actions[b].1, acts1, channels);
        let v1 = choose|v: Vec<(u32, u32)>| call_ensures(f, (v,), out1[b]) && v@ == terms;
        let v2 = choose|v: Vec<(u32, u32)>|
            call_ensures(f, (v,), out2[b]) && v@ == spec_terms(actions[b].1, acts2, channels);
        assert(call_ensures(f, (v1,), out1[b]));
        assert(call_ensures(f, (v2,), out2[b]));
        assert(v1@ == v2@);
    }
    assert(out1 =~= out2);
}

/// A well-formed brain's views keep every connection inside its address
/// space: an arena neuron only reaches strictly smaller slots, an action
/// neuron only reaches the arena.
proof fn lemma_wf_views(brain: &Brain)
    requires
        brain.wf(),
    ensures
        forall|i: int, k: int|
            0 <= i < arena_view(brain.internals@).len() && 0 <= k < arena_view(brain.internals@)[i].len()
                ==> connection_wf(
                #[trigger] arena_view(brain.internals@)[i][k],
                i,
                brain.sensory_count,
            ),
        forall|a: int, k: int|
            0 <= a < actions_view(brain.actions@).len() && 0 <= k < actions_view(
                brain.actions@,
            )[a].1.len() ==> connection_wf(
                #[trigger] actions_view(brain.actions@)[a].1[k],
                arena_view(brain.internals@).len() as int,
                brain.sensory_count,
            ),
{
    let arena = arena_view(brain.internals@);
    let acted = actions_view(brain.actions@);
    assert forall|i: int, k: int|
        0 <= i < arena.len() && 0 <= k < arena[i].len() implies connection_wf(
        #[trigger] arena[i][k],
        i,
        brain.sensory_count,
    ) by {
        assert(arena[i] == brain.internals@[i].inputs@);
    }
    assert forall|a: int, k: int|
        0 <= a < acted.len() && 0 <= k < acted[a].1.len() implies connection_wf(
        #[trigger] acted[a].1[k],
        arena.len() as int,
        brain.sensory_count,
    ) by {
        assert(acted[a].1 == brain.actions@[a].inputs@);
    }
}

/// Law: determinism, end to end. Two brains compiled from the same genome
/// under the same configuration have equal views, because the compiler's
/// result equals the specification model; evaluating both against the
/// same channel snapshot with a combine function that looks only at its
/// term list then yields identical outputs.
pub proof fn lemma_compile_evaluate_deterministic<F: Fn(Vec<(u32, u32)>) -> u32>(
    b1: &Brain,
    b2: &Brain,
    genome: Seq<Gene>,
    action_count: u8,
    max_internal_neurons: u8,
    channels: Seq<u32>,
    f: F,
    acts1: Seq<u32>,
    out1: Seq<u32>,
    acts2: Seq<u32>,
    out2: Seq<u32>,
)
    requires
        b1.wf(),
        b2.wf(),
        b1.sensory_count == b2.sensory_count,
        b1.sensory_count <= channels.len(),
        arena_view(b1.internals@) == spec_compile(
            genome,
            b1.sensory_count,
            action_count,
            max_internal_neurons,
        ).0,
        actions_view(b1.actions@) == spec_compile(
            genome,
            b1.sensory_count,
            action_count,
            max_internal_neurons,
        ).1,
        arena_view(b2.internals@) == spec_compile(
            genome,
            b2.sensory_count,
            action_count,
            max_internal_neurons,
        ).0,
        actions_view(b2.actions@) == spec_compile(
            genome,
            b2.sensory_count,
            action_count,
            max_internal_neurons,
        ).1,
        combine_deterministic(f),
        eval_trace(arena_view(b1.internals@), actions_view(b1.actions@), channels, f, acts1, out1),
        eval_trace(arena_view(b2.internals@), actions_view(b2.actions@), channels, f, acts2, out2),
    ensures
        out1 == out2,
{
    lemma_wf_views(b1);
    lemma_determinism(
        arena_view(b1.internals@),
        actions_view(b1.actions@),
        channels,
        f,
        b1.sensory_count,
        acts1,
        out1,
        acts2,
        out2,
    );
}

} // verus!

//! The brain compiler: turns an ordered genome into a pruned, cycle-free,
//! deduplicated brain.
//!
//! The compiler first resolves every gene's ids through the address
//! resolver, then scans the working genome in order: whenever an
//! unconsumed gene's resolved destination is an action id, it recursively
//! builds that action neuron's dependency tree. Every gene is consumed at
//! most once, a gene that closes a cycle through a neuron still under
//! construction is discarded, and a neuron that ends up with no inputs is
//! pruned and never registered.
//!
//! The executable compiler is proved equal to the specification model
//! below, so compiling a genome twice gives equal brains.

use crate::brain::{ActionNeuron, Brain, Connection, InputNeuron, InternalNeuron, connection_wf};
use crate::gene::Gene;
use crate::genome::Genome;
use crate::resolver::{
    calculate_action_neuron_id, calculate_internal_neuron_id, calculate_sensory_neuron_id,
    spec_action_neuron_id, spec_internal_neuron_id, spec_sensory_neuron_id,
};
use vstd::arithmetic::div_mod::lemma_small_mod;
use vstd::prelude::*;

verus! {

/// A gene with both ids resolved onto their address spaces.
pub open spec fn spec_normalize_gene(g: Gene, sensory_count: u8, action_count: u8, max_internal_neurons: u8) -> Gene {
    Gene {
        source_id: if g.source_id < 128 {
            spec_sensory_neuron_id(g.source_id, sensory_count)
        } else {
            spec_internal_neuron_id(g.source_id, max_internal_neurons)
        },
        destination_id: if g.destination_id < 128 {
            spec_action_neuron_id(g.destination_id, action_count)
        } else {
            spec_internal_neuron_id(g.destination_id, max_internal_neurons)
        },
        weight: g.weight,
    }
}

/// The whole genome, resolved, in order, weights untouched.
pub open spec fn spec_normalize(genome: Seq<Gene>, sensory_count: u8, action_count: u8, max_internal_neurons: u8) -> Seq<Gene> {
    genome.map_values(|g: Gene| spec_normalize_gene(g, sensory_count, action_count, max_internal_neurons))
}

/// The mutable working set of one compilation: which genes are still
/// unconsumed, which internal ids have been built and where, and the
/// arena grown so far (each entry is one internal neuron's input list).
pub ghost struct CompileState {
    /// One flag per gene: still unconsumed?
    pub active: Seq<bool>,
    /// One entry per possible internal id offset (the id minus 128): the
    /// arena slot the id was registered under, once built.
    pub built: Seq<Option<usize>>,
    /// The input lists of the internal neurons built so far.
    pub arena: Seq<Seq<Connection>>,
}

/// The working set before any gene is consumed.
pub open spec fn spec_init_state(gene_count: nat) -> CompileState {
    CompileState {
        active: Seq::new(gene_count, |i: int| true),
        built: Seq::new(128, |i: int| None),
        arena: Seq::empty(),
    }
}

/// How many genes are still unconsumed.
pub open spec fn count_active(s: Seq<bool>) -> nat
    decreases s.len(),
{
    if s.len() == 0 {
        0
    } else {
        count_active(s.drop_last()) + if s.last() {
            1nat
        } else {
            0nat
        }
    }
}

/// One step of the scan a `build` call makes over the working genome,
/// continued recursively from gene `gi`: consume every still-active gene
/// whose resolved destination is `target`, and turn each into a
/// connection, a recursively built subtree, or nothing.
///
/// `fuel` only bounds the recursion depth so that the definition is
/// total; every run that matters holds more fuel than there are active
/// genes, and never exhausts it.
pub open spec fn spec_build_loop(
    genes: Seq<Gene>,
    target: u8,
    visited: Seq<u8>,
    st: CompileState,
    gi: int,
    inputs: Seq<Connection>,
    fuel: nat,
) -> (CompileState, Seq<Connection>)
    decreases fuel, genes.len() - gi,
{
    if fuel == 0 || gi < 0 || gi >= genes.len() {
        (st, inputs)
    } else if !(st.active[gi] && genes[gi].destination_id == target) {
        spec_build_loop(genes, target, visited, st, gi + 1, inputs, fuel)
    } else {
        let g = genes[gi];
        let st1 = CompileState { active: st.active.update(gi, false), ..st };
        if g.source_id < 128 {
            let c = Connection { input: InputNeuron::Sensory(g.source_id), weight: g.weight };
            spec_build_loop(genes, target, visited, st1, gi + 1, inputs.push(c), fuel)
        } else if st1.built[g.source_id - 128] is Some {
            let slot = st1.built[g.source_id - 128]->Some_0;
            let c = Connection { input: InputNeuron::Internal(slot), weight: g.weight };
            spec_build_loop(genes, target, visited, st1, gi + 1, inputs.push(c), fuel)
        } else if visited.contains(g.source_id) {
            // The gene encodes a cycle through a neuron currently under
            // construction: its contribution is discarded.
            spec_build_loop(genes, target, visited, st1, gi + 1, inputs, fuel)
        } else {
            let (st2, sub) = spec_build(genes, g.source_id, visited.push(g.source_id), st1, (fuel - 1) as nat);
            match sub {
                Some(sub_inputs) => {
                    let slot = st2.arena.len() as usize;
                    let st3 = CompileState {
                        built: st2.built.update(g.source_id - 128, Some(slot)),
                        arena: st2.arena.push(sub_inputs),
                        ..st2
                    };
                    let c = Connection { input: InputNeuron::Internal(slot), weight: g.weight };
                    spec_build_loop(genes, target, visited, st3, gi + 1, inputs.push(c), fuel)
                },
                None => spec_build_loop(genes, target, visited, st2, gi + 1, inputs, fuel),
            }
        }
    }
}

/// One `build` call for the neuron with resolved id `target`: scan the
/// working genome for its inputs; a neuron with no inputs is pruned.
pub open spec fn spec_build(
    genes: Seq<Gene>,
    target: u8,
    visited: Seq<u8>,
    st: CompileState,
    fuel: nat,
) -> (CompileState, Option<Seq<Connection>>)
    decreases fuel, genes.len() + 1,
{
    if fuel == 0 {
        (st, None)
    } else {
        let (st1, inputs) = spec_build_loop(genes, target, visited, st, 0, Seq::empty(), fuel);
        if inputs.len() == 0 {
            (st1, None)
        } else {
            (st1, Some(inputs))
        }
    }
}

/// The top-level scan: whenever a still-active gene names an action
/// destination, build that action neuron; keep it if it was not pruned.
pub open spec fn spec_compile_loop(
    genes: Seq<Gene>,
    st: CompileState,
    gi: int,
    actions: Seq<(u8, Seq<Connection>)>,
) -> (CompileState, Seq<(u8, Seq<Connection>)>)
    decreases genes.len() - gi,
{
    if gi < 0 || gi >= genes.len() {
        (st, actions)
    } else if st.active[gi] && genes[gi].destination_id < 128 {
        let dest = genes[gi].destination_id;
        let (st1, res) = spec_build(genes, dest, Seq::empty(), st, genes.len() + 1);
        let actions1 = match res {
            Some(inputs) => actions.push((dest, inputs)),
            None => actions,
        };
        spec_compile_loop(genes, st1, gi + 1, actions1)
    } else {
        spec_compile_loop(genes, st, gi + 1, actions)
    }
}

/// What compiling a genome yields: the arena of internal neuron input
/// lists, and the discovered action neurons, in order, each with its
/// resolved action id and input list.
pub open spec fn spec_compile(
    genome: Seq<Gene>,
    sensory_count: u8,
    action_count: u8,
    max_internal_neurons: u8,
) -> (Seq<Seq<Connection>>, Seq<(u8, Seq<Connection>)>) {
    let genes = spec_normalize(genome, sensory_count, action_count, max_internal_neurons);
    let (st, actions) = spec_compile_loop(genes, spec_init_state(genes.len()), 0, Seq::empty());
    (st.arena, actions)
}

/// The arena of an executable brain, as the specification model sees it.
pub open spec fn arena_view(internals: Seq<InternalNeuron>) -> Seq<Seq<Connection>> {
    internals.map_values(|n: InternalNeuron| n.inputs@)
}

/// The action list of an executable brain, as the specification model
/// sees it.
pub open spec fn actions_view(actions: Seq<ActionNeuron>) -> Seq<(u8, Seq<Connection>)> {
    actions.map_values(|n: ActionNeuron| (n.action_id, n.inputs@))
}

/// The specification-model image of the executable working set.
pub open spec fn st_of(active: Seq<bool>, built: Seq<Option<usize>>, arena: Seq<InternalNeuron>) -> CompileState {
    CompileState { active, built, arena: arena_view(arena) }
}

/// The specification-model image of a `build` result.
pub open spec fn opt_inputs_view(r: Option<Vec<Connection>>) -> Option<Seq<Connection>> {
    match r {
        Some(v) => Some(v@),
        None => None,
    }
}

/// In a resolved genome every sensory source id stays inside the
/// configured channel count.
pub open spec fn genes_wf(genes: Seq<Gene>, sensory_count: u8) -> bool {
    forall|i: int|
        0 <= i < genes.len() ==> ((#[trigger] genes[i]).source_id < 128 ==> genes[i].source_id
            < sensory_count)
}

/// The working set is internally consistent: the flag list matches the
/// genome, every registered internal id names a real arena slot, and
/// every arena entry is a non-empty list of connections that only reach
/// sensory channels or strictly earlier slots.
pub open spec fn state_wf(genes: Seq<Gene>, sensory_count: u8, st: CompileState) -> bool {
    &&& st.active.len() == genes.len()
    &&& st.built.len() == 128
    &&& forall|d: int|
        0 <= d < 128 && (#[trigger] st.built[d]) is Some ==> (st.built[d]->Some_0 as int)
            < st.arena.len()
    &&& forall|i: int|
        0 <= i < st.arena.len() ==> (#[trigger] st.arena[i]).len() > 0
    &&& forall|i: int, k: int|
        0 <= i < st.arena.len() && 0 <= k < st.arena[i].len() ==> connection_wf(
            #[trigger] st.arena[i][k],
            i,
            sensory_count,
        )
}

/// There are never more unconsumed genes than genes.
proof fn lemma_count_active_le_len(s: Seq<bool>)
    ensures
        count_active(s) <= s.len(),
    decreases s.len(),
{
    if s.len() > 0 {
        lemma_count_active_le_len(s.drop_last());
    }
}

/// Consuming an unconsumed gene lowers the count by exactly one.
proof fn lemma_count_active_update_false(s: Seq<bool>, i: int)
    requires
        0 <= i < s.len(),
        s[i],
    ensures
        count_active(s.update(i, false)) == count_active(s) - 1,
    decreases s.len(),
{
    let t = s.update(i, false);
    if i == s.len() - 1 {
        assert(t.drop_last() =~= s.drop_last());
    } else {
        assert(t.drop_last() =~= s.drop_last().update(i, false));
        lemma_count_active_update_false(s.drop_last(), i);
    }
}

/// How many connections the arena holds in total.
pub open spec fn conns_in_arena(arena: Seq<Seq<Connection>>) -> nat
    decreases arena.len(),
{
    if arena.len() == 0 {
        0
    } else {
        conns_in_arena(arena.drop_last()) + arena.last().len()
    }
}

/// How many connections the action neurons hold in total.
pub open spec fn conns_in_actions(actions: Seq<(u8, Seq<Connection>)>) -> nat
    decreases actions.len(),
{
    if actions.len() == 0 {
        0
    } else {
        conns_in_actions(actions.drop_last()) + actions.last().1.len()
    }
}

/// Growing the arena by one neuron adds exactly its connections.
proof fn lemma_conns_in_arena_push(arena: Seq<Seq<Connection>>, x: Seq<Connection>)
    ensures
        conns_in_arena(arena.push(x)) == conns_in_arena(arena) + x.len(),
{
    assert(arena.push(x).drop_last() =~= arena);
}

/// Appending one action neuron adds exactly its connections.
proof fn lemma_conns_in_actions_push(actions: Seq<(u8, Seq<Connection>)>, x: (u8, Seq<Connection>))
    ensures
        conns_in_actions(actions.push(x)) == conns_in_actions(actions) + x.1.len(),
{
    assert(actions.push(x).drop_last() =~= actions);
}

/// An untouched genome has as many unconsumed genes as genes.
proof fn lemma_count_active_all_true(n: nat)
    ensures
        count_active(Seq::new(n, |i: int| true)) == n,
    decreases n,
{
    if n > 0 {
        assert(Seq::new(n, |i: int| true).drop_last() =~= Seq::new((n - 1) as nat, |i: int| true));
        lemma_count_active_all_true((n - 1) as nat);
    }
}

/// Across one `build` scan, every connection that appears anywhere --
/// in the arena or in the input list under construction -- is paid for
/// by one consumed gene.
proof fn lemma_build_loop_conns(
    genes: Seq<Gene>,
    target: u8,
    visited: Seq<u8>,
    st: CompileState,
    gi: int,
    inputs: Seq<Connection>,
    fuel: nat,
)
    requires
        st.active.len() == genes.len(),
    ensures
        ({
            let (st2, inputs2) = spec_build_loop(genes, target, visited, st, gi, inputs, fuel);
            &&& st2.active.len() == st.active.len()
            &&& conns_in_arena(st2.arena) + inputs2.len() + count_active(st2.active)
                <= conns_in_arena(st.arena) + inputs.len() + count_active(st.active)
        }),
    decreases fuel, genes.len() - gi,
{
    if fuel == 0 || gi < 0 || gi >= genes.len() {
    } else if !(st.active[gi] && genes[gi].destination_id == target) {
        lemma_build_loop_conns(genes, target, visited, st, gi + 1, inputs, fuel);
    } else {
        let g = genes[gi];
        let st1 = CompileState { active: st.active.update(gi, false), ..st };
        lemma_count_active_update_false(st.active, gi);
        if g.source_id < 128 {
            let c = Connection { input: InputNeuron::Sensory(g.source_id), weight: g.weight };
            lemma_build_loop_conns(genes, target, visited, st1, gi + 1, inputs.push(c), fuel);
        } else if st1.built[g.source_id - 128] is Some {
            let slot = st1.built[g.source_id - 128]->Some_0;
            let c = Connection { input: InputNeuron::Internal(slot), weight: g.weight };
            lemma_build_loop_conns(genes, target, visited, st1, gi + 1, inputs.push(c), fuel);
        } else if visited.contains(g.source_id) {
            lemma_build_loop_conns(genes, target, visited, st1, gi + 1, inputs, fuel);
        } else {
            let (st2, sub) = spec_build(
                genes,
                g.source_id,
                visited.push(g.source_id),
                st1,
                (fuel - 1) as nat,
            );
            lemma_build_conns(genes, g.source_id, visited.push(g.source_id), st1, (fuel - 1) as nat);
            match sub {
                Some(sub_inputs) => {
                    let slot = st2.arena.len() as usize;
                    let st3 = CompileState {
                        built: st2.built.update(g.source_id - 128, Some(slot)),
                        arena: st2.arena.push(sub_inputs),
                        ..st2
                    };
                    let c = Connection { input: InputNeuron::Internal(slot), weight: g.weight };
                    lemma_conns_in_arena_push(st2.arena, sub_inputs);
                    lemma_build_loop_conns(genes, target, visited, st3, gi + 1, inputs.push(c), fuel);
                },
                None => {
                    lemma_build_loop_conns(genes, target, visited, st2, gi + 1, inputs, fuel);
                },
            }
        }
    }
}

/// Across one `build` call, every connection of the result and of the
/// neurons registered along the way is paid for by one consumed gene.
proof fn lemma_build_conns(genes: Seq<Gene>, target: u8, visited: Seq<u8>, st: CompileState, fuel: nat)
    requires
        st.active.len() == genes.len(),
    ensures
        ({
            let (st2, res) = spec_build(genes, target, visited, st, fuel);
            &&& st2.active.len() == st.active.len()
            &&& conns_in_arena(st2.arena) + (match res {
                Some(inputs) => inputs.len(),
                None => 0,
            }) + count_active(st2.active) <= conns_in_arena(st.arena) + count_active(st.active)
        }),
    decreases fuel, genes.len() + 1,
{
    if fuel != 0 {
        lemma_build_loop_conns(genes, target, visited, st, 0, Seq::empty(), fuel);
    }
}

/// Across the top-level scan, every connection anywhere in the result is
/// paid for by one consumed gene.
proof fn lemma_compile_loop_conns(
    genes: Seq<Gene>,
    st: CompileState,
    gi: int,
    actions: Seq<(u8, Seq<Connection>)>,
)
    requires
        st.active.len() == genes.len(),
    ensures
        ({
            let (st2, actions2) = spec_compile_loop(genes, st, gi, actions);
            conns_in_arena(st2.arena) + conns_in_actions(actions2) + count_active(st2.active)
                <= conns_in_arena(st.arena) + conns_in_actions(actions) + count_active(st.active)
        }),
    decreases genes.len() - gi,
{
    if gi < 0 || gi >= genes.len() {
    } else if st.active[gi] && genes[gi].destination_id < 128 {
        let dest = genes[gi].destination_id;
        let (st1, res) = spec_build(genes, dest, Seq::empty(), st, genes.len() + 1);
        lemma_build_conns(genes, dest, Seq::empty(), st, genes.len() + 1);
        match res {
            Some(inputs) => {
                lemma_conns_in_actions_push(actions, (dest, inputs));
                lemma_compile_loop_conns(genes, st1, gi + 1, actions.push((dest, inputs)));
            },
            None => {
                lemma_compile_loop_conns(genes, st1, gi + 1, actions);
            },
        }
    } else {
        lemma_compile_loop_conns(genes, st, gi + 1, actions);
    }
}

/// Law: each gene is consumed at most once, so it contributes to at most
/// one connection across the whole compiled brain: the brain never holds
/// more connections than the genome holds genes.
pub proof fn lemma_gene_consumption(
    genome: Seq<Gene>,
    sensory_count: u8,
    action_count: u8,
    max_internal_neurons: u8,
)
    ensures
        ({
            let (arena, actions) = spec_compile(
                genome,
                sensory_count,
                action_count,
                max_internal_neurons,
            );
            conns_in_arena(arena) + conns_in_actions(actions) <= genome.len()
        }),
{
    let genes = spec_normalize(genome, sensory_count, action_count, max_internal_neurons);
    let st_init = spec_init_state(genes.len());
    lemma_count_active_all_true(genes.len());
    lemma_compile_loop_conns(genes, st_init, 0, Seq::empty());
}

/// The gene indices charged for the connections one `build` scan creates,
/// in creation order: whenever a consumed gene yields a connection, its
/// index is charged, and a gene consumed without yield -- a cycle or a
/// pruned subtree -- is charged nothing.
pub open spec fn spec_build_loop_charges(
    genes: Seq<Gene>,
    target: u8,
    visited: Seq<u8>,
    st: CompileState,
    gi: int,
    fuel: nat,
) -> Seq<int>
    decreases fuel, genes.len() - gi,
{
    if fuel == 0 || gi < 0 || gi >= genes.len() {
        Seq::empty()
    } else if !(st.active[gi] && genes[gi].destination_id == target) {
        spec_build_loop_charges(genes, target, visited, st, gi + 1, fuel)
    } else {
        let g = genes[gi];
        let st1 = CompileState { active: st.active.update(gi, false), ..st };
        if g.source_id < 128 {
            seq![gi] + spec_build_loop_charges(genes, target, visited, st1, gi + 1, fuel)
        } else if st1.built[g.source_id - 128] is Some {
            seq![gi] + spec_build_loop_charges(genes, target, visited, st1, gi + 1, fuel)
        } else if visited.contains(g.source_id) {
            spec_build_loop_charges(genes, target, visited, st1, gi + 1, fuel)
        } else {
            let (st2, sub) = spec_build(genes, g.source_id, visited.push(g.source_id), st1, (fuel - 1) as nat);
            let subch = spec_build_charges(genes, g.source_id, visited.push(g.source_id), st1, (fuel - 1) as nat);
            match sub {
                Some(sub_inputs) => {
                    let slot = st2.arena.len() as usize;
                    let st3 = CompileState {
                        built: st2.built.update(g.source_id - 128, Some(slot)),
                        arena: st2.arena.push(sub_inputs),
                        ..st2
                    };
                    subch + seq![gi] + spec_build_loop_charges(genes, target, visited, st3, gi + 1, fuel)
                },
                None => subch + spec_build_loop_charges(genes, target, visited, st2, gi + 1, fuel),
            }
        }
    }
}

/// The gene indices charged for the connections one `build` call creates.
pub open spec fn spec_build_charges(
    genes: Seq<Gene>,
    target: u8,
    visited: Seq<u8>,
    st: CompileState,
    fuel: nat,
) -> Seq<int>
    decreases fuel, genes.len() + 1,
{
    if fuel == 0 {
        Seq::empty()
    } else {
        spec_build_loop_charges(genes, target, visited, st, 0, fuel)
    }
}

/// The gene indices charged across the whole top-level scan.
pub open spec fn spec_compile_loop_charges(genes: Seq<Gene>, st: CompileState, gi: int) -> Seq<int>
    decreases genes.len() - gi,
{
    if gi < 0 || gi >= genes.len() {
        Seq::empty()
    } else if st.active[gi] && genes[gi].destination_id < 128 {
        let dest = genes[gi].destination_id;
        let (st1, res) = spec_build(genes, dest, Seq::empty(), st, genes.len() + 1);
        spec_build_charges(genes, dest, Seq::empty(), st, genes.len() + 1)
            + spec_compile_loop_charges(genes, st1, gi + 1)
    } else {
        spec_compile_loop_charges(genes, st, gi + 1)
    }
}

/// The gene indices charged for the connections of a whole compiled
/// brain, one per connection.
pub open spec fn spec_compile_charges(
    genome: Seq<Gene>,
    sensory_count: u8,
    action_count: u8,
    max_internal_neurons: u8,
) -> Seq<int> {
    let genes = spec_normalize(genome, sensory_count, action_count, max_internal_neurons);
    spec_compile_loop_charges(genes, spec_init_state(genes.len()), 0)
}

/// What the charge list of one `build` scan satisfies: it charges one
/// still-unconsumed gene for every connection the scan creates, each gene
/// at most once.
proof fn lemma_build_loop_provenance(
    genes: Seq<Gene>,
    target: u8,
    visited: Seq<u8>,
    st: CompileState,
    gi: int,
    inputs: Seq<Connection>,
    fuel: nat,
)
    requires
        st.active.len() == genes.len(),
    ensures
        ({
            let (st2, inputs2) = spec_build_loop(genes, target, visited, st, gi, inputs, fuel);
            let ch = spec_build_loop_charges(genes, target, visited, st, gi, fuel);
            &&& st2.active.len() == st.active.len()
            &&& forall|j: int| 0 <= j < st.active.len() && #[trigger] st2.active[j] ==> st.active[j]
            &&& forall|c: int|
                #[trigger] ch.contains(c) ==> 0 <= c < genes.len() && st.active[c] && !st2.active[c]
            &&& ch.no_duplicates()
            &&& ch.len() + conns_in_arena(st.arena) + inputs.len() == conns_in_arena(st2.arena)
                + inputs2.len()
        }),
    decreases fuel, genes.len() - gi,
{
    if fuel == 0 || gi < 0 || gi >= genes.len() {
    } else if !(st.active[gi] && genes[gi].destination_id == target) {
        lemma_build_loop_provenance(genes, target, visited, st, gi + 1, inputs, fuel);
    } else {
        let g = genes[gi];
        let st1 = CompileState { active: st.active.update(gi, false), ..st };
        if g.source_id < 128 || st1.built[g.source_id - 128] is Some {
            let c = if g.source_id < 128 {
                Connection { input: InputNeuron::Sensory(g.source_id), weight: g.weight }
            } else {
                Connection {
                    input: InputNeuron::Internal(st1.built[g.source_id - 128]->Some_0),
                    weight: g.weight,
                }
            };
            lemma_build_loop_provenance(genes, target, visited, st1, gi + 1, inputs.push(c), fuel);
            let tail = spec_build_loop_charges(genes, target, visited, st1, gi + 1, fuel);
            lemma_charge_head_disjoint(gi, tail, st1);
            vstd::seq_lib::lemma_no_dup_in_concat(seq![gi], tail);
            let stf = spec_build_loop(genes, target, visited, st1, gi + 1, inputs.push(c), fuel).0;
            assert forall|cc: int| #[trigger] (seq![gi] + tail).contains(cc) implies 0 <= cc
                < genes.len() && st.active[cc] && !stf.active[cc] by {
                let k = choose|k: int| 0 <= k < (seq![gi] + tail).len() && (seq![gi] + tail)[k] == cc;
                if k == 0 {
                    assert(cc == gi);
                    assert(!st1.active[gi]);
                } else {
                    assert(tail.contains(cc));
                }
            }
        } else if visited.contains(g.source_id) {
            lemma_build_loop_provenance(genes, target, visited, st1, gi + 1, inputs, fuel);
        } else {
            let (st2, sub) = spec_build(
                genes,
                g.source_id,
                visited.push(g.source_id),
                st1,
                (fuel - 1) as nat,
            );
            let subch = spec_build_charges(
                genes,
                g.source_id,
                visited.push(g.source_id),
                st1,
                (fuel - 1) as nat,
            );
            lemma_build_provenance(genes, g.source_id, visited.push(g.source_id), st1, (fuel - 1) as nat);
            match sub {
                Some(sub_inputs) => {
                    let slot = st2.arena.len() as usize;
                    let st3 = CompileState {
                        built: st2.built.update(g.source_id - 128, Some(slot)),
                        arena: st2.arena.push(sub_inputs),
                        ..st2
                    };
                    let cc = Connection { input: InputNeuron::Internal(slot), weight: g.weight };
                    lemma_conns_in_arena_push(st2.arena, sub_inputs);
                    lemma_build_loop_provenance(
                        genes,
                        target,
                        visited,
                        st3,
                        gi + 1,
                        inputs.push(cc),
                        fuel,
                    );
                    let tail = spec_build_loop_charges(genes, target, visited, st3, gi + 1, fuel);
                    lemma_charge_head_disjoint(gi, subch, st1);
                    assert forall|i: int, j: int|
                        0 <= i < (subch + seq![gi]).len() && 0 <= j < tail.len() implies (subch
                        + seq![gi])[i] != tail[j] by {
                        assert(tail.contains(tail[j]));
                        assert(st3.active[tail[j]]);
                        if i < subch.len() {
                            assert(subch.contains(subch[i]));
                            assert((subch + seq![gi])[i] == subch[i]);
                        } else {
                            assert((subch + seq![gi])[i] == gi);
                        }
                    }
                    vstd::seq_lib::lemma_no_dup_in_concat(subch, seq![gi]);
                    vstd::seq_lib::lemma_no_dup_in_concat(subch + seq![gi], tail);
                    assert(spec_build_loop_charges(genes, target, visited, st, gi, fuel) == subch
                        + seq![gi] + tail);
                    let stf = spec_build_loop(
                        genes,
                        target,
                        visited,
                        st3,
                        gi + 1,
                        inputs.push(cc),
                        fuel,
                    ).0;
                    assert forall|c2: int| #[trigger] (subch + seq![gi] + tail).contains(c2)
                        implies 0 <= c2 < genes.len() && st.active[c2] && !stf.active[c2] by {
                        let whole = subch + seq![gi] + tail;
                        let k = choose|k: int| 0 <= k < whole.len() && whole[k] == c2;
                        if k < subch.len() {
                            assert(subch.contains(c2));
                            assert(!st2.active[c2]);
                            assert(!st3.active[c2]);
                        } else if k < subch.len() + 1 {
                            assert(c2 == gi);
                            assert(!st1.active[gi]);
                            assert(!st2.active[gi]);
                            assert(!st3.active[gi]);
                        } else {
                            assert(tail.contains(c2));
                        }
                    }
                },
                None => {
                    lemma_build_loop_provenance(genes, target, visited, st2, gi + 1, inputs, fuel);
                    let tail = spec_build_loop_charges(genes, target, visited, st2, gi + 1, fuel);
                    assert forall|i: int, j: int|
                        0 <= i < subch.len() && 0 <= j < tail.len() implies subch[i] != tail[j] by {
                        assert(tail.contains(tail[j]));
                        assert(subch.contains(subch[i]));
                        assert(st2.active[tail[j]]);
                    }
                    vstd::seq_lib::lemma_no_dup_in_concat(subch, tail);
                    assert forall|c: int|
                        #[trigger] (subch + tail).contains(c) implies 0 <= c < genes.len()
                        && st.active[c] && !spec_build_loop(
                        genes,
                        target,
                        visited,
                        st,
                        gi,
                        inputs,
                        fuel,
                    ).0.active[c] by {
                        let k = choose|k: int| 0 <= k < (subch + tail).len() && (subch + tail)[k] == c;
                        if k < subch.len() {
                            assert(subch.contains(c));
                        } else {
                            assert(tail.contains(c));
                        }
                    }
                },
            }
        }
    }
}

/// A gene consumed at the head of a scan cannot be charged again by the
/// rest of the scan.
proof fn lemma_charge_head_disjoint(gi: int, later: Seq<int>, st1: CompileState)
    requires
        0 <= gi < st1.active.len(),
        !st1.active[gi],
        forall|c: int| #[trigger] later.contains(c) ==> st1.active[c],
    ensures
        forall|i: int, j: int|
            0 <= i < seq![gi].len() && 0 <= j < later.len() ==> seq![gi][i] != later[j],
{
    assert forall|i: int, j: int|
        0 <= i < seq![gi].len() && 0 <= j < later.len() implies seq![gi][i] != later[j] by {
        assert(later.contains(later[j]));
    }
}

/// What the charge list of one `build` call satisfies.
proof fn lemma_build_provenance(
    genes: Seq<Gene>,
    target: u8,
    visited: Seq<u8>,
    st: CompileState,
    fuel: nat,
)
    requires
        st.active.len() == genes.len(),
    ensures
        ({
            let (st2, res) = spec_build(genes, target, visited, st, fuel);
            let ch = spec_build_charges(genes, target, visited, st, fuel);
            &&& st2.active.len() == st.active.len()
            &&& forall|j: int| 0 <= j < st.active.len() && #[trigger] st2.active[j] ==> st.active[j]
            &&& forall|c: int|
                #[trigger] ch.contains(c) ==> 0 <= c < genes.len() && st.active[c] && !st2.active[c]
            &&& ch.no_duplicates()
            &&& ch.len() + conns_in_arena(st.arena) == conns_in_arena(st2.arena) + (match res {
                Some(inputs) => inputs.len(),
                None => 0,
            })
        }),
    decreases fuel, genes.len() + 1,
{
    if fuel != 0 {
        lemma_build_loop_provenance(genes, target, visited, st, 0, Seq::empty(), fuel);
    }
}

/// What the charge list of the whole top-level scan satisfies.
proof fn lemma_compile_loop_provenance(
    genes: Seq<Gene>,
    st: CompileState,
    gi: int,
    actions: Seq<(u8, Seq<Connection>)>,
)
    requires
        st.active.len() == genes.len(),
    ensures
        ({
            let (st2, actions2) = spec_compile_loop(genes, st, gi, actions);
            let ch = spec_compile_loop_charges(genes, st, gi);
            &&& st2.active.len() == st.active.len()
            &&& forall|j: int| 0 <= j < st.active.len() && #[trigger] st2.active[j] ==> st.active[j]
            &&& forall|c: int|
                #[trigger] ch.contains(c) ==> 0 <= c < genes.len() && st.active[c] && !st2.active[c]
            &&& ch.no_duplicates()
            &&& ch.len() + conns_in_arena(st.arena) + conns_in_actions(actions) == conns_in_arena(
                st2.arena,
            ) + conns_in_actions(actions2)
        }),
    decreases genes.len() - gi,
{
    if gi < 0 || gi >= genes.len() {
    } else if st.active[gi] && genes[gi].destination_id < 128 {
        let dest = genes[gi].destination_id;
        let (st1, res) = spec_build(genes, dest, Seq::empty(), st, genes.len() + 1);
        let bch = spec_build_charges(genes, dest, Seq::empty(), st, genes.len() + 1);
        lemma_build_provenance(genes, dest, Seq::empty(), st, genes.len() + 1);
        let actions1 = match res {
            Some(inputs) => {
                lemma_conns_in_actions_push(actions, (dest, inputs));
                actions.push((dest, inputs))
            },
            None => actions,
        };
        lemma_compile_loop_provenance(genes, st1, gi + 1, actions1);
        let tail = spec_compile_loop_charges(genes, st1, gi + 1);
        assert forall|i: int, j: int|
            0 <= i < bch.len() && 0 <= j < tail.len() implies bch[i] != tail[j] by {
            assert(bch.contains(bch[i]));
            assert(tail.contains(tail[j]));
            assert(st1.active[tail[j]]);
        }
        vstd::seq_lib::lemma_no_dup_in_concat(bch, tail);
        assert forall|c: int| #[trigger] (bch + tail).contains(c) implies 0 <= c < genes.len()
            && st.active[c] && !spec_compile_loop(genes, st, gi, actions).0.active[c] by {
            let k = choose|k: int| 0 <= k < (bch + tail).len() && (bch + tail)[k] == c;
            if k < bch.len() {
                assert(bch.contains(c));
            } else {
                assert(tail.contains(c));
            }
        }
    } else {
        lemma_compile_loop_provenance(genes, st, gi + 1, actions);
    }
}

/// Law: gene consumption, exactly. The compiler charges one gene index
/// per connection of the compiled brain -- the index of the gene that
/// created it -- and no gene index is ever charged twice: each gene
/// contributes to at most one connection across the whole brain.
pub proof fn lemma_gene_provenance(
    genome: Seq<Gene>,
    sensory_count: u8,
    action_count: u8,
    max_internal_neurons: u8,
)
    ensures
        ({
            let (arena, actions) = spec_compile(
                genome,
                sensory_count,
                action_count,
                max_internal_neurons,
            );
            let charges = spec_compile_charges(
                genome,
                sensory_count,
                action_count,
                max_internal_neurons,
            );
            &&& charges.no_duplicates()
            &&& charges.len() == conns_in_arena(arena) + conns_in_actions(actions)
            &&& forall|c: int| #[trigger] charges.contains(c) ==> 0 <= c < genome.len()
        }),
{
    let genes = spec_normalize(genome, sensory_count, action_count, max_internal_neurons);
    let st_init = spec_init_state(genes.len());
    lemma_compile_loop_provenance(genes, st_init, 0, Seq::empty());
}

/// The top-level scan discovers no action neuron when no resolved
/// destination is an action id.
proof fn lemma_compile_loop_no_actions(
    genes: Seq<Gene>,
    st: CompileState,
    gi: int,
    actions: Seq<(u8, Seq<Connection>)>,
)
    requires
        forall|j: int| 0 <= j < genes.len() ==> (#[trigger] genes[j]).destination_id >= 128,
    ensures
        spec_compile_loop(genes, st, gi, actions).1 == actions,
    decreases genes.len() - gi,
{
    if gi < 0 || gi >= genes.len() {
    } else {
        lemma_compile_loop_no_actions(genes, st, gi + 1, actions);
    }
}

/// Law: pruning. A genome in which no gene resolves to an action
/// destination -- every raw destination id keeps its high bit, so every
/// resolved destination is an internal id -- compiles to a brain with
/// zero action neurons.
pub proof fn lemma_pruning(
    genome: Seq<Gene>,
    sensory_count: u8,
    action_count: u8,
    max_internal_neurons: u8,
)
    requires
        max_internal_neurons >= 1,
        forall|j: int| 0 <= j < genome.len() ==> (#[trigger] genome[j]).destination_id >= 128,
    ensures
        spec_compile(genome, sensory_count, action_count, max_internal_neurons).1 == Seq::<
            (u8, Seq<Connection>),
        >::empty(),
{
    let genes = spec_normalize(genome, sensory_count, action_count, max_internal_neurons);
    assert forall|j: int| 0 <= j < genes.len() implies (#[trigger] genes[j]).destination_id
        >= 128 by {
        let raw = genome[j].destination_id;
        assert(genes[j] == spec_normalize_gene(
            genome[j],
            sensory_count,
            action_count,
            max_internal_neurons,
        ));
        assert(raw >= 128);
        assert(0 <= (raw as int - 128) % (max_internal_neurons as int) < max_internal_neurons as int);
        if max_internal_neurons as int > raw as int - 128 {
            lemma_small_mod((raw - 128) as nat, max_internal_neurons as nat);
        }
    }
    lemma_compile_loop_no_actions(genes, spec_init_state(genes.len()), 0, Seq::empty());
}

/// Mapping the arena to its view commutes with growing it by one neuron.
proof fn lemma_arena_view_push(s: Seq<InternalNeuron>, n: InternalNeuron)
    ensures
        arena_view(s.push(n)) =~= arena_view(s).push(n.inputs@),
{
}

/// Whether the list of visited ids contains the given id.
fn contains_id(v: &Vec<u8>, x: u8) -> (r: bool)
    ensures
        r == v@.contains(x),
{
    let mut i: usize = 0;
    while i < v.len()
        invariant
            0 <= i <= v@.len(),
            forall|j: int| 0 <= j < i ==> v@[j] != x,
        decreases v@.len() - i,
    {
        if v[i] == x {
            return true;
        }
        i += 1;
    }
    proof {
        assert(!v@.contains(x));
    }
    false
}

/// One `build` call: collects the input connections of the neuron with
/// resolved id `target`, consuming genes, registering newly built
/// internal neurons in the arena, and discarding cycle-closing genes.
/// Returns `None` when the neuron has no inputs and is pruned.
///
/// The result and the new working set are exactly what the specification
/// model says, for any recursion budget larger than the number of genes
/// still unconsumed.
fn build_inputs(
    genes: &Vec<Gene>,
    target: u8,
    visited: &mut Vec<u8>,
    active: &mut Vec<bool>,
    built: &mut Vec<Option<usize>>,
    arena: &mut Vec<InternalNeuron>,
    Ghost(sensory_count): Ghost<u8>,
) -> (res: Option<Vec<Connection>>)
    requires
        genes_wf(genes@, sensory_count),
        state_wf(genes@, sensory_count, st_of(old(active)@, old(built)@, old(arena)@)),
    ensures
        final(visited)@ == old(visited)@,
        state_wf(genes@, sensory_count, st_of(final(active)@, final(built)@, final(arena)@)),
        old(arena)@.len() <= final(arena)@.len(),
        count_active(final(active)@) <= count_active(old(active)@),
        res is Some ==> res->Some_0@.len() > 0,
        forall|k: int|
            res is Some && 0 <= k < res->Some_0@.len() ==> connection_wf(
                #[trigger] res->Some_0@[k],
                final(arena)@.len() as int,
                sensory_count,
            ),
        forall|fuel: nat|
            fuel > count_active(old(active)@) ==> spec_build(
                genes@,
                target,
                old(visited)@,
                st_of(old(active)@, old(built)@, old(arena)@),
                fuel,
            ) == (st_of(final(active)@, final(built)@, final(arena)@), opt_inputs_view(res)),
    decreases count_active(old(active)@),
{
    let ghost st0 = st_of(active@, built@, arena@);
    let ghost cnt0 = count_active(active@);
    let ghost vis0 = visited@;
    let mut inputs: Vec<Connection> = Vec::new();
    let mut gi: usize = 0;
    while gi < genes.len()
        invariant
            genes_wf(genes@, sensory_count),
            st0 == st_of(old(active)@, old(built)@, old(arena)@),
            cnt0 == count_active(old(active)@),
            vis0 == old(visited)@,
            visited@ == vis0,
            active@.len() == genes@.len(),
            built@.len() == 128,
            state_wf(genes@, sensory_count, st_of(active@, built@, arena@)),
            count_active(active@) <= cnt0,
            old(arena)@.len() <= arena@.len(),
            0 <= gi <= genes@.len(),
            forall|k: int|
                0 <= k < inputs@.len() ==> connection_wf(
                    #[trigger] inputs@[k],
                    arena@.len() as int,
                    sensory_count,
                ),
            forall|fuel: nat|
                fuel > cnt0 ==> spec_build_loop(genes@, target, vis0, st0, 0, Seq::empty(), fuel)
                    == spec_build_loop(
                    genes@,
                    target,
                    vis0,
                    st_of(active@, built@, arena@),
                    gi as int,
                    inputs@,
                    fuel,
                ),
        decreases genes@.len() - gi,
    {
        let g = genes[gi];
        let ghost st_pre = st_of(active@, built@, arena@);
        let ghost inp_pre = inputs@;
        let ghost cnt_pre = count_active(active@);
        if active[gi] && g.destination_id == target {
            active[gi] = false;
            proof {
                lemma_count_active_update_false(st_pre.active, gi as int);
            }
            let ghost st1 = st_of(active@, built@, arena@);
            proof {
                assert(st1 == CompileState { active: st_pre.active.update(gi as int, false), ..st_pre });
            }
            if g.source_id < 128 {
                inputs.push(Connection::new(InputNeuron::Sensory(g.source_id), g.weight));
                proof {
                    assert forall|fuel: nat| fuel > cnt0 implies spec_build_loop(
                        genes@,
                        target,
                        vis0,
                        st_pre,
                        gi as int,
                        inp_pre,
                        fuel,
                    ) == spec_build_loop(
                        genes@,
                        target,
                        vis0,
                        st_of(active@, built@, arena@),
                        gi + 1,
                        inputs@,
                        fuel,
                    ) by {
                        assert(fuel != 0);
                    }
                }
            } else if let Some(slot) = built[(g.source_id - 128) as usize] {
                inputs.push(Connection::new(InputNeuron::Internal(slot), g.weight));
                proof {
                    assert forall|fuel: nat| fuel > cnt0 implies spec_build_loop(
                        genes@,
                        target,
                        vis0,
                        st_pre,
                        gi as int,
                        inp_pre,
                        fuel,
                    ) == spec_build_loop(
                        genes@,
                        target,
                        vis0,
                        st_of(active@, built@, arena@),
                        gi + 1,
                        inputs@,
                        fuel,
                    ) by {
                        assert(fuel != 0);
                        assert(st1.built[g.source_id - 128] == Some(slot));
                    }
                }
            } else if contains_id(visited, g.source_id) {
                proof {
                    assert forall|fuel: nat| fuel > cnt0 implies spec_build_loop(
                        genes@,
                        target,
                        vis0,
                        st_pre,
                        gi as int,
                        inp_pre,
                        fuel,
                    ) == spec_build_loop(
                        genes@,
                        target,
                        vis0,
                        st_of(active@, built@, arena@),
                        gi + 1,
                        inputs@,
                        fuel,
                    ) by {
                        assert(fuel != 0);
                    }
                }
            } else {
                visited.push(g.source_id);
                proof {
                    assert(count_active(active@) < cnt_pre);
                    assert(count_active(active@) < count_active(old(active)@));
                }
                let sub = build_inputs(genes, g.source_id, visited, active, built, arena, Ghost(sensory_count));
                let ghost st_ret = st_of(active@, built@, arena@);
                let ghost arena_ret = arena@;
                let ghost sub_view = opt_inputs_view(sub);
                let _ = visited.pop();
                proof {
                    assert(visited@ =~= vis0);
                }
                match sub {
                    Some(sub_inputs) => {
                        let ghost subv = sub_inputs@;
                        let slot = arena.len();
                        arena.push(InternalNeuron::new(sub_inputs));
                        built[(g.source_id - 128) as usize] = Some(slot);
                        inputs.push(Connection::new(InputNeuron::Internal(slot), g.weight));
                        proof {
                            lemma_arena_view_push(arena_ret, arena@.last());
                            assert(arena@ =~= arena_ret.push(arena@.last()));
                            assert(arena_view(arena@) == st_ret.arena.push(subv));
                            let st_now = st_of(active@, built@, arena@);
                            assert(st_now == CompileState {
                                built: st_ret.built.update(g.source_id - 128, Some(slot as usize)),
                                arena: st_ret.arena.push(subv),
                                ..st_ret
                            });
                            // The freshly registered neuron and the grown arena
                            // keep the working set well-formed.
                            assert forall|i: int, k: int|
                                0 <= i < st_now.arena.len() && 0 <= k < st_now.arena[i].len()
                                    implies connection_wf(#[trigger] st_now.arena[i][k], i, sensory_count) by {
                                if i < st_ret.arena.len() {
                                    assert(st_now.arena[i] == st_ret.arena[i]);
                                } else {
                                    assert(st_now.arena[i] == subv);
                                }
                            }
                            assert forall|i: int|
                                0 <= i < st_now.arena.len() implies (#[trigger] st_now.arena[i]).len() > 0 by {
                                if i < st_ret.arena.len() {
                                    assert(st_now.arena[i] == st_ret.arena[i]);
                                } else {
                                    assert(st_now.arena[i] == subv);
                                }
                            }
                            assert(state_wf(genes@, sensory_count, st_now));
                            assert forall|fuel: nat| fuel > cnt0 implies spec_build_loop(
                                genes@,
                                target,
                                vis0,
                                st_pre,
                                gi as int,
                                inp_pre,
                                fuel,
                            ) == spec_build_loop(
                                genes@,
                                target,
                                vis0,
                                st_now,
                                gi + 1,
                                inputs@,
                                fuel,
                            ) by {
                                assert(fuel != 0);
                                assert((fuel - 1) as nat > count_active(st1.active));
                                assert(spec_build(genes@, g.source_id, vis0.push(g.source_id), st1, (fuel - 1) as nat)
                                    == (st_ret, sub_view));
                                assert(sub_view == Some(subv));
                            }
                        }
                    },
                    None => {
                        proof {
                            assert forall|fuel: nat| fuel > cnt0 implies spec_build_loop(
                                genes@,
                                target,
                                vis0,
                                st_pre,
                                gi as int,
                                inp_pre,
                                fuel,
                            ) == spec_build_loop(
                                genes@,
                                target,
                                vis0,
                                st_of(active@, built@, arena@),
                                gi + 1,
                                inputs@,
                                fuel,
                            ) by {
                                assert(fuel != 0);
                                assert((fuel - 1) as nat > count_active(st1.active));
                                assert(spec_build(genes@, g.source_id, vis0.push(g.source_id), st1, (fuel - 1) as nat)
                                    == (st_ret, sub_view));
                                assert(sub_view is None);
                            }
                        }
                    },
                }
            }
        } else {
            proof {
                assert forall|fuel: nat| fuel > cnt0 implies spec_build_loop(
                    genes@,
                    target,
                    vis0,
                    st_pre,
                    gi as int,
                    inp_pre,
                    fuel,
                ) == spec_build_loop(
                    genes@,
                    target,
                    vis0,
                    st_of(active@, built@, arena@),
                    gi + 1,
                    inputs@,
                    fuel,
                ) by {
                    assert(fuel != 0);
                }
            }
        }
        gi += 1;
    }
    proof {
        assert forall|fuel: nat| fuel > cnt0 implies spec_build(genes@, target, vis0, st0, fuel)
            == (
            st_of(active@, built@, arena@),
            if inputs@.len() == 0 {
                None::<Seq<Connection>>
            } else {
                Some(inputs@)
            },
        ) by {
            assert(fuel != 0);
            assert(spec_build_loop(genes@, target, vis0, st0, 0, Seq::empty(), fuel)
                == spec_build_loop(
                genes@,
                target,
                vis0,
                st_of(active@, built@, arena@),
                genes@.len() as int,
                inputs@,
                fuel,
            ));
        }
    }
    if inputs.len() == 0 {
        None
    } else {
        Some(inputs)
    }
}

/// Mapping the action list to its view commutes with appending a neuron.
proof fn lemma_actions_view_push(s: Seq<ActionNeuron>, n: ActionNeuron)
    ensures
        actions_view(s.push(n)) =~= actions_view(s).push((n.action_id, n.inputs@)),
{
}

impl Brain {
    /// Builds a new brain from a genome.
    ///
    /// The genome is first resolved through the address resolver; the
    /// compiler then discovers the action neurons in genome order and
    /// recursively builds each one's dependency tree. The result is
    /// exactly what the specification model [`spec_compile`] says, and it
    /// is well formed: pruned, inside its address spaces, and acyclic.
    pub fn new(
        genome: &Genome,
        sensory_count: u8,
        action_count: u8,
        max_internal_neurons: u8,
    ) -> (r: Brain)
        requires
            sensory_count >= 1,
            action_count >= 1,
            max_internal_neurons >= 1,
        ensures
            r.wf(),
            r.sensory_count == sensory_count,
            r.action_count == action_count,
            r.max_internal_neurons == max_internal_neurons,
            arena_view(r.internals@) == spec_compile(
                genome.genes@,
                sensory_count,
                action_count,
                max_internal_neurons,
            ).0,
            actions_view(r.actions@) == spec_compile(
                genome.genes@,
                sensory_count,
                action_count,
                max_internal_neurons,
            ).1,
    {
        let raw = &genome.genes;
        let mut genes: Vec<Gene> = Vec::new();
        let mut i: usize = 0;
        while i < raw.len()
            invariant
                sensory_count >= 1,
                action_count >= 1,
                max_internal_neurons >= 1,
                raw@ == genome.genes@,
                0 <= i <= raw@.len(),
                genes@.len() == i,
                forall|j: int|
                    0 <= j < i ==> #[trigger] genes@[j] == spec_normalize_gene(
                        raw@[j],
                        sensory_count,
                        action_count,
                        max_internal_neurons,
                    ),
                forall|j: int|
                    0 <= j < i ==> ((#[trigger] genes@[j]).source_id < 128 ==> genes@[j].source_id
                        < sensory_count),
                forall|j: int|
                    0 <= j < i ==> ((#[trigger] genes@[j]).destination_id < 128
                        ==> genes@[j].destination_id < action_count),
            decreases raw@.len() - i,
        {
            let g = raw[i];
            let source_id = if g.source_id < 128 {
                calculate_sensory_neuron_id(g.source_id, sensory_count)
            } else {
                calculate_internal_neuron_id(g.source_id, max_internal_neurons)
            };
            let destination_id = if g.destination_id < 128 {
                calculate_action_neuron_id(g.destination_id, action_count)
            } else {
                calculate_internal_neuron_id(g.destination_id, max_internal_neurons)
            };
            genes.push(Gene::new(source_id, destination_id, g.weight));
            i += 1;
        }
        let ghost ngenes = spec_normalize(
            genome.genes@,
            sensory_count,
            action_count,
            max_internal_neurons,
        );
        proof {
            assert(genes@ =~= ngenes);
        }
        let mut active: Vec<bool> = Vec::new();
        let mut k: usize = 0;
        while k < genes.len()
            invariant
                0 <= k <= genes@.len(),
                active@.len() == k,
                forall|j: int| 0 <= j < k ==> active@[j],
            decreases genes@.len() - k,
        {
            active.push(true);
            k += 1;
        }
        let mut built: Vec<Option<usize>> = Vec::new();
        let mut d: usize = 0;
        while d < 128
            invariant
                0 <= d <= 128,
                built@.len() == d,
                forall|j: int| 0 <= j < d ==> (#[trigger] built@[j]) is None,
            decreases 128 - d,
        {
            built.push(None);
            d += 1;
        }
        let mut arena: Vec<InternalNeuron> = Vec::new();
        let mut actions: Vec<ActionNeuron> = Vec::new();
        let ghost st_init = spec_init_state(genes@.len());
        proof {
            assert(active@ =~= st_init.active);
            assert(built@ =~= st_init.built);
            assert(arena_view(arena@) =~= st_init.arena);
            assert(st_of(active@, built@, arena@) == st_init);
            assert(actions_view(actions@) =~= Seq::<(u8, Seq<Connection>)>::empty());
        }
        let mut gi: usize = 0;
        while gi < genes.len()
            invariant
                genes@ == ngenes,
                genes_wf(genes@, sensory_count),
                forall|j: int|
                    0 <= j < genes@.len() ==> ((#[trigger] genes@[j]).destination_id < 128
                        ==> genes@[j].destination_id < action_count),
                active@.len() == genes@.len(),
                built@.len() == 128,
                state_wf(genes@, sensory_count, st_of(active@, built@, arena@)),
                0 <= gi <= genes@.len(),
                forall|a: int|
                    0 <= a < actions@.len() ==> {
                        &&& (#[trigger] actions@[a]).inputs@.len() > 0
                        &&& actions@[a].action_id < action_count
                        &&& forall|c: int|
                            0 <= c < actions@[a].inputs@.len() ==> connection_wf(
                                #[trigger] actions@[a].inputs@[c],
                                arena@.len() as int,
                                sensory_count,
                            )
                    },
                spec_compile_loop(genes@, st_of(active@, built@, arena@), gi as int, actions_view(actions@))
                    == spec_compile_loop(genes@, st_init, 0, Seq::empty()),
            decreases genes@.len() - gi,
        {
            let ghost st_pre = st_of(active@, built@, arena@);
            let ghost acts_pre = actions_view(actions@);
            if active[gi] && genes[gi].destination_id < 128 {
                let dest = genes[gi].destination_id;
                let mut visited: Vec<u8> = Vec::new();
                proof {
                    lemma_count_active_le_len(active@);
                    assert(visited@ =~= Seq::<u8>::empty());
                }
                let sub = build_inputs(
                    &genes,
                    dest,
                    &mut visited,
                    &mut active,
                    &mut built,
                    &mut arena,
                    Ghost(sensory_count),
                );
                let ghost st_ret = st_of(active@, built@, arena@);
                let ghost sub_view = opt_inputs_view(sub);
                proof {
                    assert((genes@.len() + 1) as nat > count_active(st_pre.active));
                    assert(spec_build(
                        genes@,
                        dest,
                        Seq::<u8>::empty(),
                        st_pre,
                        (genes@.len() + 1) as nat,
                    ) == (st_ret, sub_view));
                }
                match sub {
                    Some(inputs) => {
                        let ghost inpv = inputs@;
                        let ghost arena_now = arena@;
                        actions.push(ActionNeuron::new(dest, inputs));
                        proof {
                            lemma_actions_view_push(actions@.drop_last(), actions@.last());
                            assert(actions_view(actions@) =~= acts_pre.push((dest, inpv)));
                            assert(spec_compile_loop(genes@, st_pre, gi as int, acts_pre)
                                == spec_compile_loop(
                                genes@,
                                st_ret,
                                gi + 1,
                                actions_view(actions@),
                            ));
                        }
                    },
                    None => {
                        proof {
                            assert(spec_compile_loop(genes@, st_pre, gi as int, acts_pre)
                                == spec_compile_loop(genes@, st_ret, gi + 1, actions_view(actions@)));
                        }
                    },
                }
            } else {
                proof {
                    assert(spec_compile_loop(genes@, st_pre, gi as int, acts_pre)
                        == spec_compile_loop(
                        genes@,
                        st_of(active@, built@, arena@),
                        gi + 1,
                        actions_view(actions@),
                    ));
                }
            }
            gi += 1;
        }
        let brain = Brain {
            sensory_count,
            action_count,
            max_internal_neurons,
            internals: arena,
            actions,
        };
        proof {
            assert forall|i2: int| 0 <= i2 < brain.internals@.len() implies {
                &&& (#[trigger] brain.internals@[i2]).inputs@.len() > 0
                &&& forall|c: int|
                    0 <= c < brain.internals@[i2].inputs@.len() ==> connection_wf(
                        #[trigger] brain.internals@[i2].inputs@[c],
                        i2,
                        brain.sensory_count,
                    )
            } by {
                assert(arena_view(brain.internals@)[i2] == brain.internals@[i2].inputs@);
            }
            assert(brain.wf());
        }
        brain
    }
}

} // verus!

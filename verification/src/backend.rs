//! The target that later stages compile for: its size, the gates it runs
//! and which pairs of qubits it couples.

use petgraph::graph::Graph;
use petgraph::graph::NodeIndex;
use petgraph::Directed;
use vstd::prelude::*;
use vstd::string::*;

use crate::parser::text::same_text;

verus! {

/// `petgraph::Directed`, the marker of graphs whose edges have a direction.
/// Nothing is claimed of it.
#[verifier::external_type_specification]
#[verifier::external_body]
pub struct ExDirected(Directed);

/// `petgraph::graph::Graph`. Its inside is not looked into: what a graph
/// holds is told by [`graph_nodes`] and [`graph_edges`].
#[verifier::external_type_specification]
#[verifier::external_body]
#[verifier::reject_recursive_types(N)]
#[verifier::reject_recursive_types(E)]
#[verifier::reject_recursive_types(Ty)]
#[verifier::reject_recursive_types(Ix)]
pub struct ExGraph<N, E, Ty, Ix>(Graph<N, E, Ty, Ix>);

/// How many nodes a coupling graph has.
pub uninterp spec fn graph_nodes(g: Graph<(), (), Directed, u32>) -> nat;

/// The edges of a coupling graph, source and target, in the order in which
/// they were added.
pub uninterp spec fn graph_edges(g: Graph<(), (), Directed, u32>) -> Seq<(nat, nat)>;

/// Calls `petgraph::graph::Graph::new`: a graph without nodes and edges.
#[verifier::external_body]
fn graph_new() -> (g: Graph<(), (), Directed, u32>)
    ensures
        graph_nodes(g) == 0,
        graph_edges(g) == Seq::<(nat, nat)>::empty(),
{
    Graph::new()
}

/// Calls `petgraph::graph::Graph::add_node`: one node more, whose index is
/// the number of nodes before the call; the edges stay. The outside
/// function panics where that index is the largest `u32`.
#[verifier::external_body]
fn graph_add_node(g: &mut Graph<(), (), Directed, u32>)
    requires
        graph_nodes(*old(g)) < u32::MAX,
    ensures
        graph_nodes(*final(g)) == graph_nodes(*old(g)) + 1,
        graph_edges(*final(g)) == graph_edges(*old(g)),
{
    g.add_node(());
}

/// Calls `petgraph::graph::Graph::clear_edges`: no edge is left; the nodes
/// stay.
#[verifier::external_body]
fn graph_clear_edges(g: &mut Graph<(), (), Directed, u32>)
    ensures
        graph_nodes(*final(g)) == graph_nodes(*old(g)),
        graph_edges(*final(g)) == Seq::<(nat, nat)>::empty(),
{
    g.clear_edges();
}

/// Calls `petgraph::graph::Graph::add_edge` between the nodes of two
/// indices: one edge more, behind the others; the nodes stay. The outside
/// function panics where an index names no node, and where the number of
/// edges before the call is the largest `u32`.
#[verifier::external_body]
fn graph_add_edge(g: &mut Graph<(), (), Directed, u32>, source: usize, target: usize)
    requires
        source < graph_nodes(*old(g)),
        target < graph_nodes(*old(g)),
        graph_nodes(*old(g)) <= u32::MAX,
        graph_edges(*old(g)).len() < u32::MAX,
    ensures
        graph_nodes(*final(g)) == graph_nodes(*old(g)),
        graph_edges(*final(g)) == graph_edges(*old(g)).push((source as nat, target as nat)),
{
    g.add_edge(NodeIndex::new(source), NodeIndex::new(target), ());
}

/// Calls `Clone::clone` of `petgraph::graph::Graph`: a graph with the same
/// nodes and the same edges.
#[verifier::external_body]
fn graph_clone(g: &Graph<(), (), Directed, u32>) -> (r: Graph<(), (), Directed, u32>)
    ensures
        graph_nodes(r) == graph_nodes(*g),
        graph_edges(r) == graph_edges(*g),
{
    g.clone()
}

/// The pairs of a list that couple two qubits of a device with `n` qubits,
/// in order.
pub open spec fn couplings(edges: Seq<(usize, usize)>, n: nat) -> Seq<(nat, nat)>
    decreases edges.len(),
{
    if edges.len() == 0 {
        Seq::empty()
    } else {
        let (source, target) = edges.last();
        if source < n && target < n {
            couplings(edges.drop_last(), n).push((source as nat, target as nat))
        } else {
            couplings(edges.drop_last(), n)
        }
    }
}

proof fn lemma_couplings_len(edges: Seq<(usize, usize)>, n: nat)
    ensures
        couplings(edges, n).len() <= edges.len(),
    decreases edges.len(),
{
    if edges.len() > 0 {
        lemma_couplings_len(edges.drop_last(), n);
    }
}

/// The names of a list, as a set.
pub open spec fn name_set(names: Seq<String>) -> Set<Seq<char>> {
    Set::new(|n: Seq<char>| exists|i: int| 0 <= i < names.len() && (#[trigger] names[i])@ == n)
}

/// A device: its name, how many qubits it has, the gates it runs natively,
/// and which qubit may control which.
#[derive(Debug)]
pub struct Backend {
    pub name: String,
    pub num_qubits: usize,
    /// The names of the native gates, each once.
    pub basis_gates: Vec<String>,
    /// Nodes are the physical qubits; an edge leads from a qubit to one that
    /// a two-qubit gate may join it with.
    pub coupling_map: Graph<(), (), Directed, u32>,
}

impl Backend {
    /// The coupling map has one node for each qubit and edges between
    /// qubits only, and no basis gate is named twice.
    pub open spec fn wf(&self) -> bool {
        &&& graph_nodes(self.coupling_map) == self.num_qubits
        &&& self.num_qubits <= u32::MAX
        &&& forall|i: int, j: int|
            0 <= i < j < self.basis_gates@.len() ==> (#[trigger] self.basis_gates@[i])@ != (
            #[trigger] self.basis_gates@[j])@
    }

    /// The names of the native gates.
    pub open spec fn basis(&self) -> Set<Seq<char>> {
        name_set(self.basis_gates@)
    }

    /// A device with `num_qubits` qubits, no native gates and no couplings.
    pub fn new(name: String, num_qubits: usize) -> (b: Self)
        requires
            num_qubits <= u32::MAX,
        ensures
            b.wf(),
            b.name@ == name@,
            b.num_qubits == num_qubits,
            b.basis() == Set::<Seq<char>>::empty(),
            graph_nodes(b.coupling_map) == num_qubits,
            graph_edges(b.coupling_map) == Seq::<(nat, nat)>::empty(),
    {
        let mut graph = graph_new();
        let mut i: usize = 0;
        while i < num_qubits
            invariant
                i <= num_qubits <= u32::MAX,
                graph_nodes(graph) == i,
                graph_edges(graph) == Seq::<(nat, nat)>::empty(),
            decreases num_qubits - i,
        {
            graph_add_node(&mut graph);
            i += 1;
        }
        let b = Backend { name, num_qubits, basis_gates: Vec::new(), coupling_map: graph };
        assert(b.basis() =~= Set::<Seq<char>>::empty());
        b
    }

    /// Whether a gate is native.
    pub fn has_basis_gate(&self, gate: &str) -> (r: bool)
        ensures
            r == self.basis().contains(gate@),
    {
        let mut i: usize = 0;
        while i < self.basis_gates.len()
            invariant
                i <= self.basis_gates.len(),
                forall|k: int| 0 <= k < i ==> (#[trigger] self.basis_gates@[k])@ != gate@,
            decreases self.basis_gates.len() - i,
        {
            if same_text(self.basis_gates[i].as_str(), gate) {
                return true;
            }
            i += 1;
        }
        false
    }

    /// Makes a gate native; nothing changes where it is already.
    pub fn add_basis_gate(&mut self, gate: &str)
        requires
            old(self).wf(),
        ensures
            final(self).wf(),
            final(self).basis() == old(self).basis().insert(gate@),
            final(self).name == old(self).name,
            final(self).num_qubits == old(self).num_qubits,
            final(self).coupling_map == old(self).coupling_map,
    {
        if !self.has_basis_gate(gate) {
            let ghost before = self.basis_gates@;
            self.basis_gates.push(String::from_str(gate));
            proof {
                let after = self.basis_gates@;
                assert forall|n: Seq<char>| self.basis().contains(n) <==> old(self).basis().insert(
                    gate@,
                ).contains(n) by {
                    if self.basis().contains(n) {
                        let i = choose|i: int| 0 <= i < after.len() && (#[trigger] after[i])@ == n;
                        if i < before.len() {
                            assert(before[i]@ == n);
                        }
                    }
                    if old(self).basis().contains(n) {
                        let i = choose|i: int|
                            0 <= i < before.len() && (#[trigger] before[i])@ == n;
                        assert(after[i]@ == n);
                    }
                    if n == gate@ {
                        assert(after[before.len() as int]@ == n);
                    }
                }
                assert(self.basis() =~= old(self).basis().insert(gate@));
            }
        } else {
            assert(self.basis() =~= old(self).basis().insert(gate@));
        }
    }

    /// Replaces the couplings by those pairs of `edges` whose two ends are
    /// qubits of the device, source first, in the order of the list.
    pub fn set_coupling_map(&mut self, edges: Vec<(usize, usize)>)
        requires
            old(self).wf(),
            edges@.len() <= u32::MAX,
        ensures
            final(self).wf(),
            graph_edges(final(self).coupling_map) == couplings(edges@, old(self).num_qubits as nat),
            final(self).name == old(self).name,
            final(self).num_qubits == old(self).num_qubits,
            final(self).basis_gates == old(self).basis_gates,
    {
        graph_clear_edges(&mut self.coupling_map);
        let n = self.num_qubits;
        let mut i: usize = 0;
        while i < edges.len()
            invariant
                i <= edges.len(),
                edges@.len() <= u32::MAX,
                n == self.num_qubits,
                n <= u32::MAX,
                graph_nodes(self.coupling_map) == n,
                graph_edges(self.coupling_map) == couplings(edges@.take(i as int), n as nat),
                self.name == old(self).name,
                self.num_qubits == old(self).num_qubits,
                self.basis_gates == old(self).basis_gates,
            decreases edges.len() - i,
        {
            let (u, v) = edges[i];
            proof {
                assert(edges@.take(i + 1).drop_last() =~= edges@.take(i as int));
                assert(edges@.take(i + 1).last() == edges@[i as int]);
                lemma_couplings_len(edges@.take(i as int), n as nat);
            }
            if u < n && v < n {
                graph_add_edge(&mut self.coupling_map, u, v);
            }
            i += 1;
        }
        assert(edges@.take(i as int) =~= edges@);
    }
}

impl Clone for Backend {
    fn clone(&self) -> (b: Self)
        ensures
            b.name@ == self.name@,
            b.num_qubits == self.num_qubits,
            b.basis_gates@.len() == self.basis_gates@.len(),
            forall|i: int|
                0 <= i < self.basis_gates@.len() ==> (#[trigger] b.basis_gates@[i])@
                    == self.basis_gates@[i]@,
            graph_nodes(b.coupling_map) == graph_nodes(self.coupling_map),
            graph_edges(b.coupling_map) == graph_edges(self.coupling_map),
    {
        let mut basis_gates: Vec<String> = Vec::new();
        let mut i: usize = 0;
        while i < self.basis_gates.len()
            invariant
                i <= self.basis_gates.len(),
                basis_gates@.len() == i,
                forall|k: int|
                    0 <= k < i ==> (#[trigger] basis_gates@[k])@ == self.basis_gates@[k]@,
            decreases self.basis_gates.len() - i,
        {
            basis_gates.push(self.basis_gates[i].clone());
            i += 1;
        }
        Backend {
            name: self.name.clone(),
            num_qubits: self.num_qubits,
            basis_gates,
            coupling_map: graph_clone(&self.coupling_map),
        }
    }
}

} // verus!

//! The signal graph: an arena of nodes addressed by the index that `insert`
//! hands out, the connections between them, and one designated output.

use vstd::prelude::*;
use crate::nodes::Node;

verus! {

/// Why a construction step was refused.
#[derive(Clone, Copy, Debug, PartialEq, Eq, Structural)]
pub enum GraphError {
    /// An index names no node of the graph.
    NoSuchNode,
    /// The connection would let a node feed itself.
    Cycle,
}

/// One slot of the arena: a node and the indices of the nodes that feed it,
/// in the order in which they were connected.
pub struct GraphNode {
    pub data: Node,
    pub inputs: Vec<usize>,
}

impl GraphNode {
    /// Appends `node` to the inputs. Nothing is checked here: `Graph::connect`
    /// is the checked way to add a connection.
    pub fn parent_to(&mut self, node: usize)
        ensures
            final(self).inputs@ == old(self).inputs@.push(node),
            final(self).data == old(self).data,
    {
        self.inputs.push(node);
    }
}

/// `rank` bears witness that `slots` holds no dangling input and no cycle:
/// every input names a slot, and one of strictly smaller rank.
pub open spec fn ranked_by(slots: Seq<GraphNode>, rank: Seq<nat>) -> bool {
    &&& rank.len() == slots.len()
    &&& forall|i: int, k: int|
        0 <= i < slots.len() && 0 <= k < slots[i].inputs@.len() ==> {
            &&& (#[trigger] slots[i].inputs@[k]) < slots.len()
            &&& rank[slots[i].inputs@[k] as int] < rank[i]
        }
}

/// Every input names a slot of the arena, and no node feeds itself, directly
/// or through other nodes.
pub open spec fn well_formed(slots: Seq<GraphNode>) -> bool {
    exists|rank: Seq<nat>| ranked_by(slots, rank)
}

/// Some ranking of a well-formed arena.
pub open spec fn ranking(slots: Seq<GraphNode>) -> Seq<nat> {
    choose|rank: Seq<nat>| ranked_by(slots, rank)
}

/// The node at `from` depends on the node at `to`: they are the same node, or
/// some input of `from` depends on `to`.
pub open spec fn depends_on(slots: Seq<GraphNode>, from: int, to: int) -> bool
    decreases ranking(slots)[from],
    when well_formed(slots) && 0 <= from < slots.len()
{
    from == to || exists|k: int|
        0 <= k < slots[from].inputs@.len() && depends_on(
            slots,
            (#[trigger] slots[from].inputs@[k]) as int,
            to,
        )
}

/// The ranking that bears witness for the arena after `consumer` has got
/// `producer` as a new input: every node that depends on `consumer` is
/// lifted above `producer`.
spec fn lifted_ranking(slots: Seq<GraphNode>, consumer: int, producer: int) -> Seq<nat> {
    let rank = ranking(slots);
    Seq::new(
        slots.len(),
        |x: int|
            if depends_on(slots, x, consumer) {
                rank[x] + rank[producer] + 1
            } else {
                rank[x]
            },
    )
}

/// A node depends on whatever one of its inputs depends on.
proof fn lemma_depends_through_input(slots: Seq<GraphNode>, from: int, k: int, to: int)
    requires
        well_formed(slots),
        0 <= from < slots.len(),
        0 <= k < slots[from].inputs@.len(),
        depends_on(slots, slots[from].inputs@[k] as int, to),
    ensures
        depends_on(slots, from, to),
{
}

/// What a node depends on is a node of the arena and ranks no higher than
/// the node.
proof fn lemma_dependency_ranks_below(slots: Seq<GraphNode>, from: int, to: int)
    requires
        well_formed(slots),
        0 <= from < slots.len(),
        depends_on(slots, from, to),
    ensures
        0 <= to < slots.len(),
        ranking(slots)[to] <= ranking(slots)[from],
    decreases ranking(slots)[from],
{
    if from != to {
        let k = choose|k: int|
            0 <= k < slots[from].inputs@.len() && depends_on(
                slots,
                (#[trigger] slots[from].inputs@[k]) as int,
                to,
            );
        lemma_dependency_ranks_below(slots, slots[from].inputs@[k] as int, to);
    }
}

/// In a well-formed graph no node feeds itself: every input of a node names
/// a node, and none that depends on the node it feeds.
pub proof fn lemma_no_node_feeds_itself(slots: Seq<GraphNode>, index: int, k: int)
    requires
        well_formed(slots),
        0 <= index < slots.len(),
        0 <= k < slots[index].inputs@.len(),
    ensures
        slots[index].inputs@[k] < slots.len(),
        !depends_on(slots, slots[index].inputs@[k] as int, index),
{
    let input = slots[index].inputs@[k] as int;
    if depends_on(slots, input, index) {
        lemma_dependency_ranks_below(slots, input, index);
    }
}

/// Dependence carries on: what a node depends on, and whatever that depends
/// on in turn, the node depends on.
pub proof fn lemma_dependence_carries_on(slots: Seq<GraphNode>, a: int, b: int, c: int)
    requires
        well_formed(slots),
        0 <= a < slots.len(),
        depends_on(slots, a, b),
        depends_on(slots, b, c),
    ensures
        depends_on(slots, a, c),
    decreases ranking(slots)[a],
{
    if a != b {
        let k = choose|k: int|
            0 <= k < slots[a].inputs@.len() && depends_on(
                slots,
                (#[trigger] slots[a].inputs@[k]) as int,
                b,
            );
        lemma_dependence_carries_on(slots, slots[a].inputs@[k] as int, b, c);
    }
}

/// The arena of nodes and the connections between them.
pub struct Graph {
    nodes: Vec<GraphNode>,
    out_index: usize,
}

impl Graph {
    /// The slots of the arena, in insertion order.
    pub closed spec fn view(&self) -> Seq<GraphNode> {
        self.nodes@
    }

    /// The index of the designated output node.
    pub closed spec fn output(&self) -> usize {
        self.out_index
    }

    /// Every input names a node of the graph and no node depends on itself.
    /// `new` establishes this and every operation keeps it.
    pub open spec fn wf(&self) -> bool {
        well_formed(self@)
    }

    /// An empty graph. Its output index is 0, which names no node yet.
    pub fn new() -> (graph: Graph)
        ensures
            graph.wf(),
            graph@ == Seq::<GraphNode>::empty(),
            graph.output() == 0,
    {
        proof {
            assert(ranked_by(Seq::<GraphNode>::empty(), Seq::<nat>::empty()));
        }
        Graph { nodes: Vec::new(), out_index: 0 }
    }

    /// The number of nodes.
    pub fn len(&self) -> (n: usize)
        ensures
            n == self@.len(),
    {
        self.nodes.len()
    }

    /// Appends `node` with no inputs and returns its index.
    pub fn insert(&mut self, node: Node) -> (index: usize)
        requires
            old(self).wf(),
        ensures
            final(self).wf(),
            index == old(self)@.len(),
            final(self)@.len() == old(self)@.len() + 1,
            final(self)@.drop_last() == old(self)@,
            final(self)@.last().data == node,
            final(self)@.last().inputs@ == Seq::<usize>::empty(),
            final(self).output() == old(self).output(),
    {
        let ghost rank = ranking(self.nodes@);
        let index = self.nodes.len();
        self.nodes.push(GraphNode { data: node, inputs: Vec::new() });
        proof {
            assert(ranked_by(self.nodes@, rank.push(0)));
        }
        index
    }

    /// The slot at `index`.
    pub fn get(&self, index: usize) -> (slot: &GraphNode)
        requires
            index < self@.len(),
        ensures
            *slot == self@[index as int],
    {
        &self.nodes[index]
    }

    /// The node at `index`, for changing it in place. The connections of the
    /// slot are out of reach, so the graph stays well formed whatever is
    /// written.
    pub fn get_mut(&mut self, index: usize) -> (node: &mut Node)
        requires
            index < old(self)@.len(),
        ensures
            *node == old(self)@[index as int].data,
            final(self)@.len() == old(self)@.len(),
            final(self)@[index as int].data == *final(node),
            final(self)@[index as int].inputs == old(self)@[index as int].inputs,
            forall|j: int|
                0 <= j < old(self)@.len() && j != index ==> final(self)@[j] == old(self)@[j],
            final(self).output() == old(self).output(),
            old(self).wf() ==> final(self).wf(),
    {
        let ghost rank = ranking(self.nodes@);
        let node = &mut self.nodes[index].data;
        proof {
            let before = old(self).nodes@;
            let after = before.update(
                index as int,
                GraphNode { data: *final(node), inputs: before[index as int].inputs },
            );
            if old(self).wf() {
                assert forall|i: int, k: int|
                    0 <= i < after.len() && 0 <= k < after[i].inputs@.len() implies {
                    &&& (#[trigger] after[i].inputs@[k]) < after.len()
                    &&& rank[after[i].inputs@[k] as int] < rank[i]
                } by {
                    assert(after[i].inputs@[k] == before[i].inputs@[k]);
                }
                assert(ranked_by(after, rank));
            }
        }
        node
    }

    /// The index of the designated output node.
    pub fn output_index(&self) -> (index: usize)
        ensures
            index == self.output(),
    {
        self.out_index
    }

    /// Designates the node at `index` as the output. Refused with
    /// `NoSuchNode`, and without effect, when `index` names no node.
    pub fn set_output(&mut self, index: usize) -> (done: Result<(), GraphError>)
        ensures
            final(self)@ == old(self)@,
            match done {
                Ok(()) => index < old(self)@.len() && final(self).output() == index,
                Err(e) => {
                    &&& e == GraphError::NoSuchNode
                    &&& index >= old(self)@.len()
                    &&& final(self).output() == old(self).output()
                },
            },
    {
        if index >= self.nodes.len() {
            return Err(GraphError::NoSuchNode);
        }
        self.out_index = index;
        Ok(())
    }

    /// Whether the node at `from` depends on the node at `to`. The search
    /// follows every reference, as evaluation does.
    pub fn depends_on(&self, from: usize, to: usize) -> (found: bool)
        requires
            self.wf(),
            from < self@.len(),
        ensures
            found == depends_on(self@, from as int, to as int),
        decreases ranking(self@)[from as int],
    {
        if from == to {
            return true;
        }
        let slot = &self.nodes[from];
        let mut k: usize = 0;
        while k < slot.inputs.len()
            invariant
                well_formed(self@),
                from < self@.len(),
                *slot == self@[from as int],
                k <= slot.inputs.len(),
                forall|j: int|
                    0 <= j < k ==> !depends_on(
                        self@,
                        (#[trigger] slot.inputs@[j]) as int,
                        to as int,
                    ),
            decreases slot.inputs.len() - k,
        {
            if self.depends_on(slot.inputs[k], to) {
                return true;
            }
            k += 1;
        }
        false
    }

    /// Makes the node at `producer` the next input of the node at `consumer`.
    ///
    /// Refused with `NoSuchNode` when either index names no node, and with
    /// `Cycle` when `producer` already depends on `consumer` (the node itself
    /// included). A refused call leaves the graph as it was.
    pub fn connect(&mut self, consumer: usize, producer: usize) -> (done: Result<(), GraphError>)
        requires
            old(self).wf(),
        ensures
            final(self).wf(),
            final(self).output() == old(self).output(),
            final(self)@.len() == old(self)@.len(),
            match done {
                Ok(()) => {
                    &&& consumer < old(self)@.len()
                    &&& producer < old(self)@.len()
                    &&& !depends_on(old(self)@, producer as int, consumer as int)
                    &&& final(self)@[consumer as int].data == old(self)@[consumer as int].data
                    &&& final(self)@[consumer as int].inputs@ == old(self)@[consumer as int].inputs@.push(
                        producer,
                    )
                    &&& forall|j: int|
                        0 <= j < old(self)@.len() && j != consumer ==> final(self)@[j] == old(
                            self,
                        )@[j]
                },
                Err(GraphError::NoSuchNode) => {
                    &&& consumer >= old(self)@.len() || producer >= old(self)@.len()
                    &&& final(self)@ == old(self)@
                },
                Err(GraphError::Cycle) => {
                    &&& consumer < old(self)@.len()
                    &&& producer < old(self)@.len()
                    &&& depends_on(old(self)@, producer as int, consumer as int)
                    &&& final(self)@ == old(self)@
                },
            },
    {
        if consumer >= self.nodes.len() || producer >= self.nodes.len() {
            return Err(GraphError::NoSuchNode);
        }
        if self.depends_on(producer, consumer) {
            return Err(GraphError::Cycle);
        }
        let ghost before = self.nodes@;
        self.nodes[consumer].parent_to(producer);
        proof {
            let after = self.nodes@;
            let lifted = lifted_ranking(before, consumer as int, producer as int);
            assert forall|i: int, k: int|
                0 <= i < after.len() && 0 <= k < after[i].inputs@.len() implies {
                &&& (#[trigger] after[i].inputs@[k]) < after.len()
                &&& lifted[after[i].inputs@[k] as int] < lifted[i]
            } by {
                if i == consumer && k == before[i].inputs@.len() {
                } else {
                    assert(after[i].inputs@[k] == before[i].inputs@[k]);
                    if depends_on(before, before[i].inputs@[k] as int, consumer as int) {
                        lemma_depends_through_input(before, i, k, consumer as int);
                    }
                }
            }
            assert(ranked_by(after, lifted));
        }
        Ok(())
    }
}

} // verus!

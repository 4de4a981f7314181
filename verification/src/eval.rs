//! Evaluation: which node is sampled, on which values, in which order.
//!
//! The arithmetic is the caller's: a function from a node, the context and
//! the node's resolved inputs to a value. The contracts say what is handed to
//! that function and relate the result to the function's own contract.

use vstd::prelude::*;
use crate::graph::{ranking, well_formed, Graph, GraphNode};
use crate::nodes::{Node, SamplingContext};

verus! {

/// The child nodes that a node owns: those of a mixer, none otherwise.
pub open spec fn owned(node: Node) -> Seq<Node> {
    match node {
        Node::Mixer(sum) => sum.nodes@,
        _ => Seq::empty(),
    }
}

/// `out` is a value that `sample` may give for `node` when the graph supplies
/// the values `supplied`: each owned child is sampled with nothing supplied,
/// in order, and `sample` is then called on the node with the supplied values
/// followed by the children's.
pub open spec fn node_yields<V, F: Fn(&Node, &SamplingContext, Vec<V>) -> V>(
    sample: F,
    ctx: SamplingContext,
    node: Node,
    supplied: Seq<V>,
    out: V,
) -> bool
    decreases node,
{
    exists|own: Seq<V>, all: Vec<V>|
        {
            &&& own.len() == owned(node).len()
            &&& forall|k: int|
                0 <= k < own.len() ==> node_yields(
                    sample,
                    ctx,
                    #[trigger] owned(node)[k],
                    Seq::empty(),
                    own[k],
                )
            &&& all@ == supplied + own
            &&& call_ensures(sample, (&node, &ctx, all), out)
        }
}

/// `out` is a value that evaluating slot `index` may give: the inputs of the
/// slot are evaluated in list order, once per reference, and the node is then
/// sampled on their values.
pub open spec fn slot_yields<V, F: Fn(&Node, &SamplingContext, Vec<V>) -> V>(
    slots: Seq<GraphNode>,
    sample: F,
    ctx: SamplingContext,
    index: int,
    out: V,
) -> bool
    decreases ranking(slots)[index],
    when well_formed(slots) && 0 <= index < slots.len()
{
    exists|ins: Seq<V>|
        {
            &&& ins.len() == slots[index].inputs@.len()
            &&& forall|k: int|
                0 <= k < ins.len() ==> slot_yields(
                    slots,
                    sample,
                    ctx,
                    (#[trigger] slots[index].inputs@[k]) as int,
                    ins[k],
                )
            &&& node_yields(sample, ctx, slots[index].data, ins, out)
        }
}

/// Samples one node: its owned children first, each with nothing supplied,
/// then the node itself on the supplied values followed by the children's.
pub fn sample_node<V, F: Fn(&Node, &SamplingContext, Vec<V>) -> V>(
    sample: &F,
    ctx: &SamplingContext,
    node: &Node,
    supplied: Vec<V>,
) -> (out: V)
    requires
        forall|n: &Node, c: &SamplingContext, xs: Vec<V>| call_requires(*sample, (n, c, xs)),
    ensures
        node_yields(*sample, *ctx, *node, supplied@, out),
        forall|value_of: spec_fn(Node, SamplingContext, Seq<V>) -> V|
            #[trigger] computes(*sample, value_of) ==> out == node_value(
                value_of,
                *ctx,
                *node,
                supplied@,
            ),
    decreases *node,
{
    let mut all = supplied;
    let ghost mut own: Seq<V> = Seq::empty();
    match node {
        Node::Mixer(sum) => {
            let mut k: usize = 0;
            while k < sum.nodes.len()
                invariant
                    *node == Node::Mixer(*sum),
                    k <= sum.nodes.len(),
                    own.len() == k,
                    all@ == supplied@ + own,
                    forall|n: &Node, c: &SamplingContext, xs: Vec<V>|
                        call_requires(*sample, (n, c, xs)),
                    forall|j: int|
                        0 <= j < k ==> node_yields(
                            *sample,
                            *ctx,
                            #[trigger] owned(*node)[j],
                            Seq::empty(),
                            own[j],
                        ),
                decreases sum.nodes.len() - k,
            {
                proof {
                    assert(decreases_to!(*node => node->Mixer_0));
                    assert(decreases_to!(sum.nodes => sum.nodes[k as int]));
                }
                let value = sample_node(sample, ctx, &sum.nodes[k], Vec::new());
                all.push(value);
                proof {
                    own = own.push(value);
                }
                k += 1;
            }
        },
        _ => {},
    }
    let ghost resolved = all;
    let out = sample(node, ctx, all);
    proof {
        assert(resolved@ == supplied@ + own);
        assert(call_ensures(*sample, (node, ctx, resolved), out));
        assert forall|value_of: spec_fn(Node, SamplingContext, Seq<V>) -> V| #[trigger]
            computes(*sample, value_of) implies out == node_value(
            value_of,
            *ctx,
            *node,
            supplied@,
        ) by {
            lemma_node_value(*sample, value_of, *ctx, *node, supplied@, out);
        }
    }
    out
}

impl Graph {
    /// Evaluates the node at `index`: its inputs first, in list order and once
    /// per reference, then the node itself on their values. Nothing is kept
    /// from one reference to the next.
    pub fn eval_node<V, F: Fn(&Node, &SamplingContext, Vec<V>) -> V>(
        &self,
        ctx: &SamplingContext,
        index: usize,
        sample: &F,
    ) -> (out: V)
        requires
            self.wf(),
            index < self@.len(),
            forall|n: &Node, c: &SamplingContext, xs: Vec<V>| call_requires(*sample, (n, c, xs)),
        ensures
            slot_yields(self@, *sample, *ctx, index as int, out),
            forall|value_of: spec_fn(Node, SamplingContext, Seq<V>) -> V|
                #[trigger] computes(*sample, value_of) ==> out == slot_value(
                    self@,
                    value_of,
                    *ctx,
                    index as int,
                ),
        decreases ranking(self@)[index as int],
    {
        let slot = self.get(index);
        let mut ins: Vec<V> = Vec::new();
        let mut k: usize = 0;
        while k < slot.inputs.len()
            invariant
                well_formed(self@),
                index < self@.len(),
                *slot == self@[index as int],
                k <= slot.inputs.len(),
                ins.len() == k,
                forall|n: &Node, c: &SamplingContext, xs: Vec<V>|
                    call_requires(*sample, (n, c, xs)),
                forall|j: int|
                    0 <= j < k ==> slot_yields(
                        self@,
                        *sample,
                        *ctx,
                        (#[trigger] slot.inputs@[j]) as int,
                        ins@[j],
                    ),
            decreases slot.inputs.len() - k,
        {
            let value = self.eval_node(ctx, slot.inputs[k], sample);
            ins.push(value);
            k += 1;
        }
        let out = sample_node(sample, ctx, &slot.data, ins);
        proof {
            assert forall|value_of: spec_fn(Node, SamplingContext, Seq<V>) -> V| #[trigger]
                computes(*sample, value_of) implies out == slot_value(
                self@,
                value_of,
                *ctx,
                index as int,
            ) by {
                lemma_slot_value(self@, *sample, value_of, *ctx, index as int, out);
            }
        }
        out
    }

    /// Evaluates the designated output node. There is no value when the
    /// output index names no node, as in a graph that is still empty.
    pub fn eval_output<V, F: Fn(&Node, &SamplingContext, Vec<V>) -> V>(
        &self,
        ctx: &SamplingContext,
        sample: &F,
    ) -> (out: Option<V>)
        requires
            self.wf(),
            forall|n: &Node, c: &SamplingContext, xs: Vec<V>| call_requires(*sample, (n, c, xs)),
        ensures
            out is Some <==> self.output() < self@.len(),
            out matches Some(value) ==> slot_yields(
                self@,
                *sample,
                *ctx,
                self.output() as int,
                value,
            ),
            out matches Some(value) ==> forall|value_of: spec_fn(Node, SamplingContext, Seq<V>) -> V|
                #[trigger] computes(*sample, value_of) ==> value == slot_value(
                    self@,
                    value_of,
                    *ctx,
                    self.output() as int,
                ),
    {
        let index = self.output_index();
        if index < self.len() {
            Some(self.eval_node(ctx, index, sample))
        } else {
            None
        }
    }
}

/// `sample` computes `value_of`: whatever `sample` returns for a node, a
/// context and a list of inputs is what `value_of` gives for them.
pub open spec fn computes<V, F: Fn(&Node, &SamplingContext, Vec<V>) -> V>(
    sample: F,
    value_of: spec_fn(Node, SamplingContext, Seq<V>) -> V,
) -> bool {
    forall|n: &Node, c: &SamplingContext, xs: Vec<V>, out: V|
        call_ensures(sample, (n, c, xs), out) ==> out == value_of(*n, *c, xs@)
}

/// The value of `node` on the supplied values under `value_of`: the node is
/// valued on the supplied values followed by those of its owned children.
pub open spec fn node_value<V>(
    value_of: spec_fn(Node, SamplingContext, Seq<V>) -> V,
    ctx: SamplingContext,
    node: Node,
    supplied: Seq<V>,
) -> V
    decreases node, 1nat,
{
    value_of(node, ctx, supplied + owned_values(value_of, ctx, node))
}

/// The values of the owned children of `node`, each valued with nothing
/// supplied, in order.
pub open spec fn owned_values<V>(
    value_of: spec_fn(Node, SamplingContext, Seq<V>) -> V,
    ctx: SamplingContext,
    node: Node,
) -> Seq<V>
    decreases node, 0nat,
{
    Seq::new(
        owned(node).len(),
        |k: int|
            if 0 <= k < owned(node).len() {
                node_value(value_of, ctx, owned(node)[k], Seq::empty())
            } else {
                arbitrary()
            },
    )
}

/// The value of slot `index` under `value_of`: the node is valued on the
/// values of its inputs.
pub open spec fn slot_value<V>(
    slots: Seq<GraphNode>,
    value_of: spec_fn(Node, SamplingContext, Seq<V>) -> V,
    ctx: SamplingContext,
    index: int,
) -> V
    decreases ranking(slots)[index], 1nat,
    when well_formed(slots) && 0 <= index < slots.len()
{
    node_value(value_of, ctx, slots[index].data, input_values(slots, value_of, ctx, index))
}

/// The values of the inputs of slot `index`, in list order, one per
/// reference.
pub open spec fn input_values<V>(
    slots: Seq<GraphNode>,
    value_of: spec_fn(Node, SamplingContext, Seq<V>) -> V,
    ctx: SamplingContext,
    index: int,
) -> Seq<V>
    decreases ranking(slots)[index], 0nat,
    when well_formed(slots) && 0 <= index < slots.len()
{
    Seq::new(
        slots[index].inputs@.len(),
        |k: int|
            if 0 <= k < slots[index].inputs@.len() {
                slot_value(slots, value_of, ctx, slots[index].inputs@[k] as int)
            } else {
                arbitrary()
            },
    )
}

/// Sampling a node with a function that computes `value_of` gives the value
/// of the node under `value_of`.
pub proof fn lemma_node_value<V, F: Fn(&Node, &SamplingContext, Vec<V>) -> V>(
    sample: F,
    value_of: spec_fn(Node, SamplingContext, Seq<V>) -> V,
    ctx: SamplingContext,
    node: Node,
    supplied: Seq<V>,
    out: V,
)
    requires
        computes(sample, value_of),
        node_yields(sample, ctx, node, supplied, out),
    ensures
        out == node_value(value_of, ctx, node, supplied),
    decreases node,
{
    let (own, all) = choose|own: Seq<V>, all: Vec<V>|
        {
            &&& own.len() == owned(node).len()
            &&& forall|k: int|
                0 <= k < own.len() ==> node_yields(
                    sample,
                    ctx,
                    #[trigger] owned(node)[k],
                    Seq::empty(),
                    own[k],
                )
            &&& all@ == supplied + own
            &&& call_ensures(sample, (&node, &ctx, all), out)
        };
    let values = owned_values(value_of, ctx, node);
    assert forall|k: int| 0 <= k < own.len() implies own[k] == values[k] by {
        assert(node_yields(sample, ctx, owned(node)[k], Seq::empty(), own[k]));
        lemma_node_value(sample, value_of, ctx, owned(node)[k], Seq::empty(), own[k]);
    }
    assert(own =~= values);
    assert(out == value_of(node, ctx, all@));
}

/// Evaluating a slot with a function that computes `value_of` gives the value
/// of the slot under `value_of`.
pub proof fn lemma_slot_value<V, F: Fn(&Node, &SamplingContext, Vec<V>) -> V>(
    slots: Seq<GraphNode>,
    sample: F,
    value_of: spec_fn(Node, SamplingContext, Seq<V>) -> V,
    ctx: SamplingContext,
    index: int,
    out: V,
)
    requires
        well_formed(slots),
        0 <= index < slots.len(),
        computes(sample, value_of),
        slot_yields(slots, sample, ctx, index, out),
    ensures
        out == slot_value(slots, value_of, ctx, index),
    decreases ranking(slots)[index],
{
    let ins = choose|ins: Seq<V>|
        {
            &&& ins.len() == slots[index].inputs@.len()
            &&& forall|k: int|
                0 <= k < ins.len() ==> slot_yields(
                    slots,
                    sample,
                    ctx,
                    (#[trigger] slots[index].inputs@[k]) as int,
                    ins[k],
                )
            &&& node_yields(sample, ctx, slots[index].data, ins, out)
        };
    let values = input_values(slots, value_of, ctx, index);
    assert forall|k: int| 0 <= k < ins.len() implies ins[k] == values[k] by {
        let input = slots[index].inputs@[k];
        assert(slot_yields(slots, sample, ctx, input as int, ins[k]));
        lemma_slot_value(slots, sample, value_of, ctx, input as int, ins[k]);
    }
    assert(ins =~= values);
    lemma_node_value(sample, value_of, ctx, slots[index].data, ins, out);
}

/// A node that owns no children is valued on exactly what the graph supplies:
/// the value of such a slot is that of its node on the values of its inputs,
/// in list order. So what a childless mixer gives is what `value_of` makes of
/// its resolved inputs and of nothing else.
pub proof fn lemma_childless_slot_sees_its_inputs<V>(
    slots: Seq<GraphNode>,
    value_of: spec_fn(Node, SamplingContext, Seq<V>) -> V,
    ctx: SamplingContext,
    index: int,
)
    requires
        well_formed(slots),
        0 <= index < slots.len(),
        owned(slots[index].data).len() == 0,
    ensures
        slot_value(slots, value_of, ctx, index) == value_of(
            slots[index].data,
            ctx,
            input_values(slots, value_of, ctx, index),
        ),
        input_values(slots, value_of, ctx, index).len() == slots[index].inputs@.len(),
        forall|k: int|
            0 <= k < slots[index].inputs@.len() ==> input_values(slots, value_of, ctx, index)[k]
                == slot_value(slots, value_of, ctx, #[trigger] slots[index].inputs@[k] as int),
{
    let ins = input_values(slots, value_of, ctx, index);
    assert(ins + owned_values(value_of, ctx, slots[index].data) =~= ins);
}

/// Evaluation has no hidden state: with a sampling function whose result is
/// a function of its arguments, evaluating the same slot of the same graph
/// in the same context twice gives the same value.
pub proof fn lemma_evaluation_is_deterministic<V, F: Fn(&Node, &SamplingContext, Vec<V>) -> V>(
    slots: Seq<GraphNode>,
    sample: F,
    value_of: spec_fn(Node, SamplingContext, Seq<V>) -> V,
    ctx: SamplingContext,
    index: int,
    first: V,
    second: V,
)
    requires
        well_formed(slots),
        0 <= index < slots.len(),
        computes(sample, value_of),
        slot_yields(slots, sample, ctx, index, first),
        slot_yields(slots, sample, ctx, index, second),
    ensures
        first == second,
{
    lemma_slot_value(slots, sample, value_of, ctx, index, first);
    lemma_slot_value(slots, sample, value_of, ctx, index, second);
}

} // verus!

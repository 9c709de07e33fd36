//! The ordered AND composite.

use vstd::prelude::*;

use std::sync::Arc;

use crate::model::model_tick;
use crate::model::models_of;
use crate::model::result_model;
use crate::model::seq_scan;
use crate::model::ModelNode;
use crate::BehaviorArc;
use crate::BehaviorNode;
use crate::Node;
use crate::NodeResult;

verus! {

/// Ticks its children in order; the first failure fails the whole node,
/// the first running child parks the sequence at that child, and the node
/// succeeds only when every child has succeeded.
///
/// An empty sequence succeeds immediately.
#[derive(Debug)]
pub struct Sequence<L> {
    pub sub: Arc<Vec<BehaviorArc<L>>>,
}

impl<L> Sequence<L> {
    /// The model of this composite.
    pub open spec fn model(self) -> ModelNode<L> {
        ModelNode::Sequence { children: models_of(self.sub@) }
    }

    /// Assembles a sequence over the given children.
    pub fn new(sub: Vec<BehaviorArc<L>>) -> (s: Self)
        ensures
            s.sub@ == sub@,
    {
        Sequence { sub: Arc::new(sub) }
    }

    /// Wraps this composite as a shared tree node.
    pub fn arc(self) -> (a: BehaviorArc<L>)
        ensures
            *a == Node::Sequence(self),
    {
        Arc::new(Node::Sequence(self))
    }

    /// Builds the parked form of a sequence: the shared child list, the
    /// index of the child that is still working, and that child's
    /// continuation.
    pub(crate) fn resume(
        sub: Arc<Vec<BehaviorArc<L>>>,
        index: usize,
        resume: BehaviorArc<L>,
    ) -> (a: BehaviorArc<L>)
        ensures
            *a == (Node::SequenceResume { sub, index, resume }),
    {
        Arc::new(Node::SequenceResume { sub, index, resume })
    }

    /// Ticks this sequence from its first child.
    pub fn tick<B>(&self, context: &mut B) -> (r: NodeResult<BehaviorArc<L>>) where
        L: BehaviorNode<B>

        ensures
            ({
                let (mr, mb) = model_tick((*self).model(), *old(context));
                &&& result_model(r) == mr
                &&& *final(context) == mb
            }),
        decreases *self, 0nat,
    {
        seq_tick_from(&self.sub, 0, context)
    }
}

/// Ticks the children of `sub` in order, starting at `from`: the first
/// failure fails the whole pass, the first running child parks the
/// sequence at that child, and running past the end means success.
pub(crate) fn seq_tick_from<B, L: BehaviorNode<B>>(
    sub: &Arc<Vec<BehaviorArc<L>>>,
    from: usize,
    context: &mut B,
) -> (r: NodeResult<BehaviorArc<L>>)
    ensures
        ({
            let (mr, mb) = seq_scan(models_of(sub@), from as int, *old(context));
            &&& result_model(r) == mr
            &&& *final(context) == mb
        }),
    decreases sub@, (sub@.len() - from as int),
{
    let list: &Vec<BehaviorArc<L>> = &**sub;
    let n: usize = list.len();
    if from >= n {
        return NodeResult::Success;
    }
    let child: &BehaviorArc<L> = &list[from];
    proof {
        assert(decreases_to!(sub@ => sub@[from as int]));
    }
    let res = (**child).tick(context);
    match res {
        NodeResult::Success => seq_tick_from(sub, from + 1, context),
        NodeResult::Failure => NodeResult::Failure,
        NodeResult::Running(a) => NodeResult::Running(Sequence::resume(sub.clone(), from, a)),
    }
}

} // verus!

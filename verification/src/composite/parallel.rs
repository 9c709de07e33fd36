//! The polling composites: every child in the working set is ticked on
//! every tick, and children leave the working set for good once they
//! reach a terminal result.

use vstd::prelude::*;

use std::sync::Arc;

use crate::model::lemma_models_of_push;
use crate::model::model_tick;
use crate::model::models_of;
use crate::model::par_sel_scan;
use crate::model::par_seq_scan;
use crate::model::result_model;
use crate::model::ModelNode;
use crate::BehaviorArc;
use crate::BehaviorNode;
use crate::Node;
use crate::NodeResult;

verus! {

/// Polls all children each tick; a failing child fails the whole node at
/// once, succeeding children are dropped from the working set, and the
/// node succeeds when the working set empties.
///
/// An empty parallel sequence succeeds immediately.
#[derive(Debug)]
pub struct ParallelSequence<L> {
    pub sub: Arc<Vec<BehaviorArc<L>>>,
}

impl<L> ParallelSequence<L> {
    /// The model of this composite.
    pub open spec fn model(self) -> ModelNode<L> {
        ModelNode::ParallelSequence { children: models_of(self.sub@) }
    }

    /// Assembles a parallel sequence over the given children.
    pub fn new(sub: Vec<BehaviorArc<L>>) -> (s: Self)
        ensures
            s.sub@ == sub@,
    {
        ParallelSequence { sub: Arc::new(sub) }
    }

    /// Wraps this composite as a shared tree node.
    pub fn arc(self) -> (a: BehaviorArc<L>)
        ensures
            *a == Node::ParallelSequence(self),
    {
        Arc::new(Node::ParallelSequence(self))
    }

    /// Runs one polling pass over the whole working set.
    pub fn tick<B>(&self, context: &mut B) -> (r: NodeResult<BehaviorArc<L>>) where
        L: BehaviorNode<B>

        ensures
            ({
                let (mr, mb) = model_tick((*self).model(), *old(context));
                &&& result_model(r) == mr
                &&& *final(context) == mb
            }),
        decreases *self, 0nat,
    {
        let acc: Vec<BehaviorArc<L>> = Vec::new();
        proof {
            assert(models_of(acc@) =~= Seq::<ModelNode<L>>::empty());
        }
        par_seq_tick_from(&self.sub, 0, context, acc)
    }
}

/// Polls the children of `sub` from `from` on, carrying in `acc` the
/// continuations of the children that are still running: any failure
/// aborts the pass, and at the end an empty `acc` means overall success
/// while a non-empty one becomes the shrunk working set.
pub(crate) fn par_seq_tick_from<B, L: BehaviorNode<B>>(
    sub: &Arc<Vec<BehaviorArc<L>>>,
    from: usize,
    context: &mut B,
    acc: Vec<BehaviorArc<L>>,
) -> (r: NodeResult<BehaviorArc<L>>)
    ensures
        ({
            let (mr, mb) = par_seq_scan(
                models_of(sub@),
                from as int,
                *old(context),
                models_of(acc@),
            );
            &&& result_model(r) == mr
            &&& *final(context) == mb
        }),
    decreases sub@, (sub@.len() - from as int),
{
    let list: &Vec<BehaviorArc<L>> = &**sub;
    let n: usize = list.len();
    if from >= n {
        if acc.len() == 0 {
            return NodeResult::Success;
        }
        return NodeResult::Running(ParallelSequence::new(acc).arc());
    }
    let child: &BehaviorArc<L> = &list[from];
    proof {
        assert(decreases_to!(sub@ => sub@[from as int]));
    }
    let res = (**child).tick(context);
    match res {
        NodeResult::Failure => NodeResult::Failure,
        NodeResult::Success => par_seq_tick_from(sub, from + 1, context, acc),
        NodeResult::Running(a) => {
            proof {
                lemma_models_of_push(acc@, a);
            }
            let mut acc2 = acc;
            acc2.push(a);
            par_seq_tick_from(sub, from + 1, context, acc2)
        },
    }
}

/// Polls all children each tick; a succeeding child succeeds the whole
/// node at once, failing children are dropped from the working set, and
/// the node fails when the working set empties.
///
/// An empty parallel selector fails immediately.
#[derive(Debug)]
pub struct ParallelSelector<L> {
    pub sub: Arc<Vec<BehaviorArc<L>>>,
}

impl<L> ParallelSelector<L> {
    /// The model of this composite.
    pub open spec fn model(self) -> ModelNode<L> {
        ModelNode::ParallelSelector { children: models_of(self.sub@) }
    }

    /// Assembles a parallel selector over the given children.
    pub fn new(sub: Vec<BehaviorArc<L>>) -> (s: Self)
        ensures
            s.sub@ == sub@,
    {
        ParallelSelector { sub: Arc::new(sub) }
    }

    /// Wraps this composite as a shared tree node.
    pub fn arc(self) -> (a: BehaviorArc<L>)
        ensures
            *a == Node::ParallelSelector(self),
    {
        Arc::new(Node::ParallelSelector(self))
    }

    /// Runs one polling pass over the whole working set.
    pub fn tick<B>(&self, context: &mut B) -> (r: NodeResult<BehaviorArc<L>>) where
        L: BehaviorNode<B>

        ensures
            ({
                let (mr, mb) = model_tick((*self).model(), *old(context));
                &&& result_model(r) == mr
                &&& *final(context) == mb
            }),
        decreases *self, 0nat,
    {
        let acc: Vec<BehaviorArc<L>> = Vec::new();
        proof {
            assert(models_of(acc@) =~= Seq::<ModelNode<L>>::empty());
        }
        par_sel_tick_from(&self.sub, 0, context, acc)
    }
}

/// Polls the children of `sub` from `from` on, carrying in `acc` the
/// continuations of the children that are still running: any success
/// aborts the pass, and at the end an empty `acc` means overall failure
/// while a non-empty one becomes the shrunk working set.
pub(crate) fn par_sel_tick_from<B, L: BehaviorNode<B>>(
    sub: &Arc<Vec<BehaviorArc<L>>>,
    from: usize,
    context: &mut B,
    acc: Vec<BehaviorArc<L>>,
) -> (r: NodeResult<BehaviorArc<L>>)
    ensures
        ({
            let (mr, mb) = par_sel_scan(
                models_of(sub@),
                from as int,
                *old(context),
                models_of(acc@),
            );
            &&& result_model(r) == mr
            &&& *final(context) == mb
        }),
    decreases sub@, (sub@.len() - from as int),
{
    let list: &Vec<BehaviorArc<L>> = &**sub;
    let n: usize = list.len();
    if from >= n {
        if acc.len() == 0 {
            return NodeResult::Failure;
        }
        return NodeResult::Running(ParallelSelector::new(acc).arc());
    }
    let child: &BehaviorArc<L> = &list[from];
    proof {
        assert(decreases_to!(sub@ => sub@[from as int]));
    }
    let res = (**child).tick(context);
    match res {
        NodeResult::Success => NodeResult::Success,
        NodeResult::Failure => par_sel_tick_from(sub, from + 1, context, acc),
        NodeResult::Running(a) => {
            proof {
                lemma_models_of_push(acc@, a);
            }
            let mut acc2 = acc;
            acc2.push(a);
            par_sel_tick_from(sub, from + 1, context, acc2)
        },
    }
}

} // verus!

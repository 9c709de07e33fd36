//! The inverting decorator.

use vstd::prelude::*;

use std::sync::Arc;

use crate::model::model_tick;
use crate::model::result_model;
use crate::model::ModelNode;
use crate::BehaviorArc;
use crate::BehaviorNode;
use crate::Node;
use crate::NodeResult;

verus! {

/// Inverts the result of its child: success becomes failure and failure
/// becomes success, while a running child stays running behind a fresh
/// inverter so the swap applies again on resumption.
#[derive(Debug)]
pub struct Inverter<L> {
    pub child: BehaviorArc<L>,
}

impl<L> Inverter<L> {
    /// The model of this composite.
    pub open spec fn model(self) -> ModelNode<L> {
        ModelNode::Inverter { child: seq![(*self.child).model()] }
    }

    /// Wraps the given child in an inverter.
    pub fn new(child: BehaviorArc<L>) -> (s: Self)
        ensures
            s.child == child,
    {
        Inverter { child }
    }

    /// Wraps this composite as a shared tree node.
    pub fn arc(self) -> (a: BehaviorArc<L>)
        ensures
            *a == Node::Inverter(self),
    {
        Arc::new(Node::Inverter(self))
    }

    /// Ticks the child and swaps its terminal result; a running child is
    /// re-wrapped so the swap applies when it finishes.
    pub fn tick<B>(&self, context: &mut B) -> (r: NodeResult<BehaviorArc<L>>) where
        L: BehaviorNode<B>

        ensures
            ({
                let (mr, mb) = model_tick((*self).model(), *old(context));
                &&& result_model(r) == mr
                &&& *final(context) == mb
            }),
        decreases *self, 0nat,
    {
        match (*self.child).tick(context) {
            NodeResult::Success => NodeResult::Failure,
            NodeResult::Failure => NodeResult::Success,
            NodeResult::Running(a) => NodeResult::Running(Inverter::new(a).arc()),
        }
    }
}

} // verus!

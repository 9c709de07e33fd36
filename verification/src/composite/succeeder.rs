//! The always-succeeding decorator.

use vstd::prelude::*;

use std::sync::Arc;

use crate::model::active_of;
use crate::model::model_tick;
use crate::model::result_model;
use crate::model::ModelNode;
use crate::BehaviorArc;
use crate::BehaviorNode;
use crate::Node;
use crate::NodeResult;

verus! {

/// Always ends in success: with no child it succeeds immediately, and
/// with a child it relays running ticks but collapses both terminal
/// results to success.
#[derive(Debug)]
pub struct Succeeder<L> {
    pub child: Option<BehaviorArc<L>>,
}

impl<L> Succeeder<L> {
    /// The model of this composite.
    pub open spec fn model(self) -> ModelNode<L> {
        ModelNode::Succeeder { child: active_of(self.child) }
    }

    /// Wraps the given child in a succeeder.
    pub fn new(child: BehaviorArc<L>) -> (s: Self)
        ensures
            s.child == Some(child),
    {
        Succeeder { child: Some(child) }
    }

    /// Wraps this composite as a shared tree node.
    pub fn arc(self) -> (a: BehaviorArc<L>)
        ensures
            *a == Node::Succeeder(self),
    {
        Arc::new(Node::Succeeder(self))
    }

    /// Succeeds immediately without a child; with one, relays a running
    /// child and collapses either terminal result to success.
    pub fn tick<B>(&self, context: &mut B) -> (r: NodeResult<BehaviorArc<L>>) where
        L: BehaviorNode<B>

        ensures
            ({
                let (mr, mb) = model_tick((*self).model(), *old(context));
                &&& result_model(r) == mr
                &&& *final(context) == mb
            }),
        decreases *self, 0nat,
    {
        if let Some(child) = &self.child {
            match (**child).tick(context) {
                NodeResult::Running(a) => {
                    proof {
                        assert(active_of(self.child) == seq![(**child).model()]);
                        assert(active_of(Some(a)) == seq![(*a).model()]);
                    }
                    NodeResult::Running(Succeeder::new(a).arc())
                },
                _ => NodeResult::Success,
            }
        } else {
            NodeResult::Success
        }
    }
}

impl<L> Default for Succeeder<L> {
    /// A succeeder with no child: immediate success.
    fn default() -> (s: Self)
        ensures
            s.child is None,
    {
        Succeeder { child: None }
    }
}

} // verus!

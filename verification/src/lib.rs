//! A behavior-tree execution engine with resumable ticking.
//!
//! A tree of [`Node`] values is advanced one discrete step (a "tick") at a
//! time against a caller-owned context value.  A tick never mutates a node:
//! a node that is still working hands back a *continuation* — a fresh node
//! value that represents exactly where to resume — inside
//! [`NodeResult::Running`].  [`BehaviorRunner`] drives a tree by storing the
//! latest continuation and ticking it on the next call.
//!
//! Leaves are user types implementing [`BehaviorNode`]; composite nodes
//! (sequences, selectors, parallels, repeaters and decorators) live in
//! [`composite`].  The exact behavior of every tick is specified by the
//! pure interpreter in [`model`].

pub mod composite;
pub mod laws;
pub mod model;

use vstd::prelude::*;

use std::sync::Arc;

use crate::composite::Inverter;
use crate::composite::LimitedRepeated;
use crate::composite::ParallelSelector;
use crate::composite::ParallelSequence;
use crate::composite::Repeated;
use crate::composite::RepeatedUntilFailure;
use crate::composite::Selector;
use crate::composite::Sequence;
use crate::composite::Succeeder;
use crate::model::model_tick;
use crate::model::models_of;
use crate::model::result_model;
use crate::model::sel_scan;
use crate::model::seq_scan;
use crate::model::ModelNode;
use crate::model::ModelResult;

verus! {

/// A shared handle to a node: the uniform currency for children and
/// continuations.  Cheap to share, immutable once built.
pub type BehaviorArc<L> = Arc<Node<L>>;

/// The outcome of one tick.
#[derive(Debug)]
pub enum NodeResult<N> {
    /// The node is still working; tick the carried continuation next to
    /// keep going from exactly where it left off.
    Running(N),
    /// The node finished and succeeded.
    Success,
    /// The node finished and failed.
    Failure,
}

/// The capability a leaf node implements: advance by one tick against the
/// caller's context.
///
/// A leaf must behave as a pure step function of (leaf value, context):
/// `next` is that function, and `tick` must implement it, returning its
/// continuation wrapped as a tree node (see [`BehaviorNode::arc`]).
pub trait BehaviorNode<B>: Sized {
    /// The step function: what one tick of this leaf returns, and the
    /// context it leaves behind.
    ///
    /// A verified leaf overrides this with its actual step function and
    /// proves `tick` against it; left unspecified, nothing can be
    /// concluded about the leaf's ticks.
    open spec fn next(self, context: B) -> (NodeResult<Self>, B) {
        vstd::pervasive::arbitrary()
    }

    /// Advances this leaf by one tick, reading and writing the context.
    fn tick(&self, context: &mut B) -> (r: NodeResult<BehaviorArc<Self>>)
        ensures
            ({
                let (nr, nb) = (*self).next(*old(context));
                &&& *final(context) == nb
                &&& (match nr {
                    NodeResult::Running(l2) => r matches NodeResult::Running(a) && *a
                        == Node::Leaf(l2),
                    NodeResult::Success => r is Success,
                    NodeResult::Failure => r is Failure,
                })
            }),
    ;

    /// Wraps this leaf as a shared tree node.
    fn arc(self) -> (a: BehaviorArc<Self>)
        ensures
            *a == Node::<Self>::Leaf(self),
    {
        Arc::new(Node::Leaf(self))
    }
}

/// A tree node: a leaf, a composite over shared children, or a transient
/// resumption of a composite that is parked mid-execution.
#[derive(Debug)]
pub enum Node<L> {
    /// A user-supplied leaf value.
    Leaf(L),
    /// Ordered AND over its children.
    Sequence(Sequence<L>),
    /// A sequence parked on the child at `index`, whose continuation is
    /// `resume`; children before it are done and are never re-ticked.
    SequenceResume { sub: Arc<Vec<BehaviorArc<L>>>, index: usize, resume: BehaviorArc<L> },
    /// Ordered OR over its children.
    Selector(Selector<L>),
    /// A selector parked on the child at `index`.
    SelectorResume { sub: Arc<Vec<BehaviorArc<L>>>, index: usize, resume: BehaviorArc<L> },
    /// Polls all children every tick; fails as soon as any child fails.
    ParallelSequence(ParallelSequence<L>),
    /// Polls all children every tick; succeeds as soon as any child does.
    ParallelSelector(ParallelSelector<L>),
    /// Repeats its child forever.
    Repeated(Repeated<L>),
    /// Repeats its child a fixed number of completed iterations, then
    /// succeeds.
    LimitedRepeated(LimitedRepeated<L>),
    /// Repeats its child until it fails, then succeeds.
    RepeatedUntilFailure(RepeatedUntilFailure<L>),
    /// Swaps success and failure of its child.
    Inverter(Inverter<L>),
    /// Reports success whatever its child does.
    Succeeder(Succeeder<L>),
}

impl<L> Node<L> {
    /// Advances this node by one tick against `context`.
    ///
    /// The result and the context afterwards are exactly what the model
    /// interpreter says: see [`model_tick`].
    pub fn tick<B>(&self, context: &mut B) -> (r: NodeResult<BehaviorArc<L>>) where
        L: BehaviorNode<B>

        ensures
            ({
                let (mr, mb) = model_tick((*self).model(), *old(context));
                &&& result_model(r) == mr
                &&& *final(context) == mb
            }),
        decreases *self, 0nat,
    {
        let ghost b_in: B = *context;
        match self {
            Node::Leaf(l) => l.tick(context),
            Node::Sequence(c) => c.tick(context),
            Node::SequenceResume { sub, index, resume } => {
                match (**resume).tick(context) {
                    NodeResult::Running(a) => NodeResult::Running(
                        Sequence::resume(sub.clone(), *index, a),
                    ),
                    NodeResult::Failure => NodeResult::Failure,
                    NodeResult::Success => {
                        let n: usize = sub.len();
                        let start: usize = if *index < n {
                            *index + 1
                        } else {
                            n
                        };
                        proof {
                            assert(model_tick((*self).model(), b_in) == seq_scan(
                                models_of(sub@),
                                *index + 1,
                                *context,
                            ));
                        }
                        composite::seq_tick_from(sub, start, context)
                    },
                }
            },
            Node::Selector(c) => c.tick(context),
            Node::SelectorResume { sub, index, resume } => {
                match (**resume).tick(context) {
                    NodeResult::Running(a) => NodeResult::Running(
                        Selector::resume(sub.clone(), *index, a),
                    ),
                    NodeResult::Success => NodeResult::Success,
                    NodeResult::Failure => {
                        let n: usize = sub.len();
                        let start: usize = if *index < n {
                            *index + 1
                        } else {
                            n
                        };
                        proof {
                            assert(model_tick((*self).model(), b_in) == sel_scan(
                                models_of(sub@),
                                *index + 1,
                                *context,
                            ));
                        }
                        composite::sel_tick_from(sub, start, context)
                    },
                }
            },
            Node::ParallelSequence(c) => c.tick(context),
            Node::ParallelSelector(c) => c.tick(context),
            Node::Repeated(c) => c.tick(context),
            Node::LimitedRepeated(c) => c.tick(context),
            Node::RepeatedUntilFailure(c) => c.tick(context),
            Node::Inverter(c) => c.tick(context),
            Node::Succeeder(c) => c.tick(context),
        }
    }
}

/// Drives a behavior tree: holds the tree root and, while the tree is
/// mid-execution, the continuation to resume on the next call.
#[derive(Debug)]
pub struct BehaviorRunner<L> {
    /// The root of the tree, kept for the lifetime of the runner.
    pub tree: BehaviorArc<L>,
    /// The continuation returned by the last tick, if it was running;
    /// when empty, the next tick starts over at the root.
    pub current_tick: Option<BehaviorArc<L>>,
}

impl<L> BehaviorRunner<L> {
    /// The model of the node the next tick will target.
    pub open spec fn active_model(self) -> ModelNode<L> {
        match self.current_tick {
            Some(a) => (*a).model(),
            None => (*self.tree).model(),
        }
    }

    /// Wraps an existing shared node as the tree to drive.
    pub fn new(tree: BehaviorArc<L>) -> (runner: Self)
        ensures
            runner.tree == tree,
            runner.current_tick is None,
    {
        BehaviorRunner { tree, current_tick: None }
    }

    /// Wraps an owned node as the tree to drive.
    pub fn from_node(node: Node<L>) -> (runner: Self)
        ensures
            *runner.tree == node,
            runner.current_tick is None,
    {
        BehaviorRunner { tree: Arc::new(node), current_tick: None }
    }

    /// Yields the currently active node: the stored continuation if the
    /// tree is mid-execution, the root otherwise.
    pub fn into_inner(self) -> (a: BehaviorArc<L>)
        ensures
            (match self.current_tick {
                Some(c) => a == c,
                None => a == self.tree,
            }),
    {
        match self.current_tick {
            Some(c) => c,
            None => self.tree,
        }
    }

    /// True exactly while the tree is mid-execution.
    pub fn is_running(&self) -> (r: bool)
        ensures
            r == (self.current_tick is Some),
    {
        self.current_tick.is_some()
    }

    /// Ticks `node`, stores its continuation if it is still running, and
    /// translates the outcome for the caller.
    fn tick_node<B>(&mut self, node: &BehaviorArc<L>, context: &mut B) -> (res: Option<
        bool,
    >) where L: BehaviorNode<B>
        ensures
            ({
                let (mr, mb) = model_tick((**node).model(), *old(context));
                &&& *final(context) == mb
                &&& final(self).tree == old(self).tree
                &&& (match res {
                    None => mr matches ModelResult::Running(m2)
                        && final(self).current_tick matches Some(c) && (*c).model() == m2,
                    Some(true) => mr is Success && final(self).current_tick == old(
                        self,
                    ).current_tick,
                    Some(false) => mr is Failure && final(self).current_tick == old(
                        self,
                    ).current_tick,
                })
            }),
    {
        match (**node).tick(context) {
            NodeResult::Running(nbp) => {
                self.current_tick = Some(nbp);
                None
            },
            NodeResult::Success => Some(true),
            NodeResult::Failure => Some(false),
        }
    }

    /// Advances the tree by one tick: the stored continuation if there
    /// is one, the root otherwise.
    ///
    /// Returns `None` while the tree is still running (storing the new
    /// continuation), `Some(true)` on success and `Some(false)` on
    /// failure (leaving the runner ready to start over at the root).
    pub fn proceed<B>(&mut self, context: &mut B) -> (res: Option<bool>) where
        L: BehaviorNode<B>

        ensures
            ({
                let (mr, mb) = model_tick(old(self).active_model(), *old(context));
                &&& *final(context) == mb
                &&& final(self).tree == old(self).tree
                &&& (match res {
                    None => mr matches ModelResult::Running(m2) && final(self).current_tick
                        matches Some(c) && (*c).model() == m2,
                    Some(true) => mr is Success && final(self).current_tick is None,
                    Some(false) => mr is Failure && final(self).current_tick is None,
                })
            }),
    {
        if let Some(bp) = self.current_tick.take() {
            self.tick_node(&bp, context)
        } else {
            let node = self.tree.clone();
            self.tick_node(&node, context)
        }
    }
}

} // verus!

//! The repeating composites.

use vstd::prelude::*;

use std::sync::Arc;

use crate::model::active_of;
use crate::model::limited_fresh;
use crate::model::model_tick;
use crate::model::repeated_fresh;
use crate::model::result_model;
use crate::model::ruf_fresh;
use crate::model::ModelNode;
use crate::BehaviorArc;
use crate::BehaviorNode;
use crate::Node;
use crate::NodeResult;

verus! {

/// Repeats its child forever: every tick reports running, restarting the
/// child with a fresh iteration whenever the current one finishes.
#[derive(Debug)]
pub struct Repeated<L> {
    pub child: BehaviorArc<L>,
    pub resume: Option<BehaviorArc<L>>,
}

impl<L> Repeated<L> {
    /// The model of this composite.
    pub open spec fn model(self) -> ModelNode<L> {
        ModelNode::Repeated {
            child: seq![(*self.child).model()],
            active: active_of(self.resume),
        }
    }

    /// Wraps the given child in an endless repeater.
    pub fn new(child: BehaviorArc<L>) -> (s: Self)
        ensures
            s.child == child,
            s.resume is None,
    {
        Repeated { child, resume: None }
    }

    /// Wraps this composite as a shared tree node.
    pub fn arc(self) -> (a: BehaviorArc<L>)
        ensures
            *a == Node::Repeated(self),
    {
        Arc::new(Node::Repeated(self))
    }

    /// Finishes the running iteration if there is one, then starts a
    /// fresh one if needed; the repeater itself always reports running.
    pub fn tick<B>(&self, context: &mut B) -> (r: NodeResult<BehaviorArc<L>>) where
        L: BehaviorNode<B>

        ensures
            ({
                let (mr, mb) = model_tick((*self).model(), *old(context));
                &&& result_model(r) == mr
                &&& *final(context) == mb
            }),
        decreases *self, 0nat,
    {
        let ghost b_in: B = *context;
        if let Some(resume) = &self.resume {
            proof {
                assert(active_of(self.resume) == seq![(**resume).model()]);
            }
            let r0 = (**resume).tick(context);
            if let NodeResult::Running(a) = r0 {
                proof {
                    assert(active_of(Some(a)) == seq![(*a).model()]);
                }
                return NodeResult::Running(
                    Repeated { child: self.child.clone(), resume: Some(a) }.arc(),
                );
            }
        }
        proof {
            assert(model_tick((*self).model(), b_in) == repeated_fresh(
                seq![(*self.child).model()],
                *context,
            ));
        }
        let r1 = (*self.child).tick(context);
        match r1 {
            NodeResult::Running(a) => {
                proof {
                    assert(active_of(Some(a)) == seq![(*a).model()]);
                }
                NodeResult::Running(Repeated { child: self.child.clone(), resume: Some(a) }.arc())
            },
            _ => {
                proof {
                    assert(active_of(Option::<BehaviorArc<L>>::None) == Seq::<
                        ModelNode<L>,
                    >::empty());
                }
                NodeResult::Running(Repeated { child: self.child.clone(), resume: None }.arc())
            },
        }
    }
}

/// Repeats its child until `limit` iterations have completed, then
/// reports success.
///
/// An iteration counts as completed when the child reaches either
/// terminal result: a failing iteration counts exactly like a succeeding
/// one, and the node itself never reports failure.  A limit of zero means
/// immediate success without ever ticking the child.
#[derive(Debug)]
pub struct LimitedRepeated<L> {
    pub child: BehaviorArc<L>,
    pub limit: usize,
    pub completed: usize,
    pub resume: Option<BehaviorArc<L>>,
}

impl<L> LimitedRepeated<L> {
    /// The model of this composite.
    pub open spec fn model(self) -> ModelNode<L> {
        ModelNode::LimitedRepeated {
            child: seq![(*self.child).model()],
            limit: self.limit as nat,
            completed: self.completed as nat,
            active: active_of(self.resume),
        }
    }

    /// Wraps the given child in a repeater bounded by `limit` completed
    /// iterations.
    pub fn new(limit: usize, child: BehaviorArc<L>) -> (s: Self)
        ensures
            s.child == child,
            s.limit == limit,
            s.completed == 0,
            s.resume is None,
    {
        LimitedRepeated { child, limit, completed: 0, resume: None }
    }

    /// Wraps this composite as a shared tree node.
    pub fn arc(self) -> (a: BehaviorArc<L>)
        ensures
            *a == Node::LimitedRepeated(self),
    {
        Arc::new(Node::LimitedRepeated(self))
    }

    /// Succeeds at once if the limit is already consumed; otherwise runs
    /// one repeater step, counting every iteration that reaches a
    /// terminal result — a failed iteration counts exactly like a
    /// succeeded one, and the node never reports failure.
    pub fn tick<B>(&self, context: &mut B) -> (r: NodeResult<BehaviorArc<L>>) where
        L: BehaviorNode<B>

        ensures
            ({
                let (mr, mb) = model_tick((*self).model(), *old(context));
                &&& result_model(r) == mr
                &&& *final(context) == mb
            }),
        decreases *self, 0nat,
    {
        if self.completed >= self.limit {
            return NodeResult::Success;
        }
        let ghost b_in: B = *context;
        let mut completed: usize = self.completed;
        if let Some(resume) = &self.resume {
            proof {
                assert(active_of(self.resume) == seq![(**resume).model()]);
            }
            match (**resume).tick(context) {
                NodeResult::Running(a) => {
                    proof {
                        assert(active_of(Some(a)) == seq![(*a).model()]);
                    }
                    return NodeResult::Running(
                        LimitedRepeated {
                            child: self.child.clone(),
                            limit: self.limit,
                            completed: self.completed,
                            resume: Some(a),
                        }.arc(),
                    );
                },
                _ => {
                    completed = completed + 1;
                },
            }
        }
        proof {
            assert(model_tick((*self).model(), b_in) == limited_fresh(
                seq![(*self.child).model()],
                self.limit as nat,
                completed as nat,
                *context,
            ));
        }
        match (*self.child).tick(context) {
            NodeResult::Running(a) => {
                proof {
                    assert(active_of(Some(a)) == seq![(*a).model()]);
                }
                NodeResult::Running(
                    LimitedRepeated {
                        child: self.child.clone(),
                        limit: self.limit,
                        completed,
                        resume: Some(a),
                    }.arc(),
                )
            },
            _ => {
                let counted: usize = if completed < self.limit {
                    completed + 1
                } else {
                    completed
                };
                proof {
                    assert(active_of(Option::<BehaviorArc<L>>::None) == Seq::<
                        ModelNode<L>,
                    >::empty());
                }
                NodeResult::Running(
                    LimitedRepeated {
                        child: self.child.clone(),
                        limit: self.limit,
                        completed: counted,
                        resume: None,
                    }.arc(),
                )
            },
        }
    }
}

/// Repeats its child until the child fails, then reports success; a
/// succeeding child merely restarts a fresh iteration.
#[derive(Debug)]
pub struct RepeatedUntilFailure<L> {
    pub child: BehaviorArc<L>,
    pub resume: Option<BehaviorArc<L>>,
}

impl<L> RepeatedUntilFailure<L> {
    /// The model of this composite.
    pub open spec fn model(self) -> ModelNode<L> {
        ModelNode::RepeatedUntilFailure {
            child: seq![(*self.child).model()],
            active: active_of(self.resume),
        }
    }

    /// Wraps the given child in a repeater that stops on the child's
    /// first failure.
    pub fn new(child: BehaviorArc<L>) -> (s: Self)
        ensures
            s.child == child,
            s.resume is None,
    {
        RepeatedUntilFailure { child, resume: None }
    }

    /// Wraps this composite as a shared tree node.
    pub fn arc(self) -> (a: BehaviorArc<L>)
        ensures
            *a == Node::RepeatedUntilFailure(self),
    {
        Arc::new(Node::RepeatedUntilFailure(self))
    }

    /// Runs one repeater step: the child's first failure turns into
    /// overall success, a succeeding child restarts a fresh iteration,
    /// and a running child is parked for the next tick.
    pub fn tick<B>(&self, context: &mut B) -> (r: NodeResult<BehaviorArc<L>>) where
        L: BehaviorNode<B>

        ensures
            ({
                let (mr, mb) = model_tick((*self).model(), *old(context));
                &&& result_model(r) == mr
                &&& *final(context) == mb
            }),
        decreases *self, 0nat,
    {
        let ghost b_in: B = *context;
        if let Some(resume) = &self.resume {
            proof {
                assert(active_of(self.resume) == seq![(**resume).model()]);
            }
            match (**resume).tick(context) {
                NodeResult::Running(a) => {
                    proof {
                        assert(active_of(Some(a)) == seq![(*a).model()]);
                    }
                    return NodeResult::Running(
                        RepeatedUntilFailure { child: self.child.clone(), resume: Some(a) }.arc(),
                    );
                },
                NodeResult::Failure => {
                    return NodeResult::Success;
                },
                NodeResult::Success => {},
            }
        }
        proof {
            assert(model_tick((*self).model(), b_in) == ruf_fresh(
                seq![(*self.child).model()],
                *context,
            ));
        }
        match (*self.child).tick(context) {
            NodeResult::Running(a) => {
                proof {
                    assert(active_of(Some(a)) == seq![(*a).model()]);
                }
                NodeResult::Running(
                    RepeatedUntilFailure { child: self.child.clone(), resume: Some(a) }.arc(),
                )
            },
            NodeResult::Success => {
                proof {
                    assert(active_of(Option::<BehaviorArc<L>>::None) == Seq::<
                        ModelNode<L>,
                    >::empty());
                }
                NodeResult::Running(
                    RepeatedUntilFailure { child: self.child.clone(), resume: None }.arc(),
                )
            },
            NodeResult::Failure => NodeResult::Success,
        }
    }
}

} // verus!

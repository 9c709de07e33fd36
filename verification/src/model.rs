//! The mathematical model of a behavior tree.
//!
//! Every executable node is abstracted by a [`ModelNode`], and one tick of a
//! node is the pure function [`model_tick`] from a model node and a context
//! value to an outcome and the context after the tick.  The contracts of the
//! executable ticks state that they implement `model_tick` exactly, so all
//! reasoning about tree behavior happens over this model.
//!
//! A model node carries its sub-nodes in ghost sequences.  Slots that hold at
//! most one node (a resumption in progress, the child of a decorator) are
//! sequences of length zero or one.

use vstd::prelude::*;

use crate::BehaviorArc;
use crate::BehaviorNode;
use crate::Node;
use crate::NodeResult;

verus! {

/// The abstraction of one tree node: which composite it is, what its
/// children are, and where it would resume.
#[verifier::ext_equal]
pub enum ModelNode<L> {
    /// A user-supplied leaf.
    Leaf { leaf: L },
    /// Ordered AND: ticks children in order, fails fast.
    Sequence { children: Seq<ModelNode<L>> },
    /// A sequence that is parked on child `index`; `active` holds the
    /// continuation of that child (one node).
    SequenceResume { children: Seq<ModelNode<L>>, index: int, active: Seq<ModelNode<L>> },
    /// Ordered OR: ticks children in order, succeeds fast.
    Selector { children: Seq<ModelNode<L>> },
    /// A selector that is parked on child `index`.
    SelectorResume { children: Seq<ModelNode<L>>, index: int, active: Seq<ModelNode<L>> },
    /// Polls every child each tick; any failure aborts, all successes win.
    ParallelSequence { children: Seq<ModelNode<L>> },
    /// Polls every child each tick; any success aborts, all failures lose.
    ParallelSelector { children: Seq<ModelNode<L>> },
    /// Repeats its child forever; `active` holds the running iteration.
    Repeated { child: Seq<ModelNode<L>>, active: Seq<ModelNode<L>> },
    /// Repeats its child until `completed` reaches `limit`, then succeeds.
    LimitedRepeated {
        child: Seq<ModelNode<L>>,
        limit: nat,
        completed: nat,
        active: Seq<ModelNode<L>>,
    },
    /// Repeats its child until the child fails, then succeeds.
    RepeatedUntilFailure { child: Seq<ModelNode<L>>, active: Seq<ModelNode<L>> },
    /// Swaps its child's success and failure.
    Inverter { child: Seq<ModelNode<L>> },
    /// Collapses its child's outcome (or no child at all) to success.
    Succeeder { child: Seq<ModelNode<L>> },
}

/// The outcome of one model tick: a terminal result, or the model of the
/// node to tick next.
#[verifier::ext_equal]
pub enum ModelResult<L> {
    Running(ModelNode<L>),
    Success,
    Failure,
}

/// The models of a shared list of child handles, in order.
///
/// The guard only keeps the recursion well founded; indices outside the
/// sequence are never read.
pub open spec fn models_of<L>(s: Seq<BehaviorArc<L>>) -> Seq<ModelNode<L>>
    decreases s, 0nat,
{
    Seq::new(
        s.len(),
        |i: int|
            if 0 <= i < s.len() {
                (*s[i]).model()
            } else {
                ModelNode::Succeeder { child: Seq::empty() }
            },
    )
}

/// Appending a handle appends its model.
pub proof fn lemma_models_of_push<L>(s: Seq<BehaviorArc<L>>, a: BehaviorArc<L>)
    ensures
        models_of(s.push(a)) == models_of(s).push((*a).model()),
{
    assert(models_of(s.push(a)) =~= models_of(s).push((*a).model()));
}

/// The model of an optional resumption slot: empty, or one node.
pub open spec fn active_of<L>(r: Option<BehaviorArc<L>>) -> Seq<ModelNode<L>>
    decreases r, 0nat,
{
    match r {
        Option::None => Seq::empty(),
        Option::Some(a) => seq![(*a).model()],
    }
}

impl<L> Node<L> {
    /// The model of this node.
    pub open spec fn model(self) -> ModelNode<L>
        decreases self, 0nat,
    {
        match self {
            Node::Leaf(l) => ModelNode::Leaf { leaf: l },
            Node::Sequence(c) => ModelNode::Sequence { children: models_of(c.sub@) },
            Node::SequenceResume { sub, index, resume } => ModelNode::SequenceResume {
                children: models_of(sub@),
                index: index as int,
                active: seq![(*resume).model()],
            },
            Node::Selector(c) => ModelNode::Selector { children: models_of(c.sub@) },
            Node::SelectorResume { sub, index, resume } => ModelNode::SelectorResume {
                children: models_of(sub@),
                index: index as int,
                active: seq![(*resume).model()],
            },
            Node::ParallelSequence(c) => ModelNode::ParallelSequence {
                children: models_of(c.sub@),
            },
            Node::ParallelSelector(c) => ModelNode::ParallelSelector {
                children: models_of(c.sub@),
            },
            Node::Repeated(c) => ModelNode::Repeated {
                child: seq![(*c.child).model()],
                active: active_of(c.resume),
            },
            Node::LimitedRepeated(c) => ModelNode::LimitedRepeated {
                child: seq![(*c.child).model()],
                limit: c.limit as nat,
                completed: c.completed as nat,
                active: active_of(c.resume),
            },
            Node::RepeatedUntilFailure(c) => ModelNode::RepeatedUntilFailure {
                child: seq![(*c.child).model()],
                active: active_of(c.resume),
            },
            Node::Inverter(c) => ModelNode::Inverter { child: seq![(*c.child).model()] },
            Node::Succeeder(c) => ModelNode::Succeeder { child: active_of(c.child) },
        }
    }
}

impl<L> View for Node<L> {
    type V = ModelNode<L>;

    open spec fn view(&self) -> ModelNode<L> {
        self.model()
    }
}

/// The model of an executable tick result.
pub open spec fn result_model<L>(r: NodeResult<BehaviorArc<L>>) -> ModelResult<L> {
    match r {
        NodeResult::Running(a) => ModelResult::Running((*a).model()),
        NodeResult::Success => ModelResult::Success,
        NodeResult::Failure => ModelResult::Failure,
    }
}

/// One tick of a leaf, lifted from the leaf's own step function.
pub open spec fn leaf_step<B, L: BehaviorNode<B>>(l: L, b: B) -> (ModelResult<L>, B) {
    let (nr, nb) = l.next(b);
    (
        match nr {
            NodeResult::Running(l2) => ModelResult::Running(ModelNode::Leaf { leaf: l2 }),
            NodeResult::Success => ModelResult::Success,
            NodeResult::Failure => ModelResult::Failure,
        },
        nb,
    )
}

/// One tick of a model node against context `b`.
pub open spec fn model_tick<B, L: BehaviorNode<B>>(m: ModelNode<L>, b: B) -> (ModelResult<L>, B)
    decreases m, 0nat,
{
    match m {
        ModelNode::Leaf { leaf } => leaf_step(leaf, b),
        ModelNode::Sequence { children } => seq_scan(children, 0, b),
        ModelNode::SequenceResume { children, index, active } => {
            if active.len() > 0 {
                let (r0, b0) = model_tick(active[0], b);
                match r0 {
                    ModelResult::Running(n2) => (
                        ModelResult::Running(
                            ModelNode::SequenceResume { children, index, active: seq![n2] },
                        ),
                        b0,
                    ),
                    ModelResult::Failure => (ModelResult::Failure, b0),
                    ModelResult::Success => seq_scan(children, index + 1, b0),
                }
            } else {
                seq_scan(children, index + 1, b)
            }
        },
        ModelNode::Selector { children } => sel_scan(children, 0, b),
        ModelNode::SelectorResume { children, index, active } => {
            if active.len() > 0 {
                let (r0, b0) = model_tick(active[0], b);
                match r0 {
                    ModelResult::Running(n2) => (
                        ModelResult::Running(
                            ModelNode::SelectorResume { children, index, active: seq![n2] },
                        ),
                        b0,
                    ),
                    ModelResult::Success => (ModelResult::Success, b0),
                    ModelResult::Failure => sel_scan(children, index + 1, b0),
                }
            } else {
                sel_scan(children, index + 1, b)
            }
        },
        ModelNode::ParallelSequence { children } => par_seq_scan(children, 0, b, Seq::empty()),
        ModelNode::ParallelSelector { children } => par_sel_scan(children, 0, b, Seq::empty()),
        ModelNode::Repeated { child, active } => {
            if active.len() > 0 {
                let (r0, b0) = model_tick(active[0], b);
                match r0 {
                    ModelResult::Running(n2) => (
                        ModelResult::Running(ModelNode::Repeated { child, active: seq![n2] }),
                        b0,
                    ),
                    _ => repeated_fresh(child, b0),
                }
            } else {
                repeated_fresh(child, b)
            }
        },
        ModelNode::LimitedRepeated { child, limit, completed, active } => {
            if completed >= limit {
                (ModelResult::Success, b)
            } else if active.len() > 0 {
                let (r0, b0) = model_tick(active[0], b);
                match r0 {
                    ModelResult::Running(n2) => (
                        ModelResult::Running(
                            ModelNode::LimitedRepeated {
                                child,
                                limit,
                                completed,
                                active: seq![n2],
                            },
                        ),
                        b0,
                    ),
                    _ => limited_fresh(child, limit, (completed + 1) as nat, b0),
                }
            } else {
                limited_fresh(child, limit, completed, b)
            }
        },
        ModelNode::RepeatedUntilFailure { child, active } => {
            if active.len() > 0 {
                let (r0, b0) = model_tick(active[0], b);
                match r0 {
                    ModelResult::Running(n2) => (
                        ModelResult::Running(
                            ModelNode::RepeatedUntilFailure { child, active: seq![n2] },
                        ),
                        b0,
                    ),
                    ModelResult::Failure => (ModelResult::Success, b0),
                    ModelResult::Success => ruf_fresh(child, b0),
                }
            } else {
                ruf_fresh(child, b)
            }
        },
        ModelNode::Inverter { child } => {
            if child.len() > 0 {
                let (r0, b0) = model_tick(child[0], b);
                match r0 {
                    ModelResult::Success => (ModelResult::Failure, b0),
                    ModelResult::Failure => (ModelResult::Success, b0),
                    ModelResult::Running(n2) => (
                        ModelResult::Running(ModelNode::Inverter { child: seq![n2] }),
                        b0,
                    ),
                }
            } else {
                (ModelResult::Success, b)
            }
        },
        ModelNode::Succeeder { child } => {
            if child.len() > 0 {
                let (r0, b0) = model_tick(child[0], b);
                match r0 {
                    ModelResult::Running(n2) => (
                        ModelResult::Running(ModelNode::Succeeder { child: seq![n2] }),
                        b0,
                    ),
                    _ => (ModelResult::Success, b0),
                }
            } else {
                (ModelResult::Success, b)
            }
        },
    }
}

/// The context in which the child at `k` finds itself when a pass that
/// ticks children one after another starts at `from` with context `b`.
pub open spec fn scan_ctx<B, L: BehaviorNode<B>>(
    children: Seq<ModelNode<L>>,
    from: int,
    b: B,
    k: int,
) -> B
    decreases k - from,
{
    if from < 0 || from >= k || from >= children.len() {
        b
    } else {
        scan_ctx(children, from + 1, model_tick(children[from], b).1, k)
    }
}

/// Where a sequence pass starting at `from` stops: the index of the
/// first child that does not succeed, or the length if every child
/// succeeds (`from` itself if the start is out of range).
pub open spec fn seq_stop<B, L: BehaviorNode<B>>(
    children: Seq<ModelNode<L>>,
    from: int,
    b: B,
) -> int
    decreases children.len() - from,
{
    if from < 0 || from >= children.len() {
        from
    } else {
        let (r0, b0) = model_tick(children[from], b);
        if r0 is Success {
            seq_stop(children, from + 1, b0)
        } else {
            from
        }
    }
}

/// Where a selector pass starting at `from` stops: the index of the
/// first child that does not fail, or the length if every child fails
/// (`from` itself if the start is out of range).
pub open spec fn sel_stop<B, L: BehaviorNode<B>>(
    children: Seq<ModelNode<L>>,
    from: int,
    b: B,
) -> int
    decreases children.len() - from,
{
    if from < 0 || from >= children.len() {
        from
    } else {
        let (r0, b0) = model_tick(children[from], b);
        if r0 is Failure {
            sel_stop(children, from + 1, b0)
        } else {
            from
        }
    }
}

/// The index of the first child from `from` on whose tick, with the
/// context threaded through the children before it, fails — or the
/// length if none fails.
pub open spec fn par_fail_at<B, L: BehaviorNode<B>>(
    children: Seq<ModelNode<L>>,
    from: int,
    b: B,
) -> int
    decreases children.len() - from,
{
    if from < 0 || from >= children.len() {
        children.len() as int
    } else {
        let (r0, b0) = model_tick(children[from], b);
        if r0 is Failure {
            from
        } else {
            par_fail_at(children, from + 1, b0)
        }
    }
}

/// The index of the first child from `from` on whose tick, with the
/// context threaded through the children before it, succeeds — or the
/// length if none succeeds.
pub open spec fn par_succeed_at<B, L: BehaviorNode<B>>(
    children: Seq<ModelNode<L>>,
    from: int,
    b: B,
) -> int
    decreases children.len() - from,
{
    if from < 0 || from >= children.len() {
        children.len() as int
    } else {
        let (r0, b0) = model_tick(children[from], b);
        if r0 is Success {
            from
        } else {
            par_succeed_at(children, from + 1, b0)
        }
    }
}

/// The continuations of the children from `from` on that are still
/// running after one threaded polling pass, in order.
pub open spec fn par_survivors<B, L: BehaviorNode<B>>(
    children: Seq<ModelNode<L>>,
    from: int,
    b: B,
) -> Seq<ModelNode<L>>
    decreases children.len() - from,
{
    if from < 0 || from >= children.len() {
        Seq::empty()
    } else {
        let (r0, b0) = model_tick(children[from], b);
        match r0 {
            ModelResult::Running(n2) => seq![n2] + par_survivors(children, from + 1, b0),
            _ => par_survivors(children, from + 1, b0),
        }
    }
}

/// Ticks the children of a sequence in order, starting at `from`.
///
/// The first failure is the whole result; the first running child anchors a
/// resumption at its index; if every child succeeds the sequence succeeds.
pub open spec fn seq_scan<B, L: BehaviorNode<B>>(
    children: Seq<ModelNode<L>>,
    from: int,
    b: B,
) -> (ModelResult<L>, B)
    decreases children, children.len() - from,
{
    if from < 0 || from >= children.len() {
        (ModelResult::Success, b)
    } else {
        let (r0, b0) = model_tick(children[from], b);
        match r0 {
            ModelResult::Success => seq_scan(children, from + 1, b0),
            ModelResult::Failure => (ModelResult::Failure, b0),
            ModelResult::Running(n2) => (
                ModelResult::Running(
                    ModelNode::SequenceResume { children, index: from, active: seq![n2] },
                ),
                b0,
            ),
        }
    }
}

/// Ticks the children of a selector in order, starting at `from`.
///
/// The first success is the whole result; the first running child anchors a
/// resumption at its index; if every child fails the selector fails.
pub open spec fn sel_scan<B, L: BehaviorNode<B>>(
    children: Seq<ModelNode<L>>,
    from: int,
    b: B,
) -> (ModelResult<L>, B)
    decreases children, children.len() - from,
{
    if from < 0 || from >= children.len() {
        (ModelResult::Failure, b)
    } else {
        let (r0, b0) = model_tick(children[from], b);
        match r0 {
            ModelResult::Failure => sel_scan(children, from + 1, b0),
            ModelResult::Success => (ModelResult::Success, b0),
            ModelResult::Running(n2) => (
                ModelResult::Running(
                    ModelNode::SelectorResume { children, index: from, active: seq![n2] },
                ),
                b0,
            ),
        }
    }
}

/// Polls the working set of a parallel sequence from `from` on; `acc` holds
/// the continuations of the children that are still running.
///
/// Any failure aborts the whole node at once; when the pass ends, an empty
/// new working set means overall success, otherwise the node keeps running
/// with exactly the still-running children.
pub open spec fn par_seq_scan<B, L: BehaviorNode<B>>(
    children: Seq<ModelNode<L>>,
    from: int,
    b: B,
    acc: Seq<ModelNode<L>>,
) -> (ModelResult<L>, B)
    decreases children, children.len() - from,
{
    if from < 0 || from >= children.len() {
        if acc.len() == 0 {
            (ModelResult::Success, b)
        } else {
            (ModelResult::Running(ModelNode::ParallelSequence { children: acc }), b)
        }
    } else {
        let (r0, b0) = model_tick(children[from], b);
        match r0 {
            ModelResult::Failure => (ModelResult::Failure, b0),
            ModelResult::Success => par_seq_scan(children, from + 1, b0, acc),
            ModelResult::Running(n2) => par_seq_scan(children, from + 1, b0, acc.push(n2)),
        }
    }
}

/// Polls the working set of a parallel selector from `from` on; `acc` holds
/// the continuations of the children that are still running.
pub open spec fn par_sel_scan<B, L: BehaviorNode<B>>(
    children: Seq<ModelNode<L>>,
    from: int,
    b: B,
    acc: Seq<ModelNode<L>>,
) -> (ModelResult<L>, B)
    decreases children, children.len() - from,
{
    if from < 0 || from >= children.len() {
        if acc.len() == 0 {
            (ModelResult::Failure, b)
        } else {
            (ModelResult::Running(ModelNode::ParallelSelector { children: acc }), b)
        }
    } else {
        let (r0, b0) = model_tick(children[from], b);
        match r0 {
            ModelResult::Success => (ModelResult::Success, b0),
            ModelResult::Failure => par_sel_scan(children, from + 1, b0, acc),
            ModelResult::Running(n2) => par_sel_scan(children, from + 1, b0, acc.push(n2)),
        }
    }
}

/// Starts one fresh iteration of a plain repeater's child; whatever the
/// outcome, the repeater keeps running.
pub open spec fn repeated_fresh<B, L: BehaviorNode<B>>(
    child: Seq<ModelNode<L>>,
    b: B,
) -> (ModelResult<L>, B)
    decreases child, 0nat,
{
    if child.len() > 0 {
        let (r1, b1) = model_tick(child[0], b);
        match r1 {
            ModelResult::Running(n2) => (
                ModelResult::Running(ModelNode::Repeated { child, active: seq![n2] }),
                b1,
            ),
            _ => (ModelResult::Running(ModelNode::Repeated { child, active: Seq::empty() }), b1),
        }
    } else {
        (ModelResult::Running(ModelNode::Repeated { child, active: Seq::empty() }), b)
    }
}

/// Starts one fresh iteration of a limited repeater's child with the
/// completed-iteration counter already at `completed`.
pub open spec fn limited_fresh<B, L: BehaviorNode<B>>(
    child: Seq<ModelNode<L>>,
    limit: nat,
    completed: nat,
    b: B,
) -> (ModelResult<L>, B)
    decreases child, 0nat,
{
    let counted: nat = if completed < limit {
        completed + 1
    } else {
        completed
    };
    if child.len() > 0 {
        let (r1, b1) = model_tick(child[0], b);
        match r1 {
            ModelResult::Running(n2) => (
                ModelResult::Running(
                    ModelNode::LimitedRepeated { child, limit, completed, active: seq![n2] },
                ),
                b1,
            ),
            _ => (
                ModelResult::Running(
                    ModelNode::LimitedRepeated {
                        child,
                        limit,
                        completed: counted,
                        active: Seq::empty(),
                    },
                ),
                b1,
            ),
        }
    } else {
        (
            ModelResult::Running(
                ModelNode::LimitedRepeated {
                    child,
                    limit,
                    completed: counted,
                    active: Seq::empty(),
                },
            ),
            b,
        )
    }
}

/// Starts one fresh iteration of a repeat-until-failure's child: a failing
/// child means overall success, a succeeding child restarts, a running
/// child is anchored.
pub open spec fn ruf_fresh<B, L: BehaviorNode<B>>(
    child: Seq<ModelNode<L>>,
    b: B,
) -> (ModelResult<L>, B)
    decreases child, 0nat,
{
    if child.len() > 0 {
        let (r1, b1) = model_tick(child[0], b);
        match r1 {
            ModelResult::Running(n2) => (
                ModelResult::Running(ModelNode::RepeatedUntilFailure { child, active: seq![n2] }),
                b1,
            ),
            ModelResult::Success => (
                ModelResult::Running(
                    ModelNode::RepeatedUntilFailure { child, active: Seq::empty() },
                ),
                b1,
            ),
            ModelResult::Failure => (ModelResult::Success, b1),
        }
    } else {
        (ModelResult::Success, b)
    }
}

} // verus!

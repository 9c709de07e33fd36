//! The laws of the tick model: what each composite guarantees, proved
//! once and for all over the interpreter in [`crate::model`].
//!
//! Every executable tick is contracted to equal [`model_tick`], so these
//! lemmas carry over to the running code directly.

use vstd::prelude::*;

use crate::model::limited_fresh;
use crate::model::model_tick;
use crate::model::par_fail_at;
use crate::model::par_seq_scan;
use crate::model::par_succeed_at;
use crate::model::par_sel_scan;
use crate::model::par_survivors;
use crate::model::repeated_fresh;
use crate::model::ruf_fresh;
use crate::model::scan_ctx;
use crate::model::sel_scan;
use crate::model::sel_stop;
use crate::model::seq_scan;
use crate::model::seq_stop;
use crate::model::ModelNode;
use crate::model::ModelResult;
use crate::BehaviorNode;

verus! {

/// A sequence pass runs its children strictly in order: every child
/// before the stopping point succeeds in the context threaded to it; if
/// the pass stops on a failing child the whole pass fails right there,
/// and if it stops on a running child it parks at that index.
pub proof fn lemma_sequence_scan<B, L: BehaviorNode<B>>(
    children: Seq<ModelNode<L>>,
    from: int,
    b: B,
)
    requires
        0 <= from,
    ensures
        ({
            let stop = seq_stop(children, from, b);
            &&& from <= stop
            &&& (from <= children.len() ==> stop <= children.len())
            &&& forall|k: int|
                from <= k < stop ==> (#[trigger] model_tick(
                    children[k],
                    scan_ctx(children, from, b, k),
                )).0 is Success
            &&& (stop >= children.len() ==> seq_scan(children, from, b) == (
                ModelResult::<L>::Success,
                scan_ctx(children, from, b, children.len() as int),
            ))
            &&& (stop < children.len() ==> ({
                let (rs, bs) = model_tick(children[stop], scan_ctx(children, from, b, stop));
                &&& !(rs is Success)
                &&& (rs is Failure ==> seq_scan(children, from, b) == (
                    ModelResult::<L>::Failure,
                    bs,
                ))
                &&& (rs matches ModelResult::Running(n2) ==> seq_scan(children, from, b) == (
                    ModelResult::Running(
                        ModelNode::SequenceResume { children, index: stop, active: seq![n2] },
                    ),
                    bs,
                ))
            }))
        }),
    decreases children.len() - from,
{
    let stop = seq_stop(children, from, b);
    if from >= children.len() {
    } else {
        let (r0, b0) = model_tick(children[from], b);
        assert(scan_ctx(children, from, b, from) == b);
        if r0 is Success {
            lemma_sequence_scan(children, from + 1, b0);
            assert forall|k: int| from + 1 <= k implies #[trigger] scan_ctx(children, from, b, k)
                == scan_ctx(children, from + 1, b0, k) by {
                assert(scan_ctx(children, from, b, k) == scan_ctx(
                    children,
                    from + 1,
                    model_tick(children[from], b).1,
                    k,
                ));
            }
            assert(stop == seq_stop(children, from + 1, b0));
            assert forall|k: int| from <= k < stop implies (#[trigger] model_tick(
                children[k],
                scan_ctx(children, from, b, k),
            )).0 is Success by {
                if k > from {
                    assert(model_tick(children[k], scan_ctx(children, from + 1, b0, k)).0
                        is Success);
                }
            }
        } else {
            assert(stop == from);
        }
    }
}

/// One tick of the sequence composite: starting at the first child,
/// every child before the stopping point succeeds in turn; stopping on
/// a failing child fails the whole sequence right there, stopping on a
/// running child parks the sequence at that index, and running past the
/// last child is overall success.  An empty sequence succeeds
/// immediately.
pub proof fn lemma_sequence_tick<B, L: BehaviorNode<B>>(children: Seq<ModelNode<L>>, b: B)
    ensures
        ({
            let stop = seq_stop(children, 0, b);
            let (mr, mb) = model_tick(ModelNode::Sequence { children }, b);
            &&& 0 <= stop <= children.len()
            &&& forall|k: int|
                0 <= k < stop ==> (#[trigger] model_tick(
                    children[k],
                    scan_ctx(children, 0, b, k),
                )).0 is Success
            &&& (stop == children.len() ==> mr == ModelResult::<L>::Success)
            &&& (stop < children.len() ==> ({
                let (rs, bs) = model_tick(children[stop], scan_ctx(children, 0, b, stop));
                &&& (rs is Failure ==> mr == ModelResult::<L>::Failure && mb == bs)
                &&& (rs matches ModelResult::Running(n2) ==> mr == ModelResult::Running(
                    ModelNode::SequenceResume { children, index: stop, active: seq![n2] },
                ) && mb == bs)
            }))
        }),
{
    lemma_sequence_scan(children, 0, b);
}

/// Children past the point where a sequence pass stops are never
/// consulted: any child list that agrees up to and including the
/// stopping child stops at the same place, in the same context, and on a
/// failing child produces the identical overall failure.
pub proof fn lemma_sequence_locality<B, L: BehaviorNode<B>>(
    c1: Seq<ModelNode<L>>,
    c2: Seq<ModelNode<L>>,
    from: int,
    b: B,
)
    requires
        0 <= from,
        seq_stop(c1, from, b) < c1.len(),
        seq_stop(c1, from, b) < c2.len(),
        forall|k: int| from <= k <= seq_stop(c1, from, b) ==> c2[k] == c1[k],
    ensures
        seq_stop(c2, from, b) == seq_stop(c1, from, b),
        scan_ctx(c2, from, b, seq_stop(c1, from, b)) == scan_ctx(
            c1,
            from,
            b,
            seq_stop(c1, from, b),
        ),
        model_tick(c1[seq_stop(c1, from, b)], scan_ctx(c1, from, b, seq_stop(c1, from, b))).0
            is Failure ==> seq_scan(c2, from, b) == seq_scan(c1, from, b),
    decreases c1.len() - from,
{
    let stop = seq_stop(c1, from, b);
    lemma_sequence_scan(c1, from, b);
    let (r0, b0) = model_tick(c1[from], b);
    assert(c2[from] == c1[from]);
    if from == stop {
        assert(scan_ctx(c1, from, b, stop) == b);
        assert(scan_ctx(c2, from, b, stop) == b);
    } else {
        assert(stop == seq_stop(c1, from + 1, b0));
        lemma_sequence_locality(c1, c2, from + 1, b0);
        assert(scan_ctx(c1, from, b, stop) == scan_ctx(c1, from + 1, b0, stop));
        assert(scan_ctx(c2, from, b, stop) == scan_ctx(c2, from + 1, b0, stop));
    }
}

/// A selector pass runs its children strictly in order: every child
/// before the stopping point fails in the context threaded to it; if the
/// pass stops on a succeeding child the whole pass succeeds right there,
/// and if it stops on a running child it parks at that index.
pub proof fn lemma_selector_scan<B, L: BehaviorNode<B>>(
    children: Seq<ModelNode<L>>,
    from: int,
    b: B,
)
    requires
        0 <= from,
    ensures
        ({
            let stop = sel_stop(children, from, b);
            &&& from <= stop
            &&& (from <= children.len() ==> stop <= children.len())
            &&& forall|k: int|
                from <= k < stop ==> (#[trigger] model_tick(
                    children[k],
                    scan_ctx(children, from, b, k),
                )).0 is Failure
            &&& (stop >= children.len() ==> sel_scan(children, from, b) == (
                ModelResult::<L>::Failure,
                scan_ctx(children, from, b, children.len() as int),
            ))
            &&& (stop < children.len() ==> ({
                let (rs, bs) = model_tick(children[stop], scan_ctx(children, from, b, stop));
                &&& !(rs is Failure)
                &&& (rs is Success ==> sel_scan(children, from, b) == (
                    ModelResult::<L>::Success,
                    bs,
                ))
                &&& (rs matches ModelResult::Running(n2) ==> sel_scan(children, from, b) == (
                    ModelResult::Running(
                        ModelNode::SelectorResume { children, index: stop, active: seq![n2] },
                    ),
                    bs,
                ))
            }))
        }),
    decreases children.len() - from,
{
    let stop = sel_stop(children, from, b);
    if from >= children.len() {
    } else {
        let (r0, b0) = model_tick(children[from], b);
        assert(scan_ctx(children, from, b, from) == b);
        if r0 is Failure {
            lemma_selector_scan(children, from + 1, b0);
            assert forall|k: int| from + 1 <= k implies #[trigger] scan_ctx(children, from, b, k)
                == scan_ctx(children, from + 1, b0, k) by {
                assert(scan_ctx(children, from, b, k) == scan_ctx(
                    children,
                    from + 1,
                    model_tick(children[from], b).1,
                    k,
                ));
            }
            assert(stop == sel_stop(children, from + 1, b0));
            assert forall|k: int| from <= k < stop implies (#[trigger] model_tick(
                children[k],
                scan_ctx(children, from, b, k),
            )).0 is Failure by {
                if k > from {
                    assert(model_tick(children[k], scan_ctx(children, from + 1, b0, k)).0
                        is Failure);
                }
            }
        } else {
            assert(stop == from);
        }
    }
}

/// One tick of the selector composite: starting at the first child,
/// every child before the stopping point fails in turn; stopping on a
/// succeeding child succeeds the whole selector right there, stopping
/// on a running child parks the selector at that index, and running
/// past the last child is overall failure.  An empty selector fails
/// immediately.
pub proof fn lemma_selector_tick<B, L: BehaviorNode<B>>(children: Seq<ModelNode<L>>, b: B)
    ensures
        ({
            let stop = sel_stop(children, 0, b);
            let (mr, mb) = model_tick(ModelNode::Selector { children }, b);
            &&& 0 <= stop <= children.len()
            &&& forall|k: int|
                0 <= k < stop ==> (#[trigger] model_tick(
                    children[k],
                    scan_ctx(children, 0, b, k),
                )).0 is Failure
            &&& (stop == children.len() ==> mr == ModelResult::<L>::Failure)
            &&& (stop < children.len() ==> ({
                let (rs, bs) = model_tick(children[stop], scan_ctx(children, 0, b, stop));
                &&& (rs is Success ==> mr == ModelResult::<L>::Success && mb == bs)
                &&& (rs matches ModelResult::Running(n2) ==> mr == ModelResult::Running(
                    ModelNode::SelectorResume { children, index: stop, active: seq![n2] },
                ) && mb == bs)
            }))
        }),
{
    lemma_selector_scan(children, 0, b);
}

/// Children past the point where a selector pass stops are never
/// consulted: any child list that agrees up to and including the
/// stopping child stops at the same place, in the same context, and on a
/// succeeding child produces the identical overall success.
pub proof fn lemma_selector_locality<B, L: BehaviorNode<B>>(
    c1: Seq<ModelNode<L>>,
    c2: Seq<ModelNode<L>>,
    from: int,
    b: B,
)
    requires
        0 <= from,
        sel_stop(c1, from, b) < c1.len(),
        sel_stop(c1, from, b) < c2.len(),
        forall|k: int| from <= k <= sel_stop(c1, from, b) ==> c2[k] == c1[k],
    ensures
        sel_stop(c2, from, b) == sel_stop(c1, from, b),
        scan_ctx(c2, from, b, sel_stop(c1, from, b)) == scan_ctx(
            c1,
            from,
            b,
            sel_stop(c1, from, b),
        ),
        model_tick(c1[sel_stop(c1, from, b)], scan_ctx(c1, from, b, sel_stop(c1, from, b))).0
            is Success ==> sel_scan(c2, from, b) == sel_scan(c1, from, b),
    decreases c1.len() - from,
{
    let stop = sel_stop(c1, from, b);
    lemma_selector_scan(c1, from, b);
    let (r0, b0) = model_tick(c1[from], b);
    assert(c2[from] == c1[from]);
    if from == stop {
        assert(scan_ctx(c1, from, b, stop) == b);
        assert(scan_ctx(c2, from, b, stop) == b);
    } else {
        assert(stop == sel_stop(c1, from + 1, b0));
        lemma_selector_locality(c1, c2, from + 1, b0);
        assert(scan_ctx(c1, from, b, stop) == scan_ctx(c1, from + 1, b0, stop));
        assert(scan_ctx(c2, from, b, stop) == scan_ctx(c2, from + 1, b0, stop));
    }
}

/// One polling pass of a parallel sequence: if no child fails, every
/// child is ticked in order with the context threaded through, the
/// still-running children survive in order behind the working set
/// already collected — so the working set can only shrink — and an empty
/// new working set means overall success.  If some child fails, the pass
/// stops right there with overall failure, and no child before it
/// failed.
pub proof fn lemma_parallel_sequence_scan<B, L: BehaviorNode<B>>(
    children: Seq<ModelNode<L>>,
    from: int,
    b: B,
    acc: Seq<ModelNode<L>>,
)
    requires
        0 <= from <= children.len(),
    ensures
        ({
            let fail = par_fail_at(children, from, b);
            let (mr, mb) = par_seq_scan(children, from, b, acc);
            &&& from <= fail <= children.len()
            &&& (fail == children.len() ==> ({
                let ws = acc + par_survivors(children, from, b);
                &&& mb == scan_ctx(children, from, b, children.len() as int)
                &&& (ws.len() == 0 ==> mr == ModelResult::<L>::Success)
                &&& (ws.len() > 0 ==> mr == ModelResult::Running(
                    ModelNode::ParallelSequence { children: ws },
                ))
                &&& par_survivors(children, from, b).len() <= children.len() - from
            }))
            &&& (fail < children.len() ==> ({
                let (rf, bf) = model_tick(children[fail], scan_ctx(children, from, b, fail));
                &&& rf is Failure
                &&& mr == ModelResult::<L>::Failure
                &&& mb == bf
                &&& forall|k: int|
                    from <= k < fail ==> !((#[trigger] model_tick(
                        children[k],
                        scan_ctx(children, from, b, k),
                    )).0 is Failure)
            }))
        }),
    decreases children.len() - from,
{
    let fail = par_fail_at(children, from, b);
    if from >= children.len() {
        assert(acc + par_survivors(children, from, b) =~= acc);
        assert(scan_ctx(children, from, b, children.len() as int) == b);
    } else {
        let (r0, b0) = model_tick(children[from], b);
        assert(scan_ctx(children, from, b, from) == b);
        if r0 is Failure {
            assert(fail == from);
        } else {
            assert forall|k: int| from + 1 <= k implies #[trigger] scan_ctx(children, from, b, k)
                == scan_ctx(children, from + 1, b0, k) by {
                assert(scan_ctx(children, from, b, k) == scan_ctx(
                    children,
                    from + 1,
                    model_tick(children[from], b).1,
                    k,
                ));
            }
            assert(fail == par_fail_at(children, from + 1, b0));
            if r0 is Success {
                lemma_parallel_sequence_scan(children, from + 1, b0, acc);
                assert(par_survivors(children, from, b) == par_survivors(children, from + 1, b0));
            } else {
                let n2 = r0->0;
                lemma_parallel_sequence_scan(children, from + 1, b0, acc.push(n2));
                assert(par_survivors(children, from, b) == seq![n2] + par_survivors(
                    children,
                    from + 1,
                    b0,
                ));
                assert(acc.push(n2) + par_survivors(children, from + 1, b0) =~= acc + (
                seq![n2] + par_survivors(children, from + 1, b0)));
            }
            if fail < children.len() {
                assert forall|k: int| from <= k < fail implies !((#[trigger] model_tick(
                    children[k],
                    scan_ctx(children, from, b, k),
                )).0 is Failure) by {
                    if k > from {
                        assert(!(model_tick(children[k], scan_ctx(children, from + 1, b0, k)).0
                            is Failure));
                    }
                }
            }
        }
    }
}

/// One polling pass of a parallel selector: if no child succeeds, every
/// child is ticked in order with the context threaded through, the
/// still-running children survive in order behind the working set
/// already collected, and an empty new working set means overall
/// failure.  If some child succeeds, the pass stops right there with
/// overall success, and no child before it succeeded.
pub proof fn lemma_parallel_selector_scan<B, L: BehaviorNode<B>>(
    children: Seq<ModelNode<L>>,
    from: int,
    b: B,
    acc: Seq<ModelNode<L>>,
)
    requires
        0 <= from <= children.len(),
    ensures
        ({
            let win = par_succeed_at(children, from, b);
            let (mr, mb) = par_sel_scan(children, from, b, acc);
            &&& from <= win <= children.len()
            &&& (win == children.len() ==> ({
                let ws = acc + par_survivors(children, from, b);
                &&& mb == scan_ctx(children, from, b, children.len() as int)
                &&& (ws.len() == 0 ==> mr == ModelResult::<L>::Failure)
                &&& (ws.len() > 0 ==> mr == ModelResult::Running(
                    ModelNode::ParallelSelector { children: ws },
                ))
                &&& par_survivors(children, from, b).len() <= children.len() - from
            }))
            &&& (win < children.len() ==> ({
                let (rw, bw) = model_tick(children[win], scan_ctx(children, from, b, win));
                &&& rw is Success
                &&& mr == ModelResult::<L>::Success
                &&& mb == bw
                &&& forall|k: int|
                    from <= k < win ==> !((#[trigger] model_tick(
                        children[k],
                        scan_ctx(children, from, b, k),
                    )).0 is Success)
            }))
        }),
    decreases children.len() - from,
{
    let win = par_succeed_at(children, from, b);
    if from >= children.len() {
        assert(acc + par_survivors(children, from, b) =~= acc);
        assert(scan_ctx(children, from, b, children.len() as int) == b);
    } else {
        let (r0, b0) = model_tick(children[from], b);
        assert(scan_ctx(children, from, b, from) == b);
        if r0 is Success {
            assert(win == from);
        } else {
            assert forall|k: int| from + 1 <= k implies #[trigger] scan_ctx(children, from, b, k)
                == scan_ctx(children, from + 1, b0, k) by {
                assert(scan_ctx(children, from, b, k) == scan_ctx(
                    children,
                    from + 1,
                    model_tick(children[from], b).1,
                    k,
                ));
            }
            assert(win == par_succeed_at(children, from + 1, b0));
            if r0 is Failure {
                lemma_parallel_selector_scan(children, from + 1, b0, acc);
                assert(par_survivors(children, from, b) == par_survivors(children, from + 1, b0));
            } else {
                let n2 = r0->0;
                lemma_parallel_selector_scan(children, from + 1, b0, acc.push(n2));
                assert(par_survivors(children, from, b) == seq![n2] + par_survivors(
                    children,
                    from + 1,
                    b0,
                ));
                assert(acc.push(n2) + par_survivors(children, from + 1, b0) =~= acc + (
                seq![n2] + par_survivors(children, from + 1, b0)));
            }
            if win < children.len() {
                assert forall|k: int| from <= k < win implies !((#[trigger] model_tick(
                    children[k],
                    scan_ctx(children, from, b, k),
                )).0 is Success) by {
                    if k > from {
                        assert(!(model_tick(children[k], scan_ctx(children, from + 1, b0, k)).0
                            is Success));
                    }
                }
            }
        }
    }
}

/// One tick of the parallel-sequence composite: with no failing child
/// every child is ticked exactly once and the working set shrinks to
/// exactly the still-running children — it empties only when every
/// child has succeeded, which is overall success; with a failing child
/// the whole node fails at once.  An empty working set resolves to
/// success immediately.
pub proof fn lemma_parallel_sequence_tick<B, L: BehaviorNode<B>>(children: Seq<ModelNode<L>>, b: B)
    ensures
        ({
            let fail = par_fail_at(children, 0, b);
            let ws = par_survivors(children, 0, b);
            let (mr, mb) = model_tick(ModelNode::ParallelSequence { children }, b);
            &&& (fail == children.len() ==> ws.len() <= children.len())
            &&& (fail == children.len() && ws.len() == 0 ==> mr == ModelResult::<L>::Success)
            &&& (fail == children.len() && ws.len() > 0 ==> mr == ModelResult::Running(
                ModelNode::ParallelSequence { children: ws },
            ))
            &&& (fail < children.len() ==> mr == ModelResult::<L>::Failure)
        }),
{
    lemma_parallel_sequence_scan(children, 0, b, Seq::empty());
    assert(Seq::empty() + par_survivors(children, 0, b) =~= par_survivors(children, 0, b));
}

/// One tick of the parallel-selector composite: with no succeeding
/// child every child is ticked exactly once and the working set shrinks
/// to exactly the still-running children — it empties only when every
/// child has failed, which is overall failure; with a succeeding child
/// the whole node succeeds at once.  An empty working set resolves to
/// failure immediately.
pub proof fn lemma_parallel_selector_tick<B, L: BehaviorNode<B>>(children: Seq<ModelNode<L>>, b: B)
    ensures
        ({
            let win = par_succeed_at(children, 0, b);
            let ws = par_survivors(children, 0, b);
            let (mr, mb) = model_tick(ModelNode::ParallelSelector { children }, b);
            &&& (win == children.len() ==> ws.len() <= children.len())
            &&& (win == children.len() && ws.len() == 0 ==> mr == ModelResult::<L>::Failure)
            &&& (win == children.len() && ws.len() > 0 ==> mr == ModelResult::Running(
                ModelNode::ParallelSelector { children: ws },
            ))
            &&& (win < children.len() ==> mr == ModelResult::<L>::Success)
        }),
{
    lemma_parallel_selector_scan(children, 0, b, Seq::empty());
    assert(Seq::empty() + par_survivors(children, 0, b) =~= par_survivors(children, 0, b));
}

/// A limited repeater never fails; with the limit already consumed it
/// succeeds at once without ticking anything, and otherwise it keeps
/// running with the counter advanced by one for each iteration of the
/// child — parked or fresh, succeeding or failing alike — that reached
/// a terminal result during this tick, never past the limit.
pub proof fn lemma_limited_repeated_tick<B, L: BehaviorNode<B>>(
    child: Seq<ModelNode<L>>,
    limit: nat,
    completed: nat,
    active: Seq<ModelNode<L>>,
    b: B,
)
    requires
        child.len() == 1,
        active.len() <= 1,
    ensures
        ({
            let (mr, mb) = model_tick(
                ModelNode::LimitedRepeated { child, limit, completed, active },
                b,
            );
            let resumed_parked: bool = active.len() > 0 && model_tick(active[0], b).0 is Running;
            let after_resume: nat = if active.len() > 0 && !resumed_parked {
                completed + 1
            } else {
                completed
            };
            let b_mid = if active.len() > 0 {
                model_tick(active[0], b).1
            } else {
                b
            };
            let fresh_terminal: bool = !resumed_parked && !(model_tick(child[0], b_mid).0
                is Running);
            &&& !(mr is Failure)
            &&& (mr is Success <==> completed >= limit)
            &&& (completed >= limit ==> mb == b)
            &&& (mr matches ModelResult::Running(m2) ==> ({
                &&& m2 matches ModelNode::LimitedRepeated {
                    child: c2,
                    limit: l2,
                    completed: comp2,
                    active: act2,
                }
                &&& c2 == child
                &&& l2 == limit
                &&& comp2 == (if fresh_terminal && after_resume < limit {
                    after_resume + 1
                } else {
                    after_resume
                })
                &&& completed <= comp2 <= limit
                &&& (act2.len() == 0 <==> fresh_terminal)
            }))
        }),
{
    let m = ModelNode::LimitedRepeated { child, limit, completed, active };
    if completed >= limit {
    } else if active.len() > 0 {
        let (r0, b0) = model_tick(active[0], b);
        if r0 is Running {
        } else {
            assert(model_tick(m, b) == limited_fresh(child, limit, completed + 1, b0));
        }
    } else {
        assert(model_tick(m, b) == limited_fresh(child, limit, completed, b));
    }
}

/// A repeat-until-failure node never fails itself; it succeeds exactly
/// when its child reported failure during this tick, a succeeding child
/// only restarts a fresh iteration, and the continuation always repeats
/// the same child.
pub proof fn lemma_repeat_until_failure_tick<B, L: BehaviorNode<B>>(
    child: Seq<ModelNode<L>>,
    active: Seq<ModelNode<L>>,
    b: B,
)
    requires
        child.len() == 1,
        active.len() <= 1,
    ensures
        ({
            let (mr, mb) = model_tick(ModelNode::RepeatedUntilFailure { child, active }, b);
            let resumed_failed: bool = active.len() > 0 && model_tick(active[0], b).0 is Failure;
            let b_mid = if active.len() > 0 {
                model_tick(active[0], b).1
            } else {
                b
            };
            let fresh_runs: bool = active.len() == 0 || model_tick(active[0], b).0 is Success;
            let fresh_failed: bool = fresh_runs && model_tick(child[0], b_mid).0 is Failure;
            &&& !(mr is Failure)
            &&& (mr is Success <==> resumed_failed || fresh_failed)
            &&& (fresh_runs && model_tick(child[0], b_mid).0 is Success ==> mr
                == ModelResult::Running(
                ModelNode::RepeatedUntilFailure { child, active: Seq::empty() },
            ))
            &&& (mr matches ModelResult::Running(m2) ==> m2 matches ModelNode::RepeatedUntilFailure {
                child: c2,
                active: _,
            } && c2 == child)
        }),
{
    let m = ModelNode::RepeatedUntilFailure { child, active };
    if active.len() > 0 {
        let (r0, b0) = model_tick(active[0], b);
        if r0 is Success {
            assert(model_tick(m, b) == ruf_fresh(child, b0));
        }
    } else {
        assert(model_tick(m, b) == ruf_fresh(child, b));
    }
}

/// A plain repeater has no terminal state: every tick reports running,
/// and the continuation repeats the same child.
pub proof fn lemma_repeated_always_running<B, L: BehaviorNode<B>>(
    child: Seq<ModelNode<L>>,
    active: Seq<ModelNode<L>>,
    b: B,
)
    requires
        child.len() == 1,
        active.len() <= 1,
    ensures
        ({
            let (mr, mb) = model_tick(ModelNode::Repeated { child, active }, b);
            mr matches ModelResult::Running(m2) && m2 matches ModelNode::Repeated {
                child: c2,
                active: _,
            } && c2 == child
        }),
{
    let m = ModelNode::Repeated { child, active };
    if active.len() > 0 {
        let (r0, b0) = model_tick(active[0], b);
        if !(r0 is Running) {
            assert(model_tick(m, b) == repeated_fresh(child, b0));
        }
    } else {
        assert(model_tick(m, b) == repeated_fresh(child, b));
    }
}

/// Ticking is a pure function of the node model and the context alone:
/// the same node value, ticked again under the same context, reproduces
/// the same outcome, the same context, and the same continuation —
/// ticking never changes the node itself.
pub proof fn lemma_tick_deterministic<B, L: BehaviorNode<B>>(
    m1: ModelNode<L>,
    m2: ModelNode<L>,
    b1: B,
    b2: B,
)
    requires
        m1 == m2,
        b1 == b2,
    ensures
        model_tick(m1, b1) == model_tick(m2, b2),
{
}

} // verus!

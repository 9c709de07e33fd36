//! The ordered composites driven end to end: a sequence resumes after a
//! parked child without re-ticking finished children, and a selector
//! moves past a failed child without re-ticking it.

use behavior_tree::composite::Selector;
use behavior_tree::composite::Sequence;
use behavior_tree::BehaviorArc;
use behavior_tree::BehaviorNode;
use behavior_tree::BehaviorRunner;
use behavior_tree::NodeResult;

pub struct Context {
    pub stack: Vec<i32>,
}

fn test_with_context<B, L, F>(
    init_context: F,
    mut runner: BehaviorRunner<L>,
    running_limit: usize,
) -> (Option<bool>, B)
where
    L: BehaviorNode<B>,
    F: FnOnce() -> B,
{
    let mut context = init_context();
    let mut running_count = 0;
    let mut res = runner.proceed(&mut context);
    while runner.is_running() && res.is_none() {
        if running_count >= running_limit {
            return (None, context);
        }
        running_count += 1;
        res = runner.proceed(&mut context);
    }
    (res, context)
}

struct TwoStepPush {
    payload: i32,
    fail: bool,
    step: usize,
}

impl BehaviorNode<Context> for TwoStepPush {
    fn tick(&self, context: &mut Context) -> NodeResult<BehaviorArc<Self>> {
        if self.step < 1 {
            NodeResult::Running(
                Self {
                    payload: self.payload,
                    fail: self.fail,
                    step: self.step + 1,
                }
                .arc(),
            )
        } else {
            context.stack.push(self.payload);
            if self.fail {
                NodeResult::Failure
            } else {
                NodeResult::Success
            }
        }
    }
}

#[test]
fn sequence_resumes_after_tried_node() {
    let runner = BehaviorRunner::new(
        Sequence::new(vec![
            TwoStepPush {
                payload: 1,
                fail: false,
                step: 0,
            }
            .arc(),
            TwoStepPush {
                payload: 2,
                fail: false,
                step: 0,
            }
            .arc(),
        ])
        .arc(),
    );
    let (res, context) = test_with_context(|| Context { stack: Vec::new() }, runner, 9);
    assert_eq!(res, Some(true));
    assert_eq!(context.stack, vec![1, 2]);
}

#[test]
fn selector_skips_tried_node() {
    let runner = BehaviorRunner::new(
        Selector::new(vec![
            TwoStepPush {
                payload: 1,
                fail: true,
                step: 0,
            }
            .arc(),
            TwoStepPush {
                payload: 2,
                fail: false,
                step: 0,
            }
            .arc(),
        ])
        .arc(),
    );
    let (res, context) = test_with_context(|| Context { stack: Vec::new() }, runner, 10);
    assert_eq!(res, Some(true));
    assert_eq!(context.stack, vec![1, 2]);
}

#[test]
fn sequence_of_two_slow_children_takes_three_ticks() {
    let mut runner = BehaviorRunner::new(
        Sequence::new(vec![
            TwoStepPush {
                payload: 1,
                fail: false,
                step: 0,
            }
            .arc(),
            TwoStepPush {
                payload: 2,
                fail: false,
                step: 0,
            }
            .arc(),
        ])
        .arc(),
    );
    let mut context = Context { stack: Vec::new() };
    assert_eq!(runner.proceed(&mut context), None);
    assert_eq!(runner.proceed(&mut context), None);
    assert_eq!(runner.proceed(&mut context), Some(true));
    assert_eq!(context.stack, vec![1, 2]);
}

#[test]
fn selector_tries_second_child_after_slow_failure() {
    let mut runner = BehaviorRunner::new(
        Selector::new(vec![
            TwoStepPush {
                payload: 1,
                fail: true,
                step: 0,
            }
            .arc(),
            TwoStepPush {
                payload: 2,
                fail: false,
                step: 0,
            }
            .arc(),
        ])
        .arc(),
    );
    let mut context = Context { stack: Vec::new() };
    assert_eq!(runner.proceed(&mut context), None);
    assert_eq!(runner.proceed(&mut context), None);
    assert_eq!(runner.proceed(&mut context), Some(true));
    assert_eq!(context.stack, vec![1, 2]);
}

#[test]
fn sequence_stops_at_first_failure() {
    let runner = BehaviorRunner::new(
        Sequence::new(vec![
            TwoStepPush {
                payload: 1,
                fail: true,
                step: 1,
            }
            .arc(),
            TwoStepPush {
                payload: 2,
                fail: false,
                step: 1,
            }
            .arc(),
        ])
        .arc(),
    );
    let (res, context) = test_with_context(|| Context { stack: Vec::new() }, runner, 5);
    assert_eq!(res, Some(false));
    assert_eq!(context.stack, vec![1]);
}

#[test]
fn selector_stops_at_first_success() {
    let runner = BehaviorRunner::new(
        Selector::new(vec![
            TwoStepPush {
                payload: 1,
                fail: false,
                step: 1,
            }
            .arc(),
            TwoStepPush {
                payload: 2,
                fail: false,
                step: 1,
            }
            .arc(),
        ])
        .arc(),
    );
    let (res, context) = test_with_context(|| Context { stack: Vec::new() }, runner, 5);
    assert_eq!(res, Some(true));
    assert_eq!(context.stack, vec![1]);
}

#[test]
fn empty_sequence_succeeds_and_empty_selector_fails() {
    let seq_runner: BehaviorRunner<TwoStepPush> =
        BehaviorRunner::new(Sequence::new(Vec::new()).arc());
    let (res, _) = test_with_context(|| Context { stack: Vec::new() }, seq_runner, 0);
    assert_eq!(res, Some(true));

    let sel_runner: BehaviorRunner<TwoStepPush> =
        BehaviorRunner::new(Selector::new(Vec::new()).arc());
    let (res, _) = test_with_context(|| Context { stack: Vec::new() }, sel_runner, 0);
    assert_eq!(res, Some(false));
}

#[test]
fn runner_reports_running_between_ticks() {
    let mut runner = BehaviorRunner::new(
        Sequence::new(vec![TwoStepPush {
            payload: 7,
            fail: false,
            step: 0,
        }
        .arc()])
        .arc(),
    );
    let mut context = Context { stack: Vec::new() };
    assert!(!runner.is_running());
    assert_eq!(runner.proceed(&mut context), None);
    assert!(runner.is_running());
    assert_eq!(runner.proceed(&mut context), Some(true));
    assert!(!runner.is_running());
    assert_eq!(context.stack, vec![7]);
}

#[test]
fn terminal_composite_reruns_identically() {
    let tree = Sequence::new(vec![
        TwoStepPush {
            payload: 1,
            fail: false,
            step: 0,
        }
        .arc(),
        TwoStepPush {
            payload: 2,
            fail: true,
            step: 0,
        }
        .arc(),
    ])
    .arc();

    let first = test_with_context(
        || Context { stack: Vec::new() },
        BehaviorRunner::new(tree.clone()),
        9,
    );
    let second = test_with_context(
        || Context { stack: Vec::new() },
        BehaviorRunner::new(tree),
        9,
    );
    assert_eq!(first.0, Some(false));
    assert_eq!(second.0, Some(false));
    assert_eq!(first.1.stack, second.1.stack);
    assert_eq!(first.1.stack, vec![1, 2]);
}

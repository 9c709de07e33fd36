//! The repeater family driven end to end: bounded repetition counts
//! terminal iterations of either kind, and repeat-until-failure turns
//! the child's first failure into overall success.

use behavior_tree::composite::LimitedRepeated;
use behavior_tree::composite::RepeatedUntilFailure;
use behavior_tree::composite::Sequence;
use behavior_tree::BehaviorArc;
use behavior_tree::BehaviorNode;
use behavior_tree::BehaviorRunner;
use behavior_tree::NodeResult;

pub struct Context {
    pub stack: Vec<i32>,
}

fn test_with_context<B, L, F>(
    init_context: F,
    mut runner: BehaviorRunner<L>,
    running_limit: usize,
) -> (Option<bool>, B)
where
    L: BehaviorNode<B>,
    F: FnOnce() -> B,
{
    let mut context = init_context();
    let mut running_count = 0;
    let mut res = runner.proceed(&mut context);
    while runner.is_running() && res.is_none() {
        if running_count >= running_limit {
            return (None, context);
        }
        running_count += 1;
        res = runner.proceed(&mut context);
    }
    (res, context)
}

enum Step {
    Push1,
    FibPush,
    IsCapped { cap: i32 },
    PushThenFail,
}

impl BehaviorNode<Context> for Step {
    fn tick(&self, context: &mut Context) -> NodeResult<BehaviorArc<Self>> {
        match self {
            Step::Push1 => {
                context.stack.push(1);
                NodeResult::Success
            }
            Step::FibPush => {
                if context.stack.len() < 2 {
                    context.stack.push(1);
                } else {
                    let len = context.stack.len();
                    let a = context.stack[len - 2];
                    let b = context.stack[len - 1];
                    context.stack.push(a + b);
                }
                NodeResult::Success
            }
            Step::IsCapped { cap } => {
                if context.stack.iter().any(|v| *v > *cap) {
                    NodeResult::Failure
                } else {
                    NodeResult::Success
                }
            }
            Step::PushThenFail => {
                context.stack.push(1);
                NodeResult::Failure
            }
        }
    }
}

#[test]
fn limited_repeat_repeats_to_limit() {
    let runner = BehaviorRunner::new(LimitedRepeated::new(3, Step::Push1.arc()).arc());
    let (res, context) = test_with_context(|| Context { stack: Vec::new() }, runner, 3);
    assert_eq!(res, Some(true));
    assert_eq!(context.stack, vec![1, 1, 1]);
}

#[test]
fn repeat_until_failure_stops_on_failure() {
    let runner = BehaviorRunner::new(
        RepeatedUntilFailure::new(
            Sequence::new(vec![Step::FibPush.arc(), Step::IsCapped { cap: 100 }.arc()]).arc(),
        )
        .arc(),
    );
    let (res, context) = test_with_context(|| Context { stack: Vec::new() }, runner, 11);
    assert_eq!(res, Some(true));
    assert_eq!(context.stack, vec![1, 1, 2, 3, 5, 8, 13, 21, 34, 55, 89, 144]);
}

#[test]
fn limited_repeat_with_limit_zero_succeeds_without_ticking() {
    let runner = BehaviorRunner::new(LimitedRepeated::new(0, Step::Push1.arc()).arc());
    let (res, context) = test_with_context(|| Context { stack: Vec::new() }, runner, 0);
    assert_eq!(res, Some(true));
    assert_eq!(context.stack, Vec::<i32>::new());
}

#[test]
fn limited_repeat_counts_failed_iterations_and_never_fails() {
    let runner = BehaviorRunner::new(LimitedRepeated::new(2, Step::PushThenFail.arc()).arc());
    let (res, context) = test_with_context(|| Context { stack: Vec::new() }, runner, 2);
    assert_eq!(res, Some(true));
    assert_eq!(context.stack, vec![1, 1]);
}

#[test]
fn repeat_until_failure_restarts_on_success() {
    // The cap trips once a value above 3 has been pushed: two full
    // successful iterations restart the loop before the third one fails.
    let runner = BehaviorRunner::new(
        RepeatedUntilFailure::new(
            Sequence::new(vec![Step::FibPush.arc(), Step::IsCapped { cap: 2 }.arc()]).arc(),
        )
        .arc(),
    );
    let (res, context) = test_with_context(|| Context { stack: Vec::new() }, runner, 5);
    assert_eq!(res, Some(true));
    assert_eq!(context.stack, vec![1, 1, 2, 3]);
}

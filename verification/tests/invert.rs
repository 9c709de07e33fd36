//! The decorators driven end to end: the inverter swaps terminal
//! results even across running ticks, and the succeeder collapses
//! everything to success.

use behavior_tree::composite::Inverter;
use behavior_tree::composite::Succeeder;
use behavior_tree::BehaviorArc;
use behavior_tree::BehaviorNode;
use behavior_tree::BehaviorRunner;
use behavior_tree::Node;
use behavior_tree::NodeResult;

pub struct Context {
    pub stack: Vec<i32>,
}

fn test_with_context<B, L, F>(
    init_context: F,
    mut runner: BehaviorRunner<L>,
    running_limit: usize,
) -> (Option<bool>, B)
where
    L: BehaviorNode<B>,
    F: FnOnce() -> B,
{
    let mut context = init_context();
    let mut running_count = 0;
    let mut res = runner.proceed(&mut context);
    while runner.is_running() && res.is_none() {
        if running_count >= running_limit {
            return (None, context);
        }
        running_count += 1;
        res = runner.proceed(&mut context);
    }
    (res, context)
}

struct SucceedAfterSteps {
    steps: u32,
    step: u32,
}

impl SucceedAfterSteps {
    fn new(steps: u32) -> Self {
        Self { steps, step: 0 }
    }
}

impl BehaviorNode<Context> for SucceedAfterSteps {
    fn tick(&self, _context: &mut Context) -> NodeResult<BehaviorArc<Self>> {
        if self.step < self.steps {
            NodeResult::Running(
                Self {
                    steps: self.steps,
                    step: self.step + 1,
                }
                .arc(),
            )
        } else {
            NodeResult::Success
        }
    }
}

struct FailNow;

impl BehaviorNode<Context> for FailNow {
    fn tick(&self, _context: &mut Context) -> NodeResult<BehaviorArc<Self>> {
        NodeResult::Failure
    }
}

#[test]
fn inverter_inverts_properly() {
    let runner1 = BehaviorRunner::from_node(Node::Inverter(Inverter::new(
        Succeeder::<SucceedAfterSteps>::default().arc(),
    )));

    let (res, context) = test_with_context(|| Context { stack: Vec::new() }, runner1, 0);
    assert_eq!(res, Some(false));
    assert_eq!(context.stack, Vec::<i32>::new());

    let runner2 = BehaviorRunner::new(Inverter::new(SucceedAfterSteps::new(9).arc()).arc());

    let (res, context) = test_with_context(|| Context { stack: Vec::new() }, runner2, 9);
    assert_eq!(res, Some(false));
    assert_eq!(context.stack, Vec::<i32>::new());
}

#[test]
fn inverter_turns_failure_into_success() {
    let runner = BehaviorRunner::new(Inverter::new(FailNow.arc()).arc());
    let (res, _) = test_with_context(|| Context { stack: Vec::new() }, runner, 0);
    assert_eq!(res, Some(true));
}

#[test]
fn succeeder_collapses_failure_to_success() {
    let runner = BehaviorRunner::new(Succeeder::new(FailNow.arc()).arc());
    let (res, _) = test_with_context(|| Context { stack: Vec::new() }, runner, 0);
    assert_eq!(res, Some(true));
}

#[test]
fn succeeder_relays_running_ticks() {
    let runner = BehaviorRunner::new(Succeeder::new(SucceedAfterSteps::new(2).arc()).arc());
    let (res, _) = test_with_context(|| Context { stack: Vec::new() }, runner, 2);
    assert_eq!(res, Some(true));
}

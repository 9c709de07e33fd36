//! The polling composites driven end to end, including the shrinking of
//! the working set and the immediate abort on a terminal child.

use behavior_tree::composite::ParallelSelector;
use behavior_tree::composite::ParallelSequence;
use behavior_tree::BehaviorArc;
use behavior_tree::BehaviorNode;
use behavior_tree::BehaviorRunner;
use behavior_tree::Node;
use behavior_tree::NodeResult;

#[derive(Default, PartialEq, Debug)]
struct Diem {
    day: usize,
    paydays: Vec<usize>,
}

#[derive(Default)]
struct PaydayWait {
    index: usize,
    payload: usize,
    time: usize,
    terminal: bool,
}

impl PaydayWait {
    fn again(&self) -> Self {
        Self {
            index: self.index,
            payload: self.payload,
            time: self.time,
            terminal: self.terminal,
        }
    }
}

impl BehaviorNode<Diem> for PaydayWait {
    fn tick(&self, context: &mut Diem) -> NodeResult<BehaviorArc<Self>> {
        if self.time < context.day {
            let paydays = &mut context.paydays;
            let size_diff = self.index.abs_diff(paydays.len());
            if paydays.len() <= self.index {
                paydays.extend(vec![0; size_diff + 1]);
            }
            paydays[self.index] = self.payload;
            if self.terminal {
                NodeResult::Failure
            } else {
                NodeResult::Success
            }
        } else {
            NodeResult::Running(self.again().arc())
        }
    }
}

#[test]
fn parallel_sequence_test() {
    let mut runner = BehaviorRunner::from_node(Node::ParallelSequence(ParallelSequence::new(
        vec![
            PaydayWait {
                index: 0,
                payload: 19,
                time: 5,
                ..Default::default()
            }
            .arc(),
            PaydayWait {
                index: 1,
                payload: 42,
                ..Default::default()
            }
            .arc(),
            PaydayWait {
                index: 3,
                time: 13,
                ..Default::default()
            }
            .arc(),
        ],
    )));

    let mut diem = Diem::default();
    assert_eq!(runner.proceed(&mut diem), None);
    assert_eq!(diem, Diem::default());
    diem.day = 1;
    assert_eq!(runner.proceed(&mut diem), None);
    assert_eq!(
        diem,
        Diem {
            paydays: vec![0, 42],
            day: 1,
        }
    );
    diem.day = 6;
    assert_eq!(runner.proceed(&mut diem), None);
    assert_eq!(
        diem,
        Diem {
            paydays: vec![19, 42],
            day: 6,
        }
    );
    diem.day = 21;
    assert_eq!(runner.proceed(&mut diem), Some(true));
    assert_eq!(
        diem,
        Diem {
            paydays: vec![19, 42, 0, 0],
            day: 21,
        }
    );
}

#[test]
fn parallel_selector_test() {
    let mut runner = BehaviorRunner::from_node(Node::ParallelSelector(ParallelSelector::new(
        vec![
            PaydayWait {
                index: 0,
                payload: 19,
                time: 5,
                ..Default::default()
            }
            .arc(),
            PaydayWait {
                index: 1,
                payload: 42,
                terminal: true,
                ..Default::default()
            }
            .arc(),
            PaydayWait {
                index: 3,
                time: 13,
                ..Default::default()
            }
            .arc(),
        ],
    )));

    let mut diem = Diem::default();
    assert_eq!(runner.proceed(&mut diem), None);
    assert_eq!(diem, Diem::default());
    diem.day = 1;
    assert_eq!(runner.proceed(&mut diem), None);
    assert_eq!(
        diem,
        Diem {
            paydays: vec![0, 42],
            day: 1,
        }
    );
    diem = Diem {
        day: 6,
        ..Default::default()
    };
    assert_eq!(runner.proceed(&mut diem), Some(true));
    assert_eq!(
        diem,
        Diem {
            paydays: vec![19],
            day: 6,
        }
    );
    diem = Diem {
        day: 21,
        ..Default::default()
    };
    assert_eq!(runner.proceed(&mut diem), Some(true));
    assert_eq!(
        diem,
        Diem {
            paydays: vec![19],
            day: 21,
        }
    );
}

/// Logs its id on every tick; succeeds once it has been ticked `need`
/// times in all.
struct Gate {
    id: i32,
    need: usize,
}

impl BehaviorNode<Vec<i32>> for Gate {
    fn tick(&self, log: &mut Vec<i32>) -> NodeResult<BehaviorArc<Self>> {
        log.push(self.id);
        let seen = log.iter().filter(|x| **x == self.id).count();
        if seen >= self.need {
            NodeResult::Success
        } else {
            NodeResult::Running(
                Self {
                    id: self.id,
                    need: self.need,
                }
                .arc(),
            )
        }
    }
}

/// Logs its id once and fails.
struct FailNow {
    id: i32,
}

impl BehaviorNode<Vec<i32>> for FailNow {
    fn tick(&self, log: &mut Vec<i32>) -> NodeResult<BehaviorArc<Self>> {
        log.push(self.id);
        NodeResult::Failure
    }
}

#[test]
fn parallel_sequence_drops_finished_children() {
    let mut runner = BehaviorRunner::from_node(Node::ParallelSequence(ParallelSequence::new(
        vec![
            Gate { id: 1, need: 1 }.arc(),
            Gate { id: 2, need: 3 }.arc(),
        ],
    )));
    let mut log: Vec<i32> = Vec::new();
    assert_eq!(runner.proceed(&mut log), None);
    assert_eq!(runner.proceed(&mut log), None);
    assert_eq!(runner.proceed(&mut log), Some(true));
    assert_eq!(log, vec![1, 2, 2, 2]);
}

#[test]
fn parallel_sequence_aborts_on_failure() {
    let mut runner: BehaviorRunner<FailNow> = BehaviorRunner::from_node(Node::ParallelSequence(
        ParallelSequence::new(vec![FailNow { id: 9 }.arc(), FailNow { id: 8 }.arc()]),
    ));
    let mut log: Vec<i32> = Vec::new();
    assert_eq!(runner.proceed(&mut log), Some(false));
    assert_eq!(log, vec![9]);
}

#[test]
fn empty_parallel_sets_resolve_immediately() {
    let mut seq_runner: BehaviorRunner<FailNow> =
        BehaviorRunner::from_node(Node::ParallelSequence(ParallelSequence::new(Vec::new())));
    let mut log: Vec<i32> = Vec::new();
    assert_eq!(seq_runner.proceed(&mut log), Some(true));

    let mut sel_runner: BehaviorRunner<FailNow> =
        BehaviorRunner::from_node(Node::ParallelSelector(ParallelSelector::new(Vec::new())));
    assert_eq!(sel_runner.proceed(&mut log), Some(false));
    assert_eq!(log, Vec::<i32>::new());
}

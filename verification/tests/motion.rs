//! A sequence of motion leaves over a two-dimensional position, driven
//! until every goal is reached.

use behavior_tree::composite::Sequence;
use behavior_tree::BehaviorArc;
use behavior_tree::BehaviorNode;
use behavior_tree::BehaviorRunner;
use behavior_tree::NodeResult;

#[derive(Clone, Copy)]
struct V2 {
    x: f32,
    y: f32,
}

struct MoveTo {
    part: f32,
    goal: V2,
}

impl BehaviorNode<V2> for MoveTo {
    fn tick(&self, position: &mut V2) -> NodeResult<BehaviorArc<Self>> {
        let step_x = (self.goal.x - position.x) * self.part.recip();
        let step_y = (self.goal.y - position.y) * self.part.recip();
        position.x += step_x;
        position.y += step_y;

        const ERROR: f32 = 0.001;
        let dx = self.goal.x - position.x;
        let dy = self.goal.y - position.y;
        if (dx * dx + dy * dy).sqrt() < ERROR {
            NodeResult::Success
        } else {
            NodeResult::Running(
                Self {
                    part: self.part,
                    goal: self.goal,
                }
                .arc(),
            )
        }
    }
}

#[test]
fn test_seequence() {
    let tree = Sequence::new(vec![
        MoveTo {
            part: 5.0,
            goal: V2 { x: 0.0, y: 0.0 },
        }
        .arc(),
        MoveTo {
            part: 5.0,
            goal: V2 { x: 5.0, y: 5.0 },
        }
        .arc(),
    ])
    .arc();

    // Set some position
    let mut position = V2 { x: 5.0, y: 0.0 };

    // If a position is set, we will execute the action
    {
        let mut runner = BehaviorRunner::new(tree.clone());
        let mut res = None;
        while res.is_none() {
            res = runner.proceed(&mut position);
        }
        assert!(res.is_some_and(|v| v));
    }
}

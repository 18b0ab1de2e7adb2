//! What monsters want.

use vstd::prelude::*;

verus! {

/// Something that an actor may strive for.
pub trait Goal {

}

/// The goals that monsters know.
#[derive(Debug, Clone, Copy, PartialEq, Eq, Structural)]
pub enum AiGoal {
    /// Nothing to do.
    Bored,
}

impl Goal for AiGoal {

}

/// The goals of an actor, the most pressing last.
#[derive(Debug)]
pub struct Goals {
    goal_stack: Vec<AiGoal>,
}

impl Goals {
    /// The goals, the most pressing last.
    pub closed spec fn stack(self) -> Seq<AiGoal> {
        self.goal_stack@
    }

    /// The goals of an actor with nothing to do.
    pub fn bored() -> (r: Goals)
        ensures
            r.stack() == seq![AiGoal::Bored],
    {
        let mut goal_stack: Vec<AiGoal> = Vec::new();
        goal_stack.push(AiGoal::Bored);
        assert(goal_stack@ =~= seq![AiGoal::Bored]);
        Goals { goal_stack }
    }
}

/// What an actor's brain has come to.
#[derive(Debug, Clone, Copy, PartialEq, Eq, Structural)]
pub enum BrainDecision {
    Undecided,
}

} // verus!

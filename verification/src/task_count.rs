use vstd::prelude::*;

verus! {

/// How many tasks a node should run in.
#[derive(Clone, Copy, PartialEq, Eq, Debug, Structural)]
pub enum TaskCountAnnotation {
    /// This many tasks would suit the node, but another number works too.
    Desired(usize),
    /// The node must not run in more tasks than this.
    Maximum(usize),
}

pub open spec fn min_of(a: usize, b: usize) -> usize {
    if a <= b {
        a
    } else {
        b
    }
}

pub open spec fn max_of(a: usize, b: usize) -> usize {
    if a <= b {
        b
    } else {
        a
    }
}

impl TaskCountAnnotation {
    /// The number of tasks, without the distinction between a wish and a limit.
    pub open spec fn count(self) -> usize {
        match self {
            TaskCountAnnotation::Desired(n) => n,
            TaskCountAnnotation::Maximum(n) => n,
        }
    }

    /// The annotation with its count cut down to `limit`.
    pub open spec fn limited(self, limit: usize) -> TaskCountAnnotation {
        match self {
            TaskCountAnnotation::Desired(n) => TaskCountAnnotation::Desired(min_of(n, limit)),
            TaskCountAnnotation::Maximum(n) => TaskCountAnnotation::Maximum(min_of(n, limit)),
        }
    }

    /// What two nodes of one stage agree on: the greater wish, but a limit beats every wish and
    /// the smaller limit beats the greater.
    pub open spec fn merged(self, other: TaskCountAnnotation) -> TaskCountAnnotation {
        match (self, other) {
            (TaskCountAnnotation::Desired(a), TaskCountAnnotation::Desired(b)) => {
                TaskCountAnnotation::Desired(max_of(a, b))
            },
            (TaskCountAnnotation::Desired(_), TaskCountAnnotation::Maximum(b)) => {
                TaskCountAnnotation::Maximum(b)
            },
            (TaskCountAnnotation::Maximum(a), TaskCountAnnotation::Desired(_)) => {
                TaskCountAnnotation::Maximum(a)
            },
            (TaskCountAnnotation::Maximum(a), TaskCountAnnotation::Maximum(b)) => {
                TaskCountAnnotation::Maximum(min_of(a, b))
            },
        }
    }

    pub fn as_usize(&self) -> (result: usize)
        ensures
            result == self.count(),
    {
        match self {
            TaskCountAnnotation::Desired(n) => *n,
            TaskCountAnnotation::Maximum(n) => *n,
        }
    }

    pub fn limit(self, limit: usize) -> (result: TaskCountAnnotation)
        ensures
            result == self.limited(limit),
    {
        match self {
            TaskCountAnnotation::Desired(n) => {
                TaskCountAnnotation::Desired(if n <= limit { n } else { limit })
            },
            TaskCountAnnotation::Maximum(n) => {
                TaskCountAnnotation::Maximum(if n <= limit { n } else { limit })
            },
        }
    }

    pub fn merge(self, other: TaskCountAnnotation) -> (result: TaskCountAnnotation)
        ensures
            result == self.merged(other),
    {
        match (self, other) {
            (TaskCountAnnotation::Desired(a), TaskCountAnnotation::Desired(b)) => {
                TaskCountAnnotation::Desired(if a <= b { b } else { a })
            },
            (TaskCountAnnotation::Desired(_), TaskCountAnnotation::Maximum(b)) => {
                TaskCountAnnotation::Maximum(b)
            },
            (TaskCountAnnotation::Maximum(a), TaskCountAnnotation::Desired(_)) => {
                TaskCountAnnotation::Maximum(a)
            },
            (TaskCountAnnotation::Maximum(a), TaskCountAnnotation::Maximum(b)) => {
                TaskCountAnnotation::Maximum(if a <= b { a } else { b })
            },
        }
    }
}

/// Merging does not depend on the order in which the nodes of a stage are met.
pub proof fn merge_is_commutative(a: TaskCountAnnotation, b: TaskCountAnnotation)
    ensures
        a.merged(b) == b.merged(a),
{
}

/// Merging does not depend on how the nodes of a stage are grouped.
pub proof fn merge_is_associative(
    a: TaskCountAnnotation,
    b: TaskCountAnnotation,
    c: TaskCountAnnotation,
)
    ensures
        a.merged(b).merged(c) == a.merged(b.merged(c)),
{
}

/// One node that can only run in a single task holds its whole stage to a single task.
pub proof fn maximum_of_one_wins(other: TaskCountAnnotation)
    requires
        other.count() >= 1,
    ensures
        TaskCountAnnotation::Maximum(1).merged(other) == TaskCountAnnotation::Maximum(1),
{
}

} // verus!

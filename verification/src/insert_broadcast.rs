use crate::plan::{only, JoinType, Operator, OperatorView, PartitionMode, Plan, PlanView};
use std::sync::Arc;
use vstd::prelude::*;

verus! {

impl JoinType {
    /// Whether the join never emits a row on account of its left side alone, so that every task
    /// may hold a copy of that side.
    pub open spec fn left_broadcast_safe(self) -> bool {
        self is Inner || self is Right || self is RightSemi || self is RightAnti
            || self is RightMark
    }
}

/// Whether the left side of a join of this type can be copied into every task without output rows
/// being duplicated.
pub fn is_left_broadcast_safe(join_type: &JoinType) -> (result: bool)
    ensures
        result == join_type.left_broadcast_safe(),
{
    match join_type {
        JoinType::Inner => true,
        JoinType::Right => true,
        JoinType::RightSemi => true,
        JoinType::RightAnti => true,
        JoinType::RightMark => true,
        _ => false,
    }
}

impl OperatorView {
    /// Whether the operator is a join that collects its left input and can do so from a copy in
    /// every task.
    pub open spec fn can_broadcast_left(self) -> bool {
        match self {
            OperatorView::HashJoin { mode, join_type, .. } => mode is CollectLeft
                && join_type.left_broadcast_safe(),
            OperatorView::NestedLoopJoin { join_type, .. } => join_type.left_broadcast_safe(),
            OperatorView::CrossJoin => true,
            _ => false,
        }
    }
}

impl PlanView {
    /// The plan with its build side broadcast: below the node that gathers its partitions, if it
    /// has one, otherwise below a new one.
    pub open spec fn build_side_broadcast(self) -> PlanView
        decreases self, 1nat,
    {
        if self.op is CoalescePartitions && self.children.len() > 0 {
            self.over(
                seq![
                    crate::plan::new_node(
                        OperatorView::Broadcast { consumer_tasks: 1 },
                        seq![self.children[0].with_broadcasts()],
                    ),
                ],
            )
        } else {
            crate::plan::new_node(
                OperatorView::CoalescePartitions { fetch: None },
                seq![
                    crate::plan::new_node(
                        OperatorView::Broadcast { consumer_tasks: 1 },
                        seq![self.with_broadcasts()],
                    ),
                ],
            )
        }
    }

    /// The plan with a broadcast below every join that can read its build side from one.
    pub open spec fn with_broadcasts(self) -> PlanView
        decreases self, 0nat,
    {
        let others = Seq::new(
            self.children.len(),
            |i: int|
                if 0 <= i < self.children.len() {
                    self.children[i].with_broadcasts()
                } else {
                    arbitrary()
                },
        );
        if self.op.can_broadcast_left() && self.children.len() > 0 {
            self.over(others.update(0, self.children[0].build_side_broadcast()))
        } else {
            self.over(others)
        }
    }
}

fn can_broadcast_left_input(op: &Operator) -> (result: bool)
    ensures
        result == op@.can_broadcast_left(),
{
    match op {
        Operator::HashJoin { mode, join_type, .. } => match mode {
            PartitionMode::CollectLeft => is_left_broadcast_safe(join_type),
            _ => false,
        },
        Operator::NestedLoopJoin { join_type, .. } => is_left_broadcast_safe(join_type),
        Operator::CrossJoin => true,
        _ => false,
    }
}

fn broadcast_build_side(build: &Arc<Plan>) -> (result: Arc<Plan>)
    ensures
        result@ == build@.build_side_broadcast(),
    decreases build, 1nat,
{
    let gathers = match &*build.op {
        Operator::CoalescePartitions { .. } => true,
        _ => false,
    };
    if gathers && build.children.len() > 0 {
        proof {
            assert(build@.children[0] == build.children@[0]@);
        }
        let input = add_broadcasts(&build.children[0]);
        let broadcast = Plan::node(Operator::Broadcast { consumer_tasks: 1 }, only(input));
        build.with_new_children(only(broadcast))
    } else {
        let input = add_broadcasts(build);
        let broadcast = Plan::node(Operator::Broadcast { consumer_tasks: 1 }, only(input));
        Plan::node(Operator::CoalescePartitions { fetch: None }, only(broadcast))
    }
}

fn add_broadcasts(plan: &Arc<Plan>) -> (result: Arc<Plan>)
    ensures
        result@ == plan@.with_broadcasts(),
    decreases plan, 0nat,
{
    let broadcast_left = can_broadcast_left_input(&plan.op);
    let ghost expected = plan@.with_broadcasts().children;
    let mut children: Vec<Arc<Plan>> = Vec::new();
    let mut i: usize = 0;
    while i < plan.children.len()
        invariant
            0 <= i <= plan.children@.len(),
            children@.len() == i,
            broadcast_left == plan@.op.can_broadcast_left(),
            expected == plan@.with_broadcasts().children,
            expected.len() == plan.children@.len(),
            forall|j: int| 0 <= j < i ==> (#[trigger] children@[j])@ == expected[j],
        decreases plan.children@.len() - i,
    {
        let child = &plan.children[i];
        proof {
            assert(plan@.children[i as int] == child@);
        }
        if broadcast_left && i == 0 {
            children.push(broadcast_build_side(child));
        } else {
            children.push(add_broadcasts(child));
        }
        i += 1;
    }
    proof {
        assert(crate::plan::views(children@) =~= expected);
    }
    plan.with_new_children(children)
}

/// Puts a broadcast below every join whose build side may be copied into every task, where
/// broadcast joins are enabled.
pub fn insert_broadcast_execs(plan: &Arc<Plan>, broadcast_joins: bool) -> (result: Arc<Plan>)
    ensures
        broadcast_joins ==> result@ == plan@.with_broadcasts(),
        !broadcast_joins ==> result == *plan,
{
    if !broadcast_joins {
        return Arc::clone(plan);
    }
    add_broadcasts(plan)
}

impl PlanView {
    /// Whether every join that can read its build side from a broadcast does so, through a node
    /// that gathers the partitions of the broadcast.
    pub open spec fn broadcasts_in_place(self) -> bool
        decreases self,
    {
        &&& self.op.can_broadcast_left() && self.children.len() > 0 ==> {
            let build = self.children[0];
            build.op is CoalescePartitions && build.children.len() == 1 && build.children[0].op
                is Broadcast
        }
        &&& forall|i: int|
            0 <= i < self.children.len() ==> (#[trigger] self.children[i]).broadcasts_in_place()
    }
}

proof fn broadcast_build_sides_are_in_place(build: PlanView)
    ensures
        build.build_side_broadcast().broadcasts_in_place(),
    decreases build, 1nat,
{
    reveal_with_fuel(PlanView::broadcasts_in_place, 3);
    if build.op is CoalescePartitions && build.children.len() > 0 {
        every_broadcast_is_in_place(build.children[0]);
    } else {
        every_broadcast_is_in_place(build);
    }
}

/// Once broadcasts are inserted, every join that may read its build side from a broadcast does.
pub proof fn every_broadcast_is_in_place(plan: PlanView)
    ensures
        plan.with_broadcasts().broadcasts_in_place(),
    decreases plan, 0nat,
{
    let result = plan.with_broadcasts();
    assert forall|i: int| 0 <= i < result.children.len() implies (
    #[trigger] result.children[i]).broadcasts_in_place() by {
        if plan.op.can_broadcast_left() && i == 0 {
            broadcast_build_sides_are_in_place(plan.children[0]);
        } else {
            every_broadcast_is_in_place(plan.children[i]);
        }
    }
}

} // verus!

//! Rewrites joins that would otherwise be held to a single task.
//!
//! A join that emits rows of its build side cannot read that side from a copy in every task. A
//! hash join of that kind is turned into one that partitions both sides by the join keys, so that
//! rows that could match meet in one partition. The sides of a nested loop join of that kind are
//! swapped, so that the side whose rows are emitted is the one that is spread over the tasks.
use crate::error::{DistributedError, DistributedErrorView, ErrorKind};
use crate::insert_broadcast::is_left_broadcast_safe;
use crate::plan::{
    only, JoinType, Operator, OperatorView, PartitionMode, Partitioning, Plan, PlanView,
};
use std::sync::Arc;
use vstd::prelude::*;

verus! {

impl JoinType {
    /// The type of the join with its sides swapped.
    pub open spec fn swapped(self) -> JoinType {
        match self {
            JoinType::Inner => JoinType::Inner,
            JoinType::Left => JoinType::Right,
            JoinType::Right => JoinType::Left,
            JoinType::Full => JoinType::Full,
            JoinType::LeftSemi => JoinType::RightSemi,
            JoinType::RightSemi => JoinType::LeftSemi,
            JoinType::LeftAnti => JoinType::RightAnti,
            JoinType::RightAnti => JoinType::LeftAnti,
            JoinType::LeftMark => JoinType::RightMark,
            JoinType::RightMark => JoinType::LeftMark,
        }
    }

    /// Whether a join of this type outputs the columns of one of its sides only, so that swapping
    /// its sides does not move columns around.
    pub open spec fn is_one_sided(self) -> bool {
        self is LeftSemi || self is RightSemi || self is LeftAnti || self is RightAnti
            || self is LeftMark || self is RightMark
    }

    pub fn swap(&self) -> (result: JoinType)
        ensures
            result == self.swapped(),
    {
        match self {
            JoinType::Inner => JoinType::Inner,
            JoinType::Left => JoinType::Right,
            JoinType::Right => JoinType::Left,
            JoinType::Full => JoinType::Full,
            JoinType::LeftSemi => JoinType::RightSemi,
            JoinType::RightSemi => JoinType::LeftSemi,
            JoinType::LeftAnti => JoinType::RightAnti,
            JoinType::RightAnti => JoinType::LeftAnti,
            JoinType::LeftMark => JoinType::RightMark,
            JoinType::RightMark => JoinType::LeftMark,
        }
    }

    fn outputs_one_side(&self) -> (result: bool)
        ensures
            result == self.is_one_sided(),
    {
        match self {
            JoinType::LeftSemi => true,
            JoinType::RightSemi => true,
            JoinType::LeftAnti => true,
            JoinType::RightAnti => true,
            JoinType::LeftMark => true,
            JoinType::RightMark => true,
            _ => false,
        }
    }
}

/// Swapping the sides of a join twice gives the join back.
pub proof fn swapping_is_an_involution(join_type: JoinType)
    ensures
        join_type.swapped().swapped() == join_type,
{
}

/// A join that emits rows of its build side and is not a full join has a swapped form whose build
/// side may be copied into every task.
pub proof fn swapping_makes_broadcast_safe(join_type: JoinType)
    requires
        !join_type.left_broadcast_safe(),
        !(join_type is Full),
    ensures
        join_type.swapped().left_broadcast_safe(),
{
}

/// What becomes of a node.
pub enum JoinRewrite {
    /// The node stays as it is.
    Keep,
    /// The collecting hash join partitions both of its sides.
    Partition,
    /// The nested loop join swaps its sides.
    Swap,
}

impl PlanView {
    /// Whether both sides of a join come in a single partition.
    pub open spec fn single_partition_sides(self) -> bool {
        self.children[0].partition_count() == 1 && self.children[1].partition_count() == 1
    }

    /// Whether the node is a join that is rewritten unless both of its sides come in a single
    /// partition.
    pub open spec fn is_rewritable(self, broadcast_joins: bool) -> bool {
        self.children.len() == 2 && match self.op {
            OperatorView::HashJoin { mode, join_type, null_aware, .. } => mode is CollectLeft
                && !join_type.left_broadcast_safe() && !null_aware,
            OperatorView::NestedLoopJoin { join_type, .. } => broadcast_joins
                && !join_type.left_broadcast_safe() && !(join_type is Full),
            _ => false,
        }
    }

    /// What becomes of the node. Joins between single partitions are left alone.
    pub open spec fn rewrite(self, broadcast_joins: bool) -> JoinRewrite {
        if self.is_rewritable(broadcast_joins) && !self.single_partition_sides() {
            if self.op is HashJoin {
                JoinRewrite::Partition
            } else {
                JoinRewrite::Swap
            }
        } else {
            JoinRewrite::Keep
        }
    }

    /// The plan with its joins rewritten from the root downwards.
    pub open spec fn normalized(self, broadcast_joins: bool, target_partitions: usize) -> Result<
        PlanView,
        DistributedErrorView,
    >
        decreases self, 0nat,
    {
        if self.is_rewritable(broadcast_joins) && self.has_uncountable_side() {
            Err(ErrorKind::PartitionCountOverflow.plain())
        } else {
            match self.rewrite(broadcast_joins) {
                JoinRewrite::Keep => match crate::normalize_collect_joins::normalized_all(
                    self.children,
                    broadcast_joins,
                    target_partitions,
                ) {
                    Ok(children) => Ok(self.over(children)),
                    Err(error) => Err(error),
                },
                JoinRewrite::Partition => if self.children[1].partition_count() <= 1 {
                    Err(ErrorKind::SinglePartitionProbe.about(self.op.name()))
                } else {
                    match self.children[0].ungathered_normalized(
                        broadcast_joins,
                        target_partitions,
                    ) {
                        Err(error) => Err(error),
                        Ok(left) => match self.children[1].normalized(
                            broadcast_joins,
                            target_partitions,
                        ) {
                            Err(error) => Err(error),
                            Ok(right) => Ok(self.partitioned_join(left, right, target_partitions)),
                        },
                    }
                },
                JoinRewrite::Swap => match self.children[1].normalized(
                    broadcast_joins,
                    target_partitions,
                ) {
                    Err(error) => Err(error),
                    Ok(right) => match self.children[0].ungathered_normalized(
                        broadcast_joins,
                        target_partitions,
                    ) {
                        Err(error) => Err(error),
                        Ok(left) => Ok(self.swapped_join(left, right)),
                    },
                },
            }
        }
    }

    /// The build side of a join that is rewritten, with its own joins rewritten and without the
    /// node that only gathers its partitions. One that also stops after some rows must stay.
    pub open spec fn ungathered_normalized(
        self,
        broadcast_joins: bool,
        target_partitions: usize,
    ) -> Result<PlanView, DistributedErrorView>
        decreases self, 1nat,
    {
        if self.op == (OperatorView::CoalescePartitions { fetch: None }) && self.children.len()
            > 0 {
            self.children[0].normalized(broadcast_joins, target_partitions)
        } else {
            self.normalized(broadcast_joins, target_partitions)
        }
    }

    /// Whether the partitions of a side of the join are too many to be counted.
    pub open spec fn has_uncountable_side(self) -> bool {
        self.children[0].partition_count() > usize::MAX || self.children[1].partition_count()
            > usize::MAX
    }

    /// The hash join with both sides partitioned by the join keys.
    pub open spec fn partitioned_join(
        self,
        left: PlanView,
        right: PlanView,
        target_partitions: usize,
    ) -> PlanView {
        match self.op {
            OperatorView::HashJoin { join_type, null_aware, left_keys, right_keys, .. } => {
                self.turned_into(
                    OperatorView::HashJoin {
                        mode: PartitionMode::Partitioned,
                        join_type,
                        null_aware,
                        left_keys,
                        right_keys,
                    },
                    seq![
                        crate::plan::new_node(
                            OperatorView::Repartition {
                                partitioning: Partitioning::Hash(left_keys, target_partitions),
                            },
                            seq![left],
                        ),
                        crate::plan::new_node(
                            OperatorView::Repartition {
                                partitioning: Partitioning::Hash(right_keys, target_partitions),
                            },
                            seq![right],
                        ),
                    ],
                )
            },
            _ => self,
        }
    }

    /// The nested loop join with its sides swapped, below a projection that puts the columns back
    /// in order where the swap moves them. A join that picks its columns itself picks them in the
    /// old order.
    pub open spec fn swapped_join(self, left: PlanView, right: PlanView) -> PlanView {
        match self.op {
            OperatorView::NestedLoopJoin { join_type, has_projection } => {
                let join = self.turned_into(
                    OperatorView::NestedLoopJoin {
                        join_type: join_type.swapped(),
                        has_projection,
                    },
                    seq![right, left],
                );
                if join_type.is_one_sided() || has_projection {
                    join
                } else {
                    crate::plan::new_node(OperatorView::RestoreColumnOrder, seq![join])
                }
            },
            _ => self,
        }
    }
}

pub open spec fn normalized_all(
    plans: Seq<PlanView>,
    broadcast_joins: bool,
    target_partitions: usize,
) -> Result<Seq<PlanView>, DistributedErrorView>
    decreases plans, 2nat,
{
    if plans.len() == 0 {
        Ok(Seq::empty())
    } else {
        match normalized_all(plans.drop_last(), broadcast_joins, target_partitions) {
            Err(error) => Err(error),
            Ok(before) => match plans.last().normalized(broadcast_joins, target_partitions) {
                Err(error) => Err(error),
                Ok(plan) => Ok(before.push(plan)),
            },
        }
    }
}

proof fn normalization_error_is_final(
    plans: Seq<PlanView>,
    broadcast_joins: bool,
    target_partitions: usize,
    upto: int,
)
    requires
        0 <= upto <= plans.len(),
        normalized_all(plans.take(upto), broadcast_joins, target_partitions) is Err,
    ensures
        normalized_all(plans, broadcast_joins, target_partitions) == normalized_all(
            plans.take(upto),
            broadcast_joins,
            target_partitions,
        ),
    decreases plans.len() - upto,
{
    if upto == plans.len() {
        assert(plans.take(upto) =~= plans);
    } else {
        assert(plans.take(upto + 1).drop_last() =~= plans.take(upto));
        normalization_error_is_final(plans, broadcast_joins, target_partitions, upto + 1);
    }
}

fn is_rewritable(node: &Plan, broadcast_joins: bool) -> (result: bool)
    ensures
        result == node@.is_rewritable(broadcast_joins),
{
    if node.children.len() != 2 {
        return false;
    }
    match &*node.op {
        Operator::HashJoin { mode, join_type, null_aware, .. } => match mode {
            PartitionMode::CollectLeft => !is_left_broadcast_safe(join_type) && !*null_aware,
            _ => false,
        },
        Operator::NestedLoopJoin { join_type, .. } => match join_type {
            JoinType::Full => false,
            _ => broadcast_joins && !is_left_broadcast_safe(join_type),
        },
        _ => false,
    }
}

fn both_sides_use_single_partition(left: usize, right: usize) -> (result: bool)
    ensures
        result == (left == 1 && right == 1),
{
    left == 1 && right == 1
}

fn normalize_build_side(
    build: &Arc<Plan>,
    broadcast_joins: bool,
    target_partitions: usize,
) -> (result: Result<Arc<Plan>, DistributedError>)
    ensures
        crate::error::viewed(result) == build@.ungathered_normalized(
            broadcast_joins,
            target_partitions,
        ),
    decreases build, 1nat,
{
    let only_gathers = match &*build.op {
        Operator::CoalescePartitions { fetch } => fetch.is_none(),
        _ => false,
    };
    if only_gathers && build.children.len() > 0 {
        proof {
            assert(build@.children[0] == build.children@[0]@);
        }
        normalize_collect_joins(&build.children[0], broadcast_joins, target_partitions)
    } else {
        normalize_collect_joins(build, broadcast_joins, target_partitions)
    }
}

/// The hash join with both sides partitioned by the join keys.
fn collect_left_to_partitioned(
    join: &Plan,
    left: Arc<Plan>,
    right: Arc<Plan>,
    target_partitions: usize,
) -> (result: Arc<Plan>)
    requires
        join@.op is HashJoin,
    ensures
        result@ == join@.partitioned_join(left@, right@, target_partitions),
{
    match &*join.op {
        Operator::HashJoin { mode: _, join_type, null_aware, left_keys, right_keys } => {
            let left = Plan::node(
                Operator::Repartition {
                    partitioning: Partitioning::Hash(Arc::clone(left_keys), target_partitions),
                },
                only(left),
            );
            let right = Plan::node(
                Operator::Repartition {
                    partitioning: Partitioning::Hash(Arc::clone(right_keys), target_partitions),
                },
                only(right),
            );
            let op = Operator::HashJoin {
                mode: PartitionMode::Partitioned,
                join_type: *join_type,
                null_aware: *null_aware,
                left_keys: Arc::clone(left_keys),
                right_keys: Arc::clone(right_keys),
            };
            let mut children: Vec<Arc<Plan>> = Vec::new();
            children.push(left);
            children.push(right);
            let result = join.turn_into(Arc::new(op), children);
            proof {
                assert(result@.children =~= seq![left@, right@]);
            }
            result
        },
        _ => left,
    }
}

/// The nested loop join with its sides swapped.
fn swap_inputs(join: &Plan, left: Arc<Plan>, right: Arc<Plan>) -> (result: Arc<Plan>)
    requires
        join@.op is NestedLoopJoin,
    ensures
        result@ == join@.swapped_join(left@, right@),
{
    match &*join.op {
        Operator::NestedLoopJoin { join_type, has_projection } => {
            let op = Operator::NestedLoopJoin {
                join_type: join_type.swap(),
                has_projection: *has_projection,
            };
            let mut children: Vec<Arc<Plan>> = Vec::new();
            children.push(right);
            children.push(left);
            let swapped = join.turn_into(Arc::new(op), children);
            proof {
                assert(swapped@.children =~= seq![right@, left@]);
            }
            if join_type.outputs_one_side() || *has_projection {
                swapped
            } else {
                Plan::node(Operator::RestoreColumnOrder, only(swapped))
            }
        },
        _ => left,
    }
}

/// Rewrites the joins of a plan that would otherwise be held to a single task. Null-aware joins,
/// full nested loop joins and joins between single partitions have no such form and stay.
pub fn normalize_collect_joins(
    plan: &Arc<Plan>,
    broadcast_joins: bool,
    target_partitions: usize,
) -> (result: Result<Arc<Plan>, DistributedError>)
    ensures
        crate::error::viewed(result) == plan@.normalized(broadcast_joins, target_partitions),
    decreases plan, 0nat,
{
    if is_rewritable(plan, broadcast_joins) {
        let left = &plan.children[0];
        let right = &plan.children[1];
        proof {
            assert(plan@.children[0] == left@);
            assert(plan@.children[1] == right@);
        }
        let left_partitions: usize = left.partition_count()?;
        let right_partitions: usize = right.partition_count()?;
        if !both_sides_use_single_partition(left_partitions, right_partitions) {
            let is_hash_join = match &*plan.op {
                Operator::HashJoin { .. } => true,
                _ => false,
            };
            if is_hash_join {
                if right_partitions <= 1 {
                    return Err(
                        DistributedError::about(ErrorKind::SinglePartitionProbe, plan.op.name()),
                    );
                }
                let new_left = normalize_build_side(left, broadcast_joins, target_partitions)?;
                let new_right = normalize_collect_joins(
                    right,
                    broadcast_joins,
                    target_partitions,
                )?;
                return Ok(
                    collect_left_to_partitioned(plan, new_left, new_right, target_partitions),
                );
            } else {
                let new_right = normalize_collect_joins(
                    right,
                    broadcast_joins,
                    target_partitions,
                )?;
                let new_left = normalize_build_side(left, broadcast_joins, target_partitions)?;
                return Ok(swap_inputs(plan, new_left, new_right));
            }
        }
    }
    let ghost all = plan@.children;
    let mut children: Vec<Arc<Plan>> = Vec::new();
    let mut i: usize = 0;
    proof {
        assert(all.take(0) =~= Seq::<PlanView>::empty());
        assert(crate::plan::views(children@) =~= Seq::<PlanView>::empty());
    }
    while i < plan.children.len()
        invariant
            0 <= i <= plan.children@.len(),
            all == plan@.children,
            all.len() == plan.children@.len(),
            plan@.rewrite(broadcast_joins) is Keep,
            !(plan@.is_rewritable(broadcast_joins) && plan@.has_uncountable_side()),
            normalized_all(all.take(i as int), broadcast_joins, target_partitions) == Ok::<
                _,
                DistributedErrorView,
            >(crate::plan::views(children@)),
        decreases plan.children@.len() - i,
    {
        let child = &plan.children[i];
        proof {
            assert(all[i as int] == child@);
            assert(all.take(i + 1).drop_last() =~= all.take(i as int));
            if normalized_all(all.take(i + 1), broadcast_joins, target_partitions) is Err {
                normalization_error_is_final(all, broadcast_joins, target_partitions, i + 1);
            }
        }
        let normalized = normalize_collect_joins(child, broadcast_joins, target_partitions)?;
        let ghost before = children@;
        children.push(normalized);
        proof {
            assert(crate::plan::views(children@) =~= crate::plan::views(before).push(normalized@));
        }
        i += 1;
    }
    proof {
        assert(all.take(i as int) =~= all);
    }
    Ok(plan.with_new_children(children))
}

impl PlanView {
    /// Whether a join that emits rows of its build side is left, other than those that can neither
    /// be partitioned nor swapped.
    pub open spec fn has_rewritable_join(self, broadcast_joins: bool) -> bool
        decreases self,
    {
        self.is_rewritable(broadcast_joins) || exists|i: int|
            0 <= i < self.children.len() && (#[trigger] self.children[i]).has_rewritable_join(
                broadcast_joins,
            )
    }

    /// Whether such a join is left alone because both of its sides come in a single partition.
    pub open spec fn has_exempt_join(self, broadcast_joins: bool) -> bool
        decreases self,
    {
        self.is_rewritable(broadcast_joins) && self.single_partition_sides() || exists|i: int|
            0 <= i < self.children.len() && (#[trigger] self.children[i]).has_exempt_join(
                broadcast_joins,
            )
    }
}

proof fn no_unsafe_join_is_left_in_any(
    plans: Seq<PlanView>,
    broadcast_joins: bool,
    target_partitions: usize,
)
    requires
        forall|i: int|
            0 <= i < plans.len() ==> !(#[trigger] plans[i]).has_exempt_join(broadcast_joins),
    ensures
        normalized_all(plans, broadcast_joins, target_partitions) matches Ok(results)
            ==> results.len() == plans.len() && forall|i: int|
            0 <= i < results.len() ==> !(#[trigger] results[i]).has_rewritable_join(
                broadcast_joins,
            ),
    decreases plans, 2nat,
{
    if plans.len() > 0 {
        let shorter = plans.drop_last();
        assert forall|i: int| 0 <= i < shorter.len() implies !(
        #[trigger] shorter[i]).has_exempt_join(broadcast_joins) by {
            assert(shorter[i] == plans[i]);
        }
        no_unsafe_join_is_left_in_any(shorter, broadcast_joins, target_partitions);
        assert(!plans[plans.len() - 1].has_exempt_join(broadcast_joins));
        no_unsafe_join_is_left(plans.last(), broadcast_joins, target_partitions);
    }
}

proof fn no_unsafe_join_is_left_below(
    plan: PlanView,
    broadcast_joins: bool,
    target_partitions: usize,
)
    requires
        !plan.has_exempt_join(broadcast_joins),
    ensures
        plan.ungathered_normalized(broadcast_joins, target_partitions) matches Ok(result)
            ==> !result.has_rewritable_join(broadcast_joins),
    decreases plan, 1nat,
{
    if plan.op == (OperatorView::CoalescePartitions { fetch: None }) && plan.children.len() > 0 {
        assert(!plan.children[0].has_exempt_join(broadcast_joins));
        no_unsafe_join_is_left(plan.children[0], broadcast_joins, target_partitions);
    } else {
        no_unsafe_join_is_left(plan, broadcast_joins, target_partitions);
    }
}

/// Where no join is exempt, a plan whose joins were rewritten holds no join that emits rows of its
/// build side and could still be partitioned or swapped.
pub proof fn no_unsafe_join_is_left(
    plan: PlanView,
    broadcast_joins: bool,
    target_partitions: usize,
)
    requires
        !plan.has_exempt_join(broadcast_joins),
    ensures
        plan.normalized(broadcast_joins, target_partitions) matches Ok(result)
            ==> !result.has_rewritable_join(broadcast_joins),
    decreases plan, 0nat,
{
    assert forall|i: int| 0 <= i < plan.children.len() implies !(
    #[trigger] plan.children[i]).has_exempt_join(broadcast_joins) by {}
    if let Ok(result) = plan.normalized(broadcast_joins, target_partitions) {
        match plan.rewrite(broadcast_joins) {
            JoinRewrite::Keep => {
                no_unsafe_join_is_left_in_any(plan.children, broadcast_joins, target_partitions);
            },
            JoinRewrite::Partition => {
                let left = plan.children[0];
                let right = plan.children[1];
                no_unsafe_join_is_left_below(left, broadcast_joins, target_partitions);
                no_unsafe_join_is_left(right, broadcast_joins, target_partitions);
                reveal_with_fuel(PlanView::has_rewritable_join, 3);
            },
            JoinRewrite::Swap => {
                let left = plan.children[0];
                let right = plan.children[1];
                no_unsafe_join_is_left(right, broadcast_joins, target_partitions);
                no_unsafe_join_is_left_below(left, broadcast_joins, target_partitions);
                reveal_with_fuel(PlanView::has_rewritable_join, 3);
            },
        }
    }
}

} // verus!

//! What the passes that prepare joins leave of a plan, told by the rows that joins hand out and by
//! the fields of their nodes.
use crate::error::{DistributedErrorView, ErrorKind};
use crate::plan::{Expr, JoinType, OperatorView, PartitionMode, Partitioning, PlanView};
use std::sync::Arc;
use vstd::prelude::*;

verus! {

impl JoinType {
    /// Whether a join of this type hands out a row for each pair of rows that match.
    pub open spec fn hands_out_pairs(self) -> bool {
        self is Inner || self is Left || self is Right || self is Full
    }

    /// Whether a join of this type hands out a row of its left side on its own, given whether some
    /// row of the right side matches it.
    pub open spec fn hands_out_left(self, matched: bool) -> bool {
        match self {
            JoinType::Left => !matched,
            JoinType::Full => !matched,
            JoinType::LeftSemi => matched,
            JoinType::LeftAnti => !matched,
            JoinType::LeftMark => true,
            _ => false,
        }
    }

    /// Whether a join of this type hands out a row of its right side on its own, given whether some
    /// row of the left side matches it.
    pub open spec fn hands_out_right(self, matched: bool) -> bool {
        match self {
            JoinType::Right => !matched,
            JoinType::Full => !matched,
            JoinType::RightSemi => matched,
            JoinType::RightAnti => !matched,
            JoinType::RightMark => true,
            _ => false,
        }
    }
}

/// In how many tasks a row of the left side is handed out on its own, where every task holds all of
/// the left side and a slice of the right side. `matches` tells for each task whether a row of its
/// slice matches.
pub open spec fn times_handed_out(join_type: JoinType, matches: Seq<bool>) -> nat
    decreases matches.len(),
{
    if matches.len() == 0 {
        0
    } else {
        times_handed_out(join_type, matches.drop_last()) + if join_type.hands_out_left(
            matches.last(),
        ) {
            1nat
        } else {
            0nat
        }
    }
}

proof fn every_copy_is_handed_out(join_type: JoinType, matches: Seq<bool>, matched: bool)
    requires
        forall|i: int| 0 <= i < matches.len() ==> matches[i] == matched,
    ensures
        times_handed_out(join_type, matches) == (if join_type.hands_out_left(matched) {
            matches.len()
        } else {
            0
        }),
    decreases matches.len(),
{
    if matches.len() > 0 {
        every_copy_is_handed_out(join_type, matches.drop_last(), matched);
        assert(matches[matches.len() - 1] == matched);
    }
}

proof fn no_copy_is_handed_out(join_type: JoinType, matches: Seq<bool>)
    requires
        forall|matched: bool| !join_type.hands_out_left(matched),
    ensures
        times_handed_out(join_type, matches) == 0,
    decreases matches.len(),
{
    if matches.len() > 0 {
        no_copy_is_handed_out(join_type, matches.drop_last());
    }
}

/// The left side of a join may be copied into several tasks exactly where that hands out the same
/// rows as one task does, whichever rows match in which task.
pub proof fn copies_are_safe_where_rows_come_out_once(join_type: JoinType, tasks: nat)
    requires
        tasks > 1,
    ensures
        join_type.left_broadcast_safe() <==> forall|matches: Seq<bool>|
            matches.len() == tasks ==> #[trigger] times_handed_out(join_type, matches) == (
            if join_type.hands_out_left(matches.contains(true)) {
                1nat
            } else {
                0nat
            }),
        join_type.left_broadcast_safe() <==> !(join_type is Left || join_type is Full || join_type
            is LeftSemi || join_type is LeftAnti || join_type is LeftMark),
{
    if join_type.left_broadcast_safe() {
        assert forall|matches: Seq<bool>| matches.len() == tasks implies #[trigger] times_handed_out(
            join_type,
            matches,
        ) == (if join_type.hands_out_left(matches.contains(true)) {
            1nat
        } else {
            0nat
        }) by {
            no_copy_is_handed_out(join_type, matches);
        }
    } else {
        let matched = join_type is LeftSemi;
        let matches = Seq::new(tasks, |i: int| matched);
        every_copy_is_handed_out(join_type, matches, matched);
        if matched {
            assert(matches[0]);
        } else {
            assert(!matches.contains(true));
        }
        assert(times_handed_out(join_type, matches) == tasks);
    }
}

/// A join with its sides swapped hands out the same rows, with their sides swapped. It hands out
/// rows of one side only exactly where it hands out no pairs.
pub proof fn swapping_mirrors_rows(join_type: JoinType, matched: bool)
    ensures
        join_type.swapped().hands_out_pairs() == join_type.hands_out_pairs(),
        join_type.swapped().hands_out_left(matched) == join_type.hands_out_right(matched),
        join_type.swapped().hands_out_right(matched) == join_type.hands_out_left(matched),
        join_type.is_one_sided() == !join_type.hands_out_pairs(),
        join_type.swapped() is LeftMark <==> join_type is RightMark,
{
}

impl PlanView {
    /// Whether the plan spreads its only input over this many partitions by the values of these
    /// expressions.
    pub open spec fn spreads_by(self, keys: Arc<Vec<Expr>>, partitions: usize) -> bool {
        self.op == (OperatorView::Repartition { partitioning: Partitioning::Hash(keys, partitions) })
            && self.children.len() == 1
    }

    /// Whether the plan only gathers the partitions of its input, without stopping early.
    pub open spec fn only_gathers(self) -> bool {
        self.op == (OperatorView::CoalescePartitions { fetch: None }) && self.children.len() > 0
    }

    /// Whether the node has two inputs, not both of which come in a single partition.
    pub open spec fn has_spread_inputs(self) -> bool {
        self.children.len() == 2 && (self.children[0].partition_count() != 1
            || self.children[1].partition_count() != 1)
    }

    /// Whether the node is a hash join that collects its left side and hands out rows of it.
    pub open spec fn collects_what_it_hands_out(self) -> bool {
        self.op matches OperatorView::HashJoin {
            mode: PartitionMode::CollectLeft,
            join_type,
            null_aware: false,
            ..
        } && (join_type is Left || join_type is Full || join_type is LeftSemi || join_type
            is LeftAnti || join_type is LeftMark)
    }

    /// Whether the node is a nested loop join that hands out rows of its left side, and of its
    /// right side only together with those.
    pub open spec fn loops_over_what_it_hands_out(self) -> bool {
        self.op matches OperatorView::NestedLoopJoin { join_type, .. } && (join_type is Left
            || join_type is LeftSemi || join_type is LeftAnti || join_type is LeftMark)
    }

    /// Whether the plan does what the other one does, with the joins rewritten that would be held
    /// to a single task. A hash join that hands out rows of the side that it collects reads both of
    /// its sides, in their order, from repartitions by its own left and right keys. A nested loop
    /// join of that kind reads its sides the other way round, and its columns are put back in order
    /// unless it hands out one side or picks its columns itself. Nodes that only gathered the
    /// partitions of such a left side are gone. Everything else is in its place.
    pub open spec fn is_rewrite_of(
        self,
        plan: PlanView,
        broadcast_joins: bool,
        partitions: usize,
    ) -> bool
        decreases plan,
    {
        let left = plan.children[0];
        let right = plan.children[1];
        if plan.has_spread_inputs() && plan.collects_what_it_hands_out() {
            &&& self.op == (OperatorView::HashJoin {
                mode: PartitionMode::Partitioned,
                join_type: plan.op->HashJoin_join_type,
                null_aware: false,
                left_keys: plan.op->left_keys,
                right_keys: plan.op->right_keys,
            })
            &&& self.facts == plan.facts
            &&& self.children.len() == 2
            &&& self.children[0].spreads_by(plan.op->left_keys, partitions)
            &&& self.children[1].spreads_by(plan.op->right_keys, partitions)
            &&& if left.only_gathers() {
                self.children[0].children[0].is_rewrite_of(
                    left.children[0],
                    broadcast_joins,
                    partitions,
                )
            } else {
                self.children[0].children[0].is_rewrite_of(left, broadcast_joins, partitions)
            }
            &&& self.children[1].children[0].is_rewrite_of(right, broadcast_joins, partitions)
        } else if broadcast_joins && plan.has_spread_inputs()
            && plan.loops_over_what_it_hands_out() {
            let join_type = plan.op->NestedLoopJoin_join_type;
            let reordered = join_type is Left && !plan.op->has_projection;
            let join = if reordered {
                self.children[0]
            } else {
                self
            };
            &&& reordered ==> self.op is RestoreColumnOrder && self.children.len() == 1
            &&& join.op == (OperatorView::NestedLoopJoin {
                join_type: match join_type {
                    JoinType::Left => JoinType::Right,
                    JoinType::LeftSemi => JoinType::RightSemi,
                    JoinType::LeftAnti => JoinType::RightAnti,
                    _ => JoinType::RightMark,
                },
                has_projection: plan.op->has_projection,
            })
            &&& join.facts == plan.facts
            &&& join.children.len() == 2
            &&& join.children[0].is_rewrite_of(right, broadcast_joins, partitions)
            &&& if left.only_gathers() {
                join.children[1].is_rewrite_of(left.children[0], broadcast_joins, partitions)
            } else {
                join.children[1].is_rewrite_of(left, broadcast_joins, partitions)
            }
        } else {
            &&& self.op == plan.op
            &&& self.facts == plan.facts
            &&& self.variants == plan.variants
            &&& self.children.len() == plan.children.len()
            &&& forall|i: int|
                0 <= i < plan.children.len() ==> (#[trigger] self.children[i]).is_rewrite_of(
                    plan.children[i],
                    broadcast_joins,
                    partitions,
                )
        }
    }
}

proof fn all_joins_are_rewritten(plans: Seq<PlanView>, broadcast_joins: bool, partitions: usize)
    ensures
        crate::normalize_collect_joins::normalized_all(plans, broadcast_joins, partitions) matches Ok(
            results,
        ) ==> results.len() == plans.len() && forall|i: int|
            0 <= i < plans.len() ==> (#[trigger] results[i]).is_rewrite_of(
                plans[i],
                broadcast_joins,
                partitions,
            ),
    decreases plans, 2nat,
{
    if plans.len() > 0 {
        all_joins_are_rewritten(plans.drop_last(), broadcast_joins, partitions);
        joins_are_rewritten(plans.last(), broadcast_joins, partitions);
        if let Ok(results) = crate::normalize_collect_joins::normalized_all(
            plans,
            broadcast_joins,
            partitions,
        ) {
            assert forall|i: int| 0 <= i < plans.len() implies (
            #[trigger] results[i]).is_rewrite_of(plans[i], broadcast_joins, partitions) by {
                if i < plans.len() - 1 {
                    assert(plans.drop_last()[i] == plans[i]);
                }
            }
        }
    }
}

/// A plan whose joins were rewritten does what it did, and every join that would be held to a
/// single task for handing out rows of the side that it collects was rewritten.
pub proof fn joins_are_rewritten(plan: PlanView, broadcast_joins: bool, partitions: usize)
    ensures
        plan.normalized(broadcast_joins, partitions) matches Ok(result) ==> result.is_rewrite_of(
            plan,
            broadcast_joins,
            partitions,
        ),
    decreases plan, 0nat,
{
    if let Ok(result) = plan.normalized(broadcast_joins, partitions) {
        if plan.has_spread_inputs() && (plan.collects_what_it_hands_out()
            || plan.loops_over_what_it_hands_out() && broadcast_joins) {
            let left = plan.children[0];
            let right = plan.children[1];
            joins_are_rewritten(right, broadcast_joins, partitions);
            if left.only_gathers() {
                joins_are_rewritten(left.children[0], broadcast_joins, partitions);
            } else {
                joins_are_rewritten(left, broadcast_joins, partitions);
            }
            let new_left = left.ungathered_normalized(broadcast_joins, partitions)->Ok_0;
            let new_right = right.normalized(broadcast_joins, partitions)->Ok_0;
            assert(plan.is_rewritable(broadcast_joins) && !plan.single_partition_sides());
            if plan.collects_what_it_hands_out() {
                assert(result == plan.partitioned_join(new_left, new_right, partitions));
                assert(result.children[0].children[0] == new_left);
                assert(result.children[1].children[0] == new_right);
            } else {
                assert(result == plan.swapped_join(new_left, new_right));
            }
        } else {
            all_joins_are_rewritten(plan.children, broadcast_joins, partitions);
        }
    }
}

/// Whether the error tells what keeps a join from being rewritten: that the side that it does not
/// collect comes in one partition, or that a side has more partitions than can be counted.
pub open spec fn tells_of(error: DistributedErrorView, node: PlanView) -> bool {
    &&& node.children.len() == 2
    &&& node.collects_what_it_hands_out() || node.loops_over_what_it_hands_out()
    &&& if node.children[0].partition_count() > usize::MAX || node.children[1].partition_count()
        > usize::MAX {
        error == ErrorKind::PartitionCountOverflow.plain()
    } else {
        node.has_spread_inputs() && node.collects_what_it_hands_out()
            && node.children[1].partition_count() <= 1 && error
            == ErrorKind::SinglePartitionProbe.about(node.op.name())
    }
}

proof fn failures_below_name_a_join(
    plan: PlanView,
    child: int,
    error: DistributedErrorView,
)
    requires
        0 <= child < plan.children.len(),
        exists|path: Seq<int>| #[trigger]
            plan.children[child].leads(path) && tells_of(error, plan.children[child].at(path)),
    ensures
        exists|path: Seq<int>| #[trigger] plan.leads(path) && tells_of(error, plan.at(path)),
{
    let path = choose|path: Seq<int>| #[trigger]
        plan.children[child].leads(path) && tells_of(error, plan.children[child].at(path));
    crate::plan_paths::ways_start_with_a_child(plan, child, path);
    assert(plan.leads(seq![child] + path));
}

proof fn failures_of_lists_name_a_join(
    plans: Seq<PlanView>,
    broadcast_joins: bool,
    partitions: usize,
)
    ensures
        crate::normalize_collect_joins::normalized_all(plans, broadcast_joins, partitions) matches Err(
            error,
        ) ==> exists|child: int, path: Seq<int>|
            0 <= child < plans.len() && #[trigger] plans[child].leads(path) && tells_of(
                error,
                plans[child].at(path),
            ),
    decreases plans, 2nat,
{
    if plans.len() > 0 {
        let shorter = plans.drop_last();
        failures_of_lists_name_a_join(shorter, broadcast_joins, partitions);
        failures_name_a_join(plans.last(), broadcast_joins, partitions);
        if let Err(error) = crate::normalize_collect_joins::normalized_all(
            plans,
            broadcast_joins,
            partitions,
        ) {
            if crate::normalize_collect_joins::normalized_all(shorter, broadcast_joins, partitions)
                is Err {
                let (child, path) = choose|child: int, path: Seq<int>|
                    0 <= child < shorter.len() && #[trigger] shorter[child].leads(path) && tells_of(
                        error,
                        shorter[child].at(path),
                    );
                assert(plans[child].leads(path));
            } else {
                let path = choose|path: Seq<int>| #[trigger]
                    plans.last().leads(path) && tells_of(error, plans.last().at(path));
                assert(plans[plans.len() - 1].leads(path));
            }
        }
    }
}

/// Where the joins of a plan cannot be rewritten, a join of the plan is the reason.
pub proof fn failures_name_a_join(plan: PlanView, broadcast_joins: bool, partitions: usize)
    ensures
        plan.normalized(broadcast_joins, partitions) matches Err(error) ==> exists|path: Seq<int>|
            #[trigger] plan.leads(path) && tells_of(error, plan.at(path)),
    decreases plan, 0nat,
{
    if let Err(error) = plan.normalized(broadcast_joins, partitions) {
        let here = Seq::<int>::empty();
        assert(plan.leads(here) && plan.at(here) == plan);
        if plan.children.len() == 2 && plan.is_rewritable(broadcast_joins) && (
        plan.has_uncountable_side() || plan.has_spread_inputs()) {
            if !tells_of(error, plan) {
                let left = plan.children[0];
                assert(plan.collects_what_it_hands_out() || plan.loops_over_what_it_hands_out());
                assert(left.ungathered_normalized(broadcast_joins, partitions) == Err::<
                    PlanView,
                    _,
                >(error) || plan.children[1].normalized(broadcast_joins, partitions) == Err::<
                    PlanView,
                    _,
                >(error));
                failures_name_a_join(plan.children[1], broadcast_joins, partitions);
                failures_name_a_join(left, broadcast_joins, partitions);
                if left.only_gathers() {
                    failures_name_a_join(left.children[0], broadcast_joins, partitions);
                    if left.children[0].normalized(broadcast_joins, partitions) == Err::<
                        PlanView,
                        _,
                    >(error) {
                        failures_below_name_a_join(left, 0, error);
                        failures_below_name_a_join(plan, 0, error);
                    } else {
                        failures_below_name_a_join(plan, 1, error);
                    }
                } else if left.normalized(broadcast_joins, partitions) == Err::<PlanView, _>(
                    error,
                ) {
                    failures_below_name_a_join(plan, 0, error);
                } else {
                    failures_below_name_a_join(plan, 1, error);
                }
            }
        } else {
            failures_of_lists_name_a_join(plan.children, broadcast_joins, partitions);
            let (child, path) = choose|child: int, path: Seq<int>|
                0 <= child < plan.children.len() && #[trigger] plan.children[child].leads(path)
                    && tells_of(error, plan.children[child].at(path));
            failures_below_name_a_join(plan, child, error);
        }
    }
}

impl PlanView {
    /// Whether the node is a join that holds all rows of its left side in memory and hands out none
    /// of them on their own.
    pub open spec fn looks_up_its_left_side(self) -> bool {
        match self.op {
            OperatorView::HashJoin { mode, join_type, .. } => mode is CollectLeft && !(join_type
                is Left || join_type is Full || join_type is LeftSemi || join_type is LeftAnti
                || join_type is LeftMark),
            OperatorView::NestedLoopJoin { join_type, .. } => !(join_type is Left || join_type
                is Full || join_type is LeftSemi || join_type is LeftAnti || join_type is LeftMark),
            OperatorView::CrossJoin => true,
            _ => false,
        }
    }

    /// Whether the plan is a broadcast of its only input, for one task so far.
    pub open spec fn broadcasts_once(self) -> bool {
        self.op == (OperatorView::Broadcast { consumer_tasks: 1 }) && self.children.len() == 1
    }

    /// Whether the plan does what the other one does, with a broadcast below every join that only
    /// looks rows of its left side up: between the node that gathers the partitions of that side,
    /// which keeps stopping where it stopped, and what it gathers. Where the side had no such node
    /// it has one now. Everything else is in its place.
    pub open spec fn broadcasts_sides_of(self, plan: PlanView) -> bool
        decreases plan,
    {
        &&& self.op == plan.op
        &&& self.facts == plan.facts
        &&& self.variants == plan.variants
        &&& self.children.len() == plan.children.len()
        &&& forall|i: int|
            #![trigger self.children[i]]
            0 <= i < plan.children.len() ==> {
                let side = self.children[i];
                let input = plan.children[i];
                if i == 0 && plan.looks_up_its_left_side() {
                    &&& side.children.len() == 1
                    &&& side.children[0].broadcasts_once()
                    &&& if input.op is CoalescePartitions && input.children.len() > 0 {
                        side.op == input.op && side.facts == input.facts
                            && side.children[0].children[0].broadcasts_sides_of(input.children[0])
                    } else {
                        side.op == (OperatorView::CoalescePartitions { fetch: None })
                            && side.children[0].children[0].broadcasts_sides_of(input)
                    }
                } else {
                    side.broadcasts_sides_of(input)
                }
            }
    }
}

/// A plan with broadcasts does what it did, and every join that only looks rows of its left side up
/// reads that side from a broadcast.
pub proof fn sides_are_broadcast(plan: PlanView)
    ensures
        plan.with_broadcasts().broadcasts_sides_of(plan),
    decreases plan,
{
    let result = plan.with_broadcasts();
    assert forall|i: int|
        #![trigger result.children[i]]
        0 <= i < plan.children.len() implies {
        let side = result.children[i];
        let input = plan.children[i];
        if i == 0 && plan.looks_up_its_left_side() {
            &&& side.children.len() == 1
            &&& side.children[0].broadcasts_once()
            &&& if input.op is CoalescePartitions && input.children.len() > 0 {
                side.op == input.op && side.facts == input.facts
                    && side.children[0].children[0].broadcasts_sides_of(input.children[0])
            } else {
                side.op == (OperatorView::CoalescePartitions { fetch: None })
                    && side.children[0].children[0].broadcasts_sides_of(input)
            }
        } else {
            side.broadcasts_sides_of(input)
        }
    } by {
        let input = plan.children[i];
        assert(plan.op.can_broadcast_left() == plan.looks_up_its_left_side());
        if i == 0 && plan.looks_up_its_left_side() {
            assert(result.children[0] == input.build_side_broadcast());
            if input.op is CoalescePartitions && input.children.len() > 0 {
                sides_are_broadcast(input.children[0]);
            } else {
                sides_are_broadcast(input);
            }
        } else {
            assert(result.children[i] == input.with_broadcasts());
            sides_are_broadcast(input);
        }
    }
}

} // verus!

//! How many tasks a stage gets, told by what its nodes ask for and by what they cost.
use crate::error::ErrorKind;
use crate::inject_network_boundaries::InjectNetworkBoundaryContext;
use crate::plan::PlanView;
use crate::task_count::TaskCountAnnotation;
use vstd::prelude::*;

verus! {

/// What two nodes of a stage agree on is a limit exactly where one of them has one. It is one of
/// the two counts, it is within both limits, and where there is no limit it is as high as both
/// wishes.
pub proof fn agreements_respect_both(a: TaskCountAnnotation, b: TaskCountAnnotation)
    ensures
        a.merged(b) is Maximum <==> a is Maximum || b is Maximum,
        a.merged(b) == a || a.merged(b) == b,
        a matches TaskCountAnnotation::Maximum(n) ==> a.merged(b)->Maximum_0 <= n,
        b matches TaskCountAnnotation::Maximum(n) ==> a.merged(b)->Maximum_0 <= n,
        a.merged(b) matches TaskCountAnnotation::Desired(n) ==> a->Desired_0 <= n && b->Desired_0
            <= n,
{
}

/// A count that is limited keeps its nature, exceeds neither the limit nor itself, and is one of
/// the two.
pub proof fn limits_are_respected(a: TaskCountAnnotation, limit: usize)
    ensures
        a.limited(limit) is Maximum <==> a is Maximum,
        a.limited(limit).count() <= limit,
        a.limited(limit).count() <= a.count(),
        a.limited(limit).count() == limit || a.limited(limit) == a,
        a matches TaskCountAnnotation::Desired(n) ==> a.count() == n,
        a matches TaskCountAnnotation::Maximum(n) ==> a.count() == n,
{
}

/// Whether the count is the first one or that of one of the plans.
pub open spec fn is_among(
    start: TaskCountAnnotation,
    plans: Seq<PlanView>,
    count: TaskCountAnnotation,
) -> bool {
    count == start || exists|i: int|
        0 <= i < plans.len() && (#[trigger] plans[i]).task_count == Some(count)
}

/// Whether a count is what the nodes of a stage agree on within a limit: the lowest of the limits,
/// or where there is none the highest of the wishes.
pub open spec fn is_agreed(
    result: TaskCountAnnotation,
    limit: usize,
    start: TaskCountAnnotation,
    plans: Seq<PlanView>,
) -> bool {
    match result {
        TaskCountAnnotation::Maximum(n) => {
            &&& n <= limit
            &&& forall|count: TaskCountAnnotation|
                #[trigger] is_among(start, plans, count) && count is Maximum ==> n
                    <= count->Maximum_0
            &&& exists|count: TaskCountAnnotation|
                #[trigger] is_among(start, plans, count) && count is Maximum && (n
                    == count->Maximum_0 || n == limit)
        },
        TaskCountAnnotation::Desired(n) => {
            &&& n <= limit
            &&& forall|count: TaskCountAnnotation|
                #[trigger] is_among(start, plans, count) ==> count is Desired && (
                count->Desired_0 <= n || n == limit)
            &&& exists|count: TaskCountAnnotation|
                #[trigger] is_among(start, plans, count) && (n == count->Desired_0 || n == limit)
        },
    }
}

proof fn merging_agrees(start: TaskCountAnnotation, plans: Seq<PlanView>)
    requires
        forall|i: int| 0 <= i < plans.len() ==> (#[trigger] plans[i]).task_count is Some,
    ensures
        ({
            let merged = crate::inject_network_boundaries::merged_tasks(start, plans);
            &&& is_among(start, plans, merged)
            &&& merged matches TaskCountAnnotation::Maximum(n) ==> forall|count: TaskCountAnnotation|
                #[trigger] is_among(start, plans, count) && count is Maximum ==> n
                    <= count->Maximum_0
            &&& merged matches TaskCountAnnotation::Desired(n) ==> forall|count: TaskCountAnnotation|
                #[trigger] is_among(start, plans, count) ==> count is Desired && count->Desired_0
                    <= n
        }),
    decreases plans.len(),
{
    if plans.len() > 0 {
        let shorter = plans.drop_last();
        assert forall|i: int| 0 <= i < shorter.len() implies (
        #[trigger] shorter[i]).task_count is Some by {
            assert(shorter[i] == plans[i]);
        }
        merging_agrees(start, shorter);
        let last = plans[plans.len() - 1];
        assert(last == plans.last() && last.task_count is Some);
        let before = crate::inject_network_boundaries::merged_tasks(start, shorter);
        let merged = crate::inject_network_boundaries::merged_tasks(start, plans);
        agreements_respect_both(before, last.task_count->Some_0);
        assert forall|count: TaskCountAnnotation| is_among(start, plans, count) == (is_among(
            start,
            shorter,
            count,
        ) || last.task_count == Some(count)) by {
            if is_among(start, shorter, count) && count != start {
                let i = choose|i: int|
                    0 <= i < shorter.len() && (#[trigger] shorter[i]).task_count == Some(count);
                assert(plans[i].task_count == Some(count));
            }
            if is_among(start, plans, count) && count != start {
                let i = choose|i: int|
                    0 <= i < plans.len() && (#[trigger] plans[i]).task_count == Some(count);
                if i < shorter.len() {
                    assert(shorter[i].task_count == Some(count));
                }
            }
        }
        assert(is_among(start, plans, last.task_count->Some_0));
    } else {
        assert(is_among(start, plans, start));
    }
}

proof fn counts_are_there(plans: Seq<PlanView>)
    ensures
        crate::inject_network_boundaries::missing_task_count(plans) is None <==> forall|i: int|
            0 <= i < plans.len() ==> (#[trigger] plans[i]).task_count is Some,
        crate::inject_network_boundaries::missing_task_count(plans) matches Some(error)
            ==> exists|i: int|
            0 <= i < plans.len() && (#[trigger] plans[i]).task_count is None && error
                == ErrorKind::MissingTaskCount.about(plans[i].op.name()),
    decreases plans.len(),
{
    if plans.len() > 0 {
        let shorter = plans.drop_last();
        counts_are_there(shorter);
        assert(forall|i: int| 0 <= i < shorter.len() ==> #[trigger] shorter[i] == plans[i]);
        assert(plans[plans.len() - 1] == plans.last());
        if crate::inject_network_boundaries::missing_task_count(plans) is None {
            assert forall|i: int| 0 <= i < plans.len() implies (
            #[trigger] plans[i]).task_count is Some by {
                if i < shorter.len() {
                    assert(shorter[i].task_count is Some);
                }
            }
        } else if crate::inject_network_boundaries::missing_task_count(shorter) is Some {
            let error = crate::inject_network_boundaries::missing_task_count(shorter)->Some_0;
            let i = choose|i: int|
                0 <= i < shorter.len() && (#[trigger] shorter[i]).task_count is None && error
                    == ErrorKind::MissingTaskCount.about(shorter[i].op.name());
            assert(plans[i].task_count is None);
        }
    }
}

/// The tasks that plans have together.
pub open spec fn tasks_together(plans: Seq<PlanView>) -> int {
    plans.fold_left(
        0int,
        |sum: int, plan: PlanView|
            sum + match plan.task_count->Some_0 {
                TaskCountAnnotation::Desired(n) => n as int,
                TaskCountAnnotation::Maximum(n) => n as int,
            },
    )
}

proof fn totals_are_sums(plans: Seq<PlanView>)
    ensures
        crate::inject_network_boundaries::total_tasks(plans) == tasks_together(plans),
    decreases plans.len(),
{
    if plans.len() > 0 {
        totals_are_sums(plans.drop_last());
    }
}

/// A node gets the count that it and its children agree on, within the limit for stages. A union
/// whose children are isolated gets as many tasks as its children have together, and a join that
/// must run alone a single one. Without the counts of its children there is none to agree on.
pub proof fn inner_counts_are_agreed(
    ctx: InjectNetworkBoundaryContext,
    node: PlanView,
    children: Seq<PlanView>,
)
    ensures
        ({
            let start = if node.facts is Some && node.facts->Some_0.estimate is Some {
                node.facts->Some_0.estimate->Some_0
            } else {
                TaskCountAnnotation::Desired(1)
            };
            let isolated = ctx.children_isolator_unions && node.op is Union;
            let alone = !isolated && crate::stage_laws::must_run_alone(
                node.op,
                ctx.broadcast_joins,
            );
            match ctx.inner_count(node, children) {
                Ok(result) => {
                    &&& isolated ==> result is Desired && result->Desired_0 as int == (
                    if tasks_together(children) <= ctx.max_tasks as int {
                        tasks_together(children)
                    } else {
                        ctx.max_tasks as int
                    })
                    &&& alone ==> result is Maximum && result->Maximum_0 <= 1 && (ctx.max_tasks >= 1
                        ==> result->Maximum_0 == 1)
                    &&& !isolated && !alone ==> is_agreed(result, ctx.max_tasks, start, children)
                },
                Err(error) => !alone && exists|i: int|
                    0 <= i < children.len() && (#[trigger] children[i]).task_count is None && error
                        == ErrorKind::MissingTaskCount.about(children[i].op.name()),
            }
        }),
{
    let start = match node.estimate() {
        Some(estimate) => estimate,
        None => TaskCountAnnotation::Desired(1),
    };
    counts_are_there(children);
    totals_are_sums(children);
    if let Ok(result) = ctx.inner_count(node, children) {
        if !(ctx.children_isolator_unions && node.op is Union)
            && !crate::stage_laws::must_run_alone(node.op, ctx.broadcast_joins) {
            merging_agrees(start, children);
            let merged = crate::inject_network_boundaries::merged_tasks(start, children);
            limits_are_respected(merged, ctx.max_tasks);
            assert(is_among(start, children, merged));
        }
    }
}

/// A leaf gets what the estimators ask for, within the limit for stages. One that no estimator
/// knows runs in a single task.
pub proof fn leaf_counts_are_estimates(ctx: InjectNetworkBoundaryContext, leaf: PlanView)
    ensures
        ({
            let count = ctx.leaf_count(leaf);
            match leaf.facts {
                Some(facts) => match facts.estimate {
                    Some(TaskCountAnnotation::Desired(n)) => count is Desired && count->Desired_0
                        <= n && count->Desired_0 <= ctx.max_tasks && (count->Desired_0 == n
                        || count->Desired_0 == ctx.max_tasks),
                    Some(TaskCountAnnotation::Maximum(n)) => count is Maximum && count->Maximum_0
                        <= n && count->Maximum_0 <= ctx.max_tasks && (count->Maximum_0 == n
                        || count->Maximum_0 == ctx.max_tasks),
                    None => count == TaskCountAnnotation::Maximum(1),
                },
                None => count == TaskCountAnnotation::Maximum(1),
            }
        }),
{
}

/// A stage gets just enough tasks for what it costs: so many that each of their partitions works
/// through no more bytes than it should, and no task less would do. It has at least one task, and
/// no more than the limit.
pub proof fn costs_decide_tasks(
    ctx: InjectNetworkBoundaryContext,
    cost: usize,
    bytes_per_partition: usize,
    partitions: usize,
)
    requires
        partitions > 0,
        ctx.max_tasks >= 1,
    ensures
        ({
            let tasks = ctx.tasks_for_cost(cost, bytes_per_partition, partitions) as int;
            let per_partition = if bytes_per_partition == 0 {
                1int
            } else {
                bytes_per_partition as int
            };
            &&& 1 <= tasks <= ctx.max_tasks
            &&& tasks < ctx.max_tasks ==> tasks * partitions * per_partition >= cost
            &&& tasks > 1 ==> (tasks - 1) * partitions * per_partition < cost
        }),
{
    let b = if bytes_per_partition == 0 {
        1usize
    } else {
        bytes_per_partition
    };
    assert(b == crate::task_count::max_of(bytes_per_partition, 1));
    let q = crate::inject_network_boundaries::div_ceil(cost, b);
    let r = crate::inject_network_boundaries::div_ceil(q, partitions);
    quotients_round_up(cost, b);
    quotients_round_up(q, partitions);
    let tasks = ctx.tasks_for_cost(cost, bytes_per_partition, partitions) as int;
    if tasks < ctx.max_tasks {
        assert(tasks >= r);
        assert(tasks * partitions * b >= cost) by (nonlinear_arith)
            requires
                tasks >= r,
                r * partitions >= q,
                q * b >= cost,
                partitions > 0,
                b > 0,
        ;
    }
    if tasks > 1 {
        assert(tasks <= r);
        assert((tasks - 1) * partitions * b < cost) by (nonlinear_arith)
            requires
                1 < tasks <= r,
                (r - 1) * partitions < q,
                (q - 1) * b < cost,
                partitions > 0,
                b > 0,
        ;
    }
}

/// A quotient that is rounded up is the least number that, taken so many times, is enough.
pub proof fn quotients_round_up(a: usize, b: usize)
    requires
        b > 0,
    ensures
        ({
            let q = crate::inject_network_boundaries::div_ceil(a, b) as int;
            &&& q * b >= a
            &&& q > 0 ==> (q - 1) * b < a
        }),
{
    vstd::arithmetic::div_mod::lemma_fundamental_div_mod(a as int, b as int);
    let d = a as int / b as int;
    let m = a as int % b as int;
    assert(a as int == b as int * d + m);
    assert(0 <= m < b) by {
        vstd::arithmetic::div_mod::lemma_mod_bound(a as int, b as int);
    }
    if m == 0 {
        assert(d * b >= a && (d > 0 ==> (d - 1) * b < a)) by (nonlinear_arith)
            requires
                a == b * d,
                b > 0,
        ;
    } else {
        assert(d + 1 <= a) by (nonlinear_arith)
            requires
                a == b * d + m,
                m > 0,
                b > 0,
                d >= 0,
        ;
        assert((d + 1) * b >= a && d * b < a) by (nonlinear_arith)
            requires
                a == b * d + m,
                0 < m < b,
        ;
    }
}

} // verus!

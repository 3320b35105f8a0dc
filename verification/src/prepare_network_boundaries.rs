//! Prepares the network boundaries of a plan for execution. A boundary between two single tasks is
//! taken out. The stage below each of the others is topped by the node that feeds all of its
//! consumer tasks, and gets a number of its own.
use crate::error::{DistributedError, DistributedErrorView, ErrorKind};
use crate::ids::Uuid;
use crate::network_boundary::ProducerHead;
use crate::plan::{
    only, share_properties, DistributedTaskContext, Operator, OperatorView, Partitioning, Plan, PlanView, Stage,
    StageView,
};
use crate::validate_stages::child_task_count;
use std::sync::Arc;
use vstd::prelude::*;

verus! {

impl OperatorView {
    /// In how many tasks the child with this index runs where the node itself runs in
    /// `task_count`.
    pub open spec fn child_tasks(self, child: int, task_count: usize) -> usize {
        match self {
            OperatorView::ChildrenIsolatorUnion { task_idx_map, .. } => {
                crate::validate_stages::tasks_of_child(task_idx_map, child) as usize
            },
            OperatorView::NetworkShuffle { stage, .. } => stage.task_count() as usize,
            OperatorView::NetworkCoalesce { stage, .. } => stage.task_count() as usize,
            OperatorView::NetworkBroadcast { stage, .. } => stage.task_count() as usize,
            _ => task_count,
        }
    }

    /// The network boundary with another stage below it. The consumers of a range shuffle read one
    /// range each.
    pub open spec fn with_stage(self, stage: StageView) -> OperatorView {
        match self {
            OperatorView::NetworkShuffle {
                partitioning,
                output: Partitioning::Range(..),
                properties,
                ..
            } => OperatorView::NetworkShuffle {
                stage,
                partitioning,
                output: Partitioning::UnknownPartitioning(1),
                properties,
            },
            _ => self.fed_by(stage),
        }
    }
}

/// A plan that was prepared, and the number of the next stage.
#[verifier::ext_equal]
pub struct PreparedView {
    pub plan: PlanView,
    pub next: usize,
}

/// Prepares a network boundary that is read by `task_count` tasks, over a child that has been
/// prepared. A boundary whose stage has already been sent away stays as it is.
pub open spec fn prepared_boundary(
    node: PlanView,
    child: PlanView,
    task_count: usize,
    query_id: Uuid,
    num: usize,
) -> Result<PreparedView, DistributedErrorView> {
    match node.op.input_stage() {
        StageView::Remote { .. } => Ok(PreparedView { plan: node.over(seq![child]), next: num }),
        StageView::Local { tasks, .. } => if task_count == 1 && tasks == 1 {
            Ok(PreparedView { plan: child, next: num })
        } else {
            match node.op.head(task_count) {
                Err(error) => Err(error),
                Ok(head) => match child.headed(head) {
                    Err(error) => Err(error),
                    Ok(headed) => if num == usize::MAX {
                        Err(ErrorKind::TooManyStages.plain())
                    } else {
                        Ok(
                            PreparedView {
                                plan: node.turned_into(
                                    node.op.with_stage(StageView::Local { query_id, num, tasks }),
                                    seq![headed],
                                ),
                                next: (num + 1) as usize,
                            },
                        )
                    },
                },
            }
        },
    }
}

/// Prepares all network boundaries of a plan that runs in `task_count` tasks, from the leaves
/// upwards.
pub open spec fn prepared(plan: PlanView, task_count: usize, query_id: Uuid, num: usize) -> Result<
    PreparedView,
    DistributedErrorView,
>
    decreases plan, 0nat,
{
    match prepared_all(plan.op, plan.children, task_count, query_id, num) {
        Err(error) => Err(error),
        Ok((children, next)) => if plan.op.is_network_boundary() && children.len() == 1 {
            prepared_boundary(plan, children[0], task_count, query_id, next)
        } else {
            Ok(PreparedView { plan: plan.over(children), next })
        },
    }
}

/// Prepares the children of a node one after the other.
pub open spec fn prepared_all(
    parent: OperatorView,
    plans: Seq<PlanView>,
    task_count: usize,
    query_id: Uuid,
    num: usize,
) -> Result<(Seq<PlanView>, usize), DistributedErrorView>
    decreases plans, 1nat,
{
    if plans.len() == 0 {
        Ok((Seq::empty(), num))
    } else {
        match prepared_all(parent, plans.drop_last(), task_count, query_id, num) {
            Err(error) => Err(error),
            Ok((before, next)) => match prepared(
                plans.last(),
                parent.child_tasks(plans.len() - 1, task_count),
                query_id,
                next,
            ) {
                Err(error) => Err(error),
                Ok(last) => Ok((before.push(last.plan), last.next)),
            },
        }
    }
}

proof fn preparation_error_is_final(
    parent: OperatorView,
    plans: Seq<PlanView>,
    task_count: usize,
    query_id: Uuid,
    num: usize,
    upto: int,
)
    requires
        0 <= upto <= plans.len(),
        prepared_all(parent, plans.take(upto), task_count, query_id, num) is Err,
    ensures
        prepared_all(parent, plans, task_count, query_id, num) == prepared_all(
            parent,
            plans.take(upto),
            task_count,
            query_id,
            num,
        ),
    decreases plans.len() - upto,
{
    if upto == plans.len() {
        assert(plans.take(upto) =~= plans);
    } else {
        assert(plans.take(upto + 1).drop_last() =~= plans.take(upto));
        preparation_error_is_final(parent, plans, task_count, query_id, num, upto + 1);
    }
}

/// In how many tasks a child of a node runs where the node itself runs in `task_count`.
pub fn tasks_of(parent: &Operator, child: usize, task_count: usize) -> (result: usize)
    ensures
        result == parent@.child_tasks(child as int, task_count),
{
    match parent {
        Operator::ChildrenIsolatorUnion { task_idx_map, .. } => child_task_count(
            task_idx_map,
            child,
        ),
        Operator::NetworkShuffle { stage, .. } => stage.task_count(),
        Operator::NetworkCoalesce { stage, .. } => stage.task_count(),
        Operator::NetworkBroadcast { stage, .. } => stage.task_count(),
        _ => task_count,
    }
}

fn fed_per_task(node: &Plan, stage: Stage, input: Arc<Plan>) -> (result: Arc<Plan>)
    requires
        node@.op.is_network_boundary(),
    ensures
        result@ == node@.turned_into(node@.op.with_stage(stage@), seq![input@]),
{
    if let Operator::NetworkShuffle { stage: _, partitioning, output, properties } = &*node.op {
        if let Partitioning::Range(..) = output {
            let op = Arc::new(
                Operator::NetworkShuffle {
                    stage,
                    partitioning: partitioning.share(),
                    output: Partitioning::UnknownPartitioning(1),
                    properties: share_properties(properties),
                },
            );
            return node.turn_into(op, only(input));
        }
    }
    node.with_input_stage(stage, only(input))
}

/// A plan that was prepared, and the number of the next stage.
#[derive(Debug)]
pub struct Prepared {
    pub plan: Arc<Plan>,
    pub next: usize,
}

impl View for Prepared {
    type V = PreparedView;

    open spec fn view(&self) -> PreparedView {
        PreparedView { plan: self.plan@, next: self.next }
    }
}

fn prepare_boundary(
    node: &Plan,
    child: Arc<Plan>,
    task_count: usize,
    query_id: Uuid,
    num: usize,
) -> (result: Result<Prepared, DistributedError>)
    requires
        node@.op.is_network_boundary(),
    ensures
        crate::error::viewed(result) == prepared_boundary(
            node@,
            child@,
            task_count,
            query_id,
            num,
        ),
{
    let tasks: usize = match node.op.as_network_boundary() {
        Some(Stage::Local { tasks, .. }) => *tasks,
        _ => {
            return Ok(Prepared { plan: node.with_new_children(only(child)), next: num });
        },
    };
    if task_count == 1 && tasks == 1 {
        return Ok(Prepared { plan: child, next: num });
    }
    let input = node.op.producer_head(task_count)?.insert(&child)?;
    if num == usize::MAX {
        return Err(DistributedError::new(ErrorKind::TooManyStages));
    }
    let plan = fed_per_task(node, Stage::Local { query_id, num, tasks }, input);
    Ok(Prepared { plan, next: num + 1 })
}

/// Prepares all network boundaries of a plan that runs in `task_count` tasks. Stages are numbered
/// from `num` on.
pub fn prepare(plan: &Arc<Plan>, task_count: usize, query_id: Uuid, num: usize) -> (result: Result<
    Prepared,
    DistributedError,
>)
    ensures
        crate::error::viewed(result) == prepared(plan@, task_count, query_id, num),
    decreases plan,
{
    let ghost all = plan@.children;
    let mut children: Vec<Arc<Plan>> = Vec::new();
    let mut next: usize = num;
    let mut i: usize = 0;
    proof {
        assert(all.take(0) =~= Seq::<PlanView>::empty());
        assert(crate::plan::views(children@) =~= Seq::<PlanView>::empty());
    }
    while i < plan.children.len()
        invariant
            0 <= i <= plan.children@.len(),
            all == plan@.children,
            all.len() == plan.children@.len(),
            children@.len() == i,
            prepared_all(plan@.op, all.take(i as int), task_count, query_id, num) == Ok::<
                _,
                DistributedErrorView,
            >((crate::plan::views(children@), next)),
        decreases plan.children@.len() - i,
    {
        let child = &plan.children[i];
        proof {
            assert(all[i as int] == child@);
            assert(all.take(i + 1).drop_last() =~= all.take(i as int));
            if prepared_all(plan@.op, all.take(i + 1), task_count, query_id, num) is Err {
                preparation_error_is_final(plan@.op, all, task_count, query_id, num, i + 1);
            }
        }
        let ready = prepare(child, tasks_of(&plan.op, i, task_count), query_id, next)?;
        let ghost before = children@;
        children.push(ready.plan);
        next = ready.next;
        proof {
            assert(crate::plan::views(children@) =~= crate::plan::views(before).push(ready.plan@));
        }
        i += 1;
    }
    proof {
        assert(all.take(i as int) =~= all);
    }
    if plan.op.is_network_boundary() && children.len() == 1 {
        let child = Arc::clone(&children[0]);
        proof {
            assert(crate::plan::views(children@)[0] == child@);
        }
        return prepare_boundary(plan, child, task_count, query_id, next);
    }
    Ok(Prepared { plan: plan.with_new_children(children), next })
}

/// Prepares a plan for execution under this query id. The root runs in a single task, and the
/// numbers of stages begin at one.
pub fn prepare_network_boundaries_as(plan: &Arc<Plan>, query_id: Uuid) -> (result: Result<
    Arc<Plan>,
    DistributedError,
>)
    ensures
        match result {
            Ok(plan_prepared) => prepared(plan@, 1, query_id, 1) matches Ok(ready)
                && plan_prepared@ == ready.plan,
            Err(error) => prepared(plan@, 1, query_id, 1) == Err::<PreparedView, _>(error@),
        },
{
    let ready = prepare(plan, 1, query_id, 1)?;
    Ok(ready.plan)
}

/// Prepares a plan for execution under a fresh query id, which is random.
pub fn prepare_network_boundaries(plan: &Arc<Plan>) -> (result: Result<
    Arc<Plan>,
    DistributedError,
>)
    ensures
        exists|query_id: Uuid|
            query_id.bytes@[6] / 16 == 4 && query_id.bytes@[8] / 64 == 2 && (match result {
                Ok(plan_prepared) => #[trigger] prepared(plan@, 1, query_id, 1) matches Ok(ready)
                    && plan_prepared@ == ready.plan,
                Err(error) => prepared(plan@, 1, query_id, 1) == Err::<PreparedView, _>(error@),
            }),
{
    prepare_network_boundaries_as(plan, Uuid::new_v4())
}

impl PlanView {
    /// Whether repartitions and broadcasts have one child, and network boundaries have the plan of
    /// their stage as only child as long as the stage is local.
    pub open spec fn well_shaped(self) -> bool
        decreases self,
    {
        &&& self.op is Repartition || self.op is Broadcast ==> self.children.len() == 1
        &&& self.op.is_network_boundary() ==> self.children.len() == (
        if self.op.input_stage() is Local {
            1nat
        } else {
            0nat
        })
        &&& forall|i: int|
            0 <= i < self.children.len() ==> (#[trigger] self.children[i]).well_shaped()
    }

    /// The query ids and numbers of the local stages of the plan, each after those below it.
    pub open spec fn stamps(self) -> Seq<(Uuid, usize)>
        decreases self, 0nat,
    {
        let below = crate::prepare_network_boundaries::stamps_of_all(self.children);
        if self.op.is_network_boundary() && self.op.input_stage() is Local {
            below.push((self.op.input_stage().query_id(), self.op.input_stage().num()))
        } else {
            below
        }
    }

    /// Whether the plan, run in `task_count` tasks, holds no boundary between two single tasks.
    pub open spec fn has_no_idle_boundary(self, task_count: usize) -> bool
        decreases self,
    {
        &&& self.op.is_network_boundary() && self.op.input_stage() is Local ==> !(task_count == 1
            && self.op.input_stage().task_count() == 1)
        &&& forall|i: int|
            0 <= i < self.children.len() ==> (#[trigger] self.children[i]).has_no_idle_boundary(
                self.op.child_tasks(i, task_count),
            )
    }
}

pub open spec fn stamps_of_all(plans: Seq<PlanView>) -> Seq<(Uuid, usize)>
    decreases plans, 1nat,
{
    if plans.len() == 0 {
        Seq::empty()
    } else {
        stamps_of_all(plans.drop_last()) + plans.last().stamps()
    }
}

/// The stamps from one number up to another.
pub open spec fn consecutive(query_id: Uuid, from: usize, to: usize) -> Seq<(Uuid, usize)> {
    Seq::new((to - from) as nat, |i: int| (query_id, (from + i) as usize))
}

proof fn stamps_of_one(plan: PlanView)
    ensures
        stamps_of_all(seq![plan]) == plan.stamps(),
{
    reveal_with_fuel(stamps_of_all, 2);
    assert(seq![plan].drop_last() =~= Seq::<PlanView>::empty());
    assert(stamps_of_all(seq![plan]) =~= plan.stamps());
}

proof fn heads_keep_what_is_below(plan: PlanView, head: ProducerHead, task_count: usize)
    requires
        plan.well_shaped(),
        plan.headed(head) is Ok,
    ensures
        plan.headed(head)->Ok_0.well_shaped(),
        plan.headed(head)->Ok_0.stamps() == plan.stamps(),
        plan.has_no_idle_boundary(task_count) ==> plan.headed(
            head,
        )->Ok_0.has_no_idle_boundary(task_count),
{
    let input = plan.headless();
    let result = plan.headed(head)->Ok_0;
    if (plan.op is Repartition || plan.op is Broadcast) && plan.children.len() > 0 {
        assert(plan.children =~= seq![input]);
        assert(plan.children[0].well_shaped());
        stamps_of_one(input);
        assert(plan.has_no_idle_boundary(task_count) ==> plan.children[0].has_no_idle_boundary(
            plan.op.child_tasks(0, task_count),
        ));
    }
    if !(head is Unspecified) {
        stamps_of_one(input);
        assert(result.children =~= seq![input]);
        assert forall|i: int| 0 <= i < result.children.len() implies (
        #[trigger] result.children[i]).well_shaped() by {
            assert(result.children[i] == input);
        }
    }
}

proof fn children_are_numbered(
    parent: OperatorView,
    plans: Seq<PlanView>,
    task_count: usize,
    query_id: Uuid,
    num: usize,
)
    requires
        forall|i: int| 0 <= i < plans.len() ==> (#[trigger] plans[i]).well_shaped(),
        prepared_all(parent, plans, task_count, query_id, num) is Ok,
    ensures
        ({
            let (children, next) = prepared_all(
                parent,
                plans,
                task_count,
                query_id,
                num,
            )->Ok_0;
            &&& num <= next
            &&& children.len() == plans.len()
            &&& stamps_of_all(children) == consecutive(query_id, num, next)
            &&& forall|i: int| 0 <= i < children.len() ==> (#[trigger] children[i]).well_shaped()
            &&& forall|i: int|
                0 <= i < children.len() ==> (#[trigger] children[i]).has_no_idle_boundary(
                    parent.child_tasks(i, task_count),
                )
        }),
    decreases plans, 1nat,
{
    if plans.len() == 0 {
        assert(consecutive(query_id, num, num) =~= Seq::<(Uuid, usize)>::empty());
    } else {
        let shorter = plans.drop_last();
        assert forall|i: int| 0 <= i < shorter.len() implies (#[trigger] shorter[i]).well_shaped() by {
            assert(shorter[i] == plans[i]);
        }
        children_are_numbered(parent, shorter, task_count, query_id, num);
        let (before, middle) = prepared_all(
            parent,
            shorter,
            task_count,
            query_id,
            num,
        )->Ok_0;
        let tasks = parent.child_tasks(plans.len() - 1, task_count);
        assert(plans[plans.len() - 1] == plans.last());
        stages_are_numbered(plans.last(), tasks, query_id, middle);
        let last = prepared(plans.last(), tasks, query_id, middle)->Ok_0;
        let children = before.push(last.plan);
        assert(children.drop_last() =~= before);
        assert(consecutive(query_id, num, middle) + consecutive(query_id, middle, last.next)
            =~= consecutive(query_id, num, last.next));
        assert forall|i: int| 0 <= i < children.len() implies (#[trigger] children[i]).well_shaped()
            && children[i].has_no_idle_boundary(parent.child_tasks(i, task_count)) by {
            if i < before.len() {
                assert(children[i] == before[i]);
            }
        }
    }
}

/// The local stages of a prepared plan all carry its query id, and are numbered one by one from
/// the leaves upwards, so that no two stages share a number. No boundary between two single tasks
/// is left.
pub proof fn stages_are_numbered(plan: PlanView, task_count: usize, query_id: Uuid, num: usize)
    requires
        plan.well_shaped(),
        prepared(plan, task_count, query_id, num) is Ok,
    ensures
        ({
            let ready = prepared(plan, task_count, query_id, num)->Ok_0;
            &&& num <= ready.next
            &&& ready.plan.stamps() == consecutive(query_id, num, ready.next)
            &&& ready.plan.well_shaped()
            &&& ready.plan.has_no_idle_boundary(task_count)
        }),
    decreases plan, 0nat,
{
    children_are_numbered(plan.op, plan.children, task_count, query_id, num);
    let (children, next) = prepared_all(
        plan.op,
        plan.children,
        task_count,
        query_id,
        num,
    )->Ok_0;
    let ready = prepared(plan, task_count, query_id, num)->Ok_0;
    if plan.op.is_network_boundary() && children.len() == 1 {
        let child = children[0];
        let tasks = plan.op.child_tasks(0, task_count);
        assert(children =~= seq![child]);
        stamps_of_one(child);
        assert(child.well_shaped());
        assert(child.has_no_idle_boundary(tasks));
        if task_count == 1 && tasks == 1 {
        } else {
            let head = plan.op.head(task_count)->Ok_0;
            heads_keep_what_is_below(child, head, tasks);
            let headed = child.headed(head)->Ok_0;
            stamps_of_one(headed);
            assert(ready.plan.children =~= seq![headed]);
            assert(ready.plan.op.is_network_boundary());
            assert(ready.plan.op.input_stage() == (StageView::Local {
                query_id,
                num: next,
                tasks,
            }));
            assert(consecutive(query_id, num, next).push((query_id, next)) =~= consecutive(
                query_id,
                num,
                ready.next,
            ));
            assert forall|i: int| 0 <= i < ready.plan.children.len() implies (
            #[trigger] ready.plan.children[i]).well_shaped()
                && ready.plan.children[i].has_no_idle_boundary(
                ready.plan.op.child_tasks(i, task_count),
            ) by {
                assert(ready.plan.children[i] == headed);
            }
        }
    } else {
        assert(ready.plan == plan.over(children));
    }
}

/// No two local stages of a prepared plan carry the same stamp.
pub proof fn stages_are_unique(plan: PlanView, task_count: usize, query_id: Uuid, i: int, j: int)
    requires
        plan.well_shaped(),
        prepared(plan, task_count, query_id, 1) is Ok,
        0 <= i < j < prepared(plan, task_count, query_id, 1)->Ok_0.plan.stamps().len(),
    ensures
        prepared(plan, task_count, query_id, 1)->Ok_0.plan.stamps()[i] != prepared(
            plan,
            task_count,
            query_id,
            1,
        )->Ok_0.plan.stamps()[j],
{
    stages_are_numbered(plan, task_count, query_id, 1);
}

impl PlanView {
    /// Whether the node that tops the plan is this one.
    pub open spec fn is_topped_by(self, head: ProducerHead) -> bool {
        match head {
            ProducerHead::Unspecified => true,
            ProducerHead::RepartitionExec { partitioning } => self.op
                == (OperatorView::Repartition { partitioning }),
            ProducerHead::BroadcastExec { output_partitions } => self.children.len() == 1
                && self.op == (OperatorView::Broadcast {
                consumer_tasks: output_partitions / (self.children[0].partition_count() as usize),
            }),
        }
    }

    /// Whether, where the plan runs in `task_count` tasks, every local stage is topped by the node
    /// that feeds all tasks that read from it.
    pub open spec fn feeds_its_consumers(self, task_count: usize) -> bool
        decreases self,
    {
        &&& self.op.is_network_boundary() && self.op.input_stage() is Local && self.children.len()
            == 1 ==> (self.op.head(task_count) matches Ok(head)
            && self.children[0].is_topped_by(head))
        &&& forall|i: int|
            0 <= i < self.children.len() ==> (#[trigger] self.children[i]).feeds_its_consumers(
                self.op.child_tasks(i, task_count),
            )
    }
}

proof fn heads_keep_feeding(plan: PlanView, head: ProducerHead, task_count: usize)
    requires
        plan.feeds_its_consumers(task_count),
        plan.headed(head) is Ok,
    ensures
        plan.headed(head)->Ok_0.feeds_its_consumers(task_count),
        plan.headed(head)->Ok_0.is_topped_by(head),
{
    let input = plan.headless();
    let result = plan.headed(head)->Ok_0;
    if (plan.op is Repartition || plan.op is Broadcast) && plan.children.len() > 0 {
        assert(plan.children[0].feeds_its_consumers(plan.op.child_tasks(0, task_count)));
    }
    if !(head is Unspecified) {
        assert(result.children =~= seq![input]);
        assert forall|i: int| 0 <= i < result.children.len() implies (
        #[trigger] result.children[i]).feeds_its_consumers(
            result.op.child_tasks(i, task_count),
        ) by {
            assert(result.children[i] == input);
        }
    }
}

proof fn children_feed_their_consumers(
    parent: OperatorView,
    plans: Seq<PlanView>,
    task_count: usize,
    query_id: Uuid,
    num: usize,
)
    requires
        prepared_all(parent, plans, task_count, query_id, num) is Ok,
    ensures
        ({
            let children = prepared_all(parent, plans, task_count, query_id, num)->Ok_0.0;
            &&& children.len() == plans.len()
            &&& forall|i: int|
                0 <= i < children.len() ==> (#[trigger] children[i]).feeds_its_consumers(
                    parent.child_tasks(i, task_count),
                )
        }),
    decreases plans, 1nat,
{
    if plans.len() > 0 {
        let shorter = plans.drop_last();
        children_feed_their_consumers(parent, shorter, task_count, query_id, num);
        let (before, middle) = prepared_all(
            parent,
            shorter,
            task_count,
            query_id,
            num,
        )->Ok_0;
        let tasks = parent.child_tasks(plans.len() - 1, task_count);
        stages_feed_their_consumers(plans.last(), tasks, query_id, middle);
        let children = before.push(prepared(plans.last(), tasks, query_id, middle)->Ok_0.plan);
        assert forall|i: int| 0 <= i < children.len() implies (
        #[trigger] children[i]).feeds_its_consumers(parent.child_tasks(i, task_count)) by {
            if i < before.len() {
                assert(children[i] == before[i]);
            }
        }
    }
}

/// Every local stage of a prepared plan is topped by the node that its network boundary asks for,
/// given the number of tasks that read from it.
pub proof fn stages_feed_their_consumers(
    plan: PlanView,
    task_count: usize,
    query_id: Uuid,
    num: usize,
)
    requires
        prepared(plan, task_count, query_id, num) is Ok,
    ensures
        prepared(plan, task_count, query_id, num)->Ok_0.plan.feeds_its_consumers(task_count),
    decreases plan, 0nat,
{
    children_feed_their_consumers(plan.op, plan.children, task_count, query_id, num);
    let children = prepared_all(plan.op, plan.children, task_count, query_id, num)->Ok_0.0;
    let ready = prepared(plan, task_count, query_id, num)->Ok_0;
    if plan.op.is_network_boundary() && children.len() == 1 {
        let child = children[0];
        let tasks = plan.op.child_tasks(0, task_count);
        assert(child.feeds_its_consumers(tasks));
        if plan.op.input_stage() is Remote {
            assert(ready.plan.children =~= seq![child]);
            assert(ready.plan.children[0] == child);
        } else if !(task_count == 1 && tasks == 1) {
            let head = plan.op.head(task_count)->Ok_0;
            heads_keep_feeding(child, head, tasks);
            let headed = child.headed(head)->Ok_0;
            assert(ready.plan.children =~= seq![headed]);
            assert(ready.plan.op.head(task_count) == plan.op.head(task_count));
            assert forall|i: int| 0 <= i < ready.plan.children.len() implies (
            #[trigger] ready.plan.children[i]).feeds_its_consumers(
                ready.plan.op.child_tasks(i, task_count),
            ) by {
                assert(ready.plan.children[i] == headed);
            }
        }
    } else {
        assert(ready.plan == plan.over(children));
    }
}

} // verus!

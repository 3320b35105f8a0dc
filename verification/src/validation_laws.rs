//! Which stages may run in several tasks, told by where their rows come from and by the rows that
//! their nodes hand out.
use crate::error::{DistributedErrorView, ErrorKind};
use crate::plan::{DistributedTaskContext, InputRequirement, OperatorView, PlanView, StageView};
use crate::validate_stages::DataFlow;
use vstd::prelude::*;

verus! {

/// Whether the rows of the operator come from other stages, from a slice of a source or from tasks
/// that were dealt out, so that a stage is not looked at any further below it.
pub open spec fn brings_rows(op: OperatorView) -> bool {
    op is NetworkShuffle || op is NetworkCoalesce || op is NetworkBroadcast || op is DistributedLeaf
        || op is ChildrenIsolatorUnion
}

impl PlanView {
    /// Whether the way leads to a node of the same stage.
    pub open spec fn stays(self, path: Seq<int>) -> bool
        decreases path.len(),
    {
        path.len() > 0 ==> !brings_rows(self.op) && 0 <= path[0] < self.children.len()
            && self.children[path[0]].stays(path.drop_first())
    }

    /// Whether the way goes through a repartition.
    pub open spec fn passes_repartition(self, path: Seq<int>) -> bool
        decreases path.len(),
    {
        path.len() > 0 && (self.op is Repartition || self.children[path[0]].passes_repartition(
            path.drop_first(),
        ))
    }

    /// Whether every task gets rows of its own from the node: those that a shuffle or an isolated
    /// union gives it, or its slice of a leaf that an estimator knows.
    pub open spec fn is_sliced(self) -> bool {
        ||| self.op is NetworkShuffle
        ||| self.op is DistributedLeaf
        ||| self.op is ChildrenIsolatorUnion
        ||| !brings_rows(self.op) && self.children.len() == 0 && (self.facts matches Some(facts)
            && facts.estimate is Some)
    }

    /// Whether rows with equal keys come from the node to the same task.
    pub open spec fn keeps_keys_together(self) -> bool {
        match self.op {
            OperatorView::NetworkShuffle { .. } => true,
            OperatorView::DistributedLeaf { partitioning } => partitioning is Hash || partitioning
                is Range,
            OperatorView::Scan { partitioning, .. } => partitioning is Hash || partitioning
                is Range,
            _ => false,
        }
    }

    /// Whether some of the rows of the subtree differ from task to task.
    pub open spec fn has_slices(self) -> bool {
        exists|path: Seq<int>| #[trigger] self.stays(path) && self.at(path).is_sliced()
    }

    /// Whether all rows of the subtree that differ from task to task come from where equal keys go
    /// to the same task, and are not spread again on their way.
    pub open spec fn has_keys_together(self) -> bool {
        forall|path: Seq<int>| #[trigger]
            self.stays(path) && self.at(path).is_sliced() ==> self.at(path).keeps_keys_together()
                && !self.passes_repartition(path)
    }

    /// What the node demands of an input.
    pub open spec fn demands(self, input: int) -> InputRequirement {
        if self.facts is Some && 0 <= input < self.facts->Some_0.requirements@.len() {
            self.facts->Some_0.requirements@[input]
        } else {
            InputRequirement::Unspecified
        }
    }

    /// Whether the node hands out no row of the input on its own: a join that only looks rows up
    /// there.
    pub open spec fn only_looks_up(self, input: int) -> bool {
        match self.op {
            OperatorView::HashJoin { join_type, .. } => input != 0 || !(join_type is Left
                || join_type is Full || join_type is LeftSemi || join_type is LeftAnti || join_type
                is LeftMark),
            OperatorView::NestedLoopJoin { join_type, .. } => input != 0 || !(join_type is Left
                || join_type is Full || join_type is LeftSemi || join_type is LeftAnti || join_type
                is LeftMark),
            OperatorView::CrossJoin => true,
            _ => false,
        }
    }

    /// Whether the node computes in several tasks what it computes in one.
    pub open spec fn is_fit_for_tasks(self) -> bool {
        if self.op is ChildrenIsolatorUnion {
            forall|i: int|
                #![trigger self.children[i]]
                0 <= i < self.children.len() && tasks_naming(self.op->task_idx_map, i).len() > 1
                    ==> crate::validate_stages::stage_violation(
                    self.children[i],
                    tasks_naming(self.op->task_idx_map, i).len() as usize,
                ) is None
        } else if brings_rows(self.op) {
            !(self.op is NetworkCoalesce)
        } else {
            &&& forall|i: int|
                0 <= i < self.children.len() ==> match #[trigger] self.demands(i) {
                    InputRequirement::Unspecified => true,
                    InputRequirement::SinglePartition => !self.children[i].has_slices(),
                    InputRequirement::KeyPartitioned { satisfied, .. } => {
                        self.children[i].has_slices() ==> satisfied
                            && self.children[i].has_keys_together()
                    },
                }
            &&& self.children.len() > 0 && (forall|i: int|
                0 <= i < self.children.len() ==> (#[trigger] self.children[i]).has_slices()) ==> (
            self.facts matches Some(facts) ==> facts.unsatisfied_co_partitioned is None)
            &&& self.has_slices() ==> forall|i: int|
                0 <= i < self.children.len() ==> (#[trigger] self.children[i]).has_slices()
                    || self.only_looks_up(i)
        }
    }
}

/// The tasks of an isolated union that execute the child.
pub open spec fn tasks_naming(
    task_idx_map: Seq<Seq<(usize, DistributedTaskContext)>>,
    child: int,
) -> Set<int> {
    Set::new(
        |task: int|
            0 <= task < task_idx_map.len() && exists|k: int|
                0 <= k < task_idx_map[task].len() && (#[trigger] task_idx_map[task][k]).0 == child,
    )
}

/// The tasks that an isolated union deals to a child are those whose entries name the child.
pub proof fn dealt_tasks_are_counted(
    task_idx_map: Seq<Seq<(usize, DistributedTaskContext)>>,
    child: int,
)
    ensures
        tasks_naming(task_idx_map, child).finite(),
        crate::validate_stages::tasks_of_child(task_idx_map, child) == tasks_naming(
            task_idx_map,
            child,
        ).len(),
        tasks_naming(task_idx_map, child).len() <= task_idx_map.len(),
    decreases task_idx_map.len(),
{
    let named = tasks_naming(task_idx_map, child);
    if task_idx_map.len() == 0 {
        assert(named =~= Set::empty());
    } else {
        let shorter = task_idx_map.drop_last();
        let last = task_idx_map.len() - 1;
        dealt_tasks_are_counted(shorter, child);
        let before = tasks_naming(shorter, child);
        assert forall|task: int| before.contains(task) == (named.contains(task) && task != last) by {
            if 0 <= task < last {
                assert(shorter[task] == task_idx_map[task]);
            }
        }
        assert(!before.contains(last));
        if crate::validate_stages::executes(task_idx_map.last(), child) {
            assert(named.contains(last));
            assert(named =~= before.insert(last));
        } else {
            assert(!named.contains(last));
            assert(named =~= before);
        }
    }
}

proof fn stays_below_a_child(plan: PlanView, child: int, path: Seq<int>)
    requires
        !brings_rows(plan.op),
        0 <= child < plan.children.len(),
        plan.children[child].stays(path),
    ensures
        plan.stays(seq![child] + path),
        plan.at(seq![child] + path) == plan.children[child].at(path),
        plan.passes_repartition(seq![child] + path) == (plan.op is Repartition
            || plan.children[child].passes_repartition(path)),
{
    assert((seq![child] + path).drop_first() =~= path);
}

proof fn slices_come_from_children(plan: PlanView)
    requires
        !brings_rows(plan.op),
        plan.children.len() > 0,
    ensures
        plan.has_slices() <==> exists|i: int|
            0 <= i < plan.children.len() && (#[trigger] plan.children[i]).has_slices(),
        plan.has_keys_together() <==> (plan.has_slices() ==> !(plan.op is Repartition))
            && forall|i: int|
            0 <= i < plan.children.len() ==> (#[trigger] plan.children[i]).has_keys_together(),
{
    if plan.has_slices() {
        let path = choose|path: Seq<int>| #[trigger]
            plan.stays(path) && plan.at(path).is_sliced();
        assert(path.len() > 0);
        assert(plan.children[path[0]].stays(path.drop_first()));
        assert(plan.children[path[0]].has_slices());
        if plan.has_keys_together() {
            assert(!plan.passes_repartition(path));
        }
    }
    assert forall|i: int| 0 <= i < plan.children.len() && (
    #[trigger] plan.children[i]).has_slices() implies plan.has_slices() by {
        let path = choose|path: Seq<int>| #[trigger]
            plan.children[i].stays(path) && plan.children[i].at(path).is_sliced();
        stays_below_a_child(plan, i, path);
        assert(plan.stays(seq![i] + path));
    }
    if plan.has_keys_together() {
        assert forall|i: int| 0 <= i < plan.children.len() implies (
        #[trigger] plan.children[i]).has_keys_together() by {
            let child = plan.children[i];
            assert forall|path: Seq<int>| #[trigger]
                child.stays(path) && child.at(path).is_sliced() implies child.at(
                path,
            ).keeps_keys_together() && !child.passes_repartition(path) by {
                stays_below_a_child(plan, i, path);
                assert(plan.stays(seq![i] + path));
            }
        }
    }
    if (plan.has_slices() ==> !(plan.op is Repartition)) && forall|i: int|
        0 <= i < plan.children.len() ==> (#[trigger] plan.children[i]).has_keys_together() {
        assert forall|path: Seq<int>| #[trigger]
            plan.stays(path) && plan.at(path).is_sliced() implies plan.at(
            path,
        ).keeps_keys_together() && !plan.passes_repartition(path) by {
            assert(path.len() > 0);
            assert(plan.has_slices());
            assert(plan.children[path[0]].has_keys_together());
            assert(plan.children[path[0]].stays(path.drop_first()));
        }
    }
}

/// In a stage without faults, the rows of a subtree are partitioned exactly where some of them
/// differ from task to task, and the claim that equal keys meet holds across all tasks exactly
/// where they come from where equal keys go to the same task.
pub proof fn flows_follow_the_rows(plan: PlanView, tasks: usize)
    requires
        plan.violation(tasks) is None,
    ensures
        plan.flow() is Partitioned <==> plan.has_slices(),
        plan.has_slices() ==> plan.flow() == (DataFlow::Partitioned {
            claims_are_global: plan.has_keys_together(),
        }),
    decreases plan,
{
    crate::validate_stages::validation_is_exact(plan, tasks);
    if brings_rows(plan.op) || plan.children.len() == 0 {
        let here = Seq::<int>::empty();
        assert(plan.stays(here) && plan.at(here) == plan && !plan.passes_repartition(here));
        assert forall|path: Seq<int>| #[trigger] plan.stays(path) implies path =~= here by {}
        if plan.is_sliced() {
            assert(plan.has_slices());
            assert(plan.has_keys_together() == plan.keeps_keys_together());
        }
    } else {
        assert forall|i: int| 0 <= i < plan.children.len() implies {
            &&& (#[trigger] plan.children[i]).flow() is Partitioned
                <==> plan.children[i].has_slices()
            &&& plan.children[i].has_slices() ==> plan.children[i].flow()
                == (DataFlow::Partitioned {
                claims_are_global: plan.children[i].has_keys_together(),
            })
        } by {
            crate::validate_stages::validation_is_exact(plan.children[i], tasks);
            flows_follow_the_rows(plan.children[i], tasks);
        }
        slices_come_from_children(plan);
        if plan.has_slices() {
            if plan.has_keys_together() {
                assert forall|i: int| 0 <= i < plan.children.len() implies (
                #[trigger] plan.children[i]).flow() != (DataFlow::Partitioned {
                    claims_are_global: false,
                }) by {}
            } else if !(plan.op is Repartition) {
                let i = choose|i: int|
                    0 <= i < plan.children.len()
                        && !(#[trigger] plan.children[i]).has_keys_together();
                if !plan.children[i].has_slices() {
                    let child = plan.children[i];
                    let path = choose|path: Seq<int>| #[trigger]
                        child.stays(path) && child.at(path).is_sliced() && !(child.at(
                            path,
                        ).keeps_keys_together() && !child.passes_repartition(path));
                    assert(child.has_slices());
                }
                assert(plan.children[i].flow() == (DataFlow::Partitioned {
                    claims_are_global: false,
                }));
            }
        }
    }
}

/// Whether every node of the stage computes in several tasks what it computes in one.
pub open spec fn is_fit_everywhere(plan: PlanView) -> bool {
    forall|path: Seq<int>| #[trigger] plan.stays(path) ==> plan.at(path).is_fit_for_tasks()
}

proof fn inner_nodes_are_fit(plan: PlanView, tasks: usize)
    requires
        !brings_rows(plan.op),
        plan.children.len() > 0,
        forall|i: int|
            0 <= i < plan.children.len() ==> (#[trigger] plan.children[i]).violation(tasks) is None,
    ensures
        plan.meets_obligations() <==> plan.is_fit_for_tasks(),
{
    assert forall|i: int| 0 <= i < plan.children.len() implies {
        &&& (#[trigger] plan.children[i]).flow() is Partitioned <==> plan.children[i].has_slices()
        &&& plan.children[i].has_slices() ==> plan.children[i].flow() == (DataFlow::Partitioned {
            claims_are_global: plan.children[i].has_keys_together(),
        })
    } by {
        flows_follow_the_rows(plan.children[i], tasks);
    }
    slices_come_from_children(plan);
    assert forall|i: int| 0 <= i < plan.children.len() implies #[trigger] plan.demands(i)
        == plan.requirement(i) by {}
    assert forall|i: int| #[trigger] plan.emits_rows_driven_by(i) == !plan.only_looks_up(i) by {}
    assert(plan.flow() is Partitioned <==> plan.has_slices());
    if plan.meets_obligations() {
        assert forall|i: int| 0 <= i < plan.children.len() implies match #[trigger] plan.demands(i) {
            InputRequirement::Unspecified => true,
            InputRequirement::SinglePartition => !plan.children[i].has_slices(),
            InputRequirement::KeyPartitioned { satisfied, .. } => {
                plan.children[i].has_slices() ==> satisfied
                    && plan.children[i].has_keys_together()
            },
        } by {
            assert(plan.requirement(i) == plan.demands(i));
        }
        if forall|i: int|
            0 <= i < plan.children.len() ==> (#[trigger] plan.children[i]).has_slices() {
            assert(plan.all_partitioned());
        }
        if plan.has_slices() {
            assert forall|i: int| 0 <= i < plan.children.len() implies (
            #[trigger] plan.children[i]).has_slices() || plan.only_looks_up(i) by {
                assert(plan.emits_rows_driven_by(i) == !plan.only_looks_up(i));
            }
        }
    }
    if plan.is_fit_for_tasks() {
        assert forall|i: int|
            0 <= i < plan.children.len() && #[trigger] plan.requirement(i)
                is SinglePartition implies plan.children[i].flow() is Replicated by {
            assert(plan.demands(i) == plan.requirement(i));
        }
        assert forall|i: int|
            0 <= i < plan.children.len() && plan.children[i].flow() is Partitioned implies (
        #[trigger] plan.requirement(i) matches InputRequirement::KeyPartitioned { satisfied, .. }
            ==> satisfied && plan.children[i].flow() == (DataFlow::Partitioned {
            claims_are_global: true,
        })) by {
            assert(plan.demands(i) == plan.requirement(i));
        }
        if plan.all_partitioned() {
            assert forall|i: int| 0 <= i < plan.children.len() implies (
            #[trigger] plan.children[i]).has_slices() by {
                assert(plan.children[i].flow() is Partitioned);
            }
        }
    }
}

proof fn isolated_unions_are_fit(plan: PlanView, tasks: usize)
    requires
        plan.op is ChildrenIsolatorUnion,
        plan.op->task_idx_map.len() <= usize::MAX,
    ensures
        plan.is_sound() <==> plan.is_fit_for_tasks(),
{
    let map = plan.op->task_idx_map;
    assert forall|i: int|
        #![trigger plan.children[i]]
        0 <= i < plan.children.len() && tasks_naming(map, i).len() > 1 implies (crate::validate_stages::stage_violation(
        plan.children[i],
        tasks_naming(map, i).len() as usize,
    ) is None <==> plan.children[i].is_sound() && plan.children[i].flow() is Partitioned) by {
        dealt_tasks_are_counted(map, i);
        crate::validate_stages::accepted_stages_are_sound(
            plan.children[i],
            tasks_naming(map, i).len() as usize,
        );
    }
    assert forall|i: int| #[trigger] crate::validate_stages::tasks_of_child(map, i) == tasks_naming(
        map,
        i,
    ).len() by {
        dealt_tasks_are_counted(map, i);
    }
}

proof fn faultless_stages_are_fit(plan: PlanView, tasks: usize)
    requires
        tasks_are_countable(plan),
    ensures
        plan.violation(tasks) is None <==> is_fit_everywhere(plan),
    decreases plan,
{
    crate::validate_stages::validation_is_exact(plan, tasks);
    let here = Seq::<int>::empty();
    assert(plan.stays(here) && plan.at(here) == plan);
    if brings_rows(plan.op) || plan.children.len() == 0 {
        assert forall|path: Seq<int>| #[trigger] plan.stays(path) implies path =~= here by {}
        if plan.op is ChildrenIsolatorUnion {
            isolated_unions_are_fit(plan, tasks);
        }
    } else {
        assert forall|i: int| 0 <= i < plan.children.len() implies (
        #[trigger] plan.children[i]).violation(tasks) is None <==> is_fit_everywhere(
            plan.children[i],
        ) by {
            faultless_stages_are_fit(plan.children[i], tasks);
        }
        assert forall|i: int| 0 <= i < plan.children.len() implies (
        #[trigger] plan.children[i]).violation(tasks) is None <==> plan.children[i].is_sound() by {
            crate::validate_stages::validation_is_exact(plan.children[i], tasks);
        }
        if plan.violation(tasks) is None {
            inner_nodes_are_fit(plan, tasks);
            assert forall|path: Seq<int>| #[trigger] plan.stays(path) implies plan.at(
                path,
            ).is_fit_for_tasks() by {
                if path.len() > 0 {
                    assert(is_fit_everywhere(plan.children[path[0]]));
                    assert(plan.children[path[0]].stays(path.drop_first()));
                } else {
                    assert(path =~= here);
                }
            }
        }
        if is_fit_everywhere(plan) {
            assert forall|i: int| 0 <= i < plan.children.len() implies is_fit_everywhere(
                #[trigger] plan.children[i],
            ) by {
                assert forall|path: Seq<int>| #[trigger]
                    plan.children[i].stays(path) implies plan.children[i].at(
                    path,
                ).is_fit_for_tasks() by {
                    stays_below_a_child(plan, i, path);
                    assert(plan.stays(seq![i] + path));
                }
            }
            inner_nodes_are_fit(plan, tasks);
        }
    }
}

/// Whether the tasks of the isolated unions of the stage can be counted.
pub open spec fn tasks_are_countable(plan: PlanView) -> bool
    decreases plan,
{
    if plan.op is ChildrenIsolatorUnion {
        plan.op->task_idx_map.len() <= usize::MAX
    } else {
        forall|i: int|
            0 <= i < plan.children.len() ==> tasks_are_countable(#[trigger] plan.children[i])
    }
}

/// A stage of several tasks is accepted exactly where its tasks do not all hand out the same rows,
/// and every node of it computes in several tasks what it computes in one: rows that must come in
/// one partition are the same in every task, rows that must be together by keys are so across all
/// tasks, no join hands out rows of a side that every task holds all of next to a side that is
/// sliced, and nothing in it gathers the rows of several tasks.
pub proof fn accepted_stages_are_fit(plan: PlanView, tasks: usize)
    requires
        tasks_are_countable(plan),
    ensures
        tasks > 1 ==> (crate::validate_stages::stage_violation(plan, tasks) is None
            <==> plan.has_slices() && is_fit_everywhere(plan)),
        tasks <= 1 ==> crate::validate_stages::stage_violation(plan, tasks) is None,
{
    if tasks > 1 {
        faultless_stages_are_fit(plan, tasks);
        if plan.violation(tasks) is None {
            flows_follow_the_rows(plan, tasks);
        }
    }
}

/// An accepted stage of several tasks holds no join that hands out rows of a left side that every
/// task holds all of, unless every task holds all of its right side too.
pub proof fn accepted_joins_hand_out_rows_once(plan: PlanView, tasks: usize, path: Seq<int>)
    requires
        tasks > 1,
        tasks_are_countable(plan),
        crate::validate_stages::stage_violation(plan, tasks) is None,
        plan.stays(path),
        plan.at(path).children.len() == 2,
        plan.at(path).children[1].has_slices(),
        !plan.at(path).children[0].has_slices(),
    ensures
        match plan.at(path).op {
            OperatorView::HashJoin { join_type, .. } => !(join_type is Left || join_type is Full
                || join_type is LeftSemi || join_type is LeftAnti || join_type is LeftMark),
            OperatorView::NestedLoopJoin { join_type, .. } => !(join_type is Left || join_type
                is Full || join_type is LeftSemi || join_type is LeftAnti || join_type is LeftMark),
            op => op is CrossJoin || brings_rows(op),
        },
{
    accepted_stages_are_fit(plan, tasks);
    let node = plan.at(path);
    assert(node.is_fit_for_tasks());
    if !brings_rows(node.op) {
        slices_come_from_children(node);
        assert(node.only_looks_up(0));
    }
}

/// Whether a local stage below the node is faulty.
pub open spec fn feeds_on_a_fault(plan: PlanView, error: DistributedErrorView) -> bool {
    plan.children.len() > 0 && match plan.op {
        OperatorView::NetworkShuffle { stage: StageView::Local { tasks, .. }, .. } => {
            crate::validate_stages::stage_violation(plan.children[0], tasks) == Some(error)
        },
        OperatorView::NetworkCoalesce { stage: StageView::Local { tasks, .. }, .. } => {
            crate::validate_stages::stage_violation(plan.children[0], tasks) == Some(error)
        },
        OperatorView::NetworkBroadcast { stage: StageView::Local { tasks, .. }, .. } => {
            crate::validate_stages::stage_violation(plan.children[0], tasks) == Some(error)
        },
        _ => false,
    }
}

proof fn faults_of_lists_have_a_place(plans: Seq<PlanView>)
    ensures
        match crate::validate_stages::plans_violation(plans) {
            Some(error) => exists|child: int, path: Seq<int>|
                0 <= child < plans.len() && #[trigger] plans[child].leads(path) && feeds_on_a_fault(
                    plans[child].at(path),
                    error,
                ),
            None => forall|child: int, path: Seq<int>, error: DistributedErrorView|
                #![trigger plans[child].leads(path), feeds_on_a_fault(plans[child].at(path), error)]
                0 <= child < plans.len() && plans[child].leads(path) ==> !feeds_on_a_fault(
                    plans[child].at(path),
                    error,
                ),
        },
    decreases plans, 1nat,
{
    if plans.len() > 0 {
        let shorter = plans.drop_last();
        faults_of_lists_have_a_place(shorter);
        faults_have_a_place(plans.last());
        assert(plans[plans.len() - 1] == plans.last());
        if let Some(error) = crate::validate_stages::plans_violation(shorter) {
            let (child, path) = choose|child: int, path: Seq<int>|
                0 <= child < shorter.len() && #[trigger] shorter[child].leads(path)
                    && feeds_on_a_fault(shorter[child].at(path), error);
            assert(plans[child].leads(path));
        } else if let Some(error) = crate::validate_stages::plans_violation(plans) {
            let path = choose|path: Seq<int>| #[trigger]
                plans.last().leads(path) && feeds_on_a_fault(plans.last().at(path), error);
            assert(plans[plans.len() - 1].leads(path));
        } else {
            assert forall|child: int, path: Seq<int>, error: DistributedErrorView|
                #![trigger plans[child].leads(path), feeds_on_a_fault(plans[child].at(path), error)]
                0 <= child < plans.len() && plans[child].leads(path) implies !feeds_on_a_fault(
                plans[child].at(path),
                error,
            ) by {
                if child < shorter.len() {
                    assert(shorter[child].leads(path));
                    assert(!feeds_on_a_fault(shorter[child].at(path), error));
                }
            }
        }
    }
}

/// A plan is rejected exactly where one of its local stages is, with the fault of such a stage.
pub proof fn faults_have_a_place(plan: PlanView)
    ensures
        match crate::validate_stages::plan_violation(plan) {
            Some(error) => exists|path: Seq<int>| #[trigger]
                plan.leads(path) && feeds_on_a_fault(plan.at(path), error),
            None => forall|path: Seq<int>, error: DistributedErrorView|
                #![trigger plan.leads(path), feeds_on_a_fault(plan.at(path), error)]
                plan.leads(path) ==> !feeds_on_a_fault(plan.at(path), error),
        },
    decreases plan, 0nat,
{
    let here = Seq::<int>::empty();
    assert(plan.leads(here) && plan.at(here) == plan);
    faults_of_lists_have_a_place(plan.children);
    if let Some(error) = crate::validate_stages::input_stage_violation(plan) {
        assert(feeds_on_a_fault(plan.at(here), error));
    } else if let Some(error) = crate::validate_stages::plan_violation(plan) {
        let (child, path) = choose|child: int, path: Seq<int>|
            0 <= child < plan.children.len() && #[trigger] plan.children[child].leads(path)
                && feeds_on_a_fault(plan.children[child].at(path), error);
        crate::plan_paths::ways_start_with_a_child(plan, child, path);
        assert(plan.leads(seq![child] + path));
    } else {
        assert forall|path: Seq<int>, error: DistributedErrorView|
            #![trigger plan.leads(path), feeds_on_a_fault(plan.at(path), error)]
            plan.leads(path) implies !feeds_on_a_fault(plan.at(path), error) by {
            if path.len() > 0 {
                let rest = path.drop_first();
                assert(plan.children[path[0]].leads(rest));
                assert(!feeds_on_a_fault(plan.children[path[0]].at(rest), error));
            }
        }
    }
}

/// Whether the error tells what is wrong with an input of the node in a stage of this many tasks.
pub open spec fn blames_input(
    node: PlanView,
    input: int,
    tasks: usize,
    error: DistributedErrorView,
) -> bool {
    let child = node.children[input];
    let idx = input as usize;
    match node.demands(input) {
        InputRequirement::SinglePartition => child.has_slices() && error
            == (ErrorKind::SlicedSinglePartition { input: idx, tasks }).about_input(
            node.op.name(),
            child.op.name(),
        ),
        InputRequirement::KeyPartitioned { satisfied, claimed } => child.has_slices() && (
        if satisfied {
            !child.has_keys_together() && error == (ErrorKind::TaskLocalKeys {
                input: idx,
                tasks,
            }).about_input(node.op.name(), child.op.name())
        } else {
            error == (ErrorKind::UnsatisfiedKeys { input: idx }).about_input(
                node.op.name(),
                child.op.name(),
            ).detailed(claimed@)
        }),
        InputRequirement::Unspecified => false,
    }
}

/// Whether the error tells what is wrong with the node in a stage of this many tasks.
pub open spec fn blames(node: PlanView, tasks: usize, error: DistributedErrorView) -> bool {
    if node.op is ChildrenIsolatorUnion {
        exists|i: int|
            #![trigger node.children[i]]
            0 <= i < node.children.len() && {
                let dealt = tasks_naming(node.op->task_idx_map, i).len();
                &&& dealt > 1
                &&& node.children[i].violation(dealt as usize) == Some(error) || (
                node.children[i].violation(dealt as usize) is None
                    && !node.children[i].has_slices() && error == (ErrorKind::ReplicatedUnionInput {
                    input: i as usize,
                    tasks: dealt as usize,
                }).about("ChildrenIsolatorUnionExec"@))
            }
    } else if brings_rows(node.op) {
        node.op is NetworkCoalesce && error == (ErrorKind::CoalesceInMultiTaskStage {
            tasks,
        }).about(node.op.name())
    } else {
        ||| exists|i: int|
            0 <= i < node.children.len() && #[trigger] blames_input(node, i, tasks, error)
        ||| (forall|i: int|
            0 <= i < node.children.len() ==> (#[trigger] node.children[i]).has_slices()) && (
        node.facts matches Some(facts) && facts.unsatisfied_co_partitioned matches Some(input)
            && error == (ErrorKind::NotCoPartitioned { input }).about(node.op.name()))
        ||| node.has_slices() && exists|i: int|
            0 <= i < node.children.len() && !(#[trigger] node.children[i]).has_slices()
                && !node.only_looks_up(i) && error == (ErrorKind::DuplicatedRows {
                input: i as usize,
                tasks,
            }).about(node.op.name())
    }
}

proof fn requirement_faults_blame_an_input(
    node: PlanView,
    upto: nat,
    tasks: usize,
    error: DistributedErrorView,
)
    requires
        upto <= node.children.len(),
        node.first_requirement_violation(upto, tasks) == Some(error),
        forall|i: int|
            0 <= i < node.children.len() ==> (#[trigger] node.children[i]).violation(tasks) is None,
    ensures
        exists|i: int|
            0 <= i < node.children.len() && #[trigger] blames_input(node, i, tasks, error),
    decreases upto,
{
    if node.first_requirement_violation((upto - 1) as nat, tasks) is Some {
        requirement_faults_blame_an_input(node, (upto - 1) as nat, tasks, error);
    } else {
        let i = upto - 1;
        assert(node.children[i].violation(tasks) is None);
        flows_follow_the_rows(node.children[i], tasks);
        assert(node.demands(i) == node.requirement(i));
        assert(blames_input(node, i, tasks, error));
    }
}

proof fn duplications_blame_an_input(
    node: PlanView,
    upto: nat,
    tasks: usize,
    error: DistributedErrorView,
)
    requires
        upto <= node.children.len(),
        node.first_duplication(upto, tasks) == Some(error),
        forall|i: int|
            0 <= i < node.children.len() ==> (#[trigger] node.children[i]).violation(tasks) is None,
    ensures
        exists|i: int|
            0 <= i < node.children.len() && !(#[trigger] node.children[i]).has_slices()
                && !node.only_looks_up(i) && error == (ErrorKind::DuplicatedRows {
                input: i as usize,
                tasks,
            }).about(node.op.name()),
    decreases upto,
{
    if node.first_duplication((upto - 1) as nat, tasks) is Some {
        duplications_blame_an_input(node, (upto - 1) as nat, tasks, error);
    } else {
        let i = upto - 1;
        assert(node.children[i].violation(tasks) is None);
        flows_follow_the_rows(node.children[i], tasks);
    }
}

proof fn faults_of_lists_blame_a_node(
    plans: Seq<PlanView>,
    tasks: usize,
    error: DistributedErrorView,
)
    requires
        crate::validate_stages::children_violation(plans, tasks) == Some(error),
        forall|i: int| 0 <= i < plans.len() ==> tasks_are_countable(#[trigger] plans[i]),
    ensures
        exists|child: int, path: Seq<int>|
            0 <= child < plans.len() && #[trigger] plans[child].stays(path) && blames(
                plans[child].at(path),
                tasks,
                error,
            ),
    decreases plans, 1nat,
{
    let shorter = plans.drop_last();
    assert forall|i: int| 0 <= i < shorter.len() implies tasks_are_countable(
        #[trigger] shorter[i],
    ) by {
        assert(shorter[i] == plans[i]);
    }
    if crate::validate_stages::children_violation(shorter, tasks) is Some {
        faults_of_lists_blame_a_node(shorter, tasks, error);
        let (child, path) = choose|child: int, path: Seq<int>|
            0 <= child < shorter.len() && #[trigger] shorter[child].stays(path) && blames(
                shorter[child].at(path),
                tasks,
                error,
            );
        assert(plans[child].stays(path));
    } else {
        assert(tasks_are_countable(plans[plans.len() - 1]));
        faults_blame_a_node(plans.last(), tasks, error);
        let path = choose|path: Seq<int>| #[trigger]
            plans.last().stays(path) && blames(plans.last().at(path), tasks, error);
        assert(plans[plans.len() - 1].stays(path));
    }
}

proof fn faults_of_unions_blame_a_child(
    children: Seq<PlanView>,
    map: Seq<Seq<(usize, DistributedTaskContext)>>,
    error: DistributedErrorView,
)
    requires
        crate::validate_stages::isolated_violation(children, map) == Some(error),
        map.len() <= usize::MAX,
    ensures
        exists|i: int|
            #![trigger children[i]]
            0 <= i < children.len() && {
                let dealt = tasks_naming(map, i).len();
                &&& dealt > 1
                &&& children[i].violation(dealt as usize) == Some(error) || (children[i].violation(
                    dealt as usize,
                ) is None && !children[i].has_slices() && error
                    == (ErrorKind::ReplicatedUnionInput {
                    input: i as usize,
                    tasks: dealt as usize,
                }).about("ChildrenIsolatorUnionExec"@))
            },
    decreases children.len(),
{
    let shorter = children.drop_last();
    if crate::validate_stages::isolated_violation(shorter, map) is Some {
        faults_of_unions_blame_a_child(shorter, map, error);
        let i = choose|i: int|
            #![trigger shorter[i]]
            0 <= i < shorter.len() && {
                let dealt = tasks_naming(map, i).len();
                &&& dealt > 1
                &&& shorter[i].violation(dealt as usize) == Some(error) || (shorter[i].violation(
                    dealt as usize,
                ) is None && !shorter[i].has_slices() && error
                    == (ErrorKind::ReplicatedUnionInput {
                    input: i as usize,
                    tasks: dealt as usize,
                }).about("ChildrenIsolatorUnionExec"@))
            };
        assert(children[i] == shorter[i]);
    } else {
        let i = children.len() - 1;
        dealt_tasks_are_counted(map, i);
        let dealt = tasks_naming(map, i).len() as usize;
        assert(children[i] == children.last());
        if children[i].violation(dealt) is None {
            flows_follow_the_rows(children[i], dealt);
        }
    }
}

/// Where a stage is rejected, the error tells what is wrong with a node of it.
pub proof fn faults_blame_a_node(plan: PlanView, tasks: usize, error: DistributedErrorView)
    requires
        plan.violation(tasks) == Some(error),
        tasks_are_countable(plan),
    ensures
        exists|path: Seq<int>| #[trigger] plan.stays(path) && blames(plan.at(path), tasks, error),
    decreases plan, 0nat,
{
    let here = Seq::<int>::empty();
    assert(plan.stays(here) && plan.at(here) == plan);
    if plan.op is ChildrenIsolatorUnion {
        faults_of_unions_blame_a_child(plan.children, plan.op->task_idx_map, error);
        assert(blames(plan.at(here), tasks, error));
    } else if brings_rows(plan.op) {
        assert(blames(plan.at(here), tasks, error));
    } else if crate::validate_stages::children_violation(plan.children, tasks) is Some {
        faults_of_lists_blame_a_node(plan.children, tasks, error);
        let (child, path) = choose|child: int, path: Seq<int>|
            0 <= child < plan.children.len() && #[trigger] plan.children[child].stays(path)
                && blames(plan.children[child].at(path), tasks, error);
        stays_below_a_child(plan, child, path);
        assert(plan.stays(seq![child] + path));
    } else {
        assert forall|i: int| 0 <= i < plan.children.len() implies (
        #[trigger] plan.children[i]).violation(tasks) is None && (plan.children[i].flow()
            is Partitioned <==> plan.children[i].has_slices()) by {
            lists_without_faults(plan.children, tasks, i);
            flows_follow_the_rows(plan.children[i], tasks);
        }
        slices_come_from_children(plan);
        if plan.first_requirement_violation(plan.children.len(), tasks) is Some {
            requirement_faults_blame_an_input(plan, plan.children.len(), tasks, error);
        } else if plan.co_partition_violation() is Some {
        } else {
            duplications_blame_an_input(plan, plan.children.len(), tasks, error);
        }
        assert(blames(plan.at(here), tasks, error));
    }
}

proof fn lists_without_faults(plans: Seq<PlanView>, tasks: usize, i: int)
    requires
        crate::validate_stages::children_violation(plans, tasks) is None,
        0 <= i < plans.len(),
    ensures
        plans[i].violation(tasks) is None,
    decreases plans.len(),
{
    if i < plans.len() - 1 {
        lists_without_faults(plans.drop_last(), tasks, i);
    }
}

} // verus!

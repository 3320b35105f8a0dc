//! Checks that a stage computes the same whether it runs in one task or in several.
//!
//! Each subtree of a stage is either replicated, every task holding all of its rows, or
//! partitioned, every task holding a slice of them. Two obligations make the slices add up:
//!
//! - what a node demands of the distribution of an input must hold across all tasks, and not only
//!   within each of them;
//! - rows of a replicated input must not make it into the output on their own account, or they
//!   would come out once per task.
use crate::error::{DistributedError, DistributedErrorView, ErrorKind};
use crate::insert_broadcast::is_left_broadcast_safe;
use crate::plan::{
    DistributedTaskContext, Facts, InputRequirement, Operator, OperatorView, Partitioning, Plan,
    PlanView, Stage, StageView,
};
use std::sync::Arc;
use vstd::prelude::*;

verus! {

/// How the rows of a subtree are laid out across the tasks of its stage.
#[derive(Clone, Copy, PartialEq, Eq, Debug, Structural)]
pub enum DataFlow {
    /// Every task materializes the identical, complete dataset.
    Replicated,
    /// Every task materializes a slice, and the slices together are the whole. `claims_are_global`
    /// tells whether the partitioning that the subtree claims was established across all tasks.
    Partitioned { claims_are_global: bool },
}

impl PlanView {
    /// Whether the leaf hands out its rows by the partitions of its source, so that equal keys
    /// meet in one partition.
    pub open spec fn claims_keys(self) -> bool {
        match self.op {
            OperatorView::Scan { partitioning, .. } => partitioning is Hash || partitioning is Range,
            OperatorView::DistributedLeaf { partitioning } => partitioning is Hash
                || partitioning is Range,
            _ => false,
        }
    }

    /// Whether an estimator knows how to give every task a slice of the leaf.
    pub open spec fn is_task_varying(self) -> bool {
        self.facts matches Some(facts) && facts.estimate is Some
    }

    /// How the rows of the subtree are laid out across the tasks of its stage.
    pub open spec fn flow(self) -> DataFlow
        decreases self,
    {
        match self.op {
            OperatorView::NetworkBroadcast { .. } => DataFlow::Replicated,
            OperatorView::NetworkShuffle { .. } => DataFlow::Partitioned {
                claims_are_global: true,
            },
            OperatorView::DistributedLeaf { .. } => DataFlow::Partitioned {
                claims_are_global: self.claims_keys(),
            },
            OperatorView::ChildrenIsolatorUnion { .. } => DataFlow::Partitioned {
                claims_are_global: false,
            },
            _ => if self.children.len() == 0 {
                if self.is_task_varying() {
                    DataFlow::Partitioned { claims_are_global: self.claims_keys() }
                } else {
                    DataFlow::Replicated
                }
            } else if forall|i: int|
                0 <= i < self.children.len() ==> (#[trigger] self.children[i]).flow()
                    is Replicated {
                DataFlow::Replicated
            } else {
                DataFlow::Partitioned {
                    claims_are_global: !(self.op is Repartition) && forall|i: int|
                        0 <= i < self.children.len() ==> (#[trigger] self.children[i]).flow()
                            != (DataFlow::Partitioned { claims_are_global: false }),
                }
            },
        }
    }

    /// What the node demands of the input with this index.
    pub open spec fn requirement(self, input: int) -> InputRequirement {
        match self.facts {
            Some(facts) if 0 <= input < facts.requirements@.len() => facts.requirements@[input],
            _ => InputRequirement::Unspecified,
        }
    }

    /// How the demand on one input is violated in a stage of `tasks` tasks, if it is.
    pub open spec fn requirement_violation(self, input: int, tasks: usize) -> Option<
        DistributedErrorView,
    > {
        let name = self.op.name();
        let child = self.children[input];
        match (self.requirement(input), child.flow()) {
            (InputRequirement::SinglePartition, DataFlow::Partitioned { .. }) => Some(
                (ErrorKind::SlicedSinglePartition { input: input as usize, tasks }).about_input(
                    name,
                    child.op.name(),
                ),
            ),
            (
                InputRequirement::KeyPartitioned { satisfied, claimed },
                DataFlow::Partitioned { claims_are_global },
            ) => if !satisfied {
                Some(
                    (ErrorKind::UnsatisfiedKeys { input: input as usize }).about_input(
                        name,
                        child.op.name(),
                    ).detailed(claimed@),
                )
            } else if !claims_are_global {
                Some(
                    (ErrorKind::TaskLocalKeys { input: input as usize, tasks }).about_input(
                        name,
                        child.op.name(),
                    ),
                )
            } else {
                None
            },
            _ => None,
        }
    }

    /// The first violated demand among the inputs before `upto`.
    pub open spec fn first_requirement_violation(self, upto: nat, tasks: usize) -> Option<
        DistributedErrorView,
    >
        decreases upto,
    {
        if upto == 0 {
            None
        } else {
            match self.first_requirement_violation((upto - 1) as nat, tasks) {
                Some(error) => Some(error),
                None => self.requirement_violation(upto - 1, tasks),
            }
        }
    }

    /// Whether every child of the node is partitioned across the tasks.
    pub open spec fn all_partitioned(self) -> bool {
        forall|i: int|
            0 <= i < self.children.len() ==> (#[trigger] self.children[i]).flow() is Partitioned
    }

    /// The first input whose layout does not match that of its siblings. Copies in every task
    /// leave no layout to compare.
    pub open spec fn co_partition_violation(self) -> Option<DistributedErrorView> {
        match self.facts {
            Some(facts) if self.all_partitioned() => match facts.unsatisfied_co_partitioned {
                Some(input) => Some(
                    (ErrorKind::NotCoPartitioned { input }).about(self.op.name()),
                ),
                None => None,
            },
            _ => None,
        }
    }

    /// Whether the node emits rows on account of its input with this index, as opposed to merely
    /// looking rows up in it.
    pub open spec fn emits_rows_driven_by(self, input: int) -> bool {
        match self.op {
            OperatorView::HashJoin { join_type, .. } => input == 0
                && !join_type.left_broadcast_safe(),
            OperatorView::NestedLoopJoin { join_type, .. } => input == 0
                && !join_type.left_broadcast_safe(),
            OperatorView::CrossJoin => false,
            _ => true,
        }
    }

    /// The first replicated input before `upto` whose rows would come out once per task.
    pub open spec fn first_duplication(self, upto: nat, tasks: usize) -> Option<
        DistributedErrorView,
    >
        decreases upto,
    {
        if upto == 0 {
            None
        } else {
            match self.first_duplication((upto - 1) as nat, tasks) {
                Some(error) => Some(error),
                None => if self.children[upto - 1].flow() is Replicated
                    && self.emits_rows_driven_by(upto - 1) {
                    Some(
                        (ErrorKind::DuplicatedRows { input: (upto - 1) as usize, tasks }).about(
                            self.op.name(),
                        ),
                    )
                } else {
                    None
                },
            }
        }
    }

    /// The first violated obligation in the part of the subtree that belongs to its stage, when
    /// the stage runs in `tasks` tasks.
    pub open spec fn violation(self, tasks: usize) -> Option<DistributedErrorView>
        decreases self, 0nat,
    {
        match self.op {
            OperatorView::NetworkBroadcast { .. } => None,
            OperatorView::NetworkShuffle { .. } => None,
            OperatorView::NetworkCoalesce { .. } => Some(
                (ErrorKind::CoalesceInMultiTaskStage { tasks }).about(self.op.name()),
            ),
            OperatorView::DistributedLeaf { .. } => None,
            OperatorView::ChildrenIsolatorUnion { task_idx_map, .. } => {
                crate::validate_stages::isolated_violation(self.children, task_idx_map)
            },
            _ => if self.children.len() == 0 {
                None
            } else {
                match crate::validate_stages::children_violation(self.children, tasks) {
                    Some(error) => Some(error),
                    None => self.own_violation(tasks),
                }
            },
        }
    }

    /// The first violated obligation of the node itself.
    pub open spec fn own_violation(self, tasks: usize) -> Option<DistributedErrorView> {
        match self.first_requirement_violation(self.children.len(), tasks) {
            Some(error) => Some(error),
            None => match self.co_partition_violation() {
                Some(error) => Some(error),
                None => if self.flow() is Replicated {
                    None
                } else {
                    self.first_duplication(self.children.len(), tasks)
                },
            },
        }
    }
}

/// The first violated obligation in a list of subtrees.
pub open spec fn children_violation(children: Seq<PlanView>, tasks: usize) -> Option<
    DistributedErrorView,
>
    decreases children, 1nat,
{
    if children.len() == 0 {
        None
    } else {
        match children_violation(children.drop_last(), tasks) {
            Some(error) => Some(error),
            None => children.last().violation(tasks),
        }
    }
}

/// Whether a task with this entry of the map executes the child.
pub open spec fn executes(entry: Seq<(usize, DistributedTaskContext)>, child: int) -> bool {
    exists|i: int| 0 <= i < entry.len() && (#[trigger] entry[i]).0 == child
}

/// In how many tasks an isolated union executes the child.
pub open spec fn tasks_of_child(
    task_idx_map: Seq<Seq<(usize, DistributedTaskContext)>>,
    child: int,
) -> nat
    decreases task_idx_map.len(),
{
    if task_idx_map.len() == 0 {
        0
    } else {
        tasks_of_child(task_idx_map.drop_last(), child) + if executes(task_idx_map.last(), child) {
            1nat
        } else {
            0nat
        }
    }
}

/// The first violated obligation among the children of an isolated union, each taken with the
/// number of tasks that it runs in. A child with a single task is its own master.
pub open spec fn isolated_violation(
    children: Seq<PlanView>,
    task_idx_map: Seq<Seq<(usize, DistributedTaskContext)>>,
) -> Option<DistributedErrorView>
    decreases children, 1nat,
{
    if children.len() == 0 {
        None
    } else {
        match isolated_violation(children.drop_last(), task_idx_map) {
            Some(error) => Some(error),
            None => {
                let child = children.last();
                let input = children.len() - 1;
                let tasks = tasks_of_child(task_idx_map, input);
                if tasks <= 1 {
                    None
                } else {
                    match child.violation(tasks as usize) {
                        Some(error) => Some(error),
                        None => if child.flow() is Replicated {
                            Some(
                                (ErrorKind::ReplicatedUnionInput {
                                    input: input as usize,
                                    tasks: tasks as usize,
                                }).about("ChildrenIsolatorUnionExec"@),
                            )
                        } else {
                            None
                        },
                    }
                }
            },
        }
    }
}

/// What the classification of a subtree comes to.
pub open spec fn classification(plan: PlanView, tasks: usize) -> Result<
    DataFlow,
    DistributedErrorView,
> {
    match plan.violation(tasks) {
        Some(error) => Err(error),
        None => Ok(plan.flow()),
    }
}

fn claims_keys(node: &Plan) -> (result: bool)
    ensures
        result == node@.claims_keys(),
    decreases node,
{
    match &*node.op {
        Operator::Scan { partitioning, .. } => match partitioning {
            Partitioning::Hash(..) => true,
            Partitioning::Range(..) => true,
            _ => false,
        },
        Operator::DistributedLeaf { partitioning } => match partitioning {
            Partitioning::Hash(..) => true,
            Partitioning::Range(..) => true,
            _ => false,
        },
        _ => false,
    }
}

fn is_task_varying(node: &Plan) -> (result: bool)
    ensures
        result == node@.is_task_varying(),
{
    match &node.facts {
        Some(facts) => facts.estimate.is_some(),
        None => false,
    }
}

/// Whether a node emits rows on account of its input with this index. Operators that are not
/// known to only look rows up in an input count as emitting them.
pub fn emits_rows_driven_by(node: &Plan, child_idx: usize) -> (result: bool)
    ensures
        result == node@.emits_rows_driven_by(child_idx as int),
{
    match &*node.op {
        Operator::HashJoin { join_type, .. } => child_idx == 0 && !is_left_broadcast_safe(join_type),
        Operator::NestedLoopJoin { join_type, .. } => child_idx == 0 && !is_left_broadcast_safe(
            join_type,
        ),
        Operator::CrossJoin => false,
        _ => true,
    }
}

fn task_executes(entry: &Vec<(usize, DistributedTaskContext)>, child: usize) -> (result: bool)
    ensures
        result == executes(entry@, child as int),
{
    let mut i: usize = 0;
    while i < entry.len()
        invariant
            0 <= i <= entry@.len(),
            forall|j: int| 0 <= j < i ==> (#[trigger] entry@[j]).0 != child,
        decreases entry@.len() - i,
    {
        if entry[i].0 == child {
            return true;
        }
        i += 1;
    }
    false
}

/// In how many tasks an isolated union with this map executes the child.
pub fn child_task_count(
    task_idx_map: &Vec<Vec<(usize, DistributedTaskContext)>>,
    child: usize,
) -> (result: usize)
    ensures
        result == tasks_of_child(
            task_idx_map@.map_values(|entry: Vec<(usize, DistributedTaskContext)>| entry@),
            child as int,
        ),
        result <= task_idx_map@.len(),
{
    let ghost map = task_idx_map@.map_values(|entry: Vec<(usize, DistributedTaskContext)>| entry@);
    let mut count: usize = 0;
    let mut i: usize = 0;
    while i < task_idx_map.len()
        invariant
            0 <= i <= task_idx_map@.len(),
            count <= i,
            map == task_idx_map@.map_values(|entry: Vec<(usize, DistributedTaskContext)>| entry@),
            count == tasks_of_child(map.take(i as int), child as int),
        decreases task_idx_map@.len() - i,
    {
        proof {
            assert(map.take(i + 1).drop_last() =~= map.take(i as int));
            assert(map[i as int] == task_idx_map@[i as int]@);
        }
        if task_executes(&task_idx_map[i], child) {
            count += 1;
        }
        i += 1;
    }
    proof {
        assert(map.take(i as int) =~= map);
    }
    count
}

/// Whether the outcome of a classification is the one that is due.
pub open spec fn classified(
    result: Result<DataFlow, DistributedError>,
    plan: PlanView,
    tasks: usize,
) -> bool {
    match result {
        Ok(flow) => classification(plan, tasks) == Ok::<_, DistributedErrorView>(flow),
        Err(error) => classification(plan, tasks) == Err::<DataFlow, _>(error@),
    }
}

/// A violation among the first children of a node is the first violation among all of them.
proof fn children_violation_is_final(children: Seq<PlanView>, tasks: usize, upto: int)
    requires
        0 <= upto <= children.len(),
        children_violation(children.take(upto), tasks) is Some,
    ensures
        children_violation(children, tasks) == children_violation(children.take(upto), tasks),
    decreases children.len() - upto,
{
    if upto == children.len() {
        assert(children.take(upto) =~= children);
    } else {
        assert(children.take(upto + 1).drop_last() =~= children.take(upto));
        children_violation_is_final(children, tasks, upto + 1);
    }
}

proof fn isolated_violation_is_final(
    children: Seq<PlanView>,
    task_idx_map: Seq<Seq<(usize, DistributedTaskContext)>>,
    upto: int,
)
    requires
        0 <= upto <= children.len(),
        isolated_violation(children.take(upto), task_idx_map) is Some,
    ensures
        isolated_violation(children, task_idx_map) == isolated_violation(
            children.take(upto),
            task_idx_map,
        ),
    decreases children.len() - upto,
{
    if upto == children.len() {
        assert(children.take(upto) =~= children);
    } else {
        assert(children.take(upto + 1).drop_last() =~= children.take(upto));
        isolated_violation_is_final(children, task_idx_map, upto + 1);
    }
}

proof fn requirement_violation_is_final(node: PlanView, tasks: usize, upto: nat, all: nat)
    requires
        upto <= all,
        node.first_requirement_violation(upto, tasks) is Some,
    ensures
        node.first_requirement_violation(all, tasks) == node.first_requirement_violation(
            upto,
            tasks,
        ),
    decreases all,
{
    if upto < all {
        requirement_violation_is_final(node, tasks, upto, (all - 1) as nat);
    }
}

proof fn duplication_is_final(node: PlanView, tasks: usize, upto: nat, all: nat)
    requires
        upto <= all,
        node.first_duplication(upto, tasks) is Some,
    ensures
        node.first_duplication(all, tasks) == node.first_duplication(upto, tasks),
    decreases all,
{
    if upto < all {
        duplication_is_final(node, tasks, upto, (all - 1) as nat);
    }
}

/// The demand of a node on the input with this index.
fn requirement(node: &Plan, input: usize) -> (result: &InputRequirement)
    ensures
        *result == node@.requirement(input as int),
{
    match &node.facts {
        Some(facts) => if input < facts.requirements.len() {
            &facts.requirements[input]
        } else {
            &InputRequirement::Unspecified
        },
        None => &InputRequirement::Unspecified,
    }
}

/// Checks that every demand of a node on its inputs holds across the tasks.
fn check_requirements(node: &Plan, flows: &Vec<DataFlow>, tasks: usize) -> (result: Result<
    (),
    DistributedError,
>)
    requires
        flows@.len() == node@.children.len(),
        forall|i: int| 0 <= i < flows@.len() ==> flows@[i] == (#[trigger] node@.children[i]).flow(),
    ensures
        match result {
            Ok(_) => node@.first_requirement_violation(node@.children.len(), tasks) is None,
            Err(error) => node@.first_requirement_violation(node@.children.len(), tasks) == Some(
                error@,
            ),
        },
{
    let mut idx: usize = 0;
    while idx < node.children.len()
        invariant
            0 <= idx <= node.children@.len(),
            node@.children.len() == node.children@.len(),
            flows@.len() == node@.children.len(),
            forall|i: int|
                0 <= i < flows@.len() ==> flows@[i] == (#[trigger] node@.children[i]).flow(),
            node@.first_requirement_violation(idx as nat, tasks) is None,
        decreases node.children@.len() - idx,
    {
        let flow = flows[idx];
        let child = &node.children[idx];
        let ghost next = (idx + 1) as nat;
        proof {
            assert(node@.children[idx as int] == child@);
            assert(node@.first_requirement_violation(next, tasks) == node@.requirement_violation(
                idx as int,
                tasks,
            ));
            if node@.first_requirement_violation(next, tasks) is Some {
                requirement_violation_is_final(node@, tasks, next, node@.children.len());
            }
        }
        match requirement(node, idx) {
            InputRequirement::Unspecified => {},
            InputRequirement::SinglePartition => match flow {
                DataFlow::Partitioned { .. } => {
                    return Err(
                        DistributedError::about_input(
                            ErrorKind::SlicedSinglePartition { input: idx, tasks },
                            node.op.name(),
                            child.op.name(),
                        ),
                    );
                },
                DataFlow::Replicated => {},
            },
            InputRequirement::KeyPartitioned { satisfied, claimed } => match flow {
                DataFlow::Partitioned { claims_are_global } => {
                    if !*satisfied {
                        return Err(
                            DistributedError::about_input(
                                ErrorKind::UnsatisfiedKeys { input: idx },
                                node.op.name(),
                                child.op.name(),
                            ).with_detail(claimed.clone()),
                        );
                    }
                    if !claims_are_global {
                        return Err(
                            DistributedError::about_input(
                                ErrorKind::TaskLocalKeys { input: idx, tasks },
                                node.op.name(),
                                child.op.name(),
                            ),
                        );
                    }
                },
                DataFlow::Replicated => {},
            },
        }
        idx += 1;
    }
    Ok(())
}

/// Checks that no rows of a replicated input come out once per task.
fn check_duplication(node: &Plan, flows: &Vec<DataFlow>, tasks: usize) -> (result: Result<
    (),
    DistributedError,
>)
    requires
        flows@.len() == node@.children.len(),
        forall|i: int| 0 <= i < flows@.len() ==> flows@[i] == (#[trigger] node@.children[i]).flow(),
    ensures
        match result {
            Ok(_) => node@.first_duplication(node@.children.len(), tasks) is None,
            Err(error) => node@.first_duplication(node@.children.len(), tasks) == Some(error@),
        },
{
    let mut idx: usize = 0;
    while idx < flows.len()
        invariant
            0 <= idx <= flows@.len(),
            flows@.len() == node@.children.len(),
            forall|i: int|
                0 <= i < flows@.len() ==> flows@[i] == (#[trigger] node@.children[i]).flow(),
            node@.first_duplication(idx as nat, tasks) is None,
        decreases flows@.len() - idx,
    {
        let ghost next = (idx + 1) as nat;
        proof {
            assert(flows@[idx as int] == node@.children[idx as int].flow());
            if node@.first_duplication(next, tasks) is Some {
                duplication_is_final(node@, tasks, next, node@.children.len());
            }
        }
        match flows[idx] {
            DataFlow::Replicated => if emits_rows_driven_by(node, idx) {
                return Err(
                    DistributedError::about(
                        ErrorKind::DuplicatedRows { input: idx, tasks },
                        node.op.name(),
                    ),
                );
            },
            DataFlow::Partitioned { .. } => {},
        }
        idx += 1;
    }
    Ok(())
}

fn all_partitioned(node: &Plan, flows: &Vec<DataFlow>) -> (result: bool)
    requires
        flows@.len() == node@.children.len(),
        forall|i: int| 0 <= i < flows@.len() ==> flows@[i] == (#[trigger] node@.children[i]).flow(),
    ensures
        result == node@.all_partitioned(),
{
    let mut i: usize = 0;
    while i < flows.len()
        invariant
            0 <= i <= flows@.len(),
            flows@.len() == node@.children.len(),
            forall|j: int|
                0 <= j < flows@.len() ==> flows@[j] == (#[trigger] node@.children[j]).flow(),
            forall|j: int| 0 <= j < i ==> (#[trigger] node@.children[j]).flow() is Partitioned,
        decreases flows@.len() - i,
    {
        match flows[i] {
            DataFlow::Replicated => {
                proof {
                    assert(!(node@.children[i as int].flow() is Partitioned));
                }
                return false;
            },
            DataFlow::Partitioned { .. } => {},
        }
        i += 1;
    }
    true
}

/// How an inner node spreads rows, given how its children do.
fn combined_flow(node: &Plan, flows: &Vec<DataFlow>) -> (result: DataFlow)
    requires
        flows@.len() == node@.children.len(),
        flows@.len() > 0,
        forall|i: int| 0 <= i < flows@.len() ==> flows@[i] == (#[trigger] node@.children[i]).flow(),
        !(node@.op is NetworkBroadcast || node@.op is NetworkShuffle || node@.op is DistributedLeaf
            || node@.op is ChildrenIsolatorUnion),
    ensures
        result == node@.flow(),
{
    let mut any_partitioned = false;
    let mut claims_are_global = true;
    let mut i: usize = 0;
    while i < flows.len()
        invariant
            0 <= i <= flows@.len(),
            flows@.len() == node@.children.len(),
            forall|j: int|
                0 <= j < flows@.len() ==> flows@[j] == (#[trigger] node@.children[j]).flow(),
            any_partitioned <==> exists|j: int|
                0 <= j < i && !((#[trigger] node@.children[j]).flow() is Replicated),
            claims_are_global <==> forall|j: int|
                0 <= j < i ==> (#[trigger] node@.children[j]).flow() != (DataFlow::Partitioned {
                    claims_are_global: false,
                }),
        decreases flows@.len() - i,
    {
        proof {
            assert(flows@[i as int] == node@.children[i as int].flow());
        }
        match flows[i] {
            DataFlow::Replicated => {},
            DataFlow::Partitioned { claims_are_global: global } => {
                any_partitioned = true;
                if !global {
                    claims_are_global = false;
                }
            },
        }
        i += 1;
    }
    if !any_partitioned {
        return DataFlow::Replicated;
    }
    let is_repartition = match &*node.op {
        Operator::Repartition { .. } => true,
        _ => false,
    };
    DataFlow::Partitioned { claims_are_global: !is_repartition && claims_are_global }
}

/// Classifies the output of a node and checks both obligations for its inputs. Network boundaries
/// end the stage, what lies below them is a stage of its own.
pub fn classify(node: &Plan, tasks: usize) -> (result: Result<DataFlow, DistributedError>)
    ensures
        classified(result, node@, tasks),
    decreases node,
{
    match &*node.op {
        Operator::NetworkBroadcast { .. } => {
            return Ok(DataFlow::Replicated);
        },
        Operator::NetworkShuffle { .. } => {
            return Ok(DataFlow::Partitioned { claims_are_global: true });
        },
        Operator::NetworkCoalesce { .. } => {
            return Err(
                DistributedError::about(
                    ErrorKind::CoalesceInMultiTaskStage { tasks },
                    node.op.name(),
                ),
            );
        },
        Operator::DistributedLeaf { .. } => {
            return Ok(DataFlow::Partitioned { claims_are_global: claims_keys(node) });
        },
        Operator::ChildrenIsolatorUnion { task_idx_map, .. } => {
            let ghost map = task_idx_map@.map_values(
                |entry: Vec<(usize, DistributedTaskContext)>| entry@,
            );
            let ghost children = node@.children;
            let mut child_idx: usize = 0;
            while child_idx < node.children.len()
                invariant
                    0 <= child_idx <= node.children@.len(),
                    children == node@.children,
                    children.len() == node.children@.len(),
                    map == task_idx_map@.map_values(
                        |entry: Vec<(usize, DistributedTaskContext)>| entry@,
                    ),
                    isolated_violation(children.take(child_idx as int), map) is None,
                    node@.violation(tasks) == isolated_violation(children, map),
                    node@.op.name() == "ChildrenIsolatorUnionExec"@,
                decreases node.children@.len() - child_idx,
            {
                let child = &node.children[child_idx];
                proof {
                    assert(children[child_idx as int] == child@);
                    assert(children.take(child_idx + 1).drop_last() =~= children.take(
                        child_idx as int,
                    ));
                    if isolated_violation(children.take(child_idx + 1), map) is Some {
                        isolated_violation_is_final(children, map, child_idx + 1);
                    }
                }
                let child_tasks: usize = child_task_count(task_idx_map, child_idx);
                if child_tasks > 1 {
                    match classify(child, child_tasks)? {
                        DataFlow::Replicated => {
                            return Err(
                                DistributedError::about(
                                    ErrorKind::ReplicatedUnionInput {
                                        input: child_idx,
                                        tasks: child_tasks,
                                    },
                                    node.op.name(),
                                ),
                            );
                        },
                        DataFlow::Partitioned { .. } => {},
                    }
                }
                child_idx += 1;
            }
            proof {
                assert(children.take(child_idx as int) =~= children);
            }
            return Ok(DataFlow::Partitioned { claims_are_global: false });
        },
        _ => {},
    }
    if node.children.len() == 0 {
        return Ok(
            if is_task_varying(node) {
                DataFlow::Partitioned { claims_are_global: claims_keys(node) }
            } else {
                DataFlow::Replicated
            },
        );
    }
    let ghost children = node@.children;
    let mut flows: Vec<DataFlow> = Vec::new();
    let mut i: usize = 0;
    while i < node.children.len()
        invariant
            0 <= i <= node.children@.len(),
            children == node@.children,
            children.len() == node.children@.len(),
            flows@.len() == i,
            forall|j: int| 0 <= j < i ==> flows@[j] == (#[trigger] children[j]).flow(),
            children_violation(children.take(i as int), tasks) is None,
            node@.violation(tasks) == (match children_violation(children, tasks) {
                Some(error) => Some(error),
                None => node@.own_violation(tasks),
            }),
        decreases node.children@.len() - i,
    {
        let child = &node.children[i];
        proof {
            assert(children[i as int] == child@);
            assert(children.take(i + 1).drop_last() =~= children.take(i as int));
            if children_violation(children.take(i + 1), tasks) is Some {
                children_violation_is_final(children, tasks, i + 1);
            }
        }
        let flow = classify(child, tasks)?;
        flows.push(flow);
        i += 1;
    }
    proof {
        assert(children.take(i as int) =~= children);
    }
    check_requirements(node, &flows, tasks)?;
    if all_partitioned(node, &flows) {
        match &node.facts {
            Some(facts) => match facts.unsatisfied_co_partitioned {
                Some(input) => {
                    return Err(
                        DistributedError::about(
                            ErrorKind::NotCoPartitioned { input },
                            node.op.name(),
                        ),
                    );
                },
                None => {},
            },
            None => {},
        }
    }
    let flow = combined_flow(node, &flows);
    match flow {
        DataFlow::Replicated => Ok(flow),
        DataFlow::Partitioned { .. } => {
            check_duplication(node, &flows, tasks)?;
            Ok(flow)
        },
    }
}

/// What is wrong with a stage of this plan and this many tasks, if anything is. One task sees all
/// the data and is always right.
pub open spec fn stage_violation(plan: PlanView, tasks: usize) -> Option<DistributedErrorView> {
    if tasks <= 1 {
        None
    } else {
        match plan.violation(tasks) {
            Some(error) => Some(error),
            None => if plan.flow() is Replicated {
                Some((ErrorKind::FullyReplicatedStage { tasks }).plain())
            } else {
                None
            },
        }
    }
}

/// Checks the plan of a single stage against its number of tasks.
pub fn validate_stage_plan(plan: &Plan, tasks: usize) -> (result: Result<(), DistributedError>)
    ensures
        match result {
            Ok(_) => stage_violation(plan@, tasks) is None,
            Err(error) => stage_violation(plan@, tasks) == Some(error@),
        },
{
    if tasks <= 1 {
        return Ok(());
    }
    match classify(plan, tasks)? {
        DataFlow::Partitioned { .. } => Ok(()),
        DataFlow::Replicated => Err(
            DistributedError::new(ErrorKind::FullyReplicatedStage { tasks }),
        ),
    }
}

/// What is wrong with the stage that feeds a network boundary, if it is local and anything is.
pub open spec fn input_stage_violation(plan: PlanView) -> Option<DistributedErrorView> {
    if plan.op.is_network_boundary() && plan.children.len() > 0 {
        match plan.op.input_stage() {
            StageView::Local { tasks, .. } => stage_violation(plan.children[0], tasks),
            StageView::Remote { .. } => None,
        }
    } else {
        None
    }
}

/// What is wrong with the first faulty stage of a plan, met from the root downwards.
pub open spec fn plan_violation(plan: PlanView) -> Option<DistributedErrorView>
    decreases plan, 0nat,
{
    match input_stage_violation(plan) {
        Some(error) => Some(error),
        None => plans_violation(plan.children),
    }
}

pub open spec fn plans_violation(plans: Seq<PlanView>) -> Option<DistributedErrorView>
    decreases plans, 1nat,
{
    if plans.len() == 0 {
        None
    } else {
        match plans_violation(plans.drop_last()) {
            Some(error) => Some(error),
            None => plan_violation(plans.last()),
        }
    }
}

proof fn plans_violation_is_final(plans: Seq<PlanView>, upto: int)
    requires
        0 <= upto <= plans.len(),
        plans_violation(plans.take(upto)) is Some,
    ensures
        plans_violation(plans) == plans_violation(plans.take(upto)),
    decreases plans.len() - upto,
{
    if upto == plans.len() {
        assert(plans.take(upto) =~= plans);
    } else {
        assert(plans.take(upto + 1).drop_last() =~= plans.take(upto));
        plans_violation_is_final(plans, upto + 1);
    }
}

/// Checks every local stage of a distributed plan.
pub fn validate_distributed_stages(plan: &Plan) -> (result: Result<(), DistributedError>)
    ensures
        match result {
            Ok(_) => plan_violation(plan@) is None,
            Err(error) => plan_violation(plan@) == Some(error@),
        },
    decreases plan,
{
    if plan.children.len() > 0 {
        match plan.op.as_network_boundary() {
            Some(Stage::Local { tasks, .. }) => {
                proof {
                    assert(plan@.children[0] == plan.children@[0]@);
                }
                validate_stage_plan(&plan.children[0], *tasks)?;
            },
            _ => {},
        }
    }
    let ghost children = plan@.children;
    let mut i: usize = 0;
    while i < plan.children.len()
        invariant
            0 <= i <= plan.children@.len(),
            children == plan@.children,
            children.len() == plan.children@.len(),
            input_stage_violation(plan@) is None,
            plans_violation(children.take(i as int)) is None,
        decreases plan.children@.len() - i,
    {
        let child = &plan.children[i];
        proof {
            assert(children[i as int] == child@);
            assert(children.take(i + 1).drop_last() =~= children.take(i as int));
            if plans_violation(children.take(i + 1)) is Some {
                plans_violation_is_final(children, i + 1);
            }
        }
        validate_distributed_stages(child)?;
        i += 1;
    }
    proof {
        assert(children.take(i as int) =~= children);
    }
    Ok(())
}

impl PlanView {
    /// Both obligations of one node: its demands hold across all tasks, and it emits no rows on
    /// account of a replicated input unless it is replicated itself.
    pub open spec fn meets_obligations(self) -> bool {
        &&& forall|i: int|
            0 <= i < self.children.len() && #[trigger] self.requirement(i) is SinglePartition
                ==> self.children[i].flow() is Replicated
        &&& forall|i: int|
            0 <= i < self.children.len() && self.children[i].flow() is Partitioned ==> (
            #[trigger] self.requirement(i) matches InputRequirement::KeyPartitioned { satisfied, .. }
                ==> satisfied && self.children[i].flow() == (DataFlow::Partitioned {
                claims_are_global: true,
            }))
        &&& self.all_partitioned() ==> (self.facts matches Some(facts)
            ==> facts.unsatisfied_co_partitioned is None)
        &&& self.flow() is Partitioned ==> forall|i: int|
            0 <= i < self.children.len() && self.children[i].flow() is Replicated
                ==> !#[trigger] self.emits_rows_driven_by(i)
    }

    /// Whether every node of the subtree that belongs to a stage of several tasks meets its
    /// obligations there, and nothing in it needs to run in a single task.
    pub open spec fn is_sound(self) -> bool
        decreases self,
    {
        match self.op {
            OperatorView::NetworkBroadcast { .. } => true,
            OperatorView::NetworkShuffle { .. } => true,
            OperatorView::NetworkCoalesce { .. } => false,
            OperatorView::DistributedLeaf { .. } => true,
            OperatorView::ChildrenIsolatorUnion { task_idx_map, .. } => forall|i: int|
                #![trigger self.children[i]]
                0 <= i < self.children.len() && crate::validate_stages::tasks_of_child(
                    task_idx_map,
                    i,
                ) > 1 ==> self.children[i].is_sound() && self.children[i].flow() is Partitioned,
            _ => self.children.len() > 0 ==> {
                &&& forall|i: int|
                    0 <= i < self.children.len() ==> (#[trigger] self.children[i]).is_sound()
                &&& self.meets_obligations()
            },
        }
    }
}

proof fn requirements_hold(node: PlanView, tasks: usize, upto: nat)
    requires
        upto <= node.children.len(),
    ensures
        node.first_requirement_violation(upto, tasks) is None <==> forall|i: int|
            0 <= i < upto ==> #[trigger] node.requirement_violation(i, tasks) is None,
    decreases upto,
{
    if upto > 0 {
        requirements_hold(node, tasks, (upto - 1) as nat);
    }
}

proof fn nothing_is_duplicated(node: PlanView, tasks: usize, upto: nat)
    requires
        upto <= node.children.len(),
    ensures
        node.first_duplication(upto, tasks) is None <==> forall|i: int|
            0 <= i < upto && node.children[i].flow() is Replicated
                ==> !#[trigger] node.emits_rows_driven_by(i),
    decreases upto,
{
    if upto > 0 {
        nothing_is_duplicated(node, tasks, (upto - 1) as nat);
    }
}

proof fn node_is_checked_exactly(node: PlanView, tasks: usize)
    ensures
        node.own_violation(tasks) is None <==> node.meets_obligations(),
{
    let n = node.children.len();
    requirements_hold(node, tasks, n);
    nothing_is_duplicated(node, tasks, n);
    if node.meets_obligations() {
        assert forall|i: int| 0 <= i < n implies #[trigger] node.requirement_violation(i, tasks)
            is None by {
            assert(node.requirement(i) == node.requirement(i));
        }
    }
    if node.own_violation(tasks) is None {
        assert forall|i: int|
            0 <= i < n && #[trigger] node.requirement(i)
                is SinglePartition implies node.children[i].flow() is Replicated by {
            assert(node.requirement_violation(i, tasks) is None);
        }
        assert forall|i: int| 0 <= i < n && node.children[i].flow() is Partitioned implies (
        #[trigger] node.requirement(i) matches InputRequirement::KeyPartitioned { satisfied, .. }
            ==> satisfied && node.children[i].flow() == (DataFlow::Partitioned {
            claims_are_global: true,
        })) by {
            assert(node.requirement_violation(i, tasks) is None);
        }
    }
}

proof fn children_are_checked_exactly(children: Seq<PlanView>, tasks: usize)
    ensures
        children_violation(children, tasks) is None <==> forall|i: int|
            0 <= i < children.len() ==> (#[trigger] children[i]).is_sound(),
    decreases children, 1nat,
{
    if children.len() > 0 {
        children_are_checked_exactly(children.drop_last(), tasks);
        validation_is_exact(children.last(), tasks);
        let shorter = children.drop_last();
        assert(forall|i: int| 0 <= i < shorter.len() ==> shorter[i] == children[i]);
        if forall|i: int| 0 <= i < children.len() ==> (#[trigger] children[i]).is_sound() {
            assert forall|i: int| 0 <= i < shorter.len() implies (
            #[trigger] shorter[i]).is_sound() by {
                assert(children[i].is_sound());
            }
        }
        if children_violation(children, tasks) is None {
            assert forall|i: int| 0 <= i < children.len() implies (
            #[trigger] children[i]).is_sound() by {
                if i < shorter.len() {
                    assert(shorter[i].is_sound());
                }
            }
        }
    }
}

proof fn isolated_children_are_checked_exactly(
    children: Seq<PlanView>,
    map: Seq<Seq<(usize, DistributedTaskContext)>>,
)
    ensures
        isolated_violation(children, map) is None <==> forall|i: int|
            #![trigger children[i]]
            0 <= i < children.len() && tasks_of_child(map, i) > 1 ==> children[i].is_sound()
                && children[i].flow() is Partitioned,
    decreases children, 1nat,
{
    if children.len() > 0 {
        let shorter = children.drop_last();
        let last = children.len() - 1;
        isolated_children_are_checked_exactly(shorter, map);
        validation_is_exact(children.last(), tasks_of_child(map, last) as usize);
        assert(forall|i: int| 0 <= i < shorter.len() ==> #[trigger] shorter[i] == children[i]);
        if isolated_violation(children, map) is None {
            assert forall|i: int|
                #![trigger children[i]]
                0 <= i < children.len() && tasks_of_child(map, i)
                    > 1 implies children[i].is_sound() && children[i].flow() is Partitioned by {
                if i < last {
                    assert(shorter[i] == children[i]);
                }
            }
        } else if forall|i: int|
            #![trigger children[i]]
            0 <= i < children.len() && tasks_of_child(map, i) > 1 ==> children[i].is_sound()
                && children[i].flow() is Partitioned {
            assert forall|i: int|
                #![trigger shorter[i]]
                0 <= i < shorter.len() && tasks_of_child(map, i)
                    > 1 implies shorter[i].is_sound() && shorter[i].flow() is Partitioned by {
                assert(shorter[i] == children[i]);
            }
            assert(children[last] == children.last());
        }
    }
}

/// Classification fails exactly on the plans with a node that breaks one of its obligations when
/// the stage runs in several tasks.
pub proof fn validation_is_exact(plan: PlanView, tasks: usize)
    ensures
        plan.violation(tasks) is None <==> plan.is_sound(),
    decreases plan, 0nat,
{
    match plan.op {
        OperatorView::ChildrenIsolatorUnion { task_idx_map, .. } => {
            isolated_children_are_checked_exactly(plan.children, task_idx_map);
        },
        _ => {
            children_are_checked_exactly(plan.children, tasks);
            node_is_checked_exactly(plan, tasks);
        },
    }
}

/// A stage of several tasks is accepted exactly when its plan is sound in several tasks and its
/// tasks do not all produce the same rows.
pub proof fn accepted_stages_are_sound(plan: PlanView, tasks: usize)
    requires
        tasks > 1,
    ensures
        stage_violation(plan, tasks) is None <==> plan.is_sound() && plan.flow() is Partitioned,
{
    validation_is_exact(plan, tasks);
}

} // verus!

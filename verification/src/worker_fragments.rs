//! The work that a distributed plan hands to workers, one fragment for each task of each stage.
use crate::boundary_factory::BoundaryKind;
use crate::ids::Uuid;
use crate::plan::{Operator, OperatorView, Plan, PlanView, Stage, StageView};
use std::sync::Arc;
use vstd::prelude::*;

verus! {

/// A task of a stage that some worker has to execute. Who that is, and where the partitions that
/// the task produces go, is up to the caller.
#[derive(Debug)]
pub struct WorkerFragment {
    /// The number of the stage.
    pub stage_id: u32,
    pub task_idx: usize,
    /// The number of tasks of the stage.
    pub task_count: usize,
    /// What the task executes.
    pub plan: Arc<Plan>,
    /// The network boundary that reads from the stage.
    pub kind: BoundaryKind,
    /// How many partitions each task above the boundary reads: task `t` reads those from
    /// `partitions_per_consumer_task * t` on.
    pub partitions_per_consumer_task: usize,
    /// Whether the boundary lies in another stage that workers execute.
    pub nested: bool,
}

/// The mathematical view of a [`WorkerFragment`].
#[verifier::ext_equal]
pub struct WorkerFragmentView {
    pub stage_id: u32,
    pub task_idx: usize,
    pub task_count: usize,
    pub plan: PlanView,
    pub kind: BoundaryKind,
    pub partitions_per_consumer_task: usize,
    pub nested: bool,
}

impl View for WorkerFragment {
    type V = WorkerFragmentView;

    open spec fn view(&self) -> WorkerFragmentView {
        WorkerFragmentView {
            stage_id: self.stage_id,
            task_idx: self.task_idx,
            task_count: self.task_count,
            plan: self.plan@,
            kind: self.kind,
            partitions_per_consumer_task: self.partitions_per_consumer_task,
            nested: self.nested,
        }
    }
}

/// The fragments of a list.
pub open spec fn fragment_views(fragments: Seq<WorkerFragment>) -> Seq<WorkerFragmentView> {
    fragments.map_values(|fragment: WorkerFragment| fragment@)
}

impl OperatorView {
    /// What kind of network boundary the operator is.
    pub open spec fn boundary_kind(self) -> BoundaryKind {
        match self {
            OperatorView::NetworkShuffle { .. } => BoundaryKind::Shuffle,
            OperatorView::NetworkBroadcast { .. } => BoundaryKind::Broadcast,
            _ => BoundaryKind::Coalesce,
        }
    }
}

impl Operator {
    /// What kind of network boundary the operator is.
    pub fn boundary_kind(&self) -> (result: BoundaryKind)
        requires
            self@.is_network_boundary(),
        ensures
            result == self@.boundary_kind(),
    {
        match self {
            Operator::NetworkShuffle { .. } => BoundaryKind::Shuffle,
            Operator::NetworkBroadcast { .. } => BoundaryKind::Broadcast,
            _ => BoundaryKind::Coalesce,
        }
    }
}

impl PlanView {
    /// Whether the node is a network boundary over a stage whose plan is at hand.
    pub open spec fn tops_local_stage(self) -> bool {
        self.op.is_network_boundary() && self.op.input_stage() is Local && self.children.len() > 0
    }

    /// The fragments of the stage below a network boundary.
    pub open spec fn own_fragments(self, nested: bool) -> Seq<WorkerFragmentView> {
        let stage = self.op.input_stage();
        Seq::new(
            stage.task_count(),
            |i: int|
                WorkerFragmentView {
                    stage_id: stage.num() as u32,
                    task_idx: i as usize,
                    task_count: stage.task_count() as usize,
                    plan: self.children[0],
                    kind: self.op.boundary_kind(),
                    partitions_per_consumer_task: self.op.boundary_output().count(),
                    nested,
                },
        )
    }

    /// The fragments of a plan: those of a stage before those of the stages below it.
    pub open spec fn fragments(self, nested: bool) -> Seq<WorkerFragmentView>
        decreases self, 0nat,
    {
        if self.op.is_network_boundary() {
            if self.tops_local_stage() {
                self.own_fragments(nested) + self.children[0].fragments(true)
            } else {
                Seq::empty()
            }
        } else {
            crate::worker_fragments::fragments_of_all(self.children, nested)
        }
    }

    /// The numbers of the stages that have fragments, in the order of these.
    pub open spec fn fragment_stages(self) -> Seq<u32>
        decreases self, 0nat,
    {
        if self.op.is_network_boundary() {
            if self.tops_local_stage() {
                seq![self.op.input_stage().num() as u32] + self.children[0].fragment_stages()
            } else {
                Seq::empty()
            }
        } else {
            crate::worker_fragments::fragment_stages_of_all(self.children)
        }
    }
}

/// The fragments of several plans.
pub open spec fn fragments_of_all(plans: Seq<PlanView>, nested: bool) -> Seq<WorkerFragmentView>
    decreases plans, 1nat,
{
    if plans.len() == 0 {
        Seq::empty()
    } else {
        fragments_of_all(plans.drop_last(), nested) + plans.last().fragments(nested)
    }
}

/// The numbers of the stages of several plans that have fragments.
pub open spec fn fragment_stages_of_all(plans: Seq<PlanView>) -> Seq<u32>
    decreases plans, 1nat,
{
    if plans.len() == 0 {
        Seq::empty()
    } else {
        fragment_stages_of_all(plans.drop_last()) + plans.last().fragment_stages()
    }
}

fn walk(plan: &Plan, nested: bool, fragments: &mut Vec<WorkerFragment>)
    ensures
        fragment_views(final(fragments)@) == fragment_views(old(fragments)@) + plan@.fragments(
            nested,
        ),
    decreases plan,
{
    let ghost start = fragment_views(fragments@);
    if let Some(stage) = plan.op.as_network_boundary() {
        if let Stage::Local { num, tasks, .. } = stage {
            if plan.children.len() > 0 {
                proof {
                    assert(plan@.children[0] == plan.children@[0]@);
                    assert(plan@.tops_local_stage());
                }
                let ghost own = plan@.own_fragments(nested);
                let stage_id: u32 = *num as u32;
                let task_count: usize = *tasks;
                let partitions_per_consumer_task: usize = plan.op.partitions_per_consumer_task();
                let mut task_idx: usize = 0;
                while task_idx < task_count
                    invariant
                        0 <= task_idx <= task_count,
                        plan.children@.len() > 0,
                        plan@.tops_local_stage(),
                        plan@.op.input_stage() == stage@,
                        stage@.task_count() == task_count,
                        stage_id == stage@.num() as u32,
                        partitions_per_consumer_task == plan@.op.boundary_output().count(),
                        plan@.children[0] == plan.children@[0]@,
                        own == plan@.own_fragments(nested),
                        own.len() == task_count,
                        fragment_views(fragments@) =~= start + own.take(task_idx as int),
                    decreases task_count - task_idx,
                {
                    let ghost before = fragments@;
                    fragments.push(
                        WorkerFragment {
                            stage_id,
                            task_idx,
                            task_count,
                            plan: Arc::clone(&plan.children[0]),
                            kind: plan.op.boundary_kind(),
                            partitions_per_consumer_task,
                            nested,
                        },
                    );
                    proof {
                        assert(fragments@.last()@ =~= own[task_idx as int]);
                        assert(fragment_views(fragments@) =~= fragment_views(before).push(
                            own[task_idx as int],
                        ));
                        assert(own.take(task_idx + 1) =~= own.take(task_idx as int).push(
                            own[task_idx as int],
                        ));
                    }
                    task_idx += 1;
                }
                proof {
                    assert(own.take(task_count as int) =~= own);
                }
                walk(&plan.children[0], true, fragments);
                proof {
                    assert(start + own + plan@.children[0].fragments(true) =~= start + (own
                        + plan@.children[0].fragments(true)));
                }
                return ;
            }
        }
        proof {
            assert(start + Seq::<WorkerFragmentView>::empty() =~= start);
        }
        return ;
    }
    let ghost all = plan@.children;
    proof {
        assert(all.take(0) =~= Seq::empty());
        assert(start + fragments_of_all(all.take(0), nested) =~= start);
    }
    let mut i: usize = 0;
    while i < plan.children.len()
        invariant
            0 <= i <= plan.children@.len(),
            all == plan@.children,
            all.len() == plan.children@.len(),
            fragment_views(fragments@) =~= start + fragments_of_all(all.take(i as int), nested),
        decreases plan.children@.len() - i,
    {
        proof {
            assert(all.take(i + 1).drop_last() =~= all.take(i as int));
            assert(all[i as int] == plan.children@[i as int]@);
        }
        walk(&plan.children[i], nested, fragments);
        i += 1;
    }
    proof {
        assert(all.take(i as int) =~= all);
    }
}

/// All fragments of a plan, those of a stage before those of the stages below it.
pub fn worker_fragments(root: &Plan) -> (result: Vec<WorkerFragment>)
    ensures
        fragment_views(result@) == root@.fragments(false),
{
    let mut fragments: Vec<WorkerFragment> = Vec::new();
    walk(root, false, &mut fragments);
    proof {
        assert(fragment_views(Seq::<WorkerFragment>::empty()) + root@.fragments(false)
            =~= root@.fragments(false));
    }
    fragments
}

/// Whether a callback that is handed fragments one after the other, each with what the call before
/// came back with, can get from `start` to `end`.
pub open spec fn folds<S, F: Fn(&WorkerFragment, S) -> S>(
    f: F,
    fragments: Seq<WorkerFragment>,
    start: S,
    end: S,
) -> bool
    decreases fragments.len(),
{
    if fragments.len() == 0 {
        start == end
    } else {
        exists|before: S|
            folds(f, fragments.drop_last(), start, before) && #[trigger] f.ensures(
                (&fragments.last(), before),
                end,
            )
    }
}

/// Hands a callback all fragments of a plan, those of a stage before those of the stages below it.
/// Each call is also handed what the call before came back with, the first one `state`.
pub fn for_each_worker_fragment<S, F: Fn(&WorkerFragment, S) -> S>(
    root: &Plan,
    state: S,
    f: F,
) -> (result: S)
    requires
        forall|fragment: &WorkerFragment, before: S| #[trigger] f.requires((fragment, before)),
    ensures
        exists|fragments: Seq<WorkerFragment>|
            fragment_views(fragments) == root@.fragments(false) && #[trigger] folds(
                f,
                fragments,
                state,
                result,
            ),
{
    let fragments = worker_fragments(root);
    let ghost start = state;
    let mut state = state;
    proof {
        assert(fragments@.take(0) =~= Seq::empty());
    }
    let mut i: usize = 0;
    while i < fragments.len()
        invariant
            0 <= i <= fragments@.len(),
            forall|fragment: &WorkerFragment, before: S| #[trigger] f.requires((fragment, before)),
            folds(f, fragments@.take(i as int), start, state),
        decreases fragments@.len() - i,
    {
        let ghost before = state;
        state = f(&fragments[i], state);
        proof {
            let next = fragments@.take(i + 1);
            assert(next.drop_last() =~= fragments@.take(i as int));
            assert(next.last() == fragments@[i as int]);
            assert(folds(f, next.drop_last(), start, before));
            assert(f.ensures((&next.last(), before), state));
        }
        i += 1;
    }
    proof {
        assert(fragments@.take(i as int) =~= fragments@);
    }
    state
}

proof fn fragments_belong_to_stages_of_all(plans: Seq<PlanView>, nested: bool, i: int)
    requires
        0 <= i < fragments_of_all(plans, nested).len(),
    ensures
        fragment_stages_of_all(plans).contains(fragments_of_all(plans, nested)[i].stage_id),
    decreases plans, 1nat,
{
    let before = fragments_of_all(plans.drop_last(), nested);
    let numbers = fragment_stages_of_all(plans.drop_last());
    let all = fragment_stages_of_all(plans);
    if i < before.len() {
        fragments_belong_to_stages_of_all(plans.drop_last(), nested, i);
        let k = choose|k: int| 0 <= k < numbers.len() && numbers[k] == before[i].stage_id;
        assert(all[k] == before[i].stage_id);
    } else {
        fragments_belong_to_stages(plans.last(), nested, i - before.len());
        let last = plans.last().fragment_stages();
        let fragment = plans.last().fragments(nested)[i - before.len()];
        let k = choose|k: int| 0 <= k < last.len() && last[k] == fragment.stage_id;
        assert(all[numbers.len() + k] == fragment.stage_id);
    }
}

proof fn fragments_belong_to_stages(plan: PlanView, nested: bool, i: int)
    requires
        0 <= i < plan.fragments(nested).len(),
    ensures
        plan.fragment_stages().contains(plan.fragments(nested)[i].stage_id),
    decreases plan, 0nat,
{
    if plan.op.is_network_boundary() {
        let own = plan.own_fragments(nested);
        let numbers = plan.fragment_stages();
        if i < own.len() {
            assert(numbers[0] == plan.fragments(nested)[i].stage_id);
        } else {
            let below = plan.children[0];
            fragments_belong_to_stages(below, true, i - own.len());
            let rest = below.fragment_stages();
            let fragment = below.fragments(true)[i - own.len()];
            let k = choose|k: int| 0 <= k < rest.len() && rest[k] == fragment.stage_id;
            assert(numbers[k + 1] == fragment.stage_id);
        }
    } else {
        fragments_belong_to_stages_of_all(plan.children, nested, i);
    }
}

proof fn fragments_are_unique_in_all(plans: Seq<PlanView>, nested: bool, i: int, j: int)
    requires
        fragment_stages_of_all(plans).no_duplicates(),
        0 <= i < j < fragments_of_all(plans, nested).len(),
    ensures
        fragments_of_all(plans, nested)[i].stage_id != fragments_of_all(plans, nested)[j].stage_id
            || fragments_of_all(plans, nested)[i].task_idx != fragments_of_all(
            plans,
            nested,
        )[j].task_idx,
    decreases plans, 1nat,
{
    let before = fragments_of_all(plans.drop_last(), nested);
    let numbers = fragment_stages_of_all(plans.drop_last());
    let last = plans.last().fragment_stages();
    let all = fragment_stages_of_all(plans);
    assert(all =~= numbers + last);
    assert(numbers.no_duplicates()) by {
        assert forall|a: int, b: int|
            0 <= a < numbers.len() && 0 <= b < numbers.len() && a != b implies numbers[a]
            != numbers[b] by {
            assert(all[a] == numbers[a] && all[b] == numbers[b]);
        }
    }
    assert(last.no_duplicates()) by {
        assert forall|a: int, b: int|
            0 <= a < last.len() && 0 <= b < last.len() && a != b implies last[a] != last[b] by {
            assert(all[numbers.len() + a] == last[a] && all[numbers.len() + b] == last[b]);
        }
    }
    if j < before.len() {
        fragments_are_unique_in_all(plans.drop_last(), nested, i, j);
    } else if i >= before.len() {
        fragments_are_unique(plans.last(), nested, i - before.len(), j - before.len());
    } else {
        fragments_belong_to_stages_of_all(plans.drop_last(), nested, i);
        fragments_belong_to_stages(plans.last(), nested, j - before.len());
        let one = before[i].stage_id;
        let other = plans.last().fragments(nested)[j - before.len()].stage_id;
        let a = choose|a: int| 0 <= a < numbers.len() && numbers[a] == one;
        let b = choose|b: int| 0 <= b < last.len() && last[b] == other;
        assert(all[a] != all[numbers.len() + b]);
    }
}

/// Where no two stages of a plan share a number, no task of a stage is handed out twice.
pub proof fn fragments_are_unique(plan: PlanView, nested: bool, i: int, j: int)
    requires
        plan.fragment_stages().no_duplicates(),
        0 <= i < j < plan.fragments(nested).len(),
    ensures
        plan.fragments(nested)[i].stage_id != plan.fragments(nested)[j].stage_id || plan.fragments(
            nested,
        )[i].task_idx != plan.fragments(nested)[j].task_idx,
    decreases plan, 0nat,
{
    if plan.op.is_network_boundary() {
        let own = plan.own_fragments(nested);
        let below = plan.children[0];
        let rest = below.fragment_stages();
        let numbers = plan.fragment_stages();
        assert(rest.no_duplicates()) by {
            assert forall|a: int, b: int|
                0 <= a < rest.len() && 0 <= b < rest.len() && a != b implies rest[a] != rest[b] by {
                assert(numbers[a + 1] == rest[a] && numbers[b + 1] == rest[b]);
            }
        }
        if i >= own.len() {
            fragments_are_unique(below, true, i - own.len(), j - own.len());
        } else if j >= own.len() {
            fragments_belong_to_stages(below, true, j - own.len());
            let other = below.fragments(true)[j - own.len()].stage_id;
            let b = choose|b: int| 0 <= b < rest.len() && rest[b] == other;
            assert(numbers[0] != numbers[b + 1]);
        }
    } else {
        fragments_are_unique_in_all(plan.children, nested, i, j);
    }
}

proof fn fragments_are_complete_in_all(plans: Seq<PlanView>, nested: bool, i: int, task: usize)
    requires
        0 <= i < fragments_of_all(plans, nested).len(),
        task < fragments_of_all(plans, nested)[i].task_count,
    ensures
        exists|k: int|
            0 <= k < fragments_of_all(plans, nested).len() && #[trigger] fragments_of_all(
                plans,
                nested,
            )[k] == (WorkerFragmentView {
                task_idx: task,
                ..fragments_of_all(plans, nested)[i]
            }),
    decreases plans, 1nat,
{
    let all = fragments_of_all(plans, nested);
    let before = fragments_of_all(plans.drop_last(), nested);
    let due = WorkerFragmentView { task_idx: task, ..all[i] };
    if i < before.len() {
        fragments_are_complete_in_all(plans.drop_last(), nested, i, task);
        let k = choose|k: int|
            0 <= k < before.len() && #[trigger] before[k] == (WorkerFragmentView {
                task_idx: task,
                ..before[i]
            });
        assert(all[k] == due);
    } else {
        let last = plans.last().fragments(nested);
        fragments_are_complete(plans.last(), nested, i - before.len(), task);
        let k = choose|k: int|
            0 <= k < last.len() && #[trigger] last[k] == (WorkerFragmentView {
                task_idx: task,
                ..last[i - before.len()]
            });
        assert(all[before.len() + k] == due);
    }
}

/// Where one task of a stage is handed out, all of them are.
pub proof fn fragments_are_complete(plan: PlanView, nested: bool, i: int, task: usize)
    requires
        0 <= i < plan.fragments(nested).len(),
        task < plan.fragments(nested)[i].task_count,
    ensures
        exists|k: int|
            0 <= k < plan.fragments(nested).len() && #[trigger] plan.fragments(nested)[k] == (
            WorkerFragmentView { task_idx: task, ..plan.fragments(nested)[i] }),
    decreases plan, 0nat,
{
    if plan.op.is_network_boundary() {
        let all = plan.fragments(nested);
        let own = plan.own_fragments(nested);
        let due = WorkerFragmentView { task_idx: task, ..all[i] };
        if i < own.len() {
            assert(all[task as int] == own[task as int]);
            assert(all[task as int] == due);
        } else {
            let below = plan.children[0].fragments(true);
            fragments_are_complete(plan.children[0], true, i - own.len(), task);
            let k = choose|k: int|
                0 <= k < below.len() && #[trigger] below[k] == (WorkerFragmentView {
                    task_idx: task,
                    ..below[i - own.len()]
                });
            assert(all[own.len() + k] == due);
        }
    } else {
        fragments_are_complete_in_all(plan.children, nested, i, task);
    }
}

/// The stage numbers of some stamps, as fragments carry them.
pub open spec fn stamped_numbers(stamps: Seq<(Uuid, usize)>) -> Seq<u32> {
    stamps.map_values(|stamp: (Uuid, usize)| stamp.1 as u32)
}

proof fn fragments_cover_stamps_of_all(plans: Seq<PlanView>)
    requires
        forall|i: int| 0 <= i < plans.len() ==> (#[trigger] plans[i]).well_shaped(),
    ensures
        fragment_stages_of_all(plans).to_multiset() == stamped_numbers(
            crate::prepare_network_boundaries::stamps_of_all(plans),
        ).to_multiset(),
    decreases plans, 1nat,
{
    if plans.len() > 0 {
        let shorter = plans.drop_last();
        assert forall|i: int| 0 <= i < shorter.len() implies (#[trigger] shorter[i]).well_shaped() by {
            assert(shorter[i] == plans[i]);
        }
        fragments_cover_stamps_of_all(shorter);
        assert(plans[plans.len() - 1].well_shaped());
        fragments_cover_stamps(plans.last());
        vstd::seq_lib::lemma_multiset_commutative(
            fragment_stages_of_all(shorter),
            plans.last().fragment_stages(),
        );
        vstd::seq_lib::lemma_multiset_commutative(
            stamped_numbers(crate::prepare_network_boundaries::stamps_of_all(shorter)),
            stamped_numbers(plans.last().stamps()),
        );
        assert(stamped_numbers(crate::prepare_network_boundaries::stamps_of_all(plans)) =~= stamped_numbers(crate::prepare_network_boundaries::stamps_of_all(shorter))
            + stamped_numbers(plans.last().stamps()));
    } else {
        assert(stamped_numbers(crate::prepare_network_boundaries::stamps_of_all(plans)) =~= fragment_stages_of_all(plans));
    }
}

proof fn fragments_cover_stamps(plan: PlanView)
    requires
        plan.well_shaped(),
    ensures
        plan.fragment_stages().to_multiset() == stamped_numbers(plan.stamps()).to_multiset(),
    decreases plan, 0nat,
{
    fragments_cover_stamps_of_all(plan.children);
    if plan.op.is_network_boundary() {
        if plan.op.input_stage() is Local {
            let below = plan.children[0];
            let own = seq![plan.op.input_stage().num() as u32];
            assert(plan.children =~= seq![below]);
            reveal_with_fuel(fragment_stages_of_all, 2);
            assert(seq![below].drop_last() =~= Seq::<PlanView>::empty());
            assert(below.well_shaped());
            fragments_cover_stamps(below);
            let lower = stamped_numbers(crate::prepare_network_boundaries::stamps_of_all(plan.children));
            stamps_of_only_child(below);
            assert(stamped_numbers(plan.stamps()) =~= lower + own);
            vstd::seq_lib::lemma_multiset_commutative(own, below.fragment_stages());
            vstd::seq_lib::lemma_multiset_commutative(lower, own);
        } else {
            assert(plan.stamps() =~= Seq::empty());
            assert(stamped_numbers(plan.stamps()) =~= plan.fragment_stages());
        }
    }
}

proof fn stamps_of_only_child(plan: PlanView)
    ensures
        crate::prepare_network_boundaries::stamps_of_all(seq![plan]) == plan.stamps(),
{
    reveal_with_fuel(crate::prepare_network_boundaries::stamps_of_all, 2);
    assert(seq![plan].drop_last() =~= Seq::<PlanView>::empty());
    assert(crate::prepare_network_boundaries::stamps_of_all(seq![plan]) =~= plan.stamps());
}

/// A plan whose network boundaries were prepared hands out every task of its stages once, unless
/// it has more stages than fragments can number.
pub proof fn prepared_fragments_are_unique(
    plan: PlanView,
    task_count: usize,
    query_id: Uuid,
    num: usize,
    i: int,
    j: int,
)
    requires
        plan.well_shaped(),
        crate::prepare_network_boundaries::prepared(plan, task_count, query_id, num) matches Ok(
            ready,
        ) && ready.next <= u32::MAX && 0 <= i < j < ready.plan.fragments(false).len(),
    ensures
        ({
            let ready = crate::prepare_network_boundaries::prepared(
                plan,
                task_count,
                query_id,
                num,
            )->Ok_0;
            ready.plan.fragments(false)[i].stage_id != ready.plan.fragments(false)[j].stage_id
                || ready.plan.fragments(false)[i].task_idx != ready.plan.fragments(
                false,
            )[j].task_idx
        }),
{
    let ready = crate::prepare_network_boundaries::prepared(
        plan,
        task_count,
        query_id,
        num,
    )->Ok_0;
    crate::prepare_network_boundaries::stages_are_numbered(plan, task_count, query_id, num);
    let numbers = stamped_numbers(ready.plan.stamps());
    assert(numbers.no_duplicates()) by {
        assert forall|a: int, b: int|
            0 <= a < numbers.len() && 0 <= b < numbers.len() && a != b implies numbers[a]
            != numbers[b] by {
            assert(ready.plan.stamps()[a] == (query_id, (num + a) as usize));
            assert(ready.plan.stamps()[b] == (query_id, (num + b) as usize));
        }
    }
    fragments_cover_stamps(ready.plan);
    numbers.lemma_multiset_has_no_duplicates();
    ready.plan.fragment_stages().lemma_multiset_has_no_duplicates_conv();
    fragments_are_unique(ready.plan, false, i, j);
}

} // verus!

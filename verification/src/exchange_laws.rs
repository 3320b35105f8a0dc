//! What goes over the network between the tasks of a query, and who reads it.
use crate::boundary_factory::{BoundaryKind, PooledBoundaryFactory};
use crate::embedded::{FragmentAssignmentView, FragmentRoutingView, PartitionOutcome, StageEntryView};
use crate::error::{DistributedError, ErrorKind};
use crate::ids::Uuid;
use crate::metrics_store::TaskKey;
use crate::network_boundary::{ProducerHead, ProducerHeadSpec};
use crate::plan::{OperatorView, Plan, PlanView, StageView};
use crate::preparation_laws::{partitions_of, tasks_in};
use crate::reconstruction_laws::{number_of_stage, query_of, stage_below};
use crate::worker_fragments::WorkerFragmentView;
use std::sync::Arc;
use vstd::prelude::*;

verus! {

/// Whether this is the least share with which so many readers take all tasks.
pub open spec fn is_least_share(share: int, tasks: int, readers: int) -> bool {
    &&& 0 <= share
    &&& share * readers >= tasks
    &&& share > 0 ==> (share - 1) * readers < tasks
}

/// How many tasks share what they gather. Where there are none yet, one takes it all.
pub open spec fn readers_among(tasks: usize) -> int {
    if tasks > 1 {
        tasks as int
    } else {
        1
    }
}

/// Whether the plan reads a stage that is told by its query, its number and its tasks.
pub open spec fn reads_stage(plan: PlanView, query_id: Uuid, num: usize, tasks: usize) -> bool {
    stage_below(plan) == Some(StageView::Local { query_id, num, tasks })
}

proof fn shares_are_least(tasks: usize, readers: usize)
    requires
        readers > 1,
    ensures
        is_least_share(
            crate::inject_network_boundaries::div_ceil(tasks, readers) as int,
            tasks as int,
            readers as int,
        ),
{
    crate::task_count_laws::quotients_round_up(tasks, readers);
}

/// A boundary stands over the plan of its stage. A shuffle hands rows on as they are spread below
/// it. A broadcast hands out all partitions. What gathers rows hands out all partitions of its
/// share of the tasks, which is the least one that leaves no task out. It takes partitions that can
/// be counted.
pub proof fn boundaries_carry_their_stage(
    kind: BoundaryKind,
    child: PlanView,
    query_id: Uuid,
    stage_id: usize,
    task_count: usize,
    input_task_count: usize,
)
    ensures
        ({
            let partitions = child.partition_count() as int;
            let readers = readers_among(task_count);
            let known = match child.facts {
                Some(facts) => facts.properties,
                None => None,
            };
            match crate::boundary_factory::boundary_over(
                kind,
                child,
                query_id,
                stage_id,
                task_count,
                input_task_count,
            ) {
                Ok(boundary) => {
                    &&& boundary.children =~= seq![child]
                    &&& boundary.facts is None
                    &&& boundary.variants.len() == 0
                    &&& reads_stage(boundary, query_id, stage_id, input_task_count)
                    &&& match kind {
                        BoundaryKind::Shuffle => {
                            &&& boundary.op is NetworkShuffle
                            &&& boundary.op->NetworkShuffle_properties == known
                            &&& boundary.op->NetworkShuffle_output
                                == boundary.op->NetworkShuffle_partitioning
                            &&& if child.op is Repartition {
                                boundary.op->NetworkShuffle_output
                                    == child.op->Repartition_partitioning
                            } else {
                                boundary.op->NetworkShuffle_output is UnknownPartitioning
                                    && partitions_of(boundary.op->NetworkShuffle_output)
                                    == partitions
                            }
                        },
                        BoundaryKind::Broadcast => {
                            &&& boundary.op is NetworkBroadcast
                            &&& boundary.op->NetworkBroadcast_properties == known
                            &&& boundary.op->NetworkBroadcast_output is UnknownPartitioning
                            &&& partitions_of(boundary.op->NetworkBroadcast_output) == partitions
                        },
                        BoundaryKind::Coalesce => {
                            &&& boundary.op is NetworkCoalesce
                            &&& boundary.op->NetworkCoalesce_properties == known
                            &&& boundary.op->NetworkCoalesce_consumer_tasks == task_count
                            &&& boundary.op->NetworkCoalesce_output is UnknownPartitioning
                            &&& exists|share: int| #[trigger]
                                is_least_share(
                                    share,
                                    input_task_count as int,
                                    readers,
                                ) && partitions_of(boundary.op->NetworkCoalesce_output)
                                    == partitions * share
                        },
                    }
                },
                Err(error) => {
                    &&& error == ErrorKind::PartitionCountOverflow.plain()
                    &&& partitions > usize::MAX || kind is Coalesce && partitions * input_task_count
                        > usize::MAX
                },
            }
        }),
{
    let partitions = child.partition_count() as int;
    let readers = readers_among(task_count);
    let share = if task_count > 1 {
        crate::inject_network_boundaries::div_ceil(input_task_count, task_count) as int
    } else {
        input_task_count as int
    };
    if task_count > 1 {
        shares_are_least(input_task_count, task_count);
    }
    assert(is_least_share(share, input_task_count as int, readers));
    assert(share <= input_task_count) by (nonlinear_arith)
        requires
            share > 0 ==> (share - 1) * readers < input_task_count,
            readers >= 1,
            share >= 0,
            input_task_count >= 0,
    ;
    assert(partitions * share <= partitions * input_task_count) by (nonlinear_arith)
        requires
            share <= input_task_count,
            partitions >= 0,
    ;
    assert(crate::boundary_factory::gathered(
        child.partition_count(),
        input_task_count,
        task_count,
    ) == partitions * share);
}

/// The workers take turns with the tasks, the first worker first. The leader, which comes before
/// the workers, gets none.
pub proof fn workers_take_turns(n_workers: u32, task: u32)
    requires
        n_workers > 0,
    ensures
        task < n_workers ==> crate::embedded::task_proc(n_workers, task) == task + 1,
        task as int - n_workers >= 0 ==> crate::embedded::task_proc(n_workers, task)
            == crate::embedded::task_proc(n_workers, (task - n_workers) as u32),
        1 <= crate::embedded::task_proc(n_workers, task) <= n_workers,
{
    if task >= n_workers {
        vstd::arithmetic::div_mod::lemma_mod_sub_multiples_vanish(task as int, n_workers as int);
    } else {
        vstd::arithmetic::div_mod::lemma_small_mod(task as nat, n_workers as nat);
    }
}

/// The peers of a process are all other processes in their order.
pub proof fn peers_are_the_others(this_proc: u32, one: int, other: int, proc: int)
    requires
        0 <= one < other,
        0 <= proc,
        proc != this_proc,
    ensures
        crate::embedded::peer_proc(this_proc, one) != this_proc,
        0 <= crate::embedded::peer_proc(this_proc, one) < crate::embedded::peer_proc(
            this_proc,
            other,
        ),
        exists|index: int|
            0 <= index && #[trigger] crate::embedded::peer_proc(this_proc, index) == proc,
{
    let index = if proc < this_proc {
        proc
    } else {
        proc - 1
    };
    assert(crate::embedded::peer_proc(this_proc, index) == proc);
}

/// The way to a peer is the one that was given for it, and its frames say who sends them.
pub proof fn ways_lead_to_their_peers<S>(
    this_proc: u32,
    total_procs: u32,
    peers: Seq<S>,
    index: int,
)
    requires
        0 <= index < peers.len(),
    ensures
        ({
            let peer = crate::embedded::peer_proc(this_proc, index);
            crate::embedded::outbound(this_proc, total_procs, peers, peer) matches Some(sender) && {
                &&& sender.channel == peers[index]
                &&& sender.header.sender_proc == this_proc
                &&& sender.header.stage_id == 0
                &&& sender.header.partition == 0
            }
        }),
        crate::embedded::outbound(this_proc, total_procs, peers, this_proc as int) is None,
{
}

/// The first thing that is wrong with some partitions is wrong with the first partition that
/// anything is wrong with. Rows that failed come before a receiver that could not be told.
pub proof fn first_errors_come_first(outcomes: Seq<PartitionOutcome>)
    ensures
        ({
            let is_fine = |i: int| outcomes[i].stream is Ok && outcomes[i].finish is Ok;
            match crate::embedded::first_error(outcomes) {
                None => forall|i: int|
                    #![trigger outcomes[i]]
                    0 <= i < outcomes.len() ==> is_fine(i),
                Some(error) => exists|i: int|
                    #![trigger outcomes[i]]
                    0 <= i < outcomes.len() && !is_fine(i) && (forall|j: int|
                        #![trigger outcomes[j]]
                        0 <= j < i ==> is_fine(j)) && error == match outcomes[i].stream {
                        Err(failed) => failed@,
                        Ok(_) => outcomes[i].finish->Err_0@,
                    },
            }
        }),
    decreases outcomes.len(),
{
    if outcomes.len() > 0 {
        let before = outcomes.drop_last();
        first_errors_come_first(before);
        let last = outcomes.len() - 1;
        assert(outcomes[last] == outcomes.last());
        assert(forall|i: int| 0 <= i < last ==> before[i] == #[trigger] outcomes[i]);
        if crate::embedded::first_error(before) is Some {
            let i = choose|i: int|
                #![trigger before[i]]
                0 <= i < before.len() && !(before[i].stream is Ok && before[i].finish is Ok) && (
                forall|j: int|
                    #![trigger before[j]]
                    0 <= j < i ==> before[j].stream is Ok && before[j].finish is Ok)
                    && crate::embedded::first_error(before)->Some_0 == match before[i].stream {
                    Err(failed) => failed@,
                    Ok(_) => before[i].finish->Err_0@,
                };
            assert(outcomes[i] == before[i]);
        }
    }
}

impl PlanView {
    /// The boundaries whose stages are at hand, each before those below it, and whether they lie in
    /// a stage that workers execute.
    pub open spec fn exchanges(self, nested: bool) -> Seq<(PlanView, bool)>
        decreases self, 0nat,
    {
        match stage_below(self) {
            Some(stage) => if stage is Local && self.children.len() > 0 {
                seq![(self, nested)] + self.children[0].exchanges(true)
            } else {
                Seq::empty()
            },
            None => exchanges_of_all(self.children, nested),
        }
    }

    /// The tasks of the stage below the boundary, as fragments.
    pub open spec fn is_fragment(
        self,
        fragment: WorkerFragmentView,
        task: int,
        nested: bool,
    ) -> bool {
        stage_below(self) matches Some(stage) && {
            &&& fragment.stage_id == number_of_stage(stage) as u32
            &&& fragment.task_idx == task as usize
            &&& fragment.task_count == tasks_in(stage) as usize
            &&& fragment.plan == self.children[0]
            &&& fragment.nested == nested
            &&& match self.op {
                OperatorView::NetworkShuffle { output, .. } => fragment.kind is Shuffle
                    && fragment.partitions_per_consumer_task as int == partitions_of(output),
                OperatorView::NetworkCoalesce { output, .. } => fragment.kind is Coalesce
                    && fragment.partitions_per_consumer_task as int == partitions_of(output),
                OperatorView::NetworkBroadcast { output, .. } => fragment.kind is Broadcast
                    && fragment.partitions_per_consumer_task as int == partitions_of(output),
                _ => false,
            }
        }
    }
}

/// The boundaries of several plans whose stages are at hand.
pub open spec fn exchanges_of_all(plans: Seq<PlanView>, nested: bool) -> Seq<(PlanView, bool)>
    decreases plans, 1nat,
{
    if plans.len() == 0 {
        Seq::empty()
    } else {
        exchanges_of_all(plans.drop_last(), nested) + plans.last().exchanges(nested)
    }
}

/// How many tasks the stages below the boundaries have.
pub open spec fn tasks_of_exchanges(exchanges: Seq<(PlanView, bool)>) -> int
    decreases exchanges.len(),
{
    if exchanges.len() == 0 {
        0
    } else {
        tasks_of_exchanges(exchanges.drop_last()) + tasks_in(stage_below(exchanges.last().0)->Some_0)
    }
}

/// Whether the fragments are the tasks of the stages below the boundaries, one after the other.
pub open spec fn are_fragments(
    fragments: Seq<WorkerFragmentView>,
    exchanges: Seq<(PlanView, bool)>,
) -> bool {
    &&& fragments.len() == tasks_of_exchanges(exchanges)
    &&& forall|i: int, task: int|
        0 <= i < exchanges.len() && 0 <= task < tasks_in(stage_below(exchanges[i].0)->Some_0)
            ==> #[trigger] exchanges[i].0.is_fragment(
            fragments[tasks_of_exchanges(exchanges.take(i)) + task],
            task,
            exchanges[i].1,
        )
}

proof fn more_exchanges_have_more_tasks(one: Seq<(PlanView, bool)>, other: Seq<(PlanView, bool)>)
    ensures
        tasks_of_exchanges(one + other) == tasks_of_exchanges(one) + tasks_of_exchanges(other),
        tasks_of_exchanges(one) >= 0,
    decreases other.len(), one.len(),
{
    if one.len() > 0 {
        more_exchanges_have_more_tasks(one.drop_last(), Seq::empty());
    }
    if other.len() == 0 {
        assert(one + other =~= one);
    } else {
        more_exchanges_have_more_tasks(one, other.drop_last());
        assert((one + other).drop_last() =~= one + other.drop_last());
    }
}

proof fn fragments_join(
    one: Seq<WorkerFragmentView>,
    first: Seq<(PlanView, bool)>,
    other: Seq<WorkerFragmentView>,
    second: Seq<(PlanView, bool)>,
)
    requires
        are_fragments(one, first),
        are_fragments(other, second),
    ensures
        are_fragments(one + other, first + second),
{
    let all = first + second;
    let fragments = one + other;
    more_exchanges_have_more_tasks(first, second);
    assert forall|i: int, task: int|
        0 <= i < all.len() && 0 <= task < tasks_in(
            stage_below(all[i].0)->Some_0,
        ) implies #[trigger] all[i].0.is_fragment(
        fragments[tasks_of_exchanges(all.take(i)) + task],
        task,
        all[i].1,
    ) by {
        if i < first.len() {
            assert(all[i] == first[i]);
            assert(all.take(i) =~= first.take(i));
            let at = tasks_of_exchanges(first.take(i)) + task;
            more_exchanges_have_more_tasks(first.take(i), first.skip(i));
            assert(first.take(i) + first.skip(i) =~= first);
            more_exchanges_have_more_tasks(first.take(i + 1), first.skip(i + 1));
            more_exchanges_have_more_tasks(first.skip(i + 1), Seq::empty());
            assert(first.take(i + 1) + first.skip(i + 1) =~= first);
            assert(first.take(i + 1).drop_last() =~= first.take(i));
            assert(0 <= at < one.len());
            assert(fragments[at] == one[at]);
            assert(first[i].0.is_fragment(one[at], task, first[i].1));
        } else {
            let k = i - first.len();
            assert(all[i] == second[k]);
            assert(all.take(i) =~= first + second.take(k));
            more_exchanges_have_more_tasks(first, second.take(k));
            more_exchanges_have_more_tasks(second.take(k), Seq::empty());
            more_exchanges_have_more_tasks(second.take(k + 1), second.skip(k + 1));
            more_exchanges_have_more_tasks(second.skip(k + 1), Seq::empty());
            assert(second.take(k + 1) + second.skip(k + 1) =~= second);
            assert(second.take(k + 1).drop_last() =~= second.take(k));
            let at = tasks_of_exchanges(second.take(k)) + task;
            assert(fragments[one.len() + at] == other[at]);
            assert(second[k].0.is_fragment(other[at], task, second[k].1));
        }
    }
}

proof fn fragments_of_all_are_tasks(plans: Seq<PlanView>, nested: bool)
    ensures
        are_fragments(
            crate::worker_fragments::fragments_of_all(plans, nested),
            exchanges_of_all(plans, nested),
        ),
    decreases plans, 1nat,
{
    if plans.len() > 0 {
        fragments_of_all_are_tasks(plans.drop_last(), nested);
        fragments_are_tasks(plans.last(), nested);
        fragments_join(
            crate::worker_fragments::fragments_of_all(plans.drop_last(), nested),
            exchanges_of_all(plans.drop_last(), nested),
            plans.last().fragments(nested),
            plans.last().exchanges(nested),
        );
    }
}

/// The fragments of a plan are the tasks of the stages below its boundaries, those of a stage
/// before those of the stages below it. Each says what it executes, which task of how many it is,
/// and what reads its rows.
pub proof fn fragments_are_tasks(plan: PlanView, nested: bool)
    ensures
        are_fragments(plan.fragments(nested), plan.exchanges(nested)),
    decreases plan, 0nat,
{
    if let Some(stage) = stage_below(plan) {
        assert(plan.op.input_stage() == stage);
        if stage is Local && plan.children.len() > 0 {
            let own = plan.own_fragments(nested);
            let here = seq![(plan, nested)];
            assert(here.drop_last() =~= Seq::empty());
            reveal_with_fuel(tasks_of_exchanges, 2);
            assert(own.len() == tasks_of_exchanges(here));
            assert forall|i: int, task: int|
                0 <= i < here.len() && 0 <= task < tasks_in(
                    stage_below(here[i].0)->Some_0,
                ) implies #[trigger] here[i].0.is_fragment(
                own[tasks_of_exchanges(here.take(i)) + task],
                task,
                here[i].1,
            ) by {
                assert(here.take(i) =~= Seq::empty());
            }
            fragments_are_tasks(plan.children[0], true);
            fragments_join(
                own,
                here,
                plan.children[0].fragments(true),
                plan.children[0].exchanges(true),
            );
        }
    } else {
        fragments_of_all_are_tasks(plan.children, nested);
    }
}

/// How many partitions each task above the boundary reads.
pub open spec fn partitions_for_each(boundary: PlanView) -> int {
    match boundary.op {
        OperatorView::NetworkShuffle { output, .. } => partitions_of(output),
        OperatorView::NetworkBroadcast { output, .. } => partitions_of(output),
        _ => 0,
    }
}

/// Whether the partitions of the stage below the boundary go where they have to. What is gathered
/// in a stage goes to the worker with the first task, what is gathered at the top to the leader.
/// Otherwise every partition goes to the task that reads it.
pub open spec fn goes_where_it_has_to(
    routing: FragmentRoutingView,
    boundary: PlanView,
    nested: bool,
) -> bool {
    let per_task = partitions_for_each(boundary);
    match routing {
        FragmentRoutingView::Coalesce { dest_proc } => {
            &&& boundary.op is NetworkCoalesce
            &&& dest_proc == (if nested {
                1u32
            } else {
                0u32
            })
        },
        FragmentRoutingView::Hashed { consumer_task, broadcast } => {
            &&& nested
            &&& boundary.op is NetworkShuffle || boundary.op is NetworkBroadcast
            &&& broadcast == boundary.op is NetworkBroadcast
            &&& stage_below(boundary)->Some_0 is Local && boundary.children.len() > 0
                ==> consumer_task.len() == boundary.children[0].partition_count()
            &&& consumer_task.len() > 0 ==> per_task > 0
            &&& forall|task: int, local: int|
                #![trigger consumer_task[per_task * task + local]]
                0 <= local < per_task && 0 <= task && per_task * task + local < consumer_task.len()
                    && task <= u32::MAX ==> consumer_task[per_task * task + local] == task
        },
    }
}

proof fn tasks_read_their_partitions(op: OperatorView, upto: nat)
    requires
        upto <= usize::MAX,
        op is NetworkShuffle || op is NetworkBroadcast,
    ensures
        match op.consumer_tasks(upto) {
            Ok(tasks) => {
                &&& tasks.len() == upto
                &&& upto > 0 ==> op.boundary_output().count() > 0
                &&& forall|i: int|
                    0 <= i < upto ==> (#[trigger] tasks[i]) == (i
                        / op.boundary_output().count() as int) as u32
            },
            Err(_) => upto > 0 && op.boundary_output().count() == 0,
        },
    decreases upto,
{
    if upto > 0 {
        tasks_read_their_partitions(op, (upto - 1) as nat);
    }
}

/// The partitions of a stage go where they have to.
pub proof fn every_partition_has_a_reader(boundary: PlanView, n_workers: u32, nested: bool)
    requires
        n_workers > 0,
        stage_below(boundary) is Some,
    ensures
        match boundary.routing(n_workers, nested) {
            Ok(routing) => goes_where_it_has_to(routing, boundary, nested),
            Err(_) => !(boundary.op is NetworkCoalesce) && (!nested || boundary.children.len() > 0),
        },
{
    workers_take_turns(n_workers, 0);
    if let Ok(FragmentRoutingView::Hashed { consumer_task, .. }) = boundary.routing(
        n_workers,
        nested,
    ) {
        let per_task = partitions_for_each(boundary);
        let partitions = if boundary.tops_local_stage() {
            boundary.children[0].partition_count()
        } else {
            0
        };
        tasks_read_their_partitions(boundary.op, partitions);
        assert forall|task: int, local: int|
            #![trigger consumer_task[per_task * task + local]]
            0 <= local < per_task && 0 <= task && per_task * task + local < consumer_task.len()
                && task <= u32::MAX implies consumer_task[per_task * task + local] == task by {
            vstd::arithmetic::div_mod::lemma_fundamental_div_mod_converse(
                per_task * task + local,
                per_task,
                task,
                local,
            );
            assert(per_task * task + local >= 0) by (nonlinear_arith)
                requires
                    per_task >= 0,
                    task >= 0,
                    local >= 0,
            ;
        }
    }
}

/// Whether the entry stands for the stage below the boundary.
pub open spec fn is_entry_of(entry: StageEntryView, boundary: PlanView, nested: bool) -> bool {
    stage_below(boundary) matches Some(stage) && {
        &&& entry.stage_num == number_of_stage(stage) as u32
        &&& entry.task_count == tasks_in(stage) as usize
        &&& entry.plan == boundary.children[0]
        &&& goes_where_it_has_to(entry.routing, boundary, nested)
    }
}

/// Whether the entries stand for the stages below the boundaries, one for each.
pub open spec fn are_entries_of(
    entries: Seq<StageEntryView>,
    exchanges: Seq<(PlanView, bool)>,
) -> bool {
    &&& entries.len() == exchanges.len()
    &&& forall|i: int|
        0 <= i < entries.len() ==> is_entry_of(
            #[trigger] entries[i],
            exchanges[i].0,
            exchanges[i].1,
        )
}

proof fn stages_of_all_are_shared(plans: Seq<PlanView>, n_workers: u32, nested: bool)
    requires
        n_workers > 0,
    ensures
        crate::embedded::dispatched_stages_of_all(plans, n_workers, nested) matches Ok(entries)
            ==> are_entries_of(entries, exchanges_of_all(plans, nested)),
    decreases plans, 1nat,
{
    if plans.len() > 0 {
        stages_of_all_are_shared(plans.drop_last(), n_workers, nested);
        stages_are_shared(plans.last(), n_workers, nested);
    }
}

/// The workers share the tasks of all stages below the boundaries of a plan, a stage before those
/// below it, and the partitions of each stage go where they have to.
pub proof fn stages_are_shared(plan: PlanView, n_workers: u32, nested: bool)
    requires
        n_workers > 0,
    ensures
        plan.dispatched_stages(n_workers, nested) matches Ok(entries) ==> are_entries_of(
            entries,
            plan.exchanges(nested),
        ),
    decreases plan, 0nat,
{
    if let Some(stage) = stage_below(plan) {
        assert(plan.op.input_stage() == stage);
        every_partition_has_a_reader(plan, n_workers, nested);
        if stage is Local && plan.children.len() > 0 {
            stages_are_shared(plan.children[0], n_workers, true);
        }
    } else {
        stages_of_all_are_shared(plan.children, n_workers, nested);
    }
}

/// The names of the tasks of the stage that feeds the node.
pub open spec fn keys_below(node: PlanView) -> Seq<TaskKey> {
    match stage_below(node) {
        Some(stage) => Seq::new(
            tasks_in(stage) as nat,
            |task: int|
                TaskKey {
                    query_id: query_of(stage),
                    stage_id: number_of_stage(stage),
                    task_number: task as usize,
                },
        ),
        None => Seq::empty(),
    }
}

/// The names of the tasks of the stages that feed the nodes.
pub open spec fn keys_of_nodes(nodes: Seq<PlanView>) -> Seq<TaskKey> {
    nodes.map_values(|node: PlanView| keys_below(node)).flatten()
}

proof fn keys_join(one: Seq<PlanView>, other: Seq<PlanView>)
    ensures
        keys_of_nodes(one + other) == keys_of_nodes(one) + keys_of_nodes(other),
{
    let f = |node: PlanView| keys_below(node);
    assert((one + other).map_values(f) =~= one.map_values(f) + other.map_values(f));
    vstd::seq_lib::lemma_flatten_concat(one.map_values(f), other.map_values(f));
}

proof fn tasks_of_all_stages_are_named(plans: Seq<PlanView>)
    ensures
        crate::distributed::all_task_keys(plans) == keys_of_nodes(
            crate::recursion::pre_order_all(plans),
        ),
    decreases plans, 1nat,
{
    if plans.len() > 0 {
        tasks_of_all_stages_are_named(plans.drop_last());
        tasks_of_stages_are_named(plans.last());
        keys_join(crate::recursion::pre_order_all(plans.drop_last()), plans.last().pre_order());
    } else {
        let f = |node: PlanView| keys_below(node);
        assert(Seq::<PlanView>::empty().map_values(f) =~= Seq::empty());
        assert(keys_of_nodes(Seq::empty()) =~= Seq::empty());
    }
}

/// The tasks whose metrics are waited for are those of the stages that feed the nodes of a plan, in
/// the order of the nodes.
pub proof fn tasks_of_stages_are_named(plan: PlanView)
    ensures
        plan.task_keys() == keys_of_nodes(plan.pre_order()),
    decreases plan, 0nat,
{
    tasks_of_all_stages_are_named(plan.children);
    keys_join(seq![plan], crate::recursion::pre_order_all(plan.children));
    let f = |node: PlanView| keys_below(node);
    assert(seq![plan].map_values(f) =~= seq![keys_below(plan)]);
    seq![keys_below(plan)].lemma_flatten_one_element();
    if let Some(stage) = stage_below(plan) {
        assert(plan.op.input_stage() == stage);
        assert(stage.task_keys() =~= keys_below(plan));
    }
    assert(plan.task_keys() =~= keys_below(plan) + crate::distributed::all_task_keys(plan.children));
}

/// Whether the task is one of the stage, in the hands of the worker whose turn it is.
pub open spec fn is_task_of(
    task: FragmentAssignmentView,
    entry: StageEntryView,
    proc: u32,
    n_workers: u32,
) -> bool {
    &&& task.stage_id == entry.stage_num
    &&& task.task_count == entry.task_count
    &&& task.plan == entry.plan
    &&& task.routing == entry.routing
    &&& task.task_idx < entry.task_count
    &&& crate::embedded::task_proc(n_workers, task.task_idx as u32) == proc
    &&& task.task_idx > 0 ==> !(entry.routing is Hashed && entry.routing->broadcast)
}

proof fn tasks_of_a_stage_are_shared_out(
    entry: StageEntryView,
    upto: nat,
    proc: u32,
    n_workers: u32,
)
    requires
        upto <= entry.task_count,
    ensures
        forall|i: int|
            0 <= i < entry.tasks_in(upto, proc, n_workers).len() ==> is_task_of(
                #[trigger] entry.tasks_in(upto, proc, n_workers)[i],
                entry,
                proc,
                n_workers,
            ),
    decreases upto,
{
    if upto > 0 {
        let fewer = (upto - 1) as nat;
        let before = entry.tasks_in(fewer, proc, n_workers);
        let all = entry.tasks_in(upto, proc, n_workers);
        tasks_of_a_stage_are_shared_out(entry, fewer, proc, n_workers);
        assert forall|i: int| 0 <= i < all.len() implies is_task_of(
            #[trigger] all[i],
            entry,
            proc,
            n_workers,
        ) by {
            if i < before.len() {
                assert(all[i] == before[i]);
                assert(is_task_of(entry.tasks_in(fewer, proc, n_workers)[i], entry, proc, n_workers));
            } else {
                assert(all[i] == entry.task(fewer as usize));
                assert(entry.runs_in(fewer as usize, proc, n_workers));
            }
        }
    }
}

/// Every task that a process executes is a task of one of the stages, and its turn. Where all tasks
/// read the same rows of a stage, only its first task is executed.
pub proof fn tasks_are_shared_out(
    entries: Seq<StageEntryView>,
    proc: u32,
    n_workers: u32,
    i: int,
)
    requires
        0 <= i < crate::embedded::tasks_of_proc(entries, proc, n_workers).len(),
    ensures
        exists|stage: int|
            0 <= stage < entries.len() && is_task_of(
                crate::embedded::tasks_of_proc(entries, proc, n_workers)[i],
                #[trigger] entries[stage],
                proc,
                n_workers,
            ),
    decreases entries.len(),
{
    let shorter = entries.drop_last();
    let before = crate::embedded::tasks_of_proc(shorter, proc, n_workers);
    let last = entries.len() - 1;
    if i < before.len() {
        tasks_are_shared_out(shorter, proc, n_workers, i);
        let stage = choose|stage: int|
            0 <= stage < shorter.len() && is_task_of(
                before[i],
                #[trigger] shorter[stage],
                proc,
                n_workers,
            );
        assert(is_task_of(before[i], entries[stage], proc, n_workers));
    } else {
        let entry = entries[last];
        tasks_of_a_stage_are_shared_out(entry, entry.task_count as nat, proc, n_workers);
        assert(is_task_of(
            entry.tasks_in(entry.task_count as nat, proc, n_workers)[i - before.len()],
            entry,
            proc,
            n_workers,
        ));
    }
}

/// The resources that were put aside for boundaries are used one by one, the first first, and each
/// by the boundary that asked for it.
pub proof fn resources_are_used_in_order<R, F>(
    before: PooledBoundaryFactory<R, F>,
    kind: BoundaryKind,
    child: Arc<Plan>,
    query_id: Uuid,
    stage_id: usize,
    task_count: usize,
    input_task_count: usize,
    after: PooledBoundaryFactory<R, F>,
    result: Result<Arc<Plan>, DistributedError>,
) where
    F: Fn(BoundaryKind, R, Arc<Plan>, Uuid, usize, usize, usize) -> Result<
        Arc<Plan>,
        DistributedError,
    >,

    requires
        before.dispatched(
            kind,
            child,
            query_id,
            stage_id,
            task_count,
            input_task_count,
            after,
            result,
        ),
    ensures
        if before.pool@.len() > 0 {
            &&& before.pool@ == seq![before.pool@[0]] + after.pool@
            &&& before.emit.ensures(
                (
                    kind,
                    before.pool@[0],
                    child,
                    query_id,
                    stage_id,
                    task_count,
                    input_task_count,
                ),
                result,
            )
        } else {
            &&& after.pool@.len() == 0
            &&& result matches Err(error) && error@ == (ErrorKind::PoolExhausted {
                stage_id,
                kind,
            }).plain()
        },
{
    if before.pool@.len() > 0 {
        assert(before.pool@ =~= seq![before.pool@[0]] + after.pool@);
    }
}

/// What feeds a boundary is told as it is.
pub proof fn heads_are_told(head: ProducerHead)
    ensures
        match crate::network_boundary::head_message(head) {
            ProducerHeadSpec::Unspecified => head is Unspecified,
            ProducerHeadSpec::BroadcastExec { output_partitions } => head
                == (ProducerHead::BroadcastExec { output_partitions }),
            ProducerHeadSpec::RepartitionExec { partitioning } => partitioning is Some && head
                == (ProducerHead::RepartitionExec { partitioning: partitioning->Some_0 }),
        },
{
}

} // verus!

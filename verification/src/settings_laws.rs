//! What the settings of a session come to, and what single calls hand back.
use crate::distributed::DistributedExec;
use crate::distributed_config::{DistributedConfig, SessionConfig};
use crate::distributed_ext::{CompressionType, DistributedExt};
use crate::embedded::{FragmentRouting, FragmentRoutingView};
use crate::error::{DistributedError, ErrorKind};
use crate::metrics_store::TaskKey;
use crate::plan::{InputRequirement, OperatorView, Plan, PlanView};
use crate::query_coordinator::StageCoordinator;
use vstd::prelude::*;

verus! {

/// Whether two settings differ at most in those that say how stages are cut.
pub open spec fn agree_but_for_stages(one: DistributedConfig, other: DistributedConfig) -> bool {
    &&& one.file_scan_config_bytes_per_partition == other.file_scan_config_bytes_per_partition
    &&& one.cardinality_task_count_factor_bits == other.cardinality_task_count_factor_bits
    &&& one.compression == other.compression
    &&& one.shuffle_batch_size == other.shuffle_batch_size
    &&& one.worker_connection_buffer_budget_bytes == other.worker_connection_buffer_budget_bytes
    &&& one.remote_dynamic_filters == other.remote_dynamic_filters
    &&& one.bytes_per_partition_per_second == other.bytes_per_partition_per_second
}

/// Whether two sessions differ at most in their settings for distribution.
pub open spec fn agree_but_for_distribution(one: SessionConfig, other: SessionConfig) -> bool {
    &&& one.physical_uncorrelated_scalar_subqueries == other.physical_uncorrelated_scalar_subqueries
    &&& one.dynamic_filter_pushdown == other.dynamic_filter_pushdown
    &&& one.user_codecs == other.user_codecs
    &&& one.passthrough_headers == other.passthrough_headers
}

/// A switch that is set can be read back, and the settings that have nothing to do with stages
/// stay.
pub proof fn switches_are_set(before: SessionConfig, enabled: bool, after: SessionConfig)
    requires
        before.distributed is Some,
    ensures
        ({
            let old_one = before.distributed->Some_0;
            let new_one = after.distributed->Some_0;
            let kept = after.distributed is Some && agree_but_for_distribution(before, after)
                && agree_but_for_stages(old_one, new_one);
            let result = Ok::<SessionConfig, DistributedError>(after);
            &&& call_ensures(
                <SessionConfig as DistributedExt>::with_distributed_metrics_collection,
                (before, enabled),
                result,
            ) ==> kept && new_one.collect_metrics == enabled && new_one.broadcast_joins
                == old_one.broadcast_joins && new_one.partial_reduce == old_one.partial_reduce
            &&& call_ensures(
                <SessionConfig as DistributedExt>::with_distributed_children_isolator_unions,
                (before, enabled),
                result,
            ) ==> kept && new_one.children_isolator_unions == enabled && new_one.broadcast_joins
                == old_one.broadcast_joins && new_one.partial_reduce == old_one.partial_reduce
            &&& call_ensures(
                <SessionConfig as DistributedExt>::with_distributed_broadcast_joins,
                (before, enabled),
                result,
            ) ==> kept && new_one.broadcast_joins == enabled && new_one.children_isolator_unions
                == old_one.children_isolator_unions && new_one.partial_reduce
                == old_one.partial_reduce
            &&& call_ensures(
                <SessionConfig as DistributedExt>::with_distributed_partial_reduce,
                (before, enabled),
                result,
            ) ==> kept && new_one.partial_reduce == enabled && new_one.broadcast_joins
                == old_one.broadcast_joins && new_one.dynamic_task_count
                == old_one.dynamic_task_count
            &&& call_ensures(
                <SessionConfig as DistributedExt>::with_distributed_dynamic_task_count,
                (before, enabled),
                result,
            ) ==> kept && new_one.dynamic_task_count == enabled && new_one.partial_reduce
                == old_one.partial_reduce && new_one.broadcast_joins == old_one.broadcast_joins
        }),
{
}

/// A number that is set can be read back, and the switches stay.
pub proof fn numbers_are_set(before: SessionConfig, number: usize, after: SessionConfig)
    requires
        before.distributed is Some,
    ensures
        ({
            let old_one = before.distributed->Some_0;
            let new_one = after.distributed->Some_0;
            let kept = after.distributed is Some && agree_but_for_distribution(before, after)
                && new_one.collect_metrics == old_one.collect_metrics && new_one.broadcast_joins
                == old_one.broadcast_joins && new_one.partial_reduce == old_one.partial_reduce
                && new_one.children_isolator_unions == old_one.children_isolator_unions
                && new_one.dynamic_task_count == old_one.dynamic_task_count;
            let result = Ok::<SessionConfig, DistributedError>(after);
            &&& call_ensures(
                <SessionConfig as DistributedExt>::with_distributed_file_scan_config_bytes_per_partition,
                (before, number),
                result,
            ) ==> kept && new_one.file_scan_config_bytes_per_partition == number
                && new_one.max_tasks_per_stage == old_one.max_tasks_per_stage
            &&& call_ensures(
                <SessionConfig as DistributedExt>::with_distributed_shuffle_batch_size,
                (before, number),
                result,
            ) ==> kept && new_one.shuffle_batch_size == number && new_one.max_tasks_per_stage
                == old_one.max_tasks_per_stage
            &&& call_ensures(
                <SessionConfig as DistributedExt>::with_distributed_max_tasks_per_stage,
                (before, number),
                result,
            ) ==> kept && new_one.max_tasks_per_stage == number && agree_but_for_stages(
                old_one,
                new_one,
            )
            &&& call_ensures(
                <SessionConfig as DistributedExt>::with_distributed_worker_connection_buffer_budget_bytes,
                (before, number),
                result,
            ) ==> kept && new_one.worker_connection_buffer_budget_bytes == number
                && new_one.max_tasks_per_stage == old_one.max_tasks_per_stage
            &&& call_ensures(
                <SessionConfig as DistributedExt>::with_distributed_bytes_per_partition_per_second,
                (before, number),
                result,
            ) ==> kept && new_one.bytes_per_partition_per_second == number
                && new_one.max_tasks_per_stage == old_one.max_tasks_per_stage
        }),
{
}

/// A text begins with another exactly where it is the other with something behind it.
pub proof fn beginnings_are_prefixes(text: Seq<char>, prefix: Seq<char>)
    ensures
        crate::distributed_ext::begins_with(text, prefix) <==> exists|rest: Seq<char>|
            text == #[trigger] (prefix + rest),
{
    if crate::distributed_ext::begins_with(text, prefix) {
        assert(text =~= prefix + text.skip(prefix.len() as int));
    }
    if exists|rest: Seq<char>| text == #[trigger] (prefix + rest) {
        let rest = choose|rest: Seq<char>| text == #[trigger] (prefix + rest);
        assert(text.take(prefix.len() as int) =~= prefix);
    }
}

/// The compressions are told by names of their own.
pub proof fn compressions_have_names_of_their_own(
    one: Option<CompressionType>,
    other: Option<CompressionType>,
)
    ensures
        crate::distributed_ext::compression_name(one) == crate::distributed_ext::compression_name(
            other,
        ) <==> one == other,
        crate::distributed_ext::compression_name(Some(CompressionType::Zstd)) == "zstd"@,
        crate::distributed_ext::compression_name(Some(CompressionType::Lz4Frame)) == "lz4"@,
        crate::distributed_ext::compression_name(None) == "none"@,
{
    reveal_strlit("zstd");
    reveal_strlit("lz4");
    reveal_strlit("none");
    assert("zstd"@[0] == 'z');
    assert("lz4"@[0] == 'l');
    assert("none"@[0] == 'n');
}

/// What is known of a node is what was reported of it. A node that nothing was reported of reads
/// from no feed, asks for no tasks, demands nothing and has no filters.
pub proof fn nodes_are_known_by_their_reports(node: PlanView, input: int)
    ensures
        match node.facts {
            Some(facts) => {
                &&& node.feed() == facts.feed
                &&& node.estimate() == facts.estimate
                &&& node.properties() == facts.properties
                &&& node.produced() == facts.produced@
                &&& node.filters() == facts.filters@
                &&& node.requirement(input) == (if 0 <= input < facts.requirements@.len() {
                    facts.requirements@[input]
                } else {
                    InputRequirement::Unspecified
                })
            },
            None => {
                &&& node.feed() is None
                &&& node.estimate() is None
                &&& node.properties() is None
                &&& node.produced().len() == 0
                &&& node.filters().len() == 0
                &&& node.requirement(input) is Unspecified
            },
        },
{
}

/// A stage of one task may share the worker of a stage below it, the first that has one for itself.
/// Any other stage is routed.
pub proof fn only_single_tasks_share_workers(plan: &Plan, tasks: usize, result: Option<String>)
    requires
        call_ensures(crate::prepare_dynamic_plan::colocated_worker, (plan, tasks), result),
    ensures
        tasks != 1 ==> result is None,
        tasks == 1 ==> crate::reconstruction_laws::is_first_only_worker(
            plan@.pre_order(),
            match result {
                Some(url) => Some(url@),
                None => None,
            },
        ),
{
    crate::reconstruction_laws::single_workers_are_found(plan@);
}

/// A partition of a task goes to the process of the worker whose turn the task is that reads it,
/// and what is gathered goes where it is gathered.
pub proof fn partitions_reach_their_readers(
    routing: &FragmentRouting,
    partition: usize,
    n_workers: u32,
    result: u32,
)
    requires
        n_workers > 0,
        routing@ matches FragmentRoutingView::Hashed { consumer_task, .. } ==> partition
            < consumer_task.len(),
        call_ensures(crate::embedded::destination, (routing, partition, n_workers), result),
    ensures
        match routing@ {
            FragmentRoutingView::Coalesce { dest_proc } => result == dest_proc,
            FragmentRoutingView::Hashed { consumer_task, .. } => {
                &&& 1 <= result <= n_workers
                &&& exists|round: int|
                    consumer_task[partition as int] == #[trigger] (round * n_workers) + (result - 1)
            },
        },
{
    if let FragmentRoutingView::Hashed { consumer_task, .. } = routing@ {
        let task = consumer_task[partition as int] as int;
        vstd::arithmetic::div_mod::lemma_fundamental_div_mod(task, n_workers as int);
        let round = task / n_workers as int;
        assert(round * n_workers == n_workers as int * round) by (nonlinear_arith);
        assert(task == (round * n_workers) + (result - 1));
    }
}

/// The metrics of a query are complete once every task of its stages has reported, if they are
/// gathered and the query has run.
pub proof fn metrics_wait_for_all_tasks(root: &DistributedExec, complete: bool, key: TaskKey)
    requires
        call_ensures(DistributedExec::metrics_are_complete, (root,), complete),
    ensures
        root.metrics_store is None ==> complete,
        root.plan_for_viz is None ==> complete,
        root.metrics_store matches Some(store) ==> (root.plan_for_viz matches Some(plan) ==> {
            let awaited = crate::exchange_laws::keys_of_nodes(plan@.pre_order());
            &&& complete && awaited.contains(key) ==> store@.contains_key(key)
            &&& !complete ==> exists|i: int|
                0 <= i < awaited.len() && !store@.contains_key(#[trigger] awaited[i])
        }),
{
    if let Some(store) = root.metrics_store {
        if let Some(plan) = root.plan_for_viz {
            crate::exchange_laws::tasks_of_stages_are_named(plan@);
            let awaited = crate::exchange_laws::keys_of_nodes(plan@.pre_order());
            assert(plan@.task_keys() == awaited);
            if complete && awaited.contains(key) {
                let i = choose|i: int| 0 <= i < awaited.len() && awaited[i] == key;
                assert(store@.contains_key(plan@.task_keys()[i]));
            }
        }
    }
}

/// Workers that were picked are taken where there is one for each task of the stage, in their
/// order.
pub proof fn picked_workers_fit_the_stage(
    stage: &StageCoordinator,
    urls: Option<Result<Vec<String>, DistributedError>>,
    result: Result<Vec<String>, DistributedError>,
)
    requires
        call_ensures(StageCoordinator::routed_urls, (stage, urls), result),
    ensures
        match result {
            Ok(taken) => urls matches Some(Ok(picked)) && taken@ == picked@ && taken@.len()
                == stage.task_count,
            Err(error) => match urls {
                None => error@ == ErrorKind::NoRoute.plain(),
                Some(Err(failed)) => error@ == failed@,
                Some(Ok(picked)) => picked@.len() != stage.task_count && error@ == (
                ErrorKind::RouteMismatch {
                    tasks: stage.task_count,
                    urls: picked@.len() as usize,
                }).plain(),
            },
        },
{
}

/// Whether the operator is a source or one that the library knows by its name only.
pub open spec fn brings_its_name(op: OperatorView) -> bool {
    op is Scan || op is Other
}

/// Nodes of different kinds are told apart by their names, unless they bring them along.
pub proof fn names_tell_nodes_apart(one: OperatorView, other: OperatorView)
    requires
        !brings_its_name(one),
        !brings_its_name(other),
        one.name() == other.name(),
    ensures
        one is CoalescePartitions <==> other is CoalescePartitions,
        one is SortPreservingMerge <==> other is SortPreservingMerge,
        one is Sort <==> other is Sort,
        one is Union <==> other is Union,
        one is Repartition <==> other is Repartition,
        one is HashJoin <==> other is HashJoin,
        one is NestedLoopJoin <==> other is NestedLoopJoin,
        one is CrossJoin <==> other is CrossJoin,
        one is SortMergeJoin <==> other is SortMergeJoin,
        one is SymmetricHashJoin <==> other is SymmetricHashJoin,
        one is RestoreColumnOrder <==> other is RestoreColumnOrder,
        one is Aggregate <==> other is Aggregate,
        one is WindowAgg <==> other is WindowAgg,
        one is BoundedWindowAgg <==> other is BoundedWindowAgg,
        one is LocalLimit <==> other is LocalLimit,
        one is Broadcast <==> other is Broadcast,
        one is Sampler <==> other is Sampler,
        one is DistributedLeaf <==> other is DistributedLeaf,
        one is ChildrenIsolatorUnion <==> other is ChildrenIsolatorUnion,
        one is NetworkShuffle <==> other is NetworkShuffle,
        one is NetworkCoalesce <==> other is NetworkCoalesce,
        one is NetworkBroadcast <==> other is NetworkBroadcast,
        one is DistributedExec <==> other is DistributedExec,
{
    reveal_strlit("CoalescePartitionsExec");
    reveal_strlit("SortPreservingMergeExec");
    reveal_strlit("SortExec");
    reveal_strlit("UnionExec");
    reveal_strlit("RepartitionExec");
    reveal_strlit("HashJoinExec");
    reveal_strlit("NestedLoopJoinExec");
    reveal_strlit("CrossJoinExec");
    reveal_strlit("SortMergeJoinExec");
    reveal_strlit("SymmetricHashJoinExec");
    reveal_strlit("ProjectionExec");
    reveal_strlit("AggregateExec");
    reveal_strlit("WindowAggExec");
    reveal_strlit("BoundedWindowAggExec");
    reveal_strlit("LocalLimitExec");
    reveal_strlit("BroadcastExec");
    reveal_strlit("SamplerExec");
    reveal_strlit("DistributedLeafExec");
    reveal_strlit("ChildrenIsolatorUnionExec");
    reveal_strlit("NetworkShuffleExec");
    reveal_strlit("NetworkCoalesceExec");
    reveal_strlit("NetworkBroadcastExec");
    reveal_strlit("DistributedExec");
    assert("CoalescePartitionsExec"@.len() == 22);
    assert("SortPreservingMergeExec"@.len() == 23);
    assert("SortExec"@.len() == 8);
    assert("UnionExec"@.len() == 9);
    assert("RepartitionExec"@.len() == 15 && "RepartitionExec"@[0] == 'R');
    assert("HashJoinExec"@.len() == 12);
    assert("NestedLoopJoinExec"@.len() == 18 && "NestedLoopJoinExec"@[2] == 's');
    assert("CrossJoinExec"@.len() == 13 && "CrossJoinExec"@[0] == 'C');
    assert("SortMergeJoinExec"@.len() == 17);
    assert("SymmetricHashJoinExec"@.len() == 21);
    assert("ProjectionExec"@.len() == 14 && "ProjectionExec"@[0] == 'P');
    assert("AggregateExec"@.len() == 13 && "AggregateExec"@[0] == 'A');
    assert("WindowAggExec"@.len() == 13 && "WindowAggExec"@[0] == 'W');
    assert("BoundedWindowAggExec"@.len() == 20 && "BoundedWindowAggExec"@[0] == 'B');
    assert("LocalLimitExec"@.len() == 14 && "LocalLimitExec"@[0] == 'L');
    assert("BroadcastExec"@.len() == 13 && "BroadcastExec"@[0] == 'B');
    assert("SamplerExec"@.len() == 11);
    assert("DistributedLeafExec"@.len() == 19 && "DistributedLeafExec"@[0] == 'D');
    assert("ChildrenIsolatorUnionExec"@.len() == 25);
    assert("NetworkShuffleExec"@.len() == 18 && "NetworkShuffleExec"@[2] == 't');
    assert("NetworkCoalesceExec"@.len() == 19 && "NetworkCoalesceExec"@[0] == 'N');
    assert("NetworkBroadcastExec"@.len() == 20 && "NetworkBroadcastExec"@[0] == 'N');
    assert("DistributedExec"@.len() == 15 && "DistributedExec"@[0] == 'D');
}

} // verus!

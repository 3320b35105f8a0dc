use datafusion_distributed::boundary_factory::BoundaryKind;
use datafusion_distributed::codec::{DistributedCodec, DistributedExecNode};
use datafusion_distributed::error::ErrorKind;
use datafusion_distributed::ids::Uuid;
use datafusion_distributed::inject_network_boundaries::{
    inject_network_boundaries, ChildShare, InjectNetworkBoundaryContext, LocalStage, Outcome, Reply,
    Request, Strategy,
};
use datafusion_distributed::insert_broadcast::insert_broadcast_execs;
use datafusion_distributed::normalize_collect_joins::normalize_collect_joins;
use datafusion_distributed::plan::{
    AggregateMode, ChildWeight, DistributedTaskContext, Expr, Facts, GroupBy, JoinType, Operator,
    PartitionMode, PartitionRule, Partitioning, Plan, Properties, Schema, Stage,
};
use datafusion_distributed::prepare_dynamic_plan::{prepare_dynamic_plan, DynamicOutcome};
use datafusion_distributed::recursion::pre_order;
use datafusion_distributed::task_count::TaskCountAnnotation;
use std::sync::Arc;

type Estimator = fn(&Plan) -> Option<TaskCountAnnotation>;

fn column(name: &str) -> Expr {
    Expr::Column {
        name: name.to_string(),
        index: 0,
    }
}

fn weather(partitions: usize) -> Arc<Plan> {
    Plan::node(
        Operator::Scan {
            name: "DataSourceExec".to_string(),
            partitioning: Partitioning::UnknownPartitioning(partitions),
        },
        vec![],
    )
}

fn other(name: &str, child: Arc<Plan>) -> Arc<Plan> {
    Plan::node(
        Operator::Other {
            name: name.to_string(),
            partitions: PartitionRule::Input(0),
        },
        vec![child],
    )
}

fn hash_repartition(child: Arc<Plan>) -> Arc<Plan> {
    let partitioning = Partitioning::Hash(Arc::new(vec![column("RainToday")]), 4);
    Plan::node(Operator::Repartition { partitioning }, vec![child])
}

fn round_robin(child: Arc<Plan>) -> Arc<Plan> {
    let partitioning = Partitioning::RoundRobinBatch(4);
    Plan::node(Operator::Repartition { partitioning }, vec![child])
}

fn aggregate(mode: AggregateMode, child: Arc<Plan>) -> Arc<Plan> {
    Plan::node(
        Operator::Aggregate {
            mode,
            group_by: GroupBy {
                exprs: vec![(column("RainToday"), "RainToday".to_string())],
                null_exprs: vec![],
                groups: Arc::new(vec![vec![false]]),
                has_grouping_set: false,
            },
            aggregates: Arc::new(vec![]),
            filters: Arc::new(vec![]),
            input_schema: Arc::new(Schema { fields: vec![], metadata: vec![] }),
        },
        vec![child],
    )
}

/// An aggregation in two steps, with the rows spread by their group in between.
fn two_step_aggregation(child: Arc<Plan>) -> Arc<Plan> {
    aggregate(
        AggregateMode::FinalPartitioned,
        hash_repartition(aggregate(AggregateMode::Partial, child)),
    )
}

fn filtered() -> Arc<Plan> {
    other("FilterExec", round_robin(weather(3)))
}

fn collect(child: Arc<Plan>) -> Arc<Plan> {
    Plan::node(Operator::CoalescePartitions { fetch: None }, vec![child])
}

fn hash_join(join_type: JoinType, left: Arc<Plan>, right: Arc<Plan>) -> Arc<Plan> {
    Plan::node(
        Operator::HashJoin {
            mode: PartitionMode::CollectLeft,
            join_type,
            null_aware: false,
            left_keys: Arc::new(vec![column("RainToday")]),
            right_keys: Arc::new(vec![column("RainToday")]),
        },
        vec![left, right],
    )
}

fn broadcast_join() -> Arc<Plan> {
    hash_join(JoinType::Inner, collect(weather(3)), weather(3))
}

fn union(children: Vec<Arc<Plan>>) -> Arc<Plan> {
    Plan::node(Operator::Union, children)
}

fn is_scan(plan: &Plan) -> bool {
    matches!(&*plan.op, Operator::Scan { .. })
}

fn four_per_scan(plan: &Plan) -> Option<TaskCountAnnotation> {
    if is_scan(plan) {
        Some(TaskCountAnnotation::Desired(4))
    } else {
        None
    }
}

fn facts(estimate: Option<TaskCountAnnotation>) -> Arc<Facts> {
    Arc::new(Facts {
        estimate,
        feed: None,
        properties: None,
        requirements: vec![],
        unsatisfied_co_partitioned: None,
        produced: vec![],
        filters: vec![],
    })
}

/// A leaf with a variant for each task.
fn scaled(leaf: &Arc<Plan>, tasks: usize) -> Option<Arc<Plan>> {
    match &*leaf.op {
        Operator::Scan { partitioning, .. } => {
            let variants = (0..tasks).map(|_| Arc::clone(leaf)).collect();
            Some(Plan::distributed_leaf(partitioning.share(), variants))
        }
        _ => None,
    }
}

/// Deals tasks out to the children of a union, as evenly as it goes.
fn isolated(union: &Arc<Plan>, shares: &[ChildShare], tasks: usize) -> Arc<Operator> {
    let children = union.children.len();
    let mut task_idx_map = vec![];
    for child in 0..children {
        let count = tasks / children + if child < tasks % children { 1 } else { 0 };
        for task_index in 0..count {
            let ctx = DistributedTaskContext { task_index, task_count: count };
            task_idx_map.push(vec![(child, ctx)]);
        }
    }
    Arc::new(Operator::ChildrenIsolatorUnion {
        partitions: union.partition_count().unwrap(),
        weights: shares
            .iter()
            .map(|share| ChildWeight {
                weight_bits: (share.weight as f64).to_bits(),
                max: share.max,
            })
            .collect(),
        task_idx_map,
    })
}

/// How the volume of the rows changes from the bottom of a stage to its top.
fn scale_factor(plan: &Plan) -> f64 {
    if plan.op.is_network_boundary() {
        return 1.0;
    }
    let below = plan.children.iter().map(|child| scale_factor(child)).fold(f64::NAN, f64::max);
    let below = if below.is_nan() { 1.0 } else { below };
    match plan.op.name().as_str() {
        "AggregateExec" | "FilterExec" => below / 1.5,
        _ => below,
    }
}

fn answer(request: Request, estimator: Estimator) -> Reply {
    match request {
        Request::Report { plan } => Reply::Reported(
            pre_order(&plan).iter().map(|node| facts(estimator(node))).collect(),
        ),
        Request::ScaleLeaf { leaf, task_count } => Reply::ScaledLeaf(scaled(&leaf, task_count)),
        Request::IsolateUnion { union, shares, task_count } => {
            Reply::IsolatedUnion(isolated(&union, &shares, task_count))
        }
        Request::ConsumerTasks { stage, .. } => Reply::ConsumerTasks(
            (scale_factor(&stage.plan) * stage.tasks as f64).ceil() as usize,
        ),
        Request::StageCost { .. } => Reply::StageCost(1000),
        Request::Dispatch { stage, .. } => Reply::Dispatched(
            (0..stage.tasks).map(|task| format!("http://worker-{task}/")).collect(),
        ),
    }
}

fn context(max_tasks: usize, broadcast_joins: bool) -> InjectNetworkBoundaryContext {
    InjectNetworkBoundaryContext {
        query_id: Uuid::nil(),
        max_tasks,
        broadcast_joins,
        children_isolator_unions: true,
        strategy: Strategy::Static,
    }
}

fn injected(
    plan: &Arc<Plan>,
    ctx: &InjectNetworkBoundaryContext,
    estimator: Estimator,
) -> Arc<Plan> {
    let mut replies = vec![];
    loop {
        match inject_network_boundaries(plan, ctx, &replies) {
            Outcome::Done { plan, .. } => return plan,
            Outcome::Ask(request) => replies.push(answer(request, estimator)),
            Outcome::Fail(error) => panic!("{}", error.message()),
        }
    }
}

fn annotate(
    plan: Arc<Plan>,
    workers: usize,
    broadcast_joins: bool,
    estimator: Estimator,
) -> String {
    let plan = normalize_collect_joins(&plan, broadcast_joins, 4).unwrap();
    let plan = insert_broadcast_execs(&plan, broadcast_joins);
    let plan = injected(&plan, &context(workers, broadcast_joins), estimator);
    debug_annotated(&plan, 0)
}

fn debug_annotated(plan: &Arc<Plan>, indent: usize) -> String {
    let mut result = format!(
        "{}{}: task_count={:?}\n",
        "  ".repeat(indent),
        plan.op.name(),
        plan.task_count.unwrap()
    );
    for child in plan.children.iter() {
        result += &debug_annotated(child, indent + 1);
    }
    result
}

fn assert_snapshot(annotated: String, expected: &str) {
    let trimmed: Vec<&str> = expected.lines().filter(|line| !line.trim().is_empty()).collect();
    let margin = trimmed.iter().map(|line| line.len() - line.trim_start().len()).min().unwrap();
    let expected: String = trimmed.iter().map(|line| format!("{}\n", &line[margin..])).collect();
    assert_eq!(annotated, expected);
}

#[test]
fn inject_network_boundaries_test_select_all() {
    let annotated = annotate(weather(3), 4, false, four_per_scan);
    assert_snapshot(annotated, "DataSourceExec: task_count=Desired(4)");
}

#[test]
fn inject_network_boundaries_test_aggregation() {
    let sort = Plan::node(
        Operator::Sort { fetch: None, preserve_partitioning: true },
        vec![two_step_aggregation(weather(3))],
    );
    let plan = Plan::node(Operator::SortPreservingMerge, vec![other("ProjectionExec", sort)]);
    assert_snapshot(
        annotate(plan, 4, false, four_per_scan),
        "
        SortPreservingMergeExec: task_count=Maximum(1)
          NetworkCoalesceExec: task_count=Maximum(1)
            ProjectionExec: task_count=Desired(3)
              SortExec: task_count=Desired(3)
                AggregateExec: task_count=Desired(3)
                  NetworkShuffleExec: task_count=Desired(3)
                    RepartitionExec: task_count=Desired(4)
                      AggregateExec: task_count=Desired(4)
                        DistributedLeafExec: task_count=Desired(4)
        ",
    );
}

#[test]
fn inject_network_boundaries_test_left_join() {
    let plan = hash_join(JoinType::Left, collect(weather(3)), weather(3));
    assert_snapshot(
        annotate(plan, 4, false, four_per_scan),
        "
        HashJoinExec: task_count=Desired(4)
          NetworkShuffleExec: task_count=Desired(4)
            RepartitionExec: task_count=Desired(4)
              DistributedLeafExec: task_count=Desired(4)
          NetworkShuffleExec: task_count=Desired(4)
            RepartitionExec: task_count=Desired(4)
              DistributedLeafExec: task_count=Desired(4)
        ",
    );
}

#[test]
fn inject_network_boundaries_test_left_join_distributed() {
    let side = || other("ProjectionExec", two_step_aggregation(filtered()));
    let plan = hash_join(JoinType::Left, collect(side()), side());
    assert_snapshot(
        annotate(plan, 4, false, four_per_scan),
        "
        HashJoinExec: task_count=Desired(2)
          NetworkShuffleExec: task_count=Desired(2)
            RepartitionExec: task_count=Desired(2)
              ProjectionExec: task_count=Desired(2)
                AggregateExec: task_count=Desired(2)
                  NetworkShuffleExec: task_count=Desired(2)
                    RepartitionExec: task_count=Desired(4)
                      AggregateExec: task_count=Desired(4)
                        FilterExec: task_count=Desired(4)
                          RepartitionExec: task_count=Desired(4)
                            DistributedLeafExec: task_count=Desired(4)
          NetworkShuffleExec: task_count=Desired(2)
            RepartitionExec: task_count=Desired(2)
              ProjectionExec: task_count=Desired(2)
                AggregateExec: task_count=Desired(2)
                  NetworkShuffleExec: task_count=Desired(2)
                    RepartitionExec: task_count=Desired(4)
                      AggregateExec: task_count=Desired(4)
                        FilterExec: task_count=Desired(4)
                          RepartitionExec: task_count=Desired(4)
                            DistributedLeafExec: task_count=Desired(4)
        ",
    );
}

#[test]
fn test_inner_join() {
    assert_snapshot(
        annotate(broadcast_join(), 4, false, four_per_scan),
        "
        HashJoinExec: task_count=Maximum(1)
          CoalescePartitionsExec: task_count=Maximum(1)
            DistributedLeafExec: task_count=Maximum(1)
          DistributedLeafExec: task_count=Maximum(1)
        ",
    );
}

#[test]
fn inject_network_boundaries_test_distinct() {
    assert_snapshot(
        annotate(two_step_aggregation(weather(3)), 4, false, four_per_scan),
        "
        AggregateExec: task_count=Desired(3)
          NetworkShuffleExec: task_count=Desired(3)
            RepartitionExec: task_count=Desired(4)
              AggregateExec: task_count=Desired(4)
                DistributedLeafExec: task_count=Desired(4)
        ",
    );
}

fn union_of_two() -> Arc<Plan> {
    union(vec![filtered(), other("ProjectionExec", filtered())])
}

#[test]
fn test_union_all() {
    assert_snapshot(
        annotate(union_of_two(), 4, false, four_per_scan),
        "
        ChildrenIsolatorUnionExec: task_count=Desired(4)
          FilterExec: task_count=Maximum(2)
            RepartitionExec: task_count=Maximum(2)
              DistributedLeafExec: task_count=Maximum(2)
          ProjectionExec: task_count=Maximum(2)
            FilterExec: task_count=Maximum(2)
              RepartitionExec: task_count=Maximum(2)
                DistributedLeafExec: task_count=Maximum(2)
        ",
    );
}

#[test]
fn test_subquery() {
    assert_snapshot(
        annotate(filtered(), 4, false, four_per_scan),
        "
        FilterExec: task_count=Desired(4)
          RepartitionExec: task_count=Desired(4)
            DistributedLeafExec: task_count=Desired(4)
        ",
    );
}

#[test]
fn test_window_function() {
    let sort = Plan::node(
        Operator::Sort { fetch: None, preserve_partitioning: true },
        vec![hash_repartition(weather(3))],
    );
    let plan = other("ProjectionExec", Plan::node(Operator::BoundedWindowAgg, vec![sort]));
    assert_snapshot(
        annotate(plan, 4, false, four_per_scan),
        "
        ProjectionExec: task_count=Desired(4)
          BoundedWindowAggExec: task_count=Desired(4)
            SortExec: task_count=Desired(4)
              NetworkShuffleExec: task_count=Desired(4)
                RepartitionExec: task_count=Desired(4)
                  DistributedLeafExec: task_count=Desired(4)
        ",
    );
}

#[test]
fn test_children_isolator_union() {
    let projected = || other("ProjectionExec", filtered());
    let plan = union(vec![filtered(), projected(), projected()]);
    assert_snapshot(
        annotate(plan, 4, false, four_per_scan),
        "
        ChildrenIsolatorUnionExec: task_count=Desired(4)
          FilterExec: task_count=Maximum(2)
            RepartitionExec: task_count=Maximum(2)
              DistributedLeafExec: task_count=Maximum(2)
          ProjectionExec: task_count=Maximum(1)
            FilterExec: task_count=Maximum(1)
              RepartitionExec: task_count=Maximum(1)
                DistributedLeafExec: task_count=Maximum(1)
          ProjectionExec: task_count=Maximum(1)
            FilterExec: task_count=Maximum(1)
              RepartitionExec: task_count=Maximum(1)
                DistributedLeafExec: task_count=Maximum(1)
        ",
    );
}

fn one_per_repartition(plan: &Plan) -> Option<TaskCountAnnotation> {
    match &*plan.op {
        Operator::Repartition { .. } => Some(TaskCountAnnotation::Maximum(1)),
        _ => four_per_scan(plan),
    }
}

#[test]
fn test_intermediate_task_estimator() {
    assert_snapshot(
        annotate(two_step_aggregation(weather(3)), 4, false, one_per_repartition),
        "
        AggregateExec: task_count=Desired(1)
          NetworkShuffleExec: task_count=Desired(1)
            RepartitionExec: task_count=Desired(1)
              AggregateExec: task_count=Desired(1)
                DistributedLeafExec: task_count=Desired(1)
        ",
    );
}

#[test]
fn test_union_all_limited_by_intermediate_estimator() {
    assert_snapshot(
        annotate(union_of_two(), 4, false, one_per_repartition),
        "
        ChildrenIsolatorUnionExec: task_count=Desired(2)
          FilterExec: task_count=Maximum(1)
            RepartitionExec: task_count=Maximum(1)
              DistributedLeafExec: task_count=Maximum(1)
          ProjectionExec: task_count=Maximum(1)
            FilterExec: task_count=Maximum(1)
              RepartitionExec: task_count=Maximum(1)
                DistributedLeafExec: task_count=Maximum(1)
        ",
    );
}

#[test]
fn test_broadcast_join_annotation() {
    assert_snapshot(
        annotate(broadcast_join(), 4, true, four_per_scan),
        "
        HashJoinExec: task_count=Desired(4)
          CoalescePartitionsExec: task_count=Desired(4)
            NetworkBroadcastExec: task_count=Desired(4)
              BroadcastExec: task_count=Desired(4)
                DistributedLeafExec: task_count=Desired(4)
          DistributedLeafExec: task_count=Desired(4)
        ",
    );
}

#[test]
fn inject_network_boundaries_test_broadcast_datasource_as_build_child() {
    // A single partition needs no node that gathers it.
    let plan = hash_join(JoinType::Inner, weather(1), weather(1));
    let annotated = annotate(plan, 4, true, four_per_scan);
    assert!(annotated.contains("Broadcast"));
    assert_snapshot(
        annotated,
        "
        HashJoinExec: task_count=Desired(4)
          CoalescePartitionsExec: task_count=Desired(4)
            NetworkBroadcastExec: task_count=Desired(4)
              BroadcastExec: task_count=Desired(4)
                DistributedLeafExec: task_count=Desired(4)
          DistributedLeafExec: task_count=Desired(4)
        ",
    );
}

/// The build side of a join is smaller than the probe side.
fn one_per_small_scan(plan: &Plan) -> Option<TaskCountAnnotation> {
    match &*plan.op {
        Operator::Scan { partitioning, .. } => Some(match partitioning.partition_count() {
            1 => TaskCountAnnotation::Maximum(1),
            _ => TaskCountAnnotation::Desired(4),
        }),
        _ => None,
    }
}

#[test]
fn test_broadcast_one_to_many() {
    let plan = hash_join(JoinType::Inner, collect(weather(1)), weather(3));
    assert_snapshot(
        annotate(plan, 3, true, one_per_small_scan),
        "
        HashJoinExec: task_count=Desired(3)
          CoalescePartitionsExec: task_count=Desired(3)
            NetworkBroadcastExec: task_count=Desired(3)
              BroadcastExec: task_count=Desired(1)
                DistributedLeafExec: task_count=Desired(1)
          DistributedLeafExec: task_count=Desired(3)
        ",
    );
}

fn one_above_broadcast(plan: &Plan) -> Option<TaskCountAnnotation> {
    match &*plan.op {
        Operator::CoalescePartitions { .. } => match &*plan.children[0].op {
            Operator::Broadcast { .. } => Some(TaskCountAnnotation::Maximum(1)),
            _ => None,
        },
        _ => four_per_scan(plan),
    }
}

#[test]
fn test_broadcast_build_coalesce_caps_join_stage() {
    assert_snapshot(
        annotate(broadcast_join(), 3, true, one_above_broadcast),
        "
        HashJoinExec: task_count=Maximum(1)
          CoalescePartitionsExec: task_count=Maximum(1)
            NetworkBroadcastExec: task_count=Maximum(1)
              BroadcastExec: task_count=Desired(3)
                DistributedLeafExec: task_count=Desired(3)
          DistributedLeafExec: task_count=Maximum(1)
        ",
    );
}

#[test]
fn test_nested_loop_inner_join_broadcast() {
    let plan = Plan::node(
        Operator::NestedLoopJoin { join_type: JoinType::Inner, has_projection: false },
        vec![collect(weather(3)), weather(3)],
    );
    assert_snapshot(
        annotate(plan, 4, true, four_per_scan),
        "
        NestedLoopJoinExec: task_count=Desired(4)
          CoalescePartitionsExec: task_count=Desired(4)
            NetworkBroadcastExec: task_count=Desired(4)
              BroadcastExec: task_count=Desired(4)
                DistributedLeafExec: task_count=Desired(4)
          DistributedLeafExec: task_count=Desired(4)
        ",
    );
}

#[test]
fn test_broadcast_disabled_default() {
    let annotated = annotate(broadcast_join(), 4, false, four_per_scan);
    assert!(!annotated.contains("Broadcast"));
    assert_snapshot(
        annotated,
        "
        HashJoinExec: task_count=Maximum(1)
          CoalescePartitionsExec: task_count=Maximum(1)
            DistributedLeafExec: task_count=Maximum(1)
          DistributedLeafExec: task_count=Maximum(1)
        ",
    );
}

#[test]
fn test_broadcast_multi_join_chain() {
    let plan = hash_join(JoinType::Inner, collect(broadcast_join()), weather(3));
    assert_snapshot(
        annotate(plan, 4, true, four_per_scan),
        "
        HashJoinExec: task_count=Desired(4)
          CoalescePartitionsExec: task_count=Desired(4)
            NetworkBroadcastExec: task_count=Desired(4)
              BroadcastExec: task_count=Desired(4)
                HashJoinExec: task_count=Desired(4)
                  CoalescePartitionsExec: task_count=Desired(4)
                    NetworkBroadcastExec: task_count=Desired(4)
                      BroadcastExec: task_count=Desired(4)
                        DistributedLeafExec: task_count=Desired(4)
                  DistributedLeafExec: task_count=Desired(4)
          DistributedLeafExec: task_count=Desired(4)
        ",
    );
}

#[test]
fn test_broadcast_union_children_isolator_annotation() {
    let plan = union(vec![broadcast_join(), broadcast_join(), broadcast_join()]);
    assert_snapshot(
        annotate(plan, 4, true, four_per_scan),
        "
        ChildrenIsolatorUnionExec: task_count=Desired(4)
          HashJoinExec: task_count=Maximum(2)
            CoalescePartitionsExec: task_count=Maximum(2)
              NetworkBroadcastExec: task_count=Maximum(2)
                BroadcastExec: task_count=Desired(4)
                  DistributedLeafExec: task_count=Desired(4)
            DistributedLeafExec: task_count=Maximum(2)
          HashJoinExec: task_count=Maximum(1)
            CoalescePartitionsExec: task_count=Maximum(1)
              NetworkBroadcastExec: task_count=Maximum(1)
                BroadcastExec: task_count=Desired(4)
                  DistributedLeafExec: task_count=Desired(4)
            DistributedLeafExec: task_count=Maximum(1)
          HashJoinExec: task_count=Maximum(1)
            CoalescePartitionsExec: task_count=Maximum(1)
              NetworkBroadcastExec: task_count=Maximum(1)
                BroadcastExec: task_count=Desired(4)
                  DistributedLeafExec: task_count=Desired(4)
            DistributedLeafExec: task_count=Maximum(1)
        ",
    );
}

#[test]
fn leaves_without_an_estimate_run_in_one_task() {
    fn nothing(_: &Plan) -> Option<TaskCountAnnotation> {
        None
    }
    assert_snapshot(
        annotate(two_step_aggregation(weather(3)), 4, false, nothing),
        "
        AggregateExec: task_count=Desired(1)
          NetworkShuffleExec: task_count=Desired(1)
            RepartitionExec: task_count=Desired(1)
              AggregateExec: task_count=Desired(1)
                DistributedLeafExec: task_count=Desired(1)
        ",
    );
}

/// Plans a union of a scan and of a scan that runs in at most two tasks, with this answer to the
/// question for an isolated union.
fn capped_union(
    task_idx_map: Vec<Vec<(usize, DistributedTaskContext)>>,
    maxima: Vec<Option<usize>>,
) -> Result<Arc<Plan>, ErrorKind> {
    fn estimate(plan: &Plan) -> Option<TaskCountAnnotation> {
        match &*plan.op {
            Operator::Scan { partitioning: Partitioning::UnknownPartitioning(1), .. } => {
                Some(TaskCountAnnotation::Maximum(2))
            }
            Operator::Scan { .. } => Some(TaskCountAnnotation::Desired(3)),
            _ => None,
        }
    }
    let plan = union(vec![weather(3), weather(1)]);
    let ctx = context(8, false);
    let mut replies = vec![];
    loop {
        match inject_network_boundaries(&plan, &ctx, &replies) {
            Outcome::Done { plan, .. } => return Ok(plan),
            Outcome::Ask(Request::IsolateUnion { shares, task_count, .. }) => {
                assert_eq!(task_count, 5);
                assert_eq!(
                    shares,
                    vec![
                        ChildShare { weight: 3, max: None },
                        ChildShare { weight: 2, max: Some(2) },
                    ]
                );
                let weight = |max: &Option<usize>| ChildWeight { weight_bits: 0, max: *max };
                replies.push(Reply::IsolatedUnion(Arc::new(Operator::ChildrenIsolatorUnion {
                    partitions: 4,
                    weights: maxima.iter().map(weight).collect(),
                    task_idx_map: task_idx_map.clone(),
                })));
            }
            Outcome::Ask(request) => replies.push(answer(request, estimate)),
            Outcome::Fail(error) => return Err(error.kind),
        }
    }
}

#[test]
fn children_of_unions_are_dealt_no_more_tasks_than_they_can_run_in() {
    // Deals this many tasks to the first child, and this many to the second one.
    let dealt = |first: usize, second: usize| {
        let tasks = |child: usize, task_count: usize| {
            (0..task_count)
                .map(move |task_index| {
                    vec![(child, DistributedTaskContext { task_index, task_count })]
                })
                .collect::<Vec<_>>()
        };
        [tasks(0, first), tasks(1, second)].concat()
    };
    let caps = || vec![None, Some(2)];
    let plan = capped_union(dealt(3, 2), caps()).unwrap();
    assert_eq!(plan.task_count, Some(TaskCountAnnotation::Desired(5)));
    assert_eq!(plan.children[0].task_count, Some(TaskCountAnnotation::Maximum(3)));
    assert_eq!(plan.children[1].task_count, Some(TaskCountAnnotation::Maximum(2)));
    // The second child is dealt too many, or the tasks are too few, or a cap got lost.
    let refused = Some(ErrorKind::UnexpectedReply);
    assert_eq!(capped_union(dealt(2, 3), caps()).err(), refused);
    assert_eq!(capped_union(dealt(2, 2), caps()).err(), refused);
    assert_eq!(capped_union(dealt(3, 2), vec![None, None]).err(), refused);
    assert_eq!(capped_union(dealt(3, 2), vec![Some(3), Some(2)]).err(), refused);
    assert_eq!(capped_union(dealt(3, 2), vec![None]).err(), refused);
}

#[test]
fn isolated_unions_keep_what_is_known_of_their_rows() {
    let schema = Arc::new(Schema { fields: vec![], metadata: vec![] });
    let known = Arc::new(Properties {
        schema: Arc::clone(&schema),
        equivalences: None,
        ordering: None,
    });
    let plan = collect(union(vec![weather(3), weather(3)]));
    let ctx = context(4, false);
    let mut replies = vec![];
    let plan = loop {
        match inject_network_boundaries(&plan, &ctx, &replies) {
            Outcome::Done { plan, .. } => break plan,
            Outcome::Ask(Request::Report { plan }) => replies.push(Reply::Reported(
                pre_order(&plan)
                    .iter()
                    .map(|node| {
                        Arc::new(Facts {
                            estimate: four_per_scan(node),
                            feed: None,
                            properties: Some(Arc::clone(&known)),
                            requirements: vec![],
                            unsatisfied_co_partitioned: None,
                            produced: vec![],
                            filters: vec![],
                        })
                    })
                    .collect(),
            )),
            Outcome::Ask(request) => replies.push(answer(request, four_per_scan)),
            Outcome::Fail(error) => panic!("{}", error.message()),
        }
    };
    let coalesce = &plan.children[0];
    let isolated = &coalesce.children[0];
    assert!(matches!(&*isolated.op, Operator::ChildrenIsolatorUnion { .. }));
    assert!(isolated.facts.as_ref().unwrap().properties.is_some());
    match &*coalesce.op {
        Operator::NetworkCoalesce { properties, .. } => {
            assert!(Arc::ptr_eq(&properties.as_ref().unwrap().schema, &schema))
        }
        other => panic!("unexpected operator {other:?}"),
    }
    let encoded = DistributedCodec.try_encode(coalesce).unwrap();
    match encoded.node {
        Some(DistributedExecNode::NetworkCoalesceTasks(proto)) => assert!(proto.schema.is_some()),
        other => panic!("unexpected message {other:?}"),
    }
}

#[test]
fn stages_are_numbered_in_the_order_they_are_closed() {
    let plan = collect(two_step_aggregation(weather(3)));
    let plan = injected(&plan, &context(4, false), four_per_scan);
    let nums: Vec<(String, usize, usize)> = pre_order(&plan)
        .iter()
        .filter_map(|node| {
            let stage = node.op.as_network_boundary()?;
            Some((node.op.name(), stage.num(), stage.task_count()))
        })
        .collect();
    assert_eq!(
        nums,
        vec![
            ("NetworkCoalesceExec".to_string(), 2, 3),
            ("NetworkShuffleExec".to_string(), 1, 4),
        ]
    );
}

#[test]
fn questions_come_in_the_order_of_the_walk() {
    let plan = two_step_aggregation(weather(3));
    let ctx = context(4, false);
    let mut replies = vec![];
    let mut asked = vec![];
    loop {
        match inject_network_boundaries(&plan, &ctx, &replies) {
            Outcome::Done { next, .. } => {
                assert_eq!(next.reply, replies.len());
                assert_eq!(next.stage, 2);
                break;
            }
            Outcome::Ask(request) => {
                asked.push(match &request {
                    Request::Report { plan } => format!("report {}", plan.op.name()),
                    Request::ScaleLeaf { task_count, .. } => format!("scale {task_count}"),
                    Request::ConsumerTasks { kind, stage } => {
                        assert_eq!(*kind, BoundaryKind::Shuffle);
                        format!("consumers of {} in {} tasks", stage.num, stage.tasks)
                    }
                    other => panic!("unexpected question {other:?}"),
                });
                replies.push(answer(request, four_per_scan));
            }
            Outcome::Fail(error) => panic!("{}", error.message()),
        }
    }
    assert_eq!(asked, vec!["report AggregateExec", "scale 4", "consumers of 1 in 4 tasks"]);
}

fn failure(plan: &Arc<Plan>, replies: Vec<Reply>) -> ErrorKind {
    match inject_network_boundaries(plan, &context(4, false), &replies) {
        Outcome::Fail(error) => error.kind,
        other => panic!("unexpected outcome {other:?}"),
    }
}

#[test]
fn answers_must_fit_their_questions() {
    let plan = two_step_aggregation(weather(3));
    assert_eq!(failure(&plan, vec![Reply::StageCost(1)]), ErrorKind::UnexpectedReply);
    // Four nodes need four reports.
    let reports = |n| Reply::Reported((0..n).map(|_| facts(None)).collect());
    assert_eq!(failure(&plan, vec![reports(3)]), ErrorKind::UnexpectedReply);
    assert_eq!(failure(&plan, vec![reports(5)]), ErrorKind::UnexpectedReply);
    assert_eq!(
        failure(&plan, vec![reports(4), Reply::ConsumerTasks(2)]),
        ErrorKind::UnexpectedReply
    );
}

#[test]
fn measured_stages_are_sent_away_before_the_walk_goes_on() {
    let plan = collect(two_step_aggregation(weather(3)));
    let ctx = InjectNetworkBoundaryContext {
        strategy: Strategy::Dynamic { bytes_per_partition_per_second: 100 },
        ..context(8, false)
    };
    let plan = injected(&plan, &ctx, four_per_scan);
    // A thousand bytes at a hundred a partition take ten partitions, three tasks of four
    // partitions each. The estimate of the leaf asks for four.
    let shuffle = match &*plan.children[0].op {
        Operator::NetworkCoalesce { stage: Stage::Remote { num, workers, .. }, .. } => {
            assert_eq!(*num, 2);
            workers.len()
        }
        other => panic!("unexpected operator {other:?}"),
    };
    assert_eq!(shuffle, 3);
    assert!(plan.children[0].children.is_empty());
}

/// The operators of a plan from the top down, the children of a node in order.
fn names(plan: &Arc<Plan>) -> Vec<String> {
    pre_order(plan).iter().map(|node| node.op.name()).collect()
}

#[test]
fn plans_that_are_cut_while_they_run_send_their_stages_from_the_bottom_up() {
    let plan = collect(two_step_aggregation(weather(3)));
    let ctx = InjectNetworkBoundaryContext {
        strategy: Strategy::Dynamic { bytes_per_partition_per_second: 100 },
        ..context(8, false)
    };
    let mut replies = vec![];
    let mut sent: Vec<LocalStage> = vec![];
    let prepared = loop {
        match prepare_dynamic_plan(&plan, &ctx, &replies, &sent) {
            DynamicOutcome::Done(prepared) => break prepared,
            DynamicOutcome::Ask(request) => {
                if let Request::Dispatch { stage, .. } = &request {
                    // Whatever is sent reads from stages that have left already.
                    for node in pre_order(&stage.plan) {
                        if node.op.is_network_boundary() {
                            assert!(node.children.is_empty());
                        }
                    }
                    sent.push(LocalStage {
                        query_id: stage.query_id,
                        num: stage.num,
                        tasks: stage.tasks,
                        plan: Arc::clone(&stage.plan),
                    });
                }
                replies.push(answer(request, four_per_scan));
            }
            DynamicOutcome::Fail(error) => panic!("{}", error.message()),
        }
    };
    let numbers: Vec<usize> = sent.iter().map(|stage| stage.num).collect();
    assert_eq!(numbers, [1, 2]);
    assert_eq!(names(&prepared.head_stage), ["CoalescePartitionsExec", "NetworkCoalesceExec"]);
    assert_eq!(
        names(&prepared.plan_for_viz),
        [
            "CoalescePartitionsExec",
            "NetworkCoalesceExec",
            "AggregateExec",
            "NetworkShuffleExec",
            "RepartitionExec",
            "SamplerExec",
            "AggregateExec",
            "DistributedLeafExec",
        ]
    );
}

#[test]
fn a_stage_that_was_never_sent_cannot_be_shown() {
    let plan = collect(filtered());
    let ctx = InjectNetworkBoundaryContext {
        strategy: Strategy::Dynamic { bytes_per_partition_per_second: 100 },
        ..context(8, false)
    };
    let mut replies = vec![];
    let error = loop {
        match prepare_dynamic_plan(&plan, &ctx, &replies, &vec![]) {
            DynamicOutcome::Ask(request) => replies.push(answer(request, |_| None)),
            DynamicOutcome::Fail(error) => break error,
            DynamicOutcome::Done(_) => panic!("no stage was kept"),
        }
    };
    assert_eq!(error.kind, ErrorKind::MissingStagePlan { num: 1 });
}

/// Checks that the nodes of each stage were given the tasks of the stage, and returns the number
/// of tasks of each stage, from the top down.
fn stage_tasks(plan: &Arc<Plan>, expected: usize) -> Vec<usize> {
    assert_eq!(plan.task_count.unwrap().as_usize(), expected, "{}", plan.op.name());
    let mut stages = vec![];
    let below = match plan.op.as_network_boundary() {
        Some(stage) => {
            stages.push(stage.task_count());
            stage.task_count()
        }
        None => expected,
    };
    for child in plan.children.iter() {
        stages.append(&mut stage_tasks(child, below));
    }
    stages
}

#[test]
fn nodes_have_the_tasks_of_their_stage() {
    let plan = collect(two_step_aggregation(filtered()));
    let plan = injected(&plan, &context(8, false), four_per_scan);
    // Two nodes reduce the rows by half as much again: four tasks are read by two.
    assert_eq!(stage_tasks(&plan, 1), [2, 4]);
}

#[test]
fn joins_that_cannot_be_spread_run_in_a_single_task() {
    let plan = collect(other("ProjectionExec", broadcast_join()));
    let plan = injected(&plan, &context(8, false), four_per_scan);
    // The join is fed by a stage of one task, below it the sides have theirs.
    assert_eq!(stage_tasks(&plan, 1)[0], 1);
}

use datafusion_distributed::distributed_config::DistributedConfig;
use datafusion_distributed::distributed_query_planner::PlanningContext;
use datafusion_distributed::error::ErrorKind;
use datafusion_distributed::ids::Uuid;
use datafusion_distributed::inject_network_boundaries::{ChildShare, Outcome, Reply, Request};
use datafusion_distributed::plan::{
    AggregateMode, ChildWeight, DistributedTaskContext, Expr, Facts, GroupBy, InputRequirement,
    JoinType, Operator, PartitionMode, PartitionRule, Partitioning, Plan, Schema, Stage,
};
use datafusion_distributed::recursion::pre_order;
use datafusion_distributed::task_count::TaskCountAnnotation;
use std::sync::Arc;

fn column(name: &str) -> Expr {
    Expr::Column {
        name: name.to_string(),
        index: 0,
    }
}

fn weather(partitions: usize) -> Arc<Plan> {
    Plan::node(
        Operator::Scan {
            name: "DataSourceExec".to_string(),
            partitioning: Partitioning::UnknownPartitioning(partitions),
        },
        vec![],
    )
}

fn other(name: &str, child: Arc<Plan>) -> Arc<Plan> {
    Plan::node(
        Operator::Other {
            name: name.to_string(),
            partitions: PartitionRule::Input(0),
        },
        vec![child],
    )
}

fn hash_repartition(child: Arc<Plan>) -> Arc<Plan> {
    let partitioning = Partitioning::Hash(Arc::new(vec![column("RainToday")]), 4);
    Plan::node(Operator::Repartition { partitioning }, vec![child])
}

fn round_robin(child: Arc<Plan>) -> Arc<Plan> {
    let partitioning = Partitioning::RoundRobinBatch(4);
    Plan::node(Operator::Repartition { partitioning }, vec![child])
}

fn aggregate(mode: AggregateMode, child: Arc<Plan>) -> Arc<Plan> {
    Plan::node(
        Operator::Aggregate {
            mode,
            group_by: GroupBy {
                exprs: vec![(column("RainToday"), "RainToday".to_string())],
                null_exprs: vec![],
                groups: Arc::new(vec![vec![false]]),
                has_grouping_set: false,
            },
            aggregates: Arc::new(vec![]),
            filters: Arc::new(vec![]),
            input_schema: Arc::new(Schema { fields: vec![], metadata: vec![] }),
        },
        vec![child],
    )
}

/// An aggregation in two steps, with the rows spread by their group in between.
fn two_step_aggregation(child: Arc<Plan>) -> Arc<Plan> {
    aggregate(
        AggregateMode::FinalPartitioned,
        hash_repartition(aggregate(AggregateMode::Partial, child)),
    )
}

fn filtered() -> Arc<Plan> {
    other("FilterExec", round_robin(weather(3)))
}

fn collect(child: Arc<Plan>) -> Arc<Plan> {
    Plan::node(Operator::CoalescePartitions { fetch: None }, vec![child])
}

fn hash_join(join_type: JoinType, left: Arc<Plan>, right: Arc<Plan>) -> Arc<Plan> {
    Plan::node(
        Operator::HashJoin {
            mode: PartitionMode::CollectLeft,
            join_type,
            null_aware: false,
            left_keys: Arc::new(vec![column("RainToday")]),
            right_keys: Arc::new(vec![column("RainToday")]),
        },
        vec![left, right],
    )
}

fn broadcast_join() -> Arc<Plan> {
    hash_join(JoinType::Inner, collect(weather(3)), weather(3))
}

fn union(children: Vec<Arc<Plan>>) -> Arc<Plan> {
    Plan::node(Operator::Union, children)
}


/// What stands in for the engine around the planner.
struct Engine {
    tasks_per_scan: usize,
    /// How many tasks a scan of a single partition is given.
    tasks_per_small_scan: usize,
    factor: f64,
}

fn weight(share: &ChildShare) -> ChildWeight {
    ChildWeight { weight_bits: (share.weight as f64).to_bits(), max: share.max }
}

fn requirements(plan: &Plan) -> Vec<InputRequirement> {
    let keys =
        || InputRequirement::KeyPartitioned { satisfied: true, claimed: "Hash".to_string() };
    let collected = vec![InputRequirement::SinglePartition, InputRequirement::Unspecified];
    match &*plan.op {
        Operator::HashJoin { mode: PartitionMode::Partitioned, .. } => vec![keys(), keys()],
        Operator::HashJoin { .. } | Operator::NestedLoopJoin { .. } | Operator::CrossJoin => {
            collected
        }
        Operator::Aggregate { mode: AggregateMode::FinalPartitioned, .. } => vec![keys()],
        _ => vec![],
    }
}

/// The number of partitions of the busiest task of an isolated union.
fn busiest(union: &Plan, tasks: &[Vec<(usize, DistributedTaskContext)>]) -> usize {
    let partitions = |child: usize| union.children[child].partition_count().unwrap();
    tasks
        .iter()
        .map(|entry| entry.iter().map(|(child, _)| partitions(*child)).sum())
        .max()
        .unwrap_or(0)
}

impl Engine {
    fn report(&self, plan: &Plan) -> Arc<Facts> {
        let estimate = match &*plan.op {
            Operator::Scan { partitioning, .. } => Some(match partitioning.partition_count() {
                1 => TaskCountAnnotation::Maximum(self.tasks_per_small_scan),
                _ => TaskCountAnnotation::Desired(self.tasks_per_scan),
            }),
            _ => None,
        };
        Arc::new(Facts {
            estimate,
            feed: None,
            properties: None,
            requirements: requirements(plan),
            unsatisfied_co_partitioned: None,
            produced: vec![],
            filters: vec![],
        })
    }

    fn scale_factor(&self, plan: &Plan) -> f64 {
        if plan.op.is_network_boundary() {
            return 1.0;
        }
        let below = plan.children.iter().map(|child| self.scale_factor(child));
        let below = below.fold(f64::NAN, f64::max);
        let below = if below.is_nan() { 1.0 } else { below };
        match plan.op.name().as_str() {
            "AggregateExec" | "FilterExec" => below / self.factor,
            _ => below,
        }
    }

    /// Deals tasks out to the children of a union, as evenly as it goes.
    fn isolate(&self, union: &Plan, shares: &[ChildShare], tasks: usize) -> Arc<Operator> {
        let children = union.children.len();
        let mut task_idx_map = vec![];
        if children > tasks {
            task_idx_map = vec![vec![]; tasks];
            for child in 0..children {
                let ctx = DistributedTaskContext { task_index: 0, task_count: 1 };
                task_idx_map[child % tasks].push((child, ctx));
            }
        } else {
            for child in 0..children {
                let task_count = tasks / children + if child < tasks % children { 1 } else { 0 };
                for task_index in 0..task_count {
                    let ctx = DistributedTaskContext { task_index, task_count };
                    task_idx_map.push(vec![(child, ctx)]);
                }
            }
        }
        Arc::new(Operator::ChildrenIsolatorUnion {
            partitions: busiest(union, &task_idx_map),
            weights: shares.iter().map(weight).collect(),
            task_idx_map,
        })
    }

    fn answer(&self, request: Request) -> Reply {
        match request {
            Request::Report { plan } => Reply::Reported(
                pre_order(&plan).iter().map(|node| self.report(node)).collect(),
            ),
            Request::ScaleLeaf { leaf, task_count } => {
                Reply::ScaledLeaf(match &*leaf.op {
                    Operator::Scan { partitioning, .. } => Some(Plan::distributed_leaf(
                        partitioning.share(),
                        (0..task_count).map(|_| Arc::clone(&leaf)).collect(),
                    )),
                    _ => None,
                })
            }
            Request::IsolateUnion { union, shares, task_count } => {
                Reply::IsolatedUnion(self.isolate(&union, &shares, task_count))
            }
            Request::ConsumerTasks { stage, .. } => Reply::ConsumerTasks(
                (self.scale_factor(&stage.plan) * stage.tasks as f64).ceil() as usize,
            ),
            other => panic!("unexpected question {other:?}"),
        }
    }
}

const ENGINE: Engine = Engine { tasks_per_scan: 3, tasks_per_small_scan: 1, factor: 1.5 };

fn context(workers: usize, broadcast_joins: bool) -> PlanningContext {
    let mut config = DistributedConfig::default();
    config.broadcast_joins = broadcast_joins;
    PlanningContext {
        config,
        workers,
        target_partitions: 4,
        injection_id: Uuid::nil(),
        query_id: Uuid { bytes: [1; 16] },
    }
}

fn planned_by(engine: &Engine, ctx: &PlanningContext, plan: &Arc<Plan>) -> Arc<Plan> {
    let mut replies = vec![];
    loop {
        match ctx.create_physical_plan(plan, &replies) {
            Outcome::Done { plan, .. } => return plan,
            Outcome::Ask(request) => replies.push(engine.answer(request)),
            Outcome::Fail(error) => panic!("{}", error.message()),
        }
    }
}

fn planned(ctx: &PlanningContext, plan: &Arc<Plan>) -> Arc<Plan> {
    planned_by(&ENGINE, ctx, plan)
}

/// Shows a stage, and the stages below it after it.
fn show(plan: &Arc<Plan>) -> Vec<String> {
    let mut lines = vec![];
    let mut stages = vec![];
    show_stage(plan, 0, &mut lines, &mut stages);
    for stage in stages {
        let below = stage.op.as_network_boundary().unwrap();
        lines.push(format!("-- Stage {}: tasks={}", below.num(), below.task_count()));
        lines.extend(show(&stage.children[0]));
    }
    lines
}

fn show_stage(
    plan: &Arc<Plan>,
    indent: usize,
    lines: &mut Vec<String>,
    stages: &mut Vec<Arc<Plan>>,
) {
    let detail = match &*plan.op {
        Operator::Repartition { partitioning } => format!(" {}", partitioning.partition_count()),
        Operator::Broadcast { consumer_tasks } => format!(" {consumer_tasks}"),
        Operator::LocalLimit { fetch } => format!(" {fetch}"),
        Operator::CoalescePartitions { fetch: Some(fetch) } => format!(" {fetch}"),
        Operator::DistributedLeaf { .. } => format!(" {}", plan.variants.len()),
        Operator::HashJoin { mode, join_type, .. } => format!(" {mode:?} {join_type:?}"),
        Operator::NestedLoopJoin { join_type, .. } => format!(" {join_type:?}"),
        Operator::Aggregate { mode, .. } => format!(" {mode:?}"),
        _ => String::new(),
    };
    let margin = "  ".repeat(indent);
    match plan.op.as_network_boundary() {
        Some(stage) => {
            let partitions = plan.partition_count().unwrap();
            lines.push(format!("{margin}[Stage {}] {} {partitions}", stage.num(), plan.op.name()));
            stages.push(Arc::clone(plan));
        }
        None => {
            lines.push(format!("{margin}{}{detail}", plan.op.name()));
            for child in plan.children.iter() {
                show_stage(child, indent + 1, lines, stages);
            }
        }
    }
}

fn assert_shown(plan: &Arc<Plan>, expected: &str) {
    let lines: Vec<&str> = expected.lines().filter(|line| !line.trim().is_empty()).collect();
    let margin = lines.iter().map(|line| line.len() - line.trim_start().len()).min().unwrap();
    let expected: Vec<&str> = lines.iter().map(|line| &line[margin..]).collect();
    assert_eq!(show(plan), expected);
}

fn sorted(child: Arc<Plan>) -> Arc<Plan> {
    let sort = Operator::Sort { fetch: None, preserve_partitioning: true };
    Plan::node(Operator::SortPreservingMerge, vec![Plan::node(sort, vec![child])])
}

fn sorted_aggregation() -> Arc<Plan> {
    sorted(other("ProjectionExec", two_step_aggregation(weather(3))))
}

#[test]
fn scans_stay_as_they_are() {
    let plan = weather(3);
    assert_shown(&planned(&context(3, false), &plan), "DataSourceExec");
}

#[test]
fn aggregations_are_cut_at_the_repartition_and_at_the_merge() {
    assert_shown(
        &planned(&context(3, false), &sorted_aggregation()),
        "
        DistributedExec
          SortPreservingMergeExec
            [Stage 2] NetworkCoalesceExec 8
        -- Stage 2: tasks=2
        SortExec
          ProjectionExec
            AggregateExec FinalPartitioned
              [Stage 1] NetworkShuffleExec 4
        -- Stage 1: tasks=3
        RepartitionExec 8
          AggregateExec Partial
            DistributedLeafExec 3
        ",
    );
}

#[test]
fn workers_limit_the_tasks_of_a_stage() {
    assert_shown(
        &planned(&context(2, false), &sorted_aggregation()),
        "
        DistributedExec
          SortPreservingMergeExec
            [Stage 2] NetworkCoalesceExec 8
        -- Stage 2: tasks=2
        SortExec
          ProjectionExec
            AggregateExec FinalPartitioned
              [Stage 1] NetworkShuffleExec 4
        -- Stage 1: tasks=2
        RepartitionExec 8
          AggregateExec Partial
            DistributedLeafExec 2
        ",
    );
}

#[test]
fn without_workers_the_plan_stays_as_it_was() {
    let plan = sorted_aggregation();
    let result = planned(&context(0, false), &plan);
    assert_eq!(format!("{plan:?}"), format!("{result:?}"));
}

#[test]
fn strong_reductions_leave_the_final_stage_a_single_task() {
    let engine = Engine { factor: 3.0, ..ENGINE };
    assert_shown(
        &planned_by(&engine, &context(3, false), &sorted_aggregation()),
        "
        DistributedExec
          SortPreservingMergeExec
            SortExec
              ProjectionExec
                AggregateExec FinalPartitioned
                  [Stage 1] NetworkShuffleExec 4
        -- Stage 1: tasks=3
        RepartitionExec 4
          AggregateExec Partial
            DistributedLeafExec 3
        ",
    );
}

#[test]
fn small_scans_stay_in_one_process() {
    let engine = Engine { tasks_per_scan: 1, ..ENGINE };
    let plan = sorted_aggregation();
    let result = planned_by(&engine, &context(3, false), &plan);
    assert_eq!(format!("{plan:?}"), format!("{result:?}"));
}

#[test]
fn joins_that_collect_stay_in_one_task_without_broadcasts() {
    let plan = hash_join(JoinType::Left, collect(weather(3)), weather(3));
    let result = planned(&context(3, false), &plan);
    assert_eq!(format!("{plan:?}"), format!("{result:?}"));

    let side = || other("ProjectionExec", two_step_aggregation(filtered()));
    let plan = hash_join(JoinType::Left, collect(side()), side());
    assert_shown(
        &planned(&context(3, false), &plan),
        "
        DistributedExec
          CoalescePartitionsExec
            HashJoinExec CollectLeft Left
              CoalescePartitionsExec
                [Stage 2] NetworkCoalesceExec 8
              ProjectionExec
                AggregateExec FinalPartitioned
                  [Stage 3] NetworkShuffleExec 4
        -- Stage 2: tasks=2
        ProjectionExec
          AggregateExec FinalPartitioned
            [Stage 1] NetworkShuffleExec 4
        -- Stage 1: tasks=3
        RepartitionExec 8
          AggregateExec Partial
            FilterExec
              RepartitionExec 4
                DistributedLeafExec 3
        -- Stage 3: tasks=3
        RepartitionExec 4
          AggregateExec Partial
            FilterExec
              RepartitionExec 4
                DistributedLeafExec 3
        ",
    );
}

#[test]
fn sorts_run_in_the_tasks_of_their_leaf() {
    assert_shown(
        &planned(&context(3, false), &sorted(weather(3))),
        "
        DistributedExec
          SortPreservingMergeExec
            [Stage 1] NetworkCoalesceExec 9
        -- Stage 1: tasks=3
        SortExec
          DistributedLeafExec 3
        ",
    );
}

#[test]
fn limits_reach_the_stage_below_the_gathering_node() {
    let fetch = Operator::CoalescePartitions { fetch: Some(10) };
    let gathered = Plan::node(fetch, vec![two_step_aggregation(weather(3))]);
    assert_shown(
        &planned(&context(3, false), &other("ProjectionExec", gathered)),
        "
        DistributedExec
          ProjectionExec
            CoalescePartitionsExec 10
              [Stage 2] NetworkCoalesceExec 8
        -- Stage 2: tasks=2
        LocalLimitExec 10
          AggregateExec FinalPartitioned
            [Stage 1] NetworkShuffleExec 4
        -- Stage 1: tasks=3
        RepartitionExec 8
          AggregateExec Partial
            DistributedLeafExec 3
        ",
    );
}

#[test]
fn many_partitions_are_gathered_at_the_root() {
    assert_shown(
        &planned(&context(3, false), &two_step_aggregation(weather(3))),
        "
        DistributedExec
          CoalescePartitionsExec
            [Stage 2] NetworkCoalesceExec 8
        -- Stage 2: tasks=2
        AggregateExec FinalPartitioned
          [Stage 1] NetworkShuffleExec 4
        -- Stage 1: tasks=3
        RepartitionExec 8
          AggregateExec Partial
            DistributedLeafExec 3
        ",
    );
}

#[test]
fn plans_without_an_estimate_stay_as_they_are() {
    let leaf = Plan::node(
        Operator::Other {
            name: "StreamingTableExec".to_string(),
            partitions: PartitionRule::Fixed(1),
        },
        vec![],
    );
    let plan = other("FilterExec", round_robin(leaf));
    let result = planned(&context(3, false), &plan);
    assert_eq!(format!("{plan:?}"), format!("{result:?}"));
}

fn union_of(children: usize) -> Arc<Plan> {
    let mut plans = vec![filtered()];
    for _ in 1..children {
        plans.push(other("ProjectionExec", filtered()));
    }
    union(plans)
}

#[test]
fn children_of_a_union_share_its_tasks() {
    assert_shown(
        &planned(&context(6, false), &union_of(2)),
        "
        DistributedExec
          CoalescePartitionsExec
            [Stage 1] NetworkCoalesceExec 24
        -- Stage 1: tasks=6
        ChildrenIsolatorUnionExec
          FilterExec
            RepartitionExec 4
              DistributedLeafExec 3
          ProjectionExec
            FilterExec
              RepartitionExec 4
                DistributedLeafExec 3
        ",
    );
    assert_shown(
        &planned(&context(3, false), &union_of(2)),
        "
        DistributedExec
          CoalescePartitionsExec
            [Stage 1] NetworkCoalesceExec 12
        -- Stage 1: tasks=3
        ChildrenIsolatorUnionExec
          FilterExec
            RepartitionExec 4
              DistributedLeafExec 2
          ProjectionExec
            FilterExec
              RepartitionExec 4
                DistributedLeafExec 1
        ",
    );
    let five = planned(&context(3, false), &union_of(5));
    assert_eq!(show(&five)[2], "    [Stage 1] NetworkCoalesceExec 24");
}

#[test]
fn the_configured_limit_holds_too() {
    let mut ctx = context(6, false);
    ctx.config.max_tasks_per_stage = 2;
    let plan = union(vec![weather(3), weather(3)]);
    assert_shown(
        &planned(&ctx, &plan),
        "
        DistributedExec
          CoalescePartitionsExec
            [Stage 1] NetworkCoalesceExec 6
        -- Stage 1: tasks=2
        ChildrenIsolatorUnionExec
          DistributedLeafExec 1
          DistributedLeafExec 1
        ",
    );
}

#[test]
fn build_sides_are_broadcast() {
    assert_shown(
        &planned(&context(3, true), &broadcast_join()),
        "
        DistributedExec
          CoalescePartitionsExec
            [Stage 2] NetworkCoalesceExec 9
        -- Stage 2: tasks=3
        HashJoinExec CollectLeft Inner
          CoalescePartitionsExec
            [Stage 1] NetworkBroadcastExec 3
          DistributedLeafExec 3
        -- Stage 1: tasks=3
        BroadcastExec 3
          DistributedLeafExec 3
        ",
    );
}

#[test]
fn broadcasts_nest() {
    let plan = hash_join(JoinType::Inner, collect(broadcast_join()), weather(3));
    assert_shown(
        &planned(&context(3, true), &plan),
        "
        DistributedExec
          CoalescePartitionsExec
            [Stage 3] NetworkCoalesceExec 9
        -- Stage 3: tasks=3
        HashJoinExec CollectLeft Inner
          CoalescePartitionsExec
            [Stage 2] NetworkBroadcastExec 3
          DistributedLeafExec 3
        -- Stage 2: tasks=3
        BroadcastExec 3
          HashJoinExec CollectLeft Inner
            CoalescePartitionsExec
              [Stage 1] NetworkBroadcastExec 3
            DistributedLeafExec 3
        -- Stage 1: tasks=3
        BroadcastExec 3
          DistributedLeafExec 3
        ",
    );
}

#[test]
fn broadcasts_in_an_isolated_union_serve_the_tasks_of_their_child() {
    let plan = union(vec![broadcast_join(), broadcast_join(), broadcast_join()]);
    assert_shown(
        &planned(&context(3, true), &plan),
        "
        DistributedExec
          CoalescePartitionsExec
            [Stage 4] NetworkCoalesceExec 9
        -- Stage 4: tasks=3
        ChildrenIsolatorUnionExec
          HashJoinExec CollectLeft Inner
            CoalescePartitionsExec
              [Stage 1] NetworkBroadcastExec 3
            DistributedLeafExec 1
          HashJoinExec CollectLeft Inner
            CoalescePartitionsExec
              [Stage 2] NetworkBroadcastExec 3
            DistributedLeafExec 1
          HashJoinExec CollectLeft Inner
            CoalescePartitionsExec
              [Stage 3] NetworkBroadcastExec 3
            DistributedLeafExec 1
        -- Stage 1: tasks=3
        BroadcastExec 1
          DistributedLeafExec 3
        -- Stage 2: tasks=3
        BroadcastExec 1
          DistributedLeafExec 3
        -- Stage 3: tasks=3
        BroadcastExec 1
          DistributedLeafExec 3
        ",
    );
}

#[test]
fn one_task_broadcasts_to_many() {
    let plan = hash_join(JoinType::Inner, collect(weather(1)), weather(3));
    assert_shown(
        &planned(&context(3, true), &plan),
        "
        DistributedExec
          CoalescePartitionsExec
            [Stage 2] NetworkCoalesceExec 9
        -- Stage 2: tasks=3
        HashJoinExec CollectLeft Inner
          CoalescePartitionsExec
            [Stage 1] NetworkBroadcastExec 1
          DistributedLeafExec 3
        -- Stage 1: tasks=1
        BroadcastExec 3
          DistributedLeafExec 1
        ",
    );
}

#[test]
fn joins_that_emit_their_build_side_are_partitioned() {
    let plan = hash_join(JoinType::Left, collect(weather(3)), weather(3));
    assert_shown(
        &planned(&context(3, true), &plan),
        "
        DistributedExec
          CoalescePartitionsExec
            [Stage 3] NetworkCoalesceExec 12
        -- Stage 3: tasks=3
        HashJoinExec Partitioned Left
          [Stage 1] NetworkShuffleExec 4
          [Stage 2] NetworkShuffleExec 4
        -- Stage 1: tasks=3
        RepartitionExec 12
          DistributedLeafExec 3
        -- Stage 2: tasks=3
        RepartitionExec 12
          DistributedLeafExec 3
        ",
    );
}

#[test]
fn nested_loop_joins_that_emit_their_build_side_are_swapped() {
    let left = JoinType::Left;
    let plan = Plan::node(
        Operator::NestedLoopJoin { join_type: left, has_projection: false },
        vec![collect(weather(3)), weather(3)],
    );
    assert_shown(
        &planned(&context(3, true), &plan),
        "
        DistributedExec
          CoalescePartitionsExec
            [Stage 2] NetworkCoalesceExec 9
        -- Stage 2: tasks=3
        ProjectionExec
          NestedLoopJoinExec Right
            CoalescePartitionsExec
              [Stage 1] NetworkBroadcastExec 3
            DistributedLeafExec 3
        -- Stage 1: tasks=3
        BroadcastExec 3
          DistributedLeafExec 3
        ",
    );
}

#[test]
fn cross_joins_stay_in_one_task_without_broadcasts() {
    let plan = aggregate(
        AggregateMode::Single,
        Plan::node(Operator::CrossJoin, vec![collect(weather(3)), weather(3)]),
    );
    let result = planned(&context(3, false), &plan);
    assert_eq!(format!("{plan:?}"), format!("{result:?}"));
}

#[test]
fn distributed_plans_are_not_planned_again() {
    let ctx = context(3, true);
    let once = planned(&ctx, &broadcast_join());
    match ctx.create_physical_plan(&once, &vec![]) {
        Outcome::Done { plan, next } => {
            assert_eq!(format!("{plan:?}"), format!("{once:?}"));
            assert_eq!(next.reply, 0);
        }
        other => panic!("unexpected outcome {other:?}"),
    }
}

#[test]
fn task_counts_may_be_left_to_execution() {
    let mut ctx = context(3, true);
    ctx.config.dynamic_task_count = true;
    assert_shown(
        &planned(&ctx, &broadcast_join()),
        "
        DistributedExec
          CoalescePartitionsExec
            HashJoinExec CollectLeft Inner
              CoalescePartitionsExec
                BroadcastExec 1
                  DataSourceExec
              DataSourceExec
        ",
    );
}

#[test]
fn boundaries_of_the_user_are_numbered_and_kept() {
    let boundary = |child: Arc<Plan>| {
        Plan::node(
            Operator::NetworkCoalesce {
                stage: Stage::Local { query_id: Uuid::nil(), num: 7, tasks: 3 },
                output: Partitioning::UnknownPartitioning(9),
                consumer_tasks: 1,
                properties: None,
            },
            vec![child],
        )
    };
    let plan = collect(boundary(other("FilterExec", weather(3))));
    let result = planned(&context(3, false), &plan);
    assert_shown(
        &result,
        "
        DistributedExec
          CoalescePartitionsExec
            [Stage 1] NetworkCoalesceExec 9
        -- Stage 1: tasks=3
        FilterExec
          DistributedLeafExec 3
        ",
    );
    // A stage whose tasks would all do the same is refused.
    let leaf = Plan::node(
        Operator::Other { name: "Values".to_string(), partitions: PartitionRule::Fixed(1) },
        vec![],
    );
    let plan = collect(boundary(other("FilterExec", leaf)));
    let ctx = context(3, false);
    let mut replies = vec![];
    let error = loop {
        match ctx.create_physical_plan(&plan, &replies) {
            Outcome::Ask(request) => replies.push(ENGINE.answer(request)),
            Outcome::Fail(error) => break error,
            Outcome::Done { .. } => panic!("expected planning to fail"),
        }
    };
    assert_eq!(error.kind, ErrorKind::FullyReplicatedStage { tasks: 3 });
}

#[test]
fn leaves_below_what_replaces_a_leaf_are_scaled_too() {
    let boundary = Plan::node(
        Operator::NetworkCoalesce {
            stage: Stage::Local { query_id: Uuid::nil(), num: 1, tasks: 3 },
            output: Partitioning::UnknownPartitioning(9),
            consumer_tasks: 1,
            properties: None,
        },
        vec![weather(3)],
    );
    let plan = collect(boundary);
    let ctx = context(3, false);
    let mut replies = vec![];
    let mut asked = vec![];
    let result = loop {
        match ctx.create_physical_plan(&plan, &replies) {
            Outcome::Done { plan, .. } => break plan,
            Outcome::Ask(Request::ScaleLeaf { leaf, task_count }) => {
                asked.push((leaf.op.name(), task_count));
                let request = Request::ScaleLeaf { leaf, task_count };
                // The first leaf is put behind a filter, which reads from a leaf of its own.
                replies.push(if asked.len() == 1 {
                    Reply::ScaledLeaf(Some(other("FilterExec", weather(3))))
                } else {
                    ENGINE.answer(request)
                });
            }
            Outcome::Ask(request) => replies.push(ENGINE.answer(request)),
            Outcome::Fail(error) => panic!("{}", error.message()),
        }
    };
    let scan = "DataSourceExec".to_string();
    assert_eq!(asked, vec![(scan.clone(), 3), (scan, 3)]);
    assert_shown(
        &result,
        "
        DistributedExec
          CoalescePartitionsExec
            [Stage 1] NetworkCoalesceExec 9
        -- Stage 1: tasks=3
        FilterExec
          DistributedLeafExec 3
        ",
    );
}

#[test]
fn partial_aggregates_are_merged_on_request() {
    let mut ctx = context(3, false);
    ctx.config.partial_reduce = true;
    assert_shown(
        &planned(&ctx, &two_step_aggregation(weather(3))),
        "
        DistributedExec
          CoalescePartitionsExec
            [Stage 2] NetworkCoalesceExec 8
        -- Stage 2: tasks=2
        AggregateExec FinalPartitioned
          [Stage 1] NetworkShuffleExec 4
        -- Stage 1: tasks=3
        AggregateExec PartialReduce
          RepartitionExec 8
            AggregateExec Partial
              DistributedLeafExec 3
        ",
    );
}

#[test]
fn metrics_are_collected_by_configuration() {
    for collect_metrics in [true, false] {
        let mut ctx = context(3, true);
        ctx.config.collect_metrics = collect_metrics;
        match &*planned(&ctx, &broadcast_join()).op {
            Operator::DistributedExec { collect_metrics: collects } => {
                assert_eq!(*collects, collect_metrics)
            }
            other => panic!("unexpected operator {other:?}"),
        }
    }
}

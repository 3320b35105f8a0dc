use datafusion_distributed::error::ErrorKind;
use datafusion_distributed::insert_broadcast::insert_broadcast_execs;
use datafusion_distributed::normalize_collect_joins::normalize_collect_joins;
use datafusion_distributed::plan::{
    DynamicFilter, Expr, Facts, JoinType, Operator, PartitionMode, Partitioning, Plan,
    ProducedExpression,
};
use std::sync::Arc;

fn column(name: &str) -> Expr {
    Expr::Column {
        name: name.to_string(),
        index: 1,
    }
}

fn weather(partitions: usize) -> Arc<Plan> {
    Plan::node(
        Operator::Scan {
            name: "DataSourceExec".to_string(),
            partitioning: Partitioning::UnknownPartitioning(partitions),
        },
        vec![],
    )
}

fn collect(fetch: Option<usize>, child: Arc<Plan>) -> Arc<Plan> {
    Plan::node(Operator::CoalescePartitions { fetch }, vec![child])
}

fn join_op(join_type: JoinType, null_aware: bool) -> Operator {
    Operator::HashJoin {
        mode: PartitionMode::CollectLeft,
        join_type,
        null_aware,
        left_keys: Arc::new(vec![column("RainToday")]),
        right_keys: Arc::new(vec![column("RainToday")]),
    }
}

fn hash_join(join_type: JoinType) -> Arc<Plan> {
    Plan::node(join_op(join_type, false), vec![collect(None, weather(3)), weather(3)])
}

fn nested_loop_join(join_type: JoinType) -> Arc<Plan> {
    Plan::node(
        Operator::NestedLoopJoin { join_type, has_projection: false },
        vec![collect(None, weather(3)), weather(3)],
    )
}

fn show(plan: &Plan) -> String {
    let mut text = String::new();
    show_below(plan, 0, &mut text);
    text
}

fn show_below(plan: &Plan, indent: usize, text: &mut String) {
    let detail = match &*plan.op {
        Operator::HashJoin { mode, join_type, .. } => {
            format!(": mode={mode:?}, join_type={join_type:?}")
        }
        Operator::NestedLoopJoin { join_type, .. } => format!(": join_type={join_type:?}"),
        Operator::Repartition { partitioning: Partitioning::Hash(keys, n) } => match &keys[0] {
            Expr::Column { name, index } => {
                format!(": partitioning=Hash([{name}@{index}], {n})")
            }
            other => panic!("unexpected key {other:?}"),
        },
        Operator::Broadcast { consumer_tasks } => format!(
            ": input_partitions={}, consumer_tasks={consumer_tasks}, output_partitions={}",
            plan.children[0].partition_count().unwrap(),
            plan.partition_count().unwrap()
        ),
        Operator::CoalescePartitions { fetch: Some(fetch) } => format!(": fetch={fetch}"),
        _ => String::new(),
    };
    *text += &format!("{}{}{detail}\n", "  ".repeat(indent), plan.op.name());
    for child in plan.children.iter() {
        show_below(child, indent + 1, text);
    }
}

fn assert_shown(plan: &Plan, expected: &str) {
    let lines: Vec<&str> = expected.lines().filter(|line| !line.trim().is_empty()).collect();
    let margin = lines.iter().map(|line| line.len() - line.trim_start().len()).min().unwrap();
    let expected: String = lines.iter().map(|line| format!("{}\n", &line[margin..])).collect();
    assert_eq!(show(plan), expected);
}

#[test]
fn broadcasts_go_below_the_gathering_node() {
    assert_shown(
        &insert_broadcast_execs(&hash_join(JoinType::Inner), true),
        "
        HashJoinExec: mode=CollectLeft, join_type=Inner
          CoalescePartitionsExec
            BroadcastExec: input_partitions=3, consumer_tasks=1, output_partitions=3
              DataSourceExec
          DataSourceExec
        ",
    );
}

#[test]
fn single_partitions_get_a_gathering_node() {
    let plan = Plan::node(join_op(JoinType::Inner, false), vec![weather(1), weather(1)]);
    assert_shown(
        &insert_broadcast_execs(&plan, true),
        "
        HashJoinExec: mode=CollectLeft, join_type=Inner
          CoalescePartitionsExec
            BroadcastExec: input_partitions=1, consumer_tasks=1, output_partitions=1
              DataSourceExec
          DataSourceExec
        ",
    );
}

#[test]
fn gathering_nodes_keep_their_fetch() {
    let build = collect(Some(5), weather(3));
    let plan = Plan::node(join_op(JoinType::Inner, false), vec![build, weather(3)]);
    assert_shown(
        &insert_broadcast_execs(&plan, true),
        "
        HashJoinExec: mode=CollectLeft, join_type=Inner
          CoalescePartitionsExec: fetch=5
            BroadcastExec: input_partitions=3, consumer_tasks=1, output_partitions=3
              DataSourceExec
          DataSourceExec
        ",
    );
}

#[test]
fn build_sides_that_are_emitted_are_not_broadcast() {
    for join_type in [
        JoinType::Left,
        JoinType::Full,
        JoinType::LeftSemi,
        JoinType::LeftAnti,
        JoinType::LeftMark,
    ] {
        let shown = show(&insert_broadcast_execs(&hash_join(join_type), true));
        assert!(!shown.contains("Broadcast"), "{shown}");
        let shown = show(&insert_broadcast_execs(&nested_loop_join(join_type), true));
        assert!(!shown.contains("Broadcast"), "{shown}");
    }
    for join_type in [
        JoinType::Inner,
        JoinType::Right,
        JoinType::RightSemi,
        JoinType::RightAnti,
        JoinType::RightMark,
    ] {
        let shown = show(&insert_broadcast_execs(&hash_join(join_type), true));
        assert!(shown.contains("BroadcastExec"), "{shown}");
        let shown = show(&insert_broadcast_execs(&nested_loop_join(join_type), true));
        assert!(shown.contains("BroadcastExec"), "{shown}");
    }
}

#[test]
fn broadcasts_are_inserted_on_request_only() {
    let plan = hash_join(JoinType::Inner);
    assert_eq!(show(&insert_broadcast_execs(&plan, false)), show(&plan));
}

#[test]
fn cross_joins_are_broadcast() {
    let plan = Plan::node(Operator::CrossJoin, vec![collect(None, weather(3)), weather(3)]);
    assert_shown(
        &insert_broadcast_execs(&plan, true),
        "
        CrossJoinExec
          CoalescePartitionsExec
            BroadcastExec: input_partitions=3, consumer_tasks=1, output_partitions=3
              DataSourceExec
          DataSourceExec
        ",
    );
}

#[test]
fn partitioned_joins_are_not_broadcast() {
    let op = Operator::HashJoin {
        mode: PartitionMode::Partitioned,
        join_type: JoinType::Inner,
        null_aware: false,
        left_keys: Arc::new(vec![column("RainToday")]),
        right_keys: Arc::new(vec![column("RainToday")]),
    };
    let plan = Plan::node(op, vec![weather(3), weather(3)]);
    assert_eq!(show(&insert_broadcast_execs(&plan, true)), show(&plan));
}

fn normalized(plan: &Arc<Plan>, broadcast_joins: bool) -> String {
    show(&normalize_collect_joins(plan, broadcast_joins, 3).unwrap())
}

#[test]
fn left_hash_joins_become_partitioned() {
    let plan = normalize_collect_joins(&hash_join(JoinType::Left), true, 3).unwrap();
    assert_shown(
        &plan,
        "
        HashJoinExec: mode=Partitioned, join_type=Left
          RepartitionExec: partitioning=Hash([RainToday@1], 3)
            DataSourceExec
          RepartitionExec: partitioning=Hash([RainToday@1], 3)
            DataSourceExec
        ",
    );
}

#[test]
fn left_nested_loop_joins_swap_their_sides() {
    let plan = normalize_collect_joins(&nested_loop_join(JoinType::Left), true, 3).unwrap();
    assert_shown(
        &plan,
        "
        ProjectionExec
          NestedLoopJoinExec: join_type=Right
            DataSourceExec
            DataSourceExec
        ",
    );
    // A join that picks its columns itself needs no projection.
    let picking = Plan::node(
        Operator::NestedLoopJoin { join_type: JoinType::Left, has_projection: true },
        vec![collect(None, weather(3)), weather(3)],
    );
    let plan = normalize_collect_joins(&picking, true, 3).unwrap();
    assert_shown(
        &plan,
        "
        NestedLoopJoinExec: join_type=Right
          DataSourceExec
          DataSourceExec
        ",
    );
    assert!(matches!(&*plan.op, Operator::NestedLoopJoin { has_projection: true, .. }));
    // A join that outputs one side only needs no projection.
    let plan = normalize_collect_joins(&nested_loop_join(JoinType::LeftSemi), true, 3).unwrap();
    assert_shown(
        &plan,
        "
        NestedLoopJoinExec: join_type=RightSemi
          DataSourceExec
          DataSourceExec
        ",
    );
}

#[test]
fn test_nested_loop_full_join_untouched() {
    let plan = normalized(&nested_loop_join(JoinType::Full), true);
    assert!(plan.contains("NestedLoopJoinExec: join_type=Full"));
    assert!(!plan.contains("RepartitionExec: partitioning=Hash"));
}

#[test]
fn test_full_hash_join_converted_to_partitioned() {
    let raw_plan = show(&hash_join(JoinType::Full));
    assert!(raw_plan.contains("HashJoinExec: mode=CollectLeft, join_type=Full"));
    let plan = normalized(&hash_join(JoinType::Full), true);
    assert!(plan.contains("HashJoinExec: mode=Partitioned, join_type=Full"));
    assert!(plan.contains("RepartitionExec: partitioning=Hash"));
}

#[test]
fn test_inner_collect_left_join_untouched() {
    let plan = normalized(&hash_join(JoinType::Inner), true);
    assert!(plan.contains("HashJoinExec: mode=CollectLeft, join_type=Inner"));
}

#[test]
fn test_nested_loop_left_join_untouched_without_broadcasts() {
    let plan = normalized(&nested_loop_join(JoinType::Left), false);
    assert!(plan.contains("NestedLoopJoinExec: join_type=Left"));
}

#[test]
fn collect_left_to_partitioned_preserves_dynamic_filter() {
    let filter = Arc::new(Expr::Encoded(Arc::new(vec![1, 2, 3])));
    let facts = Facts {
        estimate: None,
        feed: None,
        properties: None,
        requirements: vec![],
        unsatisfied_co_partitioned: None,
        produced: vec![ProducedExpression {
            id: Some(4),
            is_dynamic_filter: true,
            expression: Arc::clone(&filter),
        }],
        filters: vec![DynamicFilter { id: Some(4), expression: Arc::clone(&filter) }],
    };
    let original = Arc::new(Plan {
        op: Arc::new(join_op(JoinType::Left, false)),
        facts: Some(Arc::new(facts)),
        task_count: None,
        children: vec![collect(None, weather(3)), weather(3)],
        variants: vec![],
    });
    let converted = normalize_collect_joins(&original, false, 3).unwrap();
    assert!(matches!(
        &*converted.op,
        Operator::HashJoin { mode: PartitionMode::Partitioned, .. }
    ));
    // The converted join holds the very same filter.
    let kept = &converted.facts.as_ref().unwrap().produced[0].expression;
    assert!(Arc::ptr_eq(kept, &filter));
}

#[test]
fn null_aware_joins_stay() {
    let op = join_op(JoinType::LeftAnti, true);
    let plan = Plan::node(op, vec![collect(None, weather(3)), weather(3)]);
    assert_eq!(normalized(&plan, true), show(&plan));
}

#[test]
fn joins_of_single_partitions_stay() {
    for op in [
        join_op(JoinType::Left, false),
        Operator::NestedLoopJoin { join_type: JoinType::Left, has_projection: false },
    ] {
        let plan = Plan::node(op, vec![weather(1), weather(1)]);
        assert_eq!(normalized(&plan, true), show(&plan));
    }
}

#[test]
fn build_sides_that_stop_early_keep_doing_so() {
    let build = || collect(Some(5), weather(3));
    let plan = Plan::node(join_op(JoinType::Left, false), vec![build(), weather(3)]);
    assert_shown(
        &normalize_collect_joins(&plan, true, 3).unwrap(),
        "
        HashJoinExec: mode=Partitioned, join_type=Left
          RepartitionExec: partitioning=Hash([RainToday@1], 3)
            CoalescePartitionsExec: fetch=5
              DataSourceExec
          RepartitionExec: partitioning=Hash([RainToday@1], 3)
            DataSourceExec
        ",
    );
    let op = Operator::NestedLoopJoin { join_type: JoinType::Left, has_projection: false };
    let plan = Plan::node(op, vec![build(), weather(3)]);
    assert_shown(
        &normalize_collect_joins(&plan, true, 3).unwrap(),
        "
        ProjectionExec
          NestedLoopJoinExec: join_type=Right
            DataSourceExec
            CoalescePartitionsExec: fetch=5
              DataSourceExec
        ",
    );
}

#[test]
fn joins_below_rewritten_joins_are_rewritten_too() {
    let op = join_op(JoinType::Left, false);
    let plan = Plan::node(op, vec![collect(None, hash_join(JoinType::Full)), weather(3)]);
    assert_shown(
        &normalize_collect_joins(&plan, false, 3).unwrap(),
        "
        HashJoinExec: mode=Partitioned, join_type=Left
          RepartitionExec: partitioning=Hash([RainToday@1], 3)
            HashJoinExec: mode=Partitioned, join_type=Full
              RepartitionExec: partitioning=Hash([RainToday@1], 3)
                DataSourceExec
              RepartitionExec: partitioning=Hash([RainToday@1], 3)
                DataSourceExec
          RepartitionExec: partitioning=Hash([RainToday@1], 3)
            DataSourceExec
        ",
    );
}

#[test]
fn single_probe_partitions_are_not_repartitioned() {
    let plan = Plan::node(join_op(JoinType::Left, false), vec![weather(3), weather(1)]);
    let error = normalize_collect_joins(&plan, true, 3).unwrap_err();
    assert_eq!(error.kind, ErrorKind::SinglePartitionProbe);
}

#[test]
fn swapping_join_types_twice_gives_them_back() {
    for join_type in [JoinType::Inner, JoinType::Left, JoinType::RightMark, JoinType::LeftAnti] {
        assert_eq!(join_type.swap().swap(), join_type);
    }
    assert_eq!(JoinType::LeftAnti.swap(), JoinType::RightAnti);
}

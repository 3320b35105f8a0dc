use datafusion_distributed::error::ErrorKind;
use datafusion_distributed::ids::Uuid;
use datafusion_distributed::plan::{
    DistributedTaskContext, Expr, Facts, InputRequirement, JoinType, Operator, PartitionMode,
    PartitionRule, Partitioning, Plan, RangeBounds, SortExpr, Stage,
};
use datafusion_distributed::task_count::TaskCountAnnotation;
use datafusion_distributed::validate_stages::{validate_distributed_stages, validate_stage_plan};
use std::sync::Arc;

fn facts() -> Facts {
    Facts {
        estimate: None,
        feed: None,
        properties: None,
        requirements: vec![],
        unsatisfied_co_partitioned: None,
        produced: vec![],
        filters: vec![],
    }
}

fn with_facts(op: Operator, facts: Facts, children: Vec<Arc<Plan>>) -> Arc<Plan> {
    Arc::new(Plan {
        op: Arc::new(op),
        facts: Some(Arc::new(facts)),
        task_count: None,
        children,
        variants: vec![],
    })
}

fn empty_exec() -> Operator {
    Operator::Other {
        name: "EmptyExec".to_string(),
        partitions: PartitionRule::Fixed(1),
    }
}

/// A leaf that runs in four tasks, each with a slice of the rows.
fn leaf() -> Arc<Plan> {
    let estimate = Some(TaskCountAnnotation::Desired(4));
    with_facts(empty_exec(), Facts { estimate, ..facts() }, vec![])
}

/// A leaf that every task reads in full.
fn replicated_leaf() -> Arc<Plan> {
    with_facts(empty_exec(), facts(), vec![])
}

fn column(name: &str) -> Expr {
    Expr::Column {
        name: name.to_string(),
        index: if name == "b" { 1 } else { 0 },
    }
}

/// What the engine knows of the rows of a plan: the key that spreads them, the number of
/// partitions, and the values that cut them into ranges, if they are.
#[derive(Clone, PartialEq)]
struct Claim {
    key: String,
    partitions: usize,
    splits: Option<Vec<i64>>,
}

type Claimed = (Arc<Plan>, Claim);

fn shuffle(partitioning: Partitioning) -> Arc<Plan> {
    let output = partitioning.share();
    Plan::node(
        Operator::NetworkShuffle {
            stage: Stage::Local {
                query_id: Uuid::nil(),
                num: 1,
                tasks: 4,
            },
            partitioning,
            output,
            properties: None,
        },
        vec![Plan::node(empty_exec(), vec![])],
    )
}

fn fake_shuffle(key: &str, partitions: usize) -> Claimed {
    let claim = Claim {
        key: key.to_string(),
        partitions,
        splits: None,
    };
    (
        shuffle(Partitioning::Hash(Arc::new(vec![column(key)]), partitions)),
        claim,
    )
}

fn fake_range_shuffle(key: &str, split_values: &[i64]) -> Claimed {
    let ordering = vec![SortExpr {
        expr: column(key),
        descending: false,
        nulls_first: true,
    }];
    let partitions = split_values.len() + 1;
    let claim = Claim {
        key: key.to_string(),
        partitions,
        splits: Some(split_values.to_vec()),
    };
    let encoded = |value: &i64| vec![value.to_le_bytes().to_vec()];
    let bounds = RangeBounds { ordering, split_points: split_values.iter().map(encoded).collect() };
    (shuffle(Partitioning::Range(Arc::new(bounds), partitions)), claim)
}

/// A join of two plans by a key. Inner joins are content with rows that are cut into ranges.
fn partitioned_join(left: Claimed, right: Claimed, key: &str, join_type: JoinType) -> Arc<Plan> {
    let satisfied = |claim: &Claim| {
        claim.key == key && (claim.splits.is_none() || join_type == JoinType::Inner)
    };
    let requirement = |claim: &Claim| InputRequirement::KeyPartitioned {
        satisfied: satisfied(claim),
        claimed: format!("Hash([{}@0], {})", claim.key, claim.partitions),
    };
    let layouts_match =
        left.1.partitions == right.1.partitions && left.1.splits == right.1.splits;
    let facts = Facts {
        requirements: vec![
            requirement(&left.1),
            requirement(&right.1),
        ],
        unsatisfied_co_partitioned: if layouts_match { None } else { Some(1) },
        ..facts()
    };
    let op = Operator::HashJoin {
        mode: PartitionMode::Partitioned,
        join_type,
        null_aware: false,
        left_keys: Arc::new(vec![column(key)]),
        right_keys: Arc::new(vec![column(key)]),
    };
    with_facts(op, facts, vec![left.0, right.0])
}

fn validate(plan: &Arc<Plan>) -> Result<(), String> {
    validate_stage_plan(plan, 4).map_err(|error| error.message())
}

#[test]
fn rejects_collect_left_join_with_sliced_build_side() {
    let build = Plan::node(Operator::CoalescePartitions { fetch: None }, vec![leaf()]);
    let op = Operator::HashJoin {
        mode: PartitionMode::CollectLeft,
        join_type: JoinType::Inner,
        null_aware: false,
        left_keys: Arc::new(vec![column("a")]),
        right_keys: Arc::new(vec![column("a")]),
    };
    let requirements = vec![InputRequirement::SinglePartition, InputRequirement::Unspecified];
    let join = with_facts(op, Facts { requirements, ..facts() }, vec![build, leaf()]);
    let err = validate(&join).expect_err("expected validation to fail");
    assert!(err.contains("requires a single partition"), "unexpected error: {err}");
}

#[test]
fn accepts_partitioned_join_over_matching_global_shuffles() {
    let join = partitioned_join(
        fake_shuffle("a", 4),
        fake_shuffle("a", 4),
        "a",
        JoinType::Inner,
    );
    validate(&join).expect("expected validation to pass");
}

#[test]
fn rejects_partitioned_join_on_wrong_key() {
    let join = partitioned_join(
        fake_shuffle("b", 4),
        fake_shuffle("a", 4),
        "a",
        JoinType::Inner,
    );
    let err = validate(&join).expect_err("expected validation to fail");
    assert!(err.contains("does not satisfy"), "unexpected error: {err}");
    assert!(
        err.contains("that input's claimed partitioning (Hash([b@0], 4)) does not satisfy"),
        "unexpected error: {err}"
    );
}

#[test]
fn rejects_partitioned_join_over_stage_local_repartition() {
    let hash = Partitioning::Hash(Arc::new(vec![column("a")]), 4);
    let claim = Claim {
        key: "a".to_string(),
        partitions: 4,
        splits: None,
    };
    let repartition = Plan::node(Operator::Repartition { partitioning: hash }, vec![leaf()]);
    let join = partitioned_join(
        (repartition, claim),
        fake_shuffle("a", 4),
        "a",
        JoinType::Inner,
    );
    let err = validate(&join).expect_err("expected validation to fail");
    assert!(err.contains("established task-locally"), "unexpected error: {err}");
}

#[test]
fn rejects_partitioned_join_with_mismatched_partition_counts() {
    let join = partitioned_join(
        fake_shuffle("a", 4),
        fake_shuffle("a", 8),
        "a",
        JoinType::Inner,
    );
    let err = validate(&join).expect_err("expected validation to fail");
    assert!(err.contains("co-partitioned"), "unexpected error: {err}");
}

#[test]
fn accepts_renamed_key_through_projection() {
    let renamed = || {
        let (shuffle, claim) = fake_shuffle("a", 4);
        let projection = Operator::Other {
            name: "ProjectionExec".to_string(),
            partitions: PartitionRule::Input(0),
        };
        let key = "x".to_string();
        (Plan::node(projection, vec![shuffle]), Claim { key, ..claim })
    };
    let join = partitioned_join(renamed(), renamed(), "x", JoinType::Inner);
    validate(&join).expect("expected validation to pass");
}

#[test]
fn accepts_range_partitioned_inner_join() {
    let join = partitioned_join(
        fake_range_shuffle("a", &[25, 50, 75]),
        fake_range_shuffle("a", &[25, 50, 75]),
        "a",
        JoinType::Inner,
    );
    validate(&join).expect("expected validation to pass");
}

#[test]
fn rejects_range_partitioning_for_semi_join() {
    let join = partitioned_join(
        fake_range_shuffle("a", &[25, 50, 75]),
        fake_range_shuffle("a", &[25, 50, 75]),
        "a",
        JoinType::LeftSemi,
    );
    let err = validate(&join).expect_err("expected validation to fail");
    assert!(err.contains("does not satisfy"), "unexpected error: {err}");
}

#[test]
fn rejects_range_co_partitioning_with_mismatched_split_points() {
    let join = partitioned_join(
        fake_range_shuffle("a", &[25, 50, 75]),
        fake_range_shuffle("a", &[20, 40, 60]),
        "a",
        JoinType::Inner,
    );
    let err = validate(&join).expect_err("expected validation to fail");
    assert!(err.contains("co-partitioned"), "unexpected error: {err}");
}

fn broadcast() -> Arc<Plan> {
    Plan::node(
        Operator::NetworkBroadcast {
            stage: Stage::Local {
                query_id: Uuid::nil(),
                num: 1,
                tasks: 1,
            },
            output: Partitioning::UnknownPartitioning(4),
            properties: None,
        },
        vec![Plan::node(empty_exec(), vec![])],
    )
}

fn join_over_broadcast(join_type: JoinType) -> Arc<Plan> {
    let op = Operator::NestedLoopJoin { join_type, has_projection: false };
    let requirements = vec![InputRequirement::SinglePartition, InputRequirement::Unspecified];
    with_facts(op, Facts { requirements, ..facts() }, vec![broadcast(), leaf()])
}

#[test]
fn rows_of_a_broadcast_may_be_looked_up_but_not_emitted() {
    for join_type in [
        JoinType::Inner,
        JoinType::Right,
        JoinType::RightSemi,
        JoinType::RightAnti,
        JoinType::RightMark,
    ] {
        validate(&join_over_broadcast(join_type)).expect("expected validation to pass");
    }
    for join_type in [
        JoinType::Left,
        JoinType::Full,
        JoinType::LeftSemi,
        JoinType::LeftAnti,
        JoinType::LeftMark,
    ] {
        let err = validate_stage_plan(&join_over_broadcast(join_type), 4).unwrap_err();
        assert_eq!(err.kind, ErrorKind::DuplicatedRows { input: 0, tasks: 4 });
        assert_eq!(err.node, "NestedLoopJoinExec");
    }
}

#[test]
fn one_task_may_execute_anything() {
    validate_stage_plan(&join_over_broadcast(JoinType::Full), 1).unwrap();
    validate_stage_plan(&replicated_leaf(), 1).unwrap();
    validate_stage_plan(&replicated_leaf(), 0).unwrap();
}

#[test]
fn rejects_stages_whose_tasks_all_do_the_same() {
    let err = validate_stage_plan(&replicated_leaf(), 3).unwrap_err();
    assert_eq!(err.kind, ErrorKind::FullyReplicatedStage { tasks: 3 });
    assert_eq!(
        err.message(),
        "stage runs 3 tasks but its plan is fully replicated: every task would produce the \
         identical output and the stage would emit 3 copies of it"
    );
}

#[test]
fn rejects_gathering_in_several_tasks() {
    let coalesce = Plan::node(
        Operator::NetworkCoalesce {
            stage: Stage::Local {
                query_id: Uuid::nil(),
                num: 2,
                tasks: 4,
            },
            output: Partitioning::UnknownPartitioning(4),
            consumer_tasks: 1,
            properties: None,
        },
        vec![leaf()],
    );
    let err = validate_stage_plan(&coalesce, 2).unwrap_err();
    assert_eq!(err.kind, ErrorKind::CoalesceInMultiTaskStage { tasks: 2 });
    assert_eq!(
        err.message(),
        "stage runs 2 tasks but contains NetworkCoalesceExec, which requires a single-task \
         consumer stage"
    );
    // Over the boundary there is one task only, and below it the leaf varies by task.
    validate_distributed_stages(&coalesce).unwrap();
}

fn isolated_union(children: Vec<Arc<Plan>>, tasks: Vec<Vec<usize>>) -> Arc<Plan> {
    let count = |child: usize| tasks.iter().filter(|entry| entry.contains(&child)).count();
    let task_idx_map = tasks
        .iter()
        .map(|entry| {
            let ctx = |child: &usize| {
                (*child, DistributedTaskContext { task_index: 0, task_count: count(*child) })
            };
            entry.iter().map(ctx).collect()
        })
        .collect();
    Plan::node(
        Operator::ChildrenIsolatorUnion {
            partitions: 1,
            weights: vec![],
            task_idx_map,
        },
        children,
    )
}

#[test]
fn children_of_an_isolated_union_are_taken_with_their_own_tasks() {
    // The replicated child runs in one task only.
    let union = isolated_union(vec![replicated_leaf(), leaf()], vec![vec![0], vec![1], vec![1]]);
    validate_stage_plan(&union, 3).unwrap();
    let union = isolated_union(vec![leaf(), replicated_leaf()], vec![vec![0], vec![1], vec![1]]);
    let err = validate_stage_plan(&union, 3).unwrap_err();
    assert_eq!(err.kind, ErrorKind::ReplicatedUnionInput { input: 1, tasks: 2 });
}

#[test]
fn faulty_stages_are_found_below_other_stages() {
    let inner = Plan::node(
        Operator::NetworkShuffle {
            stage: Stage::Local {
                query_id: Uuid::nil(),
                num: 1,
                tasks: 2,
            },
            partitioning: Partitioning::Hash(Arc::new(vec![column("a")]), 4),
            output: Partitioning::Hash(Arc::new(vec![column("a")]), 4),
            properties: None,
        },
        vec![replicated_leaf()],
    );
    let outer = Plan::node(
        Operator::NetworkCoalesce {
            stage: Stage::Local {
                query_id: Uuid::nil(),
                num: 2,
                tasks: 3,
            },
            output: Partitioning::UnknownPartitioning(12),
            consumer_tasks: 1,
            properties: None,
        },
        vec![inner],
    );
    let err = validate_distributed_stages(&outer).unwrap_err();
    assert_eq!(err.kind, ErrorKind::FullyReplicatedStage { tasks: 2 });
}

use datafusion_distributed::boundary_factory::{BoundaryFactory, DefaultBoundaryFactory};
use datafusion_distributed::codec::{
    BroadcastExecProto, ChildIdxWithTaskContextProto, ChildWeightProto,
    ChildrenIsolatorUnionExecProto, DistributedCodec, DistributedExecNode, DistributedExecProto,
    ExecutionTaskProto, NetworkBroadcastExecProto, NetworkCoalesceExecProto,
    NetworkShuffleExecProto, SamplerExecProto, StageProto, TaskIdxMapEntryProto,
};
use datafusion_distributed::error::ErrorKind;
use datafusion_distributed::ids::Uuid;
use datafusion_distributed::plan::{
    ChildWeight, DistributedTaskContext, Expr, Field, Operator, PartitionRule, Partitioning, Plan,
    Properties, RangeBounds, Schema, SortExpr, Stage,
};
use std::sync::Arc;

fn empty_exec() -> Arc<Plan> {
    Plan::node(
        Operator::Other {
            name: "EmptyExec".to_string(),
            partitions: PartitionRule::Fixed(1),
        },
        vec![],
    )
}

fn dummy_stage() -> Stage {
    Stage::Remote {
        query_id: Uuid::nil(),
        num: 0,
        workers: vec![],
    }
}

fn dummy_stage_with_plan() -> Stage {
    Stage::Local {
        query_id: Uuid::nil(),
        num: 0,
        tasks: 1,
    }
}

fn schema_i32(name: &str) -> Arc<Schema> {
    Arc::new(Schema {
        fields: vec![int_field(name)],
        metadata: vec![],
    })
}

fn int_field(name: &str) -> Field {
    Field {
        name: name.to_string(),
        data_type: "Int32".to_string(),
        nullable: false,
        metadata: vec![],
    }
}

fn properties(schema: Arc<Schema>) -> Option<Arc<Properties>> {
    Some(Arc::new(Properties {
        schema,
        equivalences: None,
        ordering: None,
    }))
}

fn column(name: &str, index: usize) -> Expr {
    Expr::Column {
        name: name.to_string(),
        index,
    }
}

fn shuffle(
    partitioning: Partitioning,
    properties: Option<Arc<Properties>>,
    stage: Stage,
    children: Vec<Arc<Plan>>,
) -> Arc<Plan> {
    let output = partitioning.share();
    Plan::node(
        Operator::NetworkShuffle {
            stage,
            partitioning,
            output,
            properties,
        },
        children,
    )
}

fn coalesce(
    output: Partitioning,
    properties: Option<Arc<Properties>>,
    stage: Stage,
    consumer_tasks: usize,
    children: Vec<Arc<Plan>>,
) -> Arc<Plan> {
    Plan::node(
        Operator::NetworkCoalesce {
            stage,
            output,
            consumer_tasks,
            properties,
        },
        children,
    )
}

fn repr(plan: &Arc<Plan>) -> String {
    format!("{plan:?}")
}

fn assert_roundtrip(plan: &Arc<Plan>) -> Arc<Plan> {
    let message = DistributedCodec.try_encode(plan).unwrap();
    let decoded = DistributedCodec.try_decode(&message, &plan.children).unwrap();
    assert_eq!(repr(plan), repr(&decoded));
    decoded
}

/// A boundary over a plan of this library, with the schema that the codec needs.
fn coalesce_over(child: Arc<Plan>, schema: Arc<Schema>) -> Arc<Plan> {
    let made = DefaultBoundaryFactory.coalesce(child, Uuid::nil(), 0, 1, 1).unwrap();
    match &*made.op {
        Operator::NetworkCoalesce { output, .. } => coalesce(
            output.share(),
            properties(schema),
            dummy_stage_with_plan(),
            1,
            made.children.clone(),
        ),
        _ => unreachable!(),
    }
}

#[test]
fn test_roundtrip_single_flight() {
    let part = Partitioning::Hash(Arc::new(vec![column("a", 0)]), 4);
    let plan = shuffle(part, properties(schema_i32("a")), dummy_stage(), vec![]);
    assert_roundtrip(&plan);
}

#[test]
fn test_roundtrip_union() {
    let schema = schema_i32("c");
    let left = shuffle(
        Partitioning::RoundRobinBatch(2),
        properties(Arc::clone(&schema)),
        dummy_stage(),
        vec![],
    );
    let right = shuffle(
        Partitioning::RoundRobinBatch(2),
        properties(Arc::clone(&schema)),
        dummy_stage(),
        vec![],
    );
    let union = Plan::node(Operator::Union, vec![left, right]);
    let plan = coalesce_over(union, schema);
    assert_eq!(plan.partition_count().unwrap(), 4);
    assert_roundtrip(&plan);
}

#[test]
fn test_roundtrip_sort_flight() {
    let schema = schema_i32("d");
    let flight = shuffle(
        Partitioning::UnknownPartitioning(1),
        properties(Arc::clone(&schema)),
        dummy_stage(),
        vec![],
    );
    let sort = Plan::node(
        Operator::Sort {
            fetch: None,
            preserve_partitioning: false,
        },
        vec![flight],
    );
    let plan = coalesce_over(sort, schema);
    assert_roundtrip(&plan);
}

#[test]
fn test_roundtrip_single_flight_coalesce() {
    let plan = coalesce(
        Partitioning::RoundRobinBatch(3),
        properties(schema_i32("e")),
        dummy_stage(),
        4,
        vec![],
    );
    let decoded = assert_roundtrip(&plan);
    match &*decoded.op {
        Operator::NetworkCoalesce { consumer_tasks, .. } => assert_eq!(*consumer_tasks, 4),
        _ => panic!("not a NetworkCoalesceExec"),
    }
}

#[test]
fn test_roundtrip_single_flight_with_plan() {
    let part = Partitioning::Hash(Arc::new(vec![column("a", 0)]), 4);
    let plan = shuffle(
        part,
        properties(schema_i32("a")),
        dummy_stage_with_plan(),
        vec![empty_exec()],
    );
    assert_roundtrip(&plan);
}

#[test]
fn test_roundtrip_single_flight_coalesce_with_plan() {
    let plan = coalesce(
        Partitioning::RoundRobinBatch(3),
        properties(schema_i32("e")),
        dummy_stage_with_plan(),
        1,
        vec![empty_exec()],
    );
    assert_roundtrip(&plan);
}

#[test]
fn test_roundtrip_flight_coalesce() {
    let schema = schema_i32("f");
    let flight = coalesce(
        Partitioning::UnknownPartitioning(1),
        properties(Arc::clone(&schema)),
        dummy_stage(),
        1,
        vec![],
    );
    let plan = coalesce_over(flight, schema);
    assert_roundtrip(&plan);
}

#[test]
fn test_roundtrip_union_coalesce() {
    let schema = schema_i32("g");
    let left = coalesce(
        Partitioning::RoundRobinBatch(2),
        properties(Arc::clone(&schema)),
        dummy_stage(),
        1,
        vec![],
    );
    let right = coalesce(
        Partitioning::RoundRobinBatch(2),
        properties(Arc::clone(&schema)),
        dummy_stage(),
        1,
        vec![],
    );
    let union = Plan::node(Operator::Union, vec![left, right]);
    let plan = coalesce_over(union, schema);
    assert_roundtrip(&plan);
}

#[test]
fn test_roundtrip_children_isolator_union() {
    let schema = schema_i32("h");
    let left = shuffle(
        Partitioning::RoundRobinBatch(2),
        properties(Arc::clone(&schema)),
        dummy_stage(),
        vec![],
    );
    let right = shuffle(
        Partitioning::RoundRobinBatch(2),
        properties(schema),
        dummy_stage(),
        vec![],
    );
    let ctx = |task_index, task_count| DistributedTaskContext { task_index, task_count };
    let plan = Plan::node(
        Operator::ChildrenIsolatorUnion {
            partitions: 2,
            weights: vec![
                ChildWeight {
                    weight_bits: 3.0f64.to_bits(),
                    max: None,
                },
                ChildWeight {
                    weight_bits: 1.0f64.to_bits(),
                    max: Some(1),
                },
            ],
            task_idx_map: vec![
                vec![(0, ctx(0, 3))],
                vec![(0, ctx(1, 3))],
                vec![(0, ctx(2, 3))],
                vec![(1, ctx(0, 1))],
            ],
        },
        vec![left, right],
    );
    assert_roundtrip(&plan);
}

#[test]
fn test_roundtrip_network_boundaries_preserves_equivalence_group() {
    let schema = Arc::new(Schema {
        fields: vec![int_field("a"), int_field("b")],
        metadata: vec![],
    });
    let classes = || Some(Arc::new(vec![vec![column("a", 0), column("b", 1)]]));
    let ordering = || {
        Some(Arc::new(vec![SortExpr {
            expr: column("a", 0),
            descending: false,
            nulls_first: true,
        }]))
    };
    let known = |ordering| {
        Some(Arc::new(Properties {
            schema: Arc::clone(&schema),
            equivalences: classes(),
            ordering,
        }))
    };

    let plan = shuffle(
        Partitioning::UnknownPartitioning(1),
        known(ordering()),
        dummy_stage(),
        vec![],
    );
    assert_roundtrip(&plan);

    // The messages for the other boundaries carry no ordering.
    let plan = coalesce(
        Partitioning::UnknownPartitioning(1),
        known(ordering()),
        dummy_stage(),
        1,
        vec![],
    );
    let message = DistributedCodec.try_encode(&plan).unwrap();
    let decoded = DistributedCodec.try_decode(&message, &vec![]).unwrap();
    let expected = coalesce(
        Partitioning::UnknownPartitioning(1),
        known(None),
        dummy_stage(),
        1,
        vec![],
    );
    assert_eq!(repr(&decoded), repr(&expected));

    let broadcast = |ordering| {
        Plan::node(
            Operator::NetworkBroadcast {
                stage: dummy_stage(),
                output: Partitioning::UnknownPartitioning(1),
                properties: known(ordering),
            },
            vec![],
        )
    };
    let message = DistributedCodec.try_encode(&broadcast(ordering())).unwrap();
    let decoded = DistributedCodec.try_decode(&message, &vec![]).unwrap();
    assert_eq!(repr(&decoded), repr(&broadcast(None)));
}

#[test]
fn broadcasts_and_samplers_roundtrip() {
    assert_roundtrip(&Plan::node(
        Operator::Broadcast { consumer_tasks: 7 },
        vec![empty_exec()],
    ));
    assert_roundtrip(&Plan::node(Operator::Sampler, vec![empty_exec()]));
}

#[test]
fn range_shuffles_keep_their_split_points() {
    let bounds = RangeBounds {
        ordering: vec![SortExpr { expr: column("a", 0), descending: true, nulls_first: false }],
        split_points: vec![vec![vec![1, 2]], vec![vec![3]]],
    };
    let plan = Plan::node(
        Operator::NetworkShuffle {
            stage: dummy_stage(),
            partitioning: Partitioning::Range(Arc::new(bounds), 3),
            output: Partitioning::UnknownPartitioning(1),
            properties: properties(schema_i32("a")),
        },
        vec![],
    );
    assert!(repr(&plan).contains("[[[1, 2]], [[3]]]"));
    assert_roundtrip(&plan);
}

fn decode(
    node: Option<DistributedExecNode>,
    inputs: Vec<Arc<Plan>>,
) -> Result<Arc<Plan>, ErrorKind> {
    DistributedCodec
        .try_decode(&DistributedExecProto { node }, &inputs)
        .map_err(|error| error.kind)
}

fn stage_message(tasks: Vec<Option<&str>>) -> Option<StageProto> {
    Some(StageProto {
        query_id: vec![7; 16],
        num: 3,
        tasks: tasks
            .into_iter()
            .map(|url| ExecutionTaskProto {
                url_str: url.map(|url| url.to_string()),
            })
            .collect(),
    })
}

fn coalesce_message(input_stage: Option<StageProto>, consumer_tasks: u64) -> DistributedExecNode {
    DistributedExecNode::NetworkCoalesceTasks(NetworkCoalesceExecProto {
        schema: Some(schema_i32("a")),
        partitioning: Some(Partitioning::UnknownPartitioning(2)),
        input_stage,
        equivalence_classes: None,
        consumer_tasks,
    })
}

#[test]
fn remote_stages_hold_their_workers_in_normal_form() {
    let stage = stage_message(vec![Some("HTTP://Worker-1"), Some("http://worker-2:80/")]);
    let decoded = decode(Some(coalesce_message(stage, 1)), vec![]).unwrap();
    match decoded.op.as_network_boundary() {
        Some(Stage::Remote { query_id, num, workers }) => {
            assert_eq!(query_id.bytes, [7; 16]);
            assert_eq!(*num, 3);
            assert_eq!(workers, &vec!["http://worker-1/", "http://worker-2/"]);
        }
        other => panic!("unexpected stage {other:?}"),
    }
}

#[test]
fn local_stages_count_the_tasks_of_their_message() {
    let stage = stage_message(vec![None, None, None]);
    let decoded = decode(Some(coalesce_message(stage, 1)), vec![empty_exec()]).unwrap();
    match decoded.op.as_network_boundary() {
        Some(Stage::Local { tasks, .. }) => assert_eq!(*tasks, 3),
        other => panic!("unexpected stage {other:?}"),
    }
}

#[test]
fn coalesces_without_consumers_have_one() {
    let stage = stage_message(vec![]);
    let decoded = decode(Some(coalesce_message(stage, 0)), vec![]).unwrap();
    match &*decoded.op {
        Operator::NetworkCoalesce { consumer_tasks, .. } => assert_eq!(*consumer_tasks, 1),
        other => panic!("unexpected operator {other:?}"),
    }
}

#[test]
fn broken_messages_are_refused() {
    assert_eq!(decode(None, vec![]).unwrap_err(), ErrorKind::MissingNode);
    assert_eq!(
        decode(Some(coalesce_message(None, 1)), vec![]).unwrap_err(),
        ErrorKind::EmptyStage
    );
    assert_eq!(
        decode(Some(coalesce_message(stage_message(vec![None]), 1)), vec![]).unwrap_err(),
        ErrorKind::MissingUrl
    );
    assert_eq!(
        decode(Some(coalesce_message(stage_message(vec![Some("no url")]), 1)), vec![]).unwrap_err(),
        ErrorKind::InvalidUrl
    );
    let mut short = stage_message(vec![]).unwrap();
    short.query_id = vec![1, 2, 3];
    assert_eq!(
        decode(Some(coalesce_message(Some(short), 1)), vec![]).unwrap_err(),
        ErrorKind::InvalidUuid { len: 3 }
    );
    let no_schema = DistributedExecNode::NetworkHashShuffle(NetworkShuffleExecProto {
        schema: None,
        partitioning: Some(Partitioning::UnknownPartitioning(2)),
        input_stage: stage_message(vec![]),
        equivalence_classes: None,
        ordering: None,
    });
    let error = DistributedCodec
        .try_decode(&DistributedExecProto { node: Some(no_schema) }, &vec![])
        .unwrap_err();
    assert_eq!(error.message(), "NetworkShuffleExec is missing schema");
    let no_partitioning = DistributedExecNode::NetworkBroadcast(NetworkBroadcastExecProto {
        schema: Some(schema_i32("a")),
        partitioning: None,
        input_stage: stage_message(vec![]),
        equivalence_classes: None,
    });
    let error = DistributedCodec
        .try_decode(&DistributedExecProto { node: Some(no_partitioning) }, &vec![])
        .unwrap_err();
    assert_eq!(error.message(), "NetworkBroadcastExec is missing partitioning");
    let broadcast = DistributedExecNode::Broadcast(BroadcastExecProto { consumer_task_count: 2 });
    assert_eq!(
        decode(Some(broadcast), vec![]).unwrap_err(),
        ErrorKind::BroadcastExpectsOneChild { got: 0 }
    );
    let union = DistributedExecNode::ChildrenIsolatorUnion(ChildrenIsolatorUnionExecProto {
        partition_count: 1,
        task_idx_map: vec![],
        child_weights: vec![],
    });
    let error = DistributedCodec
        .try_decode(&DistributedExecProto { node: Some(union) }, &vec![])
        .unwrap_err();
    assert_eq!(error.message(), "UnionExec requires at least one input");
    let sampler = DistributedExecNode::Sampler(SamplerExecProto {});
    assert_eq!(
        decode(Some(sampler), vec![empty_exec(), empty_exec()]).unwrap_err(),
        ErrorKind::ExpectedOneChild { got: 2 }
    );
    let error = DistributedCodec.try_encode(&empty_exec()).unwrap_err();
    assert_eq!(error.message(), "Unexpected plan EmptyExec");
}

#[test]
fn isolated_unions_keep_their_map() {
    let node = DistributedExecNode::ChildrenIsolatorUnion(ChildrenIsolatorUnionExecProto {
        partition_count: 5,
        task_idx_map: vec![TaskIdxMapEntryProto {
            child_ctx: vec![ChildIdxWithTaskContextProto {
                child_idx: 1,
                task_idx: 2,
                task_count: 3,
            }],
        }],
        child_weights: vec![ChildWeightProto {
            weight_bits: 9,
            max: Some(4),
        }],
    });
    let decoded = decode(Some(node), vec![empty_exec(), empty_exec()]).unwrap();
    match &*decoded.op {
        Operator::ChildrenIsolatorUnion { partitions, weights, task_idx_map } => {
            assert_eq!(*partitions, 5);
            assert_eq!(weights, &vec![ChildWeight { weight_bits: 9, max: Some(4) }]);
            let ctx = DistributedTaskContext { task_index: 2, task_count: 3 };
            assert_eq!(task_idx_map, &vec![vec![(1, ctx)]]);
        }
        other => panic!("unexpected operator {other:?}"),
    }
    assert_eq!(decoded.children.len(), 2);
}

use datafusion_distributed::boundary_factory::{BoundaryFactory, DefaultBoundaryFactory};
use datafusion_distributed::ids::Uuid;
use datafusion_distributed::network_boundary::{PartitionRoute, ProducerHead, ProducerHeadSpec};
use datafusion_distributed::plan::{
    ChildWeight, DistributedTaskContext, Expr, Operator, PartitionRule, Partitioning, Plan,
    RangeBounds, SortExpr, Stage,
};
use datafusion_distributed::prepare_network_boundaries::{
    prepare_network_boundaries, prepare_network_boundaries_as,
};
use datafusion_distributed::error::ErrorKind;
use std::sync::Arc;

fn leaf(partitions: usize) -> Arc<Plan> {
    Plan::node(
        Operator::Other {
            name: "EmptyExec".to_string(),
            partitions: PartitionRule::Fixed(partitions),
        },
        vec![],
    )
}

fn column(name: &str) -> Expr {
    Expr::Column {
        name: name.to_string(),
        index: 0,
    }
}

fn shuffle_of(partitioning: Partitioning, tasks: usize, input: Arc<Plan>) -> Arc<Plan> {
    let repartition = Plan::node(Operator::Repartition { partitioning }, vec![input]);
    DefaultBoundaryFactory
        .shuffle(repartition, Uuid::nil(), 0, 1, tasks)
        .unwrap()
}

fn range_shuffle() -> Arc<Plan> {
    let ordering = vec![SortExpr {
        expr: column("a"),
        descending: false,
        nulls_first: true,
    }];
    let split_points = vec![vec![vec![10]], vec![vec![20]]];
    let bounds = RangeBounds { ordering, split_points };
    shuffle_of(Partitioning::Range(Arc::new(bounds), 3), 3, leaf(1))
}

/// A union with a single child, which runs in all of `tasks` tasks.
fn ciu(child: Arc<Plan>, tasks: usize) -> Arc<Plan> {
    Plan::node(
        Operator::ChildrenIsolatorUnion {
            partitions: child.partition_count().unwrap(),
            weights: vec![ChildWeight {
                weight_bits: 1.0f64.to_bits(),
                max: None,
            }],
            task_idx_map: (0..tasks)
                .map(|task_index| {
                    vec![(0, DistributedTaskContext { task_index, task_count: tasks })]
                })
                .collect(),
        },
        vec![child],
    )
}

#[test]
fn test_prepare_network_boundaries_scales_range_shuffle_properties() {
    let prepared = prepare_network_boundaries(&ciu(range_shuffle(), 3)).unwrap();
    assert_eq!(prepared.op.name(), "ChildrenIsolatorUnionExec");
    match &*prepared.children[0].op {
        Operator::NetworkShuffle { output, .. } => {
            assert_eq!(output.partition_count(), 1);
            assert!(matches!(output, Partitioning::UnknownPartitioning(1)));
        }
        other => panic!("unexpected operator {other:?}"),
    }
}

#[test]
fn test_prepare_network_boundaries_scales_range_shuffle_properties_with_fewer_tasks() {
    let prepared = prepare_network_boundaries(&ciu(range_shuffle(), 2)).unwrap();
    assert_eq!(prepared.op.name(), "ChildrenIsolatorUnionExec");
    let child = &prepared.children[0];
    match &*child.op {
        Operator::NetworkShuffle { output, stage, .. } => {
            assert_eq!(output.partition_count(), 1);
            assert!(matches!(output, Partitioning::UnknownPartitioning(1)));
            assert!(matches!(stage, Stage::Local { .. }), "expected Local stage");
        }
        other => panic!("unexpected operator {other:?}"),
    }
    // The input stage plan should have been scaled to 2 partitions
    assert_eq!(child.children[0].partition_count().unwrap(), 2);
}

fn hash(partitions: usize) -> Partitioning {
    Partitioning::Hash(Arc::new(vec![column("a")]), partitions)
}

#[test]
fn stages_are_numbered_from_the_leaves_upwards() {
    let lower = shuffle_of(hash(4), 2, leaf(1));
    let upper = shuffle_of(hash(4), 3, lower);
    let root = DefaultBoundaryFactory
        .coalesce(upper, Uuid::nil(), 0, 1, 3)
        .unwrap();
    let id = Uuid { bytes: [5; 16] };
    let prepared = prepare_network_boundaries_as(&root, id).unwrap();
    let mut nums = vec![];
    let mut node = prepared;
    loop {
        if let Some(stage) = node.op.as_network_boundary() {
            assert_eq!(stage.query_id().bytes, [5; 16]);
            nums.push((node.op.name(), stage.num(), stage.task_count()));
        }
        match node.children.first() {
            Some(child) => node = Arc::clone(child),
            None => break,
        }
    }
    assert_eq!(
        nums,
        vec![
            ("NetworkCoalesceExec".to_string(), 3, 3),
            ("NetworkShuffleExec".to_string(), 2, 3),
            ("NetworkShuffleExec".to_string(), 1, 2),
        ]
    );
}

#[test]
fn shuffles_are_fed_a_partition_per_consumer_partition() {
    // Two consumer tasks of four partitions each read eight partitions of every producer.
    let shuffle = shuffle_of(hash(4), 3, leaf(1));
    let root = DefaultBoundaryFactory
        .coalesce(shuffle, Uuid::nil(), 0, 1, 2)
        .unwrap();
    let prepared = prepare_network_boundaries(&root).unwrap();
    let shuffle = &prepared.children[0];
    assert_eq!(shuffle.op.name(), "NetworkShuffleExec");
    assert_eq!(shuffle.partition_count().unwrap(), 4);
    assert_eq!(shuffle.children[0].partition_count().unwrap(), 8);
}

#[test]
fn broadcasts_are_replayed_for_every_consumer() {
    let broadcast = DefaultBoundaryFactory
        .broadcast(
            Plan::node(Operator::Broadcast { consumer_tasks: 1 }, vec![leaf(3)]),
            Uuid::nil(),
            0,
            1,
            1,
        )
        .unwrap();
    let root = DefaultBoundaryFactory
        .coalesce(broadcast, Uuid::nil(), 0, 1, 4)
        .unwrap();
    let prepared = prepare_network_boundaries(&root).unwrap();
    let broadcast = &prepared.children[0];
    assert_eq!(broadcast.op.name(), "NetworkBroadcastExec");
    assert!(matches!(&*broadcast.children[0].op, Operator::Broadcast { consumer_tasks: 4 }));
}

#[test]
fn boundaries_between_single_tasks_go() {
    let root = DefaultBoundaryFactory
        .coalesce(leaf(3), Uuid::nil(), 0, 1, 1)
        .unwrap();
    let prepared = prepare_network_boundaries(&root).unwrap();
    assert_eq!(prepared.op.name(), "EmptyExec");
}

#[test]
fn fresh_queries_have_fresh_ids() {
    let plan = || {
        DefaultBoundaryFactory
            .coalesce(leaf(3), Uuid::nil(), 0, 1, 2)
            .unwrap()
    };
    let id = |plan: &Arc<Plan>| plan.op.as_network_boundary().unwrap().query_id().bytes;
    let first = prepare_network_boundaries(&plan()).unwrap();
    let second = prepare_network_boundaries(&plan()).unwrap();
    assert_ne!(id(&first), id(&second));
    assert_ne!(id(&first), [0; 16]);
    // A random identifier of the fourth version says so.
    assert_eq!(id(&first)[6] >> 4, 4);
    assert_eq!(id(&first)[8] >> 6, 2);
}

#[test]
fn partitions_route_to_the_consumer_that_reads_them() {
    let shuffle = shuffle_of(hash(4), 3, leaf(1));
    let routes: Vec<PartitionRoute> = (0..12)
        .map(|partition| shuffle.op.route_partition(partition).unwrap())
        .collect();
    for (partition, route) in routes.iter().enumerate() {
        assert_eq!(route.consumer_task, partition / 4);
        assert_eq!(route.consumer_partition, partition % 4);
    }
    let coalesce = DefaultBoundaryFactory
        .coalesce(leaf(3), Uuid::nil(), 0, 1, 2)
        .unwrap();
    let err = coalesce.op.route_partition(0).unwrap_err();
    assert_eq!(err.kind, ErrorKind::UnslicedBoundary { partition: 0 });
    let nothing = shuffle_of(hash(0), 3, leaf(1));
    let err = nothing.op.route_partition(7).unwrap_err();
    assert_eq!(err.kind, ErrorKind::NoPartitionsPerTask { partition: 7 });
}

#[test]
fn producer_heads_survive_their_message() {
    let heads = [
        ProducerHead::BroadcastExec { output_partitions: 3 },
        ProducerHead::RepartitionExec { partitioning: hash(8) },
        ProducerHead::Unspecified,
    ];
    for head in heads {
        let spec = head.to_spec();
        let back = ProducerHead::from_spec(&spec).unwrap();
        assert_eq!(format!("{head:?}"), format!("{back:?}"));
    }
    let unreadable = ProducerHeadSpec::RepartitionExec { partitioning: None };
    assert_eq!(
        ProducerHead::from_spec(&unreadable).unwrap_err().kind,
        ErrorKind::UnreadablePartitioning
    );
}

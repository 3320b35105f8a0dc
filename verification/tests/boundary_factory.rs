use datafusion_distributed::boundary_factory::{
    BoundaryFactory, BoundaryKind, DefaultBoundaryFactory, PooledBoundaryFactory,
};
use datafusion_distributed::error::{DistributedError, ErrorKind};
use datafusion_distributed::ids::Uuid;
use datafusion_distributed::plan::{Operator, PartitionRule, Partitioning, Plan, Stage};
use std::sync::{Arc, Mutex};

type Built = Result<Arc<Plan>, DistributedError>;

fn empty_plan() -> Arc<Plan> {
    Plan::node(
        Operator::Other {
            name: "EmptyExec".to_string(),
            partitions: PartitionRule::Fixed(1),
        },
        vec![],
    )
}

#[test]
fn pops_resource_per_boundary_in_visit_order() {
    let calls = Arc::new(Mutex::new(Vec::<(BoundaryKind, u32)>::new()));
    let calls_clone = Arc::clone(&calls);
    let mut factory = PooledBoundaryFactory::new(
        vec![10u32, 20, 30],
        move |kind, resource, _, _, _, _, _| {
            calls_clone.lock().unwrap().push((kind, resource));
            Ok(empty_plan())
        },
    );

    let qid = Uuid::nil();
    factory.shuffle(empty_plan(), qid, 0, 1, 1).unwrap();
    factory.coalesce(empty_plan(), qid, 1, 1, 1).unwrap();
    factory.broadcast(empty_plan(), qid, 2, 1, 1).unwrap();

    let log = calls.lock().unwrap();
    assert_eq!(
        *log,
        vec![
            (BoundaryKind::Shuffle, 10),
            (BoundaryKind::Coalesce, 20),
            (BoundaryKind::Broadcast, 30),
        ]
    );
    factory.assert_drained().unwrap();
}

#[test]
fn assert_drained_errors_on_unused_resources() {
    let mut factory =
        PooledBoundaryFactory::new(vec![1u32, 2], |_, _, _, _, _, _, _| Ok(empty_plan()));
    factory.shuffle(empty_plan(), Uuid::nil(), 0, 1, 1).unwrap();
    let err = factory.assert_drained().unwrap_err();
    assert!(
        err.message().contains("1 resource(s) left unconsumed"),
        "got: {}",
        err.message()
    );
}

#[test]
fn dispatch_errors_when_pool_exhausted() {
    let mut factory =
        PooledBoundaryFactory::new(vec![1u32], |_, _, _, _, _, _, _| Ok(empty_plan()));
    factory.shuffle(empty_plan(), Uuid::nil(), 0, 1, 1).unwrap();
    let err = factory
        .coalesce(empty_plan(), Uuid::nil(), 1, 1, 1)
        .unwrap_err();
    assert!(err.message().contains("pool exhausted"), "got: {}", err.message());
    assert!(err.message().contains("Coalesce"), "got: {}", err.message());
}

#[test]
fn emit_errors_propagate() {
    let mut factory = PooledBoundaryFactory::new(
        vec![1u32],
        |kind: BoundaryKind, _, _, _, _, _, _| -> Built {
            Err(DistributedError::about(
                ErrorKind::Embedder,
                format!("user rejected {}", kind.name()),
            ))
        },
    );
    let err = factory
        .broadcast(empty_plan(), Uuid::nil(), 0, 1, 1)
        .unwrap_err();
    assert!(
        err.message().contains("user rejected Broadcast"),
        "got: {}",
        err.message()
    );
    // The resource was used up nevertheless.
    assert_eq!(factory.remaining(), 0);
}

#[test]
fn remaining_reports_pool_size() {
    let mut factory =
        PooledBoundaryFactory::new(vec![1u32, 2, 3], |_, _, _, _, _, _, _| Ok(empty_plan()));
    assert_eq!(factory.remaining(), 3);
    factory.shuffle(empty_plan(), Uuid::nil(), 0, 1, 1).unwrap();
    assert_eq!(factory.remaining(), 2);
}

#[test]
fn factory_is_send_sync() {
    fn assert_send_sync<T: Send + Sync>() {}
    assert_send_sync::<
        PooledBoundaryFactory<
            u32,
            fn(BoundaryKind, u32, Arc<Plan>, Uuid, usize, usize, usize) -> Built,
        >,
    >();
    let _: &dyn BoundaryFactory =
        &PooledBoundaryFactory::new(vec![0u32; 0], |_, _, _, _, _, _, _| Ok(empty_plan()));
}

#[test]
fn the_callback_gets_the_arguments_of_the_call() {
    let seen = Arc::new(Mutex::new(Vec::new()));
    let log = Arc::clone(&seen);
    let mut factory = PooledBoundaryFactory::new(
        vec![()],
        move |_, _, child: Arc<Plan>, query_id: Uuid, stage_id, task_count, input_task_count| {
            log.lock().unwrap().push((
                child.op.name(),
                query_id.bytes,
                stage_id,
                task_count,
                input_task_count,
            ));
            Ok(child)
        },
    );
    factory.shuffle(empty_plan(), Uuid { bytes: [9; 16] }, 5, 6, 7).unwrap();
    assert_eq!(
        *seen.lock().unwrap(),
        vec![("EmptyExec".to_string(), [9; 16], 5, 6, 7)]
    );
}

#[test]
fn default_boundaries_hold_their_stage() {
    let id = Uuid { bytes: [3; 16] };
    let child = Plan::node(
        Operator::Repartition {
            partitioning: Partitioning::Hash(Arc::new(vec![]), 6),
        },
        vec![empty_plan()],
    );
    let plan = DefaultBoundaryFactory.shuffle(child, id, 4, 2, 3).unwrap();
    match &*plan.op {
        Operator::NetworkShuffle { stage, partitioning, output, .. } => {
            assert!(matches!(partitioning, Partitioning::Hash(_, 6)));
            assert!(matches!(output, Partitioning::Hash(_, 6)));
            assert!(matches!(stage, Stage::Local { num: 4, tasks: 3, .. }));
            assert_eq!(stage.query_id().bytes, [3; 16]);
        }
        other => panic!("unexpected operator {other:?}"),
    }
    assert_eq!(plan.children.len(), 1);

    let plan = DefaultBoundaryFactory.broadcast(empty_plan(), id, 4, 2, 3).unwrap();
    assert_eq!(plan.partition_count().unwrap(), 1);
    assert_eq!(plan.op.name(), "NetworkBroadcastExec");
}

#[test]
fn gathering_tasks_share_the_partitions() {
    let six = || {
        Plan::node(
            Operator::Other {
                name: "Leaf".to_string(),
                partitions: PartitionRule::Fixed(6),
            },
            vec![],
        )
    };
    let gathered = |consumers, tasks| {
        DefaultBoundaryFactory
            .coalesce(six(), Uuid::nil(), 0, consumers, tasks)
            .unwrap()
            .partition_count()
            .unwrap()
    };
    // One consumer reads all the partitions of all tasks.
    assert_eq!(gathered(1, 3), 18);
    assert_eq!(gathered(0, 3), 18);
    // Two consumers read two tasks at most.
    assert_eq!(gathered(2, 3), 12);
    assert_eq!(gathered(3, 3), 6);
}

#[test]
fn partitions_beyond_the_machine_are_an_error() {
    let leaf = Plan::node(
        Operator::Other {
            name: "Leaf".to_string(),
            partitions: PartitionRule::Fixed(usize::MAX),
        },
        vec![],
    );
    let err = DefaultBoundaryFactory.coalesce(leaf, Uuid::nil(), 0, 1, 2).unwrap_err();
    assert_eq!(err.kind, ErrorKind::PartitionCountOverflow);
}

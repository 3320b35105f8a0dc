use datafusion_distributed::boundary_factory::{BoundaryFactory, DefaultBoundaryFactory};
use datafusion_distributed::distributed::DistributedExec;
use datafusion_distributed::distributed_config::DistributedConfig;
use datafusion_distributed::error::{DistributedError, ErrorKind};
use datafusion_distributed::ids::Uuid;
use datafusion_distributed::metrics_store::{MetricsStore, TaskKey, TaskMetrics};
use datafusion_distributed::plan::{
    DistributedTaskContext, Expr, Facts, Operator, PartitionRule, Partitioning, Plan, Stage,
};
use datafusion_distributed::plan_encoding::task_specialized_plan;
use datafusion_distributed::prepare_dynamic_plan::{
    colocated_worker, find_input_stage_with_single_url, PlanReconstructor,
};
use datafusion_distributed::prepare_network_boundaries::prepare_network_boundaries_as;
use datafusion_distributed::prepare_static_plan::{
    prepare_static_plan, unrouted, DispatchRequest, PreparedPlan, RouteReply, StaticOutcome,
};
use datafusion_distributed::query_coordinator::{
    is_own_worker, DispatchPlanSource, LoadInfo, MaybeEncoded, StageCoordinator, WorkerMessages,
    WorkerToCoordinatorMsg,
};
use datafusion_distributed::recursion::pre_order;
use datafusion_distributed::session_state_builder_ext::default_session_config;
use std::collections::HashSet;
use std::sync::{Arc, Mutex};

const ID: Uuid = Uuid { bytes: [7; 16] };

fn leaf(partitions: usize) -> Arc<Plan> {
    Plan::node(
        Operator::Other {
            name: "Leaf".to_string(),
            partitions: PartitionRule::Fixed(partitions),
        },
        vec![],
    )
}

fn fed_leaf(partitions: usize, feed: u8) -> Arc<Plan> {
    let facts = Facts {
        estimate: None,
        feed: Some(Uuid { bytes: [feed; 16] }),
        properties: None,
        requirements: vec![],
        unsatisfied_co_partitioned: None,
        produced: vec![],
        filters: vec![],
    };
    Arc::new(Plan {
        op: Arc::clone(&leaf(partitions).op),
        facts: Some(Arc::new(facts)),
        task_count: None,
        children: vec![],
        variants: vec![],
    })
}

fn hash(partitions: usize) -> Partitioning {
    let key = Expr::Column { name: "k".to_string(), index: 0 };
    Partitioning::Hash(Arc::new(vec![key]), partitions)
}

/// A plan of two stages below the one of the coordinator.
fn two_stages() -> Arc<Plan> {
    let repartition =
        Plan::node(Operator::Repartition { partitioning: hash(4) }, vec![leaf(2)]);
    let shuffle = DefaultBoundaryFactory.shuffle(repartition, ID, 0, 1, 3).unwrap();
    let coalesce = DefaultBoundaryFactory.coalesce(shuffle, ID, 0, 1, 2).unwrap();
    let root = Plan::node(Operator::CoalescePartitions { fetch: None }, vec![coalesce]);
    prepare_network_boundaries_as(&root, ID).unwrap()
}

fn workers(n: usize) -> Vec<String> {
    (0..n).map(|i| format!("http://worker-{i}/")).collect()
}

/// Prepares a plan whose stages are all routed to the same workers, and gives the stages that are
/// sent along.
fn prepared(plan: &Arc<Plan>, n_workers: usize) -> (PreparedPlan, Vec<DispatchRequest>) {
    let mut replies = vec![];
    loop {
        let step = prepare_static_plan(plan, &replies);
        match step.outcome {
            StaticOutcome::Done(prepared) => return (prepared, step.requests),
            StaticOutcome::Ask(_) => replies.push(RouteReply::Available {
                urls: workers(n_workers),
                start: 1,
            }),
            StaticOutcome::Fail(error) => panic!("{}", error.message()),
        }
    }
}

#[test]
fn stages_are_sent_from_the_leaves_upwards() {
    let (prepared, requests) = prepared(&two_stages(), 4);
    let sent: Vec<(usize, Vec<String>)> =
        requests.iter().map(|r| (r.num, r.routed_urls.clone())).collect();
    // The workers take turns from the second one on.
    let w = workers(4);
    assert_eq!(
        sent,
        vec![
            (1, vec![w[1].clone(), w[2].clone(), w[3].clone()]),
            (2, vec![w[1].clone(), w[2].clone()]),
        ]
    );
    // The head stage reads from the workers, the plan that is shown is still whole.
    match prepared.head_stage.children[0].op.as_network_boundary() {
        Some(Stage::Remote { num, workers, .. }) => {
            assert_eq!(*num, 2);
            assert_eq!(workers, &requests[1].routed_urls);
        }
        other => panic!("unexpected stage {other:?}"),
    }
    assert!(prepared.head_stage.children[0].children.is_empty());
    assert_eq!(pre_order(&prepared.plan_for_viz).len(), pre_order(&two_stages()).len());
}

#[test]
fn turns_wrap_around() {
    let reply = RouteReply::Available { urls: workers(2), start: 1 };
    let w = workers(2);
    assert_eq!(
        reply.routed_urls(3).unwrap(),
        vec![w[1].clone(), w[0].clone(), w[1].clone()]
    );
}

#[test]
fn random_turns_start_at_a_worker() {
    let mut starts = HashSet::new();
    for _ in 0..200 {
        match unrouted(workers(3)) {
            RouteReply::Available { urls, start } => {
                assert_eq!(urls, workers(3));
                assert!(start < 3);
                starts.insert(start);
            }
            other => panic!("unexpected reply {other:?}"),
        }
    }
    assert_eq!(starts.len(), 3);
}

#[test]
fn routes_must_fit_their_stage() {
    let chosen = RouteReply::Chosen(workers(2));
    assert_eq!(chosen.routed_urls(2).unwrap(), workers(2));
    let error = chosen.routed_urls(3).unwrap_err();
    assert_eq!(error.kind, ErrorKind::RouteMismatch { tasks: 3, urls: 2 });
    assert_eq!(
        error.message(),
        "number of tasks (3) was not equal to number of urls (2) at execution time"
    );
    let none = RouteReply::Available { urls: vec![], start: 0 };
    assert_eq!(none.routed_urls(1).unwrap_err().kind, ErrorKind::NoRoute);
    let failed = RouteReply::Failed("no luck".to_string());
    assert_eq!(
        failed.routed_urls(1).unwrap_err().message(),
        "error routing tasks to workers: no luck"
    );
    // A wrong route ends the preparation.
    let step = prepare_static_plan(&two_stages(), &vec![RouteReply::Chosen(workers(1))]);
    match step.outcome {
        StaticOutcome::Fail(error) => {
            assert_eq!(error.kind, ErrorKind::RouteMismatch { tasks: 3, urls: 1 })
        }
        other => panic!("unexpected outcome {other:?}"),
    }
}

#[test]
fn questions_name_the_stage_that_needs_workers() {
    let step = prepare_static_plan(&two_stages(), &vec![]);
    match step.outcome {
        StaticOutcome::Ask(question) => {
            assert_eq!(question.tasks, 3);
            assert_eq!(question.plan.op.name(), "RepartitionExec");
        }
        other => panic!("unexpected outcome {other:?}"),
    }
    assert!(step.requests.is_empty());
}

type Calls = Arc<Mutex<Vec<(TaskKey, Arc<Plan>)>>>;

/// Notes what it is asked and leaves the plan to the coordinator.
struct RecordingSource {
    calls: Calls,
}

impl DispatchPlanSource for RecordingSource {
    fn dispatch_plan_proto(
        &self,
        task: &TaskKey,
        specialized: &Arc<Plan>,
    ) -> Option<Result<Vec<u8>, DistributedError>> {
        self.calls.lock().unwrap().push((*task, Arc::clone(specialized)));
        None
    }
}

fn coordinator(request: &DispatchRequest) -> StageCoordinator {
    StageCoordinator {
        plan: Arc::clone(&request.plan),
        query_id: request.query_id,
        stage_id: request.num,
        task_count: request.routed_urls.len(),
    }
}

#[test]
fn sources_are_asked_once_per_task_with_a_plan_that_is_ready_to_run() {
    let calls = Calls::default();
    let source = RecordingSource { calls: Arc::clone(&calls) };
    let (_, requests) = prepared(&two_stages(), 4);
    for request in &requests {
        let sent = coordinator(request)
            .send_plan_tasks(&request.routed_urls, Some(&source), 11)
            .unwrap();
        for (task, sent) in sent.iter().enumerate() {
            assert_eq!(sent.task_key.task_number, task);
            assert_eq!(sent.task_count, request.routed_urls.len());
            assert_eq!(sent.target_worker_url, request.routed_urls[task]);
            assert_eq!(sent.query_start_time_ns, 11);
            assert!(matches!(sent.plan, MaybeEncoded::Decoded(_)));
        }
    }
    let calls = calls.lock().unwrap();
    assert_eq!(calls.len(), 5);
    let mut seen = HashSet::new();
    for (task, specialized) in calls.iter() {
        assert!(seen.insert((task.stage_id, task.task_number)), "asked twice for {task:?}");
        for node in pre_order(specialized) {
            if let Some(stage) = node.op.as_network_boundary() {
                assert!(matches!(stage, Stage::Remote { .. }), "{task:?} holds a local stage");
            }
        }
    }
}

struct SerializingSource;

impl DispatchPlanSource for SerializingSource {
    fn dispatch_plan_proto(
        &self,
        task: &TaskKey,
        _specialized: &Arc<Plan>,
    ) -> Option<Result<Vec<u8>, DistributedError>> {
        Some(Ok(vec![task.stage_id as u8, task.task_number as u8]))
    }
}

#[test]
fn bytes_of_the_source_are_what_workers_get() {
    let (_, requests) = prepared(&two_stages(), 4);
    let sent = coordinator(&requests[0])
        .send_plan_tasks(&requests[0].routed_urls, Some(&SerializingSource), 0)
        .unwrap();
    for (task, sent) in sent.iter().enumerate() {
        match &sent.plan {
            MaybeEncoded::Encoded(bytes) => assert_eq!(bytes, &vec![1, task as u8]),
            other => panic!("unexpected plan {other:?}"),
        }
    }
}

struct FailingSource;

impl DispatchPlanSource for FailingSource {
    fn dispatch_plan_proto(
        &self,
        _task: &TaskKey,
        _specialized: &Arc<Plan>,
    ) -> Option<Result<Vec<u8>, DistributedError>> {
        Some(Err(DistributedError::about(
            ErrorKind::Embedder,
            "the embedder could not serialize this stage".to_string(),
        )))
    }
}

#[test]
fn sources_that_fail_fail_the_query() {
    let (_, requests) = prepared(&two_stages(), 4);
    let err = coordinator(&requests[0])
        .send_plan_tasks(&requests[0].routed_urls, Some(&FailingSource), 0)
        .unwrap_err();
    assert!(err.message().contains("could not serialize"), "{}", err.message());
}

#[test]
fn tasks_of_the_own_worker_stay_in_the_process() {
    assert!(is_own_worker(Some("http://a/"), "http://a/"));
    assert!(!is_own_worker(Some("http://a/"), "http://a/b"));
    assert!(!is_own_worker(Some("http://a/b"), "http://a/"));
    assert!(!is_own_worker(Some("http://b/"), "http://a/"));
    assert!(!is_own_worker(None, "http://a/"));
}

struct SecondFails;

impl DispatchPlanSource for SecondFails {
    fn dispatch_plan_proto(
        &self,
        task: &TaskKey,
        specialized: &Arc<Plan>,
    ) -> Option<Result<Vec<u8>, DistributedError>> {
        if task.task_number == 1 {
            FailingSource.dispatch_plan_proto(task, specialized)
        } else {
            Some(Ok(vec![specialized.children.len() as u8]))
        }
    }
}

#[test]
fn the_first_task_that_cannot_be_sent_ends_sending() {
    let (_, requests) = prepared(&two_stages(), 4);
    let stage = coordinator(&requests[0]);
    let sent = stage.send_plan_task(0, "http://a/".to_string(), Some(&SecondFails), 3).unwrap();
    match &sent.plan {
        MaybeEncoded::Encoded(bytes) => {
            assert_eq!(bytes, &vec![requests[0].plan.children.len() as u8])
        }
        other => panic!("unexpected plan {other:?}"),
    }
    let err = stage
        .send_plan_tasks(&requests[0].routed_urls, Some(&SecondFails), 3)
        .unwrap_err();
    assert_eq!(err.kind, ErrorKind::Embedder);
}

#[test]
fn tasks_get_their_variant_of_a_leaf() {
    let variants = vec![leaf(1), leaf(2), leaf(3)];
    let plan = Plan::node(
        Operator::CoalescePartitions { fetch: None },
        vec![Plan::distributed_leaf(Partitioning::UnknownPartitioning(3), variants)],
    );
    for task in 0..3 {
        let (specialized, _) = task_specialized_plan(&plan, task, 3).unwrap();
        assert_eq!(specialized.children[0].op.name(), "Leaf");
        assert_eq!(specialized.children[0].partition_count().unwrap(), task + 1);
    }
    let error = task_specialized_plan(&plan, 3, 4).unwrap_err();
    assert_eq!(error.kind, ErrorKind::MissingVariant { task: 3, variants: 3 });
}

#[test]
fn variants_are_no_children() {
    let plan = Plan::distributed_leaf(hash(4), vec![isolated_union(), leaf(1)]);
    assert_eq!(pre_order(&plan).len(), 1);
    assert_eq!(plan.partition_count().unwrap(), 4);
    // The union knows three tasks. It takes the place of the leaf in the first one only.
    let ctx = |task_index| DistributedTaskContext { task_index, task_count: 4 };
    assert!(plan.has_task(ctx(0)));
    assert!(plan.can_run(ctx(0)));
    assert!(plan.can_run(ctx(1)));
    assert!(plan.can_run(ctx(3)));
    let (specialized, declared) = task_specialized_plan(&plan, 0, 4).unwrap();
    assert_eq!(specialized.op.name(), "ChildrenIsolatorUnionExec");
    // What takes the place of a node is not cut down itself, the nodes below it are.
    assert_eq!(specialized.children[1].op.name(), "Leaf");
    assert_eq!(declared.len(), 1);
    let astray = Plan::distributed_leaf(hash(4), vec![leaf(1), leaf(1), leaf(1), isolated_union()]);
    assert!(astray.can_run(ctx(2)));
    assert!(!astray.can_run(ctx(3)));
}

#[test]
fn nodes_that_read_from_a_feed_stay_whole() {
    let facts = fed_leaf(1, 7).facts.clone();
    let fed = |plan: Arc<Plan>| {
        Arc::new(Plan {
            op: Arc::clone(&plan.op),
            facts: facts.clone(),
            task_count: None,
            children: plan.children.clone(),
            variants: plan.variants.clone(),
        })
    };
    let (plan, declared) = task_specialized_plan(&fed(isolated_union()), 0, 3).unwrap();
    let names: Vec<String> = plan.children.iter().map(|child| child.op.name()).collect();
    assert_eq!(names, vec!["Leaf", "Leaf"]);
    let ids: Vec<[u8; 16]> = declared.iter().map(|declared| declared.id.bytes).collect();
    assert_eq!(ids, vec![[7; 16], [1; 16]]);
    let leaf = fed(Plan::distributed_leaf(hash(4), vec![leaf(1), leaf(2)]));
    let (plan, declared) = task_specialized_plan(&leaf, 5, 6).unwrap();
    assert_eq!(plan.op.name(), "DistributedLeafExec");
    assert_eq!(plan.variants.len(), 2);
    assert_eq!(declared.len(), 1);
    assert_eq!(declared[0].partitions, 4);
}

fn isolated_union() -> Arc<Plan> {
    let ctx = |task_index, task_count| DistributedTaskContext { task_index, task_count };
    Plan::node(
        Operator::ChildrenIsolatorUnion {
            partitions: 2,
            weights: vec![],
            task_idx_map: vec![
                vec![(0, ctx(0, 1))],
                vec![(1, ctx(0, 2))],
                vec![(1, ctx(1, 2))],
            ],
        },
        vec![fed_leaf(2, 1), fed_leaf(3, 2)],
    )
}

#[test]
fn tasks_execute_their_children_of_a_union_only() {
    let (plan, declared) = task_specialized_plan(&isolated_union(), 0, 3).unwrap();
    let names: Vec<String> = plan.children.iter().map(|child| child.op.name()).collect();
    assert_eq!(names, vec!["Leaf", "EmptyExec"]);
    assert_eq!(declared.len(), 1);
    assert_eq!(declared[0].id.bytes, [1; 16]);
    assert_eq!(declared[0].partitions, 2);
    let (plan, declared) = task_specialized_plan(&isolated_union(), 2, 3).unwrap();
    let names: Vec<String> = plan.children.iter().map(|child| child.op.name()).collect();
    assert_eq!(names, vec!["EmptyExec", "Leaf"]);
    assert_eq!(declared[0].id.bytes, [2; 16]);
}

#[test]
fn unions_know_their_tasks_and_no_others() {
    let ctx = |task_index| DistributedTaskContext { task_index, task_count: 3 };
    assert!(isolated_union().has_task(ctx(0)));
    assert!(isolated_union().has_task(ctx(2)));
    assert!(!isolated_union().has_task(ctx(3)));
    assert!(leaf(1).has_task(ctx(3)));
    let astray = Plan::node(
        Operator::ChildrenIsolatorUnion {
            partitions: 1,
            weights: vec![],
            task_idx_map: vec![vec![(1, ctx(0))]],
        },
        vec![leaf(1)],
    );
    assert!(!astray.has_task(ctx(0)));
}

#[test]
fn feeds_are_spread_over_the_tasks_that_read_them() {
    let coordinator = StageCoordinator {
        plan: isolated_union(),
        query_id: ID,
        stage_id: 1,
        task_count: 3,
    };
    let ranges = |task| {
        let ranges = coordinator.coordinator_to_worker_feeds(task).unwrap();
        let flat = |r: &datafusion_distributed::query_coordinator::FeedRange| {
            (r.id.bytes[0], r.start, r.end, r.fan_out_tasks)
        };
        ranges.iter().map(flat).collect::<Vec<_>>()
    };
    assert_eq!(ranges(0), vec![(1, 0, 2, 1)]);
    assert_eq!(ranges(1), vec![(2, 0, 3, 2)]);
    assert_eq!(ranges(2), vec![(2, 3, 6, 2)]);
}

#[test]
fn workers_report_metrics_and_load() {
    let key = TaskKey { query_id: ID, stage_id: 1, task_number: 0 };
    let load = || {
        WorkerToCoordinatorMsg::LoadInfo(LoadInfo {
            rows_ready: 5,
            rows_per_second: 0,
            per_column_bytes_ready: vec![],
            per_column_bytes_per_second: vec![],
        })
    };
    let mut messages = WorkerMessages::new(key, Some(MetricsStore::new()));
    assert_eq!(messages.receive(load()).unwrap().rows_ready, 5);
    assert!(messages.receive(WorkerToCoordinatorMsg::LoadInfoEos).is_none());
    assert!(messages.receive(load()).is_none());
    let metrics = Arc::new(TaskMetrics { pre_order_plan_metrics: vec![vec![1]] });
    assert!(messages.receive(WorkerToCoordinatorMsg::TaskMetrics(metrics)).is_none());
    let filed = messages.metrics.unwrap().get(&key).unwrap();
    assert_eq!(filed.pre_order_plan_metrics, vec![vec![1]]);
}

#[test]
fn metrics_are_filed_by_task() {
    let key = |task_number| TaskKey { query_id: ID, stage_id: 1, task_number };
    let metrics = |byte| Arc::new(TaskMetrics { pre_order_plan_metrics: vec![vec![byte]] });
    let mut store = MetricsStore::new();
    store.insert(key(0), metrics(1));
    assert!(!store.has_all(&vec![key(0), key(1)]));
    store.insert(key(1), metrics(2));
    assert!(store.has_all(&vec![key(0), key(1)]));
    // A later report takes the place of an earlier one.
    store.insert(key(0), metrics(3));
    assert_eq!(store.get(&key(0)).unwrap().pre_order_plan_metrics, vec![vec![3]]);
    assert_eq!(store.get(&key(1)).unwrap().pre_order_plan_metrics, vec![vec![2]]);
    assert!(store.get(&key(2)).is_none());
}

#[test]
fn roots_wait_for_the_metrics_of_all_tasks() {
    let mut root = DistributedExec::new(two_stages()).with_metrics_collection(true);
    assert!(root.awaited_tasks().is_empty());
    assert!(root.metrics_are_complete());
    assert_eq!(root.plan_for_viz().unwrap_err().kind, ErrorKind::NotPrepared);
    assert_eq!(root.head_stage().unwrap_err().kind, ErrorKind::NoHeadStage);
    let (plan, _) = prepared(&two_stages(), 4);
    root.prepared(plan);
    let awaited = root.awaited_tasks();
    let names: Vec<(usize, usize)> =
        awaited.iter().map(|key| (key.stage_id, key.task_number)).collect();
    assert_eq!(names, vec![(2, 0), (2, 1), (1, 0), (1, 1), (1, 2)]);
    assert!(!root.metrics_are_complete());
    let metrics = Arc::new(TaskMetrics { pre_order_plan_metrics: vec![] });
    for key in awaited {
        root.metrics_store.as_mut().unwrap().insert(key, Arc::clone(&metrics));
    }
    assert!(root.metrics_are_complete());
    assert_eq!(root.head_stage().unwrap().op.name(), "CoalescePartitionsExec");
}

#[test]
fn roots_have_one_partition_and_one_child() {
    let root = DistributedExec::new(two_stages()).with_metrics_collection(false);
    assert!(root.metrics_store().is_none());
    root.check_partition(0).unwrap();
    let error = root.check_partition(2).unwrap_err();
    assert_eq!(
        error.message(),
        "DistributedExec must only have 1 partition, but it was called with partition index 2"
    );
    let other = root.with_new_children(&vec![leaf(1)]).unwrap();
    assert_eq!(other.base_plan.op.name(), "Leaf");
    let error = other.with_new_children(&vec![]).unwrap_err();
    assert_eq!(error.kind, ErrorKind::ExpectedOneChild { got: 0 });
}

#[test]
fn embedders_drive_plans_with_settled_task_counts() {
    let mut root = DistributedExec::new(two_stages());
    let mut session = default_session_config();
    let error = root.prepare_in_process_plan(&session, &vec![]).unwrap_err();
    assert_eq!(error.kind, ErrorKind::MissingDistributedConfig);
    session.distributed = Some(DistributedConfig::default());
    let step = root.prepare_in_process_plan(&session, &vec![]).unwrap();
    assert!(matches!(step.outcome, StaticOutcome::Ask(_)));
    assert!(root.head_stage().is_err());
    let replies = vec![RouteReply::Chosen(workers(3)), RouteReply::Chosen(workers(2))];
    let step = root.prepare_in_process_plan(&session, &replies).unwrap();
    assert!(matches!(step.outcome, StaticOutcome::Done(_)));
    assert_eq!(root.head_stage().unwrap().op.name(), "CoalescePartitionsExec");
    session.distributed.as_mut().unwrap().dynamic_task_count = true;
    let error = root.prepare_in_process_plan(&session, &replies).unwrap_err();
    assert_eq!(error.kind, ErrorKind::DynamicInProcess);
}

#[test]
fn plans_are_put_together_from_the_stages_that_were_sent() {
    let whole = two_stages();
    let (prepared, requests) = prepared(&whole, 4);
    let mut reconstructor = PlanReconstructor::new();
    for request in &requests {
        reconstructor.insert(request.num, Arc::clone(&request.plan));
    }
    let again = reconstructor.reconstruct(&prepared.head_stage).unwrap();
    let shape = |plan: &Arc<Plan>| {
        pre_order(plan).iter().map(|node| node.op.name()).collect::<Vec<_>>()
    };
    assert_eq!(shape(&again), shape(&whole));
    for node in pre_order(&again) {
        if let Some(stage) = node.op.as_network_boundary() {
            assert!(matches!(stage, Stage::Local { .. }));
        }
    }
    // Every stage is taken out of the keeping once.
    let error = reconstructor.reconstruct(&prepared.head_stage).unwrap_err();
    assert_eq!(error.kind, ErrorKind::MissingStagePlan { num: 2 });
    assert_eq!(
        error.message(),
        "Failed to retrieve plan for stage 2 for visualization purposes"
    );
}

fn reading_from(urls: Vec<String>) -> Arc<Plan> {
    Plan::node(
        Operator::NetworkCoalesce {
            stage: Stage::Remote { query_id: ID, num: 1, workers: urls },
            output: Partitioning::UnknownPartitioning(1),
            consumer_tasks: 1,
            properties: None,
        },
        vec![],
    )
}

#[test]
fn single_tasks_stay_where_their_rows_are() {
    let plan = Plan::node(
        Operator::Union,
        vec![reading_from(workers(2)), reading_from(vec!["http://here/".to_string()])],
    );
    assert_eq!(find_input_stage_with_single_url(&plan), Some("http://here/".to_string()));
    assert_eq!(colocated_worker(&plan, 1), Some("http://here/".to_string()));
    assert_eq!(colocated_worker(&plan, 2), None);
    assert_eq!(find_input_stage_with_single_url(&reading_from(workers(2))), None);
}

use datafusion_distributed::codec::DistributedCodec;
use datafusion_distributed::distributed_config::{DistributedConfig, SessionConfig};
use datafusion_distributed::distributed_ext::{
    get_distributed_user_codecs, CodecHandle, CompressionType, DistributedExt,
};
use datafusion_distributed::dynamic_filtering::{
    discover_dynamic_filter_consumers, discover_dynamic_filter_producers,
    dynamic_filter_remote_producer_ids, is_local_dynamic_filtering_enabled,
    is_remote_dynamic_filtering_enabled, orphan_dynamic_filter_consumers, shares_dynamic_filters,
    DiscoveredDynamicFilter,
};
use datafusion_distributed::error::ErrorKind;
use datafusion_distributed::error_message::decimal;
use datafusion_distributed::ids::{deserialize_uuid, parse_url, serialize_uuid, Uuid};
use datafusion_distributed::plan::{
    DynamicFilter, Expr, Facts, Operator, PartitionRule, Partitioning, Plan, ProducedExpression,
    Properties, Schema, Stage,
};
use datafusion_distributed::session_state_builder_ext::{
    default_session_config, QueryPlanner, SessionStateBuilder, SessionStateBuilderExt,
};
use datafusion_distributed::task_count::TaskCountAnnotation::{Desired, Maximum};
use std::sync::Arc;

#[test]
fn distribution_is_off_until_it_is_added() {
    let mut session = default_session_config();
    let error = session.set_distributed_broadcast_joins(true).unwrap_err();
    assert_eq!(error.message(), "DistributedConfig is not in ConfigOptions.extensions");
    DistributedConfig::ensure_in_config(&mut session);
    session.set_distributed_broadcast_joins(true).unwrap();
    assert!(DistributedConfig::from_session_config(&session).unwrap().broadcast_joins);
    // Settings that are there stay.
    DistributedConfig::ensure_in_config(&mut session);
    assert!(session.distributed.as_ref().unwrap().broadcast_joins);
}

fn distributed_session() -> SessionConfig {
    let mut session = default_session_config();
    DistributedConfig::ensure_in_config(&mut session);
    session
}

#[test]
fn settings_are_set_one_by_one() {
    let mut session = distributed_session();
    session.set_distributed_file_scan_config_bytes_per_partition(1).unwrap();
    session.set_distributed_cardinality_effect_task_scale_factor(1.5f64.to_bits()).unwrap();
    session.set_distributed_metrics_collection(false).unwrap();
    session.set_distributed_children_isolator_unions(false).unwrap();
    session.set_distributed_shuffle_batch_size(2).unwrap();
    session.set_distributed_max_tasks_per_stage(3).unwrap();
    session.set_distributed_partial_reduce(true).unwrap();
    session.set_distributed_worker_connection_buffer_budget_bytes(4).unwrap();
    session.set_distributed_dynamic_task_count(true).unwrap();
    session.set_distributed_bytes_per_partition_per_second(5).unwrap();
    let config = session.distributed.as_ref().unwrap();
    assert_eq!(config.file_scan_config_bytes_per_partition, 1);
    assert_eq!(f64::from_bits(config.cardinality_task_count_factor_bits), 1.5);
    assert!(!config.collect_metrics);
    assert!(!config.children_isolator_unions);
    assert_eq!(config.shuffle_batch_size, 2);
    assert_eq!(config.max_tasks_per_stage, 3);
    assert!(config.partial_reduce);
    assert_eq!(config.worker_connection_buffer_budget_bytes, 4);
    assert!(config.dynamic_task_count);
    assert_eq!(config.bytes_per_partition_per_second, 5);
    for (compression, name) in [
        (Some(CompressionType::Zstd), "zstd"),
        (Some(CompressionType::Lz4Frame), "lz4"),
        (None, "none"),
    ] {
        session.set_distributed_compression(compression).unwrap();
        assert_eq!(session.distributed.as_ref().unwrap().compression, name);
    }
}

#[test]
fn settings_can_be_chained() {
    let session = distributed_session()
        .with_distributed_broadcast_joins(true)
        .unwrap()
        .with_distributed_max_tasks_per_stage(4)
        .unwrap()
        .with_distributed_user_codec(8)
        .with_distributed_user_codec(9);
    let config = session.distributed.as_ref().unwrap();
    assert!(config.broadcast_joins);
    assert_eq!(config.max_tasks_per_stage, 4);
    assert_eq!(get_distributed_user_codecs(&session), vec![8, 9]);
    assert_eq!(
        DistributedCodec::new_combined_with_user(&session),
        vec![CodecHandle::Distributed, CodecHandle::User(8), CodecHandle::User(9)]
    );
}

#[test]
fn reserved_headers_do_not_pass_through() {
    let header = |name: &str| (name.to_string(), "value".to_string());
    let mut session = distributed_session();
    session.set_distributed_passthrough_headers(vec![header("x-mine")]).unwrap();
    assert_eq!(session.passthrough_headers, vec![header("x-mine")]);
    let reserved = "x-datafusion-distributed-config-broadcast_joins";
    let error = session
        .set_distributed_passthrough_headers(vec![header("a"), header(reserved)])
        .unwrap_err();
    assert_eq!(error.kind, ErrorKind::ReservedHeader);
    assert!(error.message().contains(reserved));
    let later = "x-datafusion-distributed-config-later";
    let error = session
        .set_distributed_passthrough_headers(vec![header(reserved), header(later)])
        .unwrap_err();
    assert!(error.message().contains(reserved));
    assert_eq!(session.passthrough_headers, vec![header("x-mine")]);
}

#[test]
fn stages_are_limited_by_the_setting_or_by_the_workers() {
    let mut config = DistributedConfig::default();
    assert_eq!(config.max_tasks(5), 5);
    assert_eq!(config.max_tasks(0), 1);
    config.max_tasks_per_stage = 2;
    assert_eq!(config.max_tasks(5), 2);
}

#[test]
fn planners_wrap_the_planner_before_them() {
    let builder = SessionStateBuilder { config: None, query_planner: None };
    let builder = builder.with_distributed_planner();
    assert!(matches!(builder.query_planner, Some(QueryPlanner::Distributed { prev: None })));
    let config = builder.config.unwrap();
    assert!(config.distributed.is_some());
    assert!(!config.physical_uncorrelated_scalar_subqueries);
    assert!(config.dynamic_filter_pushdown);
    assert!(config.user_codecs.is_empty());
    assert!(config.passthrough_headers.is_empty());

    let mut session = distributed_session();
    session.set_distributed_max_tasks_per_stage(6).unwrap();
    let builder = SessionStateBuilder {
        config: Some(session),
        query_planner: Some(QueryPlanner::User(1)),
    };
    let builder = builder.with_distributed_planner();
    match builder.query_planner {
        Some(QueryPlanner::Distributed { prev: Some(prev) }) => {
            assert!(matches!(*prev, QueryPlanner::User(1)))
        }
        other => panic!("unexpected planner {other:?}"),
    }
    assert_eq!(builder.config.unwrap().distributed.unwrap().max_tasks_per_stage, 6);
}

#[test]
fn task_counts_are_limited_and_merged() {
    assert_eq!(Desired(5).limit(3), Desired(3));
    assert_eq!(Maximum(2).limit(3), Maximum(2));
    assert_eq!(Desired(2).merge(Desired(5)), Desired(5));
    assert_eq!(Desired(5).merge(Maximum(2)), Maximum(2));
    assert_eq!(Maximum(2).merge(Desired(1)), Maximum(2));
    assert_eq!(Maximum(3).merge(Maximum(2)), Maximum(2));
    assert_eq!(Maximum(3).as_usize(), 3);
}

#[test]
fn identifiers_survive_their_bytes() {
    let id = Uuid::new_v4();
    let bytes = serialize_uuid(&id);
    assert_eq!(bytes, id.bytes.to_vec());
    assert_eq!(deserialize_uuid(&bytes).unwrap(), id);
    assert_ne!(Uuid::new_v4(), id);
    assert_eq!(Uuid::nil().bytes, [0; 16]);
    for len in [0, 15, 17] {
        let error = deserialize_uuid(&vec![1; len]).unwrap_err();
        assert_eq!(error.kind, ErrorKind::InvalidUuid { len });
    }
}

#[test]
fn urls_come_out_in_normal_form() {
    assert_eq!(parse_url("HTTP://Worker:80/a/../b"), Some("http://worker/b".to_string()));
    assert_eq!(parse_url("http://worker/b"), Some("http://worker/b".to_string()));
    assert_eq!(parse_url("worker"), None);
}

#[test]
fn numbers_are_written_in_decimals() {
    assert_eq!(decimal(0), "0");
    assert_eq!(decimal(907), "907");
    assert_eq!(decimal(usize::MAX), format!("{}", usize::MAX));
}

fn schema() -> Option<Arc<Properties>> {
    Some(Arc::new(Properties {
        schema: Arc::new(Schema { fields: vec![], metadata: vec![] }),
        equivalences: None,
        ordering: None,
    }))
}

fn filter(id: u64) -> Arc<Expr> {
    Arc::new(Expr::Encoded(Arc::new(vec![id as u8])))
}

fn node(op: Operator, produced: &[u64], filters: &[u64], children: Vec<Arc<Plan>>) -> Arc<Plan> {
    let facts = Facts {
        estimate: None,
        feed: None,
        properties: schema(),
        requirements: vec![],
        unsatisfied_co_partitioned: None,
        produced: produced
            .iter()
            .map(|id| ProducedExpression {
                id: Some(*id),
                is_dynamic_filter: true,
                expression: filter(*id),
            })
            .collect(),
        filters: filters
            .iter()
            .map(|id| DynamicFilter { id: Some(*id), expression: filter(*id) })
            .collect(),
    };
    Arc::new(Plan {
        op: Arc::new(op),
        facts: Some(Arc::new(facts)),
        task_count: None,
        children,
        variants: vec![],
    })
}

fn other(name: &str) -> Operator {
    Operator::Other { name: name.to_string(), partitions: PartitionRule::Fixed(1) }
}

fn boundary(filters: &[u64], child: Vec<Arc<Plan>>) -> Arc<Plan> {
    let op = Operator::NetworkShuffle {
        stage: Stage::Local { query_id: Uuid::nil(), num: 1, tasks: 2 },
        partitioning: Partitioning::UnknownPartitioning(1),
        output: Partitioning::UnknownPartitioning(1),
        properties: None,
    };
    node(op, &[], filters, child)
}

fn ids(found: &Vec<DiscoveredDynamicFilter>) -> Vec<u64> {
    found.iter().map(|filter| filter.id).collect()
}

#[test]
fn filters_are_found_at_their_producers_and_consumers() {
    // A join produces a filter that it also refers to itself, and the scan below it consumes it.
    let scan = node(other("Scan"), &[], &[4, 5], vec![]);
    let join = node(other("Join"), &[4], &[4], vec![scan]);
    let consumers = discover_dynamic_filter_consumers(&join).unwrap();
    assert_eq!(ids(&consumers.consumers), vec![4, 5]);
    assert!(consumers.anchors.is_empty());
    assert!(consumers.consumers[0].input_schema.is_some());
    let producers = discover_dynamic_filter_producers(&join).unwrap();
    assert_eq!(ids(&producers), vec![4]);
    // Nobody feeds the other filter.
    assert_eq!(ids(&orphan_dynamic_filter_consumers(&join).unwrap()), vec![5]);
    assert!(shares_dynamic_filters(&join).unwrap());
}

#[test]
fn boundaries_carry_filters_as_anchors() {
    let inner = boundary(&[4], vec![node(other("Scan"), &[], &[4], vec![])]);
    let outer = boundary(&[4], vec![inner]);
    let join = node(other("Join"), &[4], &[], vec![outer]);
    let consumers = discover_dynamic_filter_consumers(&join).unwrap();
    assert_eq!(ids(&consumers.consumers), vec![4]);
    assert_eq!(ids(&consumers.anchors), vec![4]);
    assert_eq!(dynamic_filter_remote_producer_ids(&join).unwrap(), vec![4]);
}

#[test]
fn filters_need_an_identity() {
    let facts = Facts {
        estimate: None,
        feed: None,
        properties: None,
        requirements: vec![],
        unsatisfied_co_partitioned: None,
        produced: vec![],
        filters: vec![DynamicFilter { id: None, expression: filter(1) }],
    };
    let plan = Arc::new(Plan {
        op: Arc::new(other("Scan")),
        facts: Some(Arc::new(facts)),
        task_count: None,
        children: vec![],
        variants: vec![],
    });
    assert_eq!(
        discover_dynamic_filter_consumers(&plan).unwrap_err().kind,
        ErrorKind::UnidentifiedFilter
    );
}

#[test]
fn filters_can_be_switched_off() {
    let mut session = distributed_session();
    assert!(is_local_dynamic_filtering_enabled(&session));
    session.distributed.as_mut().unwrap().remote_dynamic_filters = true;
    assert!(is_remote_dynamic_filtering_enabled(&session).unwrap());
    // Filters that are not pushed down in a process do not leave it either.
    session.dynamic_filter_pushdown = false;
    assert!(!is_local_dynamic_filtering_enabled(&session));
    assert!(!is_remote_dynamic_filtering_enabled(&session).unwrap());
    session.dynamic_filter_pushdown = true;
    session.distributed.as_mut().unwrap().remote_dynamic_filters = false;
    assert!(!is_remote_dynamic_filtering_enabled(&session).unwrap());
    session.distributed = None;
    assert!(is_remote_dynamic_filtering_enabled(&session).is_err());
}

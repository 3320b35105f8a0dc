pub mod aggregate_laws;
pub mod boundary_factory;
pub mod boundary_laws;
pub mod codec;
pub mod codec_laws;
pub mod counting_laws;
pub mod dispatch_laws;
pub mod distributed;
pub mod distributed_config;
pub mod distributed_ext;
pub mod distributed_query_planner;
pub mod dynamic_filter_laws;
pub mod dynamic_filtering;
pub mod dynamic_laws;
pub mod embedded;
pub mod engine_reports;
pub mod error;
pub mod inject_network_boundaries;
pub mod injection_laws;
pub mod insert_broadcast;
pub mod join_laws;
pub mod measurement_laws;
pub mod metrics_store;
pub mod network_boundary;
pub mod normalize_collect_joins;
pub mod numbering_laws;
pub mod partial_reduce_below_network_shuffles;
pub mod plan;
pub mod plan_encoding;
pub mod plan_paths;
pub mod planner_laws;
pub mod preparation_laws;
pub mod prepare_dynamic_plan;
pub mod prepare_network_boundaries;
pub mod prepare_static_plan;
pub mod push_fetch_into_network_coalesce;
pub mod query_coordinator;
pub mod reconstruction_laws;
pub mod recursion;
pub mod runtime_statistics;
pub mod session_state_builder_ext;
pub mod settings_laws;
pub mod stage_laws;
pub mod statistics;
pub mod task_count;
pub mod task_count_laws;
pub mod task_laws;
pub mod validate_stages;
pub mod validation_laws;
pub mod vectors;
pub mod walk_laws;
pub mod worker_fragments;
pub mod error_message;
pub mod exchange_laws;
pub mod ids;

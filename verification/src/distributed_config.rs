use crate::error::{DistributedError, ErrorKind};
use vstd::prelude::*;

verus! {

/// The settings of the distributed planner.
#[derive(Debug)]
pub struct DistributedConfig {
    /// How many bytes each partition of a file scan is expected to read.
    pub file_scan_config_bytes_per_partition: usize,
    /// The factor by which task counts follow the cardinality of the data, as the bit pattern of
    /// a double.
    pub cardinality_task_count_factor_bits: u64,
    /// Whether the children of unions run in tasks of their own.
    pub children_isolator_unions: bool,
    /// Whether metrics are gathered across network boundaries.
    pub collect_metrics: bool,
    /// Whether the build sides of collecting joins are broadcast.
    pub broadcast_joins: bool,
    /// The compression of what is sent between workers: `zstd`, `lz4` or `none`.
    pub compression: String,
    /// The batch size of worker stages. Zero leaves the batch size of the session in force.
    pub shuffle_batch_size: usize,
    /// How many tasks a stage may have. Zero stands for the number of workers.
    pub max_tasks_per_stage: usize,
    /// Whether partial aggregates are merged before they are shuffled.
    pub partial_reduce: bool,
    /// How many bytes a worker connection buffers before it pauses.
    pub worker_connection_buffer_budget_bytes: usize,
    /// Whether task counts are decided during execution.
    pub dynamic_task_count: bool,
    /// How many bytes a partition is expected to work through in a second, where task counts are
    /// decided during execution.
    pub bytes_per_partition_per_second: usize,
    /// Whether dynamic filters cross network boundaries.
    pub remote_dynamic_filters: bool,
}

/// Sixteen mebibytes.
pub const DEFAULT_BYTES_PER_PARTITION: usize = 16777216;

/// Sixty-four mebibytes.
pub const DEFAULT_BUFFER_BUDGET_BYTES: usize = 67108864;

/// The bit pattern of the double one.
pub const FACTOR_ONE_BITS: u64 = 4607182418800017408;

impl Default for DistributedConfig {
    fn default() -> (result: DistributedConfig)
        ensures
            result.file_scan_config_bytes_per_partition == DEFAULT_BYTES_PER_PARTITION,
            result.cardinality_task_count_factor_bits == FACTOR_ONE_BITS,
            result.children_isolator_unions,
            result.collect_metrics,
            !result.broadcast_joins,
            result.compression@ == "lz4"@,
            result.shuffle_batch_size == 0,
            result.max_tasks_per_stage == 0,
            !result.partial_reduce,
            result.worker_connection_buffer_budget_bytes == DEFAULT_BUFFER_BUDGET_BYTES,
            !result.dynamic_task_count,
            result.bytes_per_partition_per_second == DEFAULT_BYTES_PER_PARTITION,
            !result.remote_dynamic_filters,
    {
        DistributedConfig {
            file_scan_config_bytes_per_partition: DEFAULT_BYTES_PER_PARTITION,
            cardinality_task_count_factor_bits: FACTOR_ONE_BITS,
            children_isolator_unions: true,
            collect_metrics: true,
            broadcast_joins: false,
            compression: "lz4".to_owned(),
            shuffle_batch_size: 0,
            max_tasks_per_stage: 0,
            partial_reduce: false,
            worker_connection_buffer_budget_bytes: DEFAULT_BUFFER_BUDGET_BYTES,
            dynamic_task_count: false,
            bytes_per_partition_per_second: DEFAULT_BYTES_PER_PARTITION,
            remote_dynamic_filters: false,
        }
    }
}

impl DistributedConfig {
    /// How many tasks a stage may have where there are this many workers. There is always room for
    /// one.
    pub open spec fn stage_limit(self, workers: usize) -> usize {
        if self.max_tasks_per_stage != 0 {
            self.max_tasks_per_stage
        } else {
            crate::task_count::max_of(workers, 1)
        }
    }

    pub fn max_tasks(&self, workers: usize) -> (result: usize)
        ensures
            result == self.stage_limit(workers),
            result >= 1,
    {
        if self.max_tasks_per_stage != 0 {
            self.max_tasks_per_stage
        } else if workers <= 1 {
            1
        } else {
            workers
        }
    }

    /// The settings for distribution of a session.
    pub fn from_session_config(session_cfg: &SessionConfig) -> (result: Result<
        &DistributedConfig,
        DistributedError,
    >)
        ensures
            match session_cfg.distributed {
                Some(distributed) => result matches Ok(config) && *config == distributed,
                None => result matches Err(error) && error@
                    == ErrorKind::MissingDistributedConfig.plain(),
            },
    {
        match &session_cfg.distributed {
            Some(distributed) => Ok(distributed),
            None => Err(DistributedError::new(ErrorKind::MissingDistributedConfig)),
        }
    }

    /// Makes sure that a session has settings for distribution. Those that it has are kept.
    pub fn ensure_in_config(cfg: &mut SessionConfig)
        ensures
            final(cfg).distributed is Some,
            old(cfg).distributed is Some ==> *final(cfg) == *old(cfg),
            old(cfg).distributed is None ==> *final(cfg) == (SessionConfig {
                distributed: final(cfg).distributed,
                ..*old(cfg)
            }) && DistributedConfig::default.ensures((), final(cfg).distributed->Some_0),
    {
        if cfg.distributed.is_none() {
            cfg.distributed = Some(DistributedConfig::default());
        }
    }
}

/// The settings of a session that distribution reads or changes.
#[derive(Debug)]
pub struct SessionConfig {
    /// The settings for distribution, once they have been added.
    pub distributed: Option<DistributedConfig>,
    /// Whether the optimizer turns uncorrelated scalar subqueries into plans of their own.
    pub physical_uncorrelated_scalar_subqueries: bool,
    /// Whether dynamic filters are pushed down within a process.
    pub dynamic_filter_pushdown: bool,
    /// The codecs that users registered for nodes of their own, by their handles, in order.
    pub user_codecs: Vec<u64>,
    /// The headers that are forwarded to workers unchanged.
    pub passthrough_headers: Vec<(String, String)>,
}

} // verus!

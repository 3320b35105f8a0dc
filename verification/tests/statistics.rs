use datafusion_distributed::error::ErrorKind;
use datafusion_distributed::plan::{
    AggregateMode, Expr, GroupBy, JoinType, Operator, PartitionMode, PartitionRule, Partitioning,
    Plan, Schema,
};
use datafusion_distributed::query_coordinator::LoadInfo;
use datafusion_distributed::runtime_statistics::{
    find_sampler, gather_runtime_statistics, start_sample, zero_stats, LoadSample,
};
use datafusion_distributed::statistics::{
    complexity_memory, estimate_rows, plan_statistics, ColumnStatistics, Complexity,
    LinearComplexity, Precision, Statistics,
};
use datafusion_distributed::vectors::{
    checked_total, element_wise_sum, vec_cast, vec_div, vec_mul,
};
use std::sync::Arc;

fn leaf() -> Arc<Plan> {
    Plan::node(
        Operator::Scan {
            name: "DataSourceExec".to_string(),
            partitioning: Partitioning::UnknownPartitioning(3),
        },
        vec![],
    )
}

/// How much memory a node holds, in the way a plan shows it.
fn memory(op: Operator) -> String {
    let columns = |linear: LinearComplexity| match linear {
        LinearComplexity::AllColumns => "Cols",
        LinearComplexity::AllColumnsFromLeft => "left_Cols",
        LinearComplexity::AllColumnsFromRight => "right_Cols",
        LinearComplexity::AllOutputColumns => "out_Cols",
    };
    match complexity_memory(&Plan::node(op, vec![leaf(), leaf()])) {
        Complexity::Constant(n) => format!("M({n})"),
        Complexity::Linear(linear) => format!("M({})", columns(linear)),
        Complexity::Plus(one, other) if one == other => format!("M((2*{}))", columns(one)),
        Complexity::Plus(one, other) => format!("M(({} + {}))", columns(one), columns(other)),
    }
}

fn aggregate(mode: AggregateMode, keys: &[&str]) -> Operator {
    let column = |name: &&str| Expr::Column { name: name.to_string(), index: 0 };
    Operator::Aggregate {
        mode,
        group_by: GroupBy {
            exprs: keys.iter().map(|key| (column(key), key.to_string())).collect(),
            null_exprs: vec![],
            groups: Arc::new(vec![]),
            has_grouping_set: false,
        },
        aggregates: Arc::new(vec![]),
        filters: Arc::new(vec![]),
        input_schema: Arc::new(Schema { fields: vec![], metadata: vec![] }),
    }
}

#[test]
fn hash_join_buffers_build_side() {
    let join = Operator::HashJoin {
        mode: PartitionMode::CollectLeft,
        join_type: JoinType::Inner,
        null_aware: false,
        left_keys: Arc::new(vec![]),
        right_keys: Arc::new(vec![]),
    };
    assert_eq!(memory(join), "M(left_Cols)");
    assert_eq!(memory(Operator::Union), "M(0)");
}

#[test]
fn cross_and_nested_loop_join_buffer_build_side() {
    assert_eq!(memory(Operator::CrossJoin), "M(left_Cols)");
    let nested = Operator::NestedLoopJoin { join_type: JoinType::Inner, has_projection: false };
    assert_eq!(memory(nested), "M(left_Cols)");
}

#[test]
fn sort_buffers_input() {
    let sort = Operator::Sort { fetch: None, preserve_partitioning: false };
    assert_eq!(memory(sort), "M((2*Cols))");
}

#[test]
fn topk_sort_buffers_output() {
    let topk = Operator::Sort { fetch: Some(10), preserve_partitioning: false };
    assert_eq!(memory(topk), "M(out_Cols)");
}

#[test]
fn aggregate_memory_tracks_group_state() {
    assert_eq!(memory(aggregate(AggregateMode::Single, &["RainToday"])), "M(out_Cols)");
    assert_eq!(memory(aggregate(AggregateMode::Final, &[])), "M(1)");
    assert_eq!(memory(aggregate(AggregateMode::Partial, &[])), "M(1)");
    assert_eq!(memory(Operator::CoalescePartitions { fetch: None }), "M(0)");
    let round_robin = Partitioning::RoundRobinBatch(4);
    assert_eq!(memory(Operator::Repartition { partitioning: round_robin }), "M(0)");
}

#[test]
fn window_memory_distinguishes_unbounded_and_bounded() {
    assert_eq!(memory(Operator::WindowAgg), "M(Cols)");
    assert_eq!(memory(Operator::BoundedWindowAgg), "M(1)");
}

#[test]
fn other_operators_hold_what_they_replay_or_nothing() {
    assert_eq!(memory(Operator::Broadcast { consumer_tasks: 3 }), "M(out_Cols)");
    assert_eq!(memory(Operator::SymmetricHashJoin), "M((left_Cols + right_Cols))");
    assert_eq!(memory(Operator::SortMergeJoin), "M(0)");
    assert_eq!(memory(Operator::SortPreservingMerge), "M(0)");
}

#[test]
fn rows_come_from_the_inputs_where_a_node_does_not_say() {
    let rows = |own, inputs| estimate_rows(own, &inputs).unwrap();
    let inputs = || vec![Precision::Exact(3), Precision::Absent, Precision::Inexact(4)];
    assert_eq!(rows(Precision::Absent, inputs()), Precision::Inexact(7));
    assert_eq!(rows(Precision::Exact(1), inputs()), Precision::Exact(1));
    assert_eq!(rows(Precision::Absent, vec![]), Precision::Absent);
    assert_eq!(rows(Precision::Absent, vec![Precision::Absent]), Precision::Absent);
    let huge = vec![Precision::Exact(usize::MAX), Precision::Exact(1)];
    let error = estimate_rows(Precision::Absent, &huge).unwrap_err();
    assert_eq!(error.kind, ErrorKind::StatisticsOverflow);
}

fn unknown_column() -> ColumnStatistics {
    ColumnStatistics {
        null_count: Precision::Absent,
        distinct_count: Precision::Absent,
        byte_size: Precision::Absent,
    }
}

#[test]
fn missing_statistics_are_filled_in() {
    let stats = Statistics {
        num_rows: Precision::Exact(10),
        total_byte_size: Precision::Absent,
        column_statistics: vec![
            unknown_column(),
            ColumnStatistics {
                null_count: Precision::Exact(2),
                distinct_count: Precision::Exact(7),
                byte_size: Precision::Exact(5),
            },
        ],
    };
    let filled = plan_statistics(&stats, &vec![], &vec![8, 4], 5, "schema").unwrap();
    assert_eq!(filled.num_rows, Precision::Exact(10));
    assert_eq!(filled.column_statistics[0].distinct_count, Precision::Inexact(5));
    assert_eq!(filled.column_statistics[0].byte_size, Precision::Inexact(80));
    assert_eq!(filled.column_statistics[0].null_count, Precision::Absent);
    assert_eq!(filled.column_statistics[1], stats.column_statistics[1]);
    assert_eq!(filled.total_byte_size, Precision::Inexact(85));

    // What was filled in stays.
    let again = plan_statistics(&filled, &vec![], &vec![8, 4], 5, "schema").unwrap();
    assert_eq!(format!("{again:?}"), format!("{filled:?}"));
}

#[test]
fn columns_stay_unknown_without_rows() {
    let stats = Statistics {
        num_rows: Precision::Absent,
        total_byte_size: Precision::Absent,
        column_statistics: vec![unknown_column()],
    };
    let filled = plan_statistics(&stats, &vec![], &vec![], 5, "schema").unwrap();
    assert_eq!(filled.column_statistics, vec![unknown_column()]);
    assert_eq!(filled.total_byte_size, Precision::Inexact(0));
}

#[test]
fn columns_without_a_field_are_an_error() {
    let stats = Statistics {
        num_rows: Precision::Exact(1),
        total_byte_size: Precision::Absent,
        column_statistics: vec![unknown_column(), unknown_column()],
    };
    let error = plan_statistics(&stats, &vec![], &vec![8], 5, "Schema { fields: [a] }").unwrap_err();
    assert_eq!(error.kind, ErrorKind::MissingField { index: 1 });
    assert_eq!(
        error.message(),
        "Field with index 1 not present in schema: Schema { fields: [a] }"
    );
}

#[test]
fn vectors_are_combined_element_by_element() {
    assert_eq!(element_wise_sum(&vec![1, 2], &vec![10, 20]).unwrap(), vec![11, 22]);
    assert_eq!(
        element_wise_sum(&vec![1], &vec![]).unwrap_err().kind,
        ErrorKind::LengthMismatch
    );
    assert_eq!(
        element_wise_sum(&vec![usize::MAX], &vec![1]).unwrap_err().kind,
        ErrorKind::StatisticsOverflow
    );
    assert_eq!(vec_mul(&vec![1, 2, 3], 4).unwrap(), vec![4, 8, 12]);
    assert_eq!(vec_mul(&vec![usize::MAX], 2).unwrap_err().kind, ErrorKind::StatisticsOverflow);
    assert_eq!(vec_div(&vec![9, 10, 11], 5), vec![1, 2, 2]);
    assert_eq!(vec_cast(&vec![7, 8]), vec![7usize, 8]);
    assert_eq!(checked_total(&vec![1, 2, 3]), Some(6));
    assert_eq!(checked_total(&vec![usize::MAX, 1]), None);
}

fn load(rows_ready: u64, rows_per_second: u64, ready: Vec<u64>, coming: Vec<u64>) -> LoadInfo {
    LoadInfo {
        rows_ready,
        rows_per_second,
        per_column_bytes_ready: ready,
        per_column_bytes_per_second: coming,
    }
}

#[test]
fn full_samples_count_every_row() {
    // One task of two partitions, both of which report.
    let mut sample = LoadSample::new(2, 2, 1, 9, 9).unwrap();
    assert!(sample.estimate().unwrap().is_none());
    assert!(!sample.observe(&load(10, 0, vec![80, 20], vec![0, 0])).unwrap());
    assert!(sample.observe(&load(30, 0, vec![240, 60], vec![0, 0])).unwrap());
    let estimate = sample.estimate().unwrap().unwrap();
    assert_eq!(estimate.num_rows, 40);
    assert_eq!(estimate.per_col_byte_size, vec![320, 80]);
    assert_eq!(estimate.total_byte_size, 400);
}

#[test]
fn partial_samples_are_extrapolated() {
    // Two of four partitions report, with a second of rows each still to come for ten seconds.
    let mut sample = LoadSample::new(1, 2, 2, 2, 2).unwrap();
    assert!(!sample.observe(&load(10, 1, vec![100], vec![10])).unwrap());
    assert!(sample.observe(&load(30, 3, vec![300], vec![30])).unwrap());
    let estimate = sample.estimate().unwrap().unwrap();
    assert_eq!(estimate.num_rows, (40 / 2) * 4 + (4 / 2) * 4 * 10);
    assert_eq!(estimate.per_col_byte_size, vec![(400 / 2) * 4 + (40 / 2) * 4 * 10]);
}

#[test]
fn reports_with_another_number_of_columns_are_refused() {
    let mut sample = LoadSample::new(2, 1, 2, 9, 9).unwrap();
    let error = sample.observe(&load(1, 1, vec![1], vec![1, 1])).unwrap_err();
    assert_eq!(error.kind, ErrorKind::LengthMismatch);
    assert_eq!(sample.partitions_done, 0);
}

#[test]
fn measured_loads_become_statistics() {
    let mut sample = LoadSample::new(2, 1, 1, 9, 9).unwrap();
    sample.observe(&load(10, 0, vec![80, 20], vec![0, 0])).unwrap();
    let estimate = sample.estimate().unwrap().unwrap();
    let stats = estimate.to_statistics(&vec![3, 4], &vec![0, 1]).unwrap();
    assert_eq!(stats.num_rows.get_value(), Some(10));
    assert_eq!(stats.total_byte_size.get_value(), Some(100));
    assert_eq!(stats.column_statistics[0].distinct_count.get_value(), Some(3));
    assert_eq!(stats.column_statistics[1].null_count.get_value(), Some(1));
    assert_eq!(stats.column_statistics[1].byte_size.get_value(), Some(20));
    let error = estimate.to_statistics(&vec![3], &vec![0, 1]).unwrap_err();
    assert_eq!(error.message(), "Expected 2 ndv values, but got 1");
    let error = estimate.to_statistics(&vec![3, 4], &vec![]).unwrap_err();
    assert_eq!(error.message(), "Expected 2 null values, but got 0");
}

#[test]
fn nothing_has_no_rows() {
    let stats = zero_stats(2);
    assert_eq!(stats.num_rows, Precision::Exact(0));
    assert_eq!(stats.total_byte_size, Precision::Exact(0));
    assert_eq!(stats.column_statistics.len(), 2);
    assert_eq!(stats.column_statistics[1].distinct_count, Precision::Exact(0));
}

#[test]
fn samples_start_at_the_sampler() {
    let eight = Plan::node(
        Operator::Other {
            name: "Leaf".to_string(),
            partitions: PartitionRule::Fixed(8),
        },
        vec![],
    );
    let sampler = Plan::node(Operator::Sampler, vec![eight]);
    let top = Plan::node(Operator::CoalescePartitions { fetch: None }, vec![sampler]);
    assert_eq!(find_sampler(&top).unwrap().op.name(), "SamplerExec");
    let sample = start_sample(&top, 1, 3, 5, 6).unwrap();
    assert_eq!(sample.total_partitions, 24);
    assert_eq!(sample.bytes_ready_target, 5);
    assert_eq!(sample.bytes_per_second_target, 6);
    assert!(find_sampler(&leaf()).is_none());
    let error = start_sample(&leaf(), 1, 3, 5, 6).unwrap_err();
    assert_eq!(error.kind, ErrorKind::MissingSampler);
}

#[test]
fn reports_are_read_until_they_are_enough() {
    let sampler = Plan::node(Operator::Sampler, vec![leaf()]);
    let reports = vec![
        load(10, 0, vec![80], vec![0]),
        load(30, 0, vec![240], vec![0]),
        load(50, 0, vec![400], vec![0]),
    ];
    // Six partitions in two tasks, and two of them with rows at hand are enough.
    let sample = gather_runtime_statistics(&sampler, 1, 2, 2, 2, &reports).unwrap();
    assert_eq!(sample.total_partitions, 6);
    assert_eq!(sample.partitions_done, 2);
    assert_eq!(sample.rows_ready, 40);
    assert_eq!(sample.per_col_bytes_ready, [320]);
    // Forty rows of two partitions stand for a hundred and twenty of six.
    let statistics = sample.to_statistics(1, &vec![7], &vec![0]).unwrap();
    assert_eq!(statistics.num_rows, Precision::Inexact(120));
    assert_eq!(statistics.total_byte_size, Precision::Inexact(960));
    assert_eq!(statistics.column_statistics[0].distinct_count, Precision::Inexact(7));
    let silent = gather_runtime_statistics(&sampler, 1, 2, 2, 2, &vec![]).unwrap();
    let statistics = silent.to_statistics(3, &vec![], &vec![]).unwrap();
    assert_eq!(statistics.num_rows, Precision::Exact(0));
    assert_eq!(statistics.column_statistics.len(), 3);
    let idle = vec![load(0, 0, vec![0], vec![0])];
    let idle = gather_runtime_statistics(&sampler, 1, 2, 2, 2, &idle).unwrap();
    let statistics = idle.to_statistics(3, &vec![], &vec![]).unwrap();
    assert_eq!(statistics.num_rows, Precision::Exact(0));
    assert_eq!(statistics.column_statistics.len(), 1);
    // With targets out of reach every report counts.
    let all = gather_runtime_statistics(&sampler, 1, 2, 9, 9, &reports).unwrap();
    assert_eq!(all.partitions_done, 3);
    assert_eq!(all.rows_ready, 90);
    let error = gather_runtime_statistics(&leaf(), 1, 2, 2, 2, &reports).unwrap_err();
    assert_eq!(error.kind, ErrorKind::MissingSampler);
    let error = gather_runtime_statistics(&sampler, 2, 2, 2, 2, &reports).unwrap_err();
    assert_eq!(error.kind, ErrorKind::LengthMismatch);
}

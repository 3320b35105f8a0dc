//! Estimates of the rows that a stage produces, from what its first partitions report.
use crate::error::{DistributedError, DistributedErrorView, ErrorKind};
use crate::plan::{Operator, Plan, PlanView};
use crate::query_coordinator::LoadInfo;
use crate::statistics::{ColumnStatistics, Precision, Statistics, StatisticsView};
use crate::vectors::{checked_total, element_wise_sum, vec_cast, vec_div, vec_mul};
use std::sync::Arc;
use vstd::prelude::*;

verus! {

/// For how many seconds a stage is taken to go on producing rows.
pub const ESTIMATED_QUERY_TIME_S: usize = 10;

/// What has been reported of the load of a stage.
#[derive(Debug)]
pub struct LoadSample {
    /// How many partitions the stage has in all its tasks.
    pub total_partitions: usize,
    /// How many partitions with rows at hand are enough.
    pub bytes_ready_target: usize,
    /// How many partitions with rows on their way are enough.
    pub bytes_per_second_target: usize,
    pub partitions_done: usize,
    pub partitions_with_bytes_ready: usize,
    pub partitions_with_bytes_per_second: usize,
    pub rows_ready: usize,
    pub rows_per_second: usize,
    pub per_col_bytes_ready: Vec<usize>,
    pub per_col_bytes_per_second: Vec<usize>,
}

/// The mathematical view of a [`LoadSample`].
#[verifier::ext_equal]
pub struct LoadSampleView {
    pub total_partitions: usize,
    pub bytes_ready_target: usize,
    pub bytes_per_second_target: usize,
    pub partitions_done: usize,
    pub partitions_with_bytes_ready: usize,
    pub partitions_with_bytes_per_second: usize,
    pub rows_ready: usize,
    pub rows_per_second: usize,
    pub per_col_bytes_ready: Seq<usize>,
    pub per_col_bytes_per_second: Seq<usize>,
}

impl View for LoadSample {
    type V = LoadSampleView;

    open spec fn view(&self) -> LoadSampleView {
        LoadSampleView {
            total_partitions: self.total_partitions,
            bytes_ready_target: self.bytes_ready_target,
            bytes_per_second_target: self.bytes_per_second_target,
            partitions_done: self.partitions_done,
            partitions_with_bytes_ready: self.partitions_with_bytes_ready,
            partitions_with_bytes_per_second: self.partitions_with_bytes_per_second,
            rows_ready: self.rows_ready,
            rows_per_second: self.rows_per_second,
            per_col_bytes_ready: self.per_col_bytes_ready@,
            per_col_bytes_per_second: self.per_col_bytes_per_second@,
        }
    }
}

/// Whether any of the numbers is positive.
pub open spec fn any_positive(numbers: Seq<u64>) -> bool {
    exists|i: int| 0 <= i < numbers.len() && #[trigger] numbers[i] > 0
}

/// The numbers in the width of the machine.
pub open spec fn machine_sized(numbers: Seq<u64>) -> Seq<usize> {
    numbers.map_values(|number: u64| number as usize)
}

/// One more, if the condition holds.
pub open spec fn one_if(condition: bool) -> int {
    if condition {
        1
    } else {
        0
    }
}

impl LoadSampleView {
    /// Whether the numbers that a report adds to still fit the machine.
    pub open spec fn has_room_for(self, info: LoadInfo) -> bool {
        &&& self.rows_ready + info.rows_ready as usize <= usize::MAX
        &&& self.rows_per_second + info.rows_per_second as usize <= usize::MAX
        &&& self.partitions_done + 1 <= usize::MAX
        &&& self.partitions_with_bytes_ready + crate::runtime_statistics::one_if(
            crate::runtime_statistics::any_positive(info.per_column_bytes_ready@),
        ) <= usize::MAX
        &&& self.partitions_with_bytes_per_second + crate::runtime_statistics::one_if(
            crate::runtime_statistics::any_positive(info.per_column_bytes_per_second@),
        ) <= usize::MAX
    }

    /// The sample with one more report.
    pub open spec fn observed(self, info: LoadInfo) -> Result<
        LoadSampleView,
        DistributedErrorView,
    > {
        let per_second = crate::vectors::element_sums(
            self.per_col_bytes_per_second,
            crate::runtime_statistics::machine_sized(info.per_column_bytes_per_second@),
        );
        let ready = crate::vectors::element_sums(
            self.per_col_bytes_ready,
            crate::runtime_statistics::machine_sized(info.per_column_bytes_ready@),
        );
        match (per_second, ready) {
            (Err(error), _) => Err(error),
            (_, Err(error)) => Err(error),
            (Ok(per_second), Ok(ready)) => if !self.has_room_for(info) {
                Err(ErrorKind::StatisticsOverflow.plain())
            } else {
                Ok(
                    LoadSampleView {
                        partitions_done: (self.partitions_done + 1) as usize,
                        partitions_with_bytes_ready: (self.partitions_with_bytes_ready
                            + crate::runtime_statistics::one_if(
                            crate::runtime_statistics::any_positive(info.per_column_bytes_ready@),
                        )) as usize,
                        partitions_with_bytes_per_second: (self.partitions_with_bytes_per_second
                            + crate::runtime_statistics::one_if(
                            crate::runtime_statistics::any_positive(
                                info.per_column_bytes_per_second@,
                            ),
                        )) as usize,
                        rows_ready: (self.rows_ready + info.rows_ready as usize) as usize,
                        rows_per_second: (self.rows_per_second
                            + info.rows_per_second as usize) as usize,
                        per_col_bytes_ready: ready,
                        per_col_bytes_per_second: per_second,
                        ..self
                    },
                )
            },
        }
    }

    /// Whether no more reports are needed: enough partitions have rows at hand, or on their way,
    /// or all of them have reported. One partition is always needed.
    pub open spec fn is_enough(self) -> bool {
        ||| self.partitions_with_bytes_ready >= crate::task_count::max_of(
            self.bytes_ready_target,
            1,
        )
        ||| self.partitions_with_bytes_per_second >= crate::task_count::max_of(
            self.bytes_per_second_target,
            1,
        )
        ||| self.partitions_done == self.total_partitions
    }

    /// A number of the partitions that have reported, extended to all partitions.
    pub open spec fn extended(self, number: usize) -> int {
        number * self.total_partitions / self.partitions_done as int
    }

    /// The rows that the stage is taken to produce.
    pub open spec fn row_count(self) -> int {
        self.extended(self.rows_ready) + self.extended(self.rows_per_second)
            * ESTIMATED_QUERY_TIME_S
    }

    /// Whether the rows that the stage is taken to produce can be counted.
    pub open spec fn rows_fit(self) -> bool {
        &&& self.rows_ready * self.total_partitions <= usize::MAX
        &&& self.rows_per_second * self.total_partitions <= usize::MAX
        &&& self.row_count() <= usize::MAX
    }

    /// The bytes of the columns of the partitions that have reported, extended to all partitions.
    pub open spec fn extended_columns(self, columns: Seq<usize>) -> Result<
        Seq<usize>,
        DistributedErrorView,
    > {
        match crate::vectors::element_products(columns, self.total_partitions) {
            Err(error) => Err(error),
            Ok(products) => Ok(crate::vectors::element_quotients(products, self.partitions_done)),
        }
    }

    /// What the stage is taken to produce. `None` stands for nothing at all.
    pub open spec fn estimate(self) -> Result<Option<LoadEstimateView>, DistributedErrorView> {
        if self.partitions_done == 0 {
            Ok(None)
        } else {
            match (
                self.extended_columns(self.per_col_bytes_ready),
                self.extended_columns(self.per_col_bytes_per_second),
            ) {
                (Err(error), _) => Err(error),
                (_, Err(error)) => Err(error),
                (Ok(ready), Ok(per_second)) => if !self.rows_fit() {
                    Err(ErrorKind::StatisticsOverflow.plain())
                } else if self.row_count() == 0 {
                    Ok(None)
                } else {
                    self.sized(
                        ready,
                        crate::vectors::element_products(per_second, ESTIMATED_QUERY_TIME_S),
                    )
                },
            }
        }
    }

    /// The estimate for columns with these bytes at hand and on their way.
    pub open spec fn sized(
        self,
        ready: Seq<usize>,
        coming: Result<Seq<usize>, DistributedErrorView>,
    ) -> Result<Option<LoadEstimateView>, DistributedErrorView> {
        match coming {
            Err(error) => Err(error),
            Ok(coming) => match crate::vectors::element_sums(ready, coming) {
                Err(error) => Err(error),
                Ok(bytes) => if crate::vectors::total(bytes) > usize::MAX {
                    Err(ErrorKind::StatisticsOverflow.plain())
                } else {
                    Ok(
                        Some(
                            LoadEstimateView {
                                num_rows: self.row_count() as usize,
                                total_byte_size: crate::vectors::total(bytes) as usize,
                                per_col_byte_size: bytes,
                            },
                        ),
                    )
                },
            },
        }
    }
}

/// What a stage is taken to produce.
#[derive(Debug)]
pub struct LoadEstimate {
    pub num_rows: usize,
    pub total_byte_size: usize,
    pub per_col_byte_size: Vec<usize>,
}

/// The mathematical view of a [`LoadEstimate`].
#[verifier::ext_equal]
pub struct LoadEstimateView {
    pub num_rows: usize,
    pub total_byte_size: usize,
    pub per_col_byte_size: Seq<usize>,
}

impl View for LoadEstimate {
    type V = LoadEstimateView;

    open spec fn view(&self) -> LoadEstimateView {
        LoadEstimateView {
            num_rows: self.num_rows,
            total_byte_size: self.total_byte_size,
            per_col_byte_size: self.per_col_byte_size@,
        }
    }
}

/// The outcome of an estimate.
pub open spec fn estimate_outcome(result: Result<Option<LoadEstimate>, DistributedError>) -> Result<
    Option<LoadEstimateView>,
    DistributedErrorView,
> {
    match result {
        Ok(Some(estimate)) => Ok(Some(estimate@)),
        Ok(None) => Ok(None),
        Err(error) => Err(error@),
    }
}

/// A list of zeros.
pub open spec fn zeros(len: usize) -> Seq<usize> {
    Seq::new(len as nat, |i: int| 0usize)
}

fn zero_vector(len: usize) -> (result: Vec<usize>)
    ensures
        result@ =~= zeros(len),
{
    let mut result: Vec<usize> = Vec::new();
    let mut i: usize = 0;
    while i < len
        invariant
            0 <= i <= len,
            result@ =~= zeros(i),
        decreases len - i,
    {
        result.push(0);
        i += 1;
    }
    result
}

fn is_any_positive(numbers: &Vec<u64>) -> (result: bool)
    ensures
        result == any_positive(numbers@),
{
    let mut i: usize = 0;
    while i < numbers.len()
        invariant
            0 <= i <= numbers@.len(),
            forall|j: int| 0 <= j < i ==> #[trigger] numbers@[j] == 0,
        decreases numbers@.len() - i,
    {
        if numbers[i] > 0 {
            return true;
        }
        i += 1;
    }
    false
}

fn at_least_one(number: usize) -> (result: usize)
    ensures
        result == crate::task_count::max_of(number, 1),
{
    if number <= 1 {
        1
    } else {
        number
    }
}

fn overflow() -> (result: DistributedError)
    ensures
        result@ == ErrorKind::StatisticsOverflow.plain(),
{
    DistributedError::new(ErrorKind::StatisticsOverflow)
}

fn sum(one: usize, other: usize) -> (result: Result<usize, DistributedError>)
    ensures
        one + other <= usize::MAX ==> result == Ok::<usize, DistributedError>(
            (one + other) as usize,
        ),
        one + other > usize::MAX ==> (result matches Err(error) && error@
            == ErrorKind::StatisticsOverflow.plain()),
{
    match one.checked_add(other) {
        Some(sum) => Ok(sum),
        None => Err(overflow()),
    }
}

fn product(one: usize, other: usize) -> (result: Result<usize, DistributedError>)
    ensures
        one * other <= usize::MAX ==> result == Ok::<usize, DistributedError>(
            (one * other) as usize,
        ),
        one * other > usize::MAX ==> (result matches Err(error) && error@
            == ErrorKind::StatisticsOverflow.plain()),
{
    match one.checked_mul(other) {
        Some(product) => Ok(product),
        None => Err(overflow()),
    }
}

impl LoadSample {
    /// A sample of a stage of `task_count` tasks with `partitions_per_task` partitions each, which
    /// produces `n_cols` columns. The targets say how many partitions are enough.
    pub fn new(
        n_cols: usize,
        partitions_per_task: usize,
        task_count: usize,
        bytes_ready_target: usize,
        bytes_per_second_target: usize,
    ) -> (result: Result<LoadSample, DistributedError>)
        ensures
            match result {
                Ok(sample) => partitions_per_task * task_count <= usize::MAX && sample@ == (
                LoadSampleView {
                    total_partitions: (partitions_per_task * task_count) as usize,
                    bytes_ready_target,
                    bytes_per_second_target,
                    partitions_done: 0,
                    partitions_with_bytes_ready: 0,
                    partitions_with_bytes_per_second: 0,
                    rows_ready: 0,
                    rows_per_second: 0,
                    per_col_bytes_ready: zeros(n_cols),
                    per_col_bytes_per_second: zeros(n_cols),
                }),
                Err(error) => partitions_per_task * task_count > usize::MAX && error@
                    == ErrorKind::StatisticsOverflow.plain(),
            },
    {
        let total_partitions: usize = product(partitions_per_task, task_count)?;
        Ok(
            LoadSample {
                total_partitions,
                bytes_ready_target,
                bytes_per_second_target,
                partitions_done: 0,
                partitions_with_bytes_ready: 0,
                partitions_with_bytes_per_second: 0,
                rows_ready: 0,
                rows_per_second: 0,
                per_col_bytes_ready: zero_vector(n_cols),
                per_col_bytes_per_second: zero_vector(n_cols),
            },
        )
    }

    /// Takes the report of one more partition, and tells whether no more are needed. A report that
    /// cannot be added leaves the sample as it is.
    pub fn observe(&mut self, info: &LoadInfo) -> (result: Result<bool, DistributedError>)
        ensures
            match old(self)@.observed(*info) {
                Ok(sample) => final(self)@ == sample && (result matches Ok(enough) && enough
                    == sample.is_enough()),
                Err(error) => final(self)@ == old(self)@ && (result matches Err(failed)
                    && failed@ == error),
            },
    {
        let per_second = element_wise_sum(
            &self.per_col_bytes_per_second,
            &vec_cast(&info.per_column_bytes_per_second),
        )?;
        let ready = element_wise_sum(
            &self.per_col_bytes_ready,
            &vec_cast(&info.per_column_bytes_ready),
        )?;
        let rows_per_second: usize = sum(self.rows_per_second, info.rows_per_second as usize)?;
        let rows_ready: usize = sum(self.rows_ready, info.rows_ready as usize)?;
        let one_per_second: usize = if is_any_positive(&info.per_column_bytes_per_second) {
            1
        } else {
            0
        };
        let one_ready: usize = if is_any_positive(&info.per_column_bytes_ready) {
            1
        } else {
            0
        };
        let with_per_second: usize = sum(self.partitions_with_bytes_per_second, one_per_second)?;
        let with_ready: usize = sum(self.partitions_with_bytes_ready, one_ready)?;
        let done: usize = sum(self.partitions_done, 1)?;
        self.rows_per_second = rows_per_second;
        self.rows_ready = rows_ready;
        self.per_col_bytes_per_second = per_second;
        self.per_col_bytes_ready = ready;
        self.partitions_with_bytes_per_second = with_per_second;
        self.partitions_with_bytes_ready = with_ready;
        self.partitions_done = done;
        Ok(
            with_ready >= at_least_one(self.bytes_ready_target) || with_per_second >= at_least_one(
                self.bytes_per_second_target,
            ) || done == self.total_partitions,
        )
    }

    /// What the stage is taken to produce: what the partitions that have reported have at hand,
    /// and what they produce in the time that a query is taken to run, extended to all partitions.
    pub fn estimate(&self) -> (result: Result<Option<LoadEstimate>, DistributedError>)
        ensures
            estimate_outcome(result) == self@.estimate(),
    {
        if self.partitions_done == 0 {
            return Ok(None);
        }
        let ready = vec_div(
            &vec_mul(&self.per_col_bytes_ready, self.total_partitions)?,
            self.partitions_done,
        );
        let per_second = vec_div(
            &vec_mul(&self.per_col_bytes_per_second, self.total_partitions)?,
            self.partitions_done,
        );
        let rows_ready: usize = product(self.rows_ready, self.total_partitions)?
            / self.partitions_done;
        let rows_per_second: usize = product(self.rows_per_second, self.total_partitions)?
            / self.partitions_done;
        let num_rows: usize = sum(rows_ready, product(rows_per_second, ESTIMATED_QUERY_TIME_S)?)?;
        if num_rows == 0 {
            return Ok(None);
        }
        let per_col_byte_size = element_wise_sum(
            &ready,
            &vec_mul(&per_second, ESTIMATED_QUERY_TIME_S)?,
        )?;
        let total_byte_size: usize = match checked_total(&per_col_byte_size) {
            Some(total) => total,
            None => {
                return Err(overflow());
            },
        };
        Ok(Some(LoadEstimate { num_rows, total_byte_size, per_col_byte_size }))
    }
}

/// The statistics of a stage that produces nothing.
pub open spec fn nothing(n_cols: usize) -> StatisticsView {
    StatisticsView {
        num_rows: Precision::Exact(0),
        total_byte_size: Precision::Exact(0),
        column_statistics: Seq::new(
            n_cols as nat,
            |i: int|
                ColumnStatistics {
                    null_count: Precision::Exact(0),
                    distinct_count: Precision::Exact(0),
                    byte_size: Precision::Exact(0),
                },
        ),
    }
}

/// The statistics of a stage that produces nothing.
pub fn zero_stats(n_cols: usize) -> (result: Statistics)
    ensures
        result@ =~= nothing(n_cols),
{
    let zero = ColumnStatistics {
        null_count: Precision::Exact(0),
        distinct_count: Precision::Exact(0),
        byte_size: Precision::Exact(0),
    };
    let mut column_statistics: Vec<ColumnStatistics> = Vec::new();
    let mut i: usize = 0;
    while i < n_cols
        invariant
            0 <= i <= n_cols,
            zero == (ColumnStatistics {
                null_count: Precision::Exact(0),
                distinct_count: Precision::Exact(0),
                byte_size: Precision::Exact(0),
            }),
            column_statistics@ =~= nothing(i).column_statistics,
        decreases n_cols - i,
    {
        column_statistics.push(zero);
        i += 1;
    }
    Statistics {
        num_rows: Precision::Exact(0),
        total_byte_size: Precision::Exact(0),
        column_statistics,
    }
}

impl LoadEstimateView {
    /// The estimate with the numbers of distinct values and of nulls of each column.
    pub open spec fn statistics(self, distinct_counts: Seq<usize>, null_counts: Seq<usize>) -> Result<
        StatisticsView,
        DistributedErrorView,
    > {
        let n_cols = self.per_col_byte_size.len();
        if distinct_counts.len() != n_cols {
            Err(
                (ErrorKind::DistinctCounts {
                    expected: n_cols as usize,
                    got: distinct_counts.len() as usize,
                }).plain(),
            )
        } else if null_counts.len() != n_cols {
            Err(
                (ErrorKind::NullCounts {
                    expected: n_cols as usize,
                    got: null_counts.len() as usize,
                }).plain(),
            )
        } else {
            Ok(
                StatisticsView {
                    num_rows: Precision::Inexact(self.num_rows),
                    total_byte_size: Precision::Inexact(self.total_byte_size),
                    column_statistics: Seq::new(
                        n_cols,
                        |i: int|
                            ColumnStatistics {
                                null_count: Precision::Inexact(null_counts[i]),
                                distinct_count: Precision::Inexact(distinct_counts[i]),
                                byte_size: Precision::Inexact(self.per_col_byte_size[i]),
                            },
                    ),
                },
            )
        }
    }
}

impl LoadEstimate {
    /// The estimate with the numbers of distinct values and of nulls of each column.
    pub fn to_statistics(&self, distinct_counts: &Vec<usize>, null_counts: &Vec<usize>) -> (result:
        Result<Statistics, DistributedError>)
        ensures
            crate::error::viewed(result) == self@.statistics(distinct_counts@, null_counts@),
    {
        let n_cols: usize = self.per_col_byte_size.len();
        if distinct_counts.len() != n_cols {
            return Err(
                DistributedError::new(
                    ErrorKind::DistinctCounts { expected: n_cols, got: distinct_counts.len() },
                ),
            );
        }
        if null_counts.len() != n_cols {
            return Err(
                DistributedError::new(
                    ErrorKind::NullCounts { expected: n_cols, got: null_counts.len() },
                ),
            );
        }
        let ghost due = self@.statistics(distinct_counts@, null_counts@)->Ok_0.column_statistics;
        let mut column_statistics: Vec<ColumnStatistics> = Vec::new();
        let mut i: usize = 0;
        while i < n_cols
            invariant
                0 <= i <= n_cols,
                n_cols == self.per_col_byte_size@.len(),
                n_cols == distinct_counts@.len(),
                n_cols == null_counts@.len(),
                due == self@.statistics(distinct_counts@, null_counts@)->Ok_0.column_statistics,
                column_statistics@ =~= due.take(i as int),
            decreases n_cols - i,
        {
            column_statistics.push(
                ColumnStatistics {
                    null_count: Precision::Inexact(null_counts[i]),
                    distinct_count: Precision::Inexact(distinct_counts[i]),
                    byte_size: Precision::Inexact(self.per_col_byte_size[i]),
                },
            );
            i += 1;
        }
        proof {
            assert(due.take(i as int) =~= due);
        }
        Ok(
            Statistics {
                num_rows: Precision::Inexact(self.num_rows),
                total_byte_size: Precision::Inexact(self.total_byte_size),
                column_statistics,
            },
        )
    }
}

impl LoadSampleView {
    /// The statistics of the stage. Where nothing was reported, they speak of `n_fields` columns.
    pub open spec fn statistics(
        self,
        n_fields: usize,
        distinct_counts: Seq<usize>,
        null_counts: Seq<usize>,
    ) -> Result<StatisticsView, DistributedErrorView> {
        match self.estimate() {
            Err(error) => Err(error),
            Ok(Some(estimate)) => estimate.statistics(distinct_counts, null_counts),
            Ok(None) => if self.partitions_done == 0 {
                Ok(nothing(n_fields))
            } else {
                Ok(nothing(self.per_col_bytes_ready.len() as usize))
            },
        }
    }
}

impl LoadSample {
    /// The statistics of a stage that produces `n_fields` columns, with the numbers of distinct
    /// values and of nulls of each column. A stage that reports no rows has neither.
    pub fn to_statistics(
        &self,
        n_fields: usize,
        distinct_counts: &Vec<usize>,
        null_counts: &Vec<usize>,
    ) -> (result: Result<Statistics, DistributedError>)
        ensures
            crate::error::viewed(result) == self@.statistics(
                n_fields,
                distinct_counts@,
                null_counts@,
            ),
    {
        match self.estimate()? {
            Some(estimate) => estimate.to_statistics(distinct_counts, null_counts),
            None => if self.partitions_done == 0 {
                Ok(zero_stats(n_fields))
            } else {
                Ok(zero_stats(self.per_col_bytes_ready.len()))
            },
        }
    }
}

/// Where all partitions have reported, nothing is extended.
pub proof fn full_samples_are_exact(sample: LoadSampleView, number: usize)
    requires
        sample.partitions_done == sample.total_partitions,
        sample.partitions_done > 0,
    ensures
        sample.extended(number) == number,
{
    let done = sample.partitions_done as int;
    vstd::arithmetic::div_mod::lemma_div_multiples_vanish(number as int, done);
    assert(number * done == done * number) by (nonlinear_arith);
}

/// A sample never misses that all partitions have reported: the report of the last one ends it.
pub proof fn last_report_is_enough(sample: LoadSampleView, info: LoadInfo)
    requires
        sample.partitions_done + 1 == sample.total_partitions,
    ensures
        sample.observed(info) matches Ok(after) ==> after.is_enough(),
{
}

impl PlanView {
    /// The first node of the plan, in pre-order, that measures rows.
    pub open spec fn first_sampler(self) -> Option<PlanView>
        decreases self, 0nat,
    {
        if self.op is Sampler {
            Some(self)
        } else {
            crate::runtime_statistics::first_sampler_of(self.children)
        }
    }
}

/// The first node of the plans that measures rows.
pub open spec fn first_sampler_of(plans: Seq<PlanView>) -> Option<PlanView>
    decreases plans, 1nat,
{
    if plans.len() == 0 {
        None
    } else {
        match first_sampler_of(plans.drop_last()) {
            Some(sampler) => Some(sampler),
            None => plans.last().first_sampler(),
        }
    }
}

proof fn first_sampler_is_final(plans: Seq<PlanView>, upto: int)
    requires
        0 <= upto <= plans.len(),
        first_sampler_of(plans.take(upto)) is Some,
    ensures
        first_sampler_of(plans) == first_sampler_of(plans.take(upto)),
    decreases plans.len() - upto,
{
    if upto == plans.len() {
        assert(plans.take(upto) =~= plans);
    } else {
        assert(plans.take(upto + 1).drop_last() =~= plans.take(upto));
        first_sampler_is_final(plans, upto + 1);
    }
}

/// The first node of the plan, in pre-order, that measures rows.
pub fn find_sampler(plan: &Arc<Plan>) -> (result: Option<Arc<Plan>>)
    ensures
        match result {
            Some(sampler) => plan@.first_sampler() == Some(sampler@),
            None => plan@.first_sampler() is None,
        },
    decreases **plan,
{
    if let Operator::Sampler = &*plan.op {
        return Some(Arc::clone(plan));
    }
    let ghost all = plan@.children;
    let mut i: usize = 0;
    while i < plan.children.len()
        invariant
            0 <= i <= plan.children@.len(),
            all == plan@.children,
            all.len() == plan.children@.len(),
            plan@.first_sampler() == first_sampler_of(all),
            first_sampler_of(all.take(i as int)) is None,
        decreases plan.children@.len() - i,
    {
        proof {
            assert(all.take(i + 1).drop_last() =~= all.take(i as int));
            assert(all[i as int] == plan.children@[i as int]@);
        }
        let found = find_sampler(&plan.children[i]);
        if found.is_some() {
            proof {
                first_sampler_is_final(all, i + 1);
            }
            return found;
        }
        i += 1;
    }
    proof {
        assert(all.take(i as int) =~= all);
    }
    None
}

/// The sample that the load of a stage of `task_count` tasks starts from.
pub open spec fn blank_sample(
    plan: PlanView,
    n_cols: usize,
    task_count: usize,
    bytes_ready_target: usize,
    bytes_per_second_target: usize,
) -> Result<LoadSampleView, DistributedErrorView> {
    match plan.first_sampler() {
        None => Err(ErrorKind::MissingSampler.plain()),
        Some(sampler) => if sampler.partition_count() > usize::MAX {
            Err(ErrorKind::PartitionCountOverflow.plain())
        } else if sampler.partition_count() * task_count as nat > usize::MAX {
            Err(ErrorKind::StatisticsOverflow.plain())
        } else {
            Ok(
                LoadSampleView {
                    total_partitions: (sampler.partition_count() * task_count as nat) as usize,
                    bytes_ready_target,
                    bytes_per_second_target,
                    partitions_done: 0,
                    partitions_with_bytes_ready: 0,
                    partitions_with_bytes_per_second: 0,
                    rows_ready: 0,
                    rows_per_second: 0,
                    per_col_bytes_ready: zeros(n_cols),
                    per_col_bytes_per_second: zeros(n_cols),
                },
            )
        },
    }
}

/// The sample that the load of a stage of `task_count` tasks starts from. Its plan must hold a node
/// that measures rows, each partition of which reports.
pub fn start_sample(
    plan: &Arc<Plan>,
    n_cols: usize,
    task_count: usize,
    bytes_ready_target: usize,
    bytes_per_second_target: usize,
) -> (result: Result<LoadSample, DistributedError>)
    ensures
        crate::error::viewed(result) == blank_sample(
            plan@,
            n_cols,
            task_count,
            bytes_ready_target,
            bytes_per_second_target,
        ),
{
    let sampler = match find_sampler(plan) {
        Some(sampler) => sampler,
        None => {
            return Err(DistributedError::new(ErrorKind::MissingSampler));
        },
    };
    LoadSample::new(
        n_cols,
        sampler.partition_count()?,
        task_count,
        bytes_ready_target,
        bytes_per_second_target,
    )
}

/// A sample with the reports of several partitions, taken in order until no more are needed.
pub open spec fn gathered(sample: LoadSampleView, reports: Seq<LoadInfo>) -> Result<
    LoadSampleView,
    DistributedErrorView,
>
    decreases reports.len(),
{
    if reports.len() == 0 {
        Ok(sample)
    } else {
        match sample.observed(reports[0]) {
            Err(error) => Err(error),
            Ok(next) => if next.is_enough() {
                Ok(next)
            } else {
                gathered(next, reports.drop_first())
            },
        }
    }
}

/// Measures the load of a stage of `task_count` tasks by the reports that came in, in the order in
/// which they did. Reports that come when no more are needed are not looked at.
pub fn gather_runtime_statistics(
    plan: &Arc<Plan>,
    n_cols: usize,
    task_count: usize,
    bytes_ready_target: usize,
    bytes_per_second_target: usize,
    reports: &Vec<LoadInfo>,
) -> (result: Result<LoadSample, DistributedError>)
    ensures
        crate::error::viewed(result) == match blank_sample(
            plan@,
            n_cols,
            task_count,
            bytes_ready_target,
            bytes_per_second_target,
        ) {
            Ok(sample) => gathered(sample, reports@),
            Err(error) => Err(error),
        },
{
    let mut sample = start_sample(
        plan,
        n_cols,
        task_count,
        bytes_ready_target,
        bytes_per_second_target,
    )?;
    let ghost due = gathered(sample@, reports@);
    let mut i: usize = 0;
    let mut enough = false;
    proof {
        assert(reports@.skip(0) =~= reports@);
    }
    while i < reports.len() && !enough
        invariant
            0 <= i <= reports@.len(),
            enough ==> due == Ok::<_, DistributedErrorView>(sample@),
            !enough ==> due == gathered(sample@, reports@.skip(i as int)),
            blank_sample(plan@, n_cols, task_count, bytes_ready_target, bytes_per_second_target)
                is Ok,
            due == gathered(
                blank_sample(
                    plan@,
                    n_cols,
                    task_count,
                    bytes_ready_target,
                    bytes_per_second_target,
                )->Ok_0,
                reports@,
            ),
        decreases reports@.len() - i,
    {
        proof {
            assert(reports@.skip(i as int)[0] == reports@[i as int]);
            assert(reports@.skip(i as int).drop_first() =~= reports@.skip(i + 1));
        }
        enough = sample.observe(&reports[i])?;
        i += 1;
    }
    Ok(sample)
}

/// Once enough partitions have reported, later reports change nothing.
pub proof fn later_reports_do_not_matter(
    sample: LoadSampleView,
    reports: Seq<LoadInfo>,
    more: Seq<LoadInfo>,
)
    requires
        gathered(sample, reports) matches Ok(after) && after.is_enough(),
        reports.len() > 0,
    ensures
        gathered(sample, reports + more) == gathered(sample, reports),
    decreases reports.len(),
{
    assert((reports + more)[0] == reports[0]);
    assert((reports + more).drop_first() =~= reports.drop_first() + more);
    if let Ok(next) = sample.observed(reports[0]) {
        if !next.is_enough() {
            later_reports_do_not_matter(next, reports.drop_first(), more);
        }
    }
}

} // verus!

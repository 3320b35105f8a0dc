//! What estimates and measurements come to, told in numbers without bounds.
use crate::error::ErrorKind;
use crate::plan::{OperatorView, PartitionRule, PlanView};
use crate::query_coordinator::LoadInfo;
use crate::runtime_statistics::{LoadEstimateView, LoadSampleView};
use crate::statistics::{ColumnStatistics, Complexity, LinearComplexity, Precision, StatisticsView};
use vstd::prelude::*;

verus! {

/// The sum of some numbers.
pub open spec fn sum_of(numbers: Seq<usize>) -> int {
    numbers.fold_left(0int, |sum: int, number: usize| sum + number)
}

proof fn totals_are_sums(numbers: Seq<usize>)
    ensures
        crate::vectors::total(numbers) == sum_of(numbers),
    decreases numbers.len(),
{
    if numbers.len() > 0 {
        totals_are_sums(numbers.drop_last());
    }
}

/// Vectors are added and multiplied element by element. Where the lengths differ, or a number gets
/// too large, that fails.
pub proof fn vectors_are_combined_by_elements(one: Seq<usize>, other: Seq<usize>, by: usize)
    ensures
        match crate::vectors::element_sums(one, other) {
            Ok(sums) => one.len() == other.len() == sums.len() && forall|i: int|
                0 <= i < sums.len() ==> (#[trigger] sums[i]) as int == one[i] + other[i],
            Err(error) => if one.len() != other.len() {
                error == ErrorKind::LengthMismatch.plain()
            } else {
                error == ErrorKind::StatisticsOverflow.plain() && exists|i: int|
                    0 <= i < one.len() && (#[trigger] one[i]) + other[i] > usize::MAX
            },
        },
        match crate::vectors::element_products(one, by) {
            Ok(products) => products.len() == one.len() && forall|i: int|
                0 <= i < products.len() ==> (#[trigger] products[i]) as int == one[i] * by,
            Err(error) => error == ErrorKind::StatisticsOverflow.plain() && exists|i: int|
                0 <= i < one.len() && (#[trigger] one[i]) * by > usize::MAX,
        },
        by > 0 ==> crate::vectors::element_quotients(one, by).len() == one.len() && forall|i: int|
            0 <= i < one.len() ==> ({
                let quotient = #[trigger] crate::vectors::element_quotients(one, by)[i] as int;
                quotient * by <= one[i] < (quotient + 1) * by
            }),
{
    if one.len() == other.len() {
        let sums = Seq::new(one.len(), |i: int| one[i] + other[i]);
        if !crate::vectors::fit(sums) {
            let i = choose|i: int|
                0 <= i < sums.len() && !(0 <= #[trigger] sums[i] <= usize::MAX);
            assert(one[i] + other[i] > usize::MAX);
        }
    }
    let products = Seq::new(one.len(), |i: int| one[i] * by);
    if !crate::vectors::fit(products) {
        let i = choose|i: int|
            0 <= i < products.len() && !(0 <= #[trigger] products[i] <= usize::MAX);
        assert(one[i] * by >= 0) by (nonlinear_arith);
        assert(one[i] * by > usize::MAX);
    }
    if by > 0 {
        assert forall|i: int| 0 <= i < one.len() implies ({
            let quotient = #[trigger] crate::vectors::element_quotients(one, by)[i] as int;
            quotient * by <= one[i] < (quotient + 1) * by
        }) by {
            quotients_round_down(one[i] as int, by as int);
        }
    }
}

proof fn quotients_round_down(a: int, b: int)
    requires
        b > 0,
    ensures
        (a / b) * b <= a < (a / b + 1) * b,
{
    vstd::arithmetic::div_mod::lemma_fundamental_div_mod(a, b);
    vstd::arithmetic::div_mod::lemma_mod_bound(a, b);
    let q = a / b;
    assert(q * b <= a < (q + 1) * b) by (nonlinear_arith)
        requires
            a == b * q + a % b,
            0 <= a % b < b,
    ;
}

/// Whether a number of the partitions that have reported was extended to all partitions: it is to
/// all partitions what the number is to those that have reported, rounded down.
pub open spec fn is_extended(extended: int, number: int, sample: LoadSampleView) -> bool {
    extended * sample.partitions_done <= number * sample.total_partitions < (extended + 1)
        * sample.partitions_done
}

/// A report adds its rows and bytes to a sample, and counts as one more partition. It counts among
/// those with rows at hand, or on their way, if it tells of bytes of any column.
pub proof fn reports_add_up(sample: LoadSampleView, info: LoadInfo)
    ensures
        sample.observed(info) matches Ok(after) ==> {
            &&& after.partitions_done == sample.partitions_done + 1
            &&& after.total_partitions == sample.total_partitions
            &&& after.bytes_ready_target == sample.bytes_ready_target
            &&& after.bytes_per_second_target == sample.bytes_per_second_target
            &&& after.rows_ready == sample.rows_ready + info.rows_ready as usize
            &&& after.rows_per_second == sample.rows_per_second + info.rows_per_second as usize
            &&& after.partitions_with_bytes_ready - sample.partitions_with_bytes_ready == (
            if exists|i: int|
                0 <= i < info.per_column_bytes_ready@.len() && (
                #[trigger] info.per_column_bytes_ready@[i]) != 0 {
                1int
            } else {
                0int
            })
            &&& after.partitions_with_bytes_per_second - sample.partitions_with_bytes_per_second == (
            if exists|i: int|
                0 <= i < info.per_column_bytes_per_second@.len() && (
                #[trigger] info.per_column_bytes_per_second@[i]) != 0 {
                1int
            } else {
                0int
            })
            &&& after.per_col_bytes_ready.len() == sample.per_col_bytes_ready.len()
                == info.per_column_bytes_ready@.len()
            &&& forall|i: int|
                0 <= i < after.per_col_bytes_ready.len() ==> (
                #[trigger] after.per_col_bytes_ready[i]) as int == sample.per_col_bytes_ready[i]
                    + info.per_column_bytes_ready@[i] as usize
            &&& after.per_col_bytes_per_second.len() == sample.per_col_bytes_per_second.len()
                == info.per_column_bytes_per_second@.len()
            &&& forall|i: int|
                0 <= i < after.per_col_bytes_per_second.len() ==> (
                #[trigger] after.per_col_bytes_per_second[i]) as int
                    == sample.per_col_bytes_per_second[i]
                    + info.per_column_bytes_per_second@[i] as usize
        },
{
    if sample.observed(info) is Ok {
        let per_second = crate::runtime_statistics::machine_sized(
            info.per_column_bytes_per_second@,
        );
        let ready = crate::runtime_statistics::machine_sized(info.per_column_bytes_ready@);
        vectors_are_combined_by_elements(sample.per_col_bytes_per_second, per_second, 1);
        vectors_are_combined_by_elements(sample.per_col_bytes_ready, ready, 1);
        if exists|i: int|
            0 <= i < info.per_column_bytes_ready@.len() && (
            #[trigger] info.per_column_bytes_ready@[i]) != 0 {
            assert(crate::runtime_statistics::any_positive(info.per_column_bytes_ready@));
        }
        if exists|i: int|
            0 <= i < info.per_column_bytes_per_second@.len() && (
            #[trigger] info.per_column_bytes_per_second@[i]) != 0 {
            assert(crate::runtime_statistics::any_positive(info.per_column_bytes_per_second@));
        }
    }
}

/// No more reports are needed exactly where at least one partition, and as many as were asked for,
/// have rows at hand, or likewise on their way, or where all partitions have reported.
pub proof fn reports_end_when_enough(sample: LoadSampleView)
    ensures
        sample.is_enough() <==> {
            ||| sample.partitions_with_bytes_ready >= 1 && sample.partitions_with_bytes_ready
                >= sample.bytes_ready_target
            ||| sample.partitions_with_bytes_per_second >= 1
                && sample.partitions_with_bytes_per_second >= sample.bytes_per_second_target
            ||| sample.partitions_done == sample.total_partitions
        },
{
}

/// Whether a number is what was at hand and what comes in ten seconds, for all partitions.
pub open spec fn is_taken(number: int, at_hand: int, coming: int, sample: LoadSampleView) -> bool {
    exists|ready: int, per_second: int|
        #[trigger] is_extended(ready, at_hand, sample) && #[trigger] is_extended(
            per_second,
            coming,
            sample,
        ) && number == ready + 10 * per_second
}

/// Whether an estimate takes what was measured for all partitions: the rows at hand, and those that
/// come in ten seconds, and likewise the bytes of each column.
pub open spec fn is_taken_for_all(estimate: LoadEstimateView, sample: LoadSampleView) -> bool {
    &&& is_taken(
        estimate.num_rows as int,
        sample.rows_ready as int,
        sample.rows_per_second as int,
        sample,
    )
    &&& estimate.per_col_byte_size.len() == sample.per_col_bytes_ready.len()
    &&& forall|i: int|
        0 <= i < estimate.per_col_byte_size.len() ==> is_taken(
            (#[trigger] estimate.per_col_byte_size[i]) as int,
            sample.per_col_bytes_ready[i] as int,
            sample.per_col_bytes_per_second[i] as int,
            sample,
        )
    &&& estimate.total_byte_size == sum_of(estimate.per_col_byte_size)
}

proof fn numbers_are_extended(sample: LoadSampleView, number: int)
    requires
        sample.partitions_done > 0,
    ensures
        is_extended(
            number * sample.total_partitions / sample.partitions_done as int,
            number,
            sample,
        ),
{
    quotients_round_down(number * sample.total_partitions, sample.partitions_done as int);
}

/// What a stage is taken to produce is what the partitions that have reported told, extended to all
/// partitions, for the next ten seconds. Without a report, or without a row, it is nothing.
pub proof fn estimates_extend_reports(sample: LoadSampleView)
    ensures
        match sample.estimate() {
            Ok(Some(estimate)) => sample.partitions_done > 0 && estimate.num_rows > 0
                && is_taken_for_all(estimate, sample),
            Ok(None) => sample.partitions_done == 0 || is_extended(
                0,
                sample.rows_ready as int,
                sample,
            ) && is_extended(0, sample.rows_per_second as int, sample),
            Err(_) => sample.partitions_done > 0,
        },
{
    if sample.partitions_done > 0 {
        let done = sample.partitions_done;
        let total = sample.total_partitions;
        numbers_are_extended(sample, sample.rows_ready as int);
        numbers_are_extended(sample, sample.rows_per_second as int);
        let a = sample.extended(sample.rows_ready);
        let b = sample.extended(sample.rows_per_second);
        assert(is_extended(a, sample.rows_ready as int, sample));
        assert(is_extended(b, sample.rows_per_second as int, sample));
        assert(a >= 0 && b >= 0) by {
            assert(sample.rows_ready * total >= 0) by (nonlinear_arith);
            assert(sample.rows_per_second * total >= 0) by (nonlinear_arith);
            vstd::arithmetic::div_mod::lemma_div_pos_is_pos(sample.rows_ready * total, done as int);
            vstd::arithmetic::div_mod::lemma_div_pos_is_pos(
                sample.rows_per_second * total,
                done as int,
            );
        }
        if let Ok(Some(estimate)) = sample.estimate() {
            let ready = sample.extended_columns(sample.per_col_bytes_ready)->Ok_0;
            let per_second = sample.extended_columns(sample.per_col_bytes_per_second)->Ok_0;
            let coming = crate::vectors::element_products(per_second, 10)->Ok_0;
            vectors_are_combined_by_elements(sample.per_col_bytes_ready, Seq::empty(), total);
            vectors_are_combined_by_elements(sample.per_col_bytes_per_second, Seq::empty(), total);
            vectors_are_combined_by_elements(per_second, Seq::empty(), 10);
            vectors_are_combined_by_elements(ready, coming, 1);
            totals_are_sums(estimate.per_col_byte_size);
            assert(is_taken(
                estimate.num_rows as int,
                sample.rows_ready as int,
                sample.rows_per_second as int,
                sample,
            ));
            assert forall|i: int| 0 <= i < estimate.per_col_byte_size.len() implies is_taken(
                (#[trigger] estimate.per_col_byte_size[i]) as int,
                sample.per_col_bytes_ready[i] as int,
                sample.per_col_bytes_per_second[i] as int,
                sample,
            ) by {
                numbers_are_extended(sample, sample.per_col_bytes_ready[i] as int);
                numbers_are_extended(sample, sample.per_col_bytes_per_second[i] as int);
                let r = ready[i] as int;
                let s = per_second[i] as int;
                assert(is_extended(r, sample.per_col_bytes_ready[i] as int, sample));
                assert(is_extended(s, sample.per_col_bytes_per_second[i] as int, sample));
                assert(coming[i] as int == s * 10);
                assert(estimate.per_col_byte_size[i] == r + 10 * s);
            }
        }
    }
}

/// The number that is known, or none at all.
pub open spec fn number_of(precision: Precision) -> Option<int> {
    match precision {
        Precision::Exact(n) => Some(n as int),
        Precision::Inexact(n) => Some(n as int),
        Precision::Absent => None,
    }
}

/// The sum of the numbers that are known.
pub open spec fn known_sum(numbers: Seq<Precision>) -> int {
    numbers.fold_left(
        0int,
        |sum: int, number: Precision|
            sum + match number_of(number) {
                Some(n) => n,
                None => 0,
            },
    )
}

/// A number, or the greatest that the machine holds.
pub open spec fn cut_off(number: int) -> int {
    if number <= usize::MAX {
        number
    } else {
        usize::MAX as int
    }
}

proof fn known_rows_are_summed(inputs: Seq<Precision>)
    ensures
        crate::vectors::total(crate::statistics::known_rows(inputs)) == known_sum(inputs),
        crate::statistics::known_rows(inputs).len() > 0 <==> exists|i: int|
            0 <= i < inputs.len() && number_of(#[trigger] inputs[i]) is Some,
    decreases inputs.len(),
{
    if inputs.len() > 0 {
        let shorter = inputs.drop_last();
        known_rows_are_summed(shorter);
        let before = crate::statistics::known_rows(shorter);
        if let Some(rows) = inputs.last().known() {
            assert(before.push(rows).drop_last() =~= before);
        }
        assert(inputs[inputs.len() - 1] == inputs.last());
        if exists|i: int| 0 <= i < inputs.len() && number_of(#[trigger] inputs[i]) is Some {
            let i = choose|i: int| 0 <= i < inputs.len() && number_of(#[trigger] inputs[i]) is Some;
            if i < shorter.len() {
                assert(number_of(shorter[i]) is Some);
            }
        }
        if before.len() > 0 {
            let i = choose|i: int|
                0 <= i < shorter.len() && number_of(#[trigger] shorter[i]) is Some;
            assert(number_of(inputs[i]) is Some);
        }
    }
}

proof fn column_bytes_are_summed(columns: Seq<ColumnStatistics>)
    ensures
        crate::statistics::total_bytes(columns) == known_sum(
            columns.map_values(|column: ColumnStatistics| column.byte_size),
        ),
    decreases columns.len(),
{
    let sizes = columns.map_values(|column: ColumnStatistics| column.byte_size);
    if columns.len() > 0 {
        column_bytes_are_summed(columns.drop_last());
        assert(sizes.drop_last() =~= columns.drop_last().map_values(
            |column: ColumnStatistics| column.byte_size,
        ));
    }
}

/// What a node says of itself stays. Where it does not say how many rows it has, it is taken to
/// have those of its inputs, as far as they are known. Where the rows are known, a column is taken
/// to have the given number of distinct values and bytes of its usual size, and the bytes of the
/// node are those of its columns. That fails where the rows of the inputs cannot be counted, or
/// where the rows are known and there are more columns than fields.
pub proof fn statistics_are_completed(
    stats: StatisticsView,
    inputs: Seq<Precision>,
    default_bytes: Seq<usize>,
    distinct: usize,
    schema: Seq<char>,
)
    ensures
        ({
            let guessed = stats.num_rows is Absent && exists|i: int|
                0 <= i < inputs.len() && number_of(#[trigger] inputs[i]) is Some;
            let rows = if guessed {
                Some(known_sum(inputs))
            } else {
                number_of(stats.num_rows)
            };
            let columns = stats.column_statistics;
            match stats.completed(inputs, default_bytes, distinct, schema) {
                Ok(after) => {
                    &&& if guessed {
                        after.num_rows is Inexact && number_of(after.num_rows) == rows
                    } else {
                        after.num_rows == stats.num_rows
                    }
                    &&& after.column_statistics.len() == columns.len()
                    &&& forall|i: int|
                        0 <= i < columns.len() ==> {
                            let before = columns[i];
                            let column = #[trigger] after.column_statistics[i];
                            if rows is None {
                                column == before
                            } else {
                                &&& column.null_count == before.null_count
                                &&& column.distinct_count == (if before.distinct_count is Absent {
                                    Precision::Inexact(distinct)
                                } else {
                                    before.distinct_count
                                })
                                &&& if before.byte_size is Absent {
                                    column.byte_size is Inexact && number_of(column.byte_size)
                                        == Some(cut_off(default_bytes[i] * rows->Some_0))
                                } else {
                                    column.byte_size == before.byte_size
                                }
                            }
                        }
                    &&& if stats.total_byte_size is Absent {
                        after.total_byte_size is Inexact && number_of(after.total_byte_size) == Some(
                            cut_off(
                                known_sum(
                                    after.column_statistics.map_values(
                                        |column: ColumnStatistics| column.byte_size,
                                    ),
                                ),
                            ),
                        )
                    } else {
                        after.total_byte_size == stats.total_byte_size
                    }
                },
                Err(error) => if guessed && known_sum(inputs) > usize::MAX {
                    error == ErrorKind::StatisticsOverflow.plain()
                } else {
                    rows is Some && columns.len() > default_bytes.len() && error
                        == (ErrorKind::MissingField {
                        index: default_bytes.len() as usize,
                    }).plain().detailed(schema)
                },
            }
        }),
{
    known_rows_are_summed(inputs);
    if let Ok(after) = stats.completed(inputs, default_bytes, distinct, schema) {
        column_bytes_are_summed(after.column_statistics);
        if let Some(rows) = after.num_rows.known() {
            assert forall|i: int| 0 <= i < stats.column_statistics.len() implies (
            #[trigger] after.column_statistics[i]) == crate::statistics::filled_column(
                stats.column_statistics[i],
                rows,
                default_bytes[i],
                distinct,
            ) && default_bytes[i] * rows >= 0 by {
                assert(default_bytes[i] * rows >= 0) by (nonlinear_arith);
            }
        }
    }
}

/// The statistics of a measured stage give what was estimated and counted for each column, as far
/// as there is a count for each. A stage without rows has none, exactly.
pub proof fn measured_statistics(
    sample: LoadSampleView,
    n_fields: usize,
    distinct: Seq<usize>,
    nulls: Seq<usize>,
)
    ensures
        match sample.estimate() {
            Ok(Some(estimate)) => {
                let n = estimate.per_col_byte_size.len();
                match sample.statistics(n_fields, distinct, nulls) {
                    Ok(stats) => {
                        &&& distinct.len() == n && nulls.len() == n
                        &&& stats.num_rows == Precision::Inexact(estimate.num_rows)
                        &&& stats.total_byte_size == Precision::Inexact(estimate.total_byte_size)
                        &&& stats.column_statistics.len() == n
                        &&& forall|i: int|
                            0 <= i < n ==> {
                                let column = #[trigger] stats.column_statistics[i];
                                &&& column.null_count == Precision::Inexact(nulls[i])
                                &&& column.distinct_count == Precision::Inexact(distinct[i])
                                &&& column.byte_size == Precision::Inexact(
                                    estimate.per_col_byte_size[i],
                                )
                            }
                    },
                    Err(error) => if distinct.len() != n {
                        error == (ErrorKind::DistinctCounts {
                            expected: n as usize,
                            got: distinct.len() as usize,
                        }).plain()
                    } else {
                        nulls.len() != n && error == (ErrorKind::NullCounts {
                            expected: n as usize,
                            got: nulls.len() as usize,
                        }).plain()
                    },
                }
            },
            Ok(None) => sample.statistics(n_fields, distinct, nulls) matches Ok(stats) && {
                &&& stats.num_rows == Precision::Exact(0)
                &&& stats.total_byte_size == Precision::Exact(0)
                &&& stats.column_statistics.len() == (if sample.partitions_done == 0 {
                    n_fields
                } else {
                    sample.per_col_bytes_ready.len() as usize
                })
                &&& forall|i: int|
                    0 <= i < stats.column_statistics.len() ==> {
                        let column = #[trigger] stats.column_statistics[i];
                        &&& column.null_count == Precision::Exact(0)
                        &&& column.distinct_count == Precision::Exact(0)
                        &&& column.byte_size == Precision::Exact(0)
                    }
            },
            Err(error) => sample.statistics(n_fields, distinct, nulls) == Err::<StatisticsView, _>(
                error,
            ),
        },
{
}

/// The first node of a plan that measures rows is the first such node of the list of its nodes.
pub proof fn the_first_sampler_is_found(plan: PlanView)
    ensures
        match plan.first_sampler() {
            Some(sampler) => exists|i: int|
                0 <= i < plan.pre_order().len() && #[trigger] plan.pre_order()[i] == sampler
                    && sampler.op is Sampler && forall|j: int|
                    0 <= j < i ==> !((#[trigger] plan.pre_order()[j]).op is Sampler),
            None => forall|i: int|
                0 <= i < plan.pre_order().len() ==> !((#[trigger] plan.pre_order()[i]).op
                    is Sampler),
        },
    decreases plan, 0nat,
{
    let below = crate::recursion::pre_order_all(plan.children);
    the_first_sampler_is_found_below(plan.children);
    let all = plan.pre_order();
    assert(all[0] == plan);
    assert(forall|i: int| 0 <= i < below.len() ==> all[i + 1] == #[trigger] below[i]);
    if !(plan.op is Sampler) {
        if let Some(sampler) = plan.first_sampler() {
            let i = choose|i: int|
                0 <= i < below.len() && #[trigger] below[i] == sampler && sampler.op is Sampler
                    && forall|j: int| 0 <= j < i ==> !((#[trigger] below[j]).op is Sampler);
            assert forall|j: int| 0 <= j < i + 1 implies !((#[trigger] all[j]).op is Sampler) by {
                if j > 0 {
                    assert(all[j] == below[j - 1]);
                }
            }
            assert(all[i + 1] == sampler);
        } else {
            assert forall|j: int| 0 <= j < all.len() implies !((#[trigger] all[j]).op
                is Sampler) by {
                if j > 0 {
                    assert(all[j] == below[j - 1]);
                }
            }
        }
    }
}

proof fn the_first_sampler_is_found_below(plans: Seq<PlanView>)
    ensures
        ({
            let nodes = crate::recursion::pre_order_all(plans);
            match crate::runtime_statistics::first_sampler_of(plans) {
                Some(sampler) => exists|i: int|
                    0 <= i < nodes.len() && #[trigger] nodes[i] == sampler && sampler.op is Sampler
                        && forall|j: int| 0 <= j < i ==> !((#[trigger] nodes[j]).op is Sampler),
                None => forall|i: int|
                    0 <= i < nodes.len() ==> !((#[trigger] nodes[i]).op is Sampler),
            }
        }),
    decreases plans, 1nat,
{
    if plans.len() > 0 {
        let before = crate::recursion::pre_order_all(plans.drop_last());
        let last = plans.last().pre_order();
        let nodes = crate::recursion::pre_order_all(plans);
        the_first_sampler_is_found_below(plans.drop_last());
        the_first_sampler_is_found(plans.last());
        assert(nodes =~= before + last);
        if let Some(sampler) = crate::runtime_statistics::first_sampler_of(plans.drop_last()) {
            let i = choose|i: int|
                0 <= i < before.len() && #[trigger] before[i] == sampler && sampler.op is Sampler
                    && forall|j: int| 0 <= j < i ==> !((#[trigger] before[j]).op is Sampler);
            assert(nodes[i] == sampler);
            assert forall|j: int| 0 <= j < i implies !((#[trigger] nodes[j]).op is Sampler) by {
                assert(nodes[j] == before[j]);
            }
        } else if let Some(sampler) = plans.last().first_sampler() {
            let i = choose|i: int|
                0 <= i < last.len() && #[trigger] last[i] == sampler && sampler.op is Sampler
                    && forall|j: int| 0 <= j < i ==> !((#[trigger] last[j]).op is Sampler);
            assert(nodes[before.len() + i] == sampler);
            assert forall|j: int| 0 <= j < before.len() + i implies !((#[trigger] nodes[j]).op
                is Sampler) by {
                if j < before.len() {
                    assert(nodes[j] == before[j]);
                } else {
                    assert(nodes[j] == last[j - before.len()]);
                }
            }
        } else {
            assert forall|j: int| 0 <= j < nodes.len() implies !((#[trigger] nodes[j]).op
                is Sampler) by {
                if j < before.len() {
                    assert(nodes[j] == before[j]);
                } else {
                    assert(nodes[j] == last[j - before.len()]);
                }
            }
        }
    }
}

/// A sample starts without reports, for the partitions of all tasks of the first node that measures
/// rows. It takes such a node.
pub proof fn samples_start_blank(
    plan: PlanView,
    n_cols: usize,
    tasks: usize,
    ready_target: usize,
    per_second_target: usize,
)
    ensures
        match crate::runtime_statistics::blank_sample(
            plan,
            n_cols,
            tasks,
            ready_target,
            per_second_target,
        ) {
            Ok(sample) => {
                &&& plan.first_sampler() matches Some(sampler) && sample.total_partitions as int
                    == sampler.partition_count() * tasks
                &&& sample.bytes_ready_target == ready_target
                &&& sample.bytes_per_second_target == per_second_target
                &&& sample.partitions_done == 0
                &&& sample.partitions_with_bytes_ready == 0
                &&& sample.partitions_with_bytes_per_second == 0
                &&& sample.rows_ready == 0
                &&& sample.rows_per_second == 0
                &&& sample.per_col_bytes_ready.len() == n_cols
                &&& sample.per_col_bytes_per_second.len() == n_cols
                &&& forall|i: int|
                    0 <= i < n_cols ==> (#[trigger] sample.per_col_bytes_ready[i]) == 0
                &&& forall|i: int|
                    0 <= i < n_cols ==> (#[trigger] sample.per_col_bytes_per_second[i]) == 0
            },
            Err(error) => match plan.first_sampler() {
                None => error == ErrorKind::MissingSampler.plain(),
                Some(sampler) => if sampler.partition_count() > usize::MAX {
                    error == ErrorKind::PartitionCountOverflow.plain()
                } else {
                    sampler.partition_count() * tasks > usize::MAX && error
                        == ErrorKind::StatisticsOverflow.plain()
                },
            },
        },
{
}

/// What a node holds in memory. Joins hold the side that they look rows up in, which is the left
/// one, and those that do so both ways hold both. A sort holds what it sorts twice, unless it only
/// keeps the first rows, of which it holds those. An aggregation holds one state, or one for each
/// group that it hands out. A window holds its input, or little if its frames are bounded, and a
/// broadcast what it hands out. Everything else streams.
pub proof fn memory_is_what_is_held(node: PlanView)
    ensures
        ({
            let held = node.memory();
            let builds = node.op is HashJoin || node.op is NestedLoopJoin || node.op is CrossJoin;
            let first_rows = node.op matches OperatorView::Sort { fetch, .. } && fetch is Some;
            let one_group = node.op matches OperatorView::Aggregate { group_by, .. }
                && group_by.exprs.len() == 0 && !group_by.has_grouping_set;
            let streams = !(builds || node.op is SymmetricHashJoin || node.op is Sort || node.op
                is Aggregate || node.op is WindowAgg || node.op is BoundedWindowAgg || node.op
                is Broadcast);
            &&& held == Complexity::Linear(LinearComplexity::AllColumnsFromLeft) <==> builds
            &&& held == Complexity::Plus(
                LinearComplexity::AllColumnsFromLeft,
                LinearComplexity::AllColumnsFromRight,
            ) <==> node.op is SymmetricHashJoin
            &&& held == Complexity::Plus(
                LinearComplexity::AllColumns,
                LinearComplexity::AllColumns,
            ) <==> node.op is Sort && !first_rows
            &&& held == Complexity::Linear(LinearComplexity::AllOutputColumns) <==> first_rows
                || node.op is Broadcast || node.op is Aggregate && !one_group
            &&& held == Complexity::Linear(LinearComplexity::AllColumns) <==> node.op is WindowAgg
            &&& held == Complexity::Constant(1) <==> one_group || node.op is BoundedWindowAgg
            &&& held == Complexity::Constant(0) <==> streams
        }),
{
}

/// The partitions of some plans together.
pub open spec fn partitions_together(plans: Seq<PlanView>) -> int {
    plans.fold_left(0int, |sum: int, plan: PlanView| sum + plan.partition_count())
}

proof fn partition_totals_are_sums(plans: Seq<PlanView>)
    ensures
        crate::plan::total_partitions(plans) == partitions_together(plans),
    decreases plans.len(),
{
    if plans.len() > 0 {
        partition_totals_are_sums(plans.drop_last());
    }
}

/// How many partitions a node hands out. What brings rows together hands out one, a union those of
/// all its inputs, a broadcast those of its input for every task, and what spreads rows, reads a
/// source or another stage as many as it says. A join hands out those of the side that it does not
/// look rows up in, and everything else those of its input.
pub proof fn partitions_are_handed_out(node: PlanView)
    ensures
        ({
            let n = node.partition_count() as int;
            let input = |i: int|
                if 0 <= i < node.children.len() {
                    node.children[i].partition_count() as int
                } else {
                    0
                };
            match node.op {
                OperatorView::CoalescePartitions { .. } => n == 1,
                OperatorView::SortPreservingMerge => n == 1,
                OperatorView::Sort { preserve_partitioning, .. } => n == (
                if preserve_partitioning {
                    input(0)
                } else {
                    1
                }),
                OperatorView::Union => n == partitions_together(node.children),
                OperatorView::Other { partitions, .. } => n == match partitions {
                    PartitionRule::Fixed(fixed) => fixed as int,
                    PartitionRule::Input(i) => input(i as int),
                    PartitionRule::AllInputs => partitions_together(node.children),
                },
                OperatorView::Broadcast { consumer_tasks } => n == input(0) * consumer_tasks,
                OperatorView::Repartition { partitioning } => n
                    == crate::preparation_laws::partitions_of(partitioning),
                OperatorView::Scan { partitioning, .. } => n
                    == crate::preparation_laws::partitions_of(partitioning),
                OperatorView::DistributedLeaf { partitioning } => n
                    == crate::preparation_laws::partitions_of(partitioning),
                OperatorView::NetworkShuffle { output, .. } => n
                    == crate::preparation_laws::partitions_of(output),
                OperatorView::NetworkCoalesce { output, .. } => n
                    == crate::preparation_laws::partitions_of(output),
                OperatorView::NetworkBroadcast { output, .. } => n
                    == crate::preparation_laws::partitions_of(output),
                OperatorView::ChildrenIsolatorUnion { partitions, .. } => n == partitions,
                OperatorView::HashJoin { .. } => n == input(1),
                OperatorView::NestedLoopJoin { .. } => n == input(1),
                OperatorView::CrossJoin => n == input(1),
                OperatorView::SortMergeJoin => n == input(1),
                OperatorView::SymmetricHashJoin => n == input(1),
                _ => n == input(0),
            }
        }),
{
    partition_totals_are_sums(node.children);
    if let OperatorView::Broadcast { consumer_tasks } = node.op {
        assert(node.input_partitions(0) * consumer_tasks as nat == node.input_partitions(0) as int
            * consumer_tasks);
    }
}

} // verus!

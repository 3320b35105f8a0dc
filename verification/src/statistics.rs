//! How many rows and bytes nodes are expected to produce, and how much memory they hold.
use crate::error::{DistributedError, DistributedErrorView, ErrorKind};
use crate::plan::{Operator, OperatorView, Plan, PlanView};
use crate::vectors::checked_total;
use vstd::prelude::*;

verus! {

/// A number, and how well it is known.
#[derive(Clone, Copy, PartialEq, Eq, Debug, Structural)]
pub enum Precision {
    Exact(usize),
    Inexact(usize),
    Absent,
}

impl Precision {
    /// The number, where there is one.
    pub open spec fn known(self) -> Option<usize> {
        match self {
            Precision::Exact(value) => Some(value),
            Precision::Inexact(value) => Some(value),
            Precision::Absent => None,
        }
    }

    pub fn get_value(&self) -> (result: Option<usize>)
        ensures
            result == self.known(),
    {
        match self {
            Precision::Exact(value) => Some(*value),
            Precision::Inexact(value) => Some(*value),
            Precision::Absent => None,
        }
    }
}

/// What is known of the values of a column.
#[derive(Clone, Copy, PartialEq, Eq, Debug, Structural)]
pub struct ColumnStatistics {
    pub null_count: Precision,
    pub distinct_count: Precision,
    pub byte_size: Precision,
}

/// What is known of the rows that a node produces.
#[derive(Debug)]
pub struct Statistics {
    pub num_rows: Precision,
    pub total_byte_size: Precision,
    pub column_statistics: Vec<ColumnStatistics>,
}

/// The mathematical view of [`Statistics`].
#[verifier::ext_equal]
pub struct StatisticsView {
    pub num_rows: Precision,
    pub total_byte_size: Precision,
    pub column_statistics: Seq<ColumnStatistics>,
}

impl View for Statistics {
    type V = StatisticsView;

    open spec fn view(&self) -> StatisticsView {
        StatisticsView {
            num_rows: self.num_rows,
            total_byte_size: self.total_byte_size,
            column_statistics: self.column_statistics@,
        }
    }
}

/// The row counts that some inputs are known to have.
pub open spec fn known_rows(inputs: Seq<Precision>) -> Seq<usize>
    decreases inputs.len(),
{
    if inputs.len() == 0 {
        Seq::empty()
    } else {
        match inputs.last().known() {
            Some(rows) => known_rows(inputs.drop_last()).push(rows),
            None => known_rows(inputs.drop_last()),
        }
    }
}

/// The number of rows of a node. One that does not say is taken to keep the rows of its inputs, as
/// far as these are known.
pub open spec fn row_estimate(own: Precision, inputs: Seq<Precision>) -> Result<
    Precision,
    DistributedErrorView,
> {
    let rows = known_rows(inputs);
    if own is Absent && rows.len() > 0 {
        if crate::vectors::total(rows) > usize::MAX {
            Err(ErrorKind::StatisticsOverflow.plain())
        } else {
            Ok(Precision::Inexact(crate::vectors::total(rows) as usize))
        }
    } else {
        Ok(own)
    }
}

/// The outcome of estimating rows.
pub open spec fn precision_outcome(result: Result<Precision, DistributedError>) -> Result<
    Precision,
    DistributedErrorView,
> {
    match result {
        Ok(rows) => Ok(rows),
        Err(error) => Err(error@),
    }
}

/// The number of rows of a node whose inputs have these.
pub fn estimate_rows(own: Precision, inputs: &Vec<Precision>) -> (result: Result<
    Precision,
    DistributedError,
>)
    ensures
        precision_outcome(result) == row_estimate(own, inputs@),
{
    let mut rows: Vec<usize> = Vec::new();
    let mut i: usize = 0;
    while i < inputs.len()
        invariant
            0 <= i <= inputs@.len(),
            rows@ =~= known_rows(inputs@.take(i as int)),
        decreases inputs@.len() - i,
    {
        proof {
            assert(inputs@.take(i + 1).drop_last() =~= inputs@.take(i as int));
        }
        if let Some(known) = inputs[i].get_value() {
            rows.push(known);
        }
        i += 1;
    }
    proof {
        assert(inputs@.take(i as int) =~= inputs@);
    }
    match own {
        Precision::Absent => {
            if rows.len() == 0 {
                return Ok(own);
            }
            match checked_total(&rows) {
                Some(total) => Ok(Precision::Inexact(total)),
                None => Err(DistributedError::new(ErrorKind::StatisticsOverflow)),
            }
        },
        _ => Ok(own),
    }
}

/// A product that is cut off where it does not fit the machine.
pub open spec fn saturated(number: int) -> usize {
    if number > usize::MAX {
        usize::MAX
    } else {
        number as usize
    }
}

/// A column of a node with this many rows, with what is missing filled in: a share of the rows for
/// the number of distinct values, and the usual size of the values for the bytes.
pub open spec fn filled_column(
    column: ColumnStatistics,
    rows: usize,
    default_bytes: usize,
    fallback_ndv: usize,
) -> ColumnStatistics {
    ColumnStatistics {
        null_count: column.null_count,
        distinct_count: if column.distinct_count is Absent {
            Precision::Inexact(fallback_ndv)
        } else {
            column.distinct_count
        },
        byte_size: if column.byte_size is Absent {
            Precision::Inexact(saturated(default_bytes * rows))
        } else {
            column.byte_size
        },
    }
}

/// The columns of a node, with what is missing filled in where the number of rows is known. A
/// column beyond the fields of the schema is an error then.
pub open spec fn filled_columns(
    columns: Seq<ColumnStatistics>,
    rows: Precision,
    default_bytes: Seq<usize>,
    fallback_ndv: usize,
    schema: Seq<char>,
) -> Result<Seq<ColumnStatistics>, DistributedErrorView> {
    match rows.known() {
        None => Ok(columns),
        Some(rows) => if columns.len() > default_bytes.len() {
            Err(
                (ErrorKind::MissingField { index: default_bytes.len() as usize }).plain().detailed(
                    schema,
                ),
            )
        } else {
            Ok(
                Seq::new(
                    columns.len(),
                    |i: int| filled_column(columns[i], rows, default_bytes[i], fallback_ndv),
                ),
            )
        },
    }
}

/// The bytes of all columns together, as far as they are known.
pub open spec fn total_bytes(columns: Seq<ColumnStatistics>) -> nat
    decreases columns.len(),
{
    if columns.len() == 0 {
        0
    } else {
        total_bytes(columns.drop_last()) + match columns.last().byte_size.known() {
            Some(bytes) => bytes as nat,
            None => 0nat,
        }
    }
}

impl StatisticsView {
    /// The statistics with what is missing filled in.
    pub open spec fn completed(
        self,
        inputs: Seq<Precision>,
        default_bytes: Seq<usize>,
        fallback_ndv: usize,
        schema: Seq<char>,
    ) -> Result<StatisticsView, DistributedErrorView> {
        match crate::statistics::row_estimate(self.num_rows, inputs) {
            Err(error) => Err(error),
            Ok(num_rows) => match crate::statistics::filled_columns(
                self.column_statistics,
                num_rows,
                default_bytes,
                fallback_ndv,
                schema,
            ) {
                Err(error) => Err(error),
                Ok(column_statistics) => Ok(
                    StatisticsView {
                        num_rows,
                        total_byte_size: if self.total_byte_size is Absent {
                            Precision::Inexact(
                                crate::statistics::saturated(
                                    crate::statistics::total_bytes(column_statistics) as int,
                                ),
                            )
                        } else {
                            self.total_byte_size
                        },
                        column_statistics,
                    },
                ),
            },
        }
    }
}

fn sum_bytes(columns: &Vec<ColumnStatistics>) -> (result: usize)
    ensures
        result == saturated(total_bytes(columns@) as int),
{
    let mut sum: usize = 0;
    let mut i: usize = 0;
    while i < columns.len()
        invariant
            0 <= i <= columns@.len(),
            sum == saturated(total_bytes(columns@.take(i as int)) as int),
        decreases columns@.len() - i,
    {
        proof {
            assert(columns@.take(i + 1).drop_last() =~= columns@.take(i as int));
        }
        let bytes: usize = match columns[i].byte_size.get_value() {
            Some(bytes) => bytes,
            None => 0,
        };
        sum = sum.saturating_add(bytes);
        i += 1;
    }
    proof {
        assert(columns@.take(i as int) =~= columns@);
    }
    sum
}

/// The statistics of a node as its engine gives them, with what is missing filled in.
/// `default_bytes` holds the usual size of a value of each field of the schema of the node, and
/// `fallback_ndv` the number of distinct values that a column of a node with this many rows is
/// taken to have. `schema` is how the engine writes the schema.
pub fn plan_statistics(
    stats: &Statistics,
    inputs: &Vec<Precision>,
    default_bytes: &Vec<usize>,
    fallback_ndv: usize,
    schema: &str,
) -> (result: Result<Statistics, DistributedError>)
    ensures
        crate::error::viewed(result) == stats@.completed(
            inputs@,
            default_bytes@,
            fallback_ndv,
            schema@,
        ),
{
    let num_rows = estimate_rows(stats.num_rows, inputs)?;
    let columns = &stats.column_statistics;
    let mut column_statistics: Vec<ColumnStatistics> = Vec::new();
    let mut i: usize = 0;
    while i < columns.len()
        invariant
            0 <= i <= columns@.len(),
            columns@ == stats.column_statistics@,
            row_estimate(stats.num_rows, inputs@) == Ok::<_, DistributedErrorView>(num_rows),
            column_statistics@.len() == i,
            num_rows.known() is Some ==> i <= default_bytes@.len(),
            forall|j: int|
                0 <= j < i ==> #[trigger] column_statistics@[j] == match num_rows.known() {
                    None => columns@[j],
                    Some(rows) => filled_column(
                        columns@[j],
                        rows,
                        default_bytes@[j],
                        fallback_ndv,
                    ),
                },
        decreases columns@.len() - i,
    {
        let column = columns[i];
        match num_rows.get_value() {
            None => column_statistics.push(column),
            Some(rows) => {
                if i >= default_bytes.len() {
                    return Err(
                        DistributedError::new(ErrorKind::MissingField { index: i }).with_detail(
                            schema.to_owned(),
                        ),
                    );
                }
                let distinct_count = match column.distinct_count {
                    Precision::Absent => Precision::Inexact(fallback_ndv),
                    known => known,
                };
                let byte_size = match column.byte_size {
                    Precision::Absent => {
                        let bytes: usize = match default_bytes[i].checked_mul(rows) {
                            Some(bytes) => bytes,
                            None => usize::MAX,
                        };
                        Precision::Inexact(bytes)
                    },
                    known => known,
                };
                column_statistics.push(
                    ColumnStatistics { null_count: column.null_count, distinct_count, byte_size },
                );
            },
        }
        i += 1;
    }
    proof {
        let due = filled_columns(columns@, num_rows, default_bytes@, fallback_ndv, schema@);
        assert(column_statistics@ =~= due->Ok_0);
    }
    let total_byte_size = match stats.total_byte_size {
        Precision::Absent => Precision::Inexact(sum_bytes(&column_statistics)),
        known => known,
    };
    Ok(Statistics { num_rows, total_byte_size, column_statistics })
}

/// Once statistics were filled in, there is nothing left to fill in.
pub proof fn completing_is_idempotent(
    stats: StatisticsView,
    inputs: Seq<Precision>,
    default_bytes: Seq<usize>,
    fallback_ndv: usize,
    schema: Seq<char>,
)
    ensures
        stats.completed(inputs, default_bytes, fallback_ndv, schema) matches Ok(once)
            ==> once.completed(inputs, default_bytes, fallback_ndv, schema) == Ok::<
            _,
            DistributedErrorView,
        >(once),
{
    if let Ok(once) = stats.completed(inputs, default_bytes, fallback_ndv, schema) {
        let again = filled_columns(
            once.column_statistics,
            once.num_rows,
            default_bytes,
            fallback_ndv,
            schema,
        );
        if again is Ok {
            assert(again->Ok_0 =~= once.column_statistics);
        }
    }
}

/// What the memory of a node grows with.
#[derive(Clone, Copy, PartialEq, Eq, Debug, Structural)]
pub enum LinearComplexity {
    /// All columns of all inputs.
    AllColumns,
    AllColumnsFromLeft,
    AllColumnsFromRight,
    AllOutputColumns,
}

/// How much memory a node holds.
#[derive(Debug)]
pub enum Complexity {
    Constant(u64),
    Linear(LinearComplexity),
    Plus(LinearComplexity, LinearComplexity),
}

impl PlanView {
    /// How much memory the node holds, without its inputs.
    pub open spec fn memory(self) -> Complexity {
        match self.op {
            OperatorView::NestedLoopJoin { .. } => Complexity::Linear(
                LinearComplexity::AllColumnsFromLeft,
            ),
            OperatorView::CrossJoin => Complexity::Linear(LinearComplexity::AllColumnsFromLeft),
            OperatorView::Sort { fetch, .. } => if fetch is Some {
                Complexity::Linear(LinearComplexity::AllOutputColumns)
            } else {
                Complexity::Plus(LinearComplexity::AllColumns, LinearComplexity::AllColumns)
            },
            OperatorView::HashJoin { .. } => Complexity::Linear(
                LinearComplexity::AllColumnsFromLeft,
            ),
            OperatorView::SortMergeJoin => Complexity::Constant(0),
            OperatorView::SymmetricHashJoin => Complexity::Plus(
                LinearComplexity::AllColumnsFromLeft,
                LinearComplexity::AllColumnsFromRight,
            ),
            OperatorView::Aggregate { group_by, .. } => if group_by.exprs.len() == 0
                && !group_by.has_grouping_set {
                Complexity::Constant(1)
            } else {
                Complexity::Linear(LinearComplexity::AllOutputColumns)
            },
            OperatorView::WindowAgg => Complexity::Linear(LinearComplexity::AllColumns),
            OperatorView::BoundedWindowAgg => Complexity::Constant(1),
            OperatorView::Broadcast { .. } => Complexity::Linear(
                LinearComplexity::AllOutputColumns,
            ),
            _ => Complexity::Constant(0),
        }
    }
}

/// How much memory a node holds, without its inputs. A join holds the side that it builds from, a
/// symmetric one both. A full sort holds its input and the sorted output, a sort that only keeps
/// the first rows holds those. An aggregation holds one state per group. A window holds its input,
/// unless its frames are bounded. A broadcast holds what it replays. Everything else streams.
pub fn complexity_memory(node: &Plan) -> (result: Complexity)
    ensures
        result == node@.memory(),
{
    match &*node.op {
        Operator::NestedLoopJoin { .. } => Complexity::Linear(
            LinearComplexity::AllColumnsFromLeft,
        ),
        Operator::CrossJoin => Complexity::Linear(LinearComplexity::AllColumnsFromLeft),
        Operator::Sort { fetch, .. } => if fetch.is_some() {
            Complexity::Linear(LinearComplexity::AllOutputColumns)
        } else {
            Complexity::Plus(LinearComplexity::AllColumns, LinearComplexity::AllColumns)
        },
        Operator::HashJoin { .. } => Complexity::Linear(LinearComplexity::AllColumnsFromLeft),
        Operator::SortMergeJoin => Complexity::Constant(0),
        Operator::SymmetricHashJoin => Complexity::Plus(
            LinearComplexity::AllColumnsFromLeft,
            LinearComplexity::AllColumnsFromRight,
        ),
        Operator::Aggregate { group_by, .. } => if group_by.exprs.len() == 0
            && !group_by.has_grouping_set {
            Complexity::Constant(1)
        } else {
            Complexity::Linear(LinearComplexity::AllOutputColumns)
        },
        Operator::WindowAgg => Complexity::Linear(LinearComplexity::AllColumns),
        Operator::BoundedWindowAgg => Complexity::Constant(1),
        Operator::Broadcast { .. } => Complexity::Linear(LinearComplexity::AllOutputColumns),
        _ => Complexity::Constant(0),
    }
}

} // verus!

//! What merging partial aggregates leaves of a plan, told by the fields of its nodes.
use crate::error::{DistributedErrorView, ErrorKind};
use crate::plan::{ExprView, OperatorView, PlanView};
use vstd::prelude::*;

verus! {

/// Whether the second list reads the columns that an aggregation by the first list hands out: each
/// expression by the name that it has there, from the column in the same place.
pub open spec fn reads_columns(
    grouped: Seq<(ExprView, Seq<char>)>,
    columns: Seq<(ExprView, Seq<char>)>,
) -> bool {
    &&& columns.len() == grouped.len()
    &&& forall|i: int|
        0 <= i < columns.len() ==> {
            &&& (#[trigger] columns[i]).1 == grouped[i].1
            &&& columns[i].0 is Column
            &&& columns[i].0->Column_index == i as usize
            &&& columns[i].0->Column_name == grouped[i].1
        }
}

/// Whether the operator is a first aggregation, whose results other aggregations merge.
pub open spec fn aggregates_first(op: OperatorView) -> bool {
    op matches OperatorView::Aggregate { mode, .. } && mode is Partial
}

/// Whether the plan spreads the results of a first aggregation by keys.
pub open spec fn spreads_results(plan: PlanView) -> bool {
    &&& plan.op matches OperatorView::Repartition { partitioning } && partitioning is Hash
    &&& plan.children.len() == 1
    &&& aggregates_first(plan.children[0].op)
}

/// Whether the operator merges the results of the first aggregation: it computes the same
/// aggregates with the same filters, for the same groups as they come out of the first one.
pub open spec fn merges_results(op: OperatorView, first: OperatorView) -> bool {
    op is Aggregate && first is Aggregate && {
        let grouped = first->group_by;
        let regrouped = op->group_by;
        &&& op->Aggregate_mode is PartialReduce
        &&& op->aggregates == first->aggregates
        &&& op->Aggregate_filters == first->Aggregate_filters
        &&& op->input_schema == first->input_schema
        &&& reads_columns(grouped.exprs, regrouped.exprs)
        &&& reads_columns(grouped.null_exprs, regrouped.null_exprs)
        &&& regrouped.groups == grouped.groups
        &&& regrouped.has_grouping_set == grouped.has_grouping_set
    }
}

impl PlanView {
    /// Whether the plan does what the other one does, but for an aggregation between every network
    /// boundary and the repartition of a first aggregation right below it, which merges the results
    /// before they cross the network.
    pub open spec fn merges_below_boundaries_of(self, plan: PlanView) -> bool
        decreases plan,
    {
        &&& self.op == plan.op
        &&& self.facts == plan.facts
        &&& self.variants == plan.variants
        &&& self.children.len() == plan.children.len()
        &&& forall|i: int|
            #![trigger self.children[i]]
            0 <= i < plan.children.len() ==> {
                let child = self.children[i];
                let input = plan.children[i];
                if (plan.op is NetworkShuffle || plan.op is NetworkCoalesce || plan.op
                    is NetworkBroadcast) && spreads_results(input) {
                    &&& merges_results(child.op, input.children[0].op)
                    &&& child.children.len() == 1
                    &&& child.children[0].merges_below_boundaries_of(input)
                } else {
                    child.merges_below_boundaries_of(input)
                }
            }
    }
}

/// The columns that are read differ wherever the groups do: no two places read the same column.
pub proof fn read_columns_differ(
    grouped: Seq<(ExprView, Seq<char>)>,
    columns: Seq<(ExprView, Seq<char>)>,
    i: int,
    j: int,
)
    requires
        reads_columns(grouped, columns),
        0 <= i < columns.len() <= usize::MAX,
        0 <= j < columns.len(),
        i != j,
    ensures
        columns[i].0 != columns[j].0,
{
    assert(columns[i].0->Column_index == i as usize);
    assert(columns[j].0->Column_index == j as usize);
}

proof fn all_partial_results_are_merged(plans: Seq<PlanView>)
    ensures
        crate::partial_reduce_below_network_shuffles::reduced_all(plans) matches Ok(results)
            ==> results.len() == plans.len() && forall|i: int|
            0 <= i < plans.len() ==> (#[trigger] results[i]).merges_below_boundaries_of(plans[i]),
    decreases plans, 1nat,
{
    if plans.len() > 0 {
        all_partial_results_are_merged(plans.drop_last());
        partial_results_are_merged(plans.last());
        if let Ok(results) = crate::partial_reduce_below_network_shuffles::reduced_all(plans) {
            assert forall|i: int| 0 <= i < plans.len() implies (
            #[trigger] results[i]).merges_below_boundaries_of(plans[i]) by {
                if i < plans.len() - 1 {
                    assert(plans.drop_last()[i] == plans[i]);
                }
            }
        }
    }
}

/// A plan whose partial aggregates are merged does what it did, and merges the results of every
/// first aggregation that is spread by keys right below a network boundary. The groups stay apart.
pub proof fn partial_results_are_merged(plan: PlanView)
    ensures
        plan.reduced() matches Ok(result) ==> result.merges_below_boundaries_of(plan),
    decreases plan, 0nat,
{
    if let Ok(result) = plan.reduced() {
        all_partial_results_are_merged(plan.children);
        let children = crate::partial_reduce_below_network_shuffles::reduced_all(
            plan.children,
        )->Ok_0;
        assert forall|i: int|
            #![trigger result.children[i]]
            0 <= i < plan.children.len() implies {
            let child = result.children[i];
            let input = plan.children[i];
            if (plan.op is NetworkShuffle || plan.op is NetworkCoalesce || plan.op
                is NetworkBroadcast) && spreads_results(input) {
                &&& merges_results(child.op, input.children[0].op)
                &&& child.children.len() == 1
                &&& child.children[0].merges_below_boundaries_of(input)
            } else {
                child.merges_below_boundaries_of(input)
            }
        } by {
            let input = plan.children[i];
            assert(children[i].merges_below_boundaries_of(input));
            if plan.op.is_network_boundary() {
                assert(children.len() == 1 && i == 0);
                let reduced = children[0];
                assert(reduced.op == input.op);
                reveal_with_fuel(PlanView::merges_below_boundaries_of, 2);
                if input.op is Repartition && input.children.len() > 0 {
                    let below = reduced.children[0];
                    assert(below.merges_below_boundaries_of(input.children[0]));
                }
                if spreads_results(input) {
                    assert(reduced.merging_aggregate() matches Ok(Some(aggregate))
                        && result.children[0] == aggregate);
                } else {
                    assert(result.children[0] == reduced);
                }
            } else {
                assert(result.children[i] == children[i]);
            }
        }
    }
}

/// Merging fails only where a network boundary, or a repartition by keys right below one, does not
/// have exactly one input.
pub open spec fn has_wrong_inputs(plan: PlanView, error: DistributedErrorView) -> bool {
    &&& plan.op is NetworkShuffle || plan.op is NetworkCoalesce || plan.op is NetworkBroadcast
    &&& if plan.children.len() != 1 {
        error == (ErrorKind::ExpectedOneChild { got: plan.children.len() as usize }).plain()
    } else {
        let child = plan.children[0];
        (child.op matches OperatorView::Repartition { partitioning } && partitioning is Hash)
            && child.children.len() != 1 && error == (ErrorKind::ExpectedOneChild {
            got: child.children.len() as usize,
        }).plain()
    }
}

proof fn merging_failures_of_lists(plans: Seq<PlanView>)
    ensures
        crate::partial_reduce_below_network_shuffles::reduced_all(plans) matches Err(error)
            ==> exists|child: int, path: Seq<int>|
            0 <= child < plans.len() && #[trigger] plans[child].leads(path) && has_wrong_inputs(
                plans[child].at(path),
                error,
            ),
    decreases plans, 1nat,
{
    if plans.len() > 0 {
        let shorter = plans.drop_last();
        merging_failures_of_lists(shorter);
        merging_failures_have_a_reason(plans.last());
        if let Err(error) = crate::partial_reduce_below_network_shuffles::reduced_all(plans) {
            if crate::partial_reduce_below_network_shuffles::reduced_all(shorter) is Err {
                let (child, path) = choose|child: int, path: Seq<int>|
                    0 <= child < shorter.len() && #[trigger] shorter[child].leads(path)
                        && has_wrong_inputs(shorter[child].at(path), error);
                assert(plans[child].leads(path));
            } else {
                let path = choose|path: Seq<int>| #[trigger]
                    plans.last().leads(path) && has_wrong_inputs(plans.last().at(path), error);
                assert(plans[plans.len() - 1].leads(path));
            }
        }
    }
}

/// Where merging fails, a network boundary of the plan is the reason: it, or the repartition by
/// keys right below it, does not have exactly one input.
pub proof fn merging_failures_have_a_reason(plan: PlanView)
    ensures
        plan.reduced() matches Err(error) ==> exists|path: Seq<int>| #[trigger]
            plan.leads(path) && has_wrong_inputs(plan.at(path), error),
    decreases plan, 0nat,
{
    if let Err(error) = plan.reduced() {
        merging_failures_of_lists(plan.children);
        all_partial_results_are_merged(plan.children);
        if crate::partial_reduce_below_network_shuffles::reduced_all(plan.children) is Err {
            let (child, path) = choose|child: int, path: Seq<int>|
                0 <= child < plan.children.len() && #[trigger] plan.children[child].leads(path)
                    && has_wrong_inputs(plan.children[child].at(path), error);
            crate::plan_paths::ways_start_with_a_child(plan, child, path);
            assert(plan.leads(seq![child] + path));
        } else {
            let children = crate::partial_reduce_below_network_shuffles::reduced_all(
                plan.children,
            )->Ok_0;
            if children.len() == 1 {
                assert(children[0].merges_below_boundaries_of(plan.children[0]));
            }
            let here = Seq::<int>::empty();
            assert(plan.leads(here) && has_wrong_inputs(plan.at(here), error));
        }
    }
}

} // verus!

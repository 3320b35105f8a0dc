//! Merges partial aggregates before they cross the network. Above a hash repartition equal keys
//! already share a partition, so an aggregation there shrinks what the boundary has to carry.
use crate::error::{DistributedError, DistributedErrorView, ErrorKind};
use crate::plan::{
    only, require_one_child, AggregateMode, Expr, ExprView, GroupBy, GroupByView, Operator,
    OperatorView, Partitioning, Plan, PlanView,
};
use std::sync::Arc;
use vstd::prelude::*;

verus! {

/// The columns under which an aggregation outputs these expressions: by name, in order, from the
/// first column on.
pub open spec fn output_columns(named: Seq<(ExprView, Seq<char>)>) -> Seq<(ExprView, Seq<char>)> {
    Seq::new(
        named.len(),
        |i: int| (ExprView::Column { name: named[i].1, index: i as usize }, named[i].1),
    )
}

/// The grouping that groups the output of an aggregation with this grouping once more.
pub open spec fn regrouped(group_by: GroupByView) -> GroupByView {
    GroupByView {
        exprs: output_columns(group_by.exprs),
        null_exprs: output_columns(group_by.null_exprs),
        groups: group_by.groups,
        has_grouping_set: group_by.has_grouping_set,
    }
}

impl PlanView {
    /// The aggregation that merges the rows of this plan, where it is a hash repartition of a
    /// partial aggregation.
    pub open spec fn merging_aggregate(self) -> Result<Option<PlanView>, DistributedErrorView> {
        match self.op {
            OperatorView::Repartition { partitioning } if partitioning is Hash => {
                if self.children.len() != 1 {
                    Err((ErrorKind::ExpectedOneChild { got: self.children.len() as usize }).plain())
                } else {
                    match self.children[0].op {
                        OperatorView::Aggregate {
                            mode: AggregateMode::Partial,
                            group_by,
                            aggregates,
                            filters,
                            input_schema,
                        } => Ok(
                            Some(
                                crate::plan::new_node(
                                    OperatorView::Aggregate {
                                        mode: AggregateMode::PartialReduce,
                                        group_by: regrouped(group_by),
                                        aggregates,
                                        filters,
                                        input_schema,
                                    },
                                    seq![self],
                                ),
                            ),
                        ),
                        _ => Ok(None),
                    }
                }
            },
            _ => Ok(None),
        }
    }

    /// A node whose children have been treated. A network boundary reads through the merging
    /// aggregation where there is one.
    pub open spec fn reduced_node(self) -> Result<PlanView, DistributedErrorView> {
        if !self.op.is_network_boundary() {
            Ok(self)
        } else if self.children.len() != 1 {
            Err((ErrorKind::ExpectedOneChild { got: self.children.len() as usize }).plain())
        } else {
            match self.children[0].merging_aggregate() {
                Err(error) => Err(error),
                Ok(None) => Ok(self),
                Ok(Some(aggregate)) => Ok(self.over(seq![aggregate])),
            }
        }
    }

    /// The plan with partial aggregates merged below its network boundaries, from the leaves
    /// upwards.
    pub open spec fn reduced(self) -> Result<PlanView, DistributedErrorView>
        decreases self, 0nat,
    {
        match crate::partial_reduce_below_network_shuffles::reduced_all(self.children) {
            Err(error) => Err(error),
            Ok(children) => self.over(children).reduced_node(),
        }
    }
}

pub open spec fn reduced_all(plans: Seq<PlanView>) -> Result<Seq<PlanView>, DistributedErrorView>
    decreases plans, 1nat,
{
    if plans.len() == 0 {
        Ok(Seq::empty())
    } else {
        match reduced_all(plans.drop_last()) {
            Err(error) => Err(error),
            Ok(before) => match plans.last().reduced() {
                Err(error) => Err(error),
                Ok(plan) => Ok(before.push(plan)),
            },
        }
    }
}

proof fn reduction_error_is_final(plans: Seq<PlanView>, upto: int)
    requires
        0 <= upto <= plans.len(),
        reduced_all(plans.take(upto)) is Err,
    ensures
        reduced_all(plans) == reduced_all(plans.take(upto)),
    decreases plans.len() - upto,
{
    if upto == plans.len() {
        assert(plans.take(upto) =~= plans);
    } else {
        assert(plans.take(upto + 1).drop_last() =~= plans.take(upto));
        reduction_error_is_final(plans, upto + 1);
    }
}

fn columns_of(named: &Vec<(Expr, String)>) -> (result: Vec<(Expr, String)>)
    ensures
        result@.map_values(|named: (Expr, String)| (named.0@, named.1@)) =~= output_columns(
            named@.map_values(|named: (Expr, String)| (named.0@, named.1@)),
        ),
{
    let mut result: Vec<(Expr, String)> = Vec::new();
    let mut i: usize = 0;
    while i < named.len()
        invariant
            0 <= i <= named@.len(),
            result@.len() == i,
            forall|j: int|
                0 <= j < i ==> (#[trigger] result@[j]).0@ == (ExprView::Column {
                    name: named@[j].1@,
                    index: j as usize,
                }) && result@[j].1@ == named@[j].1@,
        decreases named@.len() - i,
    {
        let name = &named[i].1;
        result.push((Expr::Column { name: name.clone(), index: i }, name.clone()));
        i += 1;
    }
    result
}

fn regroup(group_by: &GroupBy) -> (result: GroupBy)
    ensures
        result@ == regrouped(group_by@),
{
    GroupBy {
        exprs: columns_of(&group_by.exprs),
        null_exprs: columns_of(&group_by.null_exprs),
        groups: Arc::clone(&group_by.groups),
        has_grouping_set: group_by.has_grouping_set,
    }
}

fn merge_aggregate(plan: &Arc<Plan>) -> (result: Result<Option<Arc<Plan>>, DistributedError>)
    ensures
        match result {
            Ok(Some(aggregate)) => plan@.merging_aggregate() == Ok::<_, DistributedErrorView>(
                Some(aggregate@),
            ),
            Ok(None) => plan@.merging_aggregate() == Ok::<_, DistributedErrorView>(
                None::<PlanView>,
            ),
            Err(error) => plan@.merging_aggregate() == Err::<Option<PlanView>, _>(error@),
        },
{
    match &*plan.op {
        Operator::Repartition { partitioning: Partitioning::Hash(..) } => {},
        _ => {
            return Ok(None);
        },
    }
    let grandchild = require_one_child(&plan.children)?;
    proof {
        assert(plan@.children[0] == grandchild@);
    }
    match &*grandchild.op {
        Operator::Aggregate {
            mode: AggregateMode::Partial,
            group_by,
            aggregates,
            filters,
            input_schema,
        } => Ok(
            Some(
                Plan::node(
                    Operator::Aggregate {
                        mode: AggregateMode::PartialReduce,
                        group_by: regroup(group_by),
                        aggregates: Arc::clone(aggregates),
                        filters: Arc::clone(filters),
                        input_schema: Arc::clone(input_schema),
                    },
                    only(Arc::clone(plan)),
                ),
            ),
        ),
        _ => Ok(None),
    }
}

fn reduce_node(node: Arc<Plan>) -> (result: Result<Arc<Plan>, DistributedError>)
    ensures
        crate::error::viewed(result) == node@.reduced_node(),
{
    if !node.op.is_network_boundary() {
        return Ok(node);
    }
    let child = require_one_child(&node.children)?;
    proof {
        assert(node@.children[0] == child@);
    }
    match merge_aggregate(&child)? {
        None => Ok(node),
        Some(aggregate) => Ok(node.with_new_children(only(aggregate))),
    }
}

fn reduce(plan: &Arc<Plan>) -> (result: Result<Arc<Plan>, DistributedError>)
    ensures
        crate::error::viewed(result) == plan@.reduced(),
    decreases plan,
{
    let ghost all = plan@.children;
    let mut children: Vec<Arc<Plan>> = Vec::new();
    let mut i: usize = 0;
    proof {
        assert(all.take(0) =~= Seq::<PlanView>::empty());
        assert(crate::plan::views(children@) =~= Seq::<PlanView>::empty());
    }
    while i < plan.children.len()
        invariant
            0 <= i <= plan.children@.len(),
            all == plan@.children,
            all.len() == plan.children@.len(),
            reduced_all(all.take(i as int)) == Ok::<_, DistributedErrorView>(
                crate::plan::views(children@),
            ),
        decreases plan.children@.len() - i,
    {
        let child = &plan.children[i];
        proof {
            assert(all[i as int] == child@);
            assert(all.take(i + 1).drop_last() =~= all.take(i as int));
            if reduced_all(all.take(i + 1)) is Err {
                reduction_error_is_final(all, i + 1);
            }
        }
        let reduced = reduce(child)?;
        let ghost before = children@;
        children.push(reduced);
        proof {
            assert(crate::plan::views(children@) =~= crate::plan::views(before).push(reduced@));
        }
        i += 1;
    }
    proof {
        assert(all.take(i as int) =~= all);
    }
    reduce_node(plan.with_new_children(children))
}

/// Merges partial aggregates below the network boundaries of a plan, where that is enabled.
pub fn partial_reduce_below_network_shuffles(plan: &Arc<Plan>, partial_reduce: bool) -> (result:
    Result<Arc<Plan>, DistributedError>)
    ensures
        partial_reduce ==> crate::error::viewed(result) == plan@.reduced(),
        !partial_reduce ==> result == Ok::<_, DistributedError>(*plan),
{
    if !partial_reduce {
        return Ok(Arc::clone(plan));
    }
    reduce(plan)
}

proof fn reduced_lists_stay(plans: Seq<PlanView>)
    requires
        reduced_all(plans) is Ok,
    ensures
        reduced_all(plans)->Ok_0.len() == plans.len(),
        reduced_all(reduced_all(plans)->Ok_0) == reduced_all(plans),
    decreases plans, 1nat,
{
    if plans.len() > 0 {
        reduced_lists_stay(plans.drop_last());
        reducing_is_idempotent(plans.last());
        let before = reduced_all(plans.drop_last())->Ok_0;
        let result = reduced_all(plans)->Ok_0;
        assert(result.drop_last() =~= before);
    }
}

/// Merging partial aggregates a second time finds nothing left to merge.
pub proof fn reducing_is_idempotent(plan: PlanView)
    requires
        plan.reduced() is Ok,
    ensures
        plan.reduced()->Ok_0.reduced() == plan.reduced(),
    decreases plan, 0nat,
{
    reduced_lists_stay(plan.children);
    let children = reduced_all(plan.children)->Ok_0;
    let result = plan.reduced()->Ok_0;
    let merging = children[0].merging_aggregate();
    if plan.op.is_network_boundary() && merging is Ok && merging->Ok_0 is Some {
        let child = children[0];
        let aggregate = merging->Ok_0->Some_0;
        assert(result == plan.over(seq![aggregate]));
        assert(children =~= seq![child]);
        reveal_with_fuel(reduced_all, 3);
        assert(seq![child].drop_last() =~= Seq::<PlanView>::empty());
        assert(seq![aggregate].drop_last() =~= Seq::<PlanView>::empty());
        assert(Seq::<PlanView>::empty().push(child) =~= seq![child]);
        assert(child.reduced() == Ok::<_, DistributedErrorView>(child)) by {
            assert(reduced_all(seq![child]) == Ok::<_, DistributedErrorView>(seq![child]));
            assert(seq![child].last() == child);
            let again = child.reduced()->Ok_0;
            assert(Seq::<PlanView>::empty().push(again)[0] == again);
        }
        assert(aggregate.children =~= seq![child]);
        assert(reduced_all(aggregate.children) == Ok::<_, DistributedErrorView>(seq![child]));
        assert(aggregate.over(seq![child]) == aggregate);
        assert(aggregate.reduced() == Ok::<_, DistributedErrorView>(aggregate));
        assert(Seq::<PlanView>::empty().push(aggregate) =~= seq![aggregate]);
        assert(reduced_all(result.children) == Ok::<_, DistributedErrorView>(seq![aggregate]));
        assert(result.over(seq![aggregate]) == result);
    } else {
        assert(result == plan.over(children));
        assert(result.over(children) == result);
    }
}

} // verus!

//! Limits what a stage sends over the network to what its consumer takes. A node that gathers the
//! tasks of a stage and stops after some rows never needs more than that of any partition.
use crate::plan::{only, share_all, Operator, OperatorView, Plan, PlanView, Stage};
use std::sync::Arc;
use vstd::prelude::*;

verus! {

impl PlanView {
    /// Whether the node gathers the tasks of a stage whose plan is at hand.
    pub open spec fn gathers_local_stage(self) -> bool {
        &&& self.op matches OperatorView::NetworkCoalesce { stage, .. } && stage is Local
        &&& self.children.len() == 1
    }

    /// The limit that the node puts on the stage right below it, if it does.
    pub open spec fn fetch_below(self) -> Option<usize> {
        match self.op {
            OperatorView::CoalescePartitions { fetch: Some(fetch) } if self.children.len() == 1
                && self.children[0].gathers_local_stage() => Some(fetch),
            _ => None,
        }
    }

    /// The node with its only input limited to this many rows of each partition.
    pub open spec fn with_limited_input(self, fetch: usize) -> PlanView {
        self.over(
            seq![crate::plan::new_node(OperatorView::LocalLimit { fetch }, self.children)],
        )
    }

    /// The plan with every stage limited to the rows that its consumer takes.
    pub open spec fn fetches_pushed(self) -> PlanView
        decreases self,
    {
        let children = Seq::new(
            self.children.len(),
            |i: int|
                if 0 <= i < self.children.len() {
                    self.children[i].fetches_pushed()
                } else {
                    arbitrary()
                },
        );
        match self.fetch_below() {
            Some(fetch) => self.over(seq![children[0].with_limited_input(fetch)]),
            None => self.over(children),
        }
    }
}

fn fetch_for_stage(plan: &Plan) -> (result: Option<usize>)
    ensures
        result == plan@.fetch_below(),
{
    let fetch: usize = match &*plan.op {
        Operator::CoalescePartitions { fetch: Some(fetch) } => *fetch,
        _ => {
            return None;
        },
    };
    if plan.children.len() != 1 {
        return None;
    }
    let child = &plan.children[0];
    proof {
        assert(plan@.children[0] == child@);
    }
    match &*child.op {
        Operator::NetworkCoalesce { stage: Stage::Local { .. }, .. } => {
            if child.children.len() == 1 {
                Some(fetch)
            } else {
                None
            }
        },
        _ => None,
    }
}

/// Limits every stage to the rows that its consumer takes.
pub fn push_fetch_into_network_coalesce(plan: &Arc<Plan>) -> (result: Arc<Plan>)
    ensures
        result@ == plan@.fetches_pushed(),
    decreases plan,
{
    let ghost expected = Seq::new(
        plan@.children.len(),
        |i: int|
            if 0 <= i < plan@.children.len() {
                plan@.children[i].fetches_pushed()
            } else {
                arbitrary()
            },
    );
    let mut children: Vec<Arc<Plan>> = Vec::new();
    let mut i: usize = 0;
    while i < plan.children.len()
        invariant
            0 <= i <= plan.children@.len(),
            children@.len() == i,
            expected.len() == plan.children@.len(),
            plan@.children.len() == plan.children@.len(),
            forall|j: int|
                0 <= j < expected.len() ==> #[trigger] expected[j]
                    == plan@.children[j].fetches_pushed(),
            forall|j: int| 0 <= j < i ==> (#[trigger] children@[j])@ == expected[j],
        decreases plan.children@.len() - i,
    {
        let child = &plan.children[i];
        proof {
            assert(plan@.children[i as int] == child@);
        }
        children.push(push_fetch_into_network_coalesce(child));
        i += 1;
    }
    proof {
        assert(crate::plan::views(children@) =~= expected);
    }
    if let Some(fetch) = fetch_for_stage(plan) {
        let boundary = Arc::clone(&children[0]);
        let limit = Plan::node(Operator::LocalLimit { fetch }, share_children(&boundary));
        let limited = boundary.with_new_children(only(limit));
        return plan.with_new_children(only(limited));
    }
    proof {
        assert(plan@.fetches_pushed().children =~= expected);
    }
    plan.with_new_children(children)
}

fn share_children(plan: &Plan) -> (result: Vec<Arc<Plan>>)
    ensures
        crate::plan::views(result@) == plan@.children,
{
    let children = share_all(&plan.children);
    proof {
        assert(crate::plan::views(children@) =~= plan@.children);
    }
    children
}

impl PlanView {
    /// Whether every stage is limited to the rows that its consumer takes.
    pub open spec fn fetches_in_place(self) -> bool
        decreases self,
    {
        &&& self.fetch_below() matches Some(fetch) ==> self.children[0].children[0].op == (
        OperatorView::LocalLimit { fetch })
        &&& forall|i: int|
            0 <= i < self.children.len() ==> (#[trigger] self.children[i]).fetches_in_place()
    }
}

/// Once fetches are pushed, no stage sends more rows of a partition than its consumer takes.
pub proof fn every_fetch_is_in_place(plan: PlanView)
    ensures
        plan.fetches_pushed().fetches_in_place(),
    decreases plan,
{
    let result = plan.fetches_pushed();
    if let Some(fetch) = plan.fetch_below() {
        let boundary = plan.children[0];
        every_fetch_is_in_place(boundary);
        let pushed = boundary.fetches_pushed();
        let limited = pushed.with_limited_input(fetch);
        let limit = limited.children[0];
        assert(pushed.fetches_in_place());
        assert(limit.children == pushed.children);
        assert(limit.fetches_in_place());
        assert(limited.fetches_in_place());
        assert(result.children =~= seq![limited]);
    } else {
        assert forall|i: int| 0 <= i < result.children.len() implies (
        #[trigger] result.children[i]).fetches_in_place() by {
            every_fetch_is_in_place(plan.children[i]);
        }
        if result.fetch_below() is Some {
            assert(result.children[0] == plan.children[0].fetches_pushed());
        }
    }
}

proof fn alike_lists_have_alike_totals(one: Seq<PlanView>, other: Seq<PlanView>)
    requires
        one.len() == other.len(),
        forall|i: int|
            0 <= i < one.len() ==> (#[trigger] one[i]).partition_count()
                == other[i].partition_count(),
    ensures
        crate::plan::total_partitions(one) == crate::plan::total_partitions(other),
    decreases one.len(),
{
    if one.len() > 0 {
        assert forall|i: int| 0 <= i < one.len() - 1 implies (
        #[trigger] one.drop_last()[i]).partition_count()
            == other.drop_last()[i].partition_count() by {
            assert(one[i].partition_count() == other[i].partition_count());
        }
        alike_lists_have_alike_totals(one.drop_last(), other.drop_last());
        assert(one[one.len() - 1].partition_count() == other[one.len() - 1].partition_count());
    }
}

/// Pushing fetches does not change how many partitions a plan has.
pub proof fn pushing_keeps_partitions(plan: PlanView)
    ensures
        plan.fetches_pushed().partition_count() == plan.partition_count(),
    decreases plan,
{
    let result = plan.fetches_pushed();
    if plan.fetch_below() is None {
        assert forall|i: int| 0 <= i < plan.children.len() implies (
        #[trigger] result.children[i]).partition_count() == plan.children[i].partition_count() by {
            pushing_keeps_partitions(plan.children[i]);
        }
        alike_lists_have_alike_totals(result.children, plan.children);
    }
}

} // verus!

//! What the engine reports of the nodes of a plan. The planner asks for it whenever the plan has
//! taken on a new shape, since what holds of a node depends on the nodes around it.
use crate::plan::{share_all, Facts, Plan, PlanView};
use std::sync::Arc;
use vstd::prelude::*;

verus! {

impl PlanView {
    /// The number of nodes of the plan.
    pub open spec fn size(self) -> nat
        decreases self, 0nat,
    {
        1 + crate::engine_reports::sizes(self.children)
    }

    /// The plan with what was reported of each of its nodes, each node before the nodes below it,
    /// beginning with the report at index `at`.
    pub open spec fn reported(self, facts: Seq<Arc<Facts>>, at: nat) -> PlanView
        decreases self, 0nat,
    {
        PlanView {
            facts: Some(facts[at as int]),
            children: crate::engine_reports::reported_all(self.children, facts, at + 1),
            ..self
        }
    }
}

/// The number of nodes of several plans.
pub open spec fn sizes(plans: Seq<PlanView>) -> nat
    decreases plans, 1nat,
{
    if plans.len() == 0 {
        0
    } else {
        sizes(plans.drop_last()) + plans.last().size()
    }
}

/// Several plans with what was reported of each of their nodes, one plan after the other.
pub open spec fn reported_all(plans: Seq<PlanView>, facts: Seq<Arc<Facts>>, at: nat) -> Seq<PlanView>
    decreases plans, 1nat,
{
    if plans.len() == 0 {
        Seq::empty()
    } else {
        reported_all(plans.drop_last(), facts, at).push(
            plans.last().reported(facts, at + sizes(plans.drop_last())),
        )
    }
}

proof fn sizes_grow(plans: Seq<PlanView>, upto: int)
    requires
        0 <= upto <= plans.len(),
    ensures
        sizes(plans.take(upto)) <= sizes(plans),
    decreases plans.len() - upto,
{
    if upto == plans.len() {
        assert(plans.take(upto) =~= plans);
    } else {
        sizes_grow(plans, upto + 1);
        assert(plans.take(upto + 1).drop_last() =~= plans.take(upto));
    }
}

/// A plan with the reports from index `at` on, and the index after them.
fn attach(plan: &Plan, facts: &Vec<Arc<Facts>>, at: usize) -> (result: Option<(Arc<Plan>, usize)>)
    requires
        at <= facts@.len(),
    ensures
        match result {
            Some((reported, next)) => {
                &&& next == at + plan@.size()
                &&& next <= facts@.len()
                &&& reported@ == plan@.reported(facts@, at as nat)
            },
            None => at + plan@.size() > facts@.len(),
        },
    decreases plan,
{
    if at == facts.len() {
        return None;
    }
    let ghost all = plan@.children;
    let mut children: Vec<Arc<Plan>> = Vec::new();
    let mut next: usize = at + 1;
    let mut i: usize = 0;
    proof {
        assert(all.take(0) =~= Seq::<PlanView>::empty());
        assert(crate::plan::views(children@) =~= Seq::<PlanView>::empty());
    }
    while i < plan.children.len()
        invariant
            0 <= i <= plan.children@.len(),
            all == plan@.children,
            all.len() == plan.children@.len(),
            at < facts@.len(),
            next == at + 1 + sizes(all.take(i as int)),
            next <= facts@.len(),
            crate::plan::views(children@) == reported_all(
                all.take(i as int),
                facts@,
                (at + 1) as nat,
            ),
        decreases plan.children@.len() - i,
    {
        let child = &plan.children[i];
        proof {
            assert(all[i as int] == child@);
            assert(all.take(i + 1).drop_last() =~= all.take(i as int));
            sizes_grow(all, i + 1);
        }
        match attach(child, facts, next) {
            None => {
                return None;
            },
            Some((reported, after)) => {
                let ghost before = children@;
                children.push(reported);
                next = after;
                proof {
                    assert(crate::plan::views(children@) =~= crate::plan::views(before).push(
                        reported@,
                    ));
                }
            },
        }
        i += 1;
    }
    proof {
        assert(all.take(i as int) =~= all);
    }
    let result = Arc::new(
        Plan {
            op: Arc::clone(&plan.op),
            facts: Some(Arc::clone(&facts[at])),
            task_count: plan.task_count,
            children,
            variants: share_all(&plan.variants),
        },
    );
    proof {
        assert(result@.children =~= crate::plan::views(children@));
        assert(result@.variants =~= plan@.variants);
    }
    Some((result, next))
}

/// A plan with what was reported of its nodes, each node before the nodes below it. There must be
/// one report for each of them.
pub fn with_reports(plan: &Plan, facts: &Vec<Arc<Facts>>) -> (result: Option<Arc<Plan>>)
    ensures
        match result {
            Some(reported) => facts@.len() == plan@.size() && reported@ == plan@.reported(
                facts@,
                0,
            ),
            None => facts@.len() != plan@.size(),
        },
{
    match attach(plan, facts, 0) {
        Some((reported, next)) => if next == facts.len() {
            Some(reported)
        } else {
            None
        },
        None => None,
    }
}

impl PlanView {
    /// Whether two plans differ in what was reported of their nodes at most.
    pub open spec fn same_but_facts(self, other: PlanView) -> bool
        decreases self,
    {
        &&& self.op == other.op
        &&& self.task_count == other.task_count
        &&& self.children.len() == other.children.len()
        &&& forall|i: int|
            0 <= i < self.children.len() ==> (#[trigger] self.children[i]).same_but_facts(
                other.children[i],
            )
    }
}

proof fn reports_keep_plans_all(plans: Seq<PlanView>, facts: Seq<Arc<Facts>>, at: nat)
    ensures
        reported_all(plans, facts, at).len() == plans.len(),
        forall|i: int|
            0 <= i < plans.len() ==> (#[trigger] plans[i]).same_but_facts(
                reported_all(plans, facts, at)[i],
            ),
    decreases plans, 1nat,
{
    if plans.len() > 0 {
        let shorter = plans.drop_last();
        reports_keep_plans_all(shorter, facts, at);
        reports_keep_plans(plans.last(), facts, at + sizes(shorter));
        assert forall|i: int| 0 <= i < plans.len() implies (#[trigger] plans[i]).same_but_facts(
            reported_all(plans, facts, at)[i],
        ) by {
            if i < shorter.len() {
                assert(shorter[i].same_but_facts(reported_all(shorter, facts, at)[i]));
            }
        }
    }
}

/// Reports leave the nodes of a plan, and the order of them, as they are.
pub proof fn reports_keep_plans(plan: PlanView, facts: Seq<Arc<Facts>>, at: nat)
    ensures
        plan.same_but_facts(plan.reported(facts, at)),
    decreases plan, 0nat,
{
    reports_keep_plans_all(plan.children, facts, at + 1);
}

} // verus!

//! The nodes of a plan by the ways that lead to them.
use crate::plan::PlanView;
use vstd::prelude::*;

verus! {

impl PlanView {
    /// Whether the way, which names a child at each step, leads to a node of the plan.
    pub open spec fn leads(self, path: Seq<int>) -> bool
        decreases path.len(),
    {
        path.len() > 0 ==> 0 <= path[0] < self.children.len() && self.children[path[0]].leads(
            path.drop_first(),
        )
    }

    /// The node that the way leads to.
    pub open spec fn at(self, path: Seq<int>) -> PlanView
        decreases path.len(),
    {
        if path.len() == 0 {
            self
        } else {
            self.children[path[0]].at(path.drop_first())
        }
    }

    /// Whether the node is the plan or occurs below it.
    pub open spec fn has_node(self, node: PlanView) -> bool {
        exists|path: Seq<int>| #[trigger] self.leads(path) && self.at(path) == node
    }
}

/// A way that starts with a child goes on below that child.
pub proof fn ways_start_with_a_child(plan: PlanView, child: int, path: Seq<int>)
    requires
        0 <= child < plan.children.len(),
        plan.children[child].leads(path),
    ensures
        plan.leads(seq![child] + path),
        plan.at(seq![child] + path) == plan.children[child].at(path),
{
    assert((seq![child] + path).drop_first() =~= path);
}

proof fn nodes_below_are_listed(plans: Seq<PlanView>, child: int, path: Seq<int>)
    requires
        0 <= child < plans.len(),
        plans[child].leads(path),
    ensures
        crate::recursion::pre_order_all(plans).contains(plans[child].at(path)),
    decreases path.len(), plans.len(),
{
    let node = plans[child].at(path);
    let before = crate::recursion::pre_order_all(plans.drop_last());
    let last = plans.last().pre_order();
    if child == plans.len() - 1 {
        every_node_is_listed(plans.last(), path);
        let i = choose|i: int| 0 <= i < last.len() && last[i] == node;
        assert((before + last)[before.len() + i] == node);
    } else {
        assert(plans.drop_last()[child] == plans[child]);
        nodes_below_are_listed(plans.drop_last(), child, path);
        let i = choose|i: int| 0 <= i < before.len() && before[i] == node;
        assert((before + last)[i] == node);
    }
}

proof fn every_node_is_listed(plan: PlanView, path: Seq<int>)
    requires
        plan.leads(path),
    ensures
        plan.pre_order().contains(plan.at(path)),
    decreases path.len(), 0nat,
{
    if path.len() == 0 {
        assert(plan.pre_order()[0] == plan);
    } else {
        let below = crate::recursion::pre_order_all(plan.children);
        let rest = path.drop_first();
        nodes_below_are_listed(plan.children, path[0], rest);
        let node = plan.at(path);
        let i = choose|i: int| 0 <= i < below.len() && below[i] == node;
        assert(plan.pre_order()[i + 1] == node);
    }
}

proof fn listed_nodes_are_below(plans: Seq<PlanView>, i: int)
    requires
        0 <= i < crate::recursion::pre_order_all(plans).len(),
    ensures
        exists|child: int|
            0 <= child < plans.len() && (#[trigger] plans[child]).has_node(
                crate::recursion::pre_order_all(plans)[i],
            ),
    decreases plans, 1nat,
{
    let before = crate::recursion::pre_order_all(plans.drop_last());
    if i < before.len() {
        listed_nodes_are_below(plans.drop_last(), i);
        let child = choose|child: int|
            0 <= child < plans.len() - 1 && (#[trigger] plans.drop_last()[child]).has_node(
                before[i],
            );
        assert(plans[child].has_node(before[i]));
    } else {
        listed_nodes_occur(plans.last(), i - before.len());
        assert(plans[plans.len() - 1] == plans.last());
    }
}

proof fn listed_nodes_occur(plan: PlanView, i: int)
    requires
        0 <= i < plan.pre_order().len(),
    ensures
        plan.has_node(plan.pre_order()[i]),
    decreases plan, 0nat,
{
    if i == 0 {
        assert(plan.leads(Seq::empty()) && plan.at(Seq::empty()) == plan);
    } else {
        listed_nodes_are_below(plan.children, i - 1);
        let node = crate::recursion::pre_order_all(plan.children)[i - 1];
        let child = choose|child: int|
            0 <= child < plan.children.len() && (#[trigger] plan.children[child]).has_node(node);
        let path = choose|path: Seq<int>| #[trigger]
            plan.children[child].leads(path) && plan.children[child].at(path) == node;
        ways_start_with_a_child(plan, child, path);
        assert(plan.leads(seq![child] + path));
    }
}

/// The list of the nodes of a plan begins with the plan itself and holds the nodes that ways lead
/// to, all of them and no others.
pub proof fn pre_order_lists_the_nodes(plan: PlanView, node: PlanView)
    ensures
        plan.pre_order().len() > 0 && plan.pre_order()[0] == plan,
        plan.pre_order().contains(node) <==> plan.has_node(node),
{
    if plan.has_node(node) {
        let path = choose|path: Seq<int>| #[trigger] plan.leads(path) && plan.at(path) == node;
        every_node_is_listed(plan, path);
    }
    if plan.pre_order().contains(node) {
        let i = choose|i: int| 0 <= i < plan.pre_order().len() && plan.pre_order()[i] == node;
        listed_nodes_occur(plan, i);
    }
}

} // verus!

//! Where walks over plans go on, and where they end.
use crate::error::DistributedErrorView;
use crate::plan::{DistributedTaskContext, PlanView};
use crate::reconstruction_laws::stage_below;
use crate::recursion::{
    applied, applied_all, applied_routes, rewritten_down, rewritten_up, rewritten_up_all,
    DownRewriter, Rewriter, Scope, TreeNodeRecursion, Visitor,
};
use vstd::prelude::*;

verus! {

/// A visitor that jumps over the children of a node, stops or fails is shown no node below it.
/// Nodes below a network boundary are not shown at all.
pub proof fn visits_end_at_the_node<V: Visitor>(
    state: V::State,
    plan: PlanView,
    ctx: DistributedTaskContext,
)
    ensures
        ({
            let (next, answer) = V::visited(state, plan, ctx);
            let (after, outcome) = applied::<V>(state, plan, ctx);
            match answer {
                Ok(TreeNodeRecursion::Jump) => after == next && outcome
                    == Ok::<_, DistributedErrorView>(TreeNodeRecursion::Continue),
                Ok(TreeNodeRecursion::Stop) => after == next && outcome
                    == Ok::<_, DistributedErrorView>(TreeNodeRecursion::Stop),
                Ok(TreeNodeRecursion::Continue) => stage_below(plan) is Some ==> after == next
                    && outcome == Ok::<_, DistributedErrorView>(TreeNodeRecursion::Continue),
                Err(error) => after == next && outcome == Err::<TreeNodeRecursion, _>(error),
            }
        }),
{
}

/// Where a visitor stops or fails at one of several plans, it is shown none of the later ones.
/// Otherwise it is shown the last one after those before it.
pub proof fn visits_end_in_order<V: Visitor>(
    state: V::State,
    plans: Seq<PlanView>,
    ctx: DistributedTaskContext,
)
    requires
        plans.len() > 0,
    ensures
        ({
            let (next, before) = applied_all::<V>(state, plans.drop_last(), ctx);
            let outcome = applied_all::<V>(state, plans, ctx);
            if before is Err || before->Ok_0 is Stop {
                outcome == (next, before)
            } else {
                outcome == applied::<V>(next, plans.last(), ctx)
            }
        }),
        applied_all::<V>(state, Seq::empty(), ctx) == (
            state,
            Ok::<_, DistributedErrorView>(TreeNodeRecursion::Continue),
        ),
{
}

/// A task of an isolated union is shown the children along its routes, one route after the other,
/// each as the task that the route says. A visitor that stops or fails is shown no more.
pub proof fn visits_follow_the_routes<V: Visitor>(
    state: V::State,
    children: Seq<PlanView>,
    routes: Seq<(usize, DistributedTaskContext)>,
)
    requires
        routes.len() > 0,
        routes.last().0 < children.len(),
    ensures
        ({
            let (next, before) = applied_routes::<V>(state, children, routes.drop_last());
            let outcome = applied_routes::<V>(state, children, routes);
            if before is Err || before->Ok_0 is Stop {
                outcome == (next, before)
            } else {
                outcome == applied::<V>(next, children[routes.last().0 as int], routes.last().1)
            }
        }),
{
}

/// On the way down, a rewriter that jumps or stops at a node leaves what is below what it made of
/// the node as it is. After a jump the walk goes on elsewhere.
pub proof fn rewrites_end_at_the_node<C: Scope, R: DownRewriter<C>>(
    state: R::State,
    plan: PlanView,
    scope: C,
)
    ensures
        ({
            let (next, answer) = R::rewritten(state, plan, scope);
            let (after, outcome) = rewritten_down::<C, R>(state, plan, scope);
            match answer {
                Err(_) => after == next && outcome == answer,
                Ok(node) => node.tnr is Jump || node.tnr is Stop ==> after == next && (
                outcome matches Ok(result) && result.data == node.data && result.transformed
                    == node.transformed && (if node.tnr is Jump {
                    result.tnr is Continue
                } else {
                    result.tnr is Stop
                })),
            }
        }),
{
}

/// On the way up, a node is rewritten over its children unless the last of them jumped over it or
/// one of them stopped the walk. Then it only gets the children that were changed.
pub proof fn rewrites_skip_ancestors<C: Scope, R: Rewriter<C>>(
    state: R::State,
    plan: PlanView,
    scope: C,
)
    ensures
        ({
            let (next, below) = rewritten_up_all::<C, R>(state, plan.op, plan.children, scope);
            let (after, outcome) = rewritten_up::<C, R>(state, plan, scope);
            match below {
                Err(error) => after == next && (outcome matches Err(failed) && failed == error),
                Ok(children) => {
                    let node = if children.changed {
                        PlanView { task_count: None, children: children.plans, ..plan }
                    } else {
                        plan
                    };
                    if children.tnr is Continue {
                        &&& after == R::rewritten(next, node, scope).0
                        &&& match (R::rewritten(next, node, scope).1, outcome) {
                            (Ok(own), Ok(result)) => result.data == own.data && result.tnr == own.tnr
                                && result.transformed == (own.transformed || children.changed),
                            (Err(own), Err(error)) => own == error,
                            _ => false,
                        }
                    } else {
                        &&& after == next
                        &&& outcome matches Ok(result) && result.data == node && result.tnr
                            == children.tnr && result.transformed == children.changed
                    }
                },
            }
        }),
{
}

/// On the way up, the children of a node come one after the other. Once one of them stopped the
/// walk the later ones stay as they are.
pub proof fn rewrites_go_up_in_order<C: Scope, R: Rewriter<C>>(
    state: R::State,
    plan: PlanView,
    scope: C,
    upto: nat,
)
    requires
        0 < upto <= plan.children.len(),
    ensures
        ({
            let child = plan.children[upto - 1];
            let (next, before) = rewritten_up_all::<C, R>(
                state,
                plan.op,
                plan.children.take(upto - 1),
                scope,
            );
            let (after, outcome) = rewritten_up_all::<C, R>(
                state,
                plan.op,
                plan.children.take(upto as int),
                scope,
            );
            match before {
                Err(error) => after == next && (outcome matches Err(failed) && failed == error),
                Ok(before) => if before.tnr is Stop {
                    &&& after == next
                    &&& outcome matches Ok(children) && children.plans == before.plans.push(child)
                        && children.tnr is Stop && children.changed == before.changed
                } else if let Some(inner) = scope.child_scope(plan.op, upto - 1) {
                    let (own_state, own) = rewritten_up::<C, R>(next, child, inner);
                    &&& after == own_state
                    &&& match (own, outcome) {
                        (Ok(own), Ok(children)) => children.plans == before.plans.push(own.data)
                            && children.tnr == own.tnr && children.changed == (before.changed
                            || own.transformed),
                        (Err(own), Err(error)) => own == error,
                        _ => false,
                    }
                } else {
                    &&& after == next
                    &&& outcome matches Ok(children) && children.plans == before.plans.push(child)
                        && children.tnr is Continue && children.changed == before.changed
                },
            }
        }),
{
    assert(plan.children.take(upto as int).drop_last() =~= plan.children.take(upto - 1));
    assert(plan.children.take(upto as int).last() == plan.children[upto - 1]);
}

} // verus!

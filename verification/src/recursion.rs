//! Walks over plans that know which task of how many executes each node.
use crate::error::{DistributedError, DistributedErrorView};
use crate::plan::{DistributedTaskContext, Operator, OperatorView, Plan, PlanView};
use crate::prepare_network_boundaries::tasks_of;
use std::sync::Arc;
use vstd::prelude::*;

verus! {

/// How a walk goes on after a node.
#[derive(Clone, Copy, PartialEq, Eq, Debug, Structural)]
pub enum TreeNodeRecursion {
    /// Go on with the next node.
    Continue,
    /// Going down, skip the children of the node. Going up, skip the ancestors of the node that
    /// have no further children to visit.
    Jump,
    /// Visit no further node.
    Stop,
}

/// The outcome of a visit.
pub open spec fn visit_outcome(
    result: Result<TreeNodeRecursion, DistributedError>,
) -> Result<TreeNodeRecursion, DistributedErrorView> {
    match result {
        Ok(recursion) => Ok(recursion),
        Err(error) => Err(error@),
    }
}

/// What looks at the nodes of a plan one after the other.
pub trait Visitor {
    /// What the visitor remembers from one node to the next.
    type State;

    spec fn state(&self) -> Self::State;

    /// What the visitor makes of a node: what it remembers afterwards, and how to go on.
    spec fn visited(state: Self::State, node: PlanView, ctx: DistributedTaskContext) -> (
        Self::State,
        Result<TreeNodeRecursion, DistributedErrorView>,
    );

    fn visit(&mut self, node: &Arc<Plan>, ctx: DistributedTaskContext) -> (result: Result<
        TreeNodeRecursion,
        DistributedError,
    >)
        ensures
            (final(self).state(), visit_outcome(result)) == Self::visited(
                old(self).state(),
                node@,
                ctx,
            ),
    ;
}

impl OperatorView {
    /// The children that a task of an isolated union executes, each with its own context.
    pub open spec fn routes(self, ctx: DistributedTaskContext) -> Seq<
        (usize, DistributedTaskContext),
    > {
        self->task_idx_map[ctx.task_index as int]
    }

    /// Whether the operator, over this many children, knows what to do in the given task.
    pub open spec fn has_task(self, children: nat, ctx: DistributedTaskContext) -> bool {
        self is ChildrenIsolatorUnion ==> {
            &&& ctx.task_index < self->task_idx_map.len()
            &&& forall|i: int|
                0 <= i < self.routes(ctx).len() ==> (#[trigger] self.routes(ctx)[i]).0 < children
        }
    }
}

impl PlanView {
    /// Whether every isolated union that the task meets in the plan has an entry for it.
    pub open spec fn has_task(self, ctx: DistributedTaskContext) -> bool
        decreases self,
    {
        &&& self.op.has_task(self.children.len(), ctx)
        &&& if self.op is ChildrenIsolatorUnion {
            forall|i: int|
                #![trigger self.op.routes(ctx)[i]]
                0 <= i < self.op.routes(ctx).len() && self.op.routes(ctx)[i].0
                    < self.children.len() ==> self.children[self.op.routes(
                    ctx,
                )[i].0 as int].has_task(self.op.routes(ctx)[i].1)
        } else if self.op.is_network_boundary() {
            true
        } else {
            forall|i: int|
                0 <= i < self.children.len() ==> (#[trigger] self.children[i]).has_task(ctx)
        }
    }
}

/// What a visitor comes back with from a plan. The node comes before its children. An isolated
/// union only leads to the children that the task executes, a network boundary to none.
pub open spec fn applied<V: Visitor>(
    state: V::State,
    plan: PlanView,
    ctx: DistributedTaskContext,
) -> (V::State, Result<TreeNodeRecursion, DistributedErrorView>)
    decreases plan, 0nat,
{
    let (next, answer) = V::visited(state, plan, ctx);
    match answer {
        Ok(TreeNodeRecursion::Continue) => if plan.op is ChildrenIsolatorUnion {
            applied_routes::<V>(next, plan.children, plan.op.routes(ctx))
        } else if plan.op.is_network_boundary() {
            (next, Ok(TreeNodeRecursion::Continue))
        } else {
            applied_all::<V>(next, plan.children, ctx)
        },
        Ok(TreeNodeRecursion::Jump) => (next, Ok(TreeNodeRecursion::Continue)),
        _ => (next, answer),
    }
}

/// Whether a walk ends here.
pub open spec fn ends(answer: Result<TreeNodeRecursion, DistributedErrorView>) -> bool {
    answer is Err || answer == Ok::<_, DistributedErrorView>(TreeNodeRecursion::Stop)
}

/// What a visitor comes back with from a list of plans.
pub open spec fn applied_all<V: Visitor>(
    state: V::State,
    plans: Seq<PlanView>,
    ctx: DistributedTaskContext,
) -> (V::State, Result<TreeNodeRecursion, DistributedErrorView>)
    decreases plans, 1nat,
{
    if plans.len() == 0 {
        (state, Ok(TreeNodeRecursion::Continue))
    } else {
        let (next, answer) = applied_all::<V>(state, plans.drop_last(), ctx);
        if ends(answer) {
            (next, answer)
        } else {
            applied::<V>(next, plans.last(), ctx)
        }
    }
}

/// What a visitor comes back with from the children that a task of an isolated union executes.
pub open spec fn applied_routes<V: Visitor>(
    state: V::State,
    children: Seq<PlanView>,
    routes: Seq<(usize, DistributedTaskContext)>,
) -> (V::State, Result<TreeNodeRecursion, DistributedErrorView>)
    decreases children, routes.len(),
{
    if routes.len() == 0 {
        (state, Ok(TreeNodeRecursion::Continue))
    } else {
        let (next, answer) = applied_routes::<V>(state, children, routes.drop_last());
        let (child, ctx) = routes.last();
        if ends(answer) || child >= children.len() {
            (next, answer)
        } else {
            applied::<V>(next, children[child as int], ctx)
        }
    }
}

proof fn ending_is_final<V: Visitor>(
    state: V::State,
    plans: Seq<PlanView>,
    ctx: DistributedTaskContext,
    upto: int,
)
    requires
        0 <= upto <= plans.len(),
        ends(applied_all::<V>(state, plans.take(upto), ctx).1),
    ensures
        applied_all::<V>(state, plans, ctx) == applied_all::<V>(state, plans.take(upto), ctx),
    decreases plans.len() - upto,
{
    if upto == plans.len() {
        assert(plans.take(upto) =~= plans);
    } else {
        assert(plans.take(upto + 1).drop_last() =~= plans.take(upto));
        ending_is_final::<V>(state, plans, ctx, upto + 1);
    }
}

proof fn route_ending_is_final<V: Visitor>(
    state: V::State,
    children: Seq<PlanView>,
    routes: Seq<(usize, DistributedTaskContext)>,
    upto: int,
)
    requires
        0 <= upto <= routes.len(),
        ends(applied_routes::<V>(state, children, routes.take(upto)).1),
    ensures
        applied_routes::<V>(state, children, routes) == applied_routes::<V>(
            state,
            children,
            routes.take(upto),
        ),
    decreases routes.len() - upto,
{
    if upto == routes.len() {
        assert(routes.take(upto) =~= routes);
    } else {
        assert(routes.take(upto + 1).drop_last() =~= routes.take(upto));
        route_ending_is_final::<V>(state, children, routes, upto + 1);
    }
}

fn apply_in<V: Visitor>(plan: &Arc<Plan>, ctx: DistributedTaskContext, visitor: &mut V) -> (result:
    Result<TreeNodeRecursion, DistributedError>)
    requires
        plan@.has_task(ctx),
    ensures
        (final(visitor).state(), visit_outcome(result)) == applied::<V>(
            old(visitor).state(),
            plan@,
            ctx,
        ),
        result matches Ok(recursion) ==> !(recursion is Jump),
    decreases **plan,
{
    let recursion = visitor.visit(plan, ctx)?;
    match recursion {
        TreeNodeRecursion::Jump => Ok(TreeNodeRecursion::Continue),
        TreeNodeRecursion::Stop => Ok(TreeNodeRecursion::Stop),
        TreeNodeRecursion::Continue => {
            let ghost state = visitor.state();
            let ghost all = plan@.children;
            if let Operator::ChildrenIsolatorUnion { task_idx_map, .. } = &*plan.op {
                let routes = &task_idx_map[ctx.task_index];
                proof {
                    assert(plan@.op.routes(ctx) == routes@);
                    assert(routes@.take(0) =~= Seq::empty());
                }
                let mut i: usize = 0;
                while i < routes.len()
                    invariant
                        0 <= i <= routes@.len(),
                        V::visited(old(visitor).state(), plan@, ctx) == (
                            state,
                            Ok::<_, DistributedErrorView>(TreeNodeRecursion::Continue),
                        ),
                        plan@.has_task(ctx),
                        plan@.op is ChildrenIsolatorUnion,
                        plan@.op.routes(ctx) == routes@,
                        all == plan@.children,
                        all.len() == plan.children@.len(),
                        applied_routes::<V>(state, all, routes@.take(i as int)) == (
                            visitor.state(),
                            Ok::<_, DistributedErrorView>(TreeNodeRecursion::Continue),
                        ),
                    decreases routes@.len() - i,
                {
                    proof {
                        assert(routes@.take(i + 1).drop_last() =~= routes@.take(i as int));
                        assert(plan@.op.routes(ctx)[i as int] == routes@[i as int]);
                    }
                    let (child, child_ctx) = routes[i];
                    proof {
                        assert(all[child as int] == plan.children@[child as int]@);
                    }
                    let answer = apply_in(&plan.children[child], child_ctx, visitor);
                    proof {
                        if ends(visit_outcome(answer)) {
                            route_ending_is_final::<V>(state, all, routes@, i + 1);
                        }
                    }
                    match answer? {
                        TreeNodeRecursion::Stop => {
                            return Ok(TreeNodeRecursion::Stop);
                        },
                        _ => {},
                    }
                    i += 1;
                }
                proof {
                    assert(routes@.take(i as int) =~= routes@);
                }
                Ok(TreeNodeRecursion::Continue)
            } else if plan.op.is_network_boundary() {
                Ok(TreeNodeRecursion::Continue)
            } else {
                proof {
                    assert(all.take(0) =~= Seq::empty());
                }
                let mut i: usize = 0;
                while i < plan.children.len()
                    invariant
                        0 <= i <= plan.children@.len(),
                        V::visited(old(visitor).state(), plan@, ctx) == (
                            state,
                            Ok::<_, DistributedErrorView>(TreeNodeRecursion::Continue),
                        ),
                        plan@.has_task(ctx),
                        !(plan@.op is ChildrenIsolatorUnion),
                        !plan@.op.is_network_boundary(),
                        all == plan@.children,
                        all.len() == plan.children@.len(),
                        applied_all::<V>(state, all.take(i as int), ctx) == (
                            visitor.state(),
                            Ok::<_, DistributedErrorView>(TreeNodeRecursion::Continue),
                        ),
                    decreases plan.children@.len() - i,
                {
                    proof {
                        assert(all.take(i + 1).drop_last() =~= all.take(i as int));
                        assert(all[i as int] == plan.children@[i as int]@);
                    }
                    let answer = apply_in(&plan.children[i], ctx, visitor);
                    proof {
                        if ends(visit_outcome(answer)) {
                            ending_is_final::<V>(state, all, ctx, i + 1);
                        }
                    }
                    match answer? {
                        TreeNodeRecursion::Stop => {
                            return Ok(TreeNodeRecursion::Stop);
                        },
                        _ => {},
                    }
                    i += 1;
                }
                proof {
                    assert(all.take(i as int) =~= all);
                }
                Ok(TreeNodeRecursion::Continue)
            }
        },
    }
}


/// What a walk tells each node of the tasks that execute it.
pub trait Scope: Copy {
    /// Whether the scope says enough of an operator over this many children.
    spec fn fits(self, op: OperatorView, children: nat) -> bool;

    /// The scope of a child of the operator. A child without one is not visited.
    spec fn child_scope(self, op: OperatorView, child: int) -> Option<Self>;

    /// The variant of the operator that may take its place.
    spec fn variant(self, op: OperatorView) -> Option<int>;

    fn scope_of_child(self, op: &Operator, children: usize, child: usize) -> (result: Option<Self>)
        requires
            self.fits(op@, children as nat),
            child < children,
        ensures
            result == self.child_scope(op@, child as int),
    ;
}

/// The context in which a task of an isolated union executes a child, by the last route that
/// leads to it.
pub open spec fn route_to(routes: Seq<(usize, DistributedTaskContext)>, child: int) -> Option<
    DistributedTaskContext,
>
    decreases routes.len(),
{
    if routes.len() == 0 {
        None
    } else if routes.last().0 == child {
        Some(routes.last().1)
    } else {
        route_to(routes.drop_last(), child)
    }
}

impl Scope for DistributedTaskContext {
    open spec fn fits(self, op: OperatorView, children: nat) -> bool {
        op.has_task(children, self)
    }

    open spec fn child_scope(self, op: OperatorView, child: int) -> Option<DistributedTaskContext> {
        if op is ChildrenIsolatorUnion {
            crate::recursion::route_to(op.routes(self), child)
        } else if op.is_network_boundary() {
            None
        } else {
            Some(self)
        }
    }

    open spec fn variant(self, op: OperatorView) -> Option<int> {
        if op is DistributedLeaf {
            Some(self.task_index as int)
        } else {
            None
        }
    }

    fn scope_of_child(self, op: &Operator, children: usize, child: usize) -> (result: Option<
        DistributedTaskContext,
    >) {
        match op {
            Operator::ChildrenIsolatorUnion { task_idx_map, .. } => {
                let routes = &task_idx_map[self.task_index];
                proof {
                    assert(op@.routes(self) == routes@);
                    assert(routes@.take(routes@.len() as int) =~= routes@);
                }
                let mut left: usize = routes.len();
                while left > 0
                    invariant
                        left <= routes@.len(),
                        op@ is ChildrenIsolatorUnion,
                        op@.routes(self) == routes@,
                        route_to(routes@, child as int) == route_to(
                            routes@.take(left as int),
                            child as int,
                        ),
                    decreases left,
                {
                    proof {
                        assert(routes@.take(left as int).drop_last() =~= routes@.take(left - 1));
                    }
                    left -= 1;
                    let (index, ctx) = routes[left];
                    if index == child {
                        return Some(ctx);
                    }
                }
                None
            },
            _ => if op.is_network_boundary() {
                None
            } else {
                Some(self)
            },
        }
    }
}

/// The number of tasks that execute a node.
impl Scope for usize {
    open spec fn fits(self, op: OperatorView, children: nat) -> bool {
        true
    }

    open spec fn child_scope(self, op: OperatorView, child: int) -> Option<usize> {
        Some(op.child_tasks(child, self))
    }

    open spec fn variant(self, op: OperatorView) -> Option<int> {
        None
    }

    fn scope_of_child(self, op: &Operator, children: usize, child: usize) -> (result: Option<
        usize,
    >) {
        Some(tasks_of(op, child, self))
    }
}

impl PlanView {
    /// Whether the scope says enough of every node that a walk through the plan may visit, among
    /// them those of the variant that may take the place of a leaf. A leaf that reads from a feed
    /// keeps its place.
    pub open spec fn accepts<C: Scope>(self, scope: C) -> bool
        decreases self,
    {
        &&& scope.fits(self.op, self.children.len())
        &&& forall|i: int|
            #![trigger scope.child_scope(self.op, i)]
            0 <= i < self.children.len() ==> (scope.child_scope(self.op, i) matches Some(inner)
                ==> self.children[i].accepts(inner))
        &&& self.feed() is None ==> (scope.variant(self.op) matches Some(k) ==> 0 <= k
            < self.variants.len() ==> self.variants[k].accepts(scope))
    }
}

/// Whether the operator, over this many children, knows what to do in the given task.
fn knows_task(op: &Operator, children: usize, ctx: DistributedTaskContext) -> (result: bool)
    ensures
        result == op@.has_task(children as nat, ctx),
{
    match op {
        Operator::ChildrenIsolatorUnion { task_idx_map, .. } => {
            if ctx.task_index >= task_idx_map.len() {
                return false;
            }
            let routes = &task_idx_map[ctx.task_index];
            proof {
                assert(op@.routes(ctx) == routes@);
            }
            let mut i: usize = 0;
            while i < routes.len()
                invariant
                    0 <= i <= routes@.len(),
                    op@ is ChildrenIsolatorUnion,
                    op@.routes(ctx) == routes@,
                    forall|j: int| 0 <= j < i ==> (#[trigger] op@.routes(ctx)[j]).0 < children,
                decreases routes@.len() - i,
            {
                proof {
                    assert(op@.routes(ctx)[i as int] == routes@[i as int]);
                }
                if routes[i].0 >= children {
                    return false;
                }
                i += 1;
            }
            true
        },
        _ => true,
    }
}

impl Plan {
    /// Whether the plan can be cut down to what the task executes.
    pub fn can_run(&self, ctx: DistributedTaskContext) -> (result: bool)
        ensures
            result == self@.accepts(ctx),
        decreases self,
    {
        if !knows_task(&self.op, self.children.len(), ctx) {
            return false;
        }
        let mut i: usize = 0;
        while i < self.children.len()
            invariant
                0 <= i <= self.children@.len(),
                self@.children.len() == self.children@.len(),
                ctx.fits(self@.op, self@.children.len()),
                forall|j: int|
                    #![trigger ctx.child_scope(self@.op, j)]
                    0 <= j < i ==> (ctx.child_scope(self@.op, j) matches Some(inner)
                        ==> self@.children[j].accepts(inner)),
            decreases self.children@.len() - i,
        {
            proof {
                assert(self@.children[i as int] == self.children@[i as int]@);
            }
            if let Some(inner) = ctx.scope_of_child(&self.op, self.children.len(), i) {
                if !self.children[i].can_run(inner) {
                    return false;
                }
            }
            i += 1;
        }
        if let Operator::DistributedLeaf { .. } = &*self.op {
            if self.work_unit_feed().is_none() && ctx.task_index < self.variants.len() {
                proof {
                    assert(self@.variants[ctx.task_index as int]
                        == self.variants@[ctx.task_index as int]@);
                }
                return self.variants[ctx.task_index].can_run(ctx);
            }
        }
        true
    }

    /// Whether every isolated union that the task meets in the plan has an entry for it.
    pub fn has_task(&self, ctx: DistributedTaskContext) -> (result: bool)
        ensures
            result == self@.has_task(ctx),
        decreases self,
    {
        match &*self.op {
            Operator::ChildrenIsolatorUnion { task_idx_map, .. } => {
                if ctx.task_index >= task_idx_map.len() {
                    return false;
                }
                let routes = &task_idx_map[ctx.task_index];
                proof {
                    assert(self@.op.routes(ctx) == routes@);
                }
                let mut i: usize = 0;
                while i < routes.len()
                    invariant
                        0 <= i <= routes@.len(),
                        self@.op is ChildrenIsolatorUnion,
                        self@.op.routes(ctx) == routes@,
                        ctx.task_index < self@.op->task_idx_map.len(),
                        forall|j: int|
                            0 <= j < i ==> (#[trigger] self@.op.routes(ctx)[j]).0
                                < self@.children.len() && self@.children[self@.op.routes(
                                ctx,
                            )[j].0 as int].has_task(self@.op.routes(ctx)[j].1),
                    decreases routes@.len() - i,
                {
                    let (child, inner) = routes[i];
                    proof {
                        assert(self@.op.routes(ctx)[i as int] == (child, inner));
                    }
                    if child >= self.children.len() {
                        return false;
                    }
                    proof {
                        assert(self@.children[child as int] == self.children@[child as int]@);
                    }
                    if !self.children[child].has_task(inner) {
                        return false;
                    }
                    i += 1;
                }
                true
            },
            op => {
                if op.is_network_boundary() {
                    return true;
                }
                let mut i: usize = 0;
                while i < self.children.len()
                    invariant
                        0 <= i <= self.children@.len(),
                        self@.children.len() == self.children@.len(),
                        !(self@.op is ChildrenIsolatorUnion),
                        !self@.op.is_network_boundary(),
                        forall|j: int|
                            0 <= j < i ==> (#[trigger] self@.children[j]).has_task(ctx),
                    decreases self.children@.len() - i,
                {
                    proof {
                        assert(self@.children[i as int] == self.children@[i as int]@);
                    }
                    if !self.children[i].has_task(ctx) {
                        return false;
                    }
                    i += 1;
                }
                true
            },
        }
    }
}

impl PlanView {
    /// The number of nodes of the plan, with those of the variants of its leaves.
    pub open spec fn weight(self) -> nat
        decreases self, 0nat,
    {
        1 + crate::recursion::total_weight(self.children) + crate::recursion::total_weight(
            self.variants,
        )
    }
}

/// The number of nodes of a list of plans.
pub open spec fn total_weight(plans: Seq<PlanView>) -> nat
    decreases plans, 1nat,
{
    if plans.len() == 0 {
        0
    } else {
        total_weight(plans.drop_last()) + plans.last().weight()
    }
}

/// A plan has more nodes than any of its children.
pub proof fn children_weigh_less(plans: Seq<PlanView>, index: int)
    requires
        0 <= index < plans.len(),
    ensures
        plans[index].weight() <= total_weight(plans),
    decreases plans.len(),
{
    if index < plans.len() - 1 {
        assert(plans.drop_last()[index] == plans[index]);
        children_weigh_less(plans.drop_last(), index);
    }
}

/// A node that a walk has been to: the node that is there now, whether it is another one, and how
/// to go on.
#[derive(Debug)]
pub struct Transformed {
    pub data: Arc<Plan>,
    pub transformed: bool,
    pub tnr: TreeNodeRecursion,
}

/// The mathematical view of a [`Transformed`].
#[verifier::ext_equal]
pub struct TransformedView {
    pub data: PlanView,
    pub transformed: bool,
    pub tnr: TreeNodeRecursion,
}

impl View for Transformed {
    type V = TransformedView;

    open spec fn view(&self) -> TransformedView {
        TransformedView { data: self.data@, transformed: self.transformed, tnr: self.tnr }
    }
}

impl Transformed {
    /// Another node took the place of the old one.
    pub fn yes(data: Arc<Plan>) -> (result: Transformed)
        ensures
            result@ == (TransformedView {
                data: data@,
                transformed: true,
                tnr: TreeNodeRecursion::Continue,
            }),
    {
        Transformed { data, transformed: true, tnr: TreeNodeRecursion::Continue }
    }

    /// The node stays.
    pub fn no(data: Arc<Plan>) -> (result: Transformed)
        ensures
            result@ == (TransformedView {
                data: data@,
                transformed: false,
                tnr: TreeNodeRecursion::Continue,
            }),
    {
        Transformed { data, transformed: false, tnr: TreeNodeRecursion::Continue }
    }
}

/// What replaces the nodes of a plan one after the other.
pub trait Rewriter<C: Scope> {
    /// What the rewriter remembers from one node to the next.
    type State;

    spec fn state(&self) -> Self::State;

    /// What the rewriter makes of a node: what it remembers afterwards, and what takes the place
    /// of the node.
    spec fn rewritten(state: Self::State, node: PlanView, scope: C) -> (
        Self::State,
        Result<TransformedView, DistributedErrorView>,
    );

    fn rewrite(&mut self, node: Arc<Plan>, scope: C) -> (result: Result<
        Transformed,
        DistributedError,
    >)
        requires
            scope.fits(node@.op, node@.children.len()),
        ensures
            (final(self).state(), crate::error::viewed(result)) == Self::rewritten(
                old(self).state(),
                node@,
                scope,
            ),
    ;
}

/// A rewriter whose walks from the root to the leaves come to an end, though the children that it
/// puts below a node are visited in their turn.
pub trait DownRewriter<C: Scope>: Rewriter<C> {
    /// How often the rewriter can still put larger plans in the place of smaller ones.
    spec fn rank(state: Self::State) -> nat;

    /// The size of a plan.
    spec fn size(plan: PlanView) -> nat;

    /// Every step makes the rest of the walk shorter.
    proof fn makes_progress(state: Self::State, node: PlanView, scope: C)
        requires
            node.accepts(scope),
        ensures
            Self::rank(Self::rewritten(state, node, scope).0) <= Self::rank(state),
            Self::rewritten(state, node, scope).1 matches Ok(transformed) ==> (transformed.tnr
                is Continue ==> {
                &&& transformed.data.accepts(scope)
                &&& Self::rank(Self::rewritten(state, node, scope).0) < Self::rank(state)
                    || forall|i: int|
                    0 <= i < transformed.data.children.len() ==> Self::size(
                        #[trigger] transformed.data.children[i],
                    ) < Self::size(node)
            }),
    ;
}

/// What a walk has made of the first children of a node.
#[verifier::ext_equal]
pub struct ChildrenView {
    pub plans: Seq<PlanView>,
    pub changed: bool,
    pub tnr: TreeNodeRecursion,
}

/// Before the first child.
pub open spec fn no_children() -> ChildrenView {
    ChildrenView { plans: Seq::empty(), changed: false, tnr: TreeNodeRecursion::Continue }
}

/// One more child, which the walk leaves alone.
pub open spec fn passed(
    before: ChildrenView,
    child: PlanView,
    tnr: TreeNodeRecursion,
) -> ChildrenView {
    ChildrenView { plans: before.plans.push(child), changed: before.changed, tnr }
}

/// One more child, which the walk has been to.
pub open spec fn joined(
    before: ChildrenView,
    child: Result<TransformedView, DistributedErrorView>,
) -> Result<ChildrenView, DistributedErrorView> {
    match child {
        Err(error) => Err(error),
        Ok(child) => Ok(
            ChildrenView {
                plans: before.plans.push(child.data),
                changed: before.changed || child.transformed,
                tnr: child.tnr,
            },
        ),
    }
}

/// The node over its children after the walk. Where no child has changed it stays as it was.
pub open spec fn reassembled(node: TransformedView, children: ChildrenView) -> TransformedView {
    TransformedView {
        data: if children.changed {
            node.data.over(children.plans)
        } else {
            node.data
        },
        transformed: node.transformed || children.changed,
        tnr: children.tnr,
    }
}

/// What a rewriter makes of a plan from the root to the leaves.
pub open spec fn rewritten_down<C: Scope, R: DownRewriter<C>>(
    state: R::State,
    plan: PlanView,
    scope: C,
) -> (R::State, Result<TransformedView, DistributedErrorView>)
    decreases R::rank(state), R::size(plan), 1nat, 0nat,
{
    let (next, answer) = R::rewritten(state, plan, scope);
    match answer {
        Err(error) => (next, Err(error)),
        Ok(node) => match node.tnr {
            TreeNodeRecursion::Stop => (next, Ok(node)),
            TreeNodeRecursion::Jump => (
                next,
                Ok(TransformedView { tnr: TreeNodeRecursion::Continue, ..node }),
            ),
            TreeNodeRecursion::Continue => {
                let (after, children) = rewritten_down_all::<C, R>(
                    next,
                    node.data.op,
                    node.data.children,
                    scope,
                    R::rank(state),
                    R::size(plan),
                );
                match children {
                    Err(error) => (after, Err(error)),
                    Ok(children) => (after, Ok(reassembled(node, children))),
                }
            },
        },
    }
}

/// What a rewriter makes of the first children of a node that was called with the given rank and
/// size.
pub open spec fn rewritten_down_all<C: Scope, R: DownRewriter<C>>(
    state: R::State,
    parent: OperatorView,
    plans: Seq<PlanView>,
    scope: C,
    rank: nat,
    size: nat,
) -> (R::State, Result<ChildrenView, DistributedErrorView>)
    decreases rank, size, 0nat, plans.len(),
{
    if plans.len() == 0 {
        (state, Ok(no_children()))
    } else {
        let (next, before) = rewritten_down_all::<C, R>(
            state,
            parent,
            plans.drop_last(),
            scope,
            rank,
            size,
        );
        match before {
            Err(error) => (next, Err(error)),
            Ok(before) => if before.tnr is Stop {
                (next, Ok(passed(before, plans.last(), TreeNodeRecursion::Stop)))
            } else {
                match scope.child_scope(parent, plans.len() - 1) {
                    None => (next, Ok(passed(before, plans.last(), TreeNodeRecursion::Continue))),
                    Some(inner) => if R::rank(next) < rank || (R::rank(next) == rank && R::size(
                        plans.last(),
                    ) < size) {
                        let (after, child) = rewritten_down::<C, R>(next, plans.last(), inner);
                        (after, joined(before, child))
                    } else {
                        (next, Ok(before))
                    },
                }
            },
        }
    }
}

proof fn down_error_is_final<C: Scope, R: DownRewriter<C>>(
    state: R::State,
    parent: OperatorView,
    plans: Seq<PlanView>,
    scope: C,
    rank: nat,
    size: nat,
    upto: int,
)
    requires
        0 <= upto <= plans.len(),
        rewritten_down_all::<C, R>(state, parent, plans.take(upto), scope, rank, size).1 is Err,
    ensures
        rewritten_down_all::<C, R>(state, parent, plans, scope, rank, size)
            == rewritten_down_all::<C, R>(state, parent, plans.take(upto), scope, rank, size),
    decreases plans.len() - upto,
{
    if upto == plans.len() {
        assert(plans.take(upto) =~= plans);
    } else {
        assert(plans.take(upto + 1).drop_last() =~= plans.take(upto));
        down_error_is_final::<C, R>(state, parent, plans, scope, rank, size, upto + 1);
    }
}

fn rewrite_down<C: Scope, R: DownRewriter<C>>(plan: Arc<Plan>, scope: C, rewriter: &mut R) -> (
    result: Result<Transformed, DistributedError>)
    requires
        plan@.accepts(scope),
    ensures
        (final(rewriter).state(), crate::error::viewed(result)) == rewritten_down::<C, R>(
            old(rewriter).state(),
            plan@,
            scope,
        ),
        R::rank(final(rewriter).state()) <= R::rank(old(rewriter).state()),
    decreases R::rank(old(rewriter).state()), R::size(plan@),
{
    let ghost start = rewriter.state();
    let ghost rank = R::rank(start);
    let ghost size = R::size(plan@);
    let ghost source = plan@;
    proof {
        R::makes_progress(start, plan@, scope);
    }
    let node = rewriter.rewrite(plan, scope)?;
    match node.tnr {
        TreeNodeRecursion::Stop => Ok(node),
        TreeNodeRecursion::Jump => Ok(
            Transformed {
                data: node.data,
                transformed: node.transformed,
                tnr: TreeNodeRecursion::Continue,
            },
        ),
        TreeNodeRecursion::Continue => {
            let ghost state = rewriter.state();
            let ghost all = node.data@.children;
            let ghost mut seen = no_children();
            let mut children: Vec<Arc<Plan>> = Vec::new();
            let mut changed: bool = false;
            let mut tnr = TreeNodeRecursion::Continue;
            let mut i: usize = 0;
            proof {
                assert(all.take(0) =~= Seq::empty());
            }
            while i < node.data.children.len()
                invariant
                    0 <= i <= node.data.children@.len(),
                    start == old(rewriter).state(),
                    rank == R::rank(start),
                    size == R::size(source),
                    source == plan@,
                    R::rewritten(start, source, scope) == (
                        state,
                        Ok::<_, DistributedErrorView>(node@),
                    ),
                    node.tnr is Continue,
                    R::rank(state) <= rank,
                    R::rank(rewriter.state()) <= R::rank(state),
                    R::rank(state) < rank || forall|j: int|
                        0 <= j < all.len() ==> R::size(#[trigger] all[j]) < size,
                    node.data@.accepts(scope),
                    all == node.data@.children,
                    all.len() == node.data.children@.len(),
                    rewritten_down_all::<C, R>(
                        state,
                        node.data@.op,
                        all.take(i as int),
                        scope,
                        rank,
                        size,
                    ) == (rewriter.state(), Ok::<_, DistributedErrorView>(seen)),
                    seen.plans =~= crate::plan::views(children@),
                    seen.changed == changed,
                    seen.tnr == tnr,
                decreases node.data.children@.len() - i,
            {
                let child = Arc::clone(&node.data.children[i]);
                proof {
                    assert(all.take(i + 1).drop_last() =~= all.take(i as int));
                    assert(all[i as int] == node.data.children@[i as int]@);
                }
                if let TreeNodeRecursion::Stop = tnr {
                    proof {
                        seen = passed(seen, child@, TreeNodeRecursion::Stop);
                    }
                    children.push(child);
                } else {
                    match scope.scope_of_child(&node.data.op, node.data.children.len(), i) {
                        None => {
                            proof {
                                seen = passed(seen, child@, TreeNodeRecursion::Continue);
                            }
                            children.push(child);
                            tnr = TreeNodeRecursion::Continue;
                        },
                        Some(inner) => {
                            let answer = rewrite_down::<C, R>(child, inner, rewriter);
                            proof {
                                if answer is Err {
                                    down_error_is_final::<C, R>(
                                        state,
                                        node.data@.op,
                                        all,
                                        scope,
                                        rank,
                                        size,
                                        i + 1,
                                    );
                                } else {
                                    seen = joined(seen, crate::error::viewed(answer))->Ok_0;
                                }
                            }
                            let answer = answer?;
                            children.push(answer.data);
                            changed = changed || answer.transformed;
                            tnr = answer.tnr;
                        },
                    }
                }
                i += 1;
            }
            proof {
                assert(all.take(i as int) =~= all);
            }
            let data = if changed {
                node.data.with_new_children(children)
            } else {
                node.data
            };
            Ok(Transformed { data, transformed: node.transformed || changed, tnr })
        },
    }
}


/// A walk from the root to the leaves never gains rank, and visits all children in their turn.
pub proof fn walking_down_makes_progress<C: Scope, R: DownRewriter<C>>(
    state: R::State,
    plan: PlanView,
    scope: C,
)
    requires
        plan.accepts(scope),
    ensures
        R::rank(rewritten_down::<C, R>(state, plan, scope).0) <= R::rank(state),
    decreases R::rank(state), R::size(plan), 1nat, 0nat,
{
    R::makes_progress(state, plan, scope);
    let (next, answer) = R::rewritten(state, plan, scope);
    if let Ok(node) = answer {
        if node.tnr is Continue {
            assert(node.data.children.take(node.data.children.len() as int)
                =~= node.data.children);
            walking_down_all_makes_progress::<C, R>(
                next,
                node.data,
                node.data.children.len(),
                scope,
                R::rank(state),
                R::size(plan),
            );
        }
    }
}

/// The children of a node are visited in their turn, with the rank that is left.
pub proof fn walking_down_all_makes_progress<C: Scope, R: DownRewriter<C>>(
    state: R::State,
    parent: PlanView,
    upto: nat,
    scope: C,
    rank: nat,
    size: nat,
)
    requires
        parent.accepts(scope),
        upto <= parent.children.len(),
        R::rank(state) <= rank,
        R::rank(state) < rank || forall|i: int|
            0 <= i < parent.children.len() ==> R::size(#[trigger] parent.children[i]) < size,
    ensures
        ({
            let (after, result) = rewritten_down_all::<C, R>(
                state,
                parent.op,
                parent.children.take(upto as int),
                scope,
                rank,
                size,
            );
            &&& R::rank(after) <= R::rank(state)
            &&& result matches Ok(children) ==> children.plans.len() == upto
        }),
    decreases rank, size, 0nat, upto,
{
    let plans = parent.children.take(upto as int);
    if upto > 0 {
        let shorter = (upto - 1) as nat;
        assert(plans.drop_last() =~= parent.children.take(shorter as int));
        walking_down_all_makes_progress::<C, R>(state, parent, shorter, scope, rank, size);
        let (next, before) = rewritten_down_all::<C, R>(
            state,
            parent.op,
            plans.drop_last(),
            scope,
            rank,
            size,
        );
        if let Ok(before) = before {
            if !(before.tnr is Stop) {
                if let Some(inner) = scope.child_scope(parent.op, upto - 1) {
                    assert(plans.last() == parent.children[upto - 1]);
                    walking_down_makes_progress::<C, R>(next, plans.last(), inner);
                }
            }
        }
    }
}

/// What a rewriter makes of a plan from the leaves to the root. A node that its last child jumps
/// over stays as it is.
pub open spec fn rewritten_up<C: Scope, R: Rewriter<C>>(
    state: R::State,
    plan: PlanView,
    scope: C,
) -> (R::State, Result<TransformedView, DistributedErrorView>)
    decreases plan, 0nat,
{
    let (next, children) = rewritten_up_all::<C, R>(state, plan.op, plan.children, scope);
    match children {
        Err(error) => (next, Err(error)),
        Ok(children) => {
            let node = reassembled(
                TransformedView { data: plan, transformed: false, tnr: children.tnr },
                children,
            );
            if node.tnr is Continue {
                let (after, answer) = R::rewritten(next, node.data, scope);
                match answer {
                    Err(error) => (after, Err(error)),
                    Ok(answer) => (
                        after,
                        Ok(
                            TransformedView {
                                transformed: answer.transformed || node.transformed,
                                ..answer
                            },
                        ),
                    ),
                }
            } else {
                (next, Ok(node))
            }
        },
    }
}

/// What a rewriter makes of the first children of a node from their leaves upwards.
pub open spec fn rewritten_up_all<C: Scope, R: Rewriter<C>>(
    state: R::State,
    parent: OperatorView,
    plans: Seq<PlanView>,
    scope: C,
) -> (R::State, Result<ChildrenView, DistributedErrorView>)
    decreases plans, 1nat,
{
    if plans.len() == 0 {
        (state, Ok(no_children()))
    } else {
        let (next, before) = rewritten_up_all::<C, R>(state, parent, plans.drop_last(), scope);
        match before {
            Err(error) => (next, Err(error)),
            Ok(before) => if before.tnr is Stop {
                (next, Ok(passed(before, plans.last(), TreeNodeRecursion::Stop)))
            } else {
                match scope.child_scope(parent, plans.len() - 1) {
                    None => (next, Ok(passed(before, plans.last(), TreeNodeRecursion::Continue))),
                    Some(inner) => {
                        let (after, child) = rewritten_up::<C, R>(next, plans.last(), inner);
                        (after, joined(before, child))
                    },
                }
            },
        }
    }
}

proof fn up_error_is_final<C: Scope, R: Rewriter<C>>(
    state: R::State,
    parent: OperatorView,
    plans: Seq<PlanView>,
    scope: C,
    upto: int,
)
    requires
        0 <= upto <= plans.len(),
        rewritten_up_all::<C, R>(state, parent, plans.take(upto), scope).1 is Err,
    ensures
        rewritten_up_all::<C, R>(state, parent, plans, scope) == rewritten_up_all::<C, R>(
            state,
            parent,
            plans.take(upto),
            scope,
        ),
    decreases plans.len() - upto,
{
    if upto == plans.len() {
        assert(plans.take(upto) =~= plans);
    } else {
        assert(plans.take(upto + 1).drop_last() =~= plans.take(upto));
        up_error_is_final::<C, R>(state, parent, plans, scope, upto + 1);
    }
}

fn rewrite_up<C: Scope, R: Rewriter<C>>(plan: Arc<Plan>, scope: C, rewriter: &mut R) -> (result:
    Result<Transformed, DistributedError>)
    requires
        plan@.accepts(scope),
    ensures
        (final(rewriter).state(), crate::error::viewed(result)) == rewritten_up::<C, R>(
            old(rewriter).state(),
            plan@,
            scope,
        ),
    decreases *plan,
{
    let ghost state = rewriter.state();
    let ghost all = plan@.children;
    let ghost mut seen = no_children();
    let mut children: Vec<Arc<Plan>> = Vec::new();
    let mut changed: bool = false;
    let mut tnr = TreeNodeRecursion::Continue;
    let mut i: usize = 0;
    proof {
        assert(all.take(0) =~= Seq::empty());
    }
    while i < plan.children.len()
        invariant
            0 <= i <= plan.children@.len(),
            state == old(rewriter).state(),
            plan@.accepts(scope),
            all == plan@.children,
            all.len() == plan.children@.len(),
            rewritten_up_all::<C, R>(state, plan@.op, all.take(i as int), scope) == (
                rewriter.state(),
                Ok::<_, DistributedErrorView>(seen),
            ),
            seen.plans =~= crate::plan::views(children@),
            children@.len() == i,
            seen.changed == changed,
            seen.tnr == tnr,
        decreases plan.children@.len() - i,
    {
        let child = Arc::clone(&plan.children[i]);
        proof {
            assert(all.take(i + 1).drop_last() =~= all.take(i as int));
            assert(all[i as int] == plan.children@[i as int]@);
        }
        if let TreeNodeRecursion::Stop = tnr {
            proof {
                seen = passed(seen, child@, TreeNodeRecursion::Stop);
            }
            children.push(child);
        } else {
            match scope.scope_of_child(&plan.op, plan.children.len(), i) {
                None => {
                    proof {
                        seen = passed(seen, child@, TreeNodeRecursion::Continue);
                    }
                    children.push(child);
                    tnr = TreeNodeRecursion::Continue;
                },
                Some(inner) => {
                    let answer = rewrite_up::<C, R>(child, inner, rewriter);
                    proof {
                        if answer is Err {
                            up_error_is_final::<C, R>(state, plan@.op, all, scope, i + 1);
                        } else {
                            seen = joined(seen, crate::error::viewed(answer))->Ok_0;
                        }
                    }
                    let answer = answer?;
                    children.push(answer.data);
                    changed = changed || answer.transformed;
                    tnr = answer.tnr;
                },
            }
        }
        i += 1;
    }
    proof {
        assert(all.take(i as int) =~= all);
    }
    let data = if changed {
        plan.with_new_children(children)
    } else {
        plan
    };
    match tnr {
        TreeNodeRecursion::Continue => {
            let answer = rewriter.rewrite(data, scope)?;
            Ok(
                Transformed {
                    data: answer.data,
                    transformed: answer.transformed || changed,
                    tnr: answer.tnr,
                },
            )
        },
        _ => Ok(Transformed { data, transformed: changed, tnr }),
    }
}

/// The walks over a plan that know which tasks execute each node.
pub trait TreeNodeExt: Sized {
    spec fn tree(&self) -> PlanView;

    /// Shows the node to the visitor, then each of its children (a top-down, pre-order walk),
    /// with the context in which the task executes each of them. The walk leaves out the children
    /// of isolated unions that the task does not execute, and the input of network boundaries.
    fn apply_with_dt_ctx<V: Visitor>(&self, ctx: DistributedTaskContext, visitor: &mut V) -> (result:
        Result<TreeNodeRecursion, DistributedError>)
        requires
            self.tree().has_task(ctx),
        ensures
            (final(visitor).state(), visit_outcome(result)) == applied::<V>(
                old(visitor).state(),
                self.tree(),
                ctx,
            ),
    ;

    /// Rewrites the node, then each of its children (a top-down, pre-order walk), with the context
    /// in which the task executes each of them. Children of isolated unions that the task does not
    /// execute and the input of network boundaries stay as they are.
    fn transform_down_with_dt_ctx<R: DownRewriter<DistributedTaskContext>>(
        self,
        ctx: DistributedTaskContext,
        rewriter: &mut R,
    ) -> (result: Result<Transformed, DistributedError>)
        requires
            self.tree().accepts(ctx),
        ensures
            (final(rewriter).state(), crate::error::viewed(result)) == rewritten_down::<
                DistributedTaskContext,
                R,
            >(old(rewriter).state(), self.tree(), ctx),
    ;

    /// Rewrites the children, then the node (a bottom-up, post-order walk), with the number of
    /// tasks that execute each of them. Isolated unions and network boundaries change it.
    fn transform_up_with_task_count<R: Rewriter<usize>>(
        self,
        task_count: usize,
        rewriter: &mut R,
    ) -> (result: Result<Transformed, DistributedError>)
        ensures
            (final(rewriter).state(), crate::error::viewed(result)) == rewritten_up::<usize, R>(
                old(rewriter).state(),
                self.tree(),
                task_count,
            ),
    ;

    /// Rewrites the node, then each of its children (a top-down, pre-order walk), with the number
    /// of tasks that execute each of them. Isolated unions and network boundaries change it.
    fn transform_down_with_task_count<R: DownRewriter<usize>>(
        self,
        task_count: usize,
        rewriter: &mut R,
    ) -> (result: Result<Transformed, DistributedError>)
        ensures
            (final(rewriter).state(), crate::error::viewed(result)) == rewritten_down::<usize, R>(
                old(rewriter).state(),
                self.tree(),
                task_count,
            ),
    ;
}

/// A task count says enough of any plan.
pub proof fn task_counts_fit(plan: PlanView, task_count: usize)
    ensures
        plan.accepts(task_count),
    decreases plan,
{
    assert forall|i: int|
        #![trigger task_count.child_scope(plan.op, i)]
        0 <= i < plan.children.len() implies (task_count.child_scope(plan.op, i) matches Some(inner)
        ==> plan.children[i].accepts(inner)) by {
        task_counts_fit(plan.children[i], plan.op.child_tasks(i, task_count));
    }
}

impl TreeNodeExt for Arc<Plan> {
    open spec fn tree(&self) -> PlanView {
        self@
    }

    fn apply_with_dt_ctx<V: Visitor>(&self, ctx: DistributedTaskContext, visitor: &mut V) -> (result:
        Result<TreeNodeRecursion, DistributedError>) {
        apply_in(self, ctx, visitor)
    }

    fn transform_down_with_dt_ctx<R: DownRewriter<DistributedTaskContext>>(
        self,
        ctx: DistributedTaskContext,
        rewriter: &mut R,
    ) -> (result: Result<Transformed, DistributedError>) {
        rewrite_down(self, ctx, rewriter)
    }

    fn transform_up_with_task_count<R: Rewriter<usize>>(
        self,
        task_count: usize,
        rewriter: &mut R,
    ) -> (result: Result<Transformed, DistributedError>) {
        proof {
            task_counts_fit(self@, task_count);
        }
        rewrite_up(self, task_count, rewriter)
    }

    fn transform_down_with_task_count<R: DownRewriter<usize>>(
        self,
        task_count: usize,
        rewriter: &mut R,
    ) -> (result: Result<Transformed, DistributedError>) {
        proof {
            task_counts_fit(self@, task_count);
        }
        rewrite_down(self, task_count, rewriter)
    }
}

impl PlanView {
    /// The nodes of the plan, each before its children.
    pub open spec fn pre_order(self) -> Seq<PlanView>
        decreases self, 0nat,
    {
        seq![self] + crate::recursion::pre_order_all(self.children)
    }
}

/// The nodes of the plans, each before its children.
pub open spec fn pre_order_all(plans: Seq<PlanView>) -> Seq<PlanView>
    decreases plans, 1nat,
{
    if plans.len() == 0 {
        Seq::empty()
    } else {
        pre_order_all(plans.drop_last()) + plans.last().pre_order()
    }
}

fn push_pre_order(plan: &Arc<Plan>, nodes: &mut Vec<Arc<Plan>>)
    ensures
        crate::plan::views(final(nodes)@) == crate::plan::views(old(nodes)@) + plan@.pre_order(),
    decreases **plan,
{
    let ghost start = crate::plan::views(nodes@);
    nodes.push(Arc::clone(plan));
    let ghost all = plan@.children;
    proof {
        assert(all.take(0) =~= Seq::empty());
        assert(crate::plan::views(nodes@) =~= start + (seq![plan@] + pre_order_all(all.take(0))));
    }
    let mut i: usize = 0;
    while i < plan.children.len()
        invariant
            0 <= i <= plan.children@.len(),
            all == plan@.children,
            all.len() == plan.children@.len(),
            crate::plan::views(nodes@) =~= start + (seq![plan@] + pre_order_all(
                all.take(i as int),
            )),
        decreases plan.children@.len() - i,
    {
        proof {
            assert(all.take(i + 1).drop_last() =~= all.take(i as int));
            assert(all[i as int] == plan.children@[i as int]@);
        }
        push_pre_order(&plan.children[i], nodes);
        i += 1;
    }
    proof {
        assert(all.take(i as int) =~= all);
    }
}

/// The nodes of a plan, each before its children.
pub fn pre_order(plan: &Arc<Plan>) -> (result: Vec<Arc<Plan>>)
    ensures
        crate::plan::views(result@) == plan@.pre_order(),
{
    let mut nodes: Vec<Arc<Plan>> = Vec::new();
    push_pre_order(plan, &mut nodes);
    proof {
        assert(crate::plan::views(Seq::<Arc<Plan>>::empty()) + plan@.pre_order()
            =~= plan@.pre_order());
    }
    nodes
}

/// Writes down the nodes of a walk, and leads it by decisions that were made beforehand.
#[derive(Debug)]
pub struct Recorder<C> {
    /// The nodes that the walk has been to, with their scopes.
    pub visits: Vec<(Arc<Plan>, C)>,
    /// How the walk goes on after each node. Where there is no decision, it just continues.
    pub decisions: Vec<TreeNodeRecursion>,
}

/// The mathematical view of a [`Recorder`].
#[verifier::ext_equal]
pub struct Recording<C> {
    pub visits: Seq<(PlanView, C)>,
    pub decisions: Seq<TreeNodeRecursion>,
}

impl<C> Recording<C> {
    /// How the walk goes on after the next node.
    pub open spec fn decision(self) -> TreeNodeRecursion {
        if self.visits.len() < self.decisions.len() {
            self.decisions[self.visits.len() as int]
        } else {
            TreeNodeRecursion::Continue
        }
    }

    /// The recording with one more node.
    pub open spec fn after(self, node: PlanView, scope: C) -> Recording<C> {
        Recording { visits: self.visits.push((node, scope)), decisions: self.decisions }
    }
}

impl<C> View for Recorder<C> {
    type V = Recording<C>;

    open spec fn view(&self) -> Recording<C> {
        Recording {
            visits: self.visits@.map_values(|visit: (Arc<Plan>, C)| (visit.0@, visit.1)),
            decisions: self.decisions@,
        }
    }
}

impl<C> Recorder<C> {
    pub fn new(decisions: Vec<TreeNodeRecursion>) -> (result: Recorder<C>)
        ensures
            result@ == (Recording::<C> { visits: Seq::empty(), decisions: decisions@ }),
    {
        let result = Recorder { visits: Vec::new(), decisions };
        proof {
            assert(result@.visits =~= Seq::empty());
        }
        result
    }

    fn record(&mut self, node: &Arc<Plan>, scope: C) -> (result: TreeNodeRecursion)
        ensures
            result == old(self)@.decision(),
            final(self)@ == old(self)@.after(node@, scope),
    {
        let decision = if self.visits.len() < self.decisions.len() {
            self.decisions[self.visits.len()]
        } else {
            TreeNodeRecursion::Continue
        };
        self.visits.push((Arc::clone(node), scope));
        proof {
            assert(self@.visits =~= old(self)@.visits.push((node@, scope)));
        }
        decision
    }
}

impl Visitor for Recorder<DistributedTaskContext> {
    type State = Recording<DistributedTaskContext>;

    open spec fn state(&self) -> Recording<DistributedTaskContext> {
        self@
    }

    open spec fn visited(
        state: Recording<DistributedTaskContext>,
        node: PlanView,
        ctx: DistributedTaskContext,
    ) -> (Recording<DistributedTaskContext>, Result<TreeNodeRecursion, DistributedErrorView>) {
        (state.after(node, ctx), Ok(state.decision()))
    }

    fn visit(&mut self, node: &Arc<Plan>, ctx: DistributedTaskContext) -> (result: Result<
        TreeNodeRecursion,
        DistributedError,
    >) {
        Ok(self.record(node, ctx))
    }
}

impl<C: Scope> Rewriter<C> for Recorder<C> {
    type State = Recording<C>;

    open spec fn state(&self) -> Recording<C> {
        self@
    }

    open spec fn rewritten(state: Recording<C>, node: PlanView, scope: C) -> (
        Recording<C>,
        Result<TransformedView, DistributedErrorView>,
    ) {
        (
            state.after(node, scope),
            Ok(TransformedView { data: node, transformed: false, tnr: state.decision() }),
        )
    }

    fn rewrite(&mut self, node: Arc<Plan>, scope: C) -> (result: Result<
        Transformed,
        DistributedError,
    >) {
        let tnr = self.record(&node, scope);
        Ok(Transformed { data: node, transformed: false, tnr })
    }
}

impl<C: Scope> DownRewriter<C> for Recorder<C> {
    open spec fn rank(state: Recording<C>) -> nat {
        0
    }

    open spec fn size(plan: PlanView) -> nat {
        plan.weight()
    }

    proof fn makes_progress(state: Recording<C>, node: PlanView, scope: C) {
        assert forall|i: int| 0 <= i < node.children.len() implies (
        #[trigger] node.children[i]).weight() < node.weight() by {
            children_weigh_less(node.children, i);
        }
    }
}

} // verus!

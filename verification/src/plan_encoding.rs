//! Cuts the plan of a stage down to what one of its tasks executes.
use crate::error::{DistributedError, DistributedErrorView, ErrorKind};
use crate::ids::Uuid;
use crate::plan::{
    DistributedTaskContext, Operator, OperatorView, PartitionRule, Plan, PlanView,
};
use crate::recursion::{
    children_weigh_less, DownRewriter, Rewriter, Scope, Transformed, TransformedView, TreeNodeExt,
    TreeNodeRecursion,
};
use std::sync::Arc;
use vstd::prelude::*;

verus! {

/// The feed that a node of a task reads from, and how many partitions it reads.
#[derive(Clone, Copy, PartialEq, Eq, Debug)]
pub struct WorkUnitFeedDeclaration {
    pub id: Uuid,
    pub partitions: usize,
}

/// The leaf that stands for a plan that a task does not execute.
pub open spec fn unexecuted() -> PlanView {
    crate::plan::new_node(
        OperatorView::Other { name: "EmptyExec"@, partitions: PartitionRule::Fixed(1) },
        Seq::empty(),
    )
}

/// The children of an isolated union, with those that the task does not execute
/// emptied.
pub open spec fn trimmed(
    children: Seq<PlanView>,
    routes: Seq<(usize, DistributedTaskContext)>,
) -> Seq<PlanView> {
    Seq::new(
        children.len(),
        |i: int|
            if crate::recursion::route_to(routes, i) is Some {
                children[i]
            } else {
                unexecuted()
            },
    )
}

impl PlanView {
    /// The feeds that are declared once the node has been added to those declared before.
    pub open spec fn declared(self, before: Seq<WorkUnitFeedDeclaration>) -> Seq<
        WorkUnitFeedDeclaration,
    > {
        match self.feed() {
            Some(id) => before.push(
                WorkUnitFeedDeclaration { id, partitions: self.partition_count() as usize },
            ),
            None => before,
        }
    }

    /// What a task needs of the node: of one that reads from a feed all of it, of an isolated
    /// union the children that it executes, of a leaf with one variant per task its own variant,
    /// of any other node all of it. Nodes that hold on to something of the run that made them are
    /// made anew.
    pub open spec fn specialized(self, ctx: DistributedTaskContext) -> Result<
        TransformedView,
        DistributedErrorView,
    > {
        if self.feed() is Some {
            Ok(
                TransformedView {
                    data: self,
                    transformed: true,
                    tnr: TreeNodeRecursion::Continue,
                },
            )
        } else {
            match self.op {
                OperatorView::ChildrenIsolatorUnion { .. } => Ok(
                    TransformedView {
                        data: self.over(
                            crate::plan_encoding::trimmed(self.children, self.op.routes(ctx)),
                        ),
                        transformed: true,
                        tnr: TreeNodeRecursion::Continue,
                    },
                ),
                OperatorView::DistributedLeaf { .. } => if ctx.task_index < self.variants.len() {
                    Ok(
                        TransformedView {
                            data: self.variants[ctx.task_index as int],
                            transformed: true,
                            tnr: TreeNodeRecursion::Continue,
                        },
                    )
                } else {
                    Err(
                        (ErrorKind::MissingVariant {
                            task: ctx.task_index,
                            variants: self.variants.len() as usize,
                        }).plain(),
                    )
                },
                _ => Ok(
                    TransformedView {
                        data: self,
                        transformed: self.op.is_network_boundary(),
                        tnr: TreeNodeRecursion::Continue,
                    },
                ),
            }
        }
    }
}

/// Cuts plans down to what a task executes, and notes the feeds that the task reads from.
pub struct TaskSpecializer {
    pub declarations: Vec<WorkUnitFeedDeclaration>,
}

fn trim(children: &Vec<Arc<Plan>>, op: &Operator, ctx: DistributedTaskContext) -> (result: Vec<
    Arc<Plan>,
>)
    requires
        op@ is ChildrenIsolatorUnion,
        ctx.fits(op@, children@.len()),
    ensures
        crate::plan::views(result@) =~= trimmed(
            crate::plan::views(children@),
            op@.routes(ctx),
        ),
{
    let mut result: Vec<Arc<Plan>> = Vec::new();
    let mut i: usize = 0;
    while i < children.len()
        invariant
            0 <= i <= children@.len(),
            op@ is ChildrenIsolatorUnion,
            ctx.fits(op@, children@.len()),
            result@.len() == i,
            forall|j: int|
                0 <= j < i ==> (#[trigger] result@[j])@ == trimmed(
                    crate::plan::views(children@),
                    op@.routes(ctx),
                )[j],
        decreases children@.len() - i,
    {
        match ctx.scope_of_child(op, children.len(), i) {
            Some(_) => result.push(Arc::clone(&children[i])),
            None => result.push(
                Plan::node(
                    Operator::Other {
                        name: "EmptyExec".to_owned(),
                        partitions: PartitionRule::Fixed(1),
                    },
                    Vec::new(),
                ),
            ),
        }
        proof {
            assert(crate::plan::views(Seq::<Arc<Plan>>::empty()) =~= Seq::empty());
        }
        i += 1;
    }
    result
}

impl Rewriter<DistributedTaskContext> for TaskSpecializer {
    type State = Seq<WorkUnitFeedDeclaration>;

    open spec fn state(&self) -> Seq<WorkUnitFeedDeclaration> {
        self.declarations@
    }

    open spec fn rewritten(
        state: Seq<WorkUnitFeedDeclaration>,
        node: PlanView,
        scope: DistributedTaskContext,
    ) -> (Seq<WorkUnitFeedDeclaration>, Result<TransformedView, DistributedErrorView>) {
        if node.feed() is Some && node.partition_count() > usize::MAX {
            (state, Err(ErrorKind::PartitionCountOverflow.plain()))
        } else {
            (node.declared(state), node.specialized(scope))
        }
    }

    fn rewrite(&mut self, node: Arc<Plan>, scope: DistributedTaskContext) -> (result: Result<
        Transformed,
        DistributedError,
    >) {
        if let Some(id) = node.work_unit_feed() {
            let partitions: usize = node.partition_count()?;
            self.declarations.push(WorkUnitFeedDeclaration { id, partitions });
            return Ok(Transformed::yes(node));
        }
        match &*node.op {
            Operator::ChildrenIsolatorUnion { .. } => {
                let children = trim(&node.children, &node.op, scope);
                proof {
                    assert(crate::plan::views(node.children@) =~= node@.children);
                }
                Ok(Transformed::yes(node.with_new_children(children)))
            },
            Operator::DistributedLeaf { .. } => {
                if scope.task_index < node.variants.len() {
                    proof {
                        assert(node@.variants[scope.task_index as int]
                            == node.variants@[scope.task_index as int]@);
                    }
                    Ok(Transformed::yes(Arc::clone(&node.variants[scope.task_index])))
                } else {
                    Err(
                        DistributedError::new(
                            ErrorKind::MissingVariant {
                                task: scope.task_index,
                                variants: node.variants.len(),
                            },
                        ),
                    )
                }
            },
            _ => {
                let transformed: bool = node.op.is_network_boundary();
                Ok(Transformed { data: node, transformed, tnr: TreeNodeRecursion::Continue })
            },
        }
    }
}

proof fn unexecuted_accepts(ctx: DistributedTaskContext)
    ensures
        unexecuted().accepts(ctx),
        unexecuted().weight() == 1,
{
}

impl DownRewriter<DistributedTaskContext> for TaskSpecializer {
    open spec fn rank(state: Seq<WorkUnitFeedDeclaration>) -> nat {
        0
    }

    open spec fn size(plan: PlanView) -> nat {
        plan.weight()
    }

    proof fn makes_progress(
        state: Seq<WorkUnitFeedDeclaration>,
        node: PlanView,
        scope: DistributedTaskContext,
    ) {
        if let Ok(transformed) = Self::rewritten(state, node, scope).1 {
            let data = transformed.data;
            if node.feed() is None && node.op is DistributedLeaf {
                children_weigh_less(node.variants, scope.task_index as int);
            }
            assert forall|i: int| 0 <= i < data.children.len() implies (
            #[trigger] data.children[i]).weight() < node.weight() by {
                if node.feed() is None && node.op is ChildrenIsolatorUnion {
                    children_weigh_less(node.children, i);
                    unexecuted_accepts(scope);
                } else {
                    children_weigh_less(data.children, i);
                }
            }
        }
    }
}

/// What a task of a stage executes, and the feeds that it reads from.
pub open spec fn task_plan(plan: PlanView, ctx: DistributedTaskContext) -> Result<
    (PlanView, Seq<WorkUnitFeedDeclaration>),
    DistributedErrorView,
> {
    let (declarations, result) = crate::recursion::rewritten_down::<
        DistributedTaskContext,
        TaskSpecializer,
    >(Seq::empty(), plan, ctx);
    match result {
        Ok(transformed) => Ok((transformed.data, declarations)),
        Err(error) => Err(error),
    }
}

/// Cuts the plan of a stage down to what one of its tasks executes, so that no task is sent
/// branches of an isolated union or variants of a leaf that others execute. Comes with the feeds
/// that the task reads from, in the order in which their nodes are met.
pub fn task_specialized_plan(plan: &Arc<Plan>, task_index: usize, task_count: usize) -> (result:
    Result<(Arc<Plan>, Vec<WorkUnitFeedDeclaration>), DistributedError>)
    requires
        plan@.accepts(DistributedTaskContext { task_index, task_count }),
    ensures
        match result {
            Ok(specialized) => task_plan(plan@, DistributedTaskContext { task_index, task_count })
                == Ok::<_, DistributedErrorView>((specialized.0@, specialized.1@)),
            Err(error) => task_plan(plan@, DistributedTaskContext { task_index, task_count })
                == Err::<(PlanView, Seq<WorkUnitFeedDeclaration>), _>(error@),
        },
{
    let mut specializer = TaskSpecializer { declarations: Vec::new() };
    let ctx = DistributedTaskContext { task_index, task_count };
    let transformed = Arc::clone(plan).transform_down_with_dt_ctx(ctx, &mut specializer)?;
    Ok((transformed.data, specializer.declarations))
}

} // verus!

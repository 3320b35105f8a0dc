use datafusion_distributed::boundary_factory::{BoundaryFactory, DefaultBoundaryFactory};
use datafusion_distributed::error::ErrorKind;
use datafusion_distributed::ids::Uuid;
use datafusion_distributed::plan::{
    ChildWeight, DistributedTaskContext, Facts, Operator, PartitionRule, Plan, Stage,
};
use datafusion_distributed::query_coordinator::FeedCollector;
use datafusion_distributed::recursion::{pre_order, Recorder, TreeNodeExt, TreeNodeRecursion};
use std::sync::Arc;

#[test]
fn apply_leaf() {
    let plan = leaf();
    assert_eq!(trace_apply(&plan, ctx(0, 1)), "Leaf [ctx=0/1]");
}

#[test]
fn apply_top_down_order() {
    let plan = union(vec![leaf(), leaf()]);
    assert_eq!(
        trace_apply(&plan, ctx(0, 1)),
        lines(&[
            "Union [ctx=0/1]",
            "Leaf [ctx=0/1]",
            "Leaf [ctx=0/1]",
        ])
    );
}

#[test]
fn apply_deep_tree() {
    let plan = single(single(leaf()));
    assert_eq!(
        trace_apply(&plan, ctx(0, 1)),
        lines(&[
            "Single [ctx=0/1]",
            "Single [ctx=0/1]",
            "Leaf [ctx=0/1]",
        ])
    );
}

#[test]
fn apply_stop() {
    let plan = single(leaf());
    assert_eq!(
        trace_apply_with(&plan, ctx(0, 1), vec![TreeNodeRecursion::Stop]),
        "Single [ctx=0/1] [->stop]"
    );
}

#[test]
fn apply_jump_skips_subtree() {
    let child = single(leaf());
    let plan = single(Arc::clone(&child));
    assert_eq!(
        trace_apply_with(
            &plan,
            ctx(0, 1),
            vec![TreeNodeRecursion::Continue, TreeNodeRecursion::Jump]
        ),
        lines(&[
            "Single [ctx=0/1]",
            "Single [ctx=0/1] [->jump]",
        ])
    );
}

#[test]
fn apply_network_boundary() {
    let plan = network_boundary(leaf(), 2);
    assert_eq!(trace_apply(&plan, ctx(0, 1)), "Network [ctx=0/1]");
}

#[test]
fn apply_ciu_routing() {
    let plan = ciu(vec![leaf(), leaf()], vec![1, 1], 2);
    assert_eq!(
        trace_apply(&plan, ctx(0, 2)),
        lines(&[
            "CIU [ctx=0/2]",
            "Leaf [ctx=0/1]",
        ])
    );
    assert_eq!(
        trace_apply(&plan, ctx(1, 2)),
        lines(&[
            "CIU [ctx=1/2]",
            "Leaf [ctx=0/1]",
        ])
    );
}

#[test]
fn apply_ciu_context_remapping() {
    let plan = ciu(vec![leaf(), leaf(), leaf()], vec![1, 1, 1], 3);
    assert_eq!(
        trace_apply(&plan, ctx(0, 3)),
        lines(&[
            "CIU [ctx=0/3]",
            "Leaf [ctx=0/1]",
        ])
    );
    assert_eq!(
        trace_apply(&plan, ctx(1, 3)),
        lines(&[
            "CIU [ctx=1/3]",
            "Leaf [ctx=0/1]",
        ])
    );
    assert_eq!(
        trace_apply(&plan, ctx(2, 3)),
        lines(&[
            "CIU [ctx=2/3]",
            "Leaf [ctx=0/1]",
        ])
    );
}

#[test]
fn apply_nested_ciu() {
    let inner0 = ciu(vec![leaf(), leaf()], vec![1, 1], 2);
    let inner1 = ciu(vec![leaf(), leaf()], vec![1, 1], 2);
    let plan = ciu(vec![inner0, inner1], vec![2, 2], 4);
    assert_eq!(
        trace_apply(&plan, ctx(0, 4)),
        lines(&[
            "CIU [ctx=0/4]",
            "CIU [ctx=0/2]",
            "Leaf [ctx=0/1]",
        ])
    );
    assert_eq!(
        trace_apply(&plan, ctx(1, 4)),
        lines(&[
            "CIU [ctx=1/4]",
            "CIU [ctx=1/2]",
            "Leaf [ctx=0/1]",
        ])
    );
    assert_eq!(
        trace_apply(&plan, ctx(2, 4)),
        lines(&[
            "CIU [ctx=2/4]",
            "CIU [ctx=0/2]",
            "Leaf [ctx=0/1]",
        ])
    );
    assert_eq!(
        trace_apply(&plan, ctx(3, 4)),
        lines(&[
            "CIU [ctx=3/4]",
            "CIU [ctx=1/2]",
            "Leaf [ctx=0/1]",
        ])
    );
}

#[test]
fn apply_ciu_multi_children_per_task() {
    // 4 children dealt out to 2 tasks: each task sees 2 children
    let plan = ciu(vec![leaf(), leaf(), leaf(), leaf()], vec![1, 1, 1, 1], 2);
    assert_eq!(
        trace_apply(&plan, ctx(0, 2)),
        lines(&[
            "CIU [ctx=0/2]",
            "Leaf [ctx=0/1]",
            "Leaf [ctx=0/1]",
        ])
    );
    assert_eq!(
        trace_apply(&plan, ctx(1, 2)),
        lines(&[
            "CIU [ctx=1/2]",
            "Leaf [ctx=0/1]",
            "Leaf [ctx=0/1]",
        ])
    );
}

#[test]
fn dt_ctx_down_leaf() {
    let plan = leaf();
    assert_eq!(trace_dt_ctx_down(plan, ctx(2, 4)), "Leaf [ctx=2/4]");
}

#[test]
fn dt_ctx_down_top_down_order() {
    let plan = single(leaf());
    assert_eq!(
        trace_dt_ctx_down(plan, ctx(0, 1)),
        lines(&[
            "Single [ctx=0/1]",
            "Leaf [ctx=0/1]",
        ])
    );
}

#[test]
fn dt_ctx_down_ctx_propagation() {
    let plan = union(vec![leaf(), leaf()]);
    assert_eq!(
        trace_dt_ctx_down(plan, ctx(1, 3)),
        lines(&[
            "Union [ctx=1/3]",
            "Leaf [ctx=1/3]",
            "Leaf [ctx=1/3]",
        ])
    );
}

#[test]
fn dt_ctx_down_network_boundary() {
    let plan = network_boundary(leaf(), 2);
    assert_eq!(trace_dt_ctx_down(plan, ctx(0, 1)), "Network [ctx=0/1]");
}

#[test]
fn dt_ctx_down_ciu_routing() {
    let plan = ciu(vec![leaf(), leaf()], vec![1, 1], 2);
    assert_eq!(
        trace_dt_ctx_down(Arc::clone(&plan), ctx(0, 2)),
        lines(&[
            "CIU [ctx=0/2]",
            "Leaf [ctx=0/1]",
        ])
    );
    assert_eq!(
        trace_dt_ctx_down(plan, ctx(1, 2)),
        lines(&[
            "CIU [ctx=1/2]",
            "Leaf [ctx=0/1]",
        ])
    );
}

#[test]
fn dt_ctx_down_nested_ciu() {
    let inner0 = ciu(vec![leaf(), leaf()], vec![1, 1], 2);
    let inner1 = ciu(vec![leaf(), leaf()], vec![1, 1], 2);
    let plan = ciu(vec![inner0, inner1], vec![2, 2], 4);
    assert_eq!(
        trace_dt_ctx_down(Arc::clone(&plan), ctx(0, 4)),
        lines(&[
            "CIU [ctx=0/4]",
            "CIU [ctx=0/2]",
            "Leaf [ctx=0/1]",
        ])
    );
    assert_eq!(
        trace_dt_ctx_down(Arc::clone(&plan), ctx(1, 4)),
        lines(&[
            "CIU [ctx=1/4]",
            "CIU [ctx=1/2]",
            "Leaf [ctx=0/1]",
        ])
    );
    assert_eq!(
        trace_dt_ctx_down(Arc::clone(&plan), ctx(2, 4)),
        lines(&[
            "CIU [ctx=2/4]",
            "CIU [ctx=0/2]",
            "Leaf [ctx=0/1]",
        ])
    );
    assert_eq!(
        trace_dt_ctx_down(Arc::clone(&plan), ctx(3, 4)),
        lines(&[
            "CIU [ctx=3/4]",
            "CIU [ctx=1/2]",
            "Leaf [ctx=0/1]",
        ])
    );
}

#[test]
fn dt_ctx_down_jump_skips_subtree() {
    let child = single(leaf());
    let root = single(Arc::clone(&child));
    assert_eq!(
        trace_dt_ctx_down_with(
            root,
            ctx(0, 1),
            vec![TreeNodeRecursion::Continue, TreeNodeRecursion::Jump]
        ),
        lines(&[
            "Single [ctx=0/1]",
            "Single [ctx=0/1] [->jump]",
        ])
    );
}

#[test]
fn tc_up_leaf() {
    let plan = leaf();
    assert_eq!(trace_tc_up(plan, 7), "Leaf [tc=7]");
}

#[test]
fn tc_up_bottom_up_order() {
    let plan = single(leaf());
    assert_eq!(
        trace_tc_up(plan, 1),
        lines(&[
            "Leaf [tc=1]",
            "Single [tc=1]",
        ])
    );
}

#[test]
fn tc_up_uniform_task_count() {
    let plan = union(vec![leaf(), leaf()]);
    assert_eq!(
        trace_tc_up(plan, 5),
        lines(&[
            "Leaf [tc=5]",
            "Leaf [tc=5]",
            "Union [tc=5]",
        ])
    );
}

#[test]
fn tc_up_ciu_per_child_task_counts() {
    let plan = ciu(vec![leaf(), leaf()], vec![2, 3], 5);
    assert_eq!(
        trace_tc_up(plan, 5),
        lines(&[
            "Leaf [tc=2]",
            "Leaf [tc=3]",
            "CIU [tc=5]",
        ])
    );
}

#[test]
fn tc_up_network_boundary_changes_tc() {
    // Nodes inside the NB run at the producer task count (2), not the outer count (5)
    let plan = single(network_boundary(leaf(), 2));
    assert_eq!(
        trace_tc_up(plan, 5),
        lines(&[
            "Leaf [tc=2]",
            "Network [tc=5]",
            "Single [tc=5]",
        ])
    );
}

#[test]
fn tc_up_remote_nb_has_no_subtree() {
    let plan = union(vec![
        single(network_boundary(leaf(), 2)),
        single(remote_network_boundary()),
    ]);
    assert_eq!(
        trace_tc_up(plan, 5),
        lines(&[
            "Leaf [tc=2]",
            "Network [tc=5]",
            "Single [tc=5]",
            "Network [tc=5]",
            "Single [tc=5]",
            "Union [tc=5]",
        ])
    );
}

#[test]
fn tc_down_leaf() {
    let plan = leaf();
    assert_eq!(trace_tc_down(plan, 7), "Leaf [tc=7]");
}

#[test]
fn tc_down_top_down_order() {
    let plan = single(leaf());
    assert_eq!(
        trace_tc_down(plan, 1),
        lines(&[
            "Single [tc=1]",
            "Leaf [tc=1]",
        ])
    );
}

#[test]
fn tc_down_uniform_task_count() {
    let plan = union(vec![leaf(), leaf()]);
    assert_eq!(
        trace_tc_down(plan, 5),
        lines(&[
            "Union [tc=5]",
            "Leaf [tc=5]",
            "Leaf [tc=5]",
        ])
    );
}

#[test]
fn tc_down_ciu_per_child_task_counts() {
    let plan = ciu(vec![leaf(), leaf()], vec![2, 3], 5);
    assert_eq!(
        trace_tc_down(plan, 5),
        lines(&[
            "CIU [tc=5]",
            "Leaf [tc=2]",
            "Leaf [tc=3]",
        ])
    );
}

#[test]
fn tc_down_network_boundary_changes_tc() {
    let plan = single(network_boundary(leaf(), 2));
    assert_eq!(
        trace_tc_down(plan, 5),
        lines(&[
            "Single [tc=5]",
            "Network [tc=5]",
            "Leaf [tc=2]",
        ])
    );
}

#[test]
fn tc_down_remote_nb_has_no_subtree() {
    let plan = union(vec![
        single(network_boundary(leaf(), 2)),
        single(remote_network_boundary()),
    ]);
    assert_eq!(
        trace_tc_down(plan, 5),
        lines(&[
            "Union [tc=5]",
            "Single [tc=5]",
            "Network [tc=5]",
            "Leaf [tc=2]",
            "Single [tc=5]",
            "Network [tc=5]",
        ])
    );
}

#[test]
fn errors_end_a_walk() {
    let plan = union(vec![feed(1), feed(usize::MAX), feed(1)]);
    let mut feeds = FeedCollector { ranges: vec![] };
    let error = plan.apply_with_dt_ctx(ctx(1, 2), &mut feeds).unwrap_err();
    assert_eq!(error.kind, ErrorKind::PartitionCountOverflow);
    assert_eq!(feeds.ranges.len(), 1);
}

#[test]
fn stop_leaves_later_siblings_unvisited() {
    let plan = union(vec![single(leaf()), leaf()]);
    let mut recorder =
        Recorder::new(vec![TreeNodeRecursion::Continue, TreeNodeRecursion::Stop]);
    let end = plan.apply_with_dt_ctx(ctx(0, 1), &mut recorder).unwrap();
    assert_eq!(end, TreeNodeRecursion::Stop);
    assert_eq!(
        ctx_lines(&recorder),
        lines(&["Union [ctx=0/1]", "Single [ctx=0/1] [->stop]"])
    );
}

#[test]
fn jump_going_up_skips_ancestors_of_last_children() {
    let plan = union(vec![single(leaf()), single(leaf())]);
    let mut recorder = Recorder::new(vec![
        TreeNodeRecursion::Continue,
        TreeNodeRecursion::Continue,
        TreeNodeRecursion::Jump,
    ]);
    let result = plan.transform_up_with_task_count(2, &mut recorder).unwrap();
    assert!(!result.transformed);
    assert_eq!(result.tnr, TreeNodeRecursion::Jump);
    assert_eq!(
        tc_lines(&recorder),
        lines(&["Leaf [tc=2]", "Single [tc=2]", "Leaf [tc=2]"])
    );
}

#[test]
fn pre_order_lists_all_nodes() {
    let plan = union(vec![single(network_boundary(leaf(), 2)), leaf()]);
    let labels: Vec<&str> = pre_order(&plan).iter().map(|node| plan_label(node)).collect();
    assert_eq!(labels, vec!["Union", "Single", "Network", "Leaf", "Leaf"]);
}

fn feed(partitions: usize) -> Arc<Plan> {
    Arc::new(Plan {
        op: Arc::new(Operator::Other {
            name: "FeedExec".to_string(),
            partitions: PartitionRule::Fixed(partitions),
        }),
        facts: Some(Arc::new(Facts {
            estimate: None,
            feed: Some(Uuid::nil()),
            properties: None,
            requirements: vec![],
            unsatisfied_co_partitioned: None,
            produced: vec![],
            filters: vec![],
        })),
        task_count: None,
        children: vec![],
        variants: vec![],
    })
}

fn lines(lines: &[&str]) -> String {
    lines.join("\n")
}

fn leaf() -> Arc<Plan> {
    Plan::node(
        Operator::Other {
            name: "EmptyExec".to_string(),
            partitions: PartitionRule::Fixed(1),
        },
        vec![],
    )
}

fn single(child: Arc<Plan>) -> Arc<Plan> {
    Plan::node(Operator::CoalescePartitions { fetch: None }, vec![child])
}

fn union(children: Vec<Arc<Plan>>) -> Arc<Plan> {
    Plan::node(Operator::Union, children)
}

fn network_boundary(input: Arc<Plan>, producer_tasks: usize) -> Arc<Plan> {
    DefaultBoundaryFactory.coalesce(input, Uuid::nil(), 0, 1, producer_tasks).unwrap()
}

fn remote_network_boundary() -> Arc<Plan> {
    let stage = Stage::Remote {
        query_id: Uuid::nil(),
        num: 0,
        workers: vec![],
    };
    network_boundary(leaf(), 1).with_input_stage(stage, vec![])
}

/// Deals tasks out to the children of a union: as many as each of them asks for where there are
/// enough tasks, otherwise as many children as possible share a task.
fn ciu(
    children: Vec<Arc<Plan>>,
    child_task_counts: Vec<usize>,
    task_count: usize,
) -> Arc<Plan> {
    let mut task_idx_map = vec![];
    if child_task_counts.iter().sum::<usize>() == task_count {
        for (child, tasks) in child_task_counts.iter().enumerate() {
            for task in 0..*tasks {
                task_idx_map.push(vec![(child, ctx(task, *tasks))]);
            }
        }
    } else {
        let per_task = children.len() / task_count;
        for task in 0..task_count {
            let first = task * per_task;
            task_idx_map.push((first..first + per_task).map(|c| (c, ctx(0, 1))).collect());
        }
    }
    let weights = child_task_counts
        .iter()
        .map(|tasks| ChildWeight {
            weight_bits: (*tasks as f64).to_bits(),
            max: None,
        })
        .collect();
    Plan::node(
        Operator::ChildrenIsolatorUnion {
            partitions: 1,
            weights,
            task_idx_map,
        },
        children,
    )
}

fn ctx(task_index: usize, task_count: usize) -> DistributedTaskContext {
    DistributedTaskContext { task_index, task_count }
}

fn plan_label(p: &Arc<Plan>) -> &'static str {
    match &*p.op {
        Operator::Other { .. } => "Leaf",
        Operator::CoalescePartitions { .. } => "Single",
        Operator::Union => "Union",
        Operator::ChildrenIsolatorUnion { .. } => "CIU",
        Operator::NetworkCoalesce { .. } => "Network",
        _ => "?",
    }
}

fn ctx_lines(recorder: &Recorder<DistributedTaskContext>) -> String {
    let mut lines = vec![];
    for (i, (node, c)) in recorder.visits.iter().enumerate() {
        let suffix = match recorder.decisions.get(i) {
            Some(TreeNodeRecursion::Jump) => " [->jump]",
            Some(TreeNodeRecursion::Stop) => " [->stop]",
            _ => "",
        };
        lines.push(format!(
            "{} [ctx={}/{}]{suffix}",
            plan_label(node),
            c.task_index,
            c.task_count,
        ));
    }
    lines.join("\n")
}

fn tc_lines(recorder: &Recorder<usize>) -> String {
    let lines: Vec<String> = recorder
        .visits
        .iter()
        .map(|(node, tc)| format!("{} [tc={tc}]", plan_label(node)))
        .collect();
    lines.join("\n")
}

fn trace_apply(root: &Arc<Plan>, dt_ctx: DistributedTaskContext) -> String {
    trace_apply_with(root, dt_ctx, vec![])
}

fn trace_apply_with(
    root: &Arc<Plan>,
    dt_ctx: DistributedTaskContext,
    decisions: Vec<TreeNodeRecursion>,
) -> String {
    let mut recorder = Recorder::new(decisions);
    root.apply_with_dt_ctx(dt_ctx, &mut recorder).unwrap();
    ctx_lines(&recorder)
}

fn trace_dt_ctx_down(root: Arc<Plan>, dt_ctx: DistributedTaskContext) -> String {
    trace_dt_ctx_down_with(root, dt_ctx, vec![])
}

fn trace_dt_ctx_down_with(
    root: Arc<Plan>,
    dt_ctx: DistributedTaskContext,
    decisions: Vec<TreeNodeRecursion>,
) -> String {
    let mut recorder = Recorder::new(decisions);
    root.transform_down_with_dt_ctx(dt_ctx, &mut recorder).unwrap();
    ctx_lines(&recorder)
}

fn trace_tc_up(root: Arc<Plan>, tc: usize) -> String {
    let mut recorder = Recorder::new(vec![]);
    root.transform_up_with_task_count(tc, &mut recorder).unwrap();
    tc_lines(&recorder)
}

fn trace_tc_down(root: Arc<Plan>, tc: usize) -> String {
    let mut recorder = Recorder::new(vec![]);
    root.transform_down_with_task_count(tc, &mut recorder).unwrap();
    tc_lines(&recorder)
}

use datafusion_distributed::boundary_factory::{
    BoundaryFactory, BoundaryKind, DefaultBoundaryFactory,
};
use datafusion_distributed::embedded::{
    build_outbound_senders, check_receiver_token, check_sinks, collect_dispatched_stages,
    destination, fragment_outcome, fragments_for_proc, leader_setup, peer_proc_for_index,
    proc_for_task, worker_setup, FragmentRouting, MppFrameHeader, PartitionOutcome,
    NO_RECEIVER_TOKEN,
};
use datafusion_distributed::error::{DistributedError, ErrorKind};
use datafusion_distributed::ids::Uuid;
use datafusion_distributed::plan::{Expr, Operator, PartitionRule, Partitioning, Plan};
use datafusion_distributed::prepare_network_boundaries::prepare_network_boundaries;
use datafusion_distributed::worker_fragments::{for_each_worker_fragment, worker_fragments};
use std::sync::Arc;

fn empty_leaf() -> Arc<Plan> {
    Plan::node(
        Operator::Other {
            name: "EmptyExec".to_string(),
            partitions: PartitionRule::Fixed(1),
        },
        vec![],
    )
}

fn hash(partitions: usize) -> Partitioning {
    let key = Expr::Column { name: "k".to_string(), index: 0 };
    Partitioning::Hash(Arc::new(vec![key]), partitions)
}

/// Three tasks shuffle to two, which the leader gathers.
fn two_stages() -> Arc<Plan> {
    let repartition =
        Plan::node(Operator::Repartition { partitioning: hash(4) }, vec![empty_leaf()]);
    let shuffle = DefaultBoundaryFactory.shuffle(repartition, Uuid::nil(), 0, 1, 3).unwrap();
    let coalesce = DefaultBoundaryFactory.coalesce(shuffle, Uuid::nil(), 0, 1, 2).unwrap();
    let root = Plan::node(Operator::CoalescePartitions { fetch: None }, vec![coalesce]);
    prepare_network_boundaries(&root).unwrap()
}

#[test]
fn boundary_free_plan_yields_no_fragments() {
    let plan = empty_leaf();
    let count = for_each_worker_fragment(&plan, 0, |_frag, count: usize| count + 1);
    assert_eq!(count, 0);
}

#[test]
fn every_task_of_every_stage_is_a_fragment() {
    let frags = worker_fragments(&two_stages());
    let found: Vec<(u32, usize, usize, BoundaryKind, bool, usize)> = frags
        .iter()
        .map(|f| {
            let partitions = f.partitions_per_consumer_task;
            (f.stage_id, f.task_idx, f.task_count, f.kind, f.nested, partitions)
        })
        .collect();
    assert_eq!(
        found,
        vec![
            (2, 0, 2, BoundaryKind::Coalesce, false, 8),
            (2, 1, 2, BoundaryKind::Coalesce, false, 8),
            (1, 0, 3, BoundaryKind::Shuffle, true, 4),
            (1, 1, 3, BoundaryKind::Shuffle, true, 4),
            (1, 2, 3, BoundaryKind::Shuffle, true, 4),
        ]
    );
    let walked = for_each_worker_fragment(&two_stages(), vec![], |frag, mut seen| {
        seen.push((frag.stage_id, frag.task_idx));
        seen
    });
    let listed: Vec<(u32, usize)> = frags.iter().map(|f| (f.stage_id, f.task_idx)).collect();
    assert_eq!(walked, listed);
}

#[test]
fn stages_below_gathered_stages_are_routed_to_their_readers() {
    let entries = collect_dispatched_stages(&two_stages(), 2).unwrap();
    assert_eq!(entries.len(), 2);
    assert_eq!((entries[0].stage_num, entries[0].task_count), (2, 2));
    assert!(matches!(&*entries[0].routing, FragmentRouting::Coalesce { dest_proc: 0 }));
    assert_eq!((entries[1].stage_num, entries[1].task_count), (1, 3));
    match &*entries[1].routing {
        FragmentRouting::Hashed { consumer_task, broadcast } => {
            assert_eq!(consumer_task, &vec![0, 0, 0, 0, 1, 1, 1, 1]);
            assert!(!broadcast);
        }
        other => panic!("unexpected routing {other:?}"),
    }
    // The first task of the upper stage runs in the first worker, the second in the second.
    assert_eq!(destination(&entries[1].routing, 3, 2), 1);
    assert_eq!(destination(&entries[1].routing, 4, 2), 2);
    assert_eq!(destination(&entries[0].routing, 0, 2), 0);
}

#[test]
fn every_task_runs_in_one_worker() {
    let entries = collect_dispatched_stages(&two_stages(), 2).unwrap();
    let tasks_of = |proc| {
        fragments_for_proc(&entries, proc, 2)
            .iter()
            .map(|f| (f.stage_id, f.task_idx))
            .collect::<Vec<_>>()
    };
    assert_eq!(tasks_of(0), vec![]);
    assert_eq!(tasks_of(1), vec![(2, 0), (1, 0), (1, 2)]);
    assert_eq!(tasks_of(2), vec![(2, 1), (1, 1)]);
}

#[test]
fn broadcasts_are_produced_by_their_first_task() {
    let broadcast = DefaultBoundaryFactory
        .broadcast(
            Plan::node(Operator::Broadcast { consumer_tasks: 1 }, vec![empty_leaf()]),
            Uuid::nil(),
            0,
            1,
            2,
        )
        .unwrap();
    let coalesce = DefaultBoundaryFactory.coalesce(broadcast, Uuid::nil(), 0, 1, 2).unwrap();
    let plan = prepare_network_boundaries(&coalesce).unwrap();
    let entries = collect_dispatched_stages(&plan, 2).unwrap();
    assert!(matches!(&*entries[1].routing, FragmentRouting::Hashed { broadcast: true, .. }));
    let tasks: Vec<(u32, usize)> = (1..=2)
        .flat_map(|proc| fragments_for_proc(&entries, proc, 2))
        .map(|f| (f.stage_id, f.task_idx))
        .collect();
    assert_eq!(tasks, vec![(2, 0), (1, 0), (2, 1)]);
}

#[test]
fn rows_for_tasks_need_tasks_above() {
    let repartition =
        Plan::node(Operator::Repartition { partitioning: hash(4) }, vec![empty_leaf()]);
    let shuffle = DefaultBoundaryFactory.shuffle(repartition, Uuid::nil(), 0, 1, 3).unwrap();
    let error = collect_dispatched_stages(&shuffle, 2).unwrap_err();
    assert_eq!(error.message(), "top-level NetworkShuffleExec is unsupported");
}

#[test]
fn processes_are_numbered_from_the_leader_on() {
    assert_eq!(proc_for_task(3, 0), 1);
    assert_eq!(proc_for_task(3, 2), 3);
    assert_eq!(proc_for_task(3, 3), 1);
    // The peers of the third process are all but itself.
    let peers: Vec<u32> = (0..3).map(|index| peer_proc_for_index(2, index)).collect();
    assert_eq!(peers, vec![0, 1, 3]);
}

#[test]
fn senders_are_found_by_the_process_they_lead_to() {
    let senders = build_outbound_senders(1, 4, vec!["to 0", "to 2", "to 3"]);
    let channels: Vec<Option<&str>> =
        senders.iter().map(|s| s.as_ref().map(|s| s.channel)).collect();
    assert_eq!(channels, vec![Some("to 0"), None, Some("to 2"), Some("to 3")]);
    let header = MppFrameHeader { stage_id: 0, partition: 0, sender_proc: 1 };
    assert_eq!(senders[0].as_ref().unwrap().header, header);
}

#[test]
fn workers_can_send_to_themselves() {
    let attach =
        worker_setup("mesh", vec![1, 2], 1, 3, vec!["to 0", "to 2"], "self", 9).unwrap();
    assert_eq!(attach.mesh, "mesh");
    assert_eq!(attach.plan_bytes, vec![1, 2]);
    let channels: Vec<&str> =
        attach.outbound_senders.iter().map(|s| s.as_ref().unwrap().channel).collect();
    assert_eq!(channels, vec!["to 0", "self", "to 2"]);
}

#[test]
fn receivers_need_a_token() {
    check_receiver_token("worker_setup", 1).unwrap();
    let error = check_receiver_token("worker_setup", NO_RECEIVER_TOKEN).unwrap_err();
    assert_eq!(error.kind, ErrorKind::NoReceiverToken);
    assert!(worker_setup((), vec![], 1, 2, vec![0], 1, NO_RECEIVER_TOKEN).is_err());
    assert_eq!(leader_setup("mesh", vec!["to 1"], 4).unwrap(), "mesh");
    let error = leader_setup("mesh", vec!["to 1"], NO_RECEIVER_TOKEN).unwrap_err();
    assert_eq!(
        error.message(),
        "mpp: leader_setup: receiver_token is the NO_RECEIVER_TOKEN sentinel; wakeups for this \
         proc would be silently disabled"
    );
}

#[test]
fn every_partition_needs_a_sink() {
    check_sinks(&empty_leaf(), 1).unwrap();
    let error = check_sinks(&empty_leaf(), 2).unwrap_err();
    assert_eq!(
        error.message(),
        "run_worker_fragment: plan has 1 output partitions but 2 sinks"
    );
}

#[test]
fn tasks_end_with_their_first_error() {
    let failed = |text: &str| Err(DistributedError::about(ErrorKind::Embedder, text.to_string()));
    let outcome = |stream, finish| PartitionOutcome { stream, finish };
    fragment_outcome(vec![outcome(Ok(()), Ok(())), outcome(Ok(()), Ok(()))]).unwrap();
    fragment_outcome(vec![]).unwrap();
    let error = fragment_outcome(vec![
        outcome(Ok(()), Ok(())),
        outcome(failed("stream"), failed("finish")),
        outcome(failed("later"), Ok(())),
    ])
    .unwrap_err();
    assert_eq!(error.message(), "stream");
    let error = fragment_outcome(vec![outcome(Ok(()), failed("finish"))]).unwrap_err();
    assert_eq!(error.message(), "finish");
}

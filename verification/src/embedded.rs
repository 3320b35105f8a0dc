//! Distributed execution among processes of one machine that push rows to each other. Process 0
//! leads and only consumes, the others execute tasks.
use crate::error::{DistributedError, DistributedErrorView, ErrorKind};
use crate::plan::{Operator, OperatorView, Plan, PlanView, Stage};
use std::sync::Arc;
use vstd::prelude::*;

verus! {

/// The token that stands for no receiver.
pub const NO_RECEIVER_TOKEN: u64 = 0;

/// What precedes the rows of a frame.
#[derive(Clone, Copy, PartialEq, Eq, Debug, Structural)]
pub struct MppFrameHeader {
    pub stage_id: u32,
    pub partition: u32,
    /// The process that sent the frame.
    pub sender_proc: u32,
}

/// A way to another process, with the header of the frames that take it.
#[derive(Debug)]
pub struct MppSender<S> {
    pub channel: S,
    pub header: MppFrameHeader,
}

/// What a worker gets when it joins the others.
#[derive(Debug)]
pub struct WorkerAttach<M, S> {
    /// What the worker receives rows through.
    pub mesh: M,
    /// The ways to the processes, by their numbers. The one to the worker itself does not leave
    /// the process.
    pub outbound_senders: Vec<Option<MppSender<S>>>,
    /// The plan that the leader left for the worker.
    pub plan_bytes: Vec<u8>,
}

/// The process that a task runs in, where this many workers share the tasks.
pub open spec fn task_proc(n_workers: u32, task: u32) -> u32 {
    (1 + task % n_workers) as u32
}

/// The process that a task runs in, where this many workers share the tasks.
pub fn proc_for_task(n_workers: u32, task: u32) -> (result: u32)
    requires
        n_workers > 0,
    ensures
        result == task_proc(n_workers, task),
        1 <= result <= n_workers,
{
    1 + task % n_workers
}

/// The process with this index among the peers of a process. A process is no peer of itself.
pub open spec fn peer_proc(this_proc: u32, index: int) -> int {
    if index < this_proc {
        index
    } else {
        index + 1
    }
}

/// The process with this index among the peers of a process.
pub fn peer_proc_for_index(this_proc: u32, index: u32) -> (result: u32)
    requires
        index < u32::MAX,
    ensures
        result == peer_proc(this_proc, index as int),
        result != this_proc,
{
    if index < this_proc {
        index
    } else {
        index + 1
    }
}

/// The header of frames before they are given a stage and a partition.
pub open spec fn blank_header(this_proc: u32) -> MppFrameHeader {
    MppFrameHeader { stage_id: 0, partition: 0, sender_proc: this_proc }
}

/// The ways that a process has to the others, by their numbers.
pub open spec fn outbound<S>(this_proc: u32, total_procs: u32, peers: Seq<S>, proc: int) -> Option<
    MppSender<S>,
> {
    let index = if proc < this_proc {
        proc
    } else {
        proc - 1
    };
    if proc != this_proc && index < peers.len() {
        Some(MppSender { channel: peers[index], header: blank_header(this_proc) })
    } else {
        None
    }
}

/// Puts the ways to the peers of a process in the order of the processes. There is none to the
/// process itself yet.
pub fn build_outbound_senders<S>(this_proc: u32, total_procs: u32, peer_senders: Vec<S>) -> (result:
    Vec<Option<MppSender<S>>>)
    requires
        peer_senders@.len() == 0 || peer_proc(this_proc, peer_senders@.len() - 1) < total_procs,
    ensures
        result@.len() == total_procs,
        forall|proc: int|
            0 <= proc < total_procs ==> #[trigger] result@[proc] == outbound(
                this_proc,
                total_procs,
                peer_senders@,
                proc,
            ),
{
    let ghost peers = peer_senders@;
    let mut rest = peer_senders;
    let mut senders: Vec<Option<MppSender<S>>> = Vec::new();
    let mut proc: u32 = 0;
    while proc < total_procs
        invariant
            0 <= proc <= total_procs,
            senders@.len() == proc,
            rest@ == peers.skip(
                if proc <= this_proc {
                    if proc <= peers.len() {
                        proc as int
                    } else {
                        peers.len() as int
                    }
                } else {
                    if proc - 1 <= peers.len() {
                        proc - 1
                    } else {
                        peers.len() as int
                    }
                },
            ),
            forall|p: int|
                0 <= p < proc ==> #[trigger] senders@[p] == outbound(
                    this_proc,
                    total_procs,
                    peers,
                    p,
                ),
        decreases total_procs - proc,
    {
        if proc == this_proc || rest.len() == 0 {
            senders.push(None);
        } else {
            let ghost before = rest@;
            let channel = rest.remove(0);
            senders.push(
                Some(
                    MppSender {
                        channel,
                        header: MppFrameHeader {
                            stage_id: 0,
                            partition: 0,
                            sender_proc: this_proc,
                        },
                    },
                ),
            );
            proof {
                assert(rest@ =~= before.skip(1));
            }
        }
        proc += 1;
    }
    senders
}

/// The ways that a worker has to all processes, with one that does not leave the process to
/// itself: a task and the task that reads from it may share a process.
pub fn worker_senders<S>(
    this_proc: u32,
    total_procs: u32,
    peer_senders: Vec<S>,
    self_loop: S,
) -> (result: Vec<Option<MppSender<S>>>)
    requires
        this_proc < total_procs,
        peer_senders@.len() < total_procs,
    ensures
        result@.len() == total_procs,
        forall|proc: int|
            0 <= proc < total_procs ==> #[trigger] result@[proc] == (if proc == this_proc {
                Some(MppSender { channel: self_loop, header: blank_header(this_proc) })
            } else {
                outbound(this_proc, total_procs, peer_senders@, proc)
            }),
        peer_senders@.len() == total_procs - 1 ==> forall|proc: int|
            0 <= proc < total_procs ==> (#[trigger] result@[proc]) is Some,
{
    let mut senders = build_outbound_senders(this_proc, total_procs, peer_senders);
    let header = MppFrameHeader { stage_id: 0, partition: 0, sender_proc: this_proc };
    senders.set(this_proc as usize, Some(MppSender { channel: self_loop, header }));
    senders
}

/// Checks that a receiver can be woken, which the token that stands for no receiver would
/// silently prevent. `step` names the step that wants the receiver.
pub fn check_receiver_token(step: &str, receiver_token: u64) -> (result: Result<
    (),
    DistributedError,
>)
    ensures
        match result {
            Ok(_) => receiver_token != NO_RECEIVER_TOKEN,
            Err(error) => receiver_token == NO_RECEIVER_TOKEN && error@
                == ErrorKind::NoReceiverToken.about(step@),
        },
{
    if receiver_token == NO_RECEIVER_TOKEN {
        return Err(DistributedError::about(ErrorKind::NoReceiverToken, step.to_owned()));
    }
    Ok(())
}

/// Joins the leader to the others, once it has been given what it receives rows through and the
/// ways to its peers. The leader only consumes, so it keeps none of these.
pub fn leader_setup<M, S>(mesh: M, peer_senders: Vec<S>, receiver_token: u64) -> (result: Result<
    M,
    DistributedError,
>)
    ensures
        match result {
            Ok(own) => receiver_token != NO_RECEIVER_TOKEN && own == mesh,
            Err(error) => receiver_token == NO_RECEIVER_TOKEN && error@
                == ErrorKind::NoReceiverToken.about("leader_setup"@),
        },
{
    check_receiver_token("leader_setup", receiver_token)?;
    Ok(mesh)
}

/// A process that has a way to each of its peers reaches every process: each of the others over
/// the way to that process, and itself over one that does not leave it.
pub proof fn every_process_is_reached<S>(
    this_proc: u32,
    total_procs: u32,
    peers: Seq<S>,
    self_loop: S,
    senders: Seq<Option<MppSender<S>>>,
)
    requires
        this_proc < total_procs,
        peers.len() == total_procs - 1,
        senders.len() == total_procs,
        forall|proc: int|
            0 <= proc < total_procs ==> #[trigger] senders[proc] == (if proc == this_proc {
                Some(MppSender { channel: self_loop, header: blank_header(this_proc) })
            } else {
                outbound(this_proc, total_procs, peers, proc)
            }),
    ensures
        forall|proc: int| 0 <= proc < total_procs ==> (#[trigger] senders[proc]) is Some,
        senders[this_proc as int]->Some_0.channel == self_loop,
        forall|index: int|
            0 <= index < peers.len() ==> senders[peer_proc(this_proc, index)]->Some_0.channel
                == #[trigger] peers[index],
{
    assert forall|index: int| 0 <= index < peers.len() implies senders[peer_proc(
        this_proc,
        index,
    )]->Some_0.channel == #[trigger] peers[index] by {
        let proc = peer_proc(this_proc, index);
        assert(senders[proc] == outbound(this_proc, total_procs, peers, proc));
    }
}

/// Joins a worker to the others, once it has been given what it receives rows through and the
/// plan that the leader left for it.
pub fn worker_setup<M, S>(
    mesh: M,
    plan_bytes: Vec<u8>,
    this_proc: u32,
    total_procs: u32,
    peer_senders: Vec<S>,
    self_loop: S,
    receiver_token: u64,
) -> (result: Result<WorkerAttach<M, S>, DistributedError>)
    requires
        this_proc < total_procs,
        peer_senders@.len() < total_procs,
    ensures
        match result {
            Ok(attach) => {
                &&& receiver_token != NO_RECEIVER_TOKEN
                &&& attach.mesh == mesh
                &&& attach.plan_bytes == plan_bytes
                &&& attach.outbound_senders@.len() == total_procs
                &&& forall|proc: int|
                    0 <= proc < total_procs ==> #[trigger] attach.outbound_senders@[proc] == (
                    if proc == this_proc {
                        Some(MppSender { channel: self_loop, header: blank_header(this_proc) })
                    } else {
                        outbound(this_proc, total_procs, peer_senders@, proc)
                    })
                &&& peer_senders@.len() == total_procs - 1 ==> {
                    &&& forall|proc: int|
                        0 <= proc < total_procs ==> (
                        #[trigger] attach.outbound_senders@[proc]) is Some
                    &&& attach.outbound_senders@[this_proc as int]->Some_0.channel == self_loop
                    &&& forall|index: int|
                        0 <= index < peer_senders@.len() ==> attach.outbound_senders@[peer_proc(
                            this_proc,
                            index,
                        )]->Some_0.channel == #[trigger] peer_senders@[index]
                }
            },
            Err(error) => receiver_token == NO_RECEIVER_TOKEN && error@
                == ErrorKind::NoReceiverToken.about("worker_setup"@),
        },
{
    check_receiver_token("worker_setup", receiver_token)?;
    let ghost peers = peer_senders@;
    let outbound_senders = worker_senders(this_proc, total_procs, peer_senders, self_loop);
    proof {
        if peers.len() == total_procs - 1 {
            every_process_is_reached(
                this_proc,
                total_procs,
                peers,
                self_loop,
                outbound_senders@,
            );
        }
    }
    Ok(WorkerAttach { mesh, outbound_senders, plan_bytes })
}

/// How a partition of a task ended: how its rows ended, and how telling the receiver ended.
#[derive(Debug)]
pub struct PartitionOutcome {
    pub stream: Result<(), DistributedError>,
    pub finish: Result<(), DistributedError>,
}

/// What is wrong with a partition, if anything is. Rows that failed come before a receiver that
/// could not be told.
pub open spec fn partition_error(outcome: PartitionOutcome) -> Option<DistributedErrorView> {
    match (outcome.stream, outcome.finish) {
        (Err(error), _) => Some(error@),
        (Ok(_), Err(error)) => Some(error@),
        (Ok(_), Ok(_)) => None,
    }
}

/// The first thing that is wrong with some partitions.
pub open spec fn first_error(outcomes: Seq<PartitionOutcome>) -> Option<DistributedErrorView>
    decreases outcomes.len(),
{
    if outcomes.len() == 0 {
        None
    } else {
        match first_error(outcomes.drop_last()) {
            Some(error) => Some(error),
            None => partition_error(outcomes.last()),
        }
    }
}

/// Checks that every partition of a plan has a place to be sent to.
pub fn check_sinks(plan: &Plan, sinks: usize) -> (result: Result<(), DistributedError>)
    ensures
        match result {
            Ok(_) => plan@.partition_count() == sinks,
            Err(error) => plan@.partition_count() != sinks && error@ == (
            if plan@.partition_count() > usize::MAX {
                ErrorKind::PartitionCountOverflow.plain()
            } else {
                (ErrorKind::SinkMismatch {
                    partitions: plan@.partition_count() as usize,
                    sinks,
                }).plain()
            }),
        },
{
    let partitions: usize = plan.partition_count()?;
    if partitions != sinks {
        return Err(DistributedError::new(ErrorKind::SinkMismatch { partitions, sinks }));
    }
    Ok(())
}

/// How a task ended whose partitions have all come to an end: with the error of the first partition
/// that has one.
pub fn fragment_outcome(outcomes: Vec<PartitionOutcome>) -> (result: Result<(), DistributedError>)
    ensures
        match result {
            Ok(_) => first_error(outcomes@) is None,
            Err(error) => first_error(outcomes@) == Some(error@),
        },
{
    let ghost all = outcomes@;
    let mut rest = outcomes;
    let ghost mut done: int = 0;
    proof {
        assert(all.take(0) =~= Seq::empty());
        assert(all.skip(0) =~= all);
    }
    while rest.len() > 0
        invariant
            all == outcomes@,
            0 <= done <= all.len(),
            rest@ == all.skip(done),
            first_error(all.take(done)) is None,
        decreases rest@.len(),
    {
        let outcome = rest.remove(0);
        proof {
            assert(outcome == all[done]);
            assert(all.take(done + 1).drop_last() =~= all.take(done));
            if partition_error(outcome) is Some {
                first_error_is_final(all, done + 1);
            }
            assert(rest@ =~= all.skip(done + 1));
            done = done + 1;
        }
        outcome.stream?;
        outcome.finish?;
    }
    proof {
        assert(all.take(done) =~= all);
    }
    Ok(())
}

proof fn first_error_is_final(outcomes: Seq<PartitionOutcome>, upto: int)
    requires
        0 <= upto <= outcomes.len(),
        first_error(outcomes.take(upto)) is Some,
    ensures
        first_error(outcomes) == first_error(outcomes.take(upto)),
    decreases outcomes.len() - upto,
{
    if upto == outcomes.len() {
        assert(outcomes.take(upto) =~= outcomes);
    } else {
        assert(outcomes.take(upto + 1).drop_last() =~= outcomes.take(upto));
        first_error_is_final(outcomes, upto + 1);
    }
}

/// Where the partitions that a task produces go.
#[derive(Debug)]
#[allow(inconsistent_fields)]
pub enum FragmentRouting {
    /// All of them go to one process.
    Coalesce { dest_proc: u32 },
    /// Each of them goes to the process of the task that reads it. Where all tasks read the same
    /// rows, only the first task of the stage produces them.
    Hashed { consumer_task: Vec<u32>, broadcast: bool },
}

/// The mathematical view of a [`FragmentRouting`].
#[verifier::ext_equal]
#[allow(inconsistent_fields)]
pub enum FragmentRoutingView {
    Coalesce { dest_proc: u32 },
    Hashed { consumer_task: Seq<u32>, broadcast: bool },
}

impl View for FragmentRouting {
    type V = FragmentRoutingView;

    open spec fn view(&self) -> FragmentRoutingView {
        match self {
            FragmentRouting::Coalesce { dest_proc } => FragmentRoutingView::Coalesce {
                dest_proc: *dest_proc,
            },
            FragmentRouting::Hashed { consumer_task, broadcast } => FragmentRoutingView::Hashed {
                consumer_task: consumer_task@,
                broadcast: *broadcast,
            },
        }
    }
}

/// A stage whose tasks the workers share.
#[derive(Debug)]
pub struct StageEntry {
    pub stage_num: u32,
    pub task_count: usize,
    pub routing: Arc<FragmentRouting>,
    pub plan: Arc<Plan>,
}

/// The mathematical view of a [`StageEntry`].
#[verifier::ext_equal]
pub struct StageEntryView {
    pub stage_num: u32,
    pub task_count: usize,
    pub routing: FragmentRoutingView,
    pub plan: PlanView,
}

impl View for StageEntry {
    type V = StageEntryView;

    open spec fn view(&self) -> StageEntryView {
        StageEntryView {
            stage_num: self.stage_num,
            task_count: self.task_count,
            routing: self.routing@,
            plan: self.plan@,
        }
    }
}

/// The stages of a list.
pub open spec fn entry_views(entries: Seq<StageEntry>) -> Seq<StageEntryView> {
    entries.map_values(|entry: StageEntry| entry@)
}

impl OperatorView {
    /// The tasks that read the first partitions of the stage below the network boundary.
    pub open spec fn consumer_tasks(self, upto: nat) -> Result<Seq<u32>, DistributedErrorView>
        decreases upto,
    {
        if upto == 0 {
            Ok(Seq::empty())
        } else {
            match self.consumer_tasks((upto - 1) as nat) {
                Err(error) => Err(error),
                Ok(tasks) => match self.route((upto - 1) as usize) {
                    Err(error) => Err(error),
                    Ok(route) => Ok(tasks.push(route.consumer_task as u32)),
                },
            }
        }
    }
}

proof fn unrouted_is_final(op: OperatorView, upto: nat, len: nat)
    requires
        upto <= len,
        op.consumer_tasks(upto) is Err,
    ensures
        op.consumer_tasks(len) == op.consumer_tasks(upto),
    decreases len - upto,
{
    if upto < len {
        unrouted_is_final(op, upto + 1, len);
    }
}

impl PlanView {
    /// Where the partitions of the stage below a network boundary go. What a whole query gathers
    /// goes to the leader, what a stage gathers goes to its first task.
    pub open spec fn routing(self, n_workers: u32, nested: bool) -> Result<
        FragmentRoutingView,
        DistributedErrorView,
    > {
        if self.op is NetworkCoalesce {
            Ok(
                FragmentRoutingView::Coalesce {
                    dest_proc: if nested {
                        crate::embedded::task_proc(n_workers, 0)
                    } else {
                        0
                    },
                },
            )
        } else if !nested {
            Err(ErrorKind::TopLevelExchange.about(self.op.name()))
        } else {
            let partitions = if self.tops_local_stage() {
                self.children[0].partition_count()
            } else {
                0
            };
            if partitions > usize::MAX {
                Err(ErrorKind::PartitionCountOverflow.plain())
            } else {
                match self.op.consumer_tasks(partitions) {
                    Err(error) => Err(error),
                    Ok(consumer_task) => Ok(
                        FragmentRoutingView::Hashed {
                            consumer_task,
                            broadcast: self.op is NetworkBroadcast,
                        },
                    ),
                }
            }
        }
    }

    /// The stages of a plan whose tasks the workers share, each before those below it.
    pub open spec fn dispatched_stages(self, n_workers: u32, nested: bool) -> Result<
        Seq<StageEntryView>,
        DistributedErrorView,
    >
        decreases self, 0nat,
    {
        if self.op.is_network_boundary() {
            match self.routing(n_workers, nested) {
                Err(error) => Err(error),
                Ok(routing) => if self.tops_local_stage() {
                    match self.children[0].dispatched_stages(n_workers, true) {
                        Err(error) => Err(error),
                        Ok(below) => Ok(
                            seq![
                                StageEntryView {
                                    stage_num: self.op.input_stage().num() as u32,
                                    task_count: self.op.input_stage().task_count() as usize,
                                    routing,
                                    plan: self.children[0],
                                },
                            ] + below,
                        ),
                    }
                } else {
                    Ok(Seq::empty())
                },
            }
        } else {
            crate::embedded::dispatched_stages_of_all(self.children, n_workers, nested)
        }
    }
}

/// The stages of several plans whose tasks the workers share.
pub open spec fn dispatched_stages_of_all(
    plans: Seq<PlanView>,
    n_workers: u32,
    nested: bool,
) -> Result<Seq<StageEntryView>, DistributedErrorView>
    decreases plans, 1nat,
{
    if plans.len() == 0 {
        Ok(Seq::empty())
    } else {
        match dispatched_stages_of_all(plans.drop_last(), n_workers, nested) {
            Err(error) => Err(error),
            Ok(before) => match plans.last().dispatched_stages(n_workers, nested) {
                Err(error) => Err(error),
                Ok(stages) => Ok(before + stages),
            },
        }
    }
}

proof fn failed_stages_are_final(plans: Seq<PlanView>, n_workers: u32, nested: bool, upto: int)
    requires
        0 <= upto <= plans.len(),
        dispatched_stages_of_all(plans.take(upto), n_workers, nested) is Err,
    ensures
        dispatched_stages_of_all(plans, n_workers, nested) == dispatched_stages_of_all(
            plans.take(upto),
            n_workers,
            nested,
        ),
    decreases plans.len() - upto,
{
    if upto == plans.len() {
        assert(plans.take(upto) =~= plans);
    } else {
        assert(plans.take(upto + 1).drop_last() =~= plans.take(upto));
        failed_stages_are_final(plans, n_workers, nested, upto + 1);
    }
}

fn route_consumer_tasks(op: &Operator, partitions: usize) -> (result: Result<
    Vec<u32>,
    DistributedError,
>)
    requires
        op@.is_network_boundary(),
    ensures
        match result {
            Ok(tasks) => op@.consumer_tasks(partitions as nat) == Ok::<_, DistributedErrorView>(
                tasks@,
            ),
            Err(error) => op@.consumer_tasks(partitions as nat) == Err::<Seq<u32>, _>(error@),
        },
{
    let mut tasks: Vec<u32> = Vec::new();
    let mut partition: usize = 0;
    while partition < partitions
        invariant
            0 <= partition <= partitions,
            op@.is_network_boundary(),
            op@.consumer_tasks(partition as nat) == Ok::<_, DistributedErrorView>(tasks@),
        decreases partitions - partition,
    {
        let route = op.route_partition(partition);
        proof {
            if route is Err {
                assert(op@.consumer_tasks((partition + 1) as nat) is Err);
                unrouted_is_final(op@, (partition + 1) as nat, partitions as nat);
            }
        }
        tasks.push(route?.consumer_task as u32);
        partition += 1;
    }
    Ok(tasks)
}

fn route_fragment(plan: &Plan, n_workers: u32, nested: bool) -> (result: Result<
    FragmentRouting,
    DistributedError,
>)
    requires
        n_workers > 0,
        plan@.op.is_network_boundary(),
    ensures
        crate::error::viewed(result) == plan@.routing(n_workers, nested),
{
    let broadcast: bool = match &*plan.op {
        Operator::NetworkCoalesce { .. } => {
            let dest_proc: u32 = if nested {
                proc_for_task(n_workers, 0)
            } else {
                0
            };
            return Ok(FragmentRouting::Coalesce { dest_proc });
        },
        Operator::NetworkBroadcast { .. } => true,
        _ => false,
    };
    if !nested {
        return Err(DistributedError::about(ErrorKind::TopLevelExchange, plan.op.name()));
    }
    let partitions: usize = match plan.op.as_network_boundary() {
        Some(Stage::Local { .. }) if plan.children.len() > 0 => {
            proof {
                assert(plan@.children[0] == plan.children@[0]@);
            }
            plan.children[0].partition_count()?
        },
        _ => 0,
    };
    let consumer_task = route_consumer_tasks(&plan.op, partitions)?;
    Ok(FragmentRouting::Hashed { consumer_task, broadcast })
}

fn collect_stages(plan: &Plan, n_workers: u32, nested: bool, entries: &mut Vec<StageEntry>) -> (
    result: Result<(), DistributedError>)
    requires
        n_workers > 0,
    ensures
        match plan@.dispatched_stages(n_workers, nested) {
            Ok(stages) => result is Ok && entry_views(final(entries)@) == entry_views(old(entries)@)
                + stages,
            Err(error) => result matches Err(failed) && failed@ == error,
        },
    decreases plan,
{
    let ghost start = entry_views(entries@);
    if let Some(stage) = plan.op.as_network_boundary() {
        let routing = route_fragment(plan, n_workers, nested)?;
        if let Stage::Local { num, tasks, .. } = stage {
            if plan.children.len() > 0 {
                proof {
                    assert(plan@.children[0] == plan.children@[0]@);
                    assert(plan@.tops_local_stage());
                }
                let entry = StageEntry {
                    stage_num: *num as u32,
                    task_count: *tasks,
                    routing: Arc::new(routing),
                    plan: Arc::clone(&plan.children[0]),
                };
                let ghost own = entry@;
                entries.push(entry);
                proof {
                    assert(entry_views(entries@) =~= start + seq![own]);
                }
                collect_stages(&plan.children[0], n_workers, true, entries)?;
                proof {
                    let below = plan@.children[0].dispatched_stages(n_workers, true)->Ok_0;
                    assert(start + seq![own] + below =~= start + (seq![own] + below));
                }
                return Ok(());
            }
        }
        proof {
            assert(start + Seq::<StageEntryView>::empty() =~= start);
        }
        return Ok(());
    }
    let ghost all = plan@.children;
    let ghost mut found = Seq::<StageEntryView>::empty();
    proof {
        assert(all.take(0) =~= Seq::empty());
        assert(start + found =~= start);
    }
    let mut i: usize = 0;
    while i < plan.children.len()
        invariant
            0 <= i <= plan.children@.len(),
            n_workers > 0,
            !plan@.op.is_network_boundary(),
            all == plan@.children,
            all.len() == plan.children@.len(),
            dispatched_stages_of_all(all.take(i as int), n_workers, nested) == Ok::<
                _,
                DistributedErrorView,
            >(found),
            entry_views(entries@) =~= start + found,
            start == entry_views(old(entries)@),
        decreases plan.children@.len() - i,
    {
        proof {
            assert(all.take(i + 1).drop_last() =~= all.take(i as int));
            assert(all[i as int] == plan.children@[i as int]@);
        }
        let collected = collect_stages(&plan.children[i], n_workers, nested, entries);
        proof {
            if collected is Err {
                failed_stages_are_final(all, n_workers, nested, i + 1);
            } else {
                let stages = all[i as int].dispatched_stages(n_workers, nested)->Ok_0;
                assert(start + found + stages =~= start + (found + stages));
                found = found + stages;
            }
        }
        collected?;
        i += 1;
    }
    proof {
        assert(all.take(i as int) =~= all);
    }
    Ok(())
}

/// The stages of a plan whose tasks the workers share, each before those below it.
pub fn collect_dispatched_stages(root: &Plan, n_workers: u32) -> (result: Result<
    Vec<StageEntry>,
    DistributedError,
>)
    requires
        n_workers > 0,
    ensures
        match root@.dispatched_stages(n_workers, false) {
            Ok(stages) => result matches Ok(entries) && entry_views(entries@) == stages,
            Err(error) => result matches Err(failed) && failed@ == error,
        },
{
    let mut entries: Vec<StageEntry> = Vec::new();
    collect_stages(root, n_workers, false, &mut entries)?;
    proof {
        let stages = root@.dispatched_stages(n_workers, false)->Ok_0;
        assert(entry_views(Seq::<StageEntry>::empty()) + stages =~= stages);
    }
    Ok(entries)
}

/// A task of a stage that a worker executes.
#[derive(Debug)]
pub struct FragmentAssignment {
    pub stage_id: u32,
    pub task_idx: usize,
    pub task_count: usize,
    pub plan: Arc<Plan>,
    pub routing: Arc<FragmentRouting>,
}

/// The mathematical view of a [`FragmentAssignment`].
#[verifier::ext_equal]
pub struct FragmentAssignmentView {
    pub stage_id: u32,
    pub task_idx: usize,
    pub task_count: usize,
    pub plan: PlanView,
    pub routing: FragmentRoutingView,
}

impl View for FragmentAssignment {
    type V = FragmentAssignmentView;

    open spec fn view(&self) -> FragmentAssignmentView {
        FragmentAssignmentView {
            stage_id: self.stage_id,
            task_idx: self.task_idx,
            task_count: self.task_count,
            plan: self.plan@,
            routing: self.routing@,
        }
    }
}

/// The tasks of a list.
pub open spec fn assignment_views(assignments: Seq<FragmentAssignment>) -> Seq<
    FragmentAssignmentView,
> {
    assignments.map_values(|assignment: FragmentAssignment| assignment@)
}

impl StageEntryView {
    /// The task of the stage with this index.
    pub open spec fn task(self, task_idx: usize) -> FragmentAssignmentView {
        FragmentAssignmentView {
            stage_id: self.stage_num,
            task_idx,
            task_count: self.task_count,
            plan: self.plan,
            routing: self.routing,
        }
    }

    /// Whether a process executes the task of the stage with this index. Only the first task of a
    /// stage whose rows all tasks read is executed, the others would produce the same rows again.
    pub open spec fn runs_in(self, task_idx: usize, proc: u32, n_workers: u32) -> bool {
        &&& crate::embedded::task_proc(n_workers, task_idx as u32) == proc
        &&& task_idx != 0 ==> !(self.routing matches FragmentRoutingView::Hashed {
            broadcast: true,
            ..
        })
    }

    /// The first tasks of the stage that a process executes.
    pub open spec fn tasks_in(self, upto: nat, proc: u32, n_workers: u32) -> Seq<
        FragmentAssignmentView,
    >
        decreases upto,
    {
        if upto == 0 {
            Seq::empty()
        } else {
            let before = self.tasks_in((upto - 1) as nat, proc, n_workers);
            let task_idx = (upto - 1) as usize;
            if self.runs_in(task_idx, proc, n_workers) {
                before.push(self.task(task_idx))
            } else {
                before
            }
        }
    }
}

/// The tasks of some stages that a process executes.
pub open spec fn tasks_of_proc(entries: Seq<StageEntryView>, proc: u32, n_workers: u32) -> Seq<
    FragmentAssignmentView,
>
    decreases entries.len(),
{
    if entries.len() == 0 {
        Seq::empty()
    } else {
        tasks_of_proc(entries.drop_last(), proc, n_workers) + entries.last().tasks_in(
            entries.last().task_count as nat,
            proc,
            n_workers,
        )
    }
}

/// The tasks of some stages that a process executes.
pub fn fragments_for_proc(entries: &Vec<StageEntry>, this_proc: u32, n_workers: u32) -> (result: Vec<
    FragmentAssignment,
>)
    requires
        n_workers > 0,
    ensures
        assignment_views(result@) == tasks_of_proc(entry_views(entries@), this_proc, n_workers),
{
    let ghost all = entry_views(entries@);
    let mut result: Vec<FragmentAssignment> = Vec::new();
    proof {
        assert(all.take(0) =~= Seq::empty());
        assert(assignment_views(result@) =~= Seq::empty());
    }
    let mut i: usize = 0;
    while i < entries.len()
        invariant
            0 <= i <= entries@.len(),
            n_workers > 0,
            all == entry_views(entries@),
            assignment_views(result@) =~= tasks_of_proc(all.take(i as int), this_proc, n_workers),
        decreases entries@.len() - i,
    {
        let entry = &entries[i];
        let ghost before = assignment_views(result@);
        proof {
            assert(all.take(i + 1).drop_last() =~= all.take(i as int));
            assert(all[i as int] == entry@);
        }
        let is_broadcast: bool = match &*entry.routing {
            FragmentRouting::Hashed { broadcast, .. } => *broadcast,
            _ => false,
        };
        let mut task_idx: usize = 0;
        while task_idx < entry.task_count
            invariant
                0 <= task_idx <= entry.task_count,
                n_workers > 0,
                is_broadcast == (entry@.routing matches FragmentRoutingView::Hashed {
                    broadcast: true,
                    ..
                }),
                assignment_views(result@) =~= before + entry@.tasks_in(
                    task_idx as nat,
                    this_proc,
                    n_workers,
                ),
            decreases entry.task_count - task_idx,
        {
            if proc_for_task(n_workers, task_idx as u32) == this_proc && !(is_broadcast && task_idx
                != 0) {
                let ghost earlier = assignment_views(result@);
                result.push(
                    FragmentAssignment {
                        stage_id: entry.stage_num,
                        task_idx,
                        task_count: entry.task_count,
                        plan: Arc::clone(&entry.plan),
                        routing: Arc::clone(&entry.routing),
                    },
                );
                proof {
                    assert(result@.last()@ =~= entry@.task(task_idx));
                    assert(assignment_views(result@) =~= earlier.push(entry@.task(task_idx)));
                }
            }
            task_idx += 1;
        }
        i += 1;
    }
    proof {
        assert(all.take(i as int) =~= all);
    }
    result
}

/// The process that a partition of a task goes to.
pub fn destination(routing: &FragmentRouting, partition: usize, n_workers: u32) -> (result: u32)
    requires
        n_workers > 0,
        routing@ matches FragmentRoutingView::Hashed { consumer_task, .. } ==> partition
            < consumer_task.len(),
    ensures
        result == match routing@ {
            FragmentRoutingView::Coalesce { dest_proc } => dest_proc,
            FragmentRoutingView::Hashed { consumer_task, .. } => task_proc(
                n_workers,
                consumer_task[partition as int],
            ),
        },
{
    match routing {
        FragmentRouting::Coalesce { dest_proc } => *dest_proc,
        FragmentRouting::Hashed { consumer_task, .. } => proc_for_task(
            n_workers,
            consumer_task[partition],
        ),
    }
}

proof fn tasks_are_dealt_out(entry: StageEntryView, upto: nat, proc: u32, n_workers: u32, task_idx: usize)
    requires
        upto <= usize::MAX + 1,
    ensures
        entry.tasks_in(upto, proc, n_workers).contains(entry.task(task_idx)) <==> task_idx < upto
            && entry.runs_in(task_idx, proc, n_workers),
    decreases upto,
{
    if upto > 0 {
        let before = entry.tasks_in((upto - 1) as nat, proc, n_workers);
        let all = entry.tasks_in(upto, proc, n_workers);
        let last = (upto - 1) as usize;
        tasks_are_dealt_out(entry, (upto - 1) as nat, proc, n_workers, task_idx);
        if entry.runs_in(last, proc, n_workers) {
            assert(all == before.push(entry.task(last)));
            if before.contains(entry.task(task_idx)) {
                let k = choose|k: int| 0 <= k < before.len() && before[k] == entry.task(task_idx);
                assert(all[k] == entry.task(task_idx));
            }
            if task_idx == last {
                assert(all[before.len() as int] == entry.task(task_idx));
            }
            if all.contains(entry.task(task_idx)) && task_idx != last {
                let k = choose|k: int| 0 <= k < all.len() && all[k] == entry.task(task_idx);
                assert(k < before.len()) by {
                    if k == before.len() {
                        assert(entry.task(last).task_idx == task_idx);
                    }
                }
                assert(before[k] == entry.task(task_idx));
            }
        }
    }
}

/// A task of a stage is executed by one worker and no other process, except for the tasks of a
/// stage whose rows all tasks read: of those only the first is executed.
pub proof fn every_task_has_one_worker(entry: StageEntryView, n_workers: u32, task_idx: usize)
    requires
        n_workers > 0,
        task_idx < entry.task_count,
    ensures
        forall|proc: u32| #[trigger]
            entry.tasks_in(entry.task_count as nat, proc, n_workers).contains(entry.task(task_idx))
                ==> proc == task_proc(n_workers, task_idx as u32),
        1 <= task_proc(n_workers, task_idx as u32) <= n_workers,
        entry.tasks_in(
            entry.task_count as nat,
            task_proc(n_workers, task_idx as u32),
            n_workers,
        ).contains(entry.task(task_idx)) <==> (task_idx == 0 || !(entry.routing
            matches FragmentRoutingView::Hashed { broadcast: true, .. })),
{
    assert forall|proc: u32| #[trigger]
        entry.tasks_in(entry.task_count as nat, proc, n_workers).contains(
            entry.task(task_idx),
        ) implies proc == task_proc(n_workers, task_idx as u32) by {
        tasks_are_dealt_out(entry, entry.task_count as nat, proc, n_workers, task_idx);
    }
    tasks_are_dealt_out(
        entry,
        entry.task_count as nat,
        task_proc(n_workers, task_idx as u32),
        n_workers,
        task_idx,
    );
}

} // verus!

//! What the coordinator of a query and the workers that execute its tasks tell each other.
use crate::distributed_ext::is_prefix;
use crate::error::{DistributedError, DistributedErrorView, ErrorKind};
use crate::ids::Uuid;
use crate::metrics_store::{MetricsStore, TaskKey, TaskMetrics};
use crate::plan::{DistributedTaskContext, Plan, PlanView};
use crate::plan_encoding::{task_specialized_plan, WorkUnitFeedDeclaration};
use crate::recursion::{TreeNodeExt, TreeNodeRecursion, Visitor};
use std::sync::Arc;
use vstd::prelude::*;

verus! {

/// A plan, or the bytes that it was encoded to.
#[derive(Debug)]
pub enum MaybeEncoded {
    Encoded(Vec<u8>),
    Decoded(Arc<Plan>),
}

/// The mathematical view of a [`MaybeEncoded`].
#[verifier::ext_equal]
pub enum MaybeEncodedView {
    Encoded(Seq<u8>),
    Decoded(PlanView),
}

impl View for MaybeEncoded {
    type V = MaybeEncodedView;

    open spec fn view(&self) -> MaybeEncodedView {
        match self {
            MaybeEncoded::Encoded(bytes) => MaybeEncodedView::Encoded(bytes@),
            MaybeEncoded::Decoded(plan) => MaybeEncodedView::Decoded(plan@),
        }
    }
}

/// What a worker needs to know to execute a task.
#[derive(Debug)]
pub struct SetPlanRequest {
    pub task_key: TaskKey,
    pub task_count: usize,
    pub plan: MaybeEncoded,
    pub work_unit_feed_declarations: Vec<WorkUnitFeedDeclaration>,
    pub target_worker_url: String,
    pub query_start_time_ns: usize,
}

/// The mathematical view of a [`SetPlanRequest`].
#[verifier::ext_equal]
pub struct SetPlanRequestView {
    pub task_key: TaskKey,
    pub task_count: usize,
    pub plan: MaybeEncodedView,
    pub work_unit_feed_declarations: Seq<WorkUnitFeedDeclaration>,
    pub target_worker_url: Seq<char>,
    pub query_start_time_ns: usize,
}

impl View for SetPlanRequest {
    type V = SetPlanRequestView;

    open spec fn view(&self) -> SetPlanRequestView {
        SetPlanRequestView {
            task_key: self.task_key,
            task_count: self.task_count,
            plan: self.plan@,
            work_unit_feed_declarations: self.work_unit_feed_declarations@,
            target_worker_url: self.target_worker_url@,
            query_start_time_ns: self.query_start_time_ns,
        }
    }
}

/// Encodes the plans of tasks in the place of the coordinator.
///
/// An embedder registers one where the codec of the coordinator cannot represent its nodes. The
/// plan that it is handed is ready to run: it is cut down to the task, and the stages below it
/// have left for their workers. `None` leaves the encoding to the coordinator.
pub trait DispatchPlanSource {
    fn dispatch_plan_proto(&self, task: &TaskKey, specialized: &Arc<Plan>) -> Option<
        Result<Vec<u8>, DistributedError>,
    >;
}

/// The partitions of a feed that are sent to a task.
#[derive(Clone, Copy, PartialEq, Eq, Debug)]
pub struct FeedRange {
    pub id: Uuid,
    /// The first partition.
    pub start: usize,
    /// The partition after the last one.
    pub end: usize,
    /// The number of tasks that the feed is spread over.
    pub fan_out_tasks: usize,
}

/// The partitions of a feed that the task is sent, where each task reads `partitions` of them.
pub open spec fn feed_range(id: Uuid, partitions: nat, ctx: DistributedTaskContext) -> Result<
    FeedRange,
    DistributedErrorView,
> {
    let start = partitions * ctx.task_index as nat;
    if partitions > usize::MAX || start + partitions > usize::MAX {
        Err(ErrorKind::PartitionCountOverflow.plain())
    } else {
        Ok(
            FeedRange {
                id,
                start: start as usize,
                end: (start + partitions) as usize,
                fan_out_tasks: ctx.task_count,
            },
        )
    }
}

/// The tasks of a stage are sent all partitions of a feed, and none of them twice.
pub proof fn feed_ranges_tile(id: Uuid, partitions: nat, tasks: usize, partition: nat)
    requires
        partition < partitions * tasks as nat,
        partitions * tasks as nat <= usize::MAX,
    ensures
        exists|task: usize|
            task < tasks && (#[trigger] feed_range(
                id,
                partitions,
                DistributedTaskContext { task_index: task, task_count: tasks },
            ) matches Ok(range) && range.start <= partition < range.end),
        forall|one: usize, other: usize|
            one < tasks && other < tasks && one != other ==> !((#[trigger] feed_range(
                id,
                partitions,
                DistributedTaskContext { task_index: one, task_count: tasks },
            ) matches Ok(range) && range.start <= partition < range.end) && (#[trigger] feed_range(
                id,
                partitions,
                DistributedTaskContext { task_index: other, task_count: tasks },
            ) matches Ok(range) && range.start <= partition < range.end)),
{
    let p = partitions as int;
    assert(p > 0) by (nonlinear_arith)
        requires
            partition < partitions * tasks as nat,
            p == partitions,
    ;
    let task = partition as int / p;
    vstd::arithmetic::div_mod::lemma_fundamental_div_mod(partition as int, p);
    assert(0 <= task < tasks && p * task + p <= p * tasks) by (nonlinear_arith)
        requires
            p > 0,
            partition as int == p * task + partition as int % p,
            0 <= partition as int % p < p,
            0 <= partition < p * tasks,
    ;
    let ctx = DistributedTaskContext { task_index: task as usize, task_count: tasks };
    assert(feed_range(id, partitions, ctx) matches Ok(range) && range.start <= partition
        < range.end);
    assert forall|one: usize, other: usize| one < tasks && other < tasks && one != other implies !((
    #[trigger] feed_range(
        id,
        partitions,
        DistributedTaskContext { task_index: one, task_count: tasks },
    ) matches Ok(range) && range.start <= partition < range.end) && (#[trigger] feed_range(
        id,
        partitions,
        DistributedTaskContext { task_index: other, task_count: tasks },
    ) matches Ok(range) && range.start <= partition < range.end)) by {
        assert(!(p * one <= partition < p * one + p && p * other <= partition < p * other + p))
            by (nonlinear_arith)
            requires
                p > 0,
                one != other,
        ;
    }
}

/// Gathers the partitions of the feeds that a task is sent.
pub struct FeedCollector {
    pub ranges: Vec<FeedRange>,
}

impl Visitor for FeedCollector {
    type State = Seq<FeedRange>;

    open spec fn state(&self) -> Seq<FeedRange> {
        self.ranges@
    }

    open spec fn visited(
        state: Seq<FeedRange>,
        node: PlanView,
        ctx: DistributedTaskContext,
    ) -> (Seq<FeedRange>, Result<TreeNodeRecursion, DistributedErrorView>) {
        match node.feed() {
            None => (state, Ok(TreeNodeRecursion::Continue)),
            Some(id) => match crate::query_coordinator::feed_range(
                id,
                node.partition_count(),
                ctx,
            ) {
                Ok(range) => (state.push(range), Ok(TreeNodeRecursion::Continue)),
                Err(error) => (state, Err(error)),
            },
        }
    }

    fn visit(&mut self, node: &Arc<Plan>, ctx: DistributedTaskContext) -> (result: Result<
        TreeNodeRecursion,
        DistributedError,
    >) {
        let id = match node.work_unit_feed() {
            Some(id) => id,
            None => {
                return Ok(TreeNodeRecursion::Continue);
            },
        };
        let partitions: usize = node.partition_count()?;
        let start: usize = match partitions.checked_mul(ctx.task_index) {
            Some(start) => start,
            None => {
                return Err(DistributedError::new(ErrorKind::PartitionCountOverflow));
            },
        };
        let end: usize = match start.checked_add(partitions) {
            Some(end) => end,
            None => {
                return Err(DistributedError::new(ErrorKind::PartitionCountOverflow));
            },
        };
        self.ranges.push(FeedRange { id, start, end, fan_out_tasks: ctx.task_count });
        Ok(TreeNodeRecursion::Continue)
    }
}

/// Whether a task goes to the worker that the coordinator runs in itself, if it runs in one. Such a
/// task needs no connection.
pub fn is_own_worker(own: Option<&str>, url: &str) -> (result: bool)
    ensures
        result == (own matches Some(own) && own@ == url@),
{
    match own {
        Some(own) => {
            let is_own: bool = own.unicode_len() == url.unicode_len() && is_prefix(own, url);
            proof {
                assert(own@.take(own@.len() as int) =~= own@);
            }
            is_own
        },
        None => false,
    }
}

/// What the coordinator holds of a stage whose tasks it sends out.
#[derive(Debug)]
pub struct StageCoordinator {
    pub plan: Arc<Plan>,
    pub query_id: Uuid,
    pub stage_id: usize,
    pub task_count: usize,
}

/// Whether workers were picked for all tasks of a stage, and only for those.
pub open spec fn routed<T>(
    urls: Seq<T>,
    task_count: usize,
) -> Result<Seq<T>, DistributedErrorView> {
    if urls.len() != task_count {
        Err((ErrorKind::RouteMismatch { tasks: task_count, urls: urls.len() as usize }).plain())
    } else {
        Ok(urls)
    }
}

/// The outcome of picking workers.
pub open spec fn route_outcome(result: Result<Vec<String>, DistributedError>) -> Result<
    Seq<String>,
    DistributedErrorView,
> {
    match result {
        Ok(urls) => Ok(urls@),
        Err(error) => Err(error@),
    }
}

impl StageCoordinator {
    pub open spec fn ctx(self, task_i: usize) -> DistributedTaskContext {
        DistributedTaskContext { task_index: task_i, task_count: self.task_count }
    }

    pub open spec fn key(self, task_i: usize) -> TaskKey {
        TaskKey { query_id: self.query_id, stage_id: self.stage_id, task_number: task_i }
    }

    /// The request for a task, given what the source of encoded plans answered.
    pub open spec fn request(
        self,
        task_i: usize,
        dispatched: Option<Result<Seq<u8>, DistributedErrorView>>,
        url: Seq<char>,
        query_start_time_ns: usize,
    ) -> Result<SetPlanRequestView, DistributedErrorView> {
        match crate::plan_encoding::task_plan(self.plan@, self.ctx(task_i)) {
            Err(error) => Err(error),
            Ok((specialized, declarations)) => {
                let plan = match dispatched {
                    Some(Err(error)) => Err(error),
                    Some(Ok(bytes)) => Ok(MaybeEncodedView::Encoded(bytes)),
                    None => Ok(MaybeEncodedView::Decoded(specialized)),
                };
                match plan {
                    Err(error) => Err(error),
                    Ok(plan) => Ok(
                        SetPlanRequestView {
                            task_key: self.key(task_i),
                            task_count: self.task_count,
                            plan,
                            work_unit_feed_declarations: declarations,
                            target_worker_url: url,
                            query_start_time_ns,
                        },
                    ),
                }
            },
        }
    }

    /// Whether the source of encoded plans can have answered like that for a task of the stage. It
    /// is told which task, and handed the plan that the task would be sent otherwise. Where there
    /// is no source, nothing is answered.
    pub open spec fn can_answer<S: DispatchPlanSource>(
        self,
        task_i: usize,
        source: Option<&S>,
        dispatched: Option<Result<Vec<u8>, DistributedError>>,
    ) -> bool {
        match source {
            Some(source) => crate::plan_encoding::task_plan(
                self.plan@,
                self.ctx(task_i),
            ) matches Ok(specialized) ==> exists|plan: Arc<Plan>|
                plan@ == specialized.0 && #[trigger] call_ensures(
                    S::dispatch_plan_proto,
                    (source, &self.key(task_i), &plan),
                    dispatched,
                ),
            None => dispatched is None,
        }
    }

    /// Whether sending a task can come to this: the request that follows from what the source of
    /// encoded plans answered.
    pub open spec fn can_send<S: DispatchPlanSource>(
        self,
        task_i: usize,
        url: Seq<char>,
        source: Option<&S>,
        query_start_time_ns: usize,
        outcome: Result<SetPlanRequestView, DistributedErrorView>,
    ) -> bool {
        exists|dispatched: Option<Result<Vec<u8>, DistributedError>>|
            #[trigger] self.can_answer(task_i, source, dispatched) && outcome == self.request(
                task_i,
                dispatched_view(dispatched),
                url,
                query_start_time_ns,
            )
    }

    /// The name of a task.
    pub fn task_key(&self, task_i: usize) -> (result: TaskKey)
        ensures
            result == self.key(task_i),
    {
        TaskKey { query_id: self.query_id, stage_id: self.stage_id, task_number: task_i }
    }

    /// What a task executes, with the feeds that it reads from.
    pub fn task_specialized_plan(&self, task_i: usize) -> (result: Result<
        (Arc<Plan>, Vec<WorkUnitFeedDeclaration>),
        DistributedError,
    >)
        requires
            self.plan@.accepts(self.ctx(task_i)),
        ensures
            match result {
                Ok(specialized) => crate::plan_encoding::task_plan(self.plan@, self.ctx(task_i))
                    == Ok::<_, DistributedErrorView>((specialized.0@, specialized.1@)),
                Err(error) => crate::plan_encoding::task_plan(self.plan@, self.ctx(task_i))
                    == Err::<(PlanView, Seq<WorkUnitFeedDeclaration>), _>(error@),
            },
    {
        task_specialized_plan(&self.plan, task_i, self.task_count)
    }

    /// The request for a task whose plan was cut down, given what the source of encoded plans
    /// answered. Its bytes go out in the place of the plan, and its failure fails the request.
    pub fn set_plan_request(
        &self,
        task_i: usize,
        specialized: (Arc<Plan>, Vec<WorkUnitFeedDeclaration>),
        dispatched: Option<Result<Vec<u8>, DistributedError>>,
        url: String,
        query_start_time_ns: usize,
    ) -> (result: Result<SetPlanRequest, DistributedError>)
        requires
            crate::plan_encoding::task_plan(self.plan@, self.ctx(task_i)) == Ok::<
                _,
                DistributedErrorView,
            >((specialized.0@, specialized.1@)),
        ensures
            crate::error::viewed(result) == self.request(
                task_i,
                dispatched_view(dispatched),
                url@,
                query_start_time_ns,
            ),
    {
        let (specialized, work_unit_feed_declarations) = specialized;
        let plan = match dispatched {
            Some(bytes) => MaybeEncoded::Encoded(bytes?),
            None => MaybeEncoded::Decoded(specialized),
        };
        Ok(
            SetPlanRequest {
                task_key: self.task_key(task_i),
                task_count: self.task_count,
                plan,
                work_unit_feed_declarations,
                target_worker_url: url,
                query_start_time_ns,
            },
        )
    }

    /// The request that sends a task to a worker. The source of encoded plans, where there is
    /// one, is handed the plan that the task would be sent otherwise. It is asked once, which the
    /// contract leaves open: it ties the request to an answer, not to how often there was one.
    pub fn send_plan_task<S: DispatchPlanSource>(
        &self,
        task_i: usize,
        url: String,
        source: Option<&S>,
        query_start_time_ns: usize,
    ) -> (result: Result<SetPlanRequest, DistributedError>)
        requires
            self.plan@.accepts(self.ctx(task_i)),
        ensures
            self.can_send(
                task_i,
                url@,
                source,
                query_start_time_ns,
                crate::error::viewed(result),
            ),
    {
        let specialized = match self.task_specialized_plan(task_i) {
            Ok(specialized) => specialized,
            Err(error) => {
                assert(self.can_answer(task_i, source, None));
                return Err(error);
            },
        };
        let dispatched = match source {
            Some(source) => source.dispatch_plan_proto(&self.task_key(task_i), &specialized.0),
            None => None,
        };
        assert(self.can_answer(task_i, source, dispatched));
        self.set_plan_request(task_i, specialized, dispatched, url, query_start_time_ns)
    }

    /// The requests that send the tasks of the stage to their workers, one worker after the other.
    /// The first task that cannot be sent ends it.
    pub fn send_plan_tasks<S: DispatchPlanSource>(
        &self,
        urls: &Vec<String>,
        source: Option<&S>,
        query_start_time_ns: usize,
    ) -> (result: Result<Vec<SetPlanRequest>, DistributedError>)
        requires
            forall|i: usize|
                i < urls@.len() ==> self.plan@.accepts(#[trigger] self.ctx(i)),
        ensures
            match result {
                Ok(requests) => requests@.len() == urls@.len() && forall|i: int|
                    0 <= i < urls@.len() ==> self.can_send(
                        i as usize,
                        urls@[i]@,
                        source,
                        query_start_time_ns,
                        Ok((#[trigger] requests@[i])@),
                    ),
                Err(error) => exists|sent: Seq<SetPlanRequestView>|
                    #![trigger sent.len()]
                    sent.len() < urls@.len() && (forall|i: int|
                        0 <= i < sent.len() ==> self.can_send(
                            i as usize,
                            urls@[i]@,
                            source,
                            query_start_time_ns,
                            Ok(#[trigger] sent[i]),
                        )) && self.can_send(
                        sent.len() as usize,
                        urls@[sent.len() as int]@,
                        source,
                        query_start_time_ns,
                        Err(error@),
                    ),
            },
    {
        let mut requests: Vec<SetPlanRequest> = Vec::new();
        let mut task_i: usize = 0;
        while task_i < urls.len()
            invariant
                0 <= task_i <= urls@.len(),
                requests@.len() == task_i,
                forall|i: usize| i < urls@.len() ==> self.plan@.accepts(#[trigger] self.ctx(i)),
                forall|i: int|
                    0 <= i < task_i ==> self.can_send(
                        i as usize,
                        urls@[i]@,
                        source,
                        query_start_time_ns,
                        Ok((#[trigger] requests@[i])@),
                    ),
            decreases urls@.len() - task_i,
        {
            match self.send_plan_task(task_i, urls[task_i].clone(), source, query_start_time_ns) {
                Ok(request) => requests.push(request),
                Err(error) => {
                    proof {
                        let sent = requests@.map_values(|request: SetPlanRequest| request@);
                        assert(sent.len() == task_i);
                    }
                    return Err(error);
                },
            }
            task_i += 1;
        }
        Ok(requests)
    }

    /// The partitions of the feeds of the stage that a task is sent.
    pub fn coordinator_to_worker_feeds(&self, task_i: usize) -> (result: Result<
        Vec<FeedRange>,
        DistributedError,
    >)
        requires
            self.plan@.has_task(self.ctx(task_i)),
        ensures
            ({
                let (ranges, outcome) = crate::recursion::applied::<FeedCollector>(
                    Seq::empty(),
                    self.plan@,
                    self.ctx(task_i),
                );
                match outcome {
                    Ok(_) => result matches Ok(fed) && fed@ == ranges,
                    Err(error) => result matches Err(failed) && failed@ == error,
                }
            }),
    {
        let mut collector = FeedCollector { ranges: Vec::new() };
        let ctx = DistributedTaskContext { task_index: task_i, task_count: self.task_count };
        self.plan.apply_with_dt_ctx(ctx, &mut collector)?;
        Ok(collector.ranges)
    }

    /// One worker for each task of the stage, as the handler picked them. `None` stands for no
    /// handler that could.
    pub fn routed_urls(&self, urls: Option<Result<Vec<String>, DistributedError>>) -> (result:
        Result<Vec<String>, DistributedError>)
        ensures
            route_outcome(result) == match urls {
                None => Err(ErrorKind::NoRoute.plain()),
                Some(Err(error)) => Err(error@),
                Some(Ok(urls)) => routed(urls@, self.task_count),
            },
    {
        let urls = match urls {
            Some(urls) => urls?,
            None => {
                return Err(DistributedError::new(ErrorKind::NoRoute));
            },
        };
        if urls.len() != self.task_count {
            return Err(
                DistributedError::new(
                    ErrorKind::RouteMismatch { tasks: self.task_count, urls: urls.len() },
                ),
            );
        }
        Ok(urls)
    }
}

/// What a source of encoded plans answered.
pub open spec fn dispatched_view(
    dispatched: Option<Result<Vec<u8>, DistributedError>>,
) -> Option<Result<Seq<u8>, DistributedErrorView>> {
    match dispatched {
        None => None,
        Some(Ok(bytes)) => Some(Ok(bytes@)),
        Some(Err(error)) => Some(Err(error@)),
    }
}

/// What a worker reports of the rows that a partition of a stage has ready and is about to have.
#[derive(Debug)]
pub struct LoadInfo {
    pub rows_ready: u64,
    pub rows_per_second: u64,
    pub per_column_bytes_ready: Vec<u64>,
    pub per_column_bytes_per_second: Vec<u64>,
}

/// What a worker tells the coordinator.
#[derive(Debug)]
pub enum WorkerToCoordinatorMsg {
    TaskMetrics(Arc<TaskMetrics>),
    LoadInfo(LoadInfo),
    /// No more load reports will come.
    LoadInfoEos,
}

/// The coordinator's side of the messages of one task.
#[derive(Debug)]
pub struct WorkerMessages {
    pub task_key: TaskKey,
    /// Where metrics are filed, if anyone wants them.
    pub metrics: Option<MetricsStore>,
    /// Whether load reports are still handed on.
    pub load_info_open: bool,
}

impl WorkerMessages {
    /// What the messages of a task are handled with when it starts.
    pub fn new(task_key: TaskKey, metrics: Option<MetricsStore>) -> (result: WorkerMessages)
        ensures
            result.task_key == task_key,
            result.metrics == metrics,
            result.load_info_open,
    {
        WorkerMessages { task_key, metrics, load_info_open: true }
    }

    /// Takes one message. Metrics are filed under the task, load reports are handed on until the
    /// worker says that there are no more.
    pub fn receive(&mut self, msg: WorkerToCoordinatorMsg) -> (result: Option<LoadInfo>)
        ensures
            final(self).task_key == old(self).task_key,
            match msg {
                WorkerToCoordinatorMsg::TaskMetrics(metrics) => {
                    &&& result is None
                    &&& final(self).load_info_open == old(self).load_info_open
                    &&& match old(self).metrics {
                        None => final(self).metrics is None,
                        Some(store) => final(self).metrics matches Some(after) && after@
                            == store@.insert(old(self).task_key, metrics),
                    }
                },
                WorkerToCoordinatorMsg::LoadInfo(load_info) => {
                    &&& *final(self) == *old(self)
                    &&& result == (if old(self).load_info_open {
                        Some(load_info)
                    } else {
                        None
                    })
                },
                WorkerToCoordinatorMsg::LoadInfoEos => {
                    &&& result is None
                    &&& final(self).metrics == old(self).metrics
                    &&& !final(self).load_info_open
                },
            },
    {
        match msg {
            WorkerToCoordinatorMsg::TaskMetrics(metrics) => {
                let key = self.task_key;
                if let Some(store) = &mut self.metrics {
                    store.insert(key, metrics);
                }
                None
            },
            WorkerToCoordinatorMsg::LoadInfo(load_info) => {
                if self.load_info_open {
                    Some(load_info)
                } else {
                    None
                }
            },
            WorkerToCoordinatorMsg::LoadInfoEos => {
                self.load_info_open = false;
                None
            },
        }
    }
}

} // verus!

//! The metrics that the tasks of a query report.
use crate::ids::Uuid;
use datafusion::common::HashMap;
use std::sync::Arc;
use vstd::prelude::*;

verus! {

/// A task of a stage of a query.
#[derive(Clone, Copy, PartialEq, Eq, Debug)]
pub struct TaskKey {
    pub query_id: Uuid,
    pub stage_id: usize,
    pub task_number: usize,
}

impl TaskKey {
    /// The numbers that make up the key.
    pub open spec fn numbers(self) -> ([u8; 16], usize, usize) {
        (self.query_id.bytes, self.stage_id, self.task_number)
    }
}

/// The metrics of the nodes of a task, in pre-order and in their encoded form.
#[derive(Debug)]
pub struct TaskMetrics {
    pub pre_order_plan_metrics: Vec<Vec<u8>>,
}

/// A `datafusion::common::HashMap` from the numbers of tasks to their metrics.
#[verifier::external_body]
#[derive(Debug)]
pub struct MetricsMap {
    map: HashMap<([u8; 16], usize, usize), Arc<TaskMetrics>>,
}

/// The entries of a map from the numbers of tasks to their metrics.
pub uninterp spec fn filed(map: MetricsMap) -> Map<([u8; 16], usize, usize), Arc<TaskMetrics>>;

/// No entries.
pub open spec fn none_filed() -> Map<([u8; 16], usize, usize), Arc<TaskMetrics>> {
    Map::empty()
}

/// Calls `HashMap::new`, which makes a map without entries.
#[verifier::external_body]
fn metrics_new() -> (result: MetricsMap)
    ensures
        filed(result) == none_filed(),
{
    MetricsMap { map: HashMap::new() }
}

/// Calls `HashMap::insert`, which sets the value of the key and touches no other.
#[verifier::external_body]
fn metrics_insert(map: &mut MetricsMap, key: ([u8; 16], usize, usize), metrics: Arc<TaskMetrics>)
    ensures
        filed(*final(map)) == filed(*old(map)).insert(key, metrics),
{
    map.map.insert(key, metrics);
}

/// Calls `HashMap::get`, which finds the value of the key, if there is one, and shares it.
#[verifier::external_body]
fn metrics_get(map: &MetricsMap, key: ([u8; 16], usize, usize)) -> (result: Option<
    Arc<TaskMetrics>,
>)
    ensures
        result == (if filed(*map).contains_key(key) {
            Some(filed(*map)[key])
        } else {
            None
        }),
{
    map.map.get(&key).cloned()
}

/// Where the metrics of the tasks of a query are kept.
#[derive(Debug)]
pub struct MetricsStore {
    entries: MetricsMap,
}

impl View for MetricsStore {
    type V = Map<TaskKey, Arc<TaskMetrics>>;

    closed spec fn view(&self) -> Map<TaskKey, Arc<TaskMetrics>> {
        Map::new(
            |key: TaskKey| filed(self.entries).contains_key(key.numbers()),
            |key: TaskKey| filed(self.entries)[key.numbers()],
        )
    }
}

impl MetricsStore {
    pub fn new() -> (result: MetricsStore)
        ensures
            result@ == Map::<TaskKey, Arc<TaskMetrics>>::empty(),
    {
        MetricsStore { entries: metrics_new() }
    }

    /// Files the metrics of a task, in the place of those it reported before.
    pub fn insert(&mut self, key: TaskKey, metrics: Arc<TaskMetrics>)
        ensures
            final(self)@ == old(self)@.insert(key, metrics),
    {
        metrics_insert(
            &mut self.entries,
            (key.query_id.bytes, key.stage_id, key.task_number),
            metrics,
        );
        proof {
            assert forall|other: TaskKey| other.numbers() == key.numbers() implies other == key by {
                assert(other.query_id == key.query_id);
            }
        }
    }

    /// The metrics that a task reported, if it has.
    pub fn get(&self, key: &TaskKey) -> (result: Option<Arc<TaskMetrics>>)
        ensures
            result == (if self@.contains_key(*key) {
                Some(self@[*key])
            } else {
                None
            }),
    {
        metrics_get(&self.entries, (key.query_id.bytes, key.stage_id, key.task_number))
    }

    /// Whether all of the tasks have reported.
    pub fn has_all(&self, keys: &Vec<TaskKey>) -> (result: bool)
        ensures
            result == forall|i: int| 0 <= i < keys@.len() ==> self@.contains_key(#[trigger] keys@[i]),
    {
        let mut i: usize = 0;
        while i < keys.len()
            invariant
                0 <= i <= keys@.len(),
                forall|j: int| 0 <= j < i ==> self@.contains_key(#[trigger] keys@[j]),
            decreases keys@.len() - i,
        {
            if self.get(&keys[i]).is_none() {
                assert(!self@.contains_key(keys@[i as int]));
                return false;
            }
            i += 1;
        }
        true
    }
}

} // verus!

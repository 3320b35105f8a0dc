//! Finds the dynamic filters of a plan. A producer and the consumers of its filter may end up in
//! different stages. Then the network boundaries between them carry the filter as an anchor, which
//! is no expression that they evaluate.
use crate::distributed_config::{DistributedConfig, SessionConfig};
use crate::error::{DistributedError, DistributedErrorView, ErrorKind};
use crate::plan::{DynamicFilter, Expr, Facts, Plan, PlanView, ProducedExpression, Schema};
use crate::recursion::pre_order;
use std::sync::Arc;
use vstd::prelude::*;

verus! {

/// A dynamic filter that occurs in a plan.
#[derive(Debug)]
pub struct DiscoveredDynamicFilter {
    pub id: u64,
    pub expression: Arc<Expr>,
    /// The columns that a consumer evaluates the filter against, where they are known.
    pub input_schema: Option<Arc<Schema>>,
}

impl PlanView {
    pub open spec fn schema(self) -> Option<Arc<Schema>> {
        match self.properties() {
            Some(properties) => Some(properties.schema),
            None => None,
        }
    }

    /// The columns that the expressions of the node are evaluated against: those of its first
    /// input, or its own if it has no input.
    pub open spec fn input_schema(self) -> Option<Arc<Schema>> {
        if self.children.len() > 0 {
            self.children[0].schema()
        } else {
            self.schema()
        }
    }

    /// The dynamic expressions that the node produces.
    pub open spec fn produced(self) -> Seq<ProducedExpression> {
        match self.facts {
            Some(facts) => facts.produced@,
            None => Seq::empty(),
        }
    }

    /// The dynamic filters in the expressions of the node.
    pub open spec fn filters(self) -> Seq<DynamicFilter> {
        match self.facts {
            Some(facts) => facts.filters@,
            None => Seq::empty(),
        }
    }

    pub open spec fn produces(self, id: u64) -> bool {
        exists|i: int| 0 <= i < self.produced().len() && #[trigger] self.produced()[i].id == Some(id)
    }
}

/// What a map holds once an entry has been added. The entry that came first stays.
pub open spec fn with_entry(
    entries: Map<u64, DiscoveredDynamicFilter>,
    entry: DiscoveredDynamicFilter,
) -> Map<u64, DiscoveredDynamicFilter> {
    if entries.contains_key(entry.id) {
        entries
    } else {
        entries.insert(entry.id, entry)
    }
}

/// The consumers and the anchors of a plan by the identities of their filters.
#[verifier::ext_equal]
pub struct ConsumersView {
    pub consumers: Map<u64, DiscoveredDynamicFilter>,
    pub anchors: Map<u64, DiscoveredDynamicFilter>,
}

/// No consumers.
pub open spec fn no_consumers() -> ConsumersView {
    ConsumersView { consumers: Map::empty(), anchors: Map::empty() }
}

impl PlanView {
    /// The consumers and anchors once the first `upto` filters of the node have been added.
    pub open spec fn add_filters(self, before: ConsumersView, upto: nat) -> Result<
        ConsumersView,
        DistributedErrorView,
    >
        decreases upto,
    {
        if upto == 0 {
            Ok(before)
        } else {
            match self.add_filters(before, (upto - 1) as nat) {
                Err(error) => Err(error),
                Ok(found) => {
                    let filter = self.filters()[upto - 1];
                    match filter.id {
                        None => Err(ErrorKind::UnidentifiedFilter.plain()),
                        Some(id) => if self.op.is_network_boundary() {
                            Ok(
                                ConsumersView {
                                    anchors: crate::dynamic_filtering::with_entry(
                                        found.anchors,
                                        DiscoveredDynamicFilter {
                                            id,
                                            expression: filter.expression,
                                            input_schema: None,
                                        },
                                    ),
                                    ..found
                                },
                            )
                        } else if self.produces(id) {
                            Ok(found)
                        } else {
                            Ok(
                                ConsumersView {
                                    consumers: crate::dynamic_filtering::with_entry(
                                        found.consumers,
                                        DiscoveredDynamicFilter {
                                            id,
                                            expression: filter.expression,
                                            input_schema: self.input_schema(),
                                        },
                                    ),
                                    ..found
                                },
                            )
                        },
                    }
                },
            }
        }
    }

    /// The consumers and anchors once those of the node have been added.
    pub open spec fn add_consumers(self, before: ConsumersView) -> Result<
        ConsumersView,
        DistributedErrorView,
    > {
        if exists|i: int| 0 <= i < self.produced().len() && #[trigger] self.produced()[i].id is None {
            Err(ErrorKind::UnidentifiedExpression.about(self.op.name()))
        } else {
            self.add_filters(before, self.filters().len())
        }
    }

    /// The producers once the first `upto` of those of the node have been added.
    pub open spec fn add_producers(
        self,
        before: Map<u64, DiscoveredDynamicFilter>,
        upto: nat,
    ) -> Result<Map<u64, DiscoveredDynamicFilter>, DistributedErrorView>
        decreases upto,
    {
        if upto == 0 {
            Ok(before)
        } else {
            match self.add_producers(before, (upto - 1) as nat) {
                Err(error) => Err(error),
                Ok(found) => {
                    let produced = self.produced()[upto - 1];
                    if !produced.is_dynamic_filter {
                        Ok(found)
                    } else {
                        match produced.id {
                            None => Err(ErrorKind::UnidentifiedFilter.plain()),
                            Some(id) => Ok(
                                crate::dynamic_filtering::with_entry(
                                    found,
                                    DiscoveredDynamicFilter {
                                        id,
                                        expression: produced.expression,
                                        input_schema: None,
                                    },
                                ),
                            ),
                        }
                    }
                },
            }
        }
    }
}

/// The consumers and anchors of some nodes. Where a filter occurs more than once, the first
/// occurrence counts.
pub open spec fn consumers_of(nodes: Seq<PlanView>) -> Result<ConsumersView, DistributedErrorView>
    decreases nodes.len(),
{
    if nodes.len() == 0 {
        Ok(no_consumers())
    } else {
        match consumers_of(nodes.drop_last()) {
            Err(error) => Err(error),
            Ok(found) => nodes.last().add_consumers(found),
        }
    }
}

/// The producers of some nodes. Where a filter is produced more than once, the first producer
/// counts.
pub open spec fn producers_of(nodes: Seq<PlanView>) -> Result<
    Map<u64, DiscoveredDynamicFilter>,
    DistributedErrorView,
>
    decreases nodes.len(),
{
    if nodes.len() == 0 {
        Ok(Map::empty())
    } else {
        match producers_of(nodes.drop_last()) {
            Err(error) => Err(error),
            Ok(found) => nodes.last().add_producers(found, nodes.last().produced().len()),
        }
    }
}

/// Whether a list holds the entries of a map in the order of their identities.
pub open spec fn lists(
    list: Seq<DiscoveredDynamicFilter>,
    entries: Map<u64, DiscoveredDynamicFilter>,
) -> bool {
    &&& forall|i: int, j: int| 0 <= i < j < list.len() ==> #[trigger] list[i].id < #[trigger] list[j].id
    &&& forall|i: int|
        0 <= i < list.len() ==> entries.contains_key((#[trigger] list[i]).id)
            && entries[list[i].id] == list[i]
    &&& forall|id: u64| #[trigger]
        entries.contains_key(id) ==> exists|i: int| 0 <= i < list.len() && #[trigger] list[i].id == id
}

/// A list in the order of identities is the only one with its entries.
pub proof fn listings_are_unique(
    one: Seq<DiscoveredDynamicFilter>,
    other: Seq<DiscoveredDynamicFilter>,
    entries: Map<u64, DiscoveredDynamicFilter>,
)
    requires
        lists(one, entries),
        lists(other, entries),
    ensures
        one == other,
    decreases one.len(),
{
    if one.len() == 0 {
        if other.len() > 0 {
            assert(entries.contains_key(other[0].id));
        }
        assert(one =~= other);
    } else {
        let greatest = one.last();
        assert(entries.contains_key(one[one.len() - 1].id));
        let k = choose|k: int| 0 <= k < other.len() && #[trigger] other[k].id == greatest.id;
        let last = other[other.len() - 1];
        assert(entries.contains_key(last.id));
        let m = choose|m: int| 0 <= m < one.len() && #[trigger] one[m].id == last.id;
        assert(one[m].id <= one[one.len() - 1].id);
        assert(k == other.len() - 1);
        let rest = entries.remove(greatest.id);
        assert(lists(one.drop_last(), rest)) by {
            assert forall|id: u64| #[trigger] rest.contains_key(id) implies exists|i: int|
                0 <= i < one.drop_last().len() && #[trigger] one.drop_last()[i].id == id by {
                assert(entries.contains_key(id));
                let i = choose|i: int| 0 <= i < one.len() && #[trigger] one[i].id == id;
                assert(one.drop_last()[i].id == id);
            }
        }
        assert(lists(other.drop_last(), rest)) by {
            assert forall|id: u64| #[trigger] rest.contains_key(id) implies exists|i: int|
                0 <= i < other.drop_last().len() && #[trigger] other.drop_last()[i].id == id by {
                assert(entries.contains_key(id));
                let i = choose|i: int| 0 <= i < other.len() && #[trigger] other[i].id == id;
                assert(other.drop_last()[i].id == id);
            }
        }
        listings_are_unique(one.drop_last(), other.drop_last(), rest);
        assert(one =~= one.drop_last().push(one.last()));
        assert(other =~= other.drop_last().push(other.last()));
    }
}

/// Adds an entry to a list in its place, unless there is one with the same identity.
fn add_entry(
    list: &mut Vec<DiscoveredDynamicFilter>,
    entry: DiscoveredDynamicFilter,
    Ghost(entries): Ghost<Map<u64, DiscoveredDynamicFilter>>,
)
    requires
        lists(old(list)@, entries),
    ensures
        lists(final(list)@, with_entry(entries, entry)),
{
    let mut i: usize = 0;
    while i < list.len() && list[i].id < entry.id
        invariant
            0 <= i <= list@.len(),
            list@ == old(list)@,
            lists(list@, entries),
            forall|j: int| 0 <= j < i ==> (#[trigger] list@[j]).id < entry.id,
        decreases list@.len() - i,
    {
        i += 1;
    }
    if i < list.len() && list[i].id == entry.id {
        return ;
    }
    proof {
        assert(!entries.contains_key(entry.id)) by {
            if entries.contains_key(entry.id) {
                let j = choose|j: int| 0 <= j < list@.len() && #[trigger] list@[j].id == entry.id;
                assert(i <= j);
                assert(list@[i as int].id <= list@[j].id);
            }
        }
    }
    list.insert(i, entry);
    proof {
        let before = old(list)@;
        let after = list@;
        assert(after =~= before.insert(i as int, entry));
        let now = with_entry(entries, entry);
        assert forall|j: int| 0 <= j < after.len() implies now.contains_key((#[trigger] after[j]).id)
            && now[after[j].id] == after[j] by {
            if j < i {
                assert(after[j] == before[j]);
            } else if j > i {
                assert(after[j] == before[j - 1]);
            }
        }
        assert forall|id: u64| #[trigger] now.contains_key(id) implies exists|j: int|
            0 <= j < after.len() && #[trigger] after[j].id == id by {
            if id == entry.id {
                assert(after[i as int].id == id);
            } else {
                assert(entries.contains_key(id));
                let j = choose|j: int| 0 <= j < before.len() && #[trigger] before[j].id == id;
                if j < i {
                    assert(after[j].id == id);
                } else {
                    assert(after[j + 1].id == id);
                }
            }
        }
        assert forall|a: int, b: int| 0 <= a < b < after.len() implies #[trigger] after[a].id
            < #[trigger] after[b].id by {
            if b < i {
                assert(before[a].id < before[b].id);
            } else if b == i {
                assert(before[a].id < entry.id);
            } else if a < i {
                assert(before[a].id < before[b - 1].id);
            } else if a == i {
                assert(before[i as int].id <= before[b - 1].id);
            } else {
                assert(before[a - 1].id < before[b - 1].id);
            }
        }
    }
}

proof fn unidentified_is_final(node: PlanView, before: ConsumersView, upto: nat)
    requires
        upto <= node.filters().len(),
        node.add_filters(before, upto) is Err,
    ensures
        node.add_filters(before, node.filters().len()) == node.add_filters(before, upto),
    decreases node.filters().len() - upto,
{
    if upto < node.filters().len() {
        unidentified_is_final(node, before, upto + 1);
    }
}

proof fn unidentified_producer_is_final(
    node: PlanView,
    before: Map<u64, DiscoveredDynamicFilter>,
    upto: nat,
)
    requires
        upto <= node.produced().len(),
        node.add_producers(before, upto) is Err,
    ensures
        node.add_producers(before, node.produced().len()) == node.add_producers(before, upto),
    decreases node.produced().len() - upto,
{
    if upto < node.produced().len() {
        unidentified_producer_is_final(node, before, upto + 1);
    }
}

proof fn failed_consumers_are_final(nodes: Seq<PlanView>, upto: int)
    requires
        0 <= upto <= nodes.len(),
        consumers_of(nodes.take(upto)) is Err,
    ensures
        consumers_of(nodes) == consumers_of(nodes.take(upto)),
    decreases nodes.len() - upto,
{
    if upto == nodes.len() {
        assert(nodes.take(upto) =~= nodes);
    } else {
        assert(nodes.take(upto + 1).drop_last() =~= nodes.take(upto));
        failed_consumers_are_final(nodes, upto + 1);
    }
}

proof fn failed_producers_are_final(nodes: Seq<PlanView>, upto: int)
    requires
        0 <= upto <= nodes.len(),
        producers_of(nodes.take(upto)) is Err,
    ensures
        producers_of(nodes) == producers_of(nodes.take(upto)),
    decreases nodes.len() - upto,
{
    if upto == nodes.len() {
        assert(nodes.take(upto) =~= nodes);
    } else {
        assert(nodes.take(upto + 1).drop_last() =~= nodes.take(upto));
        failed_producers_are_final(nodes, upto + 1);
    }
}

/// The consumers and the anchors of a plan, each in the order of their identities.
#[derive(Debug)]
pub struct DiscoveredDynamicFilterConsumers {
    /// Nodes that evaluate a filter that they do not produce.
    pub consumers: Vec<DiscoveredDynamicFilter>,
    /// Filters that network boundaries carry.
    pub anchors: Vec<DiscoveredDynamicFilter>,
}

impl DiscoveredDynamicFilterConsumers {
    /// Whether the two lists hold what was found.
    pub open spec fn lists(self, found: ConsumersView) -> bool {
        crate::dynamic_filtering::lists(self.consumers@, found.consumers)
            && crate::dynamic_filtering::lists(self.anchors@, found.anchors)
    }
}

fn share_schema(node: &Plan) -> (result: Option<Arc<Schema>>)
    ensures
        result == node@.schema(),
{
    match &node.facts {
        Some(facts) => match &facts.properties {
            Some(properties) => Some(Arc::clone(&properties.schema)),
            None => None,
        },
        None => None,
    }
}

fn input_schema(node: &Plan) -> (result: Option<Arc<Schema>>)
    ensures
        result == node@.input_schema(),
{
    if node.children.len() > 0 {
        proof {
            assert(node@.children[0] == node.children@[0]@);
        }
        share_schema(&node.children[0])
    } else {
        share_schema(node)
    }
}

fn is_produced(facts: &Facts, id: u64) -> (result: bool)
    ensures
        result == exists|i: int|
            0 <= i < facts.produced@.len() && #[trigger] facts.produced@[i].id == Some(id),
{
    let mut i: usize = 0;
    while i < facts.produced.len()
        invariant
            0 <= i <= facts.produced@.len(),
            forall|j: int| 0 <= j < i ==> #[trigger] facts.produced@[j].id != Some(id),
        decreases facts.produced@.len() - i,
    {
        if let Some(produced) = facts.produced[i].id {
            if produced == id {
                assert(facts.produced@[i as int].id == Some(id));
                return true;
            }
        }
        i += 1;
    }
    false
}

fn is_every_produced_identified(facts: &Facts) -> (result: bool)
    ensures
        result == !exists|i: int|
            0 <= i < facts.produced@.len() && #[trigger] facts.produced@[i].id is None,
{
    let mut i: usize = 0;
    while i < facts.produced.len()
        invariant
            0 <= i <= facts.produced@.len(),
            forall|j: int| 0 <= j < i ==> #[trigger] facts.produced@[j].id is Some,
        decreases facts.produced@.len() - i,
    {
        if facts.produced[i].id.is_none() {
            assert(facts.produced@[i as int].id is None);
            return false;
        }
        i += 1;
    }
    true
}

/// Adds the consumers and anchors of a node to those that were found before.
fn add_node_consumers(
    node: &Plan,
    found: &mut DiscoveredDynamicFilterConsumers,
    Ghost(before): Ghost<ConsumersView>,
) -> (result: Result<(), DistributedError>)
    requires
        old(found).lists(before),
    ensures
        match node@.add_consumers(before) {
            Ok(after) => result is Ok && final(found).lists(after),
            Err(error) => result matches Err(failed) && failed@ == error,
        },
{
    let facts = match &node.facts {
        Some(facts) => facts,
        None => {
            proof {
                assert(node@.filters().len() == 0);
                assert(node@.produced().len() == 0);
            }
            return Ok(());
        },
    };
    proof {
        assert(node@.produced() == facts.produced@);
        assert(node@.filters() == facts.filters@);
    }
    if !is_every_produced_identified(facts) {
        return Err(
            DistributedError::about(ErrorKind::UnidentifiedExpression, node.op.name()),
        );
    }
    let ghost mut now = before;
    let mut i: usize = 0;
    while i < facts.filters.len()
        invariant
            0 <= i <= facts.filters@.len(),
            node@.produced() == facts.produced@,
            node@.filters() == facts.filters@,
            !(exists|i: int|
                0 <= i < node@.produced().len() && #[trigger] node@.produced()[i].id is None),
            node@.add_filters(before, i as nat) == Ok::<_, DistributedErrorView>(now),
            found.lists(now),
        decreases facts.filters@.len() - i,
    {
        let filter = &facts.filters[i];
        let id: u64 = match filter.id {
            Some(id) => id,
            None => {
                proof {
                    assert(node@.add_filters(before, (i + 1) as nat) is Err);
                    unidentified_is_final(node@, before, (i + 1) as nat);
                }
                return Err(DistributedError::new(ErrorKind::UnidentifiedFilter));
            },
        };
        if node.op.is_network_boundary() {
            let entry = DiscoveredDynamicFilter {
                id,
                expression: Arc::clone(&filter.expression),
                input_schema: None,
            };
            let ghost anchors = with_entry(now.anchors, entry);
            add_entry(&mut found.anchors, entry, Ghost(now.anchors));
            proof {
                now = ConsumersView { anchors, ..now };
            }
        } else if !is_produced(facts, id) {
            let entry = DiscoveredDynamicFilter {
                id,
                expression: Arc::clone(&filter.expression),
                input_schema: input_schema(node),
            };
            let ghost consumers = with_entry(now.consumers, entry);
            add_entry(&mut found.consumers, entry, Ghost(now.consumers));
            proof {
                now = ConsumersView { consumers, ..now };
            }
        }
        i += 1;
    }
    Ok(())
}

/// Finds the consumers of dynamic filters and the anchors of network boundaries in a plan.
pub fn discover_dynamic_filter_consumers(plan: &Arc<Plan>) -> (result: Result<
    DiscoveredDynamicFilterConsumers,
    DistributedError,
>)
    ensures
        match consumers_of(plan@.pre_order()) {
            Ok(found) => result matches Ok(discovered) && discovered.lists(found),
            Err(error) => result matches Err(failed) && failed@ == error,
        },
{
    let nodes = pre_order(plan);
    let ghost all = plan@.pre_order();
    let mut found = DiscoveredDynamicFilterConsumers { consumers: Vec::new(), anchors: Vec::new() };
    let ghost mut now = no_consumers();
    proof {
        assert(all.take(0) =~= Seq::empty());
    }
    let mut i: usize = 0;
    while i < nodes.len()
        invariant
            0 <= i <= nodes@.len(),
            all == plan@.pre_order(),
            all == crate::plan::views(nodes@),
            consumers_of(all.take(i as int)) == Ok::<_, DistributedErrorView>(now),
            found.lists(now),
        decreases nodes@.len() - i,
    {
        proof {
            assert(all.take(i + 1).drop_last() =~= all.take(i as int));
            assert(all[i as int] == nodes@[i as int]@);
        }
        let added = add_node_consumers(&nodes[i], &mut found, Ghost(now));
        proof {
            if added is Err {
                failed_consumers_are_final(all, i + 1);
            } else {
                now = consumers_of(all.take(i + 1))->Ok_0;
            }
        }
        added?;
        i += 1;
    }
    proof {
        assert(all.take(i as int) =~= all);
    }
    Ok(found)
}

/// Adds the producers of a node to those that were found before.
fn add_node_producers(
    node: &Plan,
    found: &mut Vec<DiscoveredDynamicFilter>,
    Ghost(before): Ghost<Map<u64, DiscoveredDynamicFilter>>,
) -> (result: Result<(), DistributedError>)
    requires
        lists(old(found)@, before),
    ensures
        match node@.add_producers(before, node@.produced().len()) {
            Ok(after) => result is Ok && lists(final(found)@, after),
            Err(error) => result matches Err(failed) && failed@ == error,
        },
{
    let facts = match &node.facts {
        Some(facts) => facts,
        None => {
            proof {
                assert(node@.produced().len() == 0);
            }
            return Ok(());
        },
    };
    proof {
        assert(node@.produced() == facts.produced@);
    }
    let ghost mut now = before;
    let mut i: usize = 0;
    while i < facts.produced.len()
        invariant
            0 <= i <= facts.produced@.len(),
            node@.produced() == facts.produced@,
            node@.add_producers(before, i as nat) == Ok::<_, DistributedErrorView>(now),
            lists(found@, now),
        decreases facts.produced@.len() - i,
    {
        let produced = &facts.produced[i];
        if produced.is_dynamic_filter {
            let id: u64 = match produced.id {
                Some(id) => id,
                None => {
                    proof {
                        assert(node@.add_producers(before, (i + 1) as nat) is Err);
                        unidentified_producer_is_final(node@, before, (i + 1) as nat);
                    }
                    return Err(DistributedError::new(ErrorKind::UnidentifiedFilter));
                },
            };
            let entry = DiscoveredDynamicFilter {
                id,
                expression: Arc::clone(&produced.expression),
                input_schema: None,
            };
            let ghost after = with_entry(now, entry);
            add_entry(found, entry, Ghost(now));
            proof {
                now = after;
            }
        }
        i += 1;
    }
    Ok(())
}

/// Finds the producers of dynamic filters in a plan, in the order of their identities.
pub fn discover_dynamic_filter_producers(plan: &Arc<Plan>) -> (result: Result<
    Vec<DiscoveredDynamicFilter>,
    DistributedError,
>)
    ensures
        match producers_of(plan@.pre_order()) {
            Ok(found) => result matches Ok(discovered) && lists(discovered@, found),
            Err(error) => result matches Err(failed) && failed@ == error,
        },
{
    let nodes = pre_order(plan);
    let ghost all = plan@.pre_order();
    let mut found: Vec<DiscoveredDynamicFilter> = Vec::new();
    let ghost mut now = Map::<u64, DiscoveredDynamicFilter>::empty();
    proof {
        assert(all.take(0) =~= Seq::empty());
    }
    let mut i: usize = 0;
    while i < nodes.len()
        invariant
            0 <= i <= nodes@.len(),
            all == plan@.pre_order(),
            all == crate::plan::views(nodes@),
            producers_of(all.take(i as int)) == Ok::<_, DistributedErrorView>(now),
            lists(found@, now),
        decreases nodes@.len() - i,
    {
        proof {
            assert(all.take(i + 1).drop_last() =~= all.take(i as int));
            assert(all[i as int] == nodes@[i as int]@);
        }
        let added = add_node_producers(&nodes[i], &mut found, Ghost(now));
        proof {
            if added is Err {
                failed_producers_are_final(all, i + 1);
            } else {
                now = producers_of(all.take(i + 1))->Ok_0;
            }
        }
        added?;
        i += 1;
    }
    proof {
        assert(all.take(i as int) =~= all);
    }
    Ok(found)
}

fn has_entry(
    list: &Vec<DiscoveredDynamicFilter>,
    id: u64,
    Ghost(entries): Ghost<Map<u64, DiscoveredDynamicFilter>>,
) -> (result: bool)
    requires
        lists(list@, entries),
    ensures
        result == entries.contains_key(id),
{
    let mut i: usize = 0;
    while i < list.len()
        invariant
            0 <= i <= list@.len(),
            lists(list@, entries),
            forall|j: int| 0 <= j < i ==> (#[trigger] list@[j]).id != id,
        decreases list@.len() - i,
    {
        if list[i].id == id {
            assert(entries.contains_key(list@[i as int].id));
            return true;
        }
        i += 1;
    }
    false
}

/// Whether a list holds the identities of a set in their order.
pub open spec fn lists_ids(list: Seq<u64>, ids: Set<u64>) -> bool {
    &&& forall|i: int, j: int| 0 <= i < j < list.len() ==> #[trigger] list[i] < #[trigger] list[j]
    &&& forall|i: int| 0 <= i < list.len() ==> ids.contains(#[trigger] list[i])
    &&& forall|id: u64| #[trigger] ids.contains(id) ==> list.contains(id)
}

/// The filters that are produced in a plan and consumed below one of its network boundaries.
pub open spec fn remote_producers(
    found: ConsumersView,
    producers: Map<u64, DiscoveredDynamicFilter>,
) -> Set<u64> {
    producers.dom().intersect(found.anchors.dom())
}

/// The filters that are consumed in a plan or below it, and not produced in it.
pub open spec fn orphans(
    found: ConsumersView,
    producers: Map<u64, DiscoveredDynamicFilter>,
) -> Map<u64, DiscoveredDynamicFilter> {
    found.consumers.union_prefer_right(found.anchors).remove_keys(producers.dom())
}

/// The identities of the filters that are produced in a plan and consumed in another stage, in
/// their order. The producers have to tell the coordinator of their updates.
pub fn dynamic_filter_remote_producer_ids(plan: &Arc<Plan>) -> (result: Result<
    Vec<u64>,
    DistributedError,
>)
    ensures
        match producers_of(plan@.pre_order()) {
            Err(error) => result matches Err(failed) && failed@ == error,
            Ok(producers) => match consumers_of(plan@.pre_order()) {
                Err(error) => result matches Err(failed) && failed@ == error,
                Ok(found) => result matches Ok(ids) && lists_ids(
                    ids@,
                    remote_producers(found, producers),
                ),
            },
        },
{
    let producers = discover_dynamic_filter_producers(plan)?;
    let discovered = discover_dynamic_filter_consumers(plan)?;
    let ghost produced = producers_of(plan@.pre_order())->Ok_0;
    let ghost found = consumers_of(plan@.pre_order())->Ok_0;
    let mut ids: Vec<u64> = Vec::new();
    let mut i: usize = 0;
    while i < producers.len()
        invariant
            0 <= i <= producers@.len(),
            lists(producers@, produced),
            discovered.lists(found),
            forall|a: int, b: int| 0 <= a < b < ids@.len() ==> #[trigger] ids@[a] < #[trigger] ids@[b],
            forall|a: int| 0 <= a < ids@.len() ==> exists|j: int|
                0 <= j < i && #[trigger] producers@[j].id == #[trigger] ids@[a],
            forall|a: int|
                0 <= a < ids@.len() ==> remote_producers(found, produced).contains(
                    #[trigger] ids@[a],
                ),
            forall|j: int|
                0 <= j < i && found.anchors.contains_key((#[trigger] producers@[j]).id)
                    ==> ids@.contains(producers@[j].id),
        decreases producers@.len() - i,
    {
        let id: u64 = producers[i].id;
        proof {
            assert(produced.contains_key(producers@[i as int].id));
        }
        let ghost before = ids@;
        if has_entry(&discovered.anchors, id, Ghost(found.anchors)) {
            proof {
                assert forall|a: int| 0 <= a < before.len() implies #[trigger] before[a] < id by {
                    let j = choose|j: int|
                        0 <= j < i && #[trigger] producers@[j].id == before[a];
                    assert(producers@[j].id < producers@[i as int].id);
                }
            }
            ids.push(id);
            proof {
                assert forall|j: int|
                    0 <= j < i + 1 && found.anchors.contains_key(
                        (#[trigger] producers@[j]).id,
                    ) implies ids@.contains(producers@[j].id) by {
                    if j < i {
                        assert(before.contains(producers@[j].id));
                        let a = choose|a: int|
                            0 <= a < before.len() && before[a] == producers@[j].id;
                        assert(ids@[a] == producers@[j].id);
                    } else {
                        assert(ids@[before.len() as int] == id);
                    }
                }
                assert forall|a: int| 0 <= a < ids@.len() implies exists|j: int|
                    0 <= j < i + 1 && #[trigger] producers@[j].id == #[trigger] ids@[a] by {
                    if a < before.len() {
                        let j = choose|j: int|
                            0 <= j < i && #[trigger] producers@[j].id == before[a];
                        assert(producers@[j].id == ids@[a]);
                    } else {
                        assert(producers@[i as int].id == ids@[a]);
                    }
                }
            }
        }
        i += 1;
    }
    proof {
        assert forall|id: u64| #[trigger] remote_producers(found, produced).contains(
            id,
        ) implies ids@.contains(id) by {
            assert(produced.contains_key(id));
            let j = choose|j: int| 0 <= j < producers@.len() && #[trigger] producers@[j].id == id;
            assert(found.anchors.contains_key(producers@[j].id));
        }
    }
    Ok(ids)
}

fn share(filter: &DiscoveredDynamicFilter) -> (result: DiscoveredDynamicFilter)
    ensures
        result == *filter,
{
    let input_schema = match &filter.input_schema {
        Some(schema) => Some(Arc::clone(schema)),
        None => None,
    };
    DiscoveredDynamicFilter {
        id: filter.id,
        expression: Arc::clone(&filter.expression),
        input_schema,
    }
}

/// Adds the entries of a list that are not produced, where there is none with the same identity.
fn add_unproduced(
    result: &mut Vec<DiscoveredDynamicFilter>,
    list: &Vec<DiscoveredDynamicFilter>,
    producers: &Vec<DiscoveredDynamicFilter>,
    Ghost(before): Ghost<Map<u64, DiscoveredDynamicFilter>>,
    Ghost(entries): Ghost<Map<u64, DiscoveredDynamicFilter>>,
    Ghost(produced): Ghost<Map<u64, DiscoveredDynamicFilter>>,
)
    requires
        lists(old(result)@, before),
        lists(list@, entries),
        lists(producers@, produced),
    ensures
        lists(
            final(result)@,
            entries.remove_keys(produced.dom()).union_prefer_right(before),
        ),
{
    let ghost mut now = before;
    let mut i: usize = 0;
    while i < list.len()
        invariant
            0 <= i <= list@.len(),
            lists(result@, now),
            lists(list@, entries),
            lists(producers@, produced),
            forall|id: u64| #[trigger] before.contains_key(id) ==> now.contains_key(id),
            forall|id: u64| #[trigger]
                now.contains_key(id) ==> if before.contains_key(id) {
                    now[id] == before[id]
                } else {
                    entries.contains_key(id) && !produced.contains_key(id) && now[id]
                        == entries[id]
                },
            forall|j: int|
                0 <= j < i && !produced.contains_key((#[trigger] list@[j]).id) ==> now.contains_key(
                    list@[j].id,
                ),
        decreases list@.len() - i,
    {
        proof {
            assert(entries.contains_key(list@[i as int].id));
        }
        if !has_entry(producers, list[i].id, Ghost(produced)) {
            let entry = share(&list[i]);
            let ghost after = with_entry(now, entry);
            add_entry(result, entry, Ghost(now));
            proof {
                now = after;
            }
        }
        i += 1;
    }
    proof {
        let due = entries.remove_keys(produced.dom()).union_prefer_right(before);
        assert forall|id: u64| due.contains_key(id) == #[trigger] now.contains_key(id) by {
            if due.contains_key(id) && !before.contains_key(id) {
                assert(entries.contains_key(id));
                let j = choose|j: int| 0 <= j < list@.len() && #[trigger] list@[j].id == id;
                assert(!produced.contains_key(list@[j].id));
            }
        }
        assert(now =~= due);
    }
}

/// The filters that are consumed in a plan or below it, and not produced in it, in the order of
/// their identities. The network boundary above the plan carries them as anchors, so that anchors
/// reach from every consumer up to its producer.
pub fn orphan_dynamic_filter_consumers(plan: &Arc<Plan>) -> (result: Result<
    Vec<DiscoveredDynamicFilter>,
    DistributedError,
>)
    ensures
        match producers_of(plan@.pre_order()) {
            Err(error) => result matches Err(failed) && failed@ == error,
            Ok(producers) => match consumers_of(plan@.pre_order()) {
                Err(error) => result matches Err(failed) && failed@ == error,
                Ok(found) => result matches Ok(filters) && lists(
                    filters@,
                    orphans(found, producers),
                ),
            },
        },
{
    let producers = discover_dynamic_filter_producers(plan)?;
    let discovered = discover_dynamic_filter_consumers(plan)?;
    let ghost produced = producers_of(plan@.pre_order())->Ok_0;
    let ghost found = consumers_of(plan@.pre_order())->Ok_0;
    let mut orphaned: Vec<DiscoveredDynamicFilter> = Vec::new();
    let ghost none = Map::<u64, DiscoveredDynamicFilter>::empty();
    add_unproduced(
        &mut orphaned,
        &discovered.anchors,
        &producers,
        Ghost(none),
        Ghost(found.anchors),
        Ghost(produced),
    );
    let ghost anchored = found.anchors.remove_keys(produced.dom()).union_prefer_right(none);
    add_unproduced(
        &mut orphaned,
        &discovered.consumers,
        &producers,
        Ghost(anchored),
        Ghost(found.consumers),
        Ghost(produced),
    );
    proof {
        assert(found.consumers.remove_keys(produced.dom()).union_prefer_right(anchored)
            =~= orphans(found, produced));
    }
    Ok(orphaned)
}

/// Whatever is consumed in a plan is produced in it or orphaned, and never both.
pub proof fn consumers_are_fed_or_orphaned(
    found: ConsumersView,
    producers: Map<u64, DiscoveredDynamicFilter>,
    id: u64,
)
    ensures
        found.consumers.contains_key(id) || found.anchors.contains_key(id) ==> (
        producers.contains_key(id) || orphans(found, producers).contains_key(id)),
        !(producers.contains_key(id) && orphans(found, producers).contains_key(id)),
        remote_producers(found, producers).contains(id) ==> !orphans(
            found,
            producers,
        ).contains_key(id),
{
}

/// Whether a plan has to be copied before it shares memory with others: it has producers or
/// consumers of dynamic filters, which would otherwise see those of other tasks.
pub fn shares_dynamic_filters(plan: &Arc<Plan>) -> (result: Result<bool, DistributedError>)
    ensures
        match producers_of(plan@.pre_order()) {
            Err(error) => result matches Err(failed) && failed@ == error,
            Ok(producers) => match consumers_of(plan@.pre_order()) {
                Err(error) => result matches Err(failed) && failed@ == error,
                Ok(found) => result matches Ok(shares) && shares == ((exists|id: u64| #[trigger]
                    producers.contains_key(id)) || exists|id: u64| #[trigger]
                    found.consumers.contains_key(id)),
            },
        },
{
    let producers = discover_dynamic_filter_producers(plan)?;
    let discovered = discover_dynamic_filter_consumers(plan)?;
    proof {
        let produced = producers_of(plan@.pre_order())->Ok_0;
        let found = consumers_of(plan@.pre_order())->Ok_0;
        if producers@.len() > 0 {
            assert(produced.contains_key(producers@[0].id));
        }
        if discovered.consumers@.len() > 0 {
            assert(found.consumers.contains_key(discovered.consumers@[0].id));
        }
    }
    Ok(producers.len() > 0 || discovered.consumers.len() > 0)
}

/// Whether dynamic filters are pushed down within a process.
pub fn is_local_dynamic_filtering_enabled(session_config: &SessionConfig) -> (result: bool)
    ensures
        result == session_config.dynamic_filter_pushdown,
{
    session_config.dynamic_filter_pushdown
}

/// Whether dynamic filters are sent between stages, which takes that they are pushed down at all.
pub fn is_remote_dynamic_filtering_enabled(session_config: &SessionConfig) -> (result: Result<
    bool,
    DistributedError,
>)
    ensures
        match session_config.distributed {
            Some(config) => result matches Ok(enabled) && enabled == (config.remote_dynamic_filters
                && session_config.dynamic_filter_pushdown),
            None => result matches Err(error) && error@
                == ErrorKind::MissingDistributedConfig.plain(),
        },
{
    let config = DistributedConfig::from_session_config(session_config)?;
    Ok(config.remote_dynamic_filters && is_local_dynamic_filtering_enabled(session_config))
}

} // verus!

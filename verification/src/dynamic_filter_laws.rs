//! What is found of the dynamic filters of a plan, told by what each of its nodes holds.
use crate::dynamic_filtering::{ConsumersView, DiscoveredDynamicFilter};
use crate::error::ErrorKind;
use crate::plan::{PlanView, Schema};
use std::sync::Arc;
use vstd::prelude::*;

verus! {

/// What a node has to do with a dynamic filter.
pub enum FilterRole {
    /// The node evaluates a filter that it does not produce.
    Consumer,
    /// The node stands between two stages and carries the filter.
    Anchor,
    /// The node produces the filter.
    Producer,
}

/// Whether the node produces an expression with this identity.
pub open spec fn makes(node: PlanView, id: u64) -> bool {
    node.facts matches Some(facts) && exists|p: int|
        0 <= p < facts.produced@.len() && (#[trigger] facts.produced@[p]).id == Some(id)
}

/// Whether the entry of a node with this number gives the node the role for this filter. Consumers
/// and anchors are told by the filters in the expressions of the node, producers by what it
/// produces.
pub open spec fn has_role(role: FilterRole, node: PlanView, slot: int, id: u64) -> bool {
    let between_stages = node.op is NetworkShuffle || node.op is NetworkCoalesce || node.op
        is NetworkBroadcast;
    node.facts matches Some(facts) && match role {
        FilterRole::Consumer => 0 <= slot < facts.filters@.len() && facts.filters@[slot].id == Some(
            id,
        ) && !between_stages && !makes(node, id),
        FilterRole::Anchor => 0 <= slot < facts.filters@.len() && facts.filters@[slot].id == Some(
            id,
        ) && between_stages,
        FilterRole::Producer => 0 <= slot < facts.produced@.len() && facts.produced@[slot].id
            == Some(id) && facts.produced@[slot].is_dynamic_filter,
    }
}

/// The number of entries of a node that may give it the role.
pub open spec fn slots(role: FilterRole, node: PlanView) -> nat {
    match node.facts {
        None => 0,
        Some(facts) => if role is Producer {
            facts.produced@.len()
        } else {
            facts.filters@.len()
        },
    }
}

/// The columns that a node hands out, where they are known.
pub open spec fn columns(node: PlanView) -> Option<Arc<Schema>> {
    match node.facts {
        Some(facts) => match facts.properties {
            Some(properties) => Some(properties.schema),
            None => None,
        },
        None => None,
    }
}

/// What is to be found of an entry of a node: its expression, and for a consumer the columns of the
/// first input of the node, or its own columns if it is a leaf.
pub open spec fn due_entry(role: FilterRole, node: PlanView, slot: int, id: u64) -> DiscoveredDynamicFilter {
    DiscoveredDynamicFilter {
        id,
        expression: if role is Producer {
            node.facts->Some_0.produced@[slot].expression
        } else {
            node.facts->Some_0.filters@[slot].expression
        },
        input_schema: if role is Consumer {
            columns(
                if node.children.len() == 0 {
                    node
                } else {
                    node.children[0]
                },
            )
        } else {
            None
        },
    }
}

/// Whether one entry of one node comes before another one.
pub open spec fn precedes(node: int, slot: int, other_node: int, other_slot: int) -> bool {
    node < other_node || node == other_node && slot < other_slot
}

/// Whether the entry of the node is the first of all that gives its node the role for the filter.
pub open spec fn is_first(
    role: FilterRole,
    nodes: Seq<PlanView>,
    k: int,
    slot: int,
    id: u64,
) -> bool {
    &&& 0 <= k < nodes.len()
    &&& has_role(role, nodes[k], slot, id)
    &&& forall|j: int, s: int|
        0 <= j < nodes.len() && #[trigger] has_role(role, nodes[j], s, id) ==> !precedes(
            j,
            s,
            k,
            slot,
        )
}

/// Whether the entries are those that the nodes have before the entry `slot` of the node `k`.
spec fn covers(
    entries: Map<u64, DiscoveredDynamicFilter>,
    role: FilterRole,
    nodes: Seq<PlanView>,
    k: int,
    slot: int,
) -> bool {
    &&& forall|id: u64| #[trigger]
        entries.contains_key(id) ==> exists|j: int, s: int|
            precedes(j, s, k, slot) && #[trigger] is_first(role, nodes, j, s, id) && entries[id]
                == due_entry(role, nodes[j], s, id)
    &&& forall|j: int, s: int, id: u64|
        0 <= j < nodes.len() && precedes(j, s, k, slot) && #[trigger] has_role(
            role,
            nodes[j],
            s,
            id,
        ) ==> entries.contains_key(id)
}

proof fn a_slot_is_covered(
    entries: Map<u64, DiscoveredDynamicFilter>,
    role: FilterRole,
    nodes: Seq<PlanView>,
    k: int,
    slot: int,
    only: u64,
    after: Map<u64, DiscoveredDynamicFilter>,
)
    requires
        0 <= k < nodes.len(),
        covers(entries, role, nodes, k, slot),
        forall|id: u64| #[trigger] has_role(role, nodes[k], slot, id) ==> id == only,
        after == (if has_role(role, nodes[k], slot, only) && !entries.contains_key(only) {
            entries.insert(only, due_entry(role, nodes[k], slot, only))
        } else {
            entries
        }),
    ensures
        covers(after, role, nodes, k, slot + 1),
{
    assert forall|id: u64| #[trigger] after.contains_key(id) implies exists|j: int, s: int|
        precedes(j, s, k, slot + 1) && #[trigger] is_first(role, nodes, j, s, id) && after[id]
            == due_entry(role, nodes[j], s, id) by {
        if entries.contains_key(id) {
            let (j, s) = choose|j: int, s: int|
                precedes(j, s, k, slot) && #[trigger] is_first(role, nodes, j, s, id) && entries[id]
                    == due_entry(role, nodes[j], s, id);
            assert(precedes(j, s, k, slot + 1));
            assert(is_first(role, nodes, j, s, id));
        } else {
            assert(has_role(role, nodes[k], slot, id));
            assert forall|j: int, s: int|
                0 <= j < nodes.len() && #[trigger] has_role(role, nodes[j], s, id) implies !precedes(
                j,
                s,
                k,
                slot,
            ) by {}
            assert(is_first(role, nodes, k, slot, id));
            assert(precedes(k, slot, k, slot + 1));
        }
    }
    assert forall|j: int, s: int, id: u64|
        0 <= j < nodes.len() && precedes(j, s, k, slot + 1) && #[trigger] has_role(
            role,
            nodes[j],
            s,
            id,
        ) implies after.contains_key(id) by {
        if !precedes(j, s, k, slot) {
            assert(j == k && s == slot);
        }
    }
}

proof fn a_node_is_covered(
    entries: Map<u64, DiscoveredDynamicFilter>,
    role: FilterRole,
    nodes: Seq<PlanView>,
    k: int,
)
    requires
        0 <= k < nodes.len(),
        covers(entries, role, nodes, k, slots(role, nodes[k]) as int),
    ensures
        covers(entries, role, nodes, k + 1, 0),
{
    let all = slots(role, nodes[k]) as int;
    assert forall|id: u64| #[trigger] entries.contains_key(id) implies exists|j: int, s: int|
        precedes(j, s, k + 1, 0) && #[trigger] is_first(role, nodes, j, s, id) && entries[id]
            == due_entry(role, nodes[j], s, id) by {
        let (j, s) = choose|j: int, s: int|
            precedes(j, s, k, all) && #[trigger] is_first(role, nodes, j, s, id) && entries[id]
                == due_entry(role, nodes[j], s, id);
        assert(precedes(j, s, k + 1, 0));
        assert(is_first(role, nodes, j, s, id));
    }
    assert forall|j: int, s: int, id: u64|
        0 <= j < nodes.len() && precedes(j, s, k + 1, 0) && #[trigger] has_role(
            role,
            nodes[j],
            s,
            id,
        ) implies entries.contains_key(id) by {
        assert(precedes(j, s, k, all));
    }
}

proof fn filters_are_covered(
    before: ConsumersView,
    nodes: Seq<PlanView>,
    k: int,
    upto: nat,
)
    requires
        0 <= k < nodes.len(),
        upto <= nodes[k].filters().len(),
        covers(before.consumers, FilterRole::Consumer, nodes, k, 0),
        covers(before.anchors, FilterRole::Anchor, nodes, k, 0),
    ensures
        nodes[k].add_filters(before, upto) matches Ok(found) ==> covers(
            found.consumers,
            FilterRole::Consumer,
            nodes,
            k,
            upto as int,
        ) && covers(found.anchors, FilterRole::Anchor, nodes, k, upto as int),
        nodes[k].add_filters(before, upto) is Ok <==> forall|f: int|
            0 <= f < upto ==> (#[trigger] nodes[k].filters()[f]).id is Some,
        nodes[k].add_filters(before, upto) matches Err(error) ==> error
            == ErrorKind::UnidentifiedFilter.plain(),
    decreases upto,
{
    let node = nodes[k];
    if upto > 0 {
        let slot = upto - 1;
        filters_are_covered(before, nodes, k, slot as nat);
        if let Ok(found) = node.add_filters(before, slot as nat) {
            let filter = node.filters()[slot];
            if let Some(id) = filter.id {
                let after = node.add_filters(before, upto)->Ok_0;
                assert(node.facts is Some);
                assert(node.produces(id) == makes(node, id)) by {
                    let facts = node.facts->Some_0;
                    assert(node.produced() == facts.produced@);
                }
                a_slot_is_covered(
                    found.consumers,
                    FilterRole::Consumer,
                    nodes,
                    k,
                    slot,
                    id,
                    after.consumers,
                );
                a_slot_is_covered(
                    found.anchors,
                    FilterRole::Anchor,
                    nodes,
                    k,
                    slot,
                    id,
                    after.anchors,
                );
            }
        }
    }
}

/// Whether a node names everything that it produces.
pub open spec fn names_what_it_makes(node: PlanView) -> bool {
    node.facts matches Some(facts) ==> forall|p: int|
        0 <= p < facts.produced@.len() ==> (#[trigger] facts.produced@[p]).id is Some
}

/// Whether a node names the filters in its expressions.
pub open spec fn names_its_filters(node: PlanView) -> bool {
    node.facts matches Some(facts) ==> forall|f: int|
        0 <= f < facts.filters@.len() ==> (#[trigger] facts.filters@[f]).id is Some
}

proof fn consumers_are_covered(nodes: Seq<PlanView>, upto: nat)
    requires
        upto <= nodes.len(),
    ensures
        crate::dynamic_filtering::consumers_of(nodes.take(upto as int)) matches Ok(found)
            ==> covers(found.consumers, FilterRole::Consumer, nodes, upto as int, 0) && covers(
            found.anchors,
            FilterRole::Anchor,
            nodes,
            upto as int,
            0,
        ) && forall|k: int|
            0 <= k < upto ==> names_what_it_makes(#[trigger] nodes[k]) && names_its_filters(
                nodes[k],
            ),
        crate::dynamic_filtering::consumers_of(nodes.take(upto as int)) matches Err(error)
            ==> exists|k: int|
            0 <= k < upto && (forall|j: int|
                0 <= j < k ==> names_what_it_makes(#[trigger] nodes[j]) && names_its_filters(
                    nodes[j],
                )) && error == (if !names_what_it_makes(#[trigger] nodes[k]) {
                ErrorKind::UnidentifiedExpression.about(nodes[k].op.name())
            } else {
                ErrorKind::UnidentifiedFilter.plain()
            }) && !(names_what_it_makes(nodes[k]) && names_its_filters(nodes[k])),
    decreases upto,
{
    if upto > 0 {
        let k = upto - 1;
        let node = nodes[k];
        consumers_are_covered(nodes, k as nat);
        assert(nodes.take(upto as int).drop_last() =~= nodes.take(k));
        if let Ok(found) = crate::dynamic_filtering::consumers_of(nodes.take(k)) {
            filters_are_covered(found, nodes, k, node.filters().len());
            if let Some(facts) = node.facts {
                assert(node.produced() == facts.produced@);
                assert(node.filters() == facts.filters@);
            }
            if let Ok(after) = node.add_consumers(found) {
                a_node_is_covered(after.consumers, FilterRole::Consumer, nodes, k);
                a_node_is_covered(after.anchors, FilterRole::Anchor, nodes, k);
            }
        }
    } else {
        assert(nodes.take(0) =~= Seq::<PlanView>::empty());
    }
}

/// Whether the entries that were found are the first ones of the nodes that have the role, each
/// under the identity of its filter.
pub open spec fn are_first_entries(
    entries: Map<u64, DiscoveredDynamicFilter>,
    role: FilterRole,
    nodes: Seq<PlanView>,
) -> bool {
    &&& forall|id: u64| #[trigger]
        entries.contains_key(id) ==> exists|k: int, slot: int| #[trigger]
            is_first(role, nodes, k, slot, id) && entries[id] == due_entry(
                role,
                nodes[k],
                slot,
                id,
            )
    &&& forall|k: int, slot: int, id: u64|
        0 <= k < nodes.len() && #[trigger] has_role(role, nodes[k], slot, id)
            ==> entries.contains_key(id)
}

/// Every consumer that is found is a node that evaluates the filter, does not produce it and does
/// not stand between two stages, with the columns of its own first input. Every anchor is a node
/// between two stages that carries the filter. Conversely every such node is found, and of several
/// nodes with one filter the first one counts. Finding them fails on the first node that does not
/// name what it produces, or else on the first filter without a name.
pub proof fn consumers_and_anchors_are_found(nodes: Seq<PlanView>)
    ensures
        match crate::dynamic_filtering::consumers_of(nodes) {
            Ok(found) => {
                &&& are_first_entries(found.consumers, FilterRole::Consumer, nodes)
                &&& are_first_entries(found.anchors, FilterRole::Anchor, nodes)
                &&& forall|k: int|
                    0 <= k < nodes.len() ==> names_what_it_makes(#[trigger] nodes[k])
                        && names_its_filters(nodes[k])
            },
            Err(error) => exists|k: int|
                0 <= k < nodes.len() && (forall|j: int|
                    0 <= j < k ==> names_what_it_makes(#[trigger] nodes[j]) && names_its_filters(
                        nodes[j],
                    )) && error == (if !names_what_it_makes(#[trigger] nodes[k]) {
                    ErrorKind::UnidentifiedExpression.about(nodes[k].op.name())
                } else {
                    ErrorKind::UnidentifiedFilter.plain()
                }) && !(names_what_it_makes(nodes[k]) && names_its_filters(nodes[k])),
        },
{
    consumers_are_covered(nodes, nodes.len());
    assert(nodes.take(nodes.len() as int) =~= nodes);
    if let Ok(found) = crate::dynamic_filtering::consumers_of(nodes) {
        covered_lists_are_first(found.consumers, FilterRole::Consumer, nodes);
        covered_lists_are_first(found.anchors, FilterRole::Anchor, nodes);
    }
}

proof fn covered_lists_are_first(
    entries: Map<u64, DiscoveredDynamicFilter>,
    role: FilterRole,
    nodes: Seq<PlanView>,
)
    requires
        covers(entries, role, nodes, nodes.len() as int, 0),
    ensures
        are_first_entries(entries, role, nodes),
{
    assert forall|k: int, slot: int, id: u64|
        0 <= k < nodes.len() && #[trigger] has_role(
            role,
            nodes[k],
            slot,
            id,
        ) implies entries.contains_key(id) by {
        assert(precedes(k, slot, nodes.len() as int, 0));
    }
}

proof fn producers_of_a_node_are_covered(
    before: Map<u64, DiscoveredDynamicFilter>,
    nodes: Seq<PlanView>,
    k: int,
    upto: nat,
)
    requires
        0 <= k < nodes.len(),
        upto <= nodes[k].produced().len(),
        covers(before, FilterRole::Producer, nodes, k, 0),
    ensures
        nodes[k].add_producers(before, upto) matches Ok(found) ==> covers(
            found,
            FilterRole::Producer,
            nodes,
            k,
            upto as int,
        ),
        nodes[k].add_producers(before, upto) is Ok <==> forall|p: int|
            0 <= p < upto && (#[trigger] nodes[k].produced()[p]).is_dynamic_filter
                ==> nodes[k].produced()[p].id is Some,
        nodes[k].add_producers(before, upto) matches Err(error) ==> error
            == ErrorKind::UnidentifiedFilter.plain(),
    decreases upto,
{
    let node = nodes[k];
    if upto > 0 {
        let slot = upto - 1;
        producers_of_a_node_are_covered(before, nodes, k, slot as nat);
        if let Ok(found) = node.add_producers(before, slot as nat) {
            let produced = node.produced()[slot];
            if !produced.is_dynamic_filter || produced.id is Some {
                let after = node.add_producers(before, upto)->Ok_0;
                assert(node.facts is Some);
                let id = match produced.id {
                    Some(id) => id,
                    None => 0u64,
                };
                a_slot_is_covered(found, FilterRole::Producer, nodes, k, slot, id, after);
            }
        }
    }
}

/// Whether a node names the filters that it produces.
pub open spec fn names_filters_it_makes(node: PlanView) -> bool {
    node.facts matches Some(facts) ==> forall|p: int|
        0 <= p < facts.produced@.len() && (#[trigger] facts.produced@[p]).is_dynamic_filter
            ==> facts.produced@[p].id is Some
}

proof fn producers_are_covered(nodes: Seq<PlanView>, upto: nat)
    requires
        upto <= nodes.len(),
    ensures
        crate::dynamic_filtering::producers_of(nodes.take(upto as int)) matches Ok(found)
            ==> covers(found, FilterRole::Producer, nodes, upto as int, 0) && forall|k: int|
            0 <= k < upto ==> names_filters_it_makes(#[trigger] nodes[k]),
        crate::dynamic_filtering::producers_of(nodes.take(upto as int)) matches Err(error) ==> error
            == ErrorKind::UnidentifiedFilter.plain() && exists|k: int|
            0 <= k < upto && !names_filters_it_makes(#[trigger] nodes[k]),
    decreases upto,
{
    if upto > 0 {
        let k = upto - 1;
        let node = nodes[k];
        producers_are_covered(nodes, k as nat);
        assert(nodes.take(upto as int).drop_last() =~= nodes.take(k));
        if let Ok(found) = crate::dynamic_filtering::producers_of(nodes.take(k)) {
            producers_of_a_node_are_covered(found, nodes, k, node.produced().len());
            if let Some(facts) = node.facts {
                assert(node.produced() == facts.produced@);
            }
            if let Ok(after) = node.add_producers(found, node.produced().len()) {
                a_node_is_covered(after, FilterRole::Producer, nodes, k);
            }
        }
    } else {
        assert(nodes.take(0) =~= Seq::<PlanView>::empty());
    }
}

/// Every producer that is found is a node that produces the filter, every such node is found, and
/// of several producers of one filter the first one counts. Other expressions that a node produces
/// do not matter. Finding them fails where a filter that is produced has no name.
pub proof fn producers_are_found(nodes: Seq<PlanView>)
    ensures
        match crate::dynamic_filtering::producers_of(nodes) {
            Ok(found) => are_first_entries(found, FilterRole::Producer, nodes) && forall|k: int|
                0 <= k < nodes.len() ==> names_filters_it_makes(#[trigger] nodes[k]),
            Err(error) => error == ErrorKind::UnidentifiedFilter.plain() && exists|k: int|
                0 <= k < nodes.len() && !names_filters_it_makes(#[trigger] nodes[k]),
        },
{
    producers_are_covered(nodes, nodes.len());
    assert(nodes.take(nodes.len() as int) =~= nodes);
    if let Ok(found) = crate::dynamic_filtering::producers_of(nodes) {
        covered_lists_are_first(found, FilterRole::Producer, nodes);
    }
}

/// The filters whose producer and consumer are in different stages: those that some node between
/// two stages carries and some node produces have a remote consumer, those that are carried or
/// consumed and that no node produces are orphans. Of an orphan the expression of its anchor counts
/// before that of its consumer.
pub proof fn filters_across_stages(nodes: Seq<PlanView>, id: u64)
    requires
        crate::dynamic_filtering::consumers_of(nodes) is Ok,
        crate::dynamic_filtering::producers_of(nodes) is Ok,
    ensures
        ({
            let found = crate::dynamic_filtering::consumers_of(nodes)->Ok_0;
            let producers = crate::dynamic_filtering::producers_of(nodes)->Ok_0;
            let produced = exists|k: int, slot: int|
                0 <= k < nodes.len() && #[trigger] has_role(
                    FilterRole::Producer,
                    nodes[k],
                    slot,
                    id,
                );
            let carried = exists|k: int, slot: int|
                0 <= k < nodes.len() && #[trigger] has_role(FilterRole::Anchor, nodes[k], slot, id);
            let consumed = exists|k: int, slot: int|
                0 <= k < nodes.len() && #[trigger] has_role(
                    FilterRole::Consumer,
                    nodes[k],
                    slot,
                    id,
                );
            let orphans = crate::dynamic_filtering::orphans(found, producers);
            &&& crate::dynamic_filtering::remote_producers(found, producers).contains(id) <==> (
            produced && carried)
            &&& orphans.contains_key(id) <==> !produced && (carried || consumed)
            &&& !produced && carried ==> exists|k: int, slot: int| #[trigger]
                is_first(FilterRole::Anchor, nodes, k, slot, id) && orphans[id] == due_entry(
                    FilterRole::Anchor,
                    nodes[k],
                    slot,
                    id,
                )
            &&& !produced && !carried && consumed ==> exists|k: int, slot: int| #[trigger]
                is_first(FilterRole::Consumer, nodes, k, slot, id) && orphans[id] == due_entry(
                    FilterRole::Consumer,
                    nodes[k],
                    slot,
                    id,
                )
        }),
{
    consumers_and_anchors_are_found(nodes);
    producers_are_found(nodes);
    let found = crate::dynamic_filtering::consumers_of(nodes)->Ok_0;
    let producers = crate::dynamic_filtering::producers_of(nodes)->Ok_0;
    entries_have_the_role(found.consumers, FilterRole::Consumer, nodes, id);
    entries_have_the_role(found.anchors, FilterRole::Anchor, nodes, id);
    entries_have_the_role(producers, FilterRole::Producer, nodes, id);
}

proof fn entries_have_the_role(
    entries: Map<u64, DiscoveredDynamicFilter>,
    role: FilterRole,
    nodes: Seq<PlanView>,
    id: u64,
)
    requires
        are_first_entries(entries, role, nodes),
    ensures
        entries.contains_key(id) <==> exists|k: int, slot: int|
            0 <= k < nodes.len() && #[trigger] has_role(role, nodes[k], slot, id),
{
    if entries.contains_key(id) {
        let (k, slot) = choose|k: int, slot: int| #[trigger]
            is_first(role, nodes, k, slot, id) && entries[id] == due_entry(
                role,
                nodes[k],
                slot,
                id,
            );
        assert(has_role(role, nodes[k], slot, id));
    }
}

} // verus!

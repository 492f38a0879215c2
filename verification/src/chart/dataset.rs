//! The graph of pacticants and their interactions.
//!
//! Nodes are the pacticants in the order they are first met, numbered from
//! one. Every recorded interaction is a link from its consumer to its
//! provider; links are ordered by source node, and links of one source keep
//! the order they were met in.

use crate::broker_models::contract::{records_of, Call, Contract, Interaction, Record};
use crate::chart::registry::{
    lemma_pacticants_complete, lemma_pacticants_distinct, node_id, pacticants, takes_part, Registry,
};
use crate::text::{to_uppercase, uppercase_of};
use vstd::prelude::*;
use vstd::string::*;

verus! {

/// What a [`Node`] stands for.
pub struct NodeView {
    pub index: nat,
    pub name: Seq<char>,
    pub group: Option<Seq<char>>,
}

/// What a [`Link`] stands for.
pub struct LinkView {
    pub source: nat,
    pub target: nat,
    pub label: Seq<char>,
}

/// What a [`Graph`] stands for.
pub struct GraphView {
    pub nodes: Seq<NodeView>,
    pub links: Seq<LinkView>,
}

/// A pacticant.
#[derive(Debug, Clone)]
pub struct Node {
    index: usize,
    name: String,
    group: Option<String>,
}

/// One interaction between two pacticants.
#[derive(Debug)]
pub struct Link {
    source: usize,
    target: usize,
    label: String,
}

/// The pacticants and the interactions between them.
#[derive(Debug)]
pub struct Graph {
    nodes: Vec<Node>,
    links: Vec<Link>,
}

impl View for Node {
    type V = NodeView;

    closed spec fn view(&self) -> NodeView {
        NodeView {
            index: self.index as nat,
            name: self.name@,
            group: match self.group {
                Some(group) => Some(group@),
                None => None,
            },
        }
    }
}

impl View for Link {
    type V = LinkView;

    closed spec fn view(&self) -> LinkView {
        LinkView { source: self.source as nat, target: self.target as nat, label: self.label@ }
    }
}

impl View for Graph {
    type V = GraphView;

    closed spec fn view(&self) -> GraphView {
        GraphView { nodes: node_views(self.nodes@), links: link_views(self.links@) }
    }
}

/// The views of a run of nodes.
pub open spec fn node_views(nodes: Seq<Node>) -> Seq<NodeView> {
    nodes.map_values(|node: Node| node@)
}

/// The views of a run of links.
pub open spec fn link_views(links: Seq<Link>) -> Seq<LinkView> {
    links.map_values(|link: Link| link@)
}

impl Node {
    fn new(index: usize, name: String, group: Option<String>) -> (node: Self)
        ensures
            node@ == (NodeView {
                index: index as nat,
                name: name@,
                group: match group {
                    Some(group) => Some(group@),
                    None => None,
                },
            }),
    {
        Self { index, name, group }
    }

    /// The node's number, counted from one.
    pub fn index(&self) -> (index: usize)
        ensures
            index == self@.index,
    {
        self.index
    }

    /// The pacticant's name.
    pub fn name(&self) -> (name: &String)
        ensures
            name@ == self@.name,
    {
        &self.name
    }

    /// The group the pacticant belongs to, if it has one.
    pub fn group(&self) -> (group: &Option<String>)
        ensures
            match *group {
                Some(group) => self@.group == Some(group@),
                None => self@.group is None,
            },
    {
        &self.group
    }
}

impl Link {
    pub fn new(source: usize, target: usize, label: String) -> (link: Self)
        ensures
            link@ == (LinkView { source: source as nat, target: target as nat, label: label@ }),
    {
        Self { source, target, label }
    }

    /// The number of the consumer's node.
    pub fn source(&self) -> (source: usize)
        ensures
            source == self@.source,
    {
        self.source
    }

    /// The number of the provider's node.
    pub fn target(&self) -> (target: usize)
        ensures
            target == self@.target,
    {
        self.target
    }

    /// The interaction's method, in upper case, and its path.
    pub fn label(&self) -> (label: &String)
        ensures
            label@ == self@.label,
    {
        &self.label
    }
}

/// The label of a call: its method in upper case, a space, and its path.
pub open spec fn label_of(call: Call) -> Seq<char> {
    uppercase_of(call.method) + seq![' '] + call.path
}

/// One node per name, numbered from one in table order, without a group.
pub open spec fn nodes_of(names: Seq<Seq<char>>) -> Seq<NodeView> {
    Seq::new(
        names.len(),
        |i: int| NodeView { index: (i + 1) as nat, name: names[i], group: None },
    )
}

/// The links of one record: one per call, in call order, all from the
/// consumer's node to the provider's node.
pub open spec fn links_of_record(names: Seq<Seq<char>>, record: Record) -> Seq<LinkView> {
    Seq::new(
        record.calls.len(),
        |k: int|
            LinkView {
                source: node_id(names, record.consumer),
                target: node_id(names, record.provider),
                label: label_of(record.calls[k]),
            },
    )
}

/// The links of all records in the order they are met.
pub open spec fn links_met(names: Seq<Seq<char>>, records: Seq<Record>) -> Seq<LinkView>
    decreases records.len(),
{
    if records.len() == 0 {
        Seq::empty()
    } else {
        links_met(names, records.drop_last()) + links_of_record(names, records.last())
    }
}

/// Where a link from `source` goes in `links`: behind every link whose source
/// is not greater.
pub open spec fn insertion_point(links: Seq<LinkView>, source: nat) -> int
    decreases links.len(),
{
    if links.len() > 0 && links.last().source > source {
        insertion_point(links.drop_last(), source)
    } else {
        links.len() as int
    }
}

/// `links` with `link` put in at its insertion point.
pub open spec fn place(links: Seq<LinkView>, link: LinkView) -> Seq<LinkView> {
    links.insert(insertion_point(links, link.source), link)
}

/// `links` ordered by source, links of equal source in their given order.
pub open spec fn sort_by_source(links: Seq<LinkView>) -> Seq<LinkView>
    decreases links.len(),
{
    if links.len() == 0 {
        Seq::empty()
    } else {
        place(sort_by_source(links.drop_last()), links.last())
    }
}

/// The graph that a run of records folds into.
pub open spec fn graph_of(records: Seq<Record>) -> GraphView {
    let names = pacticants(records);
    GraphView { nodes: nodes_of(names), links: sort_by_source(links_met(names, records)) }
}

/// Whether the links are in ascending order of source.
pub open spec fn sorted_by_source(links: Seq<LinkView>) -> bool {
    forall|i: int, j: int| 0 <= i <= j < links.len() ==> links[i].source <= links[j].source
}

/// The links that leave node `source`, in the order they stand in `links`.
pub open spec fn links_from(links: Seq<LinkView>, source: nat) -> Seq<LinkView> {
    links.filter(|link: LinkView| link.source == source)
}

/// The number of calls in all records together.
pub open spec fn total_calls(records: Seq<Record>) -> nat
    decreases records.len(),
{
    if records.len() == 0 {
        0
    } else {
        total_calls(records.drop_last()) + records.last().calls.len()
    }
}

/// The insertion point lies within the links, directly behind a link whose
/// source is not greater, and only links whose source is greater follow it.
pub proof fn lemma_insertion_point(links: Seq<LinkView>, source: nat)
    ensures
        0 <= insertion_point(links, source) <= links.len(),
        forall|j: int|
            insertion_point(links, source) <= j < links.len() ==> links[j].source > source,
        insertion_point(links, source) > 0 ==> links[insertion_point(links, source) - 1].source
            <= source,
    decreases links.len(),
{
    if links.len() > 0 && links.last().source > source {
        lemma_insertion_point(links.drop_last(), source);
        assert forall|j: int|
            insertion_point(links, source) <= j < links.len() implies links[j].source
            > source by {
            if j < links.len() - 1 {
                assert(links.drop_last()[j] == links[j]);
            }
        }
    }
}

/// Placing a link into sorted links leaves them sorted.
pub proof fn lemma_place_sorted(links: Seq<LinkView>, link: LinkView)
    requires
        sorted_by_source(links),
    ensures
        sorted_by_source(place(links, link)),
        place(links, link).len() == links.len() + 1,
        place(links, link).to_multiset() == links.to_multiset().insert(link),
{
    let at = insertion_point(links, link.source);
    lemma_insertion_point(links, link.source);
    links.insert_ensures(at, link);
    vstd::seq_lib::to_multiset_insert(links, at, link);
    let placed = place(links, link);
    assert forall|i: int, j: int| 0 <= i <= j < placed.len() implies placed[i].source
        <= placed[j].source by {
        if i < at {
            assert(placed[i] == links[i]);
            assert(links[i].source <= links[at - 1].source);
        } else if i > at {
            assert(placed[i] == links[i - 1]);
        }
        if j < at {
            assert(placed[j] == links[j]);
        } else if j > at {
            assert(placed[j] == links[j - 1]);
        }
    }
}

/// Placing a link appends it to the links of its own source and leaves the
/// links of every other source as they were.
pub proof fn lemma_place_links_from(links: Seq<LinkView>, link: LinkView, source: nat)
    requires
        sorted_by_source(links),
    ensures
        links_from(place(links, link), source) == if link.source == source {
            links_from(links, source).push(link)
        } else {
            links_from(links, source)
        },
{
    let at = insertion_point(links, link.source);
    let leaves = |l: LinkView| l.source == source;
    lemma_insertion_point(links, link.source);
    let front = links.subrange(0, at);
    let back = links.subrange(at, links.len() as int);
    assert(links =~= front + back);
    assert(place(links, link) =~= front.push(link) + back);
    Seq::filter_distributes_over_add(front, back, leaves);
    Seq::filter_distributes_over_add(front.push(link), back, leaves);
    front.lemma_filter_push(link, leaves);
    if link.source == source {
        assert(back.all(|l: LinkView| !leaves(l))) by {
            assert forall|j: int| 0 <= j < back.len() implies !leaves(#[trigger] back[j]) by {
                assert(back[j] == links[at + j]);
            }
        }
        back.lemma_all_neg_filter_empty(leaves);
        assert(back.filter(leaves) =~= Seq::empty());
        assert(front.filter(leaves) + back.filter(leaves) =~= front.filter(leaves));
        assert(front.filter(leaves).push(link) + back.filter(leaves) =~= front.filter(leaves).push(
            link,
        ));
    }
}

/// Sorting puts the links in ascending order of source.
pub proof fn lemma_sort_is_sorted(links: Seq<LinkView>)
    ensures
        sorted_by_source(sort_by_source(links)),
    decreases links.len(),
{
    if links.len() > 0 {
        lemma_sort_is_sorted(links.drop_last());
        lemma_place_sorted(sort_by_source(links.drop_last()), links.last());
    }
}

/// Sorting neither adds, drops nor repeats a link.
pub proof fn lemma_sort_permutes(links: Seq<LinkView>)
    ensures
        sort_by_source(links).to_multiset() == links.to_multiset(),
        sort_by_source(links).len() == links.len(),
    decreases links.len(),
{
    if links.len() == 0 {
        assert(links =~= Seq::<LinkView>::empty());
    } else {
        let rest = links.drop_last();
        lemma_sort_permutes(rest);
        lemma_sort_is_sorted(rest);
        lemma_place_sorted(sort_by_source(rest), links.last());
        assert(rest.push(links.last()) =~= links);
        vstd::seq_lib::to_multiset_build(rest, links.last());
        assert(links.to_multiset() =~= rest.to_multiset().insert(links.last()));
    }
}

/// Sorting is stable: the links that leave one node keep their order.
pub proof fn lemma_sort_is_stable(links: Seq<LinkView>, source: nat)
    ensures
        links_from(sort_by_source(links), source) == links_from(links, source),
    decreases links.len(),
{
    let leaves = |l: LinkView| l.source == source;
    if links.len() == 0 {
    } else {
        let rest = links.drop_last();
        lemma_sort_is_stable(rest, source);
        lemma_sort_is_sorted(rest);
        lemma_place_links_from(sort_by_source(rest), links.last(), source);
        assert(rest.push(links.last()) =~= links);
        rest.lemma_filter_push(links.last(), leaves);
    }
}

/// The last of the links is the last of those that leave its source, and
/// without it the links of every other source are as before.
proof fn lemma_links_from_last(links: Seq<LinkView>, source: nat)
    requires
        links.len() > 0,
    ensures
        links_from(links, source) == if links.last().source == source {
            links_from(links.drop_last(), source).push(links.last())
        } else {
            links_from(links.drop_last(), source)
        },
{
    let leaves = |l: LinkView| l.source == source;
    assert(links.drop_last().push(links.last()) =~= links);
    links.drop_last().lemma_filter_push(links.last(), leaves);
}

/// Among the links that leave `source` there is one only if `links` holds
/// one.
proof fn lemma_links_from_witness(links: Seq<LinkView>, source: nat) -> (at: int)
    requires
        links_from(links, source).len() > 0,
    ensures
        0 <= at < links.len(),
        links[at].source == source,
    decreases links.len(),
{
    if links.len() == 0 {
        assert(links.filter(|l: LinkView| l.source == source).len() == 0) by {
            reveal(Seq::filter);
        }
        0
    } else {
        lemma_links_from_last(links, source);
        if links.last().source == source {
            links.len() - 1
        } else {
            lemma_links_from_witness(links.drop_last(), source)
        }
    }
}

/// There is one way only to order links by source and keep the links of
/// each source in their order: two runs of links that are both sorted and
/// agree on the links of every source are the same run.
pub proof fn lemma_stable_order_unique(first: Seq<LinkView>, second: Seq<LinkView>)
    requires
        sorted_by_source(first),
        sorted_by_source(second),
        forall|source: nat| links_from(first, source) == links_from(second, source),
    ensures
        first == second,
    decreases first.len() + second.len(),
{
    if first.len() == 0 || second.len() == 0 {
        if first.len() > 0 {
            lemma_links_from_last(first, first.last().source);
            let at = lemma_links_from_witness(second, first.last().source);
        }
        if second.len() > 0 {
            lemma_links_from_last(second, second.last().source);
            let at = lemma_links_from_witness(first, second.last().source);
        }
        assert(first =~= second);
    } else {
        let high = first.last().source;
        let other = second.last().source;
        lemma_links_from_last(first, high);
        lemma_links_from_last(second, other);
        let in_second = lemma_links_from_witness(second, high);
        let in_first = lemma_links_from_witness(first, other);
        assert(high == other);
        assert(links_from(first, high).last() == first.last());
        assert(links_from(second, high).last() == second.last());
        assert forall|source: nat|
            links_from(first.drop_last(), source) == links_from(second.drop_last(), source) by {
            lemma_links_from_last(first, source);
            lemma_links_from_last(second, source);
            if source == high {
                assert(links_from(first.drop_last(), source) =~= links_from(
                    first,
                    source,
                ).drop_last());
                assert(links_from(second.drop_last(), source) =~= links_from(
                    second,
                    source,
                ).drop_last());
            }
        }
        lemma_stable_order_unique(first.drop_last(), second.drop_last());
        assert(first =~= first.drop_last().push(first.last()));
        assert(second =~= second.drop_last().push(second.last()));
    }
}

/// The links of a graph are the links met, ordered by source, those of one
/// source in the order they were met; and they are the only run of links of
/// which that can be said.
pub proof fn lemma_links_sorted_and_stable(records: Seq<Record>, links: Seq<LinkView>)
    ensures
        sorted_by_source(graph_of(records).links),
        forall|source: nat|
            links_from(graph_of(records).links, source) == links_from(
                links_met(pacticants(records), records),
                source,
            ),
        sorted_by_source(links) && (forall|source: nat|
            links_from(links, source) == links_from(
                links_met(pacticants(records), records),
                source,
            )) ==> links == graph_of(records).links,
{
    let met = links_met(pacticants(records), records);
    lemma_sort_is_sorted(met);
    assert forall|source: nat| links_from(graph_of(records).links, source) == links_from(
        met,
        source,
    ) by {
        lemma_sort_is_stable(met, source);
    }
    if sorted_by_source(links) && (forall|source: nat|
        links_from(links, source) == links_from(met, source)) {
        lemma_stable_order_unique(links, graph_of(records).links);
    }
}

/// The links met number as many as the calls recorded.
pub proof fn lemma_links_met_len(names: Seq<Seq<char>>, records: Seq<Record>)
    ensures
        links_met(names, records).len() == total_calls(records),
    decreases records.len(),
{
    if records.len() > 0 {
        lemma_links_met_len(names, records.drop_last());
    }
}

/// A graph has one link for every recorded call, and no other.
pub proof fn lemma_link_count(records: Seq<Record>)
    ensures
        graph_of(records).links.len() == total_calls(records),
{
    let names = pacticants(records);
    lemma_links_met_len(names, records);
    lemma_sort_permutes(links_met(names, records));
}

/// The nodes of a graph are numbered one, two, three and so on without a
/// gap, no two nodes share a name, and there is one node for every name that
/// takes part in a record.
pub proof fn lemma_nodes_dense(records: Seq<Record>)
    ensures
        graph_of(records).nodes.len() == pacticants(records).len(),
        forall|k: int|
            0 <= k < graph_of(records).nodes.len() ==> (#[trigger] graph_of(
                records,
            ).nodes[k]).index == k + 1,
        forall|k: int, l: int|
            0 <= k < l < graph_of(records).nodes.len() ==> (#[trigger] graph_of(
                records,
            ).nodes[k]).name != (#[trigger] graph_of(records).nodes[l]).name,
        forall|name: Seq<char>| #[trigger]
            takes_part(records, name) <==> exists|k: int|
                0 <= k < graph_of(records).nodes.len() && (#[trigger] graph_of(
                    records,
                ).nodes[k]).name == name,
{
    let names = pacticants(records);
    let nodes = graph_of(records).nodes;
    lemma_pacticants_distinct(records);
    lemma_pacticants_complete(records);
    assert forall|name: Seq<char>| #[trigger]
        takes_part(records, name) <==> exists|k: int|
            0 <= k < nodes.len() && (#[trigger] nodes[k]).name == name by {
        if takes_part(records, name) {
            assert(names.contains(name));
            let k = choose|k: int| 0 <= k < names.len() && names[k] == name;
            assert(nodes[k].name == name);
        }
        if exists|k: int| 0 <= k < nodes.len() && (#[trigger] nodes[k]).name == name {
            let k = choose|k: int| 0 <= k < nodes.len() && (#[trigger] nodes[k]).name == name;
            assert(names[k] == name);
            assert(names.contains(name));
        }
    }
}

/// The names of the nodes, in node order.
pub open spec fn node_names(nodes: Seq<NodeView>) -> Seq<Seq<char>> {
    nodes.map_values(|node: NodeView| node.name)
}

/// A graph has as many nodes as there are distinct names in the records.
pub proof fn lemma_node_count(records: Seq<Record>)
    ensures
        Set::new(|name: Seq<char>| takes_part(records, name)).finite(),
        graph_of(records).nodes.len() == Set::new(
            |name: Seq<char>| takes_part(records, name),
        ).len(),
{
    let names = pacticants(records);
    lemma_pacticants_distinct(records);
    lemma_pacticants_complete(records);
    names.unique_seq_to_set();
    assert(names.to_set() =~= Set::new(|name: Seq<char>| takes_part(records, name)));
}

/// Which names have a node depends on which records are read, not on the
/// order they are read in; only the numbers given to the names may differ.
pub proof fn lemma_node_set_ignores_order(first: Seq<Record>, second: Seq<Record>)
    requires
        first.to_multiset() == second.to_multiset(),
    ensures
        node_names(graph_of(first).nodes).to_set() == node_names(graph_of(second).nodes).to_set(),
        graph_of(first).nodes.len() == graph_of(second).nodes.len(),
        graph_of(first).links.len() == graph_of(second).links.len(),
{
    crate::chart::registry::lemma_pacticant_set_ignores_order(first, second);
    assert(node_names(graph_of(first).nodes) =~= pacticants(first));
    assert(node_names(graph_of(second).nodes) =~= pacticants(second));
    lemma_link_count(first);
    lemma_link_count(second);
    lemma_total_calls_ignores_order(first, second);
}

/// The number of calls in a run of records, like any sum, does not depend on
/// the order of the records.
pub proof fn lemma_total_calls_ignores_order(first: Seq<Record>, second: Seq<Record>)
    requires
        first.to_multiset() == second.to_multiset(),
    ensures
        total_calls(first) == total_calls(second),
    decreases first.len(),
{
    vstd::seq_lib::to_multiset_len(first);
    vstd::seq_lib::to_multiset_len(second);
    if first.len() == 0 {
    } else {
        let last = first.last();
        vstd::seq_lib::to_multiset_contains(first, last);
        vstd::seq_lib::to_multiset_contains(second, last);
        assert(first.contains(last)) by {
            assert(first[first.len() - 1] == last);
        }
        let at = choose|at: int| 0 <= at < second.len() && second[at] == last;
        let rest = second.remove(at);
        vstd::seq_lib::to_multiset_remove(second, at);
        assert(first.drop_last() =~= first.remove(first.len() - 1));
        vstd::seq_lib::to_multiset_remove(first, first.len() - 1);
        lemma_total_calls_ignores_order(first.drop_last(), rest);
        lemma_total_calls_remove(second, at);
    }
}

/// Taking a record out takes its calls out of the total.
pub proof fn lemma_total_calls_remove(records: Seq<Record>, at: int)
    requires
        0 <= at < records.len(),
    ensures
        total_calls(records) == total_calls(records.remove(at)) + records[at].calls.len(),
    decreases records.len(),
{
    if at == records.len() - 1 {
        assert(records.remove(at) =~= records.drop_last());
    } else {
        lemma_total_calls_remove(records.drop_last(), at);
        assert(records.remove(at).drop_last() =~= records.drop_last().remove(at));
        assert(records.remove(at).last() == records.last());
    }
}

/// A pacticant that consumes in one record and provides in another is one
/// node: the links of the first record leave the node that the links of the
/// second record reach.
pub proof fn lemma_shared_name_shares_node(
    records: Seq<Record>,
    consuming: int,
    providing: int,
    k: int,
    l: int,
)
    requires
        0 <= consuming < records.len(),
        0 <= providing < records.len(),
        records[consuming].consumer == records[providing].provider,
        0 <= k < records[consuming].calls.len(),
        0 <= l < records[providing].calls.len(),
    ensures
        ({
            let graph = graph_of(records);
            let names = pacticants(records);
            let leaving = links_of_record(names, records[consuming])[k];
            let reaching = links_of_record(names, records[providing])[l];
            &&& graph.links.contains(leaving)
            &&& graph.links.contains(reaching)
            &&& leaving.source == reaching.target
            &&& graph.nodes[leaving.source - 1].name == records[consuming].consumer
        }),
{
    lemma_links_join_named_nodes(records, consuming, k);
    lemma_links_join_named_nodes(records, providing, l);
}

/// A name resolves to one node wherever it occurs: all links of a record
/// leave the node that carries the consumer's name and reach the node that
/// carries the provider's name, so a pacticant that consumes in one record
/// and provides in another is the same node in both.
pub proof fn lemma_links_join_named_nodes(records: Seq<Record>, i: int, k: int)
    requires
        0 <= i < records.len(),
        0 <= k < records[i].calls.len(),
    ensures
        ({
            let graph = graph_of(records);
            let link = links_of_record(pacticants(records), records[i])[k];
            &&& graph.links.contains(link)
            &&& 1 <= link.source <= graph.nodes.len()
            &&& 1 <= link.target <= graph.nodes.len()
            &&& graph.nodes[link.source - 1].name == records[i].consumer
            &&& graph.nodes[link.target - 1].name == records[i].provider
            &&& link.source == node_id(pacticants(records), records[i].consumer)
            &&& link.target == node_id(pacticants(records), records[i].provider)
        }),
{
    let names = pacticants(records);
    let graph = graph_of(records);
    let link = links_of_record(names, records[i])[k];
    lemma_pacticants_distinct(records);
    lemma_pacticants_complete(records);
    assert(crate::chart::registry::mentions(records[i], records[i].consumer));
    assert(crate::chart::registry::mentions(records[i], records[i].provider));
    assert(takes_part(records, records[i].consumer));
    assert(takes_part(records, records[i].provider));
    assert(names.contains(records[i].consumer));
    assert(names.contains(records[i].provider));
    lemma_links_met_contains(names, records, i, k);
    lemma_sort_permutes(links_met(names, records));
    vstd::seq_lib::to_multiset_contains(links_met(names, records), link);
    vstd::seq_lib::to_multiset_contains(graph.links, link);
}

/// Every link of every record is among the links met.
pub proof fn lemma_links_met_contains(
    names: Seq<Seq<char>>,
    records: Seq<Record>,
    i: int,
    k: int,
)
    requires
        0 <= i < records.len(),
        0 <= k < records[i].calls.len(),
    ensures
        links_met(names, records).contains(links_of_record(names, records[i])[k]),
    decreases records.len(),
{
    let rest = links_met(names, records.drop_last());
    let last = links_of_record(names, records.last());
    let link = links_of_record(names, records[i])[k];
    if i == records.len() - 1 {
        assert((rest + last)[rest.len() + k] == link);
    } else {
        lemma_links_met_contains(names, records.drop_last(), i, k);
        let at = choose|at: int| 0 <= at < rest.len() && rest[at] == link;
        assert((rest + last)[at] == link);
    }
}

/// The label of a link, from the upper-case method and the path.
pub fn link_label(method: String, path: &str) -> (label: String)
    ensures
        label@ == method@ + seq![' '] + path@,
{
    proof {
        reveal_strlit(" ");
        assert(" "@ =~= seq![' ']);
    }
    method.concat(" ").concat(path)
}


/// Puts `link` into `links` behind every link whose source is not greater.
fn insert_by_source(links: &mut Vec<Link>, link: Link)
    ensures
        link_views(final(links)@) == place(link_views(old(links)@), link@),
{
    let ghost before = link_views(links@);
    let mut at: usize = links.len();
    proof {
        assert(before.take(at as int) =~= before);
    }
    while at > 0 && links[at - 1].source > link.source
        invariant
            at <= links.len(),
            before == link_views(links@),
            insertion_point(before, link@.source) == insertion_point(
                before.take(at as int),
                link@.source,
            ),
        decreases at,
    {
        proof {
            assert(before.take(at as int).last() == links@[at - 1]@);
            assert(before.take(at as int).drop_last() =~= before.take(at - 1));
        }
        at -= 1;
    }
    proof {
        if at > 0 {
            assert(before.take(at as int).last() == links@[at - 1]@);
        }
        assert(insertion_point(before, link@.source) == at);
        assert(link_views(links@.insert(at as int, link)) =~= before.insert(at as int, link@));
    }
    links.insert(at, link);
}

impl Graph {
    /// Folds the contracts into a graph.
    ///
    /// Contracts are read in the order given. Of each contract the provider
    /// is met first, then the consumer; a name not met before becomes the
    /// next node. Each interaction becomes a link from the consumer's node to
    /// the provider's, labelled with the method in upper case, a space and
    /// the path. A contract without interactions still contributes its nodes.
    pub fn build(contracts: &[Contract]) -> (graph: Self)
        ensures
            graph@ == graph_of(records_of(contracts@)),
    {
        let ghost records = records_of(contracts@);
        let ghost names = pacticants(records);
        let mut registry = Registry::new();
        let mut links: Vec<Link> = Vec::new();
        let mut i: usize = 0;
        proof {
            assert(records.take(0) =~= Seq::<Record>::empty());
            assert(link_views(links@) =~= Seq::<LinkView>::empty());
        }
        while i < contracts.len()
            invariant
                i <= contracts.len(),
                records == records_of(contracts@),
                names == pacticants(records),
                registry.wf(),
                registry@ == pacticants(records.take(i as int)),
                link_views(links@) == sort_by_source(links_met(names, records.take(i as int))),
            decreases contracts.len() - i,
        {
            let contract = &contracts[i];
            let ghost record = records[i as int];
            let ghost met = links_met(names, records.take(i as int));
            let ghost early = registry@;
            let provider = registry.resolve(&contract.provider.name);
            let ghost middle = registry@;
            let consumer = registry.resolve(&contract.consumer.name);
            proof {
                assert(record == contract@);
                assert(records.take(i + 1).drop_last() =~= records.take(i as int));
                assert(records.take(i + 1).last() == record);
                assert(registry@ == pacticants(records.take(i + 1)));
                lemma_pacticants_distinct(records.take(i as int));
                crate::chart::registry::lemma_observe(early, record.provider);
                crate::chart::registry::lemma_observe(middle, record.consumer);
                crate::chart::registry::lemma_pacticants_grow(records, i + 1);
                assert(middle.contains(record.provider));
                assert(registry@.contains(record.provider));
                assert(registry@.contains(record.consumer));
                assert(consumer == node_id(names, record.consumer));
                assert(provider == node_id(names, record.provider));
                assert(links_of_record(names, record).take(0) =~= Seq::<LinkView>::empty());
                assert(met + links_of_record(names, record).take(0) =~= met);
            }
            match &contract.interactions {
                Some(interactions) => {
                    let mut k: usize = 0;
                    while k < interactions.len()
                        invariant
                            k <= interactions.len(),
                            record.calls == interactions@.map_values(|i: Interaction| i@),
                            consumer == node_id(names, record.consumer),
                            provider == node_id(names, record.provider),
                            link_views(links@) == sort_by_source(
                                met + links_of_record(names, record).take(k as int),
                            ),
                        decreases interactions.len() - k,
                    {
                        let request = &interactions[k].request;
                        let label = link_label(to_uppercase(request.method.as_str()), request.path.as_str());
                        let link = Link::new(consumer, provider, label);
                        proof {
                            let of_record = links_of_record(names, record);
                            let so_far = met + of_record.take(k as int);
                            let next = met + of_record.take(k + 1);
                            assert(record.calls[k as int] == interactions@[k as int]@);
                            assert(link@ == of_record[k as int]);
                            assert(next.drop_last() =~= so_far);
                            assert(next.last() == of_record[k as int]);
                        }
                        insert_by_source(&mut links, link);
                        k += 1;
                    }
                    proof {
                        assert(links_of_record(names, record).take(k as int) =~= links_of_record(
                            names,
                            record,
                        ));
                    }
                },
                None => {
                    proof {
                        assert(links_of_record(names, record) =~= Seq::<LinkView>::empty());
                        assert(met + links_of_record(names, record) =~= met);
                    }
                },
            }
            i += 1;
        }
        proof {
            assert(records.take(i as int) =~= records);
        }
        let names_met = registry.into_names();
        let count = names_met.len();
        let mut nodes: Vec<Node> = Vec::new();
        for name in met: names_met
            invariant
                met.seq().len() == count,
                met.seq().map_values(|name: String| name@) == names,
                nodes@.len() == met.index(),
                node_views(nodes@) == nodes_of(names).take(met.index() as int),
        {
            let ghost at = nodes@.len() as int;
            proof {
                assert(met.seq().map_values(|name: String| name@)[at] == name@);
            }
            let node = Node::new(nodes.len() + 1, name, None);
            proof {
                assert(node@ == nodes_of(names)[at]);
                assert(node_views(nodes@.push(node)) =~= node_views(nodes@).push(node@));
                assert(nodes_of(names).take(at).push(nodes_of(names)[at]) =~= nodes_of(names).take(
                    at + 1,
                ));
            }
            nodes.push(node);
        }
        proof {
            assert(nodes_of(names).take(nodes@.len() as int) =~= nodes_of(names));
        }
        Graph { nodes, links }
    }

    /// The nodes, in ascending order of number.
    pub fn nodes(&self) -> (nodes: &Vec<Node>)
        ensures
            node_views(nodes@) == self@.nodes,
    {
        &self.nodes
    }

    /// The links, in ascending order of source.
    pub fn links(&self) -> (links: &Vec<Link>)
        ensures
            link_views(links@) == self@.links,
    {
        &self.links
    }
}

impl<'a> From<&'a Vec<Contract>> for Graph {
    /// Folds the contracts into a graph, as [`Graph::build`] does.
    fn from(responses: &'a Vec<Contract>) -> (graph: Self)
        ensures
            graph@ == graph_of(records_of(responses@)),
    {
        Graph::build(responses.as_slice())
    }
}

/// Of a graph's vectors only the views are known, so no graph-valued spec
/// function can say what `from` returns: `from` states it in its own
/// `ensures`, over the graph's view.
impl<'a> vstd::std_specs::convert::FromSpecImpl<&'a Vec<Contract>> for Graph {
    open spec fn obeys_from_spec() -> bool {
        false
    }

    open spec fn from_spec(responses: &'a Vec<Contract>) -> Self {
        arbitrary()
    }
}

} // verus!

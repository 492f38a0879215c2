//! The services of a network and what each of them depends on.

use crate::broker_models::contract::Record;
use crate::chart::item::{Item, ItemView};
use crate::chart::registry::{
    lemma_index_of_unique, lemma_observe, lemma_pacticants_complete, lemma_pacticants_distinct,
    lemma_pacticants_grow, mentions, node_id, pacticants, takes_part, Registry,
};
use crate::models::{contract_records, Contract};
use vstd::prelude::*;

verus! {

/// The identifiers of the providers that `name` consumes from, one for every
/// record that has `name` as its consumer, in record order.
pub open spec fn depends_on(names: Seq<Seq<char>>, records: Seq<Record>, name: Seq<char>) -> Seq<
    usize,
>
    decreases records.len(),
{
    if records.len() == 0 {
        Seq::empty()
    } else {
        let earlier = depends_on(names, records.drop_last(), name);
        if records.last().consumer == name {
            earlier.push(node_id(names, records.last().provider) as usize)
        } else {
            earlier
        }
    }
}

/// One item for each of `met`, numbered from one, with what it depends on
/// according to `records`.
pub open spec fn items_for(met: Seq<Seq<char>>, names: Seq<Seq<char>>, records: Seq<Record>) -> Seq<
    ItemView,
> {
    Seq::new(
        met.len(),
        |i: int|
            ItemView {
                id: (i + 1) as usize,
                name: met[i],
                depends_on: depends_on(names, records, met[i]),
            },
    )
}

/// The services of the network that `records` describe: one item per
/// pacticant in the order they are first met, provider before consumer.
pub open spec fn services_of(records: Seq<Record>) -> Seq<ItemView> {
    items_for(pacticants(records), pacticants(records), records)
}

/// The views of a run of items.
pub open spec fn item_views(items: Seq<Item>) -> Seq<ItemView> {
    items.map_values(|item: Item| item@)
}

/// A name that consumes in none of the records depends on nothing.
proof fn lemma_depends_on_nothing(names: Seq<Seq<char>>, records: Seq<Record>, name: Seq<char>)
    requires
        !takes_part(records, name),
    ensures
        depends_on(names, records, name) == Seq::<usize>::empty(),
    decreases records.len(),
{
    if records.len() > 0 {
        let earlier = records.drop_last();
        assert(mentions(records[records.len() - 1], name) ==> takes_part(records, name));
        assert forall|i: int| 0 <= i < earlier.len() implies !mentions(
            #[trigger] earlier[i],
            name,
        ) by {
            assert(earlier[i] == records[i]);
        }
        lemma_depends_on_nothing(names, earlier, name);
    }
}

/// Lists the services of the network with what each depends on.
///
/// Contracts are read in the order given. Of each contract the provider is
/// met first, then the consumer; a name not met before gets the next
/// identifier. The consumer then depends on the provider, once for every
/// contract that says so.
pub fn create_services(contracts: &[Contract]) -> (items: Vec<Item>)
    ensures
        item_views(items@) == services_of(contract_records(contracts@)),
{
    let ghost records = contract_records(contracts@);
    let ghost names = pacticants(records);
    let mut registry = Registry::new();
    let mut items: Vec<Item> = Vec::new();
    let mut i: usize = 0;
    proof {
        assert(records.take(0) =~= Seq::<Record>::empty());
        assert(item_views(items@) =~= items_for(registry@, names, records.take(0)));
    }
    while i < contracts.len()
        invariant
            i <= contracts.len(),
            records == contract_records(contracts@),
            names == pacticants(records),
            registry.wf(),
            registry@ == pacticants(records.take(i as int)),
            item_views(items@) == items_for(registry@, names, records.take(i as int)),
        decreases contracts.len() - i,
    {
        let contract = &contracts[i];
        let ghost record = records[i as int];
        let ghost seen = records.take(i as int);
        let ghost early = registry@;
        proof {
            assert(record == contract@);
            assert(records.take(i + 1).drop_last() =~= seen);
            assert(records.take(i + 1).last() == record);
            lemma_pacticants_distinct(seen);
            lemma_pacticants_complete(seen);
            lemma_observe(early, record.provider);
            lemma_observe(
                crate::chart::registry::observe(early, record.provider),
                record.consumer,
            );
            lemma_pacticants_grow(records, i + 1);
        }
        let known = registry.len();
        let provider_name = contract.provider().to_owned();
        let provider = registry.resolve(&provider_name);
        let ghost middle = registry@;
        if registry.len() > known {
            let item = Item::new(provider, provider_name);
            proof {
                assert(!early.contains(record.provider));
                lemma_depends_on_nothing(names, seen, record.provider);
                assert(middle == early.push(record.provider));
                assert(item@ == items_for(middle, names, seen)[early.len() as int]);
                assert forall|j: int| 0 <= j < early.len() implies item_views(items@)[j]
                    == items_for(middle, names, seen)[j] by {
                    assert(item_views(items@)[j] == items_for(early, names, seen)[j]);
                }
                assert(item_views(items@.push(item)) =~= item_views(items@).push(item@));
                assert(item_views(items@).push(item@) =~= items_for(middle, names, seen));
            }
            items.push(item);
        }
        let known = registry.len();
        let consumer_name = contract.consumer().to_owned();
        let consumer = registry.resolve(&consumer_name);
        let ghost late = registry@;
        if registry.len() > known {
            let item = Item::new(consumer, consumer_name);
            proof {
                assert(!middle.contains(record.consumer));
                assert(!early.contains(record.consumer));
                lemma_depends_on_nothing(names, seen, record.consumer);
                assert(late == middle.push(record.consumer));
                assert(item@ == items_for(late, names, seen)[middle.len() as int]);
                assert forall|j: int| 0 <= j < middle.len() implies item_views(items@)[j]
                    == items_for(late, names, seen)[j] by {
                    assert(item_views(items@)[j] == items_for(middle, names, seen)[j]);
                }
                assert(item_views(items@.push(item)) =~= item_views(items@).push(item@));
                assert(item_views(items@).push(item@) =~= items_for(late, names, seen));
            }
            items.push(item);
        }
        proof {
            assert(late == pacticants(records.take(i + 1)));
            assert(late.contains(record.provider));
            assert(late.contains(record.consumer));
            assert(provider == node_id(names, record.provider));
            assert(item_views(items@) == items_for(late, names, seen));
            assert(late[consumer - 1] == record.consumer) by {
                let at = late.index_of(record.consumer);
                assert(0 <= at < late.len() && late[at] == record.consumer);
            }
            assert(item_views(items@).len() == items@.len());
            assert(items@.len() == late.len());
        }
        let updated = items[consumer - 1].add_depends(provider);
        let ghost before = items@;
        items.set(consumer - 1, updated);
        proof {
            let next = records.take(i + 1);
            assert(next.drop_last() =~= seen);
            assert(next.last() == record);
            assert(items@.len() == late.len());
            assert forall|j: int| 0 <= j < late.len() implies item_views(items@)[j] == items_for(
                late,
                names,
                next,
            )[j] by {
                assert(item_views(before)[j] == items_for(late, names, seen)[j]);
                assert(depends_on(names, next, late[j]) == if record.consumer == late[j] {
                    depends_on(names, seen, late[j]).push(provider)
                } else {
                    depends_on(names, seen, late[j])
                });
                if j == consumer - 1 {
                    assert(items@[j] == updated);
                } else {
                    assert(items@[j] == before[j]);
                    assert(late[j] != record.consumer);
                }
            }
            assert(item_views(items@) =~= items_for(late, names, next));
        }
        i += 1;
    }
    proof {
        assert(records.take(i as int) =~= records);
    }
    items
}

} // verus!

//! The table of pacticant names, in the order they are first met.
//!
//! A name's identifier is its position in the table counted from one. It is
//! assigned when the name is met for the first time and never changes.

use crate::broker_models::contract::Record;
use vstd::prelude::*;

verus! {

/// The table after meeting `name`: unchanged if the name is known, otherwise
/// with the name appended.
pub open spec fn observe(names: Seq<Seq<char>>, name: Seq<char>) -> Seq<Seq<char>> {
    if names.contains(name) {
        names
    } else {
        names.push(name)
    }
}

/// The names met while reading `records` front to back; within a record the
/// provider is met before the consumer.
pub open spec fn pacticants(records: Seq<Record>) -> Seq<Seq<char>>
    decreases records.len(),
{
    if records.len() == 0 {
        Seq::empty()
    } else {
        let last = records.last();
        observe(observe(pacticants(records.drop_last()), last.provider), last.consumer)
    }
}

/// The identifier of `name` in a table that holds it.
pub open spec fn node_id(names: Seq<Seq<char>>, name: Seq<char>) -> nat {
    (names.index_of(name) + 1) as nat
}

/// Whether `record` names `name` as its consumer or its provider.
pub open spec fn mentions(record: Record, name: Seq<char>) -> bool {
    record.consumer == name || record.provider == name
}

/// Whether some record names `name` as its consumer or its provider.
pub open spec fn takes_part(records: Seq<Record>, name: Seq<char>) -> bool {
    exists|i: int| 0 <= i < records.len() && mentions(#[trigger] records[i], name)
}

/// In a table without repetitions a name is found where it stands.
pub proof fn lemma_index_of_unique(names: Seq<Seq<char>>, i: int)
    requires
        names.no_duplicates(),
        0 <= i < names.len(),
    ensures
        names.index_of(names[i]) == i,
        node_id(names, names[i]) == i + 1,
{
    let j = names.index_of(names[i]);
    assert(0 <= j < names.len() && names[j] == names[i]);
}

/// Meeting a name keeps the table free of repetitions, keeps every
/// identifier already assigned, and leaves the name in the table.
pub proof fn lemma_observe(names: Seq<Seq<char>>, name: Seq<char>)
    requires
        names.no_duplicates(),
    ensures
        observe(names, name).no_duplicates(),
        observe(names, name).contains(name),
        names.is_prefix_of(observe(names, name)),
        forall|other: Seq<char>| #[trigger]
            names.contains(other) ==> observe(names, name).contains(other) && node_id(
                observe(names, name),
                other,
            ) == node_id(names, other),
        forall|other: Seq<char>| #[trigger]
            observe(names, name).contains(other) ==> names.contains(other) || other == name,
{
    let after = observe(names, name);
    if names.contains(name) {
    } else {
        assert forall|i: int, j: int|
            0 <= i < after.len() && 0 <= j < after.len() && i != j implies after[i] != after[j] by {
            if i == names.len() {
                assert(names[j] == after[j]);
                assert(names.contains(after[j]));
            } else if j == names.len() {
                assert(names[i] == after[i]);
                assert(names.contains(after[i]));
            } else {
                assert(names[i] == after[i] && names[j] == after[j]);
            }
        }
        assert(after[names.len() as int] == name);
    }
    assert forall|other: Seq<char>| #[trigger] names.contains(other) implies after.contains(other)
        && node_id(after, other) == node_id(names, other) by {
        let i = choose|i: int| 0 <= i < names.len() && names[i] == other;
        assert(after[i] == other);
        lemma_index_of_unique(names, i);
        lemma_index_of_unique(after, i);
    }
    assert forall|other: Seq<char>| #[trigger] after.contains(other) implies names.contains(other)
        || other == name by {
        let i = choose|i: int| 0 <= i < after.len() && after[i] == other;
        if i < names.len() {
            assert(names[i] == other);
        }
    }
}

/// No name stands twice in the table, whatever the records.
pub proof fn lemma_pacticants_distinct(records: Seq<Record>)
    ensures
        pacticants(records).no_duplicates(),
    decreases records.len(),
{
    if records.len() > 0 {
        let before = pacticants(records.drop_last());
        lemma_pacticants_distinct(records.drop_last());
        lemma_observe(before, records.last().provider);
        lemma_observe(observe(before, records.last().provider), records.last().consumer);
    }
}

/// The table holds exactly the names that take part in some record.
pub proof fn lemma_pacticants_complete(records: Seq<Record>)
    ensures
        forall|name: Seq<char>| #[trigger]
            pacticants(records).contains(name) <==> takes_part(records, name),
    decreases records.len(),
{
    let table = pacticants(records);
    if records.len() == 0 {
        assert forall|name: Seq<char>| #[trigger] table.contains(name) <==> takes_part(
            records,
            name,
        ) by {}
    } else {
        let rest = records.drop_last();
        let last = records.last();
        let before = pacticants(rest);
        let middle = observe(before, last.provider);
        lemma_pacticants_distinct(rest);
        lemma_pacticants_complete(rest);
        lemma_observe(before, last.provider);
        lemma_observe(middle, last.consumer);
        assert forall|name: Seq<char>| #[trigger] table.contains(name) <==> takes_part(
            records,
            name,
        ) by {
            if table.contains(name) {
                if before.contains(name) {
                    assert(takes_part(rest, name));
                    let i = choose|i: int| 0 <= i < rest.len() && mentions(#[trigger] rest[i], name);
                    assert(records[i] == rest[i]);
                } else {
                    assert(middle.contains(name) ==> name == last.provider);
                    assert(name == last.provider || name == last.consumer);
                    assert(records[records.len() - 1] == last);
                }
            }
            if takes_part(records, name) {
                let i = choose|i: int| 0 <= i < records.len() && mentions(#[trigger] records[i], name);
                if i < rest.len() {
                    assert(rest[i] == records[i]);
                    assert(takes_part(rest, name));
                    assert(before.contains(name));
                    assert(middle.contains(name));
                } else {
                    assert(records[i] == last);
                    if name == last.provider {
                        assert(middle.contains(name));
                    }
                }
            }
        }
    }
}

/// Reading further records only appends to the table: what was met in the
/// first `n` records keeps its place and its identifier.
pub proof fn lemma_pacticants_grow(records: Seq<Record>, n: int)
    requires
        0 <= n <= records.len(),
    ensures
        pacticants(records.take(n)).is_prefix_of(pacticants(records)),
        forall|name: Seq<char>| #[trigger]
            pacticants(records.take(n)).contains(name) ==> pacticants(records).contains(name)
                && node_id(pacticants(records), name) == node_id(
                pacticants(records.take(n)),
                name,
            ),
    decreases records.len() - n,
{
    if n == records.len() {
        assert(records.take(n) =~= records);
    } else {
        let rest = records.drop_last();
        let last = records.last();
        let before = pacticants(rest);
        let middle = observe(before, last.provider);
        assert(rest.take(n) =~= records.take(n));
        lemma_pacticants_grow(rest, n);
        lemma_pacticants_distinct(rest);
        lemma_observe(before, last.provider);
        lemma_observe(middle, last.consumer);
        let early = pacticants(records.take(n));
        assert forall|name: Seq<char>| #[trigger] early.contains(name) implies pacticants(
            records,
        ).contains(name) && node_id(pacticants(records), name) == node_id(early, name) by {
            assert(before.contains(name));
            assert(middle.contains(name));
        }
    }
}

/// Every identifier lies between one and the number of distinct names, and
/// two names share an identifier only if they are the same name.
pub proof fn lemma_node_ids_dense(records: Seq<Record>)
    ensures
        forall|name: Seq<char>| #[trigger]
            takes_part(records, name) ==> 1 <= node_id(pacticants(records), name) <= pacticants(
                records,
            ).len(),
        forall|id: int|
            1 <= id <= pacticants(records).len() ==> takes_part(
                records,
                #[trigger] pacticants(records)[id - 1],
            ) && node_id(pacticants(records), pacticants(records)[id - 1]) == id,
        forall|a: Seq<char>, b: Seq<char>|
            takes_part(records, a) && takes_part(records, b) && #[trigger] node_id(
                pacticants(records),
                a,
            ) == #[trigger] node_id(pacticants(records), b) ==> a == b,
{
    let table = pacticants(records);
    lemma_pacticants_distinct(records);
    lemma_pacticants_complete(records);
    assert forall|name: Seq<char>| #[trigger] takes_part(records, name) implies 1 <= node_id(
        table,
        name,
    ) <= table.len() by {
        assert(table.contains(name));
    }
    assert forall|id: int| 1 <= id <= table.len() implies takes_part(
        records,
        #[trigger] table[id - 1],
    ) && node_id(table, table[id - 1]) == id by {
        assert(table.contains(table[id - 1]));
        lemma_index_of_unique(table, id - 1);
    }
    assert forall|a: Seq<char>, b: Seq<char>|
        takes_part(records, a) && takes_part(records, b) && #[trigger] node_id(table, a)
            == #[trigger] node_id(table, b) implies a == b by {
        assert(table.contains(a) && table.contains(b));
    }
}

/// The set of names in the table depends on which records are read, not on
/// the order they are read in.
pub proof fn lemma_pacticant_set_ignores_order(first: Seq<Record>, second: Seq<Record>)
    requires
        first.to_multiset() == second.to_multiset(),
    ensures
        pacticants(first).to_set() == pacticants(second).to_set(),
        pacticants(first).len() == pacticants(second).len(),
{
    lemma_pacticants_complete(first);
    lemma_pacticants_complete(second);
    assert forall|name: Seq<char>| takes_part(first, name) <==> takes_part(second, name) by {
        if takes_part(first, name) {
            let i = choose|i: int| 0 <= i < first.len() && mentions(#[trigger] first[i], name);
            assert(first.contains(first[i]));
            vstd::seq_lib::to_multiset_contains(first, first[i]);
            vstd::seq_lib::to_multiset_contains(second, first[i]);
            let j = choose|j: int| 0 <= j < second.len() && second[j] == first[i];
            assert(mentions(second[j], name));
        }
        if takes_part(second, name) {
            let i = choose|i: int| 0 <= i < second.len() && mentions(#[trigger] second[i], name);
            assert(second.contains(second[i]));
            vstd::seq_lib::to_multiset_contains(second, second[i]);
            vstd::seq_lib::to_multiset_contains(first, second[i]);
            let j = choose|j: int| 0 <= j < first.len() && first[j] == second[i];
            assert(mentions(first[j], name));
        }
    }
    assert(pacticants(first).to_set() =~= pacticants(second).to_set());
    lemma_pacticants_distinct(first);
    lemma_pacticants_distinct(second);
    pacticants(first).unique_seq_to_set();
    pacticants(second).unique_seq_to_set();
}

/// The names met so far, each at the position it was first met.
pub struct Registry {
    names: Vec<String>,
}

impl View for Registry {
    type V = Seq<Seq<char>>;

    closed spec fn view(&self) -> Seq<Seq<char>> {
        self.names@.map_values(|name: String| name@)
    }
}

impl Registry {
    /// No name stands twice in the table.
    pub open spec fn wf(&self) -> bool {
        self@.no_duplicates()
    }

    /// An empty table.
    pub fn new() -> (registry: Self)
        ensures
            registry@ == Seq::<Seq<char>>::empty(),
            registry.wf(),
    {
        let registry = Registry { names: Vec::new() };
        assert(registry@ =~= Seq::<Seq<char>>::empty());
        registry
    }

    /// The number of names met.
    pub fn len(&self) -> (len: usize)
        ensures
            len == self@.len(),
    {
        self.names.len()
    }

    /// The identifier of `name`, if it was met.
    pub fn find(&self, name: &String) -> (found: Option<usize>)
        requires
            self.wf(),
        ensures
            match found {
                Some(id) => self@.contains(name@) && id == node_id(self@, name@),
                None => !self@.contains(name@),
            },
    {
        let mut i: usize = 0;
        while i < self.names.len()
            invariant
                i <= self.names.len(),
                self@.len() == self.names.len(),
                self@.no_duplicates(),
                forall|j: int| 0 <= j < i ==> self@[j] != name@,
            decreases self.names.len() - i,
        {
            if self.names[i] == *name {
                proof {
                    assert(self@[i as int] == name@);
                    lemma_index_of_unique(self@, i as int);
                }
                return Some(i + 1);
            }
            i += 1;
        }
        None
    }

    /// Meets `name` and returns its identifier, assigning the next unused one
    /// if the name is new.
    pub fn resolve(&mut self, name: &String) -> (id: usize)
        requires
            old(self).wf(),
        ensures
            final(self).wf(),
            final(self)@ == observe(old(self)@, name@),
            id == node_id(final(self)@, name@),
            1 <= id <= final(self)@.len(),
            old(self)@.contains(name@) || id == final(self)@.len(),
    {
        proof {
            lemma_observe(self@, name@);
        }
        match self.find(name) {
            Some(id) => id,
            None => {
                let ghost before = self@;
                self.names.push(name.clone());
                proof {
                    assert(self@ =~= before.push(name@));
                    lemma_index_of_unique(self@, before.len() as int);
                }
                self.names.len()
            },
        }
    }

    /// The names in the order they were met.
    pub fn into_names(self) -> (names: Vec<String>)
        ensures
            names@.map_values(|name: String| name@) == self@,
    {
        self.names
    }
}

} // verus!

//! A table of host resources keyed by their representation numbers.
//!
//! Numbers are handed out in order from 1; 0 stands for "unset" and no number is
//! handed out twice.
use std::collections::hash_map::Entry;
use std::collections::HashMap;
use vstd::prelude::*;

verus! {

broadcast use vstd::std_specs::hash::group_hash_axioms;

/// A resource table with a monotonic allocator.
pub struct Table<T> {
    items: HashMap<u32, T>,
    next: u32,
}

/// A resource table as a mathematical value.
#[verifier::ext_equal]
#[verifier::reject_recursive_types(V)]
pub struct TableView<V> {
    /// The resources by number.
    pub items: Map<u32, V>,
    /// The number that the next insertion gets.
    pub next: u32,
}

impl<V> TableView<V> {
    /// The table with nothing in it.
    pub open spec fn empty() -> TableView<V> {
        TableView { items: Map::empty(), next: 1 }
    }

    /// Whether every number in use was handed out before, and none of them is 0.
    pub open spec fn numbered(self) -> bool {
        &&& self.next >= 1
        &&& forall|rep: u32| #[trigger] self.items.contains_key(rep) ==> 1 <= rep < self.next
    }

    /// Whether `n` more insertions fit the numbers.
    pub open spec fn has_room(self, n: int) -> bool {
        self.next + n <= u32::MAX
    }

    /// The table after inserting a resource.
    pub open spec fn after_insert(self, value: V) -> TableView<V> {
        TableView { items: self.items.insert(self.next, value), next: (self.next + 1) as u32 }
    }

    /// The table with a resource replaced.
    pub open spec fn after_update(self, rep: u32, value: V) -> TableView<V> {
        TableView { items: self.items.insert(rep, value), ..self }
    }

    /// The table after removing a resource.
    pub open spec fn after_remove(self, rep: u32) -> TableView<V> {
        TableView { items: self.items.remove(rep), ..self }
    }

    /// The resource with a number, if there is one.
    pub open spec fn lookup(self, rep: u32) -> Option<V> {
        if self.items.contains_key(rep) {
            Some(self.items[rep])
        } else {
            None
        }
    }
}

impl<T: View> View for Table<T> {
    type V = TableView<T::V>;

    closed spec fn view(&self) -> TableView<T::V> {
        TableView { items: self.items@.map_values(|t: T| t@), next: self.next }
    }
}

impl<T: View> Table<T> {
    /// A table with nothing in it.
    pub fn new() -> (table: Table<T>)
        ensures
            table@ == TableView::<T::V>::empty(),
    {
        let table = Table { items: HashMap::new(), next: 1 };
        assert(table@ =~= TableView::<T::V>::empty());
        table
    }

    /// Whether `n` more insertions fit the numbers.
    pub fn fits(&self, n: u32) -> (r: bool)
        ensures
            r == self@.has_room(n as int),
    {
        n <= u32::MAX - self.next
    }

    /// Inserts a resource and returns its number.
    pub fn insert(&mut self, value: T) -> (rep: u32)
        requires
            old(self)@.has_room(1),
        ensures
            rep == old(self)@.next,
            final(self)@ == old(self)@.after_insert(value@),
    {
        let rep: u32 = self.next;
        self.next = self.next + 1;
        self.items.insert(rep, value);
        assert(self@ =~= old(self)@.after_insert(value@));
        rep
    }

    /// The resource with a number.
    pub fn get(&self, rep: u32) -> (item: Option<&T>)
        ensures
            match item {
                Some(t) => self@.lookup(rep) == Some(t@),
                None => self@.lookup(rep) is None,
            },
    {
        self.items.get(&rep)
    }

    /// The resource with a number, for change.
    pub fn get_mut(&mut self, rep: u32) -> (item: Option<&mut T>)
        ensures
            match item {
                Some(t) => {
                    &&& old(self)@.lookup(rep) == Some(t@)
                    &&& final(self)@ == old(self)@.after_update(rep, final(t)@)
                },
                None => old(self)@.lookup(rep) is None && final(self)@ == old(self)@,
            },
    {
        match self.items.entry(rep) {
            Entry::Occupied(entry) => Some(entry.into_mut()),
            Entry::Vacant(_) => None,
        }
    }

    /// Removes the resource with a number.
    pub fn remove(&mut self, rep: u32) -> (item: Option<T>)
        ensures
            final(self)@ == old(self)@.after_remove(rep),
            match item {
                Some(t) => old(self)@.lookup(rep) == Some(t@),
                None => old(self)@.lookup(rep) is None,
            },
    {
        let item = self.items.remove(&rep);
        assert(self@ =~= old(self)@.after_remove(rep));
        item
    }
}

/// An insertion gets a number that is not 0 and not in use, and every operation
/// keeps the numbering.
pub proof fn law_numbers_are_fresh<V>(t: TableView<V>, rep: u32, value: V)
    requires
        t.numbered(),
        t.has_room(1),
    ensures
        t.next != 0,
        !t.items.contains_key(t.next),
        t.after_insert(value).numbered(),
        t.after_insert(value).lookup(t.next) == Some(value),
        rep != t.next ==> t.after_insert(value).lookup(rep) == t.lookup(rep),
        t.after_remove(rep).numbered(),
        t.items.contains_key(rep) ==> t.after_update(rep, value).numbered(),
        t.lookup(0) is None,
{
}

/// A removed number is not handed out again: the allocator never goes back.
pub proof fn law_numbers_are_not_reused<V>(t: TableView<V>, rep: u32, value: V)
    requires
        t.numbered(),
        t.has_room(1),
        t.items.contains_key(rep),
    ensures
        t.after_remove(rep).lookup(rep) is None,
        t.after_remove(rep).next == t.next,
        t.after_remove(rep).after_insert(value).lookup(rep) is None,
{
}

/// Numbers are handed out in order from 1, and what is looked up is what was put
/// there.
pub proof fn law_numbers_go_up_by_one<V>(t: TableView<V>, rep: u32, value: V)
    requires
        t.has_room(1),
    ensures
        TableView::<V>::empty().next == 1,
        TableView::<V>::empty().lookup(rep) is None,
        t.after_insert(value).next == t.next + 1,
        t.after_insert(value).items == t.items.insert(t.next, value),
        t.after_update(rep, value).next == t.next,
        t.after_update(rep, value).items == t.items.insert(rep, value),
        t.after_remove(rep).items == t.items.remove(rep),
        t.items.contains_key(rep) ==> t.lookup(rep) == Some(t.items[rep]),
        !t.items.contains_key(rep) ==> t.lookup(rep) is None,
{
}

} // verus!

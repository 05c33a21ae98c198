//! Header and trailer fields: an ordered list of name and value pairs.
//!
//! Names may repeat and compare without regard to ASCII case. Values are raw
//! bytes.
use crate::api::copy_bytes;
use crate::text::{eq_ignoring_case, same_ignoring_case};
use vstd::prelude::*;

verus! {

/// A field as a mathematical value: its name and its value.
pub type FieldView = (Seq<char>, Seq<u8>);

/// Backing state of a `fields` resource.
#[derive(Debug)]
pub struct FieldsData {
    /// The fields, in order.
    pub entries: Vec<(String, Vec<u8>)>,
    /// Set once the resource has been handed out as immutable.
    pub immutable: bool,
}

/// A `fields` resource as a mathematical value.
#[verifier::ext_equal]
pub struct FieldsView {
    pub entries: Seq<FieldView>,
    pub immutable: bool,
}

/// The fields that a list of pairs holds.
pub open spec fn entry_views(entries: Seq<(String, Vec<u8>)>) -> Seq<FieldView> {
    entries.map_values(|e: (String, Vec<u8>)| (e.0@, e.1@))
}

/// The byte values of a list.
pub open spec fn value_views(values: Seq<Vec<u8>>) -> Seq<Seq<u8>> {
    values.map_values(|v: Vec<u8>| v@)
}

/// The fields whose name is `name`, ignoring case.
pub open spec fn named(entries: Seq<FieldView>, name: Seq<char>) -> Seq<FieldView> {
    entries.filter(|e: FieldView| same_ignoring_case(name, e.0))
}

/// The values of the fields named `name`, in order.
pub open spec fn values_of(entries: Seq<FieldView>, name: Seq<char>) -> Seq<Seq<u8>> {
    named(entries, name).map_values(|e: FieldView| e.1)
}

/// Whether a field named `name` exists.
pub open spec fn has_name(entries: Seq<FieldView>, name: Seq<char>) -> bool {
    exists|i: int| 0 <= i < entries.len() && same_ignoring_case(name, (#[trigger] entries[i]).0)
}

/// The fields with another name, in order.
pub open spec fn without(entries: Seq<FieldView>, name: Seq<char>) -> Seq<FieldView> {
    entries.filter(|e: FieldView| !same_ignoring_case(name, e.0))
}

/// One field named `name` for each value.
pub open spec fn fields_for(name: Seq<char>, values: Seq<Seq<u8>>) -> Seq<FieldView> {
    values.map_values(|v: Seq<u8>| (name, v))
}

impl View for FieldsData {
    type V = FieldsView;

    open spec fn view(&self) -> FieldsView {
        FieldsView { entries: entry_views(self.entries@), immutable: self.immutable }
    }
}

/// A copy of a list of fields.
pub fn copy_entries(entries: &[(String, Vec<u8>)]) -> (out: Vec<(String, Vec<u8>)>)
    ensures
        entry_views(out@) == entry_views(entries@),
{
    let mut out: Vec<(String, Vec<u8>)> = Vec::new();
    let mut i: usize = 0;
    while i < entries.len()
        invariant
            i <= entries.len(),
            out@.len() == i,
            forall|j: int|
                0 <= j < i ==> (#[trigger] out@[j]).0@ == entries@[j].0@ && out@[j].1@
                    == entries@[j].1@,
        decreases entries.len() - i,
    {
        out.push((entries[i].0.clone(), copy_bytes(entries[i].1.as_slice())));
        i += 1;
    }
    assert(entry_views(out@) =~= entry_views(entries@));
    out
}

/// Filtering one element more.
proof fn lemma_filter_step<T>(s: Seq<T>, keep: spec_fn(T) -> bool, i: int)
    requires
        0 <= i < s.len(),
    ensures
        s.take(i + 1).filter(keep) == if keep(s[i]) {
            s.take(i).filter(keep).push(s[i])
        } else {
            s.take(i).filter(keep)
        },
{
    reveal(Seq::filter);
    assert(s.take(i + 1).drop_last() =~= s.take(i));
}

proof fn lemma_filter_empty<T>(s: Seq<T>, keep: spec_fn(T) -> bool)
    requires
        s.len() == 0,
    ensures
        s.filter(keep) == Seq::<T>::empty(),
{
    reveal(Seq::filter);
}

impl FieldsData {
    /// Fields with nothing in them, open to changes.
    pub fn new() -> (f: FieldsData)
        ensures
            f@ == (FieldsView { entries: seq![], immutable: false }),
    {
        let f = FieldsData { entries: Vec::new(), immutable: false };
        assert(f@ =~= (FieldsView { entries: seq![], immutable: false }));
        f
    }

    /// Whether two names are the same name.
    pub fn matches(name: &str, candidate: &str) -> (r: bool)
        ensures
            r == same_ignoring_case(name@, candidate@),
    {
        eq_ignoring_case(name, candidate)
    }

    /// The values of the fields named `name`.
    pub fn get(&self, name: &str) -> (values: Vec<Vec<u8>>)
        ensures
            value_views(values@) == values_of(self@.entries, name@),
    {
        let mut values: Vec<Vec<u8>> = Vec::new();
        let mut i: usize = 0;
        let ghost all = self@.entries;
        let ghost keep = |e: FieldView| same_ignoring_case(name@, e.0);
        let ghost value = |e: FieldView| e.1;
        proof {
            lemma_filter_empty(all.take(0), keep);
            assert(value_views(values@) =~= all.take(0).filter(keep).map_values(value));
        }
        while i < self.entries.len()
            invariant
                i <= self.entries@.len(),
                all == entry_views(self.entries@),
                keep == (|e: FieldView| same_ignoring_case(name@, e.0)),
                value == (|e: FieldView| e.1),
                value_views(values@) == all.take(i as int).filter(keep).map_values(value),
            decreases self.entries.len() - i,
        {
            let ghost before = values@;
            proof {
                lemma_filter_step(all, keep, i as int);
                assert(keep(all[i as int]) == same_ignoring_case(name@, self.entries@[i as int].0@));
            }
            if FieldsData::matches(name, self.entries[i].0.as_str()) {
                let v = copy_bytes(self.entries[i].1.as_slice());
                let ghost w = v@;
                values.push(v);
                proof {
                    let kept = all.take(i as int).filter(keep);
                    assert(value_views(values@) =~= value_views(before).push(w));
                    assert(kept.push(all[i as int]).map_values(value) =~= kept.map_values(
                        value,
                    ).push(w));
                }
            }
            i += 1;
        }
        assert(all.take(all.len() as int) =~= all);
        values
    }

    /// Whether a field named `name` exists.
    pub fn has(&self, name: &str) -> (r: bool)
        ensures
            r == has_name(self@.entries, name@),
    {
        let mut i: usize = 0;
        while i < self.entries.len()
            invariant
                i <= self.entries@.len(),
                forall|j: int|
                    0 <= j < i ==> !same_ignoring_case(name@, (#[trigger] self@.entries[j]).0),
            decreases self.entries.len() - i,
        {
            if FieldsData::matches(name, self.entries[i].0.as_str()) {
                assert(same_ignoring_case(name@, self@.entries[i as int].0));
                return true;
            }
            i += 1;
        }
        false
    }

    /// Removes the fields named `name`.
    pub fn delete(&mut self, name: &str)
        ensures
            final(self)@ == (FieldsView {
                entries: without(old(self)@.entries, name@),
                ..old(self)@
            }),
    {
        let mut kept: Vec<(String, Vec<u8>)> = Vec::new();
        let mut i: usize = 0;
        let ghost all = self@.entries;
        let ghost keep = |e: FieldView| !same_ignoring_case(name@, e.0);
        proof {
            lemma_filter_empty(all.take(0), keep);
            assert(entry_views(kept@) =~= all.take(0).filter(keep));
        }
        while i < self.entries.len()
            invariant
                i <= self.entries@.len(),
                *self == *old(self),
                all == entry_views(self.entries@),
                keep == (|e: FieldView| !same_ignoring_case(name@, e.0)),
                entry_views(kept@) == all.take(i as int).filter(keep),
            decreases self.entries.len() - i,
        {
            let ghost before = kept@;
            proof {
                lemma_filter_step(all, keep, i as int);
                assert(keep(all[i as int]) == !same_ignoring_case(
                    name@,
                    self.entries@[i as int].0@,
                ));
            }
            if !FieldsData::matches(name, self.entries[i].0.as_str()) {
                kept.push(
                    (self.entries[i].0.clone(), copy_bytes(self.entries[i].1.as_slice())),
                );
                assert(entry_views(kept@) =~= entry_views(before).push(all[i as int]));
            }
            i += 1;
        }
        assert(all.take(all.len() as int) =~= all);
        self.entries = kept;
    }

    /// Replaces the fields named `name` by one for each value.
    pub fn set(&mut self, name: &str, values: Vec<Vec<u8>>)
        ensures
            final(self)@ == (FieldsView {
                entries: without(old(self)@.entries, name@) + fields_for(
                    name@,
                    value_views(values@),
                ),
                ..old(self)@
            }),
    {
        self.delete(name);
        let ghost kept = self@.entries;
        let ghost added = fields_for(name@, value_views(values@));
        let mut i: usize = 0;
        assert(kept + added.take(0) =~= kept);
        while i < values.len()
            invariant
                i <= values@.len(),
                added == fields_for(name@, value_views(values@)),
                self@.entries == kept + added.take(i as int),
                self@.immutable == old(self)@.immutable,
            decreases values.len() - i,
        {
            let ghost before = self.entries@;
            self.entries.push((name.to_owned(), copy_bytes(values[i].as_slice())));
            proof {
                assert(entry_views(self.entries@) =~= entry_views(before).push(added[i as int]));
                assert(added.take(i + 1) =~= added.take(i as int).push(added[i as int]));
                assert((kept + added.take(i as int)).push(added[i as int]) =~= kept + added.take(
                    i + 1,
                ));
            }
            i += 1;
        }
        assert(added.take(added.len() as int) =~= added);
    }

    /// Removes the fields named `name` and returns their values.
    pub fn get_and_delete(&mut self, name: &str) -> (values: Vec<Vec<u8>>)
        ensures
            value_views(values@) == values_of(old(self)@.entries, name@),
            final(self)@ == (FieldsView {
                entries: without(old(self)@.entries, name@),
                ..old(self)@
            }),
    {
        let removed = self.get(name);
        self.delete(name);
        removed
    }

    /// Adds a field at the end.
    pub fn append(&mut self, name: &str, value: Vec<u8>)
        ensures
            final(self)@ == (FieldsView {
                entries: old(self)@.entries.push((name@, value@)),
                ..old(self)@
            }),
    {
        let ghost before = self.entries@;
        self.entries.push((name.to_owned(), value));
        assert(entry_views(self.entries@) =~= entry_views(before).push((name@, value@)));
    }
}

// ── Laws ────────────────────────────────────────────────────────────────────

proof fn lemma_named_in_parts(a: Seq<FieldView>, b: Seq<FieldView>, name: Seq<char>)
    ensures
        values_of(a + b, name) == values_of(a, name) + values_of(b, name),
{
    let keep = |e: FieldView| same_ignoring_case(name, e.0);
    Seq::filter_distributes_over_add(a, b, keep);
    assert(values_of(a + b, name) =~= values_of(a, name) + values_of(b, name));
}

proof fn lemma_filter_all<T>(s: Seq<T>, keep: spec_fn(T) -> bool)
    requires
        forall|i: int| 0 <= i < s.len() ==> keep(#[trigger] s[i]),
    ensures
        s.filter(keep) == s,
    decreases s.len(),
{
    reveal(Seq::filter);
    if s.len() > 0 {
        lemma_filter_all(s.drop_last(), keep);
        assert(s.drop_last().push(s.last()) =~= s);
    } else {
        assert(s.filter(keep) =~= s);
    }
}

proof fn lemma_filter_none<T>(s: Seq<T>, keep: spec_fn(T) -> bool)
    requires
        forall|i: int| 0 <= i < s.len() ==> !keep(#[trigger] s[i]),
    ensures
        s.filter(keep) == Seq::<T>::empty(),
    decreases s.len(),
{
    reveal(Seq::filter);
    if s.len() > 0 {
        lemma_filter_none(s.drop_last(), keep);
    }
}

proof fn lemma_without_has_no_name(entries: Seq<FieldView>, name: Seq<char>)
    ensures
        !has_name(without(entries, name), name),
        values_of(without(entries, name), name) == Seq::<Seq<u8>>::empty(),
{
    let other = |e: FieldView| !same_ignoring_case(name, e.0);
    let keep = |e: FieldView| same_ignoring_case(name, e.0);
    let rest = without(entries, name);
    assert forall|i: int| 0 <= i < rest.len() implies !keep(#[trigger] rest[i]) by {
        entries.lemma_filter_pred(other, i);
    }
    lemma_filter_none(rest, keep);
    assert(values_of(rest, name) =~= Seq::empty());
}

/// After `set`, `get` gives exactly the values that were set.
pub proof fn law_get_after_set(entries: Seq<FieldView>, name: Seq<char>, values: Seq<Seq<u8>>)
    ensures
        values_of(without(entries, name) + fields_for(name, values), name) == values,
{
    let added = fields_for(name, values);
    let keep = |e: FieldView| same_ignoring_case(name, e.0);
    lemma_without_has_no_name(entries, name);
    lemma_named_in_parts(without(entries, name), added, name);
    lemma_filter_all(added, keep);
    assert(values_of(added, name) =~= values);
    assert(values_of(without(entries, name), name) + values =~= values);
}

/// After `delete`, no field has the name and `get` gives nothing.
pub proof fn law_delete_removes_the_name(entries: Seq<FieldView>, name: Seq<char>)
    ensures
        !has_name(without(entries, name), name),
        values_of(without(entries, name), name) == Seq::<Seq<u8>>::empty(),
{
    lemma_without_has_no_name(entries, name);
}

/// After `append`, `get` gives the old values and then the new one.
pub proof fn law_get_after_append(entries: Seq<FieldView>, name: Seq<char>, value: Seq<u8>)
    ensures
        values_of(entries.push((name, value)), name) == values_of(entries, name).push(value),
        has_name(entries.push((name, value)), name),
{
    let one = seq![(name, value)];
    let keep = |e: FieldView| same_ignoring_case(name, e.0);
    assert(entries.push((name, value)) =~= entries + one);
    lemma_named_in_parts(entries, one, name);
    lemma_filter_all(one, keep);
    assert(values_of(one, name) =~= seq![value]);
    assert(values_of(entries, name) + seq![value] =~= values_of(entries, name).push(value));
    assert(entries.push((name, value))[entries.len() as int].0 == name);
}

/// Lookups ignore the ASCII case of the name.
pub proof fn law_names_ignore_case(entries: Seq<FieldView>, a: Seq<char>, b: Seq<char>)
    requires
        same_ignoring_case(a, b),
    ensures
        values_of(entries, a) == values_of(entries, b),
        has_name(entries, a) == has_name(entries, b),
        without(entries, a) == without(entries, b),
{
    assert((|e: FieldView| same_ignoring_case(a, e.0)) =~= (|e: FieldView|
        same_ignoring_case(b, e.0)));
    assert((|e: FieldView| !same_ignoring_case(a, e.0)) =~= (|e: FieldView|
        !same_ignoring_case(b, e.0)));
    if has_name(entries, a) {
        let i = choose|i: int|
            0 <= i < entries.len() && same_ignoring_case(a, (#[trigger] entries[i]).0);
        assert(same_ignoring_case(b, entries[i].0));
    }
    if has_name(entries, b) {
        let i = choose|i: int|
            0 <= i < entries.len() && same_ignoring_case(b, (#[trigger] entries[i]).0);
        assert(same_ignoring_case(a, entries[i].0));
    }
}

/// The fields of a name, and those of the other names, keep their order: a field at
/// the end comes last among those of its name and nowhere else.
pub proof fn law_fields_keep_their_order(entries: Seq<FieldView>, e: FieldView, name: Seq<char>)
    ensures
        values_of(seq![], name) == Seq::<Seq<u8>>::empty(),
        without(seq![], name) == Seq::<FieldView>::empty(),
        same_ignoring_case(name, e.0) ==> values_of(entries.push(e), name) == values_of(
            entries,
            name,
        ).push(e.1) && without(entries.push(e), name) == without(entries, name),
        !same_ignoring_case(name, e.0) ==> values_of(entries.push(e), name) == values_of(
            entries,
            name,
        ) && without(entries.push(e), name) == without(entries, name).push(e),
        has_name(entries.push(e), name) <==> has_name(entries, name) || same_ignoring_case(
            name,
            e.0,
        ),
        !has_name(seq![], name),
{
    reveal(Seq::filter);
    let all = entries.push(e);
    assert(all.drop_last() =~= entries);
    let none = Seq::<FieldView>::empty();
    assert(named(none, name) =~= none);
    assert(values_of(none, name) =~= Seq::<Seq<u8>>::empty());
    assert(without(none, name) =~= none);
    if same_ignoring_case(name, e.0) {
        assert(named(all, name) =~= named(entries, name).push(e));
        assert(values_of(all, name) =~= values_of(entries, name).push(e.1));
        assert(all[all.len() - 1] == e);
        assert(has_name(all, name));
    } else {
        assert(named(all, name) =~= named(entries, name));
    }
    if has_name(entries, name) {
        let i = choose|i: int|
            0 <= i < entries.len() && same_ignoring_case(name, (#[trigger] entries[i]).0);
        assert(all[i] == entries[i]);
    }
    if has_name(all, name) && !same_ignoring_case(name, e.0) {
        let i = choose|i: int|
            0 <= i < all.len() && same_ignoring_case(name, (#[trigger] all[i]).0);
        assert(entries[i] == all[i]);
    }
}

} // verus!

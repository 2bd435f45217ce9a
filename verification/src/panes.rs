//! What is known of each pane, in the order of their identifiers.

use std::collections::BTreeMap;

use vstd::prelude::*;
use vstd::std_specs::btree::increasing_seq;
use vstd::std_specs::cmp::OrdSpec;
use vstd::std_specs::iter::IteratorSpec;

use crate::proto::PaneId;

verus! {

/// One value per pane, in ascending order of the panes' identifiers.
#[derive(Debug, PartialEq, Eq)]
pub struct PaneMap<V> {
    values: BTreeMap<u64, V>,
}

impl<V> View for PaneMap<V> {
    type V = Seq<(PaneId, V)>;

    closed spec fn view(&self) -> Seq<(PaneId, V)> {
        entries_of(self.values@)
    }
}

/// Whether every pane stands once, in ascending order.
pub open spec fn ascending<V>(entries: Seq<(PaneId, V)>) -> bool {
    forall|i: int, j: int|
        0 <= i < j < entries.len() ==> (#[trigger] entries[i]).0.0 < (#[trigger] entries[j]).0.0
}

/// How many of the first entries come before `pane`.
pub open spec fn rank<V>(entries: Seq<(PaneId, V)>, pane: PaneId) -> nat
    decreases entries.len(),
{
    if entries.len() == 0 || entries[0].0.0 >= pane.0 {
        0
    } else {
        1 + rank(entries.drop_first(), pane)
    }
}

/// Whether `pane` has a value.
pub open spec fn holds<V>(entries: Seq<(PaneId, V)>, pane: PaneId) -> bool {
    rank(entries, pane) < entries.len() && entries[rank(entries, pane) as int].0 == pane
}

/// The value of `pane`, if it has one.
pub open spec fn lookup<V>(entries: Seq<(PaneId, V)>, pane: PaneId) -> Option<V> {
    if holds(entries, pane) {
        Some(entries[rank(entries, pane) as int].1)
    } else {
        None
    }
}

/// `entries` with `value` for `pane`, in place of what it had.
pub open spec fn inserted<V>(entries: Seq<(PaneId, V)>, pane: PaneId, value: V) -> Seq<(PaneId, V)> {
    if holds(entries, pane) {
        entries.update(rank(entries, pane) as int, (pane, value))
    } else {
        entries.insert(rank(entries, pane) as int, (pane, value))
    }
}

/// `entries` without `pane`.
pub open spec fn removed<V>(entries: Seq<(PaneId, V)>, pane: PaneId) -> Seq<(PaneId, V)> {
    if holds(entries, pane) {
        entries.remove(rank(entries, pane) as int)
    } else {
        entries
    }
}

/// The entries of panes that stand in `others` too.
pub open spec fn kept_in<V, W>(entries: Seq<(PaneId, V)>, others: Seq<(PaneId, W)>) -> Seq<(PaneId, V)>
    decreases entries.len(),
{
    if entries.len() == 0 {
        seq![]
    } else {
        let rest = kept_in(entries.drop_last(), others);
        if holds(others, entries.last().0) {
            rest.push(entries.last())
        } else {
            rest
        }
    }
}

/// The rank of a pane stands between the entries before it and those that do
/// not come before it.
pub proof fn rank_splits<V>(entries: Seq<(PaneId, V)>, pane: PaneId)
    requires
        ascending(entries),
    ensures
        rank(entries, pane) <= entries.len(),
        forall|i: int|
            0 <= i < rank(entries, pane) ==> (#[trigger] entries[i]).0.0 < pane.0,
        forall|i: int|
            rank(entries, pane) <= i < entries.len() ==> (#[trigger] entries[i]).0.0 >= pane.0,
    decreases entries.len(),
{
    if entries.len() > 0 {
        if entries[0].0.0 < pane.0 {
            let rest = entries.drop_first();
            assert forall|i: int, j: int| 0 <= i < j < rest.len() implies (#[trigger] rest[i]).0.0
                < (#[trigger] rest[j]).0.0 by {
                assert(rest[i] == entries[i + 1]);
                assert(rest[j] == entries[j + 1]);
            }
            rank_splits(rest, pane);
            assert forall|i: int| 0 <= i < rank(entries, pane) implies (#[trigger] entries[i]).0.0
                < pane.0 by {
                if i > 0 {
                    assert(entries[i] == rest[i - 1]);
                }
            }
            assert forall|i: int| rank(entries, pane) <= i < entries.len() implies (
            #[trigger] entries[i]).0.0 >= pane.0 by {
                assert(entries[i] == rest[i - 1]);
            }
        } else {
            assert forall|i: int| 0 <= i < entries.len() implies (#[trigger] entries[i]).0.0
                >= pane.0 by {
                if i > 0 {
                    assert(entries[0].0.0 < entries[i].0.0);
                }
            }
        }
    }
}

/// A pane has a value exactly where one of the entries is its.
pub proof fn lookup_finds<V>(entries: Seq<(PaneId, V)>, pane: PaneId, at: int)
    requires
        ascending(entries),
        0 <= at < entries.len(),
        entries[at].0 == pane,
    ensures
        rank(entries, pane) == at,
        lookup(entries, pane) == Some(entries[at].1),
{
    rank_splits(entries, pane);
    let r = rank(entries, pane);
    if r < at {
        assert(entries[r as int].0.0 < entries[at].0.0);
    }
    if at < r {
        assert(entries[at].0.0 < pane.0);
    }
}

/// Whether `entries` are those of a map by identifier, in order.
pub open spec fn lists<V>(values: Map<u64, V>, entries: Seq<(PaneId, V)>) -> bool {
    &&& ascending(entries)
    &&& forall|pane: PaneId| #[trigger]
        lookup(entries, pane) == if values.contains_key(pane.0) {
            Some(values[pane.0])
        } else {
            None
        }
}

/// The entries of a map by identifier, in order.
pub open spec fn entries_of<V>(values: Map<u64, V>) -> Seq<(PaneId, V)> {
    choose|entries: Seq<(PaneId, V)>| lists(values, entries)
}

/// Every finite map has its entries.
pub proof fn a_map_has_entries<V>(values: Map<u64, V>)
    requires
        values.dom().finite(),
    ensures
        lists(values, entries_of(values)),
    decreases values.dom().len(),
{
    if values.dom().len() == 0 {
        let none = Seq::<(PaneId, V)>::empty();
        assert forall|pane: PaneId| !values.contains_key(pane.0) by {
            assert(!values.dom().contains(pane.0));
        }
        assert(lists(values, none));
    } else {
        let key = values.dom().choose();
        let rest = values.remove(key);
        a_map_has_entries(rest);
        let before = entries_of(rest);
        let after = inserted(before, PaneId(key), values[key]);
        inserting(before, PaneId(key), values[key], PaneId(key));
        assert forall|pane: PaneId| #[trigger]
            lookup(after, pane) == if values.contains_key(pane.0) {
                Some(values[pane.0])
            } else {
                None
            } by {
            inserting(before, PaneId(key), values[key], pane);
            assert(lookup(before, pane) == if rest.contains_key(pane.0) {
                Some(rest[pane.0])
            } else {
                None
            });
        }
        assert(lists(values, after));
    }
}

proof fn walked_entries_are_listed<V>(values: Map<u64, V>, entries: Seq<(PaneId, V)>)
    requires
        ascending(entries),
        forall|i: int|
            0 <= i < entries.len() ==> values.contains_key((#[trigger] entries[i]).0.0)
                && values[entries[i].0.0] == entries[i].1,
        forall|key: u64| #[trigger]
            values.contains_key(key) ==> exists|i: int|
                0 <= i < entries.len() && (#[trigger] entries[i]).0.0 == key,
    ensures
        lists(values, entries),
{
    assert forall|pane: PaneId| #[trigger]
        lookup(entries, pane) == if values.contains_key(pane.0) {
            Some(values[pane.0])
        } else {
            None
        } by {
        if values.contains_key(pane.0) {
            let i = choose|i: int|
                0 <= i < entries.len() && (#[trigger] entries[i]).0.0 == pane.0;
            lookup_finds(entries, pane, i);
        }
    }
}

proof fn front_is_ascending<V>(entries: Seq<(PaneId, V)>)
    requires
        ascending(entries),
        entries.len() > 0,
    ensures
        ascending(entries.drop_last()),
        entries.drop_last() == removed(entries, entries.last().0),
{
    lookup_finds(entries, entries.last().0, entries.len() - 1);
    assert(entries.drop_last() =~= entries.remove(entries.len() - 1));
    removing(entries, entries.last().0, entries.last().0);
}

/// Entries in order are fixed by what each pane has.
pub proof fn entries_are_one<V>(first: Seq<(PaneId, V)>, second: Seq<(PaneId, V)>)
    requires
        ascending(first),
        ascending(second),
        forall|pane: PaneId| #[trigger] lookup(first, pane) == lookup(second, pane),
    ensures
        first == second,
    decreases first.len(),
{
    if first.len() == 0 || second.len() == 0 {
        if first.len() > 0 {
            lookup_finds(first, first[0].0, 0);
            assert(lookup(first, first[0].0) == lookup(second, first[0].0));
        }
        if second.len() > 0 {
            lookup_finds(second, second[0].0, 0);
            assert(lookup(first, second[0].0) == lookup(second, second[0].0));
        }
        assert(first =~= second);
    } else {
        let a = first.last().0;
        let b = second.last().0;
        lookup_finds(first, a, first.len() - 1);
        lookup_finds(second, b, second.len() - 1);
        assert(lookup(first, a) == lookup(second, a));
        assert(lookup(first, b) == lookup(second, b));
        let i = rank(second, a) as int;
        let j = rank(first, b) as int;
        if i < second.len() - 1 {
            assert(second[i].0.0 < second[second.len() - 1].0.0);
        }
        if j < first.len() - 1 {
            assert(first[j].0.0 < first[first.len() - 1].0.0);
        }
        assert(a == b);
        front_is_ascending(first);
        front_is_ascending(second);
        assert forall|pane: PaneId| #[trigger]
            lookup(first.drop_last(), pane) == lookup(second.drop_last(), pane) by {
            removing(first, a, pane);
            removing(second, a, pane);
            assert(lookup(first, pane) == lookup(second, pane));
        }
        entries_are_one(first.drop_last(), second.drop_last());
        assert(first =~= first.drop_last().push(first.last()));
        assert(second =~= second.drop_last().push(second.last()));
    }
}

proof fn entries_are_counted<V>(values: Map<u64, V>, entries: Seq<(PaneId, V)>)
    requires
        values.dom().finite(),
        lists(values, entries),
    ensures
        entries.len() == values.dom().len(),
    decreases entries.len(),
{
    if entries.len() == 0 {
        assert forall|key: u64| !values.dom().contains(key) by {
            assert(lookup(entries, PaneId(key)) is None);
        }
        assert(values.dom() =~= Set::empty());
    } else {
        let last = entries.last().0;
        lookup_finds(entries, last, entries.len() - 1);
        let rest = values.remove(last.0);
        front_is_ascending(entries);
        assert forall|pane: PaneId| #[trigger]
            lookup(entries.drop_last(), pane) == if rest.contains_key(pane.0) {
                Some(rest[pane.0])
            } else {
                None
            } by {
            removing(entries, last, pane);
            assert(lookup(entries, pane) == if values.contains_key(pane.0) {
                Some(values[pane.0])
            } else {
                None
            });
        }
        entries_are_counted(rest, entries.drop_last());
        assert(values.dom().contains(last.0));
        assert(rest.dom() =~= values.dom().remove(last.0));
    }
}

/// What a pane has once a value was inserted for it or for another.
pub proof fn inserting<V>(entries: Seq<(PaneId, V)>, pane: PaneId, value: V, other: PaneId)
    requires
        ascending(entries),
    ensures
        ascending(inserted(entries, pane, value)),
        lookup(inserted(entries, pane, value), other) == if other == pane {
            Some(value)
        } else {
            lookup(entries, other)
        },
{
    let after = inserted(entries, pane, value);
    let r = rank(entries, pane) as int;
    rank_splits(entries, pane);
    assert forall|i: int, j: int| 0 <= i < j < after.len() implies (#[trigger] after[i]).0.0 < (
    #[trigger] after[j]).0.0 by {
        if holds(entries, pane) {
            assert(entries[i].0.0 < entries[j].0.0);
        } else {
            if j < r {
                assert(after[i] == entries[i] && after[j] == entries[j]);
            } else if j == r {
                assert(after[i] == entries[i]);
            } else {
                assert(after[j] == entries[j - 1]);
                assert(entries[j - 1].0 != pane) by {
                    if entries[j - 1].0 == pane {
                        lookup_finds(entries, pane, j - 1);
                    }
                }
                if i < r {
                    assert(after[i] == entries[i]);
                } else if i > r {
                    assert(after[i] == entries[i - 1]);
                }
            }
        }
    }
    if other == pane {
        assert(after[r] == (pane, value));
        lookup_finds(after, pane, r);
    } else if holds(entries, other) {
        let o = rank(entries, other) as int;
        let at = if holds(entries, pane) || o < r {
            o
        } else {
            o + 1
        };
        assert(after[at] == entries[o]);
        lookup_finds(after, other, at);
    } else {
        rank_splits(after, other);
        if holds(after, other) {
            let at = rank(after, other) as int;
            let from = if holds(entries, pane) || at < r {
                at
            } else {
                at - 1
            };
            assert(after[at] == entries[from]);
            lookup_finds(entries, other, from);
        }
    }
}

/// What a pane has once another, or itself, was removed.
pub proof fn removing<V>(entries: Seq<(PaneId, V)>, pane: PaneId, other: PaneId)
    requires
        ascending(entries),
    ensures
        ascending(removed(entries, pane)),
        lookup(removed(entries, pane), other) == if other == pane {
            None
        } else {
            lookup(entries, other)
        },
{
    let after = removed(entries, pane);
    let r = rank(entries, pane) as int;
    rank_splits(entries, pane);
    if holds(entries, pane) {
        assert forall|i: int, j: int| 0 <= i < j < after.len() implies (#[trigger] after[i]).0.0 < (
        #[trigger] after[j]).0.0 by {
            let a = if i < r {
                i
            } else {
                i + 1
            };
            let b = if j < r {
                j
            } else {
                j + 1
            };
            assert(after[i] == entries[a] && after[j] == entries[b]);
        }
        if other != pane && holds(entries, other) {
            let o = rank(entries, other) as int;
            let at = if o < r {
                o
            } else {
                o - 1
            };
            assert(after[at] == entries[o]);
            lookup_finds(after, other, at);
        } else {
            rank_splits(after, other);
            if holds(after, other) {
                let at = rank(after, other) as int;
                let from = if at < r {
                    at
                } else {
                    at + 1
                };
                assert(after[at] == entries[from]);
                lookup_finds(entries, other, from);
                if other == pane {
                    lookup_finds(entries, pane, r);
                }
            }
        }
    }
}

impl<V> PaneMap<V> {
    /// Whether the entries stand in order.
    pub open spec fn wf(&self) -> bool {
        ascending(self@)
    }

    proof fn is_listed(&self)
        ensures
            lists(self.values@, self@),
    {
        a_map_has_entries(self.values@);
    }

    /// Nothing known of any pane.
    pub fn new() -> (map: PaneMap<V>)
        ensures
            map.wf(),
            map@ == Seq::<(PaneId, V)>::empty(),
    {
        let map = PaneMap { values: BTreeMap::new() };
        proof {
            map.is_listed();
            entries_are_counted(map.values@, map@);
            assert(map@ =~= Seq::<(PaneId, V)>::empty());
        }
        map
    }

    /// How many panes have a value.
    pub fn len(&self) -> (len: usize)
        ensures
            len == self@.len(),
    {
        proof {
            self.is_listed();
            entries_are_counted(self.values@, self@);
        }
        self.values.len()
    }

    /// The panes and their values, in order.
    pub fn entries(&self) -> (list: Vec<(PaneId, &V)>)
        ensures
            list@.len() == self@.len(),
            forall|i: int|
                0 <= i < list@.len() ==> (#[trigger] list@[i]).0 == self@[i].0 && *list@[i].1
                    == self@[i].1,
    {
        let mut list: Vec<(PaneId, &V)> = Vec::new();
        for entry in walk: self.values.iter()
            invariant
                walk.seq() == self.values.iter().remaining(),
                list@.len() == walk.index(),
                forall|i: int|
                    0 <= i < list@.len() ==> (#[trigger] list@[i]).0.0 == *walk.seq()[i].0
                        && *list@[i].1 == *walk.seq()[i].1,
        {
            list.push((PaneId(*entry.0), entry.1));
        }
        proof {
            self.is_listed();
            let walked = self.values.iter().remaining();
            let made = Seq::new(list@.len(), |i: int| (list@[i].0, *list@[i].1));
            let keys = walked.map_values(|entry: (&u64, &V)| *entry.0);
            assert(increasing_seq(keys));
            assert forall|i: int, j: int| 0 <= i < j < made.len() implies (#[trigger] made[i]).0.0
                < (#[trigger] made[j]).0.0 by {
                assert(keys[i].cmp_spec(&keys[j]) is Less);
            }
            assert forall|i: int| 0 <= i < made.len() implies self.values@.contains_key(
                (#[trigger] made[i]).0.0,
            ) && self.values@[made[i].0.0] == made[i].1 by {
                assert(self.values@.contains_key(*walked[i].0));
            }
            assert forall|key: u64| #[trigger] self.values@.contains_key(key) implies exists|i: int|
                0 <= i < made.len() && (#[trigger] made[i]).0.0 == key by {
                assert(walked.contains((&key, &self.values@[key])));
                let i = choose|i: int|
                    0 <= i < walked.len() && walked[i] == (&key, &self.values@[key]);
                assert(made[i].0.0 == key);
            }
            walked_entries_are_listed(self.values@, made);
            entries_are_one(made, self@);
        }
        list
    }

    /// The value of `pane`, if it has one.
    pub fn get(&self, pane: PaneId) -> (value: Option<&V>)
        ensures
            match value {
                Some(found) => lookup(self@, pane) == Some(*found),
                None => lookup(self@, pane) is None,
            },
    {
        proof {
            self.is_listed();
            assert(lookup(self@, pane) == lookup(self@, PaneId(pane.0)));
        }
        self.values.get(&pane.0)
    }

    /// Whether `pane` has a value.
    pub fn contains(&self, pane: PaneId) -> (held: bool)
        ensures
            held == holds(self@, pane),
    {
        proof {
            self.is_listed();
            assert(lookup(self@, pane) is Some == holds(self@, pane));
        }
        self.values.contains_key(&pane.0)
    }

    /// Gives `pane` a value, in place of what it had.
    pub fn insert(&mut self, pane: PaneId, value: V)
        ensures
            final(self).wf(),
            final(self)@ == inserted(old(self)@, pane, value),
    {
        let ghost before = self@;
        let ghost after = inserted(before, pane, value);
        proof {
            self.is_listed();
            inserting(before, pane, value, pane);
        }
        let ghost held = self.values@;
        let _ = self.values.insert(pane.0, value);
        proof {
            self.is_listed();
            assert forall|other: PaneId| #[trigger] lookup(after, other) == lookup(self@, other) by {
                inserting(before, pane, value, other);
                assert(lookup(before, other) == if held.contains_key(other.0) {
                    Some(held[other.0])
                } else {
                    None
                });
            }
            entries_are_one(after, self@);
        }
    }

    /// Takes the value of `pane`, if it has one.
    pub fn remove(&mut self, pane: PaneId) -> (value: Option<V>)
        ensures
            final(self).wf(),
            final(self)@ == removed(old(self)@, pane),
            value == lookup(old(self)@, pane),
    {
        let ghost before = self@;
        let ghost after = removed(before, pane);
        proof {
            self.is_listed();
            removing(before, pane, pane);
        }
        let ghost held = self.values@;
        assert(lookup(before, pane) is Some == held.contains_key(pane.0));
        let value = self.values.remove(&pane.0);
        proof {
            self.is_listed();
            assert forall|other: PaneId| #[trigger] lookup(after, other) == lookup(self@, other) by {
                removing(before, pane, other);
                assert(lookup(before, other) == if held.contains_key(other.0) {
                    Some(held[other.0])
                } else {
                    None
                });
            }
            entries_are_one(after, self@);
        }
        value
    }
}

impl<V: Copy> PaneMap<V> {
    /// Forgets every pane that has nothing in `others`.
    pub fn retain_in<W>(&mut self, others: &PaneMap<W>)
        ensures
            final(self).wf(),
            final(self)@ == kept_in(old(self)@, others@),
    {
        let ghost entries = self@;
        let mut kept: PaneMap<V> = PaneMap::new();
        let list = self.entries();
        assert(entries.take(0) =~= Seq::<(PaneId, V)>::empty());
        proof {
            self.is_listed();
        }
        for i in 0..list.len()
            invariant
                ascending(entries),
                list@.len() == entries.len(),
                forall|k: int|
                    0 <= k < list@.len() ==> (#[trigger] list@[k]).0 == entries[k].0 && *list@[k].1
                        == entries[k].1,
                kept@ == kept_in(entries.take(i as int), others@),
        {
            assert(entries.take(i + 1).drop_last() =~= entries.take(i as int));
            let (pane, value) = list[i];
            if others.contains(pane) {
                proof {
                    keeping(entries.take(i as int), others@);
                    behind_the_kept(entries, others@, i as int, *value);
                }
                kept.insert(pane, *value);
            }
        }
        assert(entries.take(entries.len() as int) =~= entries);
        *self = kept;
        proof {
            keeping(entries, others@);
        }
    }
}

/// The next entry stands behind those kept of the ones before it.
proof fn behind_the_kept<V, W>(
    entries: Seq<(PaneId, V)>,
    others: Seq<(PaneId, W)>,
    at: int,
    value: V,
)
    requires
        ascending(entries),
        0 <= at < entries.len(),
    ensures
        ({
            let kept = kept_in(entries.take(at), others);
            inserted(kept, entries[at].0, value) == kept.push((entries[at].0, value))
        }),
{
    let front = entries.take(at);
    let pane = entries[at].0;
    let kept = kept_in(front, others);
    keeping(front, others);
    rank_splits(kept, pane);
    assert forall|i: int| 0 <= i < kept.len() implies (#[trigger] kept[i]).0.0 < pane.0 by {
        assert(front.contains(kept[i]));
        let k = choose|k: int| 0 <= k < front.len() && front[k] == kept[i];
        assert(entries[k].0.0 < entries[at].0.0);
    }
    let r = rank(kept, pane) as int;
    if r < kept.len() {
        assert(kept[r].0.0 < pane.0);
    }
    assert(kept.insert(r, (pane, value)) =~= kept.push((pane, value)));
}
/// Keeping some of the entries keeps their order.
pub proof fn keeping<V, W>(entries: Seq<(PaneId, V)>, others: Seq<(PaneId, W)>)
    requires
        ascending(entries),
    ensures
        ascending(kept_in(entries, others)),
        forall|i: int|
            0 <= i < kept_in(entries, others).len() ==> entries.contains(
                #[trigger] kept_in(entries, others)[i],
            ),
    decreases entries.len(),
{
    if entries.len() > 0 {
        let front = entries.drop_last();
        assert forall|i: int, j: int| 0 <= i < j < front.len() implies (#[trigger] front[i]).0.0 < (
        #[trigger] front[j]).0.0 by {
            assert(entries[i].0.0 < entries[j].0.0);
        }
        keeping(front, others);
        let rest = kept_in(front, others);
        let all = kept_in(entries, others);
        assert forall|i: int| 0 <= i < all.len() implies entries.contains(#[trigger] all[i]) by {
            if i < rest.len() {
                assert(front.contains(rest[i]));
                let k = choose|k: int| 0 <= k < front.len() && front[k] == rest[i];
                assert(entries[k] == all[i]);
            } else {
                assert(entries[entries.len() - 1] == all[i]);
            }
        }
        assert forall|i: int, j: int| 0 <= i < j < all.len() implies (#[trigger] all[i]).0.0 < (
        #[trigger] all[j]).0.0 by {
            if j < rest.len() {
                assert(rest[i].0.0 < rest[j].0.0);
            } else {
                assert(front.contains(rest[i]));
                let k = choose|k: int| 0 <= k < front.len() && front[k] == rest[i];
                assert(entries[k].0.0 < entries[entries.len() - 1].0.0);
            }
        }
    }
}

proof fn removing_and_inserting<A>(list: Seq<A>, at: int, value: A)
    requires
        0 <= at < list.len(),
    ensures
        list.remove(at).insert(at, value) == list.update(at, value),
{
    assert(list.remove(at).insert(at, value) =~= list.update(at, value));
}

proof fn rank_without<V>(entries: Seq<(PaneId, V)>, pane: PaneId)
    requires
        ascending(entries),
        holds(entries, pane),
    ensures
        rank(removed(entries, pane), pane) == rank(entries, pane),
        !holds(removed(entries, pane), pane),
{
    let without = removed(entries, pane);
    let r = rank(entries, pane) as int;
    removing(entries, pane, pane);
    assert(lookup(without, pane) is None);
    rank_splits(entries, pane);
    rank_splits(without, pane);
    let q = rank(without, pane) as int;
    if q < r {
        assert(without[q] == entries[q]);
    }
    if r < q {
        assert(without[r] == entries[r + 1]);
        assert(entries[r].0.0 < entries[r + 1].0.0);
    }
}

/// Taking a value out and putting another in is replacing it.
pub proof fn putting_back<V>(entries: Seq<(PaneId, V)>, pane: PaneId, value: V)
    requires
        ascending(entries),
        holds(entries, pane),
    ensures
        inserted(removed(entries, pane), pane, value) == inserted(entries, pane, value),
{
    rank_without(entries, pane);
    removing_and_inserting(entries, rank(entries, pane) as int, (pane, value));
}

} // verus!

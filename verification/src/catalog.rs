//! The entry catalog: the listing of a bundle's entries in numeric-aware
//! order of their paths.

use crate::order::{compare_paths, in_order, numeric_order, PathOrder};
use vstd::prelude::*;

verus! {

/// One entry of a bundle: its archive-relative path and its size in bytes.
#[derive(Debug, Clone, PartialEq, Eq)]
pub struct BundleEntry {
    pub path: String,
    pub size: usize,
}

/// An entry as plain values.
pub ghost struct EntryView {
    pub path: Seq<char>,
    pub size: nat,
}

impl View for BundleEntry {
    type V = EntryView;

    open spec fn view(&self) -> EntryView {
        EntryView { path: self.path@, size: self.size as nat }
    }
}

/// The entries of `entries` as plain values, in the same order.
pub open spec fn entry_views(entries: Seq<BundleEntry>) -> Seq<EntryView> {
    entries.map_values(|e: BundleEntry| e@)
}

/// The paths of `entries`, in the same order.
pub open spec fn entry_paths(entries: Seq<EntryView>) -> Seq<Seq<char>> {
    entries.map_values(|e: EntryView| e.path)
}

/// Every entry may stand directly in front of the next one.
pub open spec fn is_ordered(entries: Seq<EntryView>) -> bool {
    forall|i: int, j: int|
        0 <= i && j == i + 1 && j < entries.len() ==> in_order(
            (#[trigger] entries[i]).path,
            (#[trigger] entries[j]).path,
        )
}

/// `entry` put into `sorted` behind the last entry that does not sort after
/// it: it passes every entry at the end that sorts after it and no other.
pub open spec fn insert_ordered(sorted: Seq<EntryView>, entry: EntryView) -> Seq<EntryView>
    decreases sorted.len(),
{
    if sorted.len() > 0 && numeric_order(sorted.last().path, entry.path) == PathOrder::After {
        insert_ordered(sorted.drop_last(), entry).push(sorted.last())
    } else {
        sorted.push(entry)
    }
}

/// The stable numeric-aware sort: the entries put in one by one, each behind
/// those that came before it and do not sort after it.
pub open spec fn numeric_sorted(entries: Seq<EntryView>) -> Seq<EntryView>
    decreases entries.len(),
{
    if entries.len() == 0 {
        Seq::empty()
    } else {
        insert_ordered(numeric_sorted(entries.drop_last()), entries.last())
    }
}

/// Where `insert_ordered` puts an entry: in front of the entries at the end
/// that sort after it, behind the one that does not.
pub proof fn lemma_insert_position(sorted: Seq<EntryView>, entry: EntryView, pos: int)
    requires
        0 <= pos <= sorted.len(),
        forall|j: int|
            pos <= j < sorted.len() ==> numeric_order((#[trigger] sorted[j]).path, entry.path)
                == PathOrder::After,
        pos > 0 ==> numeric_order(sorted[pos - 1].path, entry.path) != PathOrder::After,
    ensures
        insert_ordered(sorted, entry) == sorted.insert(pos, entry),
    decreases sorted.len() - pos,
{
    if pos == sorted.len() {
        assert(sorted.insert(pos, entry) =~= sorted.push(entry));
    } else {
        let front = sorted.drop_last();
        assert(numeric_order(sorted[sorted.len() - 1].path, entry.path) == PathOrder::After);
        assert forall|j: int| pos <= j < front.len() implies numeric_order(
            (#[trigger] front[j]).path,
            entry.path,
        ) == PathOrder::After by {
            assert(front[j] == sorted[j]);
        }
        lemma_insert_position(front, entry, pos);
        assert(front.insert(pos, entry).push(sorted.last()) =~= sorted.insert(pos, entry));
    }
}

/// Putting an entry in adds that entry and nothing else.
pub proof fn lemma_insert_adds_one(sorted: Seq<EntryView>, entry: EntryView)
    ensures
        insert_ordered(sorted, entry).to_multiset() == sorted.to_multiset().insert(entry),
        insert_ordered(sorted, entry).len() == sorted.len() + 1,
    decreases sorted.len(),
{
    broadcast use vstd::seq_lib::to_multiset_build;

    if sorted.len() > 0 && numeric_order(sorted.last().path, entry.path) == PathOrder::After {
        let front = sorted.drop_last();
        lemma_insert_adds_one(front, entry);
        assert(front.push(sorted.last()) =~= sorted);
        assert(front.to_multiset().insert(entry).insert(sorted.last()) =~= front.to_multiset().insert(
            sorted.last(),
        ).insert(entry));
    }
}

/// Sorting keeps the entries: each occurs in the sorted listing as often as
/// it was given, so nothing is lost, added or repeated.
pub proof fn law_sorted_keeps_entries(entries: Seq<EntryView>)
    ensures
        numeric_sorted(entries).to_multiset() == entries.to_multiset(),
        numeric_sorted(entries).len() == entries.len(),
    decreases entries.len(),
{
    broadcast use vstd::seq_lib::to_multiset_build;

    if entries.len() == 0 {
        assert(entries =~= Seq::<EntryView>::empty());
    } else {
        let front = entries.drop_last();
        law_sorted_keeps_entries(front);
        lemma_insert_adds_one(numeric_sorted(front), entries.last());
        assert(front.push(entries.last()) =~= entries);
    }
}

/// A listing that is in order already is left as it is.
pub proof fn law_ordered_is_kept(entries: Seq<EntryView>)
    requires
        is_ordered(entries),
    ensures
        numeric_sorted(entries) == entries,
    decreases entries.len(),
{
    if entries.len() == 0 {
        assert(entries =~= Seq::<EntryView>::empty());
    } else {
        let front = entries.drop_last();
        assert forall|i: int, j: int| 0 <= i && j == i + 1 && j < front.len() implies in_order(
            (#[trigger] front[i]).path,
            (#[trigger] front[j]).path,
        ) by {
            assert(front[i] == entries[i] && front[j] == entries[j]);
        }
        law_ordered_is_kept(front);
        if front.len() > 0 {
            assert(front.last() == entries[front.len() - 1]);
            assert(entries.last() == entries[front.len() as int]);
        }
        assert(front.push(entries.last()) =~= entries);
    }
}

/// The entry at `i` may stand in front of the entry at `j`.
pub open spec fn pair_in_order(entries: Seq<EntryView>, i: int, j: int) -> bool {
    in_order(entries[i].path, entries[j].path)
}

/// The order carries over from pair to pair among the entries of `entries`.
pub open spec fn order_carries_over(entries: Seq<EntryView>) -> bool {
    forall|a: int, b: int, c: int|
        0 <= a < b < c < entries.len() && #[trigger] pair_in_order(entries, a, b)
            && #[trigger] pair_in_order(entries, b, c) ==> pair_in_order(entries, a, c)
}

/// Where the order carries over from pair to pair, a listing that is in order
/// is so throughout: no entry sorts after one that stands behind it.
pub proof fn law_ordered_throughout(entries: Seq<EntryView>, i: int, j: int)
    requires
        is_ordered(entries),
        order_carries_over(entries),
        0 <= i < j < entries.len(),
    ensures
        pair_in_order(entries, i, j),
    decreases j - i,
{
    assert(in_order(entries[j - 1].path, entries[j].path));
    assert(pair_in_order(entries, j - 1, j));
    if i < j - 1 {
        law_ordered_throughout(entries, i, j - 1);
    }
}

/// The listing of a bundle's entries, kept in numeric-aware order.
pub struct Catalog {
    entries: Vec<BundleEntry>,
}

impl View for Catalog {
    type V = Seq<EntryView>;

    closed spec fn view(&self) -> Seq<EntryView> {
        entry_views(self.entries@)
    }
}

impl Catalog {
    #[verifier::type_invariant]
    spec fn ordered(&self) -> bool {
        is_ordered(entry_views(self.entries@))
    }

    /// Builds the catalog of the entries that a bundle's index yields: the
    /// same entries, sorted by path in the numeric-aware order, entries that
    /// the order does not tell apart staying in the order they came in.
    pub fn build(entries: Vec<BundleEntry>) -> (catalog: Catalog)
        ensures
            catalog@ == numeric_sorted(entry_views(entries@)),
            is_ordered(catalog@),
            catalog@.to_multiset() == entry_views(entries@).to_multiset(),
            catalog@.len() == entries@.len(),
    {
        let ghost given = entry_views(entries@);
        proof {
            law_sorted_keeps_entries(given);
            assert(given.take(0) =~= Seq::<EntryView>::empty());
        }
        let mut sorted: Vec<BundleEntry> = Vec::new();
        for entry in it: entries
            invariant
                entry_views(it.seq()) == given,
                entry_views(sorted@) == numeric_sorted(given.take(it.index() as int)),
                is_ordered(entry_views(sorted@)),
        {
            let ghost i = it.index() as int;
            let ghost e = entry@;
            assert(e == given[i]);
            let ghost before = entry_views(sorted@);
            let mut pos: usize = sorted.len();
            while pos > 0 && sorts_after(&sorted[pos - 1], &entry)
                invariant
                    pos <= sorted.len(),
                    before == entry_views(sorted@),
                    e == entry@,
                    forall|j: int|
                        pos <= j < before.len() ==> numeric_order((#[trigger] before[j]).path, e.path)
                            == PathOrder::After,
                    forall|j: int|
                        pos <= j < before.len() ==> numeric_order(e.path, (#[trigger] before[j]).path)
                            == PathOrder::Before,
                decreases pos,
            {
                pos -= 1;
            }
            sorted.insert(pos, entry);
            proof {
                let after = entry_views(sorted@);
                assert(after =~= before.insert(pos as int, e));
                lemma_insert_position(before, e, pos as int);
                assert(given.take(i + 1).drop_last() =~= given.take(i));
                assert(given.take(i + 1).last() == e);
                assert forall|a: int, b: int| 0 <= a && b == a + 1 && b < after.len() implies in_order(
                    (#[trigger] after[a]).path,
                    (#[trigger] after[b]).path,
                ) by {
                    if b < pos {
                        assert(after[a] == before[a] && after[b] == before[b]);
                    } else if b == pos {
                        assert(after[a] == before[a]);
                    } else if a == pos {
                        assert(after[b] == before[a]);
                    } else {
                        assert(after[a] == before[a - 1] && after[b] == before[b - 1]);
                    }
                }
            }
        }
        assert(given.take(given.len() as int) =~= given);
        Catalog { entries: sorted }
    }

    /// The entries, in catalog order.
    pub fn entries(&self) -> (entries: &Vec<BundleEntry>)
        ensures
            entry_views(entries@) == self@,
            is_ordered(self@),
    {
        proof {
            use_type_invariant(self);
        }
        &self.entries
    }
}

/// Whether `held` sorts after `entry`; the order read the other way round is
/// then known too.
fn sorts_after(held: &BundleEntry, entry: &BundleEntry) -> (after: bool)
    ensures
        after == (numeric_order(held@.path, entry@.path) == PathOrder::After),
        after ==> numeric_order(entry@.path, held@.path) == PathOrder::Before,
{
    match compare_paths(held.path.as_str(), entry.path.as_str()) {
        PathOrder::After => true,
        _ => false,
    }
}

} // verus!

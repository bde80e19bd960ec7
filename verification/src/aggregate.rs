//! The entries of a list in the order of their start.

use vstd::prelude::*;
use crate::entries::{Entry, EntryView};
use crate::list::{EntryList, EntryListView};

verus! {

/// The order of entries: by start time, and among entries that start at the
/// same time by id.
pub open spec fn precedes(a: EntryView, b: EntryView) -> bool {
    a.start_time < b.start_time || (a.start_time == b.start_time && a.id < b.id)
}

/// Whether each entry of `order` precedes every later one (`ascending`), or
/// each is preceded by every later one.
pub open spec fn ordered(order: Seq<EntryView>, ascending: bool) -> bool {
    forall|i: int, j: int|
        0 <= i < j < order.len() ==> if ascending {
            precedes(#[trigger] order[i], #[trigger] order[j])
        } else {
            precedes(order[j], order[i])
        }
}

impl EntryListView {
    /// Whether `order` holds every entry of the list exactly once, sorted by
    /// start time: earliest first if `ascending`, latest first if not.
    pub open spec fn lists_in_order(self, order: Seq<EntryView>, ascending: bool) -> bool {
        self.lists(order) && ordered(order, ascending)
    }
}

/// Whether `a` comes before `b` in the order of entries.
fn comes_before(a: &Entry, b: &Entry) -> (before: bool)
    ensures
        before == precedes(a@, b@),
{
    let a_start = a.start_time().nanos();
    let b_start = b.start_time().nanos();
    a_start < b_start || (a_start == b_start && a.id() < b.id())
}

/// Whether no two entries of `all` have both the same id and the same start.
pub open spec fn distinct_keys(all: Seq<EntryView>) -> bool {
    forall|i: int, j: int|
        0 <= i < j < all.len() ==> !((#[trigger] all[i]).id == (#[trigger] all[j]).id
            && all[i].start_time == all[j].start_time)
}

/// Whether `a` and `b` hold the same entries: each entry of one occurs in
/// the other.
pub open spec fn same_entries(a: Seq<EntryView>, b: Seq<EntryView>) -> bool {
    &&& forall|i: int| 0 <= i < a.len() ==> b.contains(#[trigger] a[i])
    &&& forall|k: int| 0 <= k < b.len() ==> a.contains(#[trigger] b[k])
}

/// An entry put into an ascending sequence behind those that precede it and
/// before the first that does not leaves the sequence ascending.
proof fn lemma_insert_keeps_order(order: Seq<EntryView>, at: int, entry: EntryView)
    requires
        ordered(order, true),
        0 <= at <= order.len(),
        forall|i: int| 0 <= i < at ==> precedes(#[trigger] order[i], entry),
        at < order.len() ==> !precedes(order[at], entry),
        forall|i: int|
            0 <= i < order.len() ==> !((#[trigger] order[i]).id == entry.id && order[i].start_time
                == entry.start_time),
    ensures
        ordered(order.insert(at, entry), true),
{
    let after = order.insert(at, entry);
    assert forall|i: int, j: int| 0 <= i < j < after.len() implies precedes(
        #[trigger] after[i],
        #[trigger] after[j],
    ) by {
        if j < at {
            assert(after[i] == order[i] && after[j] == order[j]);
        } else if j == at {
            assert(after[i] == order[i]);
        } else if i < at {
            assert(after[i] == order[i] && after[j] == order[j - 1]);
        } else if i == at {
            assert(after[j] == order[j - 1]);
            assert(precedes(entry, order[at]));
            if j - 1 > at {
                assert(precedes(order[at], order[j - 1]));
            }
        } else {
            assert(after[i] == order[i - 1] && after[j] == order[j - 1]);
        }
    }
}

/// Where `order` holds the same entries as `seen`, `order` with one more
/// entry put in holds the same entries as `seen` with that entry at its end.
proof fn lemma_insert_keeps_entries(
    order: Seq<EntryView>,
    seen: Seq<EntryView>,
    at: int,
    entry: EntryView,
)
    requires
        same_entries(order, seen),
        0 <= at <= order.len(),
    ensures
        same_entries(order.insert(at, entry), seen.push(entry)),
{
    let after = order.insert(at, entry);
    let more = seen.push(entry);
    assert forall|i: int| 0 <= i < after.len() implies more.contains(#[trigger] after[i]) by {
        if i == at {
            assert(more[seen.len() as int] == entry);
        } else {
            let from = if i < at {
                i
            } else {
                i - 1
            };
            assert(after[i] == order[from]);
            let k = choose|k: int| 0 <= k < seen.len() && seen[k] == order[from];
            assert(more[k] == after[i]);
        }
    }
    assert forall|k: int| 0 <= k < more.len() implies after.contains(#[trigger] more[k]) by {
        if k == seen.len() {
            assert(after[at] == entry);
        } else {
            let i = choose|i: int| 0 <= i < order.len() && order[i] == seen[k];
            let to = if i < at {
                i
            } else {
                i + 1
            };
            assert(after[to] == more[k]);
        }
    }
}

/// Sorts entries of which no two have the same id and start: the result
/// holds the same entries, each once, earliest first.
fn sort_by_start<'a>(all: Vec<&'a Entry>) -> (sorted: Vec<&'a Entry>)
    requires
        distinct_keys(all.deep_view()),
    ensures
        sorted@.len() == all@.len(),
        ordered(sorted.deep_view(), true),
        same_entries(sorted.deep_view(), all.deep_view()),
{
    let mut sorted: Vec<&'a Entry> = Vec::new();
    let mut n: usize = 0;
    while n < all.len()
        invariant
            n <= all@.len(),
            sorted@.len() == n,
            distinct_keys(all.deep_view()),
            ordered(sorted.deep_view(), true),
            same_entries(sorted.deep_view(), all.deep_view().take(n as int)),
        decreases all@.len() - n,
    {
        let entry = all[n];
        let mut at: usize = 0;
        while at < sorted.len() && comes_before(sorted[at], entry)
            invariant
                at <= sorted@.len(),
                forall|i: int| 0 <= i < at ==> precedes(#[trigger] sorted.deep_view()[i], entry@),
            decreases sorted@.len() - at,
        {
            at += 1;
        }
        let ghost order = sorted.deep_view();
        let ghost seen = all.deep_view().take(n as int);
        sorted.insert(at, entry);
        proof {
            assert(sorted.deep_view() =~= order.insert(at as int, entry@));
            assert(all.deep_view().take(n + 1) =~= seen.push(entry@));
            assert forall|i: int| 0 <= i < order.len() implies !((#[trigger] order[i]).id
                == entry@.id && order[i].start_time == entry@.start_time) by {
                let k = choose|k: int| 0 <= k < seen.len() && seen[k] == order[i];
                assert(all.deep_view()[k] == order[i]);
                assert(all.deep_view()[n as int] == entry@);
            }
            lemma_insert_keeps_order(order, at as int, entry@);
            lemma_insert_keeps_entries(order, seen, at as int, entry@);
        }
        n += 1;
    }
    assert(all.deep_view().take(n as int) =~= all.deep_view());
    sorted
}

/// The same entries, last first.
fn reversed<'a>(order: &Vec<&'a Entry>) -> (reverse: Vec<&'a Entry>)
    ensures
        reverse@ == order@.reverse(),
{
    let mut reverse: Vec<&'a Entry> = Vec::new();
    let mut left: usize = order.len();
    while left > 0
        invariant
            left <= order@.len(),
            reverse@.len() == order@.len() - left,
            forall|i: int| 0 <= i < reverse@.len() ==> reverse@[i] == order@[order@.len() - 1 - i],
        decreases left,
    {
        left -= 1;
        reverse.push(order[left]);
    }
    assert(reverse@ =~= order@.reverse());
    reverse
}

/// A sequence that holds the same entries as a listing of `list`, is as long
/// and ascends is a listing of `list` too.
proof fn lemma_sorted_listing(list: EntryListView, all: Seq<EntryView>, sorted: Seq<EntryView>)
    requires
        list.lists(all),
        same_entries(sorted, all),
        sorted.len() == all.len(),
        ordered(sorted, true),
    ensures
        list.lists_in_order(sorted, true),
{
    assert forall|i: int| 0 <= i < sorted.len() implies list.entries.contains_key(
        (#[trigger] sorted[i]).id,
    ) && list.entries[sorted[i].id] == sorted[i] by {
        let k = choose|k: int| 0 <= k < all.len() && all[k] == sorted[i];
        assert(list.entries.contains_key(all[k].id));
    }
    assert forall|i: int, j: int| 0 <= i < j < sorted.len() implies (#[trigger] sorted[i]).id != (
    #[trigger] sorted[j]).id by {
        assert(precedes(sorted[i], sorted[j]));
        assert(list.entries[sorted[i].id] == sorted[i]);
        assert(list.entries[sorted[j].id] == sorted[j]);
    }
    assert forall|id: u128| #[trigger] list.entries.contains_key(id) implies sorted.contains(
        list.entries[id],
    ) by {
        let k = choose|k: int| 0 <= k < all.len() && all[k] == list.entries[id];
        assert(sorted.contains(all[k]));
    }
}

/// The reverse of an ascending listing is a descending listing, and the
/// reverse of a descending listing an ascending one.
pub proof fn lemma_reverse_listing(list: EntryListView, order: Seq<EntryView>, ascending: bool)
    requires
        list.lists_in_order(order, ascending),
    ensures
        list.lists_in_order(order.reverse(), !ascending),
{
    let reverse = order.reverse();
    let last = order.len() - 1;
    assert forall|i: int| 0 <= i < reverse.len() implies list.entries.contains_key(
        (#[trigger] reverse[i]).id,
    ) && list.entries[reverse[i].id] == reverse[i] by {
        assert(reverse[i] == order[last - i]);
    }
    assert forall|i: int, j: int| 0 <= i < j < reverse.len() implies (#[trigger] reverse[i]).id != (
    #[trigger] reverse[j]).id by {
        assert(reverse[i] == order[last - i] && reverse[j] == order[last - j]);
    }
    assert forall|id: u128| #[trigger] list.entries.contains_key(id) implies reverse.contains(
        list.entries[id],
    ) by {
        let k = choose|k: int| 0 <= k < order.len() && order[k] == list.entries[id];
        assert(reverse[last - k] == order[k]);
    }
    assert forall|i: int, j: int| 0 <= i < j < reverse.len() implies if !ascending {
        precedes(#[trigger] reverse[i], #[trigger] reverse[j])
    } else {
        precedes(reverse[j], reverse[i])
    } by {
        assert(reverse[i] == order[last - i] && reverse[j] == order[last - j]);
    }
}

/// Two ascending sequences that hold the same entries are equal.
proof fn lemma_ascending_unique(a: Seq<EntryView>, b: Seq<EntryView>)
    requires
        ordered(a, true),
        ordered(b, true),
        same_entries(a, b),
    ensures
        a == b,
    decreases a.len(),
{
    if a.len() == 0 {
        if b.len() > 0 {
            assert(a.contains(b[0]));
        }
        assert(a =~= b);
    } else {
        assert(b.contains(a[0]));
        let j = choose|j: int| 0 <= j < b.len() && b[j] == a[0];
        assert(a.contains(b[0]));
        let i = choose|i: int| 0 <= i < a.len() && a[i] == b[0];
        if j > 0 {
            assert(precedes(b[0], b[j]));
            if i > 0 {
                assert(precedes(a[0], a[i]));
            }
        }
        assert(a[0] == b[0]);
        let a_rest = a.drop_first();
        let b_rest = b.drop_first();
        assert forall|x: int| 0 <= x < a_rest.len() implies b_rest.contains(#[trigger] a_rest[x]) by {
            assert(a_rest[x] == a[x + 1]);
            assert(precedes(a[0], a[x + 1]));
            assert(b.contains(a[x + 1]));
            let y = choose|y: int| 0 <= y < b.len() && b[y] == a[x + 1];
            assert(b_rest[y - 1] == b[y]);
        }
        assert forall|y: int| 0 <= y < b_rest.len() implies a_rest.contains(#[trigger] b_rest[y]) by {
            assert(b_rest[y] == b[y + 1]);
            assert(precedes(b[0], b[y + 1]));
            assert(a.contains(b[y + 1]));
            let x = choose|x: int| 0 <= x < a.len() && a[x] == b[y + 1];
            assert(a_rest[x - 1] == a[x]);
        }
        assert forall|x: int, y: int| 0 <= x < y < a_rest.len() implies precedes(
            #[trigger] a_rest[x],
            #[trigger] a_rest[y],
        ) by {
            assert(a_rest[x] == a[x + 1] && a_rest[y] == a[y + 1]);
        }
        assert forall|x: int, y: int| 0 <= x < y < b_rest.len() implies precedes(
            #[trigger] b_rest[x],
            #[trigger] b_rest[y],
        ) by {
            assert(b_rest[x] == b[x + 1] && b_rest[y] == b[y + 1]);
        }
        lemma_ascending_unique(a_rest, b_rest);
        assert(a =~= seq![a[0]] + a_rest);
        assert(b =~= seq![b[0]] + b_rest);
    }
}

/// A list has one ascending listing and one descending listing: the order
/// of the entries is fixed by their starts and ids.
pub proof fn lemma_order_is_unique(
    list: EntryListView,
    a: Seq<EntryView>,
    b: Seq<EntryView>,
    ascending: bool,
)
    requires
        list.lists_in_order(a, ascending),
        list.lists_in_order(b, ascending),
    ensures
        a == b,
{
    if ascending {
        lemma_ascending_unique(a, b);
    } else {
        lemma_reverse_listing(list, a, false);
        lemma_reverse_listing(list, b, false);
        lemma_ascending_unique(a.reverse(), b.reverse());
        assert(a =~= a.reverse().reverse());
        assert(b =~= b.reverse().reverse());
    }
}

/// The descending listing of a list is the exact reverse of its ascending
/// listing.
pub proof fn lemma_descending_is_reverse(
    list: EntryListView,
    ascending: Seq<EntryView>,
    descending: Seq<EntryView>,
)
    requires
        list.lists_in_order(ascending, true),
        list.lists_in_order(descending, false),
    ensures
        descending == ascending.reverse(),
{
    lemma_reverse_listing(list, ascending, true);
    lemma_order_is_unique(list, descending, ascending.reverse(), false);
}

/// In an ascending listing the start times never decrease, and in a
/// descending listing they never increase.
pub proof fn lemma_order_by_start(list: EntryListView, order: Seq<EntryView>, ascending: bool)
    requires
        list.lists_in_order(order, ascending),
    ensures
        forall|i: int, j: int|
            0 <= i < j < order.len() ==> if ascending {
                (#[trigger] order[i]).start_time <= (#[trigger] order[j]).start_time
            } else {
                order[i].start_time >= order[j].start_time
            },
{
    assert forall|i: int, j: int| 0 <= i < j < order.len() implies if ascending {
        (#[trigger] order[i]).start_time <= (#[trigger] order[j]).start_time
    } else {
        order[i].start_time >= order[j].start_time
    } by {
        if ascending {
            assert(precedes(order[i], order[j]));
        } else {
            assert(precedes(order[j], order[i]));
        }
    }
}

impl EntryList {
    /// Returns all the entries in this list, sorted by their `start_time`:
    /// earliest first if `ascending`, latest first if not. Entries that start
    /// at the same time come in the order of their ids.
    pub fn get_entries_in_order(&self, ascending: bool) -> (order: Vec<&Entry>)
        ensures
            self@.lists_in_order(order.deep_view(), ascending),
            forall|i: int, j: int|
                0 <= i < j < order.deep_view().len() ==> if ascending {
                    (#[trigger] order.deep_view()[i]).start_time <= (
                    #[trigger] order.deep_view()[j]).start_time
                } else {
                    order.deep_view()[i].start_time >= order.deep_view()[j].start_time
                },
    {
        let all = self.entries();
        let sorted = sort_by_start(all);
        proof {
            lemma_sorted_listing(self@, all.deep_view(), sorted.deep_view());
        }
        if ascending {
            proof {
                lemma_order_by_start(self@, sorted.deep_view(), true);
            }
            sorted
        } else {
            let order = reversed(&sorted);
            proof {
                assert(order.deep_view() =~= sorted.deep_view().reverse());
                lemma_reverse_listing(self@, sorted.deep_view(), true);
                lemma_order_by_start(self@, order.deep_view(), false);
            }
            order
        }
    }
}

} // verus!

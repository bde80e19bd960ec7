//! A list on its way to storage and back, as plain parts.

use vstd::prelude::*;
use crate::entries::{Entry, EntryView};
use crate::errors::Error;
use crate::list::{EntryList, EntryListView};

verus! {

/// The parts of a list as they are stored: its entries in some order, and
/// the id of the running entry.
#[derive(Debug)]
pub struct Snapshot {
    pub entries: Vec<Entry>,
    pub current_entry: Option<u128>,
}

/// What a [`Snapshot`] stands for.
pub struct SnapshotView {
    pub entries: Seq<EntryView>,
    pub current_entry: Option<u128>,
}

impl View for Snapshot {
    type V = SnapshotView;

    open spec fn view(&self) -> SnapshotView {
        SnapshotView { entries: self.entries.deep_view(), current_entry: self.current_entry }
    }
}

impl SnapshotView {
    /// Whether the parts make a list: see [`EntryListView::consistent`].
    pub open spec fn consistent(self) -> bool {
        EntryListView::consistent(self.entries, self.current_entry)
    }
}

impl EntryListView {
    /// Whether `snapshot` holds the parts of this list.
    pub open spec fn saved_as(self, snapshot: SnapshotView) -> bool {
        self.made_of(snapshot.entries, snapshot.current_entry)
    }
}

/// What was found where a list is stored.
#[derive(Debug)]
pub enum Stored {
    /// Nothing is stored there.
    Missing,
    /// The place could not be read.
    Unreadable,
    /// What is stored there is not an encoded list.
    Malformed,
    /// The parts of a list.
    Found(Snapshot),
}

impl EntryList {
    /// Brings back the list that was found in storage.
    ///
    /// # Errors
    /// - [`Error::File`] if nothing is stored or the place could not be read
    /// - [`Error::SerializeSpanned`] if what is stored is not an encoded list
    /// - [`Error::Inconsistent`] if the stored parts do not make a list
    pub fn load(stored: Stored) -> (loaded: Result<EntryList, Error>)
        ensures
            match stored {
                Stored::Missing => loaded matches Err(e) && e == Error::File,
                Stored::Unreadable => loaded matches Err(e) && e == Error::File,
                Stored::Malformed => loaded matches Err(e) && e == Error::SerializeSpanned,
                Stored::Found(snapshot) => if snapshot@.consistent() {
                    loaded matches Ok(list) && list@.wf() && list@.saved_as(snapshot@)
                } else {
                    loaded matches Err(e) && e == Error::Inconsistent
                },
            },
    {
        match stored {
            Stored::Missing => Err(Error::File),
            Stored::Unreadable => Err(Error::File),
            Stored::Malformed => Err(Error::SerializeSpanned),
            Stored::Found(snapshot) => {
                match EntryList::from_parts(snapshot.entries, snapshot.current_entry) {
                    Some(list) => Ok(list),
                    None => Err(Error::Inconsistent),
                }
            },
        }
    }

    /// Brings back the list that was found in storage, or creates a new one
    /// if nothing is stored.
    ///
    /// # Errors
    /// - [`Error::File`] if the place could not be read
    /// - [`Error::SerializeSpanned`] if what is stored is not an encoded list
    /// - [`Error::Inconsistent`] if the stored parts do not make a list
    pub fn load_or_create(stored: Stored) -> (loaded: Result<EntryList, Error>)
        ensures
            match stored {
                Stored::Missing => loaded matches Ok(list) && list@ == EntryListView::empty()
                    && list@.wf(),
                Stored::Unreadable => loaded matches Err(e) && e == Error::File,
                Stored::Malformed => loaded matches Err(e) && e == Error::SerializeSpanned,
                Stored::Found(snapshot) => if snapshot@.consistent() {
                    loaded matches Ok(list) && list@.wf() && list@.saved_as(snapshot@)
                } else {
                    loaded matches Err(e) && e == Error::Inconsistent
                },
            },
    {
        match stored {
            Stored::Missing => Ok(EntryList::new()),
            found => EntryList::load(found),
        }
    }

    /// The parts of this list, to be stored: a copy of every entry, and the
    /// id of the running entry.
    pub fn save(&self) -> (snapshot: Snapshot)
        ensures
            self@.saved_as(snapshot@),
            snapshot@.consistent(),
    {
        let all = self.entries();
        let mut entries: Vec<Entry> = Vec::new();
        let mut i: usize = 0;
        while i < all.len()
            invariant
                i <= all@.len(),
                entries@.len() == i,
                forall|k: int| 0 <= k < i ==> entries@[k]@ == all@[k]@,
            decreases all@.len() - i,
        {
            entries.push(all[i].clone());
            i += 1;
        }
        assert(entries.deep_view() =~= all.deep_view());
        let snapshot = Snapshot { entries, current_entry: self.current_id() };
        proof {
            lemma_saved_is_consistent(self@, snapshot@);
        }
        snapshot
    }
}

/// The parts of a list that meets the invariant make a list.
pub proof fn lemma_saved_is_consistent(list: EntryListView, snapshot: SnapshotView)
    requires
        list.wf(),
        list.saved_as(snapshot),
    ensures
        snapshot.consistent(),
{
    let all = snapshot.entries;
    if let Some(id) = list.current {
        assert(all.contains(list.entries[id]));
        let i = choose|i: int| 0 <= i < all.len() && all[i] == list.entries[id];
        assert(all[i].id == id && all[i].is_open());
    }
}

/// The parts fix the list: two lists with the same parts are equal.
pub proof fn lemma_parts_fix_list(a: EntryListView, b: EntryListView, snapshot: SnapshotView)
    requires
        a.wf(),
        b.wf(),
        a.saved_as(snapshot),
        b.saved_as(snapshot),
    ensures
        a == b,
{
    let all = snapshot.entries;
    assert forall|id: u128| a.entries.contains_key(id) <==> b.entries.contains_key(id) by {
        if a.entries.contains_key(id) {
            let i = choose|i: int| 0 <= i < all.len() && all[i] == a.entries[id];
            assert(b.entries.contains_key(all[i].id));
        }
        if b.entries.contains_key(id) {
            let i = choose|i: int| 0 <= i < all.len() && all[i] == b.entries[id];
            assert(a.entries.contains_key(all[i].id));
        }
    }
    assert forall|id: u128| a.entries.contains_key(id) implies a.entries[id] == b.entries[id] by {
        let i = choose|i: int| 0 <= i < all.len() && all[i] == a.entries[id];
        assert(b.entries[all[i].id] == all[i]);
    }
    assert(a.entries =~= b.entries);
}

/// A list that is saved and loaded again is the list it was, with every
/// field of every entry and with the same running entry: the parts of a list
/// that meets the invariant make a list, and any list made of them is equal
/// to the one that was saved.
pub proof fn lemma_save_load_round_trip(
    saved: EntryListView,
    snapshot: SnapshotView,
    loaded: EntryListView,
)
    requires
        saved.wf(),
        saved.saved_as(snapshot),
        loaded.wf(),
        loaded.saved_as(snapshot),
    ensures
        snapshot.consistent(),
        loaded == saved,
{
    lemma_saved_is_consistent(saved, snapshot);
    lemma_parts_fix_list(saved, loaded, snapshot);
}

} // verus!

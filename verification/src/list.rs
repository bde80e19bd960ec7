//! The list of entries and its one running entry.

use vstd::prelude::*;
use std::collections::HashMap;
use crate::entries::{Entry, EntryView};
use crate::ident::fresh_id;
use crate::time::Timestamp;
use vstd::std_specs::iter::IteratorSpec;

verus! {

/// What an [`EntryList`] stands for: its entries by id, and the id of the
/// running entry while there is one.
pub struct EntryListView {
    pub entries: Map<u128, EntryView>,
    pub current: Option<u128>,
}

impl EntryListView {
    /// The list without entries.
    pub open spec fn empty() -> EntryListView {
        EntryListView { entries: Map::empty(), current: None }
    }

    /// The invariant of a list: every entry is filed under its own id, the
    /// running entry is present and open, and no other entry is open.
    pub open spec fn wf(self) -> bool {
        &&& self.entries.dom().finite()
        &&& forall|id: u128| #[trigger]
            self.entries.contains_key(id) ==> self.entries[id].id == id
        &&& forall|id: u128|
            self.entries.contains_key(id) && (#[trigger] self.entries[id]).is_open()
                ==> self.current == Some(id)
        &&& match self.current {
            Some(id) => self.entries.contains_key(id) && self.entries[id].is_open(),
            None => true,
        }
    }

    /// Whether `all` holds every entry of the list exactly once, in whatever
    /// order.
    pub open spec fn lists(self, all: Seq<EntryView>) -> bool {
        &&& all.len() == self.entries.len()
        &&& forall|i: int|
            0 <= i < all.len() ==> self.entries.contains_key((#[trigger] all[i]).id)
                && self.entries[all[i].id] == all[i]
        &&& forall|i: int, j: int|
            0 <= i < j < all.len() ==> (#[trigger] all[i]).id != (#[trigger] all[j]).id
        &&& forall|id: u128| #[trigger]
            self.entries.contains_key(id) ==> all.contains(self.entries[id])
    }

    /// Whether a list can be made of the entries `all` with `current` as the
    /// id of its running entry: no two entries have the same id, the running
    /// entry is among them and open, and no other entry is open.
    pub open spec fn consistent(all: Seq<EntryView>, current: Option<u128>) -> bool {
        &&& forall|i: int, j: int|
            0 <= i < j < all.len() ==> (#[trigger] all[i]).id != (#[trigger] all[j]).id
        &&& forall|i: int|
            0 <= i < all.len() && (#[trigger] all[i]).is_open() ==> current == Some(all[i].id)
        &&& match current {
            Some(id) => exists|i: int|
                0 <= i < all.len() && (#[trigger] all[i]).id == id && all[i].is_open(),
            None => true,
        }
    }

    /// Whether the list is made of the entries `all`, each held once, and
    /// `current` is the id of its running entry.
    pub open spec fn made_of(self, all: Seq<EntryView>, current: Option<u128>) -> bool {
        self.lists(all) && self.current == current
    }

    /// A list is running while it has a current entry, and idle otherwise.
    pub open spec fn is_running(self) -> bool {
        self.current is Some
    }

    /// The running entry, if any.
    pub open spec fn current_entry(self) -> Option<EntryView> {
        match self.current {
            Some(id) => Some(self.entries[id]),
            None => None,
        }
    }

    /// What a stop at `now` with the given overrides makes of the running
    /// entry: it is stopped first and amended then. `None` on an idle list.
    pub open spec fn stopped_entry(
        self,
        now: int,
        project: Option<Seq<char>>,
        description: Option<Seq<char>>,
        tags: Seq<Seq<char>>,
    ) -> Option<EntryView> {
        match self.current {
            Some(id) => Some(self.entries[id].stopped(now).amended(project, description, tags)),
            None => None,
        }
    }

    /// The list after a stop at `now` with the given overrides: the running
    /// entry is replaced by its stopped and amended form and the list is
    /// idle. An idle list stays as it is.
    pub open spec fn stop(
        self,
        now: int,
        project: Option<Seq<char>>,
        description: Option<Seq<char>>,
        tags: Seq<Seq<char>>,
    ) -> EntryListView {
        match self.current {
            Some(id) => EntryListView {
                entries: self.entries.insert(
                    id,
                    self.entries[id].stopped(now).amended(project, description, tags),
                ),
                current: None,
            },
            None => self,
        }
    }

    /// The list after a start at `now`: a running entry is stopped at `now`
    /// without overrides, then the new entry is filed under `id` and runs.
    pub open spec fn start(
        self,
        id: u128,
        now: int,
        project: Option<Seq<char>>,
        description: Option<Seq<char>>,
        tags: Seq<Seq<char>>,
    ) -> EntryListView {
        EntryListView {
            entries: self.stop(now, None, None, Seq::empty()).entries.insert(
                id,
                EntryView::created(id, now, project, description, tags),
            ),
            current: Some(id),
        }
    }

    /// The list after a clear: the running entry is gone from the entries
    /// and the list is idle. An idle list stays as it is.
    pub open spec fn clear(self) -> EntryListView {
        match self.current {
            Some(id) => EntryListView { entries: self.entries.remove(id), current: None },
            None => self,
        }
    }
}

/// A set of time entries
#[derive(Debug)]
pub struct EntryList {
    /// All entries, each under its own id
    entries: HashMap<u128, Entry>,
    /// The currently running entry, if any.
    ///
    /// This field is set when a new entry is started, and cleared when it is
    /// stopped (or reset)
    current_entry: Option<u128>,
}

impl View for EntryList {
    type V = EntryListView;

    closed spec fn view(&self) -> EntryListView {
        EntryListView {
            entries: self.entries@.map_values(|e: Entry| e@),
            current: self.current_entry,
        }
    }
}

impl Default for EntryList {
    /// The empty list.
    fn default() -> (list: EntryList)
        ensures
            list@ == EntryListView::empty(),
            list@.wf(),
    {
        EntryList::new()
    }
}

impl EntryList {
    /// Every list meets the invariant of lists at all times.
    #[verifier::type_invariant]
    spec fn inv(self) -> bool {
        self@.wf()
    }

    /// Creates a new, empty list
    pub fn new() -> (list: EntryList)
        ensures
            list@ == EntryListView::empty(),
            list@.wf(),
    {
        let entries: HashMap<u128, Entry> = HashMap::new();
        assert(entries@.map_values(|e: Entry| e@) =~= Map::<u128, EntryView>::empty());
        EntryList { entries, current_entry: None }
    }

    /// Takes the entries and the id of the running entry out of the list,
    /// which is left empty. What is taken out can be changed step by step,
    /// through states that are no list, and put back as a whole.
    fn take_parts(&mut self) -> (parts: (HashMap<u128, Entry>, Option<u128>))
        ensures
            parts.0@.map_values(|e: Entry| e@) == old(self)@.entries,
            parts.1 == old(self)@.current,
            old(self)@.wf(),
            final(self)@ == EntryListView::empty(),
    {
        proof {
            use_type_invariant(&*self);
        }
        let mut taken = EntryList::new();
        core::mem::swap(self, &mut taken);
        let EntryList { entries, current_entry } = taken;
        (entries, current_entry)
    }

    /// Makes a list of the entries `all`, with `current` as the id of its
    /// running entry. There is such a list if and only if the parts are
    /// consistent: no two entries have the same id, the running entry is
    /// among them and open, and no other entry is open.
    pub fn from_parts(all: Vec<Entry>, current: Option<u128>) -> (list: Option<EntryList>)
        ensures
            list is Some == EntryListView::consistent(all.deep_view(), current),
            list matches Some(list) ==> list@.wf() && list@.made_of(all.deep_view(), current),
    {
        broadcast use vstd::std_specs::hash::group_hash_axioms;

        let ghost parts = all.deep_view();
        let mut rest = all;
        let mut entries: HashMap<u128, Entry> = HashMap::new();
        while rest.len() > 0
            invariant
                parts == all.deep_view(),
                rest.deep_view() == parts.take(rest@.len() as int),
                rest@.len() <= parts.len(),
                entries@.dom().finite(),
                entries@.dom().len() == parts.len() - rest@.len(),
                forall|i: int|
                    rest@.len() <= i < parts.len() ==> entries@.contains_key((#[trigger] parts[i]).id)
                        && entries@[parts[i].id]@ == parts[i],
                forall|id: u128| #[trigger]
                    entries@.contains_key(id) ==> exists|i: int|
                        rest@.len() <= i < parts.len() && (#[trigger] parts[i]).id == id,
                forall|i: int, j: int|
                    rest@.len() <= i < j < parts.len() ==> (#[trigger] parts[i]).id != (
                    #[trigger] parts[j]).id,
                forall|i: int|
                    rest@.len() <= i < parts.len() && (#[trigger] parts[i]).is_open() ==> current
                        == Some(parts[i].id),
            decreases rest@.len(),
        {
            let ghost before = rest.deep_view();
            let entry = rest.pop().unwrap();
            let ghost at = rest@.len() as int;
            assert(entry@ == parts[at]) by {
                assert(before[at] == entry@);
            }
            assert(rest.deep_view() =~= parts.take(at));
            let id = entry.id();
            if entries.contains_key(&id) {
                proof {
                    let j = choose|j: int| at < j < parts.len() && (#[trigger] parts[j]).id == id;
                    assert(parts[at].id == parts[j].id);
                }
                return None;
            }
            let open = entry.end_time().is_none();
            if open && current != Some(id) {
                assert(parts[at].is_open());
                return None;
            }
            entries.insert(id, entry);
        }
        match current {
            None => {},
            Some(id) => {
                match entries.get(&id) {
                    None => {
                        return None;
                    },
                    Some(entry) => {
                        if entry.end_time().is_some() {
                            return None;
                        }
                    },
                }
            },
        }
        proof {
            let made = entries@.map_values(|e: Entry| e@);
            assert(made.dom() =~= entries@.dom());
            assert forall|id: u128| #[trigger] made.contains_key(id) implies parts.contains(
                made[id],
            ) by {
                let i = choose|i: int| 0 <= i < parts.len() && (#[trigger] parts[i]).id == id;
                assert(parts[i] == made[id]);
            }
            if let Some(id) = current {
                let i = choose|i: int| 0 <= i < parts.len() && (#[trigger] parts[i]).id == id;
                assert(parts[i].is_open());
            }
        }
        let list = EntryList { entries, current_entry: current };
        Some(list)
    }

    /// Gets the id of the current entry, if any
    pub fn current_id(&self) -> (id: Option<u128>)
        ensures
            self@.wf(),
            id == self@.current,
    {
        proof {
            use_type_invariant(self);
        }
        self.current_entry
    }

    /// Starts a new entry, drawing its id at random and its start from the
    /// system clock. A running entry is stopped first, at that same reading
    /// of the clock and with its labels unchanged.
    ///
    /// Returns the newly created [`Entry`]
    pub fn start_entry(
        &mut self,
        project: Option<String>,
        description: Option<String>,
        tags: Vec<String>,
    ) -> (entry: &Entry)
        ensures
            final(self)@.wf(),
            entry@ == EntryView::created(
                entry@.id,
                entry@.start_time,
                project.deep_view(),
                description.deep_view(),
                tags.deep_view(),
            ),
            final(self)@ == old(self)@.start(
                entry@.id,
                entry@.start_time,
                project.deep_view(),
                description.deep_view(),
                tags.deep_view(),
            ),
            final(self)@.current_entry() == Some(entry@),
            old(self)@.current matches Some(previous) ==> previous != entry@.id ==> {
                &&& final(self)@.entries.contains_key(previous)
                &&& final(self)@.entries[previous] == old(self)@.entries[previous].stopped(
                    entry@.start_time,
                )
                &&& final(self)@.entries[previous].end_time == Some(entry@.start_time)
            },
    {
        let id = fresh_id();
        let now = Timestamp::now();
        self.start_entry_with(id, now, project, description, tags)
    }

    /// Starts a new entry with the id `id` at the time `now`. A running entry
    /// is stopped first, at `now` and with its labels unchanged. An entry
    /// that was filed under `id` before is replaced by the new one.
    ///
    /// Returns the newly created [`Entry`]
    pub fn start_entry_with(
        &mut self,
        id: u128,
        now: Timestamp,
        project: Option<String>,
        description: Option<String>,
        tags: Vec<String>,
    ) -> (entry: &Entry)
        ensures
            final(self)@.wf(),
            entry@ == EntryView::created(
                id,
                now@,
                project.deep_view(),
                description.deep_view(),
                tags.deep_view(),
            ),
            final(self)@ == old(self)@.start(
                id,
                now@,
                project.deep_view(),
                description.deep_view(),
                tags.deep_view(),
            ),
            final(self)@.current_entry() == Some(entry@),
            old(self)@.current matches Some(previous) ==> previous != id ==> {
                &&& final(self)@.entries.contains_key(previous)
                &&& final(self)@.entries[previous] == old(self)@.entries[previous].stopped(now@)
                &&& final(self)@.entries[previous].end_time == Some(now@)
            },
    {
        broadcast use vstd::std_specs::hash::group_hash_axioms;

        proof {
            use_type_invariant(&*self);
        }
        let no_tags: Vec<String> = Vec::new();
        assert(no_tags.deep_view() =~= Seq::<Seq<char>>::empty());
        let _ = self.stop_current_entry_at(now, None, None, no_tags);
        let entry = Entry::new(id, now, project, description, tags);
        let (mut entries, _) = self.take_parts();
        entries.insert(id, entry);
        assert(entries@.map_values(|e: Entry| e@) =~= old(self)@.start(
            id,
            now@,
            project.deep_view(),
            description.deep_view(),
            tags.deep_view(),
        ).entries);
        *self = EntryList { entries, current_entry: Some(id) };
        self.entries.get(&id).unwrap()
    }

    /// Stops the current entry, if any, at the present reading of the system
    /// clock. A given project or description replaces that of the entry, and
    /// a non-empty `tags` replaces its tags.
    ///
    /// Returns the [`Entry`] of the entry stopped, if anything was actually stopped
    pub fn stop_current_entry(
        &mut self,
        project: Option<String>,
        description: Option<String>,
        tags: Vec<String>,
    ) -> (stopped: Option<&Entry>)
        ensures
            final(self)@.wf(),
            !final(self)@.is_running(),
            stopped is Some == old(self)@.is_running(),
            !old(self)@.is_running() ==> final(self)@ == old(self)@,
            stopped matches Some(entry) ==> {
                &&& entry@.end_time is Some
                &&& Some(entry@) == old(self)@.stopped_entry(
                    entry@.end_time.unwrap(),
                    project.deep_view(),
                    description.deep_view(),
                    tags.deep_view(),
                )
                &&& final(self)@ == old(self)@.stop(
                    entry@.end_time.unwrap(),
                    project.deep_view(),
                    description.deep_view(),
                    tags.deep_view(),
                )
            },
    {
        let now = Timestamp::now();
        self.stop_current_entry_at(now, project, description, tags)
    }

    /// Stops the current entry, if any, at the time `now`. A given project or
    /// description replaces that of the entry, and a non-empty `tags`
    /// replaces its tags.
    ///
    /// Returns the [`Entry`] of the entry stopped, if anything was actually stopped
    pub fn stop_current_entry_at(
        &mut self,
        now: Timestamp,
        project: Option<String>,
        description: Option<String>,
        tags: Vec<String>,
    ) -> (stopped: Option<&Entry>)
        ensures
            final(self)@.wf(),
            !final(self)@.is_running(),
            final(self)@ == old(self)@.stop(
                now@,
                project.deep_view(),
                description.deep_view(),
                tags.deep_view(),
            ),
            stopped.deep_view() == old(self)@.stopped_entry(
                now@,
                project.deep_view(),
                description.deep_view(),
                tags.deep_view(),
            ),
            !old(self)@.is_running() ==> stopped is None && final(self)@ == old(self)@,
    {
        broadcast use vstd::std_specs::hash::group_hash_axioms;

        proof {
            use_type_invariant(&*self);
        }
        match self.current_entry {
            None => None,
            Some(id) => {
                let (mut entries, _) = self.take_parts();
                let mut entry = entries.remove(&id).unwrap();
                entry.stop_at(now);
                entry.amend(project, description, tags);
                entries.insert(id, entry);
                assert(entries@.map_values(|e: Entry| e@) =~= old(self)@.stop(
                    now@,
                    project.deep_view(),
                    description.deep_view(),
                    tags.deep_view(),
                ).entries);
                *self = EntryList { entries, current_entry: None };
                self.entries.get(&id)
            },
        }
    }

    /// Stops and discards the current entry, if any
    ///
    /// This effectively lets you "cancel" a entry that was started incorrectly
    /// Returns the [`Entry`] of the entry stopped, if anything was actually stopped
    pub fn clear_current_entry(&mut self) -> (cleared: Option<Entry>)
        ensures
            final(self)@.wf(),
            !final(self)@.is_running(),
            final(self)@ == old(self)@.clear(),
            cleared.deep_view() == old(self)@.current_entry(),
            !old(self)@.is_running() ==> cleared is None && final(self)@ == old(self)@,
            old(self)@.current matches Some(id) ==> !final(self)@.entries.contains_key(id),
    {
        broadcast use vstd::std_specs::hash::group_hash_axioms;

        proof {
            use_type_invariant(&*self);
        }
        match self.current_entry {
            None => None,
            Some(id) => {
                let (mut entries, _) = self.take_parts();
                let entry = entries.remove(&id).unwrap();
                assert(entries@.map_values(|e: Entry| e@) =~= old(self)@.clear().entries);
                *self = EntryList { entries, current_entry: None };
                Some(entry)
            },
        }
    }

    /// Gets every entry of the list, each one once, in no particular order
    pub fn entries(&self) -> (all: Vec<&Entry>)
        ensures
            self@.wf(),
            self@.lists(all.deep_view()),
    {
        broadcast use vstd::std_specs::hash::group_hash_axioms;

        proof {
            use_type_invariant(self);
        }
        let mut all: Vec<&Entry> = Vec::new();
        let ghost pairs = self.entries.iter().remaining();
        for pair in it: self.entries.iter()
            invariant
                it.seq() == pairs,
                pairs == self.entries.iter().remaining(),
                pairs.no_duplicates(),
                all@.len() == it.index(),
                forall|k: int| 0 <= k < all@.len() ==> *all@[k] == *pairs[k].1,
        {
            let (_, entry) = pair;
            all.push(entry);
        }
        proof {
            let views = all.deep_view();
            vstd::std_specs::hash::axiom_spec_hash_map_iter(&self.entries);
            assert(self@.entries.dom() =~= self.entries@.dom());
            assert forall|i: int| 0 <= i < views.len() implies self@.entries.contains_key(
                (#[trigger] views[i]).id,
            ) && self@.entries[views[i].id] == views[i] by {
                assert(self@.entries.contains_key(*pairs[i].0));
            }
            assert forall|i: int, j: int| 0 <= i < j < views.len() implies (#[trigger] views[i]).id
                != (#[trigger] views[j]).id by {
                assert(self@.entries.contains_key(*pairs[i].0));
                assert(self@.entries.contains_key(*pairs[j].0));
                if views[i].id == views[j].id {
                    assert(pairs[i] == pairs[j]);
                }
            }
            assert forall|id: u128| #[trigger] self@.entries.contains_key(id) implies views.contains(
                self@.entries[id],
            ) by {
                let k = choose|k: int| 0 <= k < pairs.len() && pairs[k] == (&id, &self.entries@[id]);
                assert(views[k] == self@.entries[id]);
            }
        }
        all
    }

    /// Gets the current entry, if any
    pub fn current_entry(&self) -> (current: Option<&Entry>)
        ensures
            self@.wf(),
            current.deep_view() == self@.current_entry(),
    {
        broadcast use vstd::std_specs::hash::group_hash_axioms;

        proof {
            use_type_invariant(self);
        }
        match self.current_entry {
            None => None,
            Some(id) => self.entries.get(&id),
        }
    }
}

} // verus!

//! What holds of every list, whatever was done to it.

use vstd::prelude::*;
use crate::entries::EntryView;
use crate::list::EntryListView;

verus! {

/// One step in the life of a list.
pub enum Command {
    /// Start an entry with the id `id` at the time `now`.
    Start {
        id: u128,
        now: int,
        project: Option<Seq<char>>,
        description: Option<Seq<char>>,
        tags: Seq<Seq<char>>,
    },
    /// Stop the running entry at the time `now`, with overrides.
    Stop { now: int, project: Option<Seq<char>>, description: Option<Seq<char>>, tags: Seq<Seq<char>> },
    /// Discard the running entry.
    Clear,
}

impl EntryListView {
    /// The list after one command.
    pub open spec fn apply(self, command: Command) -> EntryListView {
        match command {
            Command::Start { id, now, project, description, tags } => self.start(
                id,
                now,
                project,
                description,
                tags,
            ),
            Command::Stop { now, project, description, tags } => self.stop(
                now,
                project,
                description,
                tags,
            ),
            Command::Clear => self.clear(),
        }
    }

    /// The list after a sequence of commands, the first of them applied first.
    pub open spec fn run(self, commands: Seq<Command>) -> EntryListView
        decreases commands.len(),
    {
        if commands.len() == 0 {
            self
        } else {
            self.run(commands.drop_last()).apply(commands.last())
        }
    }
}

/// The empty list meets the invariant.
pub proof fn lemma_empty_wf()
    ensures
        EntryListView::empty().wf(),
{
}

/// A start keeps the invariant.
pub proof fn lemma_start_wf(
    list: EntryListView,
    id: u128,
    now: int,
    project: Option<Seq<char>>,
    description: Option<Seq<char>>,
    tags: Seq<Seq<char>>,
)
    requires
        list.wf(),
    ensures
        list.start(id, now, project, description, tags).wf(),
{
}

/// A stop keeps the invariant and leaves the list idle.
pub proof fn lemma_stop_wf(
    list: EntryListView,
    now: int,
    project: Option<Seq<char>>,
    description: Option<Seq<char>>,
    tags: Seq<Seq<char>>,
)
    requires
        list.wf(),
    ensures
        list.stop(now, project, description, tags).wf(),
        !list.stop(now, project, description, tags).is_running(),
{
}

/// A clear keeps the invariant and leaves the list idle.
pub proof fn lemma_clear_wf(list: EntryListView)
    requires
        list.wf(),
    ensures
        list.clear().wf(),
        !list.clear().is_running(),
{
}

/// Any sequence of starts, stops and clears keeps the invariant.
pub proof fn lemma_run_wf(list: EntryListView, commands: Seq<Command>)
    requires
        list.wf(),
    ensures
        list.run(commands).wf(),
    decreases commands.len(),
{
    if commands.len() > 0 {
        lemma_run_wf(list, commands.drop_last());
        let before = list.run(commands.drop_last());
        match commands.last() {
            Command::Start { id, now, project, description, tags } => {
                lemma_start_wf(before, id, now, project, description, tags);
            },
            Command::Stop { now, project, description, tags } => {
                lemma_stop_wf(before, now, project, description, tags);
            },
            Command::Clear => {
                lemma_clear_wf(before);
            },
        }
    }
}

/// In a list that meets the invariant, two open entries are one and the
/// same, and it is the running one.
pub proof fn lemma_open_entry_is_current(list: EntryListView, a: u128, b: u128)
    requires
        list.wf(),
        list.entries.contains_key(a),
        list.entries.contains_key(b),
        list.entries[a].is_open(),
        list.entries[b].is_open(),
    ensures
        a == b,
        list.current == Some(a),
{
}

/// After any sequence of starts, stops and clears on a new list, at most one
/// entry is open.
pub proof fn lemma_at_most_one_open(commands: Seq<Command>, a: u128, b: u128)
    requires
        EntryListView::empty().run(commands).entries.contains_key(a),
        EntryListView::empty().run(commands).entries.contains_key(b),
        EntryListView::empty().run(commands).entries[a].is_open(),
        EntryListView::empty().run(commands).entries[b].is_open(),
    ensures
        a == b,
{
    lemma_run_wf(EntryListView::empty(), commands);
    lemma_open_entry_is_current(EntryListView::empty().run(commands), a, b);
}

/// Right after a start, the current entry is the one just created.
pub proof fn lemma_start_then_current(
    list: EntryListView,
    id: u128,
    now: int,
    project: Option<Seq<char>>,
    description: Option<Seq<char>>,
    tags: Seq<Seq<char>>,
)
    ensures
        list.start(id, now, project, description, tags).current_entry() == Some(
            EntryView::created(id, now, project, description, tags),
        ),
        list.start(id, now, project, description, tags).current_entry().unwrap().id == id,
{
}

/// A stop on an idle list stops nothing and changes nothing.
pub proof fn lemma_stop_idle(
    list: EntryListView,
    now: int,
    project: Option<Seq<char>>,
    description: Option<Seq<char>>,
    tags: Seq<Seq<char>>,
)
    requires
        !list.is_running(),
    ensures
        list.stopped_entry(now, project, description, tags) is None,
        list.stop(now, project, description, tags) == list,
{
}

/// A clear on an idle list changes nothing.
pub proof fn lemma_clear_idle(list: EntryListView)
    requires
        !list.is_running(),
    ensures
        list.clear() == list,
{
}

/// A start on a running list closes the running entry at the time of the
/// start, with its labels unchanged, and keeps it among the entries: it ends
/// when the new entry starts. This holds where the new id is not that of the
/// running entry; an entry started under the running entry's id takes its
/// place.
pub proof fn lemma_start_closes_previous(
    list: EntryListView,
    id: u128,
    now: int,
    project: Option<Seq<char>>,
    description: Option<Seq<char>>,
    tags: Seq<Seq<char>>,
)
    requires
        list.wf(),
        list.current is Some,
        list.current != Some(id),
    ensures
        ({
            let previous = list.current.unwrap();
            let after = list.start(id, now, project, description, tags);
            &&& after.entries.contains_key(previous)
            &&& after.entries[previous].end_time == Some(now)
            &&& after.entries[previous] == EntryView { end_time: Some(now), ..list.entries[previous] }
            &&& after.entries[previous].end_time.unwrap() <= after.entries[id].start_time
            &&& after.current == Some(id)
            &&& after.entries[id].is_open()
        }),
{
}

/// A clear on a running list removes the running entry from the entries,
/// leaves every other entry as it was and leaves the list idle.
pub proof fn lemma_clear_removes_current(list: EntryListView)
    requires
        list.wf(),
        list.current is Some,
    ensures
        !list.clear().entries.contains_key(list.current.unwrap()),
        list.clear().entries == list.entries.remove(list.current.unwrap()),
        !list.clear().is_running(),
{
}

/// A stop closes the running entry once: its end is the time of the stop,
/// and a second stop meets an idle list and changes nothing.
pub proof fn lemma_stop_twice(
    list: EntryListView,
    first: int,
    second: int,
    project: Option<Seq<char>>,
    description: Option<Seq<char>>,
    tags: Seq<Seq<char>>,
)
    requires
        list.wf(),
    ensures
        list.stop(first, None, None, Seq::empty()).stop(second, project, description, tags)
            == list.stop(first, None, None, Seq::empty()),
{
}

/// A closed entry stays as it is, end time and all, whatever is done to the
/// list, unless a new entry is started under its id.
pub proof fn lemma_closed_entry_is_kept(list: EntryListView, command: Command, id: u128)
    requires
        list.wf(),
        list.entries.contains_key(id),
        !list.entries[id].is_open(),
        !(command matches Command::Start { id: started, .. } && started == id),
    ensures
        list.apply(command).entries.contains_key(id),
        list.apply(command).entries[id] == list.entries[id],
{
}

/// No command changes the id or the start of an entry that stays in the
/// list, unless a new entry is started under its id.
pub proof fn lemma_identity_is_kept(list: EntryListView, command: Command, id: u128)
    requires
        list.wf(),
        list.entries.contains_key(id),
        list.apply(command).entries.contains_key(id),
        !(command matches Command::Start { id: started, .. } && started == id),
    ensures
        list.apply(command).entries[id].id == id,
        list.apply(command).entries[id].start_time == list.entries[id].start_time,
{
}

/// A stop of a closed entry leaves its end time as it is.
pub proof fn lemma_entry_stop_idempotent(entry: EntryView, first: int, second: int)
    ensures
        entry.stopped(first).stopped(second) == entry.stopped(first),
        entry.end_time is Some ==> entry.stopped(first) == entry,
{
}

} // verus!

//! A single tracked interval of work.

use vstd::prelude::*;
use vstd::string::StringExecFns;
use crate::ident::{uuid_from, uuid_of};
use crate::time::Timestamp;

verus! {

/// What an [`Entry`] stands for: its identity, its labels and its interval.
pub struct EntryView {
    pub id: u128,
    pub project: Option<Seq<char>>,
    pub description: Option<Seq<char>>,
    pub tags: Seq<Seq<char>>,
    pub start_time: int,
    pub end_time: Option<int>,
}

impl EntryView {
    /// An entry is open while it has no end time.
    pub open spec fn is_open(self) -> bool {
        self.end_time is None
    }

    /// The entry as it is right after its creation: open, with the labels
    /// it was created with.
    pub open spec fn created(
        id: u128,
        start_time: int,
        project: Option<Seq<char>>,
        description: Option<Seq<char>>,
        tags: Seq<Seq<char>>,
    ) -> EntryView {
        EntryView { id, project, description, tags, start_time, end_time: None }
    }

    /// The entry after a stop at `now`: an open entry ends at `now`, a closed
    /// one keeps the end it has.
    pub open spec fn stopped(self, now: int) -> EntryView {
        EntryView {
            end_time: match self.end_time {
                Some(end) => Some(end),
                None => Some(now),
            },
            ..self
        }
    }

    /// The entry after its labels were amended: a given project or
    /// description replaces the old one, a non-empty tag sequence replaces
    /// the old tags, and what is absent or empty leaves the entry as it is.
    pub open spec fn amended(
        self,
        project: Option<Seq<char>>,
        description: Option<Seq<char>>,
        tags: Seq<Seq<char>>,
    ) -> EntryView {
        EntryView {
            project: if project is Some {
                project
            } else {
                self.project
            },
            description: if description is Some {
                description
            } else {
                self.description
            },
            tags: if tags.len() > 0 {
                tags
            } else {
                self.tags
            },
            ..self
        }
    }
}

/// The text that `std::fmt::Debug` writes for a vector of strings with the
/// given contents: the strings in double quotes, with what `Debug` escapes
/// in a string escaped, separated by a comma and a space, in square brackets.
pub uninterp spec fn debug_text(tags: Seq<Seq<char>>) -> Seq<char>;

/// Formats `tags` with `std::fmt::Debug` (the macro `format!` with `{:?}`).
/// The result is the text that `Debug` writes for a vector with these
/// strings, which is fixed by their contents.
#[verifier::external_body]
fn debug_tags(tags: &Vec<String>) -> (text: String)
    ensures
        text@ == debug_text(tags.deep_view()),
{
    format!("{:?}", tags)
}

/// The text of a label, and the empty text for one that is not set.
pub open spec fn text_or_empty(label: Option<Seq<char>>) -> Seq<char> {
    match label {
        Some(text) => text,
        None => Seq::empty(),
    }
}

/// The line that shows an entry: its project, a colon and a space, its
/// description, a space, and the text of its tags.
pub open spec fn entry_line(
    project: Option<Seq<char>>,
    description: Option<Seq<char>>,
    tags_text: Seq<char>,
) -> Seq<char> {
    text_or_empty(project) + seq![':', ' '] + text_or_empty(description) + seq![' '] + tags_text
}

/// Puts the line that shows an entry together: `project` (or nothing), a
/// colon and a space, `description` (or nothing), a space, and `tags_text`.
pub fn compose_line(project: &Option<String>, description: &Option<String>, tags_text: &str) -> (line:
    String)
    ensures
        line@ == entry_line(project.deep_view(), description.deep_view(), tags_text@),
{
    proof {
        reveal_strlit(": ");
        reveal_strlit(" ");
    }
    let mut line = String::new();
    match project {
        Some(text) => line.append(text.as_str()),
        None => {},
    }
    line.append(": ");
    match description {
        Some(text) => line.append(text.as_str()),
        None => {},
    }
    line.append(" ");
    line.append(tags_text);
    assert(line@ =~= entry_line(project.deep_view(), description.deep_view(), tags_text@));
    line
}

/// The line that shows an entry with the given labels: see
/// [`compose_line`], with the tags as `std::fmt::Debug` writes them.
pub fn format_line(project: &Option<String>, description: &Option<String>, tags: &Vec<String>) -> (line:
    String)
    ensures
        line@ == entry_line(
            project.deep_view(),
            description.deep_view(),
            debug_text(tags.deep_view()),
        ),
{
    let tags_text = debug_tags(tags);
    compose_line(project, description, tags_text.as_str())
}

/// One tracked interval of work.
#[derive(Debug)]
pub struct Entry {
    id: u128,
    project: Option<String>,
    description: Option<String>,
    tags: Vec<String>,
    start_time: Timestamp,
    end_time: Option<Timestamp>,
}

impl View for Entry {
    type V = EntryView;

    closed spec fn view(&self) -> EntryView {
        EntryView {
            id: self.id,
            project: self.project.deep_view(),
            description: self.description.deep_view(),
            tags: self.tags.deep_view(),
            start_time: self.start_time@,
            end_time: self.end_time.deep_view(),
        }
    }
}

impl DeepView for Entry {
    type V = EntryView;

    open spec fn deep_view(&self) -> EntryView {
        self@
    }
}

impl Clone for Entry {
    /// A copy with the same identity, labels and interval.
    fn clone(&self) -> (copy: Entry)
        ensures
            copy@ == self@,
    {
        let project = match &self.project {
            Some(text) => Some(text.clone()),
            None => None,
        };
        let description = match &self.description {
            Some(text) => Some(text.clone()),
            None => None,
        };
        let mut tags: Vec<String> = Vec::new();
        let mut i: usize = 0;
        while i < self.tags.len()
            invariant
                i <= self.tags@.len(),
                tags@.len() == i,
                forall|k: int| 0 <= k < i ==> tags@[k]@ == self.tags@[k]@,
            decreases self.tags@.len() - i,
        {
            tags.push(self.tags[i].clone());
            i += 1;
        }
        assert(tags.deep_view() =~= self.tags.deep_view());
        Entry {
            id: self.id,
            project,
            description,
            tags,
            start_time: self.start_time,
            end_time: self.end_time,
        }
    }
}

impl Entry {
    /// A new open entry with the given identity, start and labels.
    pub fn new(
        id: u128,
        start_time: Timestamp,
        project: Option<String>,
        description: Option<String>,
        tags: Vec<String>,
    ) -> (entry: Entry)
        ensures
            entry@ == EntryView::created(
                id,
                start_time@,
                project.deep_view(),
                description.deep_view(),
                tags.deep_view(),
            ),
    {
        Entry { id, project, description, tags, start_time, end_time: None }
    }

    /// The entry with the given identity, labels and interval: a closed one
    /// if `end_time` is given, and an open one if not.
    pub fn from_parts(
        id: u128,
        project: Option<String>,
        description: Option<String>,
        tags: Vec<String>,
        start_time: Timestamp,
        end_time: Option<Timestamp>,
    ) -> (entry: Entry)
        ensures
            entry@ == (EntryView {
                id,
                project: project.deep_view(),
                description: description.deep_view(),
                tags: tags.deep_view(),
                start_time: start_time@,
                end_time: end_time.deep_view(),
            }),
    {
        Entry { id, project, description, tags, start_time, end_time }
    }

    /// Get the id of this entry
    pub fn id(&self) -> (id: u128)
        ensures
            id == self@.id,
    {
        self.id
    }

    /// Get the [`uuid::Uuid`] of this entry: the UUID whose bytes are the
    /// big-endian bytes of the id
    pub fn uuid(&self) -> (uuid: uuid::Uuid)
        ensures
            uuid == uuid_from(self@.id),
    {
        uuid_of(self.id)
    }

    /// Get the project string of this entry, if set
    pub fn project(&self) -> (project: &Option<String>)
        ensures
            project.deep_view() == self@.project,
    {
        &self.project
    }

    /// Get the description string of this entry, if set
    pub fn description(&self) -> (description: &Option<String>)
        ensures
            description.deep_view() == self@.description,
    {
        &self.description
    }

    /// Get the tags of this entry
    ///
    /// Note: for entries without tags, this will be an empty [`Vec`]
    pub fn tags(&self) -> (tags: &Vec<String>)
        ensures
            tags.deep_view() == self@.tags,
    {
        &self.tags
    }

    /// Get the start time of this entry
    pub fn start_time(&self) -> (start: Timestamp)
        ensures
            start@ == self@.start_time,
    {
        self.start_time
    }

    /// Get the end time of this entry, if it's finished
    pub fn end_time(&self) -> (end: Option<Timestamp>)
        ensures
            end.deep_view() == self@.end_time,
    {
        self.end_time
    }

    /// The line that shows this entry: project, description and tags, as
    /// [`format_line`] writes them.
    pub fn to_string(&self) -> (line: String)
        ensures
            line@ == entry_line(self@.project, self@.description, debug_text(self@.tags)),
    {
        format_line(&self.project, &self.description, &self.tags)
    }

    /// Stops the entry at `now`. An entry that is already closed keeps the
    /// end time it has.
    pub fn stop_at(&mut self, now: Timestamp)
        ensures
            final(self)@ == old(self)@.stopped(now@),
    {
        if self.end_time.is_none() {
            self.end_time = Some(now);
        }
    }

    /// Amends the labels: a given project or description replaces the old
    /// one, a non-empty `tags` replaces the old tags.
    pub fn amend(&mut self, project: Option<String>, description: Option<String>, tags: Vec<String>)
        ensures
            final(self)@ == old(self)@.amended(
                project.deep_view(),
                description.deep_view(),
                tags.deep_view(),
            ),
    {
        if project.is_some() {
            self.project = project;
        }
        if description.is_some() {
            self.description = description;
        }
        if tags.len() > 0 {
            self.tags = tags;
        }
    }
}

} // verus!

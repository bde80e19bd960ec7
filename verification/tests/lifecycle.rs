use atomichron::{Entry, EntryList, Timestamp};

fn at(nanos: i128) -> Timestamp {
    Timestamp::from_nanos(nanos)
}

fn text(value: &str) -> Option<String> {
    Some(value.to_string())
}

fn tags(names: &[&str]) -> Vec<String> {
    names.iter().map(|name| name.to_string()).collect()
}

fn open_entries(list: &EntryList) -> usize {
    list.entries().iter().filter(|entry| entry.end_time().is_none()).count()
}

#[test]
fn new_list_is_idle_and_empty() {
    let list = EntryList::new();
    assert!(list.current_entry().is_none());
    assert_eq!(list.current_id(), None);
    assert_eq!(list.entries().len(), 0);
    assert_eq!(list.get_entries_in_order(true).len(), 0);
    assert_eq!(list.get_entries_in_order(false).len(), 0);
}

#[test]
fn default_list_is_idle_and_empty() {
    let list = EntryList::default();
    assert!(list.current_entry().is_none());
    assert_eq!(list.entries().len(), 0);
}

#[test]
fn start_returns_the_new_open_entry() {
    let mut list = EntryList::new();
    let entry = list.start_entry_with(7, at(100), text("acme"), text("review"), tags(&["a", "b"]));
    assert_eq!(entry.id(), 7);
    assert_eq!(entry.project(), &text("acme"));
    assert_eq!(entry.description(), &text("review"));
    assert_eq!(entry.tags(), &tags(&["a", "b"]));
    assert_eq!(entry.start_time(), at(100));
    assert_eq!(entry.end_time(), None);
}

#[test]
fn start_then_current_is_the_new_entry() {
    let mut list = EntryList::new();
    let id = list.start_entry_with(7, at(100), text("acme"), None, tags(&[])).id();
    let current = list.current_entry().expect("an entry is running");
    assert_eq!(current.id(), id);
    assert_eq!(list.current_id(), Some(7));
}

#[test]
fn start_with_clock_then_current_is_the_new_entry() {
    let mut list = EntryList::new();
    let id = list.start_entry(text("acme"), None, tags(&[])).id();
    let current = list.current_entry().expect("an entry is running");
    assert_eq!(current.id(), id);
    assert!(current.end_time().is_none());
}

#[test]
fn stop_on_idle_list_changes_nothing() {
    let mut list = EntryList::new();
    list.start_entry_with(1, at(10), text("a"), None, tags(&[]));
    list.stop_current_entry_at(at(20), None, None, tags(&[]));
    let before = list.save();

    assert!(list.stop_current_entry_at(at(30), text("x"), text("y"), tags(&["z"])).is_none());
    assert!(list.stop_current_entry(text("x"), text("y"), tags(&["z"])).is_none());

    assert_eq!(list.current_id(), None);
    let after = list.save();
    assert_eq!(after.current_entry, before.current_entry);
    assert_eq!(after.entries.len(), 1);
    let entry = &after.entries[0];
    assert_eq!(entry.id(), 1);
    assert_eq!(entry.project(), &text("a"));
    assert_eq!(entry.description(), &None);
    assert_eq!(entry.tags(), &tags(&[]));
    assert_eq!(entry.start_time(), at(10));
    assert_eq!(entry.end_time(), Some(at(20)));
}

#[test]
fn stop_on_new_list_is_absent() {
    let mut list = EntryList::new();
    assert!(list.stop_current_entry(None, None, tags(&[])).is_none());
    assert_eq!(list.entries().len(), 0);
    assert_eq!(list.current_id(), None);
}

#[test]
fn clear_on_idle_list_changes_nothing() {
    let mut list = EntryList::new();
    assert!(list.clear_current_entry().is_none());
    assert_eq!(list.entries().len(), 0);

    list.start_entry_with(1, at(10), None, None, tags(&[]));
    list.stop_current_entry_at(at(20), None, None, tags(&[]));
    assert!(list.clear_current_entry().is_none());
    assert_eq!(list.entries().len(), 1);
    assert_eq!(list.entries()[0].end_time(), Some(at(20)));
    assert_eq!(list.current_id(), None);
}

#[test]
fn start_while_running_closes_the_previous_entry() {
    let mut list = EntryList::new();
    list.start_entry_with(1, at(10), text("a"), text("first"), tags(&["t"]));
    list.start_entry_with(2, at(25), text("b"), None, tags(&[]));

    assert_eq!(list.current_id(), Some(2));
    let order = list.get_entries_in_order(true);
    assert_eq!(order.len(), 2);
    assert_eq!(order[0].id(), 1);
    assert_eq!(order[0].end_time(), Some(at(25)));
    assert_eq!(order[0].project(), &text("a"));
    assert_eq!(order[0].description(), &text("first"));
    assert_eq!(order[0].tags(), &tags(&["t"]));
    assert_eq!(order[1].id(), 2);
    assert_eq!(order[1].end_time(), None);
}

#[test]
fn start_under_the_running_id_replaces_the_running_entry() {
    let mut list = EntryList::new();
    list.start_entry_with(1, at(10), text("a"), None, tags(&[]));
    list.start_entry_with(1, at(25), text("b"), None, tags(&[]));

    assert_eq!(list.current_id(), Some(1));
    let all = list.entries();
    assert_eq!(all.len(), 1);
    assert_eq!(all[0].project(), &text("b"));
    assert_eq!(all[0].start_time(), at(25));
    assert_eq!(all[0].end_time(), None);
}

#[test]
fn clear_while_running_removes_the_entry() {
    let mut list = EntryList::new();
    list.start_entry_with(1, at(10), text("a"), None, tags(&[]));
    list.start_entry_with(2, at(20), text("b"), None, tags(&["x"]));

    let cleared = list.clear_current_entry().expect("an entry was running");
    assert_eq!(cleared.id(), 2);
    assert_eq!(cleared.project(), &text("b"));
    assert_eq!(cleared.tags(), &tags(&["x"]));
    assert_eq!(cleared.end_time(), None);

    assert_eq!(list.current_id(), None);
    assert!(list.current_entry().is_none());
    let all = list.entries();
    assert_eq!(all.len(), 1);
    assert_eq!(all[0].id(), 1);
}

#[test]
fn stop_sets_the_end_and_leaves_the_list_idle() {
    let mut list = EntryList::new();
    list.start_entry_with(1, at(10), text("a"), text("d"), tags(&["t"]));
    let stopped = list.stop_current_entry_at(at(42), None, None, tags(&[])).expect("running");
    assert_eq!(stopped.id(), 1);
    assert_eq!(stopped.start_time(), at(10));
    assert_eq!(stopped.end_time(), Some(at(42)));
    assert_eq!(stopped.project(), &text("a"));
    assert_eq!(stopped.description(), &text("d"));
    assert_eq!(stopped.tags(), &tags(&["t"]));
    assert_eq!(list.current_id(), None);
    assert_eq!(list.entries().len(), 1);
}

#[test]
fn stop_overrides_what_is_given() {
    let mut list = EntryList::new();
    list.start_entry_with(1, at(10), text("a"), text("d"), tags(&["t"]));
    let stopped =
        list.stop_current_entry_at(at(42), text("b"), None, tags(&["u", "v"])).expect("running");
    assert_eq!(stopped.project(), &text("b"));
    assert_eq!(stopped.description(), &text("d"));
    assert_eq!(stopped.tags(), &tags(&["u", "v"]));

    list.start_entry_with(2, at(50), text("a"), text("d"), tags(&["t"]));
    let stopped = list.stop_current_entry_at(at(60), None, text("e"), tags(&[])).expect("running");
    assert_eq!(stopped.project(), &text("a"));
    assert_eq!(stopped.description(), &text("e"));
    assert_eq!(stopped.tags(), &tags(&["t"]));
}

#[test]
fn stop_with_empty_tags_keeps_the_tags() {
    let mut list = EntryList::new();
    list.start_entry_with(1, at(10), None, None, tags(&["keep", "", "keep"]));
    let stopped = list.stop_current_entry_at(at(42), None, None, tags(&[])).expect("running");
    assert_eq!(stopped.tags(), &tags(&["keep", "", "keep"]));
}

#[test]
fn stop_with_clock_closes_the_entry() {
    let mut list = EntryList::new();
    let start = list.start_entry(text("a"), None, tags(&[])).start_time();
    let stopped = list.stop_current_entry(None, text("late"), tags(&[])).expect("running");
    let end = stopped.end_time().expect("the entry is closed");
    assert!(start.le(&end));
    assert_eq!(stopped.project(), &text("a"));
    assert_eq!(stopped.description(), &text("late"));
    assert!(list.current_entry().is_none());
}

#[test]
fn second_stop_of_an_entry_keeps_its_end() {
    let mut entry = Entry::new(1, at(10), None, None, tags(&[]));
    entry.stop_at(at(20));
    assert_eq!(entry.end_time(), Some(at(20)));
    entry.stop_at(at(30));
    assert_eq!(entry.end_time(), Some(at(20)));
    entry.stop_at(at(5));
    assert_eq!(entry.end_time(), Some(at(20)));
}

#[test]
fn amend_replaces_only_what_is_given() {
    let mut entry = Entry::new(1, at(10), text("p"), text("d"), tags(&["t"]));
    entry.amend(None, None, tags(&[]));
    assert_eq!(entry.project(), &text("p"));
    assert_eq!(entry.description(), &text("d"));
    assert_eq!(entry.tags(), &tags(&["t"]));
    entry.amend(text("q"), text(""), tags(&["u"]));
    assert_eq!(entry.project(), &text("q"));
    assert_eq!(entry.description(), &text(""));
    assert_eq!(entry.tags(), &tags(&["u"]));
    assert_eq!(entry.start_time(), at(10));
    assert_eq!(entry.end_time(), None);
}

#[test]
fn at_most_one_entry_is_open_after_every_step() {
    let mut list = EntryList::new();
    assert_eq!(open_entries(&list), 0);
    list.start_entry_with(1, at(1), None, None, tags(&[]));
    assert_eq!(open_entries(&list), 1);
    list.start_entry_with(2, at(2), None, None, tags(&[]));
    assert_eq!(open_entries(&list), 1);
    list.start_entry_with(3, at(3), None, None, tags(&[]));
    assert_eq!(open_entries(&list), 1);
    list.stop_current_entry_at(at(4), None, None, tags(&[]));
    assert_eq!(open_entries(&list), 0);
    list.stop_current_entry_at(at(5), None, None, tags(&[]));
    assert_eq!(open_entries(&list), 0);
    list.start_entry_with(4, at(6), None, None, tags(&[]));
    assert_eq!(open_entries(&list), 1);
    list.clear_current_entry();
    assert_eq!(open_entries(&list), 0);
    list.clear_current_entry();
    assert_eq!(open_entries(&list), 0);
    list.start_entry_with(2, at(7), None, None, tags(&[]));
    assert_eq!(open_entries(&list), 1);
    assert_eq!(list.entries().len(), 3);
}

#[test]
fn at_most_one_entry_is_open_with_clock_and_random_ids() {
    let mut list = EntryList::new();
    for round in 0..20 {
        list.start_entry(None, None, tags(&[]));
        assert_eq!(open_entries(&list), 1);
        if round % 3 == 0 {
            list.stop_current_entry(None, None, tags(&[]));
            assert_eq!(open_entries(&list), 0);
        }
        if round % 7 == 0 {
            list.clear_current_entry();
            assert_eq!(open_entries(&list), 0);
        }
    }
}

#[test]
fn random_ids_differ() {
    let mut list = EntryList::new();
    let first = list.start_entry(None, None, tags(&[])).id();
    let second = list.start_entry(None, None, tags(&[])).id();
    assert_ne!(first, second);
    assert_eq!(list.entries().len(), 2);
}

#[test]
fn scenario_start_status_stop_log() {
    let mut list = EntryList::new();
    list.start_entry(text("acme"), text("design review"), tags(&["urgent", "client"]));

    let status = list.current_entry().expect("an entry is running");
    assert_eq!(status.project(), &text("acme"));
    assert_eq!(status.description(), &text("design review"));
    assert_eq!(status.tags(), &tags(&["urgent", "client"]));
    assert_eq!(status.end_time(), None);

    let stopped = list.stop_current_entry(None, None, Vec::new()).expect("an entry was running");
    assert!(stopped.end_time().is_some());
    assert_eq!(stopped.project(), &text("acme"));
    assert_eq!(stopped.description(), &text("design review"));
    assert_eq!(stopped.tags(), &tags(&["urgent", "client"]));

    assert_eq!(list.get_entries_in_order(false).len(), 1);
}

#[test]
fn scenario_two_starts() {
    let mut list = EntryList::new();
    list.start_entry(text("a"), None, Vec::new());
    list.start_entry(text("b"), None, Vec::new());

    let log = list.get_entries_in_order(true);
    assert_eq!(log.len(), 2);
    let (first, second) = if log[0].project() == &text("a") {
        (log[0], log[1])
    } else {
        (log[1], log[0])
    };
    assert_eq!(first.project(), &text("a"));
    assert_eq!(second.project(), &text("b"));
    let end = first.end_time().expect("the first entry is closed");
    assert!(end.le(&second.start_time()));
    assert_eq!(second.end_time(), None);
}

#[test]
fn scenario_start_then_clear() {
    let mut list = EntryList::new();
    list.start_entry(text("a"), None, Vec::new());
    let cleared = list.clear_current_entry().expect("an entry was running");
    assert_eq!(cleared.project(), &text("a"));
    assert_eq!(list.get_entries_in_order(false).len(), 0);
}

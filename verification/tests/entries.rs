use atomichron::entries::{compose_line, format_line};
use atomichron::{Entry, Timestamp};

fn at(nanos: i128) -> Timestamp {
    Timestamp::from_nanos(nanos)
}

fn text(value: &str) -> Option<String> {
    Some(value.to_string())
}

fn tags(names: &[&str]) -> Vec<String> {
    names.iter().map(|name| name.to_string()).collect()
}

#[test]
fn new_entry_is_open() {
    let entry = Entry::new(11, at(5), text("p"), text("d"), tags(&["t", "t"]));
    assert_eq!(entry.id(), 11);
    assert_eq!(entry.project(), &text("p"));
    assert_eq!(entry.description(), &text("d"));
    assert_eq!(entry.tags(), &tags(&["t", "t"]));
    assert_eq!(entry.start_time(), at(5));
    assert_eq!(entry.end_time(), None);
}

#[test]
fn entry_from_parts_keeps_every_part() {
    let entry = Entry::from_parts(11, None, text(""), tags(&[]), at(-5), Some(at(-7)));
    assert_eq!(entry.id(), 11);
    assert_eq!(entry.project(), &None);
    assert_eq!(entry.description(), &text(""));
    assert_eq!(entry.tags(), &tags(&[]));
    assert_eq!(entry.start_time(), at(-5));
    assert_eq!(entry.end_time(), Some(at(-7)));
}

#[test]
fn clone_keeps_every_field() {
    let mut entry = Entry::new(11, at(5), text("p"), None, tags(&["a", "b", "c"]));
    entry.stop_at(at(9));
    let copy = entry.clone();
    assert_eq!(copy.id(), 11);
    assert_eq!(copy.project(), &text("p"));
    assert_eq!(copy.description(), &None);
    assert_eq!(copy.tags(), &tags(&["a", "b", "c"]));
    assert_eq!(copy.start_time(), at(5));
    assert_eq!(copy.end_time(), Some(at(9)));
}

#[test]
fn uuid_has_the_bytes_of_the_id() {
    let id = 0xa1a2a3a4_b1b2_c1c2_d1d2_d3d4d5d6d7d8u128;
    let entry = Entry::new(id, at(0), None, None, tags(&[]));
    assert_eq!(entry.uuid(), uuid::Uuid::from_u128(id));
    assert_eq!(entry.uuid().as_u128(), id);
    assert_eq!(
        entry.uuid().into_bytes(),
        [
            0xa1, 0xa2, 0xa3, 0xa4, 0xb1, 0xb2, 0xc1, 0xc2, 0xd1, 0xd2, 0xd3, 0xd4, 0xd5, 0xd6,
            0xd7, 0xd8
        ]
    );
    assert_eq!(entry.uuid().hyphenated().to_string(), "a1a2a3a4-b1b2-c1c2-d1d2-d3d4d5d6d7d8");
}

#[test]
fn shown_entry_has_project_description_and_tags() {
    let entry = Entry::new(1, at(0), text("acme"), text("design review"), tags(&["urgent", "client"]));
    assert_eq!(entry.to_string(), "acme: design review [\"urgent\", \"client\"]");
}

#[test]
fn shown_entry_without_labels() {
    let entry = Entry::new(1, at(0), None, None, tags(&[]));
    assert_eq!(entry.to_string(), ":  []");
    let entry = Entry::new(1, at(0), None, text("d"), tags(&[]));
    assert_eq!(entry.to_string(), ": d []");
    let entry = Entry::new(1, at(0), text("p"), None, tags(&["t"]));
    assert_eq!(entry.to_string(), "p:  [\"t\"]");
}

#[test]
fn shown_tags_are_escaped() {
    let entry = Entry::new(1, at(0), None, None, tags(&["a\"b", "c\\d", "e\nf"]));
    assert_eq!(entry.to_string(), ":  [\"a\\\"b\", \"c\\\\d\", \"e\\nf\"]");
}

#[test]
fn format_line_is_what_an_entry_shows() {
    let project = text("acme");
    let description = text("design review");
    let labels = tags(&["urgent", "client"]);
    let entry = Entry::new(1, at(0), project.clone(), description.clone(), labels.clone());
    assert_eq!(format_line(&project, &description, &labels), entry.to_string());
    assert_eq!(
        format_line(&project, &description, &labels),
        format!("{}: {} {:?}", "acme", "design review", labels)
    );
}

#[test]
fn compose_line_joins_the_parts() {
    assert_eq!(compose_line(&text("p"), &text("d"), "[tags]"), "p: d [tags]");
    assert_eq!(compose_line(&None, &None, ""), ":  ");
    assert_eq!(compose_line(&text(""), &None, "x"), ":  x");
}

#[test]
fn uuid_is_fixed_by_the_id() {
    let a = Entry::new(42, at(0), text("a"), None, tags(&[]));
    let b = Entry::new(42, at(9), None, text("b"), tags(&["t"]));
    let c = Entry::new(43, at(0), text("a"), None, tags(&[]));
    assert_eq!(a.uuid(), b.uuid());
    assert_ne!(a.uuid(), c.uuid());
}

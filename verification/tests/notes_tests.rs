use notes_store::counter::Counter;
use notes_store::notes::NoteKind;
use notes_store::records::Student;

fn blank_student() -> Student {
    Student {
        first_name: String::from("Ada"),
        last_name: String::from("Lovelace"),
        id: String::from("s-1"),
        name: String::from("Ada Lovelace"),
        date: None,
        time: None,
        belt: String::from("Purple"),
        logins: vec![],
        notes: vec![],
        behaviours: vec![],
        assigned: None,
        note_counter: Counter::new(),
    }
}

#[test]
fn add_note_numbers_across_lists() {
    let mut s = blank_student();
    let a = s.add_note(
        NoteKind::Logins,
        String::from("01-01-24"),
        String::from("Sensei"),
        String::from("came in"),
    );
    let b = s.add_note(
        NoteKind::Notes,
        String::from("01-02-24"),
        String::from("Sensei"),
        String::from("good kicks"),
    );
    let c = s.add_note(
        NoteKind::Behaviours,
        String::from("01-03-24"),
        String::from("Sensei"),
        String::from("focused"),
    );
    assert_eq!((a, b, c), (1, 2, 3));
    assert_eq!(s.logins.len(), 1);
    assert_eq!(s.notes.len(), 1);
    assert_eq!(s.behaviours.len(), 1);
    assert_eq!(s.logins[0].id, 1);
    assert_eq!(s.notes[0].id, 2);
    assert_eq!(s.behaviours[0].id, 3);
    assert_eq!(s.note_counter.get(), 3);
}

#[test]
fn remove_note_takes_out_only_the_addressed_one() {
    let mut s = blank_student();
    s.add_note(NoteKind::Notes, String::new(), String::new(), String::from("one"));
    s.add_note(NoteKind::Notes, String::new(), String::new(), String::from("two"));
    s.add_note(NoteKind::Notes, String::new(), String::new(), String::from("three"));
    assert!(s.remove_note(NoteKind::Notes, 2));
    let contents: Vec<&str> = s.notes.iter().map(|n| n.content.as_str()).collect();
    assert_eq!(contents, vec!["one", "three"]);
    // the identifier is gone now
    assert!(!s.remove_note(NoteKind::Notes, 2));
    // and other lists are untouched by design
    assert!(s.logins.is_empty());
}

#[test]
fn edit_note_replaces_only_the_text() {
    let mut s = blank_student();
    s.add_note(
        NoteKind::Behaviours,
        String::from("01-01-24"),
        String::from("Sensei"),
        String::from("rowdy"),
    );
    assert!(s.edit_note(NoteKind::Behaviours, 1, "much improved"));
    assert_eq!(s.behaviours[0].content, "much improved");
    assert_eq!(s.behaviours[0].id, 1);
    assert_eq!(s.behaviours[0].date, "01-01-24");
    assert_eq!(s.behaviours[0].user, "Sensei");
    // an identifier that is not there reports failure and changes nothing
    assert!(!s.edit_note(NoteKind::Behaviours, 9, "nope"));
    assert_eq!(s.behaviours[0].content, "much improved");
}

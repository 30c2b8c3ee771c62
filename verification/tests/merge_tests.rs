use notes_store::counter::Counter;
use notes_store::merge::{notes_from_texts, student_from_imported};
use notes_store::records::{Session, StudentImportedInfo, User, UserRole};

#[test]
fn notes_from_texts_numbers_consecutively() {
    let texts = vec![String::from("first"), String::from("second"), String::from("third")];
    let mut counter = Counter::from(5);
    let notes = notes_from_texts(&texts, &mut counter);
    assert_eq!(counter.get(), 8);
    assert_eq!(notes.len(), 3);
    for (j, n) in notes.iter().enumerate() {
        assert_eq!(n.id, 6 + j as u32);
        assert_eq!(n.content, texts[j]);
        assert_eq!(n.date, "");
        assert_eq!(n.user, "");
    }
}

#[test]
fn imported_info_becomes_student_with_numbered_notes() {
    let info = StudentImportedInfo {
        name: String::from("Ada Lovelace"),
        belt: String::from("Purple"),
        logins: vec![String::from("l1"), String::from("l2")],
        notes: vec![String::from("n1")],
        behaviours: vec![String::from("b1"), String::from("b2")],
    };
    let s = student_from_imported(&info, "Ada", " Lovelace");
    assert_eq!(s.first_name, "Ada");
    assert_eq!(s.last_name, " Lovelace");
    assert_eq!(s.id, "");
    assert_eq!(s.name, "Ada Lovelace");
    assert_eq!(s.date, None);
    assert_eq!(s.time, None);
    assert_eq!(s.belt, "Purple");
    assert_eq!(s.assigned, None);
    let login_ids: Vec<u32> = s.logins.iter().map(|n| n.id).collect();
    let note_ids: Vec<u32> = s.notes.iter().map(|n| n.id).collect();
    let behaviour_ids: Vec<u32> = s.behaviours.iter().map(|n| n.id).collect();
    assert_eq!(login_ids, vec![1, 2]);
    assert_eq!(note_ids, vec![3]);
    assert_eq!(behaviour_ids, vec![4, 5]);
    assert_eq!(s.logins[0].content, "l1");
    assert_eq!(s.notes[0].content, "n1");
    assert_eq!(s.behaviours[1].content, "b2");
    assert_eq!(s.note_counter.get(), 5);
}

#[test]
fn session_validity_follows_expiry() {
    let session = Session {
        token: String::from("tok"),
        expires: 1_000,
        user: User {
            name: String::from("Alice"),
            primary_key: String::from("alice"),
            hash: 0,
            role: UserRole::Standard,
        },
    };
    assert!(session.is_valid_at(999));
    assert!(session.is_valid_at(1_000));
    assert!(!session.is_valid_at(1_001));
}

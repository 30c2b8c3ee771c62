use notes_store::codec::{AttrValue, Item, Record, Scalar};
use notes_store::counter::Counter;
use notes_store::records::{Note, Session, Student, StudentImportedInfo, User, UserRole};

fn sample_user() -> User {
    User {
        name: String::from("Alice"),
        primary_key: String::from("alice"),
        hash: 0xdead_beef_dead_beef,
        role: UserRole::Admin,
    }
}

fn sample_note(id: u32, content: &str) -> Note {
    Note {
        id,
        date: String::from("01-02-24"),
        user: String::from("Sensei"),
        content: String::from(content),
    }
}

fn sample_student() -> Student {
    Student {
        first_name: String::from("Ada"),
        last_name: String::from("Lovelace"),
        id: String::from("s-17"),
        name: String::from("Ada Lovelace"),
        date: Some(1_700_000_000_000),
        time: Some(String::from("5:30 PM")),
        belt: String::from("Purple"),
        logins: vec![sample_note(1, "showed up")],
        notes: vec![sample_note(2, "good form"), sample_note(3, "asked questions")],
        behaviours: vec![],
        assigned: None,
        note_counter: Counter::from(3),
    }
}

fn assert_notes_equal(a: &[Note], b: &[Note]) {
    assert_eq!(a.len(), b.len());
    for (x, y) in a.iter().zip(b.iter()) {
        assert_eq!(x.id, y.id);
        assert_eq!(x.date, y.date);
        assert_eq!(x.user, y.user);
        assert_eq!(x.content, y.content);
    }
}

#[test]
fn user_encode_has_expected_attributes() {
    let item = sample_user().encode();
    assert_eq!(item.attrs.len(), 4);
    assert_eq!(item.attrs[0].0, "name");
    assert!(matches!(&item.attrs[0].1, AttrValue::Scalar(Scalar::S(s)) if s == "Alice"));
    assert_eq!(item.attrs[1].0, "primary_key");
    assert!(matches!(&item.attrs[1].1, AttrValue::Scalar(Scalar::S(s)) if s == "alice"));
    assert_eq!(item.attrs[2].0, "hash");
    assert!(
        matches!(&item.attrs[2].1, AttrValue::Scalar(Scalar::N(n)) if *n == 0xdead_beef_dead_beefu64 as i128)
    );
    assert_eq!(item.attrs[3].0, "role");
    assert!(matches!(&item.attrs[3].1, AttrValue::Scalar(Scalar::S(s)) if s == "Admin"));
}

#[test]
fn user_roundtrips_through_item() {
    let u = sample_user();
    let back = User::decode(&u.encode()).expect("user must decode");
    assert_eq!(back.name, u.name);
    assert_eq!(back.primary_key, u.primary_key);
    assert_eq!(back.hash, u.hash);
    assert_eq!(back.role, u.role);
}

#[test]
fn session_roundtrips_through_item() {
    let s = Session { token: String::from("tok-123"), expires: 4_000_000, user: sample_user() };
    let back = Session::decode(&s.encode()).expect("session must decode");
    assert_eq!(back.token, s.token);
    assert_eq!(back.expires, s.expires);
    assert_eq!(back.user.name, s.user.name);
    assert_eq!(back.user.primary_key, s.user.primary_key);
    assert_eq!(back.user.hash, s.user.hash);
    assert_eq!(back.user.role, s.user.role);
}

#[test]
fn imported_info_roundtrips_through_item() {
    let v = StudentImportedInfo {
        name: String::from("Ada Lovelace"),
        belt: String::from("Purple"),
        logins: vec![String::from("l1"), String::from("l2")],
        notes: vec![],
        behaviours: vec![String::from("b1")],
    };
    let back = StudentImportedInfo::decode(&v.encode()).expect("imported info must decode");
    assert_eq!(back.name, v.name);
    assert_eq!(back.belt, v.belt);
    assert_eq!(back.logins, v.logins);
    assert_eq!(back.notes, v.notes);
    assert_eq!(back.behaviours, v.behaviours);
}

#[test]
fn student_roundtrips_through_item() {
    let s = sample_student();
    let back = Student::decode(&s.encode()).expect("student must decode");
    assert_eq!(back.first_name, s.first_name);
    assert_eq!(back.last_name, s.last_name);
    assert_eq!(back.id, s.id);
    assert_eq!(back.name, s.name);
    assert_eq!(back.date, s.date);
    assert_eq!(back.time, s.time);
    assert_eq!(back.belt, s.belt);
    assert_notes_equal(&back.logins, &s.logins);
    assert_notes_equal(&back.notes, &s.notes);
    assert_notes_equal(&back.behaviours, &s.behaviours);
    assert_eq!(back.assigned, s.assigned);
    assert_eq!(back.note_counter.get(), s.note_counter.get());
}

#[test]
fn student_with_absent_options_roundtrips() {
    let mut s = sample_student();
    s.date = None;
    s.time = None;
    s.assigned = Some(String::from("Sensei"));
    let back = Student::decode(&s.encode()).expect("student must decode");
    assert_eq!(back.date, None);
    assert_eq!(back.time, None);
    assert_eq!(back.assigned, Some(String::from("Sensei")));
}

#[test]
fn malformed_item_does_not_decode() {
    let item = Item { attrs: vec![(String::from("name"), AttrValue::Scalar(Scalar::N(3)))] };
    assert!(User::decode(&item).is_none());
    assert!(Student::decode(&item).is_none());
    assert!(Session::decode(&item).is_none());
    assert!(StudentImportedInfo::decode(&item).is_none());
}

#[test]
fn wrong_attribute_name_does_not_decode() {
    let mut item = sample_user().encode();
    item.attrs[0].0 = String::from("nom");
    assert!(User::decode(&item).is_none());
}

#[test]
fn unknown_role_does_not_decode() {
    let mut item = sample_user().encode();
    item.attrs[3].1 = AttrValue::Scalar(Scalar::S(String::from("Sovereign")));
    assert!(User::decode(&item).is_none());
}

#[test]
fn out_of_range_number_does_not_decode() {
    let mut item = sample_user().encode();
    item.attrs[2].1 = AttrValue::Scalar(Scalar::N(-1));
    assert!(User::decode(&item).is_none());
}

#[test]
fn item_duplicate_preserves_value() {
    let item = sample_student().encode();
    let copy = item.duplicate();
    assert_eq!(copy.attrs.len(), item.attrs.len());
    let back = Student::decode(&copy).expect("copy must decode");
    assert_eq!(back.id, "s-17");
}

use notes_store::codec::{AttrValue, Item, Scalar};
use notes_store::column::DynamoDBColumn;
use notes_store::counter::Counter;
use notes_store::memory::DynamoDB;
use notes_store::records::{Student, User, UserRole};
use notes_store::store::Database;

fn student(id: &str, name: &str) -> Student {
    Student {
        first_name: String::from(name),
        last_name: String::new(),
        id: String::from(id),
        name: String::from(name),
        date: None,
        time: None,
        belt: String::from("White"),
        logins: vec![],
        notes: vec![],
        behaviours: vec![],
        assigned: None,
        note_counter: Counter::new(),
    }
}

fn provisioned_students(page_size: usize) -> (DynamoDB, DynamoDBColumn) {
    let mut db = DynamoDB::new(page_size);
    let col = DynamoDBColumn::new("students");
    col.provision_table::<Student, DynamoDB>(&mut db);
    (db, col)
}

#[test]
fn provision_creates_then_leaves_alone() {
    let mut db = DynamoDB::new(4);
    let col = DynamoDBColumn::new("students");
    col.provision_table::<Student, DynamoDB>(&mut db);
    assert_eq!(db.table_exists("students"), Ok(true));
    let calls_after_first = db.call_count();
    col.provision_table::<Student, DynamoDB>(&mut db);
    // the second provisioning only probes: one more wire call, no create
    assert_eq!(db.call_count(), calls_after_first + 1);
    assert_eq!(db.table_exists("students"), Ok(true));
}

#[test]
fn column_put_get_delete_roundtrip() {
    let (mut db, col) = provisioned_students(4);
    let s = student("s-1", "Ada");
    col.put::<Student, DynamoDB>(&mut db, "s-1", &s).expect("put must succeed");
    let got = col.get::<Student, DynamoDB>(&mut db, "s-1").expect("get must succeed");
    let got = got.expect("record must be present");
    assert_eq!(got.name, "Ada");
    col.delete::<Student, DynamoDB>(&mut db, "s-1").expect("delete must succeed");
    let gone = col.get::<Student, DynamoDB>(&mut db, "s-1").expect("get must succeed");
    assert!(gone.is_none());
}

#[test]
fn delete_of_absent_key_is_ok() {
    let (mut db, col) = provisioned_students(4);
    assert!(col.delete::<Student, DynamoDB>(&mut db, "nobody").is_ok());
}

#[test]
fn scan_aggregates_three_pages_of_two() {
    let (mut db, col) = provisioned_students(2);
    for i in 0..6 {
        let id = format!("s-{i}");
        let name = format!("Student {i}");
        col.put::<Student, DynamoDB>(&mut db, &id, &student(&id, &name))
            .expect("put must succeed");
    }
    let before = db.call_count();
    let all = col.get_values::<Student, DynamoDB>(&mut db).expect("scan must succeed");
    // six items in insertion order, served as exactly three pages
    assert_eq!(all.len(), 6);
    for (i, s) in all.iter().enumerate() {
        assert_eq!(s.id, format!("s-{i}"));
    }
    assert_eq!(db.call_count(), before + 3);
}

#[test]
fn scan_of_empty_table_is_one_page() {
    let (mut db, col) = provisioned_students(2);
    let before = db.call_count();
    let all = col.get_values::<Student, DynamoDB>(&mut db).expect("scan must succeed");
    assert!(all.is_empty());
    assert_eq!(db.call_count(), before + 1);
}

#[test]
fn operations_against_missing_table_fail() {
    let mut db = DynamoDB::new(4);
    let col = DynamoDBColumn::new("students");
    assert!(col.get::<Student, DynamoDB>(&mut db, "s-1").is_err());
    assert!(col.put::<Student, DynamoDB>(&mut db, "s-1", &student("s-1", "Ada")).is_err());
    assert!(col.delete::<Student, DynamoDB>(&mut db, "s-1").is_err());
    assert!(col.get_values::<Student, DynamoDB>(&mut db).is_err());
}

#[test]
fn transport_failure_propagates() {
    let (mut db, col) = provisioned_students(4);
    db.set_fail(true);
    assert!(col.get::<Student, DynamoDB>(&mut db, "s-1").is_err());
    assert!(col.put::<Student, DynamoDB>(&mut db, "s-1", &student("s-1", "Ada")).is_err());
    assert!(col.get_values::<Student, DynamoDB>(&mut db).is_err());
    db.set_fail(false);
    assert!(col.get::<Student, DynamoDB>(&mut db, "s-1").is_ok());
}

#[test]
fn scan_page_rejects_stale_token() {
    let (mut db, _col) = provisioned_students(2);
    assert!(db.scan_page("students", Some(999)).is_err());
}

#[test]
fn undecodable_item_is_an_encoding_failure() {
    let mut db = DynamoDB::new(4);
    let col = DynamoDBColumn::new("users");
    col.provision_table::<User, DynamoDB>(&mut db);
    let junk = Item { attrs: vec![(String::from("garbage"), AttrValue::Scalar(Scalar::N(1)))] };
    db.put_item("users", "alice", junk).expect("raw put must succeed");
    assert!(col.get::<User, DynamoDB>(&mut db, "alice").is_err());
    assert!(col.get_values::<User, DynamoDB>(&mut db).is_err());
}

#[test]
fn create_table_twice_is_a_store_error() {
    let mut db = DynamoDB::new(4);
    db.create_table("users", "primary_key", 10, 5).expect("first create must succeed");
    assert!(db.create_table("users", "primary_key", 10, 5).is_err());
}

#[test]
fn user_column_roundtrip_preserves_role() {
    let mut db = DynamoDB::new(4);
    let col = DynamoDBColumn::new("users");
    col.provision_table::<User, DynamoDB>(&mut db);
    let u = User {
        name: String::from("Bob"),
        primary_key: String::from("bob"),
        hash: 7,
        role: UserRole::Standard,
    };
    col.put::<User, DynamoDB>(&mut db, "bob", &u).expect("put must succeed");
    let got = col.get::<User, DynamoDB>(&mut db, "bob").expect("get must succeed").unwrap();
    assert_eq!(got.role, UserRole::Standard);
    assert_eq!(got.hash, 7);
}

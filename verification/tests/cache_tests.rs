use notes_store::cache::{CachingDynamoDBColumn, CACHE_TTL_MILLIS};
use notes_store::column::DynamoDBColumn;
use notes_store::counter::Counter;
use notes_store::memory::DynamoDB;
use notes_store::records::{Note, Student, User, UserRole};

fn student(id: &str, name: &str) -> Student {
    Student {
        first_name: String::from(name),
        last_name: String::new(),
        id: String::from(id),
        name: String::from(name),
        date: None,
        time: None,
        belt: String::from("White"),
        logins: vec![],
        notes: vec![],
        behaviours: vec![],
        assigned: None,
        note_counter: Counter::new(),
    }
}

fn user(name: &str, key: &str, hash: u64) -> User {
    User {
        name: String::from(name),
        primary_key: String::from(key),
        hash,
        role: UserRole::Standard,
    }
}

fn students_setup(page_size: usize) -> (DynamoDB, CachingDynamoDBColumn<Student>) {
    let mut db = DynamoDB::new(page_size);
    let col = DynamoDBColumn::new("students");
    col.provision_table::<Student, DynamoDB>(&mut db);
    (db, CachingDynamoDBColumn::from(col))
}

fn users_setup() -> (DynamoDB, CachingDynamoDBColumn<User>) {
    let mut db = DynamoDB::new(4);
    let col = DynamoDBColumn::new("users");
    col.provision_table::<User, DynamoDB>(&mut db);
    (db, CachingDynamoDBColumn::from(col))
}

#[test]
fn empty_store_scenario() {
    // store is empty; put "alice"; get it back; delete it; get absent
    let (mut db, mut cache) = students_setup(4);
    let now = 1_000;
    cache.put(&mut db, "alice", student("alice", "Alice"), now).expect("put must succeed");
    let got = cache.get(&mut db, "alice", now).expect("get must succeed");
    let got = got.expect("record must be present");
    assert_eq!(got.name, "Alice");
    assert!(got.notes.is_empty());
    cache.delete(&mut db, "alice").expect("delete must succeed");
    let gone = cache.get(&mut db, "alice", now).expect("get must succeed");
    assert!(gone.is_none());
}

#[test]
fn put_then_get_returns_deep_equal_user() {
    let (mut db, mut cache) = users_setup();
    let now = 50;
    let u = user("Alice", "alice", 99);
    cache.put(&mut db, "alice", u, now).expect("put must succeed");
    let got = cache.get(&mut db, "alice", now).expect("get must succeed").unwrap();
    assert_eq!(got.name, "Alice");
    assert_eq!(got.primary_key, "alice");
    assert_eq!(got.hash, 99);
    assert_eq!(got.role, UserRole::Standard);
}

#[test]
fn fresh_entry_is_served_without_remote_call() {
    let (mut db, mut cache) = students_setup(4);
    let t0 = 1_000;
    // populate the entry with a remote read
    cache.put(&mut db, "s-1", student("s-1", "Ada"), t0).expect("put must succeed");
    let before = db.call_count();
    // within the TTL window: no wire call at all
    let got = cache.get(&mut db, "s-1", t0 + CACHE_TTL_MILLIS - 1).expect("get must succeed");
    assert!(got.is_some());
    assert_eq!(db.call_count(), before);
}

#[test]
fn expired_entry_goes_to_the_store_exactly_once() {
    let (mut db, mut cache) = students_setup(4);
    let t0 = 1_000;
    cache.put(&mut db, "s-1", student("s-1", "Ada"), t0).expect("put must succeed");
    let before = db.call_count();
    let got = cache.get(&mut db, "s-1", t0 + CACHE_TTL_MILLIS).expect("get must succeed");
    assert!(got.is_some());
    assert_eq!(db.call_count(), before + 1);
}

#[test]
fn get_of_absent_key_asks_the_store_each_time() {
    let (mut db, mut cache) = students_setup(4);
    let now = 1_000;
    let before = db.call_count();
    assert!(cache.get(&mut db, "ghost", now).expect("get must succeed").is_none());
    assert!(cache.get(&mut db, "ghost", now).expect("get must succeed").is_none());
    // absence creates no entry, so both reads went to the store
    assert_eq!(db.call_count(), before + 2);
}

#[test]
fn delete_evicts_the_cache_entry() {
    let (mut db, mut cache) = students_setup(4);
    let now = 1_000;
    cache.put(&mut db, "s-1", student("s-1", "Ada"), now).expect("put must succeed");
    cache.delete(&mut db, "s-1").expect("delete must succeed");
    let before = db.call_count();
    // the entry is gone, so the next get must hit the store, and it is absent
    let got = cache.get(&mut db, "s-1", now).expect("get must succeed");
    assert!(got.is_none());
    assert_eq!(db.call_count(), before + 1);
}

#[test]
fn diff_update_last_writer_wins() {
    let (mut db, mut cache) = users_setup();
    let now = 10;
    let original = user("Alice", "alice", 0);
    cache.put(&mut db, "alice", original, now).expect("put must succeed");

    // two snapshots both derived from the original record
    let snapshot_a = user("Alice", "alice", 0);
    let snapshot_b = user("Alice", "alice", 0);

    // A's mutation: change the password hash
    cache
        .diff_update(&mut db, "alice", &snapshot_a, |mut u: User| {
            u.hash = 111;
            u
        }, now)
        .expect("first diff_update must succeed");
    // B's mutation: promote to admin, from B's (stale) base
    cache
        .diff_update(&mut db, "alice", &snapshot_b, |mut u: User| {
            u.role = UserRole::Admin;
            u
        }, now)
        .expect("second diff_update must succeed");

    // the store holds B's mutation applied to B's base: A's change is lost
    let plain = DynamoDBColumn::new("users");
    let stored = plain.get::<User, DynamoDB>(&mut db, "alice").expect("get must succeed").unwrap();
    assert_eq!(stored.role, UserRole::Admin);
    assert_eq!(stored.hash, 0);
}

#[test]
fn get_update_applies_mutation_to_current_value() {
    let (mut db, mut cache) = students_setup(4);
    let now = 10;
    cache.put(&mut db, "s-1", student("s-1", "Ada"), now).expect("put must succeed");
    cache
        .get_update(&mut db, "s-1", |mut s: Student| {
            let id = s.note_counter.inc();
            s.notes.push(Note {
                id,
                date: String::from("01-02-24"),
                user: String::from("Sensei"),
                content: String::from("stretch more"),
            });
            s
        }, now)
        .expect("get_update must succeed");
    let got = cache.get(&mut db, "s-1", now).expect("get must succeed").unwrap();
    assert_eq!(got.notes.len(), 1);
    assert_eq!(got.notes[0].id, 1);
    assert_eq!(got.notes[0].content, "stretch more");
    assert_eq!(got.note_counter.get(), 1);
}

#[test]
fn get_update_of_absent_key_is_a_silent_noop() {
    let (mut db, mut cache) = students_setup(4);
    let now = 10;
    let r = cache.get_update(&mut db, "ghost", |s: Student| s, now);
    assert_eq!(r, Ok(()));
    assert!(cache.get(&mut db, "ghost", now).expect("get must succeed").is_none());
}

#[test]
fn get_values_returns_all_records_and_refreshes_entries() {
    let (mut db, mut cache) = students_setup(2);
    let now = 10;
    for i in 0..5 {
        let id = format!("s-{i}");
        cache.put(&mut db, &id, student(&id, &format!("Student {i}")), now)
            .expect("put must succeed");
    }
    let all = cache.get_values(&mut db, now).expect("scan must succeed");
    assert_eq!(all.len(), 5);
    // entries are now fresh: a single get is served from the cache
    let before = db.call_count();
    let got = cache.get(&mut db, "s-3", now).expect("get must succeed");
    assert_eq!(got.unwrap().name, "Student 3");
    assert_eq!(db.call_count(), before);
}

#[test]
fn get_values_always_issues_the_scan() {
    let (mut db, mut cache) = students_setup(2);
    let now = 10;
    cache.put(&mut db, "s-1", student("s-1", "Ada"), now).expect("put must succeed");
    let first = cache.get_values(&mut db, now).expect("scan must succeed");
    assert_eq!(first.len(), 1);
    let before = db.call_count();
    // the scan freshness marker does not skip the wire call
    let second = cache.get_values(&mut db, now + 1).expect("scan must succeed");
    assert_eq!(second.len(), 1);
    assert!(db.call_count() > before);
}

#[test]
fn failed_put_leaves_cache_and_store_untouched() {
    let (mut db, mut cache) = users_setup();
    let now = 10;
    cache.put(&mut db, "alice", user("Alice", "alice", 1), now).expect("put must succeed");
    db.set_fail(true);
    assert!(cache.put(&mut db, "alice", user("Alice", "alice", 2), now).is_err());
    db.set_fail(false);
    // the cached entry still holds the last successful write
    let got = cache.get(&mut db, "alice", now).expect("get must succeed").unwrap();
    assert_eq!(got.hash, 1);
    // and so does the store
    let plain = DynamoDBColumn::new("users");
    let stored = plain.get::<User, DynamoDB>(&mut db, "alice").expect("get must succeed").unwrap();
    assert_eq!(stored.hash, 1);
}

#[test]
fn failed_delete_keeps_the_entry() {
    let (mut db, mut cache) = users_setup();
    let now = 10;
    cache.put(&mut db, "alice", user("Alice", "alice", 1), now).expect("put must succeed");
    db.set_fail(true);
    assert!(cache.delete(&mut db, "alice").is_err());
    db.set_fail(false);
    let before = db.call_count();
    let got = cache.get(&mut db, "alice", now).expect("get must succeed");
    assert_eq!(got.unwrap().hash, 1);
    // the entry survived the failed delete, so the read was a cache hit
    assert_eq!(db.call_count(), before);
}

#[test]
fn failed_diff_update_changes_nothing() {
    let (mut db, mut cache) = users_setup();
    let now = 10;
    cache.put(&mut db, "alice", user("Alice", "alice", 1), now).expect("put must succeed");
    let snapshot = user("Alice", "alice", 1);
    db.set_fail(true);
    let r = cache.diff_update(&mut db, "alice", &snapshot, |mut u: User| {
        u.hash = 2;
        u
    }, now);
    assert!(r.is_err());
    db.set_fail(false);
    let plain = DynamoDBColumn::new("users");
    let stored = plain.get::<User, DynamoDB>(&mut db, "alice").expect("get must succeed").unwrap();
    assert_eq!(stored.hash, 1);
    let cached = cache.get(&mut db, "alice", now).expect("get must succeed").unwrap();
    assert_eq!(cached.hash, 1);
}

#[test]
fn failed_get_propagates_and_leaves_cache_alone() {
    let (mut db, mut cache) = students_setup(4);
    let now = 10;
    db.set_fail(true);
    assert!(cache.get(&mut db, "s-1", now).is_err());
    db.set_fail(false);
    assert!(cache.get(&mut db, "s-1", now).expect("get must succeed").is_none());
}

#[test]
fn put_then_get_returns_deep_equal_session() {
    let mut db = DynamoDB::new(4);
    let col = DynamoDBColumn::new("sessions");
    col.provision_table::<notes_store::records::Session, DynamoDB>(&mut db);
    let mut cache: CachingDynamoDBColumn<notes_store::records::Session> =
        CachingDynamoDBColumn::from(col);
    let now = 10;
    let s = notes_store::records::Session {
        token: String::from("tok-9"),
        expires: 123_456,
        user: user("Alice", "alice", 3),
    };
    cache.put(&mut db, "tok-9", s, now).expect("put must succeed");
    let got = cache.get(&mut db, "tok-9", now).expect("get must succeed").unwrap();
    assert_eq!(got.token, "tok-9");
    assert_eq!(got.expires, 123_456);
    assert_eq!(got.user.name, "Alice");
    assert_eq!(got.user.hash, 3);
}

#[test]
fn put_then_get_returns_deep_equal_imported_info() {
    let mut db = DynamoDB::new(4);
    let col = DynamoDBColumn::new("imported");
    col.provision_table::<notes_store::records::StudentImportedInfo, DynamoDB>(&mut db);
    let mut cache: CachingDynamoDBColumn<notes_store::records::StudentImportedInfo> =
        CachingDynamoDBColumn::from(col);
    let now = 10;
    let v = notes_store::records::StudentImportedInfo {
        name: String::from("ada lovelace"),
        belt: String::from("Purple"),
        logins: vec![String::from("l1")],
        notes: vec![String::from("n1"), String::from("n2")],
        behaviours: vec![],
    };
    cache.put(&mut db, "ada lovelace", v, now).expect("put must succeed");
    let got = cache.get(&mut db, "ada lovelace", now).expect("get must succeed").unwrap();
    assert_eq!(got.name, "ada lovelace");
    assert_eq!(got.belt, "Purple");
    assert_eq!(got.logins, vec![String::from("l1")]);
    assert_eq!(got.notes, vec![String::from("n1"), String::from("n2")]);
    assert!(got.behaviours.is_empty());
}

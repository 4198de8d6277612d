use ottershipper::store::sort_applications;
use ottershipper::Application;
use ottershipper::Database;
use ottershipper::DbError;

fn fresh_store() -> Database {
    let mut db = Database::new();
    db.migrate().expect("bootstrap");
    db
}

#[test]
fn test_create_and_get_application() {
    let mut db = fresh_store();

    // Create application
    let app = db.create("test-app").expect("create");
    assert_eq!(app.name, "test-app");
    assert!(!app.id.is_empty());

    // Get application by ID
    let fetched = db.get(&app.id).expect("get");
    assert!(fetched.is_some());
    let fetched = fetched.unwrap();
    assert_eq!(fetched.id, app.id);
    assert_eq!(fetched.name, "test-app");
}

#[test]
fn test_get_application_by_name() {
    let mut db = fresh_store();

    let app = db.create("my-service").expect("create");

    let fetched = db.get_by_name("my-service").expect("get_by_name");
    assert!(fetched.is_some());
    let fetched = fetched.unwrap();
    assert_eq!(fetched.id, app.id);
    assert_eq!(fetched.name, "my-service");

    let not_found = db.get_by_name("does-not-exist").expect("get_by_name");
    assert!(not_found.is_none());
}

#[test]
fn test_list_applications() {
    let mut db = fresh_store();

    // Initially empty
    let apps = db.list().expect("list");
    assert_eq!(apps.len(), 0);

    db.create("app-1").expect("create");
    db.create("app-2").expect("create");
    db.create("app-3").expect("create");

    let apps = db.list().expect("list");
    assert_eq!(apps.len(), 3);

    let names: Vec<_> = apps.iter().map(|a| a.name.as_str()).collect();
    assert!(names.contains(&"app-1"));
    assert!(names.contains(&"app-2"));
    assert!(names.contains(&"app-3"));
}

#[test]
fn test_delete_application() {
    let mut db = fresh_store();

    let app = db.create("to-delete").expect("create");

    let exists = db.get(&app.id).expect("get");
    assert!(exists.is_some());

    let deleted = db.delete(&app.id).expect("delete");
    assert!(deleted);

    let not_found = db.get(&app.id).expect("get");
    assert!(not_found.is_none());

    let not_deleted = db.delete("fake-id").expect("delete");
    assert!(!not_deleted);
}

#[test]
fn test_duplicate_name_fails() {
    let mut db = fresh_store();

    db.create("duplicate").expect("create");

    let result = db.create("duplicate");
    assert!(result.is_err());
    assert!(matches!(result.unwrap_err(), DbError::DuplicateName(_)));
}

#[test]
fn test_empty_name_validation() {
    let mut db = fresh_store();

    let result = db.create("");
    assert!(result.is_err());
    assert!(matches!(result.unwrap_err(), DbError::InvalidName(_)));
}

#[test]
fn test_invalid_name_validation() {
    let mut db = fresh_store();

    let result = db.create("my app");
    assert!(matches!(result.unwrap_err(), DbError::InvalidName(_)));

    let result = db.create("-myapp");
    assert!(matches!(result.unwrap_err(), DbError::InvalidName(_)));

    let result = db.create("my@app");
    assert!(matches!(result.unwrap_err(), DbError::InvalidName(_)));

    let result = db.create(&"a".repeat(256));
    assert!(matches!(result.unwrap_err(), DbError::InvalidName(_)));
}

#[test]
fn test_migration_idempotency() {
    let mut db = Database::new();

    db.migrate().expect("bootstrap");
    db.migrate().expect("bootstrap");
    db.migrate().expect("bootstrap");

    let app = db.create("test").expect("create");
    assert_eq!(app.name, "test");
}

#[test]
fn test_concurrent_creates() {
    // The store serializes writers; here the ten creates run in their
    // serialization order.
    let mut db = fresh_store();

    let mut success_count = 0;
    for i in 0..10 {
        if db.create(&format!("app-{}", i)).is_ok() {
            success_count += 1;
        }
    }
    assert_eq!(success_count, 10);

    let apps = db.list().expect("list");
    assert_eq!(apps.len(), 10);
}

#[test]
fn test_same_name_race_serialized() {
    // Serialized calls with one identical valid name: one success, the
    // rest refused as duplicates.
    let mut db = fresh_store();

    let mut ok = 0;
    let mut dup = 0;
    for _ in 0..5 {
        match db.create("contested") {
            Ok(_) => ok += 1,
            Err(DbError::DuplicateName(n)) => {
                assert_eq!(n, "contested");
                dup += 1;
            }
            Err(e) => panic!("unexpected error: {:?}", e),
        }
    }
    assert_eq!(ok, 1);
    assert_eq!(dup, 4);
}

#[test]
fn test_generated_ids_shape() {
    let mut db = fresh_store();
    let a = db.create("one").expect("create");
    let b = db.create("two").expect("create");
    assert_eq!(a.id.chars().count(), 36);
    assert_eq!(b.id.chars().count(), 36);
    assert_ne!(a.id, b.id);
    // Wall-clock timestamps: later than 2020, captured at insertion.
    assert!(a.created_at > 1_577_836_800_000);
    assert!(b.created_at >= a.created_at);
}

#[test]
fn test_sort_applications_order() {
    let mk = |id: &str, name: &str, ts: i64| Application {
        id: id.to_string(),
        name: name.to_string(),
        created_at: ts,
    };
    let mut v = vec![
        mk("x1", "bravo", 100),
        mk("x2", "alpha", 100),
        mk("x3", "charlie", 200),
        mk("x4", "delta", 50),
    ];
    sort_applications(&mut v);
    let names: Vec<_> = v.iter().map(|a| a.name.as_str()).collect();
    // Newest first; names ascending among the two records sharing 100.
    assert_eq!(names, vec!["charlie", "alpha", "bravo", "delta"]);
}

#[test]
fn test_list_is_ordered() {
    let mut db = fresh_store();
    db.create("zeta").expect("create");
    db.create("alpha").expect("create");
    db.create("midway").expect("create");

    let apps = db.list().expect("list");
    assert_eq!(apps.len(), 3);
    for w in apps.windows(2) {
        let earlier = &w[0];
        let later = &w[1];
        assert!(
            earlier.created_at > later.created_at
                || (earlier.created_at == later.created_at && earlier.name <= later.name)
        );
    }
}

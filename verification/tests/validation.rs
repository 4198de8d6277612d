use ottershipper::validate_app_name;
use ottershipper::DbError;

#[test]
fn test_validate_app_name() {
    // Valid names
    assert!(validate_app_name("my-app").is_ok());
    assert!(validate_app_name("my_app").is_ok());
    assert!(validate_app_name("app123").is_ok());
    assert!(validate_app_name("MyApp").is_ok());

    // Invalid names
    assert!(validate_app_name("").is_err());
    assert!(validate_app_name("-app").is_err());
    assert!(validate_app_name("_app").is_err());
    assert!(validate_app_name("my app").is_err());
    assert!(validate_app_name("my@app").is_err());
    assert!(validate_app_name(&"a".repeat(256)).is_err());
}

#[test]
fn test_validate_length_boundary() {
    assert!(validate_app_name(&"a".repeat(255)).is_ok());
    assert!(validate_app_name(&"a".repeat(256)).is_err());
}

#[test]
fn test_validate_rejection_reasons() {
    match validate_app_name("") {
        Err(DbError::InvalidName(m)) => assert_eq!(m, "name cannot be empty"),
        _ => panic!("expected InvalidName"),
    }
    match validate_app_name(&"a".repeat(256)) {
        Err(DbError::InvalidName(m)) => assert_eq!(m, "name cannot exceed 255 characters"),
        _ => panic!("expected InvalidName"),
    }
    match validate_app_name("-app") {
        Err(DbError::InvalidName(m)) => {
            assert_eq!(m, "name must start with alphanumeric character")
        }
        _ => panic!("expected InvalidName"),
    }
    match validate_app_name("my app") {
        Err(DbError::InvalidName(m)) => assert_eq!(
            m,
            "name can only contain alphanumeric characters, hyphens, and underscores"
        ),
        _ => panic!("expected InvalidName"),
    }
}

#[test]
fn test_validate_is_deterministic() {
    for _ in 0..3 {
        match validate_app_name("my app") {
            Err(DbError::InvalidName(m)) => assert_eq!(
                m,
                "name can only contain alphanumeric characters, hyphens, and underscores"
            ),
            _ => panic!("expected InvalidName"),
        }
    }
}

#[test]
fn test_error_messages() {
    assert_eq!(
        DbError::InvalidName("x".to_string()).message(),
        "Invalid name: x"
    );
    assert_eq!(
        DbError::DuplicateName("my-app".to_string()).message(),
        "Name 'my-app' already exists"
    );
    assert_eq!(DbError::NotFound("y".to_string()).message(), "Not found: y");
    assert_eq!(
        DbError::DatabaseError("disk full".to_string()).message(),
        "Database error: disk full"
    );
    assert_eq!(
        DbError::Internal("oops".to_string()).message(),
        "Internal error: oops"
    );
}

#[test]
fn test_classify_insert_error() {
    let e = ottershipper::error::classify_insert_error(
        Some("2067"),
        "taken",
        "UNIQUE constraint failed: applications.name".to_string(),
    );
    match e {
        DbError::DuplicateName(n) => assert_eq!(n, "taken"),
        _ => panic!("expected DuplicateName"),
    }
    let e = ottershipper::error::classify_insert_error(
        Some("1555"),
        "taken",
        "some engine failure".to_string(),
    );
    match e {
        DbError::DatabaseError(d) => assert_eq!(d, "some engine failure"),
        _ => panic!("expected DatabaseError"),
    }
    let e = ottershipper::error::classify_insert_error(None, "taken", "io error".to_string());
    assert!(matches!(e, DbError::DatabaseError(_)));
}

use ottershipper::ApplicationService;
use ottershipper::Database;
use ottershipper::DbError;

fn setup_test_service() -> ApplicationService {
    let mut db = Database::new();
    db.migrate().expect("bootstrap");
    ApplicationService::new(db)
}

#[test]
fn test_service_integration() {
    let mut service = setup_test_service();

    // Test create
    let app = service.create_app("integration-test".to_string()).expect("create");
    assert_eq!(app.name, "integration-test");
    assert!(!app.id.is_empty());

    // Test get by id
    let fetched = service.get_app(&app.id).expect("get");
    assert!(fetched.is_some());
    assert_eq!(fetched.unwrap().name, "integration-test");

    // Test get by name
    let by_name = service.get_app_by_name("integration-test").expect("get_by_name");
    assert!(by_name.is_some());

    // Test list
    let apps = service.list_apps().expect("list");
    assert_eq!(apps.len(), 1);

    // Test delete
    let deleted = service.delete_app(&app.id).expect("delete");
    assert!(deleted);
    assert!(service.get_app(&app.id).expect("get").is_none());
}

#[test]
fn test_service_error_propagation() {
    let mut service = setup_test_service();

    // Test validation error propagation
    let result = service.create_app("invalid name".to_string());
    assert!(matches!(result, Err(DbError::InvalidName(_))));

    // Test duplicate name error propagation
    service.create_app("duplicate".to_string()).expect("create");
    let result = service.create_app("duplicate".to_string());
    assert!(matches!(result, Err(DbError::DuplicateName(_))));
}

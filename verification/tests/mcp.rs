use ottershipper::mcp::INTERNAL_ERROR_CODE;
use ottershipper::ApplicationService;
use ottershipper::CreateAppInput;
use ottershipper::Database;
use ottershipper::McpServer;

fn setup_mcp_test() -> McpServer {
    let mut db = Database::new();
    db.migrate().expect("bootstrap");
    McpServer::new(ApplicationService::new(db))
}

fn create_via_tool(server: &mut McpServer, name: &str) -> Result<String, ottershipper::mcp::ToolError> {
    server.otter_create_app(CreateAppInput { name: name.to_string() })
}

#[test]
fn test_mcp_create_app_e2e() {
    let mut server = setup_mcp_test();

    let response_text = create_via_tool(&mut server, "test-app").expect("create tool");

    // Verify response indicates success
    assert!(response_text.contains("Successfully created application"));
    assert!(response_text.contains("test-app"));

    // Verify the record is in the store, via the list tool
    let listed = server.otter_list_apps().expect("list tool");
    let response: serde_json::Value = serde_json::from_str(&listed).expect("valid json");
    assert_eq!(response["count"], 1);
    assert_eq!(response["applications"][0]["name"], "test-app");
}

#[test]
fn test_mcp_list_apps_e2e() {
    let mut server = setup_mcp_test();

    for name in ["app-one", "app-two", "app-three"] {
        create_via_tool(&mut server, name).expect("create tool");
    }

    let listed = server.otter_list_apps().expect("list tool");
    let response: serde_json::Value = serde_json::from_str(&listed).expect("valid json");

    // Verify success flag
    assert_eq!(response["success"], true);

    // Verify count
    assert_eq!(response["count"], 3);

    // Verify all apps are present
    let apps = response["applications"].as_array().unwrap();
    assert_eq!(apps.len(), 3);

    let app_names: Vec<String> = apps
        .iter()
        .map(|app| app["name"].as_str().unwrap().to_string())
        .collect();
    assert!(app_names.contains(&"app-one".to_string()));
    assert!(app_names.contains(&"app-two".to_string()));
    assert!(app_names.contains(&"app-three".to_string()));

    // Verify each app has required fields
    for app in apps {
        assert!(app["id"].is_string());
        assert!(app["name"].is_string());
        assert!(app["created_at"].is_number());
    }
}

#[test]
fn test_mcp_list_apps_empty() {
    let server = setup_mcp_test();

    let listed = server.otter_list_apps().expect("list tool");
    let response: serde_json::Value = serde_json::from_str(&listed).expect("valid json");

    assert_eq!(response["success"], true);
    assert_eq!(response["count"], 0);
    assert_eq!(response["applications"].as_array().unwrap().len(), 0);
}

#[test]
fn test_mcp_create_success_payload() {
    let mut server = setup_mcp_test();

    let response_text = create_via_tool(&mut server, "my-app").expect("create tool");
    let response: serde_json::Value = serde_json::from_str(&response_text).expect("valid json");

    assert_eq!(response["success"], true);
    let app = &response["application"];
    assert_eq!(app["name"], "my-app");
    let id = app["id"].as_str().unwrap();
    assert!(!id.is_empty());
    assert_eq!(id.chars().count(), 36);
    assert!(app["created_at"].is_number());
    let message = response["message"].as_str().unwrap();
    assert_eq!(
        message,
        format!("Successfully created application 'my-app' with ID {}", id)
    );
}

#[test]
fn test_mcp_create_duplicate_is_protocol_error() {
    let mut server = setup_mcp_test();

    create_via_tool(&mut server, "my-app").expect("create tool");
    let err = create_via_tool(&mut server, "my-app").expect_err("duplicate refused");
    assert_eq!(err.code, INTERNAL_ERROR_CODE);
    assert_eq!(
        err.message,
        "Failed to create application: Name 'my-app' already exists"
    );
}

#[test]
fn test_mcp_create_invalid_is_protocol_error() {
    let mut server = setup_mcp_test();

    let err = create_via_tool(&mut server, "").expect_err("empty name refused");
    assert_eq!(err.code, INTERNAL_ERROR_CODE);
    assert_eq!(
        err.message,
        "Failed to create application: Invalid name: name cannot be empty"
    );

    let err = create_via_tool(&mut server, "-app").expect_err("bad start refused");
    assert_eq!(err.code, INTERNAL_ERROR_CODE);
    assert_eq!(
        err.message,
        "Failed to create application: Invalid name: name must start with alphanumeric character"
    );

    let err = create_via_tool(&mut server, &"a".repeat(256)).expect_err("long name refused");
    assert!(err
        .message
        .contains("name cannot exceed 255 characters"));

    let err = create_via_tool(&mut server, "my app").expect_err("space refused");
    assert!(err
        .message
        .contains("name can only contain alphanumeric characters, hyphens, and underscores"));
}

#[test]
fn test_mcp_scenario_three_named_apps() {
    let mut server = setup_mcp_test();

    for name in ["app-1", "app-2", "app-3"] {
        create_via_tool(&mut server, name).expect("create tool");
    }

    let listed = server.otter_list_apps().expect("list tool");
    let response: serde_json::Value = serde_json::from_str(&listed).expect("valid json");
    assert_eq!(response["success"], true);
    assert_eq!(response["count"], 3);
    let apps = response["applications"].as_array().unwrap();
    let names: Vec<&str> = apps.iter().map(|a| a["name"].as_str().unwrap()).collect();
    assert!(names.contains(&"app-1"));
    assert!(names.contains(&"app-2"));
    assert!(names.contains(&"app-3"));
    for app in apps {
        assert!(app["id"].is_string());
        assert!(app["name"].is_string());
        assert!(app["created_at"].is_number());
    }
}

#[test]
fn test_render_escapes_json_text() {
    // The renderer is total: fed a record whose fields hold JSON-special
    // characters, it must escape them so the payload stays well-formed.
    let app = ottershipper::Application {
        id: "id-\"quoted\"\\".to_string(),
        name: "line\nbreak".to_string(),
        created_at: -7,
    };
    let rendered = ottershipper::mcp::render_app_json(&app);
    let parsed: serde_json::Value = serde_json::from_str(&rendered).expect("valid json");
    assert_eq!(parsed["id"], "id-\"quoted\"\\");
    assert_eq!(parsed["name"], "line\nbreak");
    assert_eq!(parsed["created_at"], -7);
}

#[test]
fn test_decimal_rendering() {
    assert_eq!(ottershipper::text::i64_to_string(0), "0");
    assert_eq!(ottershipper::text::i64_to_string(42), "42");
    assert_eq!(ottershipper::text::i64_to_string(-42), "-42");
    assert_eq!(
        ottershipper::text::i64_to_string(i64::MAX),
        "9223372036854775807"
    );
    assert_eq!(
        ottershipper::text::i64_to_string(i64::MIN),
        "-9223372036854775808"
    );
    assert_eq!(ottershipper::text::usize_to_string(0), "0");
    assert_eq!(ottershipper::text::usize_to_string(100), "100");
}

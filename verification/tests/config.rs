use ottershipper::config::Config;
use ottershipper::config::DatabaseConfig;
use ottershipper::config::ServerConfig;

#[test]
fn test_config_defaults() {
    let c = Config::default();
    assert_eq!(c.server.transport, "stdio");
    assert_eq!(c.server.bind_address, "0.0.0.0");
    assert_eq!(c.server.port, 3000);
    assert_eq!(c.database.path, "./ottershipper.db");

    let s = ServerConfig::default();
    assert_eq!(s.transport, ottershipper::config::default_transport());
    assert_eq!(s.bind_address, ottershipper::config::default_bind_address());
    assert_eq!(s.port, ottershipper::config::default_port());

    let d = DatabaseConfig::default();
    assert_eq!(d.path, ottershipper::config::default_database_path());
}

#[test]
fn test_pool_config_defaults() {
    let p = ottershipper::DatabaseConfig::default();
    assert_eq!(p.max_connections, 5);
    assert!(p.enable_wal);
}

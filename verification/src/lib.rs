//! A small record-management library: named application records with
//! validated names, a uniqueness-preserving store, and the tool-call
//! surface that exposes creation and enumeration of those records.

pub mod config;
pub mod error;
pub mod laws;
pub mod mcp;
pub mod models;
pub mod schemas;
pub mod service;
pub mod store;
pub mod text;
pub mod validation;

pub use error::DbError;
pub use models::Application;
pub use mcp::McpServer;
pub use schemas::CreateAppInput;
pub use service::ApplicationService;
pub use store::Database;
pub use store::DatabaseConfig;
pub use validation::validate_app_name;

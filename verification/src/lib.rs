//! Configuration documents of an MCP server launcher: the per-project server
//! registry, the application's own preferences, the rules a registry must
//! meet before it is saved, and the JSON form in which both are kept.

pub mod codec;
pub mod error;
pub mod json;
pub mod laws;
pub mod model;
pub mod names;
pub mod store;
pub mod validate;

pub use error::{ConfigError, Field, ParseError, ShapeError, ValidationError};
pub use model::{AppConfig, McpConfig, McpServer};
pub use names::NameMap;
pub use store::{load_app_config, load_mcp_config, save_app_config, save_mcp_config};
pub use validate::validate_mcp_config;

//! Support for cross-compilation with the `cross` tool: the `Cross.toml`
//! settings it needs and the conversion of paths inside its container.
pub mod config;
pub mod workspace;

pub use config::CrossConfigGuard;

//! Capabilities and the extensions that provide them.
pub mod capability;
pub mod catalog;
pub mod catalog_law;
pub mod custom;
pub mod extension_law;
pub mod lifecycle;
pub mod mcp;
pub mod skill;
pub mod supervisor;

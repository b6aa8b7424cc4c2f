//! Minecraft server manager core: version identifier grammar and
//! classification, a TTL-based response cache with retry planning, and
//! deduplicated, idempotent install orchestration.

pub mod command;
pub mod identifiers;
pub mod install;
pub mod metadata;
pub mod minecraft;
pub mod net;
pub mod version;

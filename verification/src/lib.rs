//! Keyhaven core: the verified logic of an offline, encrypted password vault.

pub mod catalog;
pub mod commands;
pub mod crypto;
pub mod entries;
pub mod error;
pub mod generator;
pub mod model;
pub mod session;
pub mod text;
pub mod vault;

//! A multi-version binary installer and version manager: the verified core.
pub mod app;
pub mod app_module;
pub mod cli;
pub mod commands;
pub mod config;
pub mod dirs;
pub mod errors;
pub mod journal;
pub mod laws;
pub mod lockfile;
pub mod manager;
pub mod resolver;
pub mod responses;
pub mod strmap;
pub mod tables;
pub mod text;
pub mod transaction;
pub mod util;
pub mod version;
pub mod versions_cache;
pub mod world;

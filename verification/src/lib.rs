//! Per-user playlist collections, layout preferences, watch progress and a
//! shared cache of video metadata, kept in a relational store with atomic
//! whole-collection saves and merge-policy import and export.

pub mod account;
pub mod bootstrap;
pub mod codec;
pub mod columns;
pub mod config;
pub mod error;
pub mod files;
pub mod format;
pub mod json;
pub mod metadata;
pub mod model;
pub mod progress;
pub mod range;
pub mod server;
pub mod store;
pub mod table;
pub mod text;
pub mod thumbnail;
pub mod transcode;
pub mod transfer;

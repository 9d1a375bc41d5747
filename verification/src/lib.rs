//! Verified core of a self-hosted video pipeline: URL submission, download
//! planning, file classification, PeerTube upload planning, ownership rules
//! and configuration.
pub mod text;
pub mod paths;
pub mod files;
pub mod download;
pub mod identity;
pub mod media;
pub mod config;
pub mod keys;
pub mod listing;
pub mod handoff;
pub mod lifecycle;
pub mod queue;
pub mod web;
pub mod commands;
pub mod api;
pub mod endpoints;

//! Core of a desktop application launcher: a registry of named applications
//! mirrored to an append-only log, and the pipeline that turns a raw icon
//! bitmap into a text-encoded PNG image.

pub mod app_log;
pub mod icon;
pub mod launcher;
pub mod registry;

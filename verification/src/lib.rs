//! Verified core of a library for inspecting AppImage files and the
//! SquashFS payloads they carry.

pub mod appimage;
pub mod appimage_handler;
pub mod bytes;
pub mod config;
pub mod desktop_integration;
pub mod elf;
pub mod error;
pub mod error_code;
pub mod format;
pub mod handlers;
pub mod payload;
pub mod payload_iterator;
pub mod payload_types;
pub mod progress;
pub mod squashfs_tools;
pub mod text;

pub use config::{features, version};

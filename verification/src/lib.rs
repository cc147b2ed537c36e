//! Library behind a command-line tool that keeps a Rust extension library and
//! a Godot engine project in sync: it maintains the project manifest, edits
//! the entry-point `lib.rs` of the managed library when modules come and go,
//! generates the engine-side descriptor files, and decides how and where each
//! platform's dynamic library is built and placed.
//!
//! Everything that only computes lives here, verified; reading and writing
//! files, spawning external tools and watching the file system live in the
//! surrounding binary. Structural failures (a missing module, a duplicate
//! platform) are reported through [`manifest::Error`]; no function here
//! panics or touches the file system.

pub mod build_utils;
pub mod cargo_config;
pub mod console;
pub mod cross;
pub mod definitions;
pub mod entrypoint;
pub mod gdnlib;
pub mod gdns_file;
pub mod manifest;
pub mod names;
pub mod paths;
pub mod plugin_config;
pub mod platforms;
pub mod templates;
pub mod text;
pub mod watch;

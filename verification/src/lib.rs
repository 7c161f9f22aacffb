//! Keeps a user-installed copy of a command-line binary in sync with the
//! version bundled inside a desktop application.
//!
//! The core logic — target-platform resolution, install-path computation,
//! the install state transition over a filesystem model, and semantic-version
//! comparison driving reinstall decisions — is verified. The thin shell that
//! performs real filesystem and subprocess work lives outside this library.

pub mod cmd;
pub mod errors;
pub mod fsmodel;
pub mod install;
pub mod paths;
pub mod strutil;
pub mod target;
pub mod version;

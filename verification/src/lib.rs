//! Verified decision logic of the DSH Desktop host: release manifests, version
//! ordering, update choice and presentation, and the small protocols the host
//! speaks with the Harness process and the native dialogs.
pub mod text;
pub mod release_version;
pub mod winpath;
pub mod manifest;
pub mod official;
pub mod address;
pub mod runtime;
pub mod update_ui;
pub mod process;
pub mod dialogs;
pub mod host;
pub mod bootstrap;
pub mod paths;

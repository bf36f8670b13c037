//! Native backend library for the ContextPad desktop editor.
//!
//! The library holds the decision and data logic of the backend's gateways:
//! language detection from file paths, file-name extraction, directory
//! listing (dotfile filtering and ordering), launch-argument routing for the
//! single-instance path, the file-dialog filter table, the file-explorer
//! launcher choice, and the credential gateway over the OS secret vault.
//! The surrounding process (window chrome, dialogs, raw file I/O, the event
//! channel) lives outside the library and hands it plain values.

pub mod casefold;
pub mod dialog;
pub mod explorer;
pub mod language;
pub mod launch;
pub mod listing;
pub mod paths;
pub mod secrets;

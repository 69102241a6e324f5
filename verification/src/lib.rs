//! Discovery of installed games from library manifests and generation of
//! launcher shortcuts, with every decision stated as a contract.

pub mod text;
pub mod pattern;
pub mod manifest;
pub mod classify;
pub mod shortcut;
pub mod icon;
pub mod reconcile;
pub mod run;

//! A plugin manager's core: catalogs of plugins, their resolution into a
//! registry, the ledger of installed plugins, and the decisions behind
//! install, upgrade, uninstall and update.

pub mod catalog;
pub mod config;
pub mod laws;
pub mod ledger;
pub mod listing;
pub mod plugin;
pub mod plugin_manager;
pub mod registry;
pub mod resolver;
pub mod text;

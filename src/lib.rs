//! An alias manager: a store of named shell commands, the rendering of its
//! listing, the scripts that make each alias a command of its own, and the
//! decisions of each subcommand.
pub mod config;
pub mod dispatch;
pub mod error;
pub mod listing;
pub mod order;
pub mod registry;
pub mod shim;

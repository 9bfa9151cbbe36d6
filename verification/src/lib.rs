//! An interactive, menu-driven administration console framework.
//!
//! Independent modules (directory management, mailbox management, ...) each
//! expose a set of tools. The library provides the registry that binds a
//! name and description to each tool and module, and the hierarchical menu
//! state machine through which an operator discovers, lists and invokes
//! them. The concrete work a tool performs is an opaque operation value
//! supplied by the embedding program; the framework never inspects it.

pub mod cli;
pub mod io;
pub mod models;
pub mod modules;
pub mod registry;
pub mod text;

//! A small calculation pipeline assembled from isolated components.
//!
//! Components never share memory. Each one declares the interfaces it exports
//! and the interfaces it imports; a composition root resolves every import to
//! exactly one export, instantiates the components in dependency order and
//! carries every call across the boundary by value.

pub mod adder;
pub mod call;
pub mod compose;
pub mod contract;
pub mod dependency;
pub mod descriptor;
pub mod fault;
pub mod marshal;
pub mod pipeline;
pub mod resolve;
pub mod root;

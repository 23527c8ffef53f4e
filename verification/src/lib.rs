//! An interactive session on a chain of Clarity smart contracts.
pub mod chain;
pub mod diagnostic;
pub mod event;
pub mod laws;
pub mod model;
pub mod paint;
pub mod reference;
pub mod session;
pub mod settings;
pub mod table;
pub mod text;

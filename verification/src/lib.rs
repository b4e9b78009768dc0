//! Screen-time supervision: the decisions of the supervising service and of
//! the command executor, with their contracts.

pub mod action;
pub mod actionprocessor;
pub mod actions;
pub mod auxiliary;
pub mod client;
pub mod codec;
pub mod decimal;
pub mod engine;
pub mod extensions;
pub mod playtime;
pub mod server;
pub mod settings;
pub mod timer;
pub mod wreg;

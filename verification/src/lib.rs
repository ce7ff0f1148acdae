//! A content-addressed data source registry and an idempotent settlement
//! ledger, with the rules of both proved against mathematical models of
//! their state.

pub mod identifier;
pub mod registry;
pub mod settlement;

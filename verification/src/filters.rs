//! Filters: stages that drop aggregates and keep the rest in their order.

pub mod booleans;
pub mod cooldown;
pub mod min_listens;
pub mod timeouts;

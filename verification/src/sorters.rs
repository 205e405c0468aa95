//! Sorters: stages that take a whole collection and give it an order.

pub mod listen_rate;
pub mod overdue;

//! Radio generation over a listener's history.
//!
//! A listen history is grouped into per-recording aggregates, narrowed by
//! filters, ranked by a sorter and cut to a budget by a collector. The circle
//! generator is an alternative producer that walks between recordings and the
//! artists credited on them.

pub mod aggregate;
pub mod circles;
pub mod clock;
pub mod collector;
pub mod config;
pub mod display;
pub mod entity;
pub mod filters;
pub mod history;
pub mod listen;
pub mod paginator;
pub mod radio;
pub mod random;
pub mod ranking;
pub mod score;
pub mod seeder;
pub mod sequence;
pub mod sorters;
pub mod stats;
pub mod text;

//! A circular table of binary switches that can be rotated and selectively
//! flipped by a cyclically replayed sequence of moves, together with a
//! bounded trial runner.  Every function is verified against a mathematical
//! model of the table, the strategy and the trial.
//!
//! Chance enters in three places only: `Switch::random`,
//! `RotatingTable::rotate_randomly` and `set_up_table`.  Each draws a value
//! and hands it to a function that takes it as an argument (`Switch::new`,
//! `RotatingTable::rotate`, `RotatingTable::new`), so a caller who wants a
//! run that can be repeated calls those with values of its own choosing.

pub mod applier;
mod entropy;
pub mod error;
pub mod harness;
pub mod laws;
pub mod render;
pub mod strategy;
pub mod switch;
pub mod table;

pub use applier::{ApplierView, StrategyApplier};
pub use error::SimError;
pub use harness::{set_up_table, test_strategy, verdict, verdict_of, STEP_BUDGET};
pub use strategy::{Strategy, StrategyElement, StrategyView};
pub use switch::Switch;
pub use table::{RotatingTable, TableView};

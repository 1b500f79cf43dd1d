//! A to-do list: tasks with dense integer identifiers, the rules for adding,
//! removing and renumbering them, and the decisions that a front-end and a
//! storage back-end take around those rules.

pub mod board;
pub mod command;
pub mod laws;
pub mod list;
pub mod shown;
pub mod table;
pub mod task;
pub mod text;

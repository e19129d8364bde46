//! A filesystem garbage collector's core logic: a duration-expression
//! parser, per-pattern retention rules, the decisions of a clearing
//! pass, and a recursive, flattenable failure aggregate.

pub mod config;
pub mod dur;
pub mod rule;
pub mod target;

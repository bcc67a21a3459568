//! Parser and evaluator for the templated emote log messages of a certain
//! well-known online game. A raw markup string is parsed into an AST, reduced
//! once into a reusable list of (condition-set, text) pairs, and that list can
//! then be evaluated repeatedly against different participant data.

pub mod log_message;
pub mod repository;

//! Logical terms of a trait-resolution engine and the memoizing database
//! that serves program clauses to a solver.

pub mod builders;
pub mod could_match;
pub mod db;
pub mod environment;
pub mod equality;
pub mod error;
pub mod name;
pub mod term;

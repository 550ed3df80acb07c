//! Verified core of a local runner for Forgejo and GitHub workflows: the
//! `${{ }}` expression lexer and parser, job planning, action references and
//! the value objects describing a run.
use vstd::prelude::*;

pub mod aggregates;
pub mod entities;
pub mod errors;
pub mod expression;
pub mod messages;
pub mod planner;
pub mod services;
pub mod text;
pub mod text_map;
pub mod value_objects;

verus! {
} // verus!

//! Parser for a comment-embedded migration language layered over SQL source
//! files: versioned migrations with rollback blocks, nested migration groups,
//! reusable parametric macros and stored-function declarations, together with
//! a dependency-reference grammar tying the entities to one another.

pub mod file;
pub mod function;
pub mod macro_func;
pub mod migration;
pub mod migration_group;
pub mod migration_dependency;
pub mod migration_tags;
pub mod parse_errors;
pub mod text;

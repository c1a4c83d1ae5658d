//! The closed vocabulary of migration-level tags.

use vstd::prelude::*;

use crate::parse_errors::{KindV, ParseErrorKind};
use crate::text::eq_ignore_case;
use crate::text::str_eq_ignore_case;

verus! {

/// A tag a migration or a migration group may carry.
#[derive(Debug, Clone, Copy, PartialEq, Eq, Hash, Structural)]
pub enum MigrationTags {
    Concurrent,
    Transactional,
}

/// How a single token parses as a migration tag: case-insensitively, with any
/// unknown token rejected.
pub open spec fn parse_migration_tag(s: Seq<char>) -> Result<MigrationTags, KindV> {
    if eq_ignore_case(s, "concurrent"@) {
        Ok(MigrationTags::Concurrent)
    } else if eq_ignore_case(s, "transactional"@) {
        Ok(MigrationTags::Transactional)
    } else {
        Err(KindV::UnknownTag(s))
    }
}

impl MigrationTags {
    /// Parse one token.
    pub fn try_from(value: &str) -> (r: Result<MigrationTags, ParseErrorKind>)
        ensures
            match r {
                Ok(t) => parse_migration_tag(value@) == Ok::<MigrationTags, KindV>(t),
                Err(k) => parse_migration_tag(value@) == Err::<MigrationTags, KindV>(k@),
            },
    {
        if str_eq_ignore_case(value, "concurrent") {
            Ok(MigrationTags::Concurrent)
        } else if str_eq_ignore_case(value, "transactional") {
            Ok(MigrationTags::Transactional)
        } else {
            Err(ParseErrorKind::UnknownTag(value.to_owned()))
        }
    }
}

} // verus!

//! A single migration: a named, versioned unit of forward SQL with an
//! optional rollback body, built up line by line while its block is open.

use vstd::prelude::*;
use vstd::string::*;

use crate::migration_dependency::{DepV, Dependency};
use crate::migration_tags::{parse_migration_tag, MigrationTags};
use crate::parse_errors::{KindV, ParseErrorKind};
use crate::text::append_line;
use crate::text::push_line;

verus! {

/// Mathematical image of a `Migration`.
pub struct MigrationV {
    pub name: Seq<char>,
    pub full_path: Option<Seq<char>>,
    pub version: Option<Seq<char>>,
    pub description: Seq<char>,
    pub sql: Seq<char>,
    pub sql_rollback: Seq<char>,
    pub dependencies: Seq<DepV>,
    pub tags: Seq<MigrationTags>,
    pub nuclear: bool,
}

/// A named, versioned, forward-plus-rollback SQL unit.
#[derive(Debug)]
pub struct Migration {
    name: String,
    full_path: Option<String>,
    version: Option<String>,
    description: String,
    sql: String,
    sql_rollback: String,
    dependencies: Vec<Dependency>,
    tags: Vec<MigrationTags>,
    nuclear: bool,
}

impl View for Migration {
    type V = MigrationV;

    closed spec fn view(&self) -> MigrationV {
        MigrationV {
            name: self.name@,
            full_path: match self.full_path {
                Some(ref p) => Some(p@),
                None => None,
            },
            version: match self.version {
                Some(ref v) => Some(v@),
                None => None,
            },
            description: self.description@,
            sql: self.sql@,
            sql_rollback: self.sql_rollback@,
            dependencies: self.dependencies@.map_values(|d: Dependency| d@),
            tags: self.tags@,
            nuclear: self.nuclear,
        }
    }
}

/// A fresh migration: only the name is set.
pub open spec fn migration_new(name: Seq<char>) -> MigrationV {
    MigrationV {
        name: name,
        full_path: None,
        version: None,
        description: Seq::empty(),
        sql: Seq::empty(),
        sql_rollback: Seq::empty(),
        dependencies: Seq::empty(),
        tags: Seq::empty(),
        nuclear: false,
    }
}

/// The qualified path a migration reports: the computed full path when one
/// was set, else the bare name.
pub open spec fn migration_path(m: MigrationV) -> Seq<char> {
    match m.full_path {
        Some(p) => p,
        None => m.name,
    }
}

/// Set-like insertion into an ordered tag list.
pub open spec fn tag_insert<T>(tags: Seq<T>, t: T) -> Seq<T> {
    if tags.contains(t) {
        tags
    } else {
        tags.push(t)
    }
}

/// Membership test on a tag list.
pub fn contains_tag(v: &Vec<MigrationTags>, t: MigrationTags) -> (r: bool)
    ensures
        r == v@.contains(t),
{
    let mut i: usize = 0;
    while i < v.len()
        invariant
            i <= v@.len(),
            forall|j: int| 0 <= j < i ==> v@[j] != t,
        decreases v@.len() - i,
    {
        if v[i] == t {
            return true;
        }
        i += 1;
    }
    false
}

impl Migration {
    /// A fresh migration with the given name.
    pub fn new(name: &str) -> (r: Migration)
        ensures
            r@ == migration_new(name@),
    {
        let r = Migration {
            name: name.to_owned(),
            full_path: None,
            version: None,
            description: String::new(),
            sql: String::new(),
            sql_rollback: String::new(),
            dependencies: Vec::new(),
            tags: Vec::new(),
            nuclear: false,
        };
        proof {
            assert(r@.dependencies =~= migration_new(name@).dependencies);
        }
        r
    }

    /// Parse one tag token and add it to the tag set; reports whether the tag
    /// was newly inserted, or the unknown-tag error.
    pub fn add_tag(&mut self, unparsed_tag: &str) -> (r: Result<bool, ParseErrorKind>)
        ensures
            match r {
                Ok(b) => parse_migration_tag(unparsed_tag@) matches Ok(t) && final(self)@ == (
                MigrationV { tags: tag_insert(old(self)@.tags, t), ..old(self)@ }) && b == !old(
                    self,
                )@.tags.contains(t),
                Err(k) => parse_migration_tag(unparsed_tag@) == Err::<MigrationTags, KindV>(k@)
                    && *final(self) == *old(self),
            },
    {
        let tag = match MigrationTags::try_from(unparsed_tag) {
            Ok(t) => t,
            Err(k) => {
                return Err(k);
            },
        };
        if contains_tag(&self.tags, tag) {
            Ok(false)
        } else {
            self.tags.push(tag);
            Ok(true)
        }
    }

    /// Append one line of description text.
    pub fn add_description(&mut self, description: &str)
        ensures
            final(self)@ == (MigrationV {
                description: append_line(old(self)@.description, description@),
                ..old(self)@
            }),
    {
        push_line(&mut self.description, description);
    }

    /// Append one line of forward SQL.
    pub fn add_sql(&mut self, sql: &str)
        ensures
            final(self)@ == (MigrationV { sql: append_line(old(self)@.sql, sql@), ..old(self)@ }),
    {
        push_line(&mut self.sql, sql);
    }

    /// Append one line of rollback SQL.
    pub fn add_sql_rollback(&mut self, sql: &str)
        ensures
            final(self)@ == (MigrationV {
                sql_rollback: append_line(old(self)@.sql_rollback, sql@),
                ..old(self)@
            }),
    {
        push_line(&mut self.sql_rollback, sql);
    }

    /// Record a dependency.
    pub fn add_dependency(&mut self, dependency: Dependency)
        ensures
            final(self)@ == (MigrationV {
                dependencies: old(self)@.dependencies.push(dependency@),
                ..old(self)@
            }),
    {
        let ghost before = self@.dependencies;
        self.dependencies.push(dependency);
        proof {
            assert(self@.dependencies =~= before.push(dependency@));
        }
    }

    /// Set the semantic version string.
    pub fn set_version(&mut self, version: &str)
        ensures
            final(self)@ == (MigrationV { version: Some(version@), ..old(self)@ }),
    {
        self.version = Some(version.to_owned());
    }

    /// Set the computed fully qualified path.
    pub fn set_full_path(&mut self, full_path: &str)
        ensures
            final(self)@ == (MigrationV { full_path: Some(full_path@), ..old(self)@ }),
    {
        self.full_path = Some(full_path.to_owned());
    }

    /// Mark the migration as destructive.
    pub fn set_nuclear_true(&mut self)
        ensures
            final(self)@ == (MigrationV { nuclear: true, ..old(self)@ }),
    {
        self.nuclear = true;
    }

    pub fn name(&self) -> (r: &str)
        ensures
            r@ == self@.name,
    {
        self.name.as_str()
    }

    pub fn version(&self) -> (r: Option<&str>)
        ensures
            match r {
                Some(v) => self@.version == Some(v@),
                None => self@.version is None,
            },
    {
        match self.version {
            Some(ref v) => Some(v.as_str()),
            None => None,
        }
    }

    pub fn description(&self) -> (r: &str)
        ensures
            r@ == self@.description,
    {
        self.description.as_str()
    }

    pub fn sql(&self) -> (r: &str)
        ensures
            r@ == self@.sql,
    {
        self.sql.as_str()
    }

    /// The rollback body captured after the rollback marker.
    pub fn sql_rollback(&self) -> (r: &str)
        ensures
            r@ == self@.sql_rollback,
    {
        self.sql_rollback.as_str()
    }

    pub fn dependencies(&self) -> (r: &Vec<Dependency>)
        ensures
            r@.map_values(|d: Dependency| d@) == self@.dependencies,
    {
        &self.dependencies
    }

    pub fn tags(&self) -> (r: &Vec<MigrationTags>)
        ensures
            r@ == self@.tags,
    {
        &self.tags
    }

    /// The qualified path: the computed full path when set, else the name.
    pub fn path(&self) -> (r: &str)
        ensures
            r@ == migration_path(self@),
    {
        match self.full_path {
            Some(ref p) => p.as_str(),
            None => self.name.as_str(),
        }
    }

    /// Was the migration marked destructive?
    pub fn nuclear(&self) -> (r: bool)
        ensures
            r == self@.nuclear,
    {
        self.nuclear
    }
}

} // verus!

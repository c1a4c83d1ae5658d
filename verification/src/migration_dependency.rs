//! Dependency references: typed pointers to a migration, group, function or
//! macro, optionally marked as living in another file.

use vstd::prelude::*;
use vstd::string::*;

use crate::parse_errors::{KindV, ParseErrorKind};
use crate::text::{
    find_from, first_occ, has_at, has_prefix, lemma_first_occ_at, lemma_first_occ_bounds,
    lemma_first_occ_none, lemma_has_at_shift, starts_with_str,
};

verus! {

/// A reference to another entity.  The payload is the reference text as it
/// stood in the source, minus any leading file-scope marker.
#[derive(Debug, PartialEq, Eq, Hash)]
pub enum Dependency {
    Migration(String),
    Group(String),
    Function(String),
    Macro(String),
    InAnotherFile(Box<Dependency>),
}

/// Which entity a dependency points at.
pub enum DepKindV {
    Migration,
    Group,
    Function,
    Macro,
}

/// Mathematical image of a `Dependency`: the innermost payload and kind, and
/// how many `InAnotherFile` wrappers stand around them.
pub struct DepV {
    pub wraps: nat,
    pub kind: DepKindV,
    pub path: Seq<char>,
}

/// The image of a `Dependency`, unwinding nested `InAnotherFile` wrappers.
pub open spec fn dep_view(d: Dependency) -> DepV
    decreases d,
{
    match d {
        Dependency::Migration(p) => DepV { wraps: 0, kind: DepKindV::Migration, path: p@ },
        Dependency::Group(p) => DepV { wraps: 0, kind: DepKindV::Group, path: p@ },
        Dependency::Function(p) => DepV { wraps: 0, kind: DepKindV::Function, path: p@ },
        Dependency::Macro(p) => DepV { wraps: 0, kind: DepKindV::Macro, path: p@ },
        Dependency::InAnotherFile(d) => {
            let inner = dep_view(*d);
            DepV { wraps: inner.wraps + 1, kind: inner.kind, path: inner.path }
        },
    }
}

impl View for Dependency {
    type V = DepV;

    open spec fn view(&self) -> DepV {
        dep_view(*self)
    }
}

// ---------------------------------------------------------------------------
// the reference grammar
// ---------------------------------------------------------------------------

/// Somewhere after position `a` a closing parenthesis follows, and the
/// character at `a` is not itself one: `a` starts a non-empty argument.
pub open spec fn pattern_closes(s: Seq<char>, a: int) -> bool {
    a < s.len() && s[a] != ')' && exists|j: int| a < j < s.len() && s[j] == ')'
}

/// The text contains `head` followed by a non-empty parenthesised argument,
/// as in `Migration(name)`.
pub open spec fn has_call_pattern(s: Seq<char>, head: Seq<char>) -> bool {
    exists|i: int| #[trigger] has_at(s, head, i) && pattern_closes(s, i + head.len())
}

pub fn contains_call_pattern(s: &str, head: &str) -> (r: bool)
    requires
        head@.len() >= 1,
    ensures
        r == has_call_pattern(s@, head@),
{
    let n = s.unicode_len();
    let m = head.unicode_len();
    let mut pos: usize = 0;
    loop
        invariant
            pos <= n + 1,
            n == s@.len(),
            m == head@.len(),
            m >= 1,
            forall|k: int|
                k < pos ==> !(#[trigger] has_at(s@, head@, k) && pattern_closes(s@, k + m)),
        decreases n + 1 - pos,
    {
        match find_from(s, head, pos) {
            None => {
                return false;
            },
            Some(i) => {
                let a = i + m;
                if a < n && s.get_char(a) != ')' {
                    let j = find_char_from_here(s, a + 1);
                    if j < n {
                        proof {
                            assert(has_at(s@, head@, i as int) && pattern_closes(s@, i + m));
                        }
                        return true;
                    }
                }
                proof {
                    assert(!pattern_closes(s@, i + m));
                }
                pos = i + 1;
            },
        }
    }
}

/// First `)` at or after `from`, or the length of `s`.
fn find_char_from_here(s: &str, from: usize) -> (r: usize)
    requires
        from <= s@.len(),
    ensures
        from <= r <= s@.len(),
        forall|k: int| from <= k < r ==> s@[k] != ')',
        r < s@.len() ==> s@[r as int] == ')',
{
    crate::text::find_char_from(s, ')', from)
}

/// Leading `::` file-scope markers removed.
pub open spec fn strip_file_scope(s: Seq<char>) -> Seq<char>
    decreases s.len(),
    via strip_file_scope_decreases
{
    if has_prefix(s, "::"@) {
        strip_file_scope(s.skip(2))
    } else {
        s
    }
}

#[via_fn]
proof fn strip_file_scope_decreases(s: Seq<char>) {
    reveal_strlit("::");
}

/// How a dependency string with no file-scope marker parses: the
/// `Migration(...)` pattern is tried first, then `Group(...)`; the whole
/// string is retained as the payload.
pub open spec fn dep_parse_base(s: Seq<char>) -> Result<DepV, KindV> {
    if has_call_pattern(s, "Migration("@) {
        Ok(DepV { wraps: 0, kind: DepKindV::Migration, path: s })
    } else if has_call_pattern(s, "Group("@) {
        Ok(DepV { wraps: 0, kind: DepKindV::Group, path: s })
    } else {
        Err(KindV::InvalidDependencyFormat(s))
    }
}

/// How a dependency string parses: a leading file-scope marker is stripped
/// and remembered as one `InAnotherFile` wrapper.
pub open spec fn dep_parse(s: Seq<char>) -> Result<DepV, KindV> {
    if has_prefix(s, "::"@) {
        match dep_parse_base(strip_file_scope(s)) {
            Ok(d) => Ok(DepV { wraps: 1, kind: d.kind, path: d.path }),
            Err(e) => Err(e),
        }
    } else {
        dep_parse_base(s)
    }
}

// ---------------------------------------------------------------------------
// the final path segment
// ---------------------------------------------------------------------------

/// The text after the last `::` separator, scanning separators from the left
/// without overlap; the whole text when there is none.
pub open spec fn last_path_segment(s: Seq<char>) -> Seq<char>
    decreases s.len(),
    via last_path_segment_decreases
{
    let i = first_occ(s, "::"@);
    if i < 0 {
        s
    } else {
        last_path_segment(s.skip(i + 2))
    }
}

#[via_fn]
proof fn last_path_segment_decreases(s: Seq<char>) {
    reveal_strlit("::");
    lemma_first_occ_bounds(s, "::"@);
}

impl Dependency {
    /// Parse a dependency string.
    pub fn new(dependency: &str) -> (r: Result<Dependency, ParseErrorKind>)
        ensures
            match r {
                Ok(d) => dep_parse(dependency@) == Ok::<DepV, KindV>(d@),
                Err(k) => dep_parse(dependency@) == Err::<DepV, KindV>(k@),
            },
    {
        proof {
            reveal_strlit("::");
        }
        let wrapped = starts_with_str(dependency, "::");
        let mut t: &str = dependency;
        while starts_with_str(t, "::")
            invariant
                strip_file_scope(dependency@) == strip_file_scope(t@),
            decreases t@.len(),
        {
            proof {
                reveal_strlit("::");
                assert(t@.skip(2) =~= t@.subrange(2, t@.len() as int));
            }
            t = t.substring_char(2, t.unicode_len());
        }
        proof {
            assert(strip_file_scope(t@) == t@);
            reveal_strlit("Migration(");
            reveal_strlit("Group(");
        }
        let base = if contains_call_pattern(t, "Migration(") {
            Dependency::Migration(t.to_owned())
        } else if contains_call_pattern(t, "Group(") {
            Dependency::Group(t.to_owned())
        } else {
            return Err(ParseErrorKind::InvalidDependencyFormat(t.to_owned()));
        };
        proof {
            assert(dep_parse_base(t@) == Ok::<DepV, KindV>(dep_view(base)));
        }
        if wrapped {
            Ok(Dependency::InAnotherFile(Box::new(base)))
        } else {
            Ok(base)
        }
    }

    /// A function reference, built directly from a call-site name.
    pub fn new_function(complete_path: &str) -> (r: Dependency)
        ensures
            r@ == (DepV { wraps: 0, kind: DepKindV::Function, path: complete_path@ }),
    {
        Dependency::Function(complete_path.to_owned())
    }

    /// A macro reference, built directly from a call-site name.
    pub fn new_macro(complete_path: &str) -> (r: Dependency)
        ensures
            r@ == (DepV { wraps: 0, kind: DepKindV::Macro, path: complete_path@ }),
    {
        Dependency::Macro(complete_path.to_owned())
    }

    /// A migration reference with the given payload.
    pub fn migration(complete_path: &str) -> (r: Dependency)
        ensures
            r@ == (DepV { wraps: 0, kind: DepKindV::Migration, path: complete_path@ }),
    {
        Dependency::Migration(complete_path.to_owned())
    }

    /// A group reference with the given payload.
    pub fn group(complete_path: &str) -> (r: Dependency)
        ensures
            r@ == (DepV { wraps: 0, kind: DepKindV::Group, path: complete_path@ }),
    {
        Dependency::Group(complete_path.to_owned())
    }

    /// The stored reference path, looking through any file-scope wrapper.
    pub fn complete_path(&self) -> (r: &str)
        ensures
            r@ == self@.path,
        decreases self,
    {
        match self {
            Dependency::Migration(p) => p.as_str(),
            Dependency::Group(p) => p.as_str(),
            Dependency::Function(p) => p.as_str(),
            Dependency::Macro(p) => p.as_str(),
            Dependency::InAnotherFile(d) => d.complete_path(),
        }
    }

    /// The final `::`-delimited segment of the stored path.
    pub fn name(&self) -> (r: &str)
        ensures
            r@ == last_path_segment(self@.path),
    {
        let p = self.complete_path();
        let n = p.unicode_len();
        let mut pos: usize = 0;
        proof {
            assert(p@.skip(0) =~= p@);
        }
        loop
            invariant
                pos <= n,
                n == p@.len(),
                p@ == self@.path,
                last_path_segment(p@) == last_path_segment(p@.skip(pos as int)),
            decreases n - pos,
        {
            proof {
                reveal_strlit("::");
            }
            match find_from(p, "::", pos) {
                Some(i) => {
                    proof {
                        assert forall|k: int| 0 <= k < i - pos implies !has_at(
                            p@.skip(pos as int),
                            "::"@,
                            k,
                        ) by {
                            lemma_has_at_shift(p@, "::"@, pos as int, k);
                        }
                        lemma_has_at_shift(p@, "::"@, pos as int, i - pos);
                        lemma_first_occ_at(p@.skip(pos as int), "::"@, i - pos);
                        assert(p@.skip(pos as int).skip(i - pos + 2) =~= p@.skip(i + 2));
                    }
                    pos = i + 2;
                },
                None => {
                    proof {
                        assert forall|k: int| !has_at(p@.skip(pos as int), "::"@, k) by {
                            if 0 <= k {
                                lemma_has_at_shift(p@, "::"@, pos as int, k);
                            }
                        }
                        lemma_first_occ_none(p@.skip(pos as int), "::"@);
                        assert(p@.skip(pos as int) =~= p@.subrange(pos as int, n as int));
                    }
                    return p.substring_char(pos, n);
                },
            }
        }
    }

    /// Is this a bare migration reference in the current file?
    pub fn is_migration(&self) -> (r: bool)
        ensures
            r == (self@.wraps == 0 && self@.kind is Migration),
    {
        match self {
            Dependency::Migration(_) => true,
            _ => false,
        }
    }

    /// Is this a bare group reference in the current file?
    pub fn is_group(&self) -> (r: bool)
        ensures
            r == (self@.wraps == 0 && self@.kind is Group),
    {
        match self {
            Dependency::Group(_) => true,
            _ => false,
        }
    }

    /// Does the reference point outside the current file?
    pub fn is_from_other_file(&self) -> (r: bool)
        ensures
            r == (self@.wraps > 0),
    {
        match self {
            Dependency::InAnotherFile(_) => true,
            _ => false,
        }
    }

    /// Does the reference point inside the current file?
    pub fn is_from_current_file(&self) -> (r: bool)
        ensures
            r == (self@.wraps == 0),
    {
        !self.is_from_other_file()
    }
}

} // verus!

//! The file-level parser: a single-pass, line-oriented state machine that
//! turns raw text into migrations, migration groups, macros and stored
//! functions, enforcing strict nesting and mutual-exclusion rules.

use vstd::prelude::*;
use vstd::string::*;

use crate::function::{function_finish, function_new, Function, FunctionV};
use crate::macro_func::{macro_finish, macro_new, MacroFunc, MacroFuncV};
use crate::migration::{migration_new, Migration, MigrationV};
use crate::migration_dependency::{dep_parse, DepV, Dependency};
use crate::migration_group::{
    group_new, group_view, groups_view, lemma_groups_view, GroupV, MigrationGroup,
};
use crate::migration_tags::parse_migration_tag;
use crate::parse_errors::{err_v, ErrV, KindV, ParseError, ParseErrorKind};
use crate::text::{
    digits_end, has_prefix, scan_digits, scan_word, split_char_spec, split_lines, split_on_char,
    starts_with_str, trim, trim_spec, word_end,
};

verus! {

/// Which directive a continuation run is feeding.
#[derive(Debug, Clone, Copy, PartialEq, Eq, Structural)]
pub enum PipeFor {
    Tags,
    Parameters,
    Returns,
    Macro,
}

// ---------------------------------------------------------------------------
// line classification
// ---------------------------------------------------------------------------

/// Is the trimmed line a continuation line with a payload?
pub open spec fn is_pipe_line(t: Seq<char>) -> bool {
    has_prefix(t, "-- | "@) && t.len() > "-- | "@.len()
}

/// End of a `digits.digits` run starting at `a`, or -1 when none starts there.
pub open spec fn version2_end(s: Seq<char>, a: int) -> int {
    let d1 = digits_end(s, a);
    if d1 == a || !(d1 < s.len()) || s[d1] != '.' {
        -1
    } else {
        let d2 = digits_end(s, d1 + 1);
        if d2 == d1 + 1 {
            -1
        } else {
            d2
        }
    }
}

/// End of a `digits.digits.digits` run starting at `a`, or -1.
pub open spec fn version3_end(s: Seq<char>, a: int) -> int {
    let e2 = version2_end(s, a);
    if e2 < 0 || !(e2 < s.len()) || s[e2] != '.' {
        -1
    } else {
        let d3 = digits_end(s, e2 + 1);
        if d3 == e2 + 1 {
            -1
        } else {
            d3
        }
    }
}

/// The identifier captured after a start directive: the leading identifier
/// run of the trimmed remainder; empty when the name is missing.
pub open spec fn name_capture(t: Seq<char>, prefix_len: int) -> Seq<char> {
    let rest = trim_spec(t.skip(prefix_len));
    rest.take(word_end(rest, 0))
}

/// The version captured by a `+version:` directive, or empty when the value
/// does not begin with a three-part version.
pub open spec fn version_capture(t: Seq<char>) -> Seq<char> {
    let v = trim_spec(t.skip("-- +version:"@.len() as int));
    let e = version3_end(v, 0);
    if e < 0 {
        Seq::empty()
    } else {
        v.take(e)
    }
}

/// What kind of line a trimmed source line is, with the directive's value.
pub enum LineV {
    Pipe(Seq<char>),
    FsqlVersion(Seq<char>),
    MigrationStart(Seq<char>),
    MigrationEnd,
    MacroStart(Seq<char>),
    MacroEnd,
    FunctionStart(Seq<char>),
    FunctionEnd,
    GroupStart(Seq<char>),
    GroupEnd,
    Nuclear,
    Tags(Seq<char>),
    Version(Seq<char>),
    Depends(Seq<char>),
    Rollback,
    Parameters(Seq<char>),
    Returns(Seq<char>),
    Call(Seq<char>),
    Description(Seq<char>),
    Other,
}

/// Classify one trimmed line.  Directives are matched from the start of the
/// line, in a fixed priority order; a line that matches none is body text.
pub open spec fn classify_v(t: Seq<char>) -> LineV {
    if is_pipe_line(t) {
        LineV::Pipe(t.skip("-- | "@.len() as int))
    } else if has_prefix(t, "-- +fsql:version: "@) && version2_end(
        t,
        "-- +fsql:version: "@.len() as int,
    ) >= 0 {
        LineV::FsqlVersion(
            t.subrange(
                "-- +fsql:version: "@.len() as int,
                version2_end(t, "-- +fsql:version: "@.len() as int),
            ),
        )
    } else if has_prefix(t, "-- +migration:"@) {
        LineV::MigrationStart(name_capture(t, "-- +migration:"@.len() as int))
    } else if has_prefix(t, "-- +endmigration"@) {
        LineV::MigrationEnd
    } else if has_prefix(t, "-- +macro:"@) {
        LineV::MacroStart(name_capture(t, "-- +macro:"@.len() as int))
    } else if has_prefix(t, "-- +endmacro"@) {
        LineV::MacroEnd
    } else if has_prefix(t, "-- +function:"@) {
        LineV::FunctionStart(name_capture(t, "-- +function:"@.len() as int))
    } else if has_prefix(t, "-- +endfunction"@) {
        LineV::FunctionEnd
    } else if has_prefix(t, "-- +group:"@) {
        LineV::GroupStart(name_capture(t, "-- +group:"@.len() as int))
    } else if has_prefix(t, "-- +endgroup"@) {
        LineV::GroupEnd
    } else if has_prefix(t, "-- +nuclear"@) {
        LineV::Nuclear
    } else if has_prefix(t, "-- +tags:"@) {
        LineV::Tags(t.skip("-- +tags:"@.len() as int))
    } else if has_prefix(t, "-- +version:"@) {
        LineV::Version(version_capture(t))
    } else if has_prefix(t, "-- +depends:"@) {
        LineV::Depends(trim_spec(t.skip("-- +depends:"@.len() as int)))
    } else if has_prefix(t, "-- +rollback"@) {
        LineV::Rollback
    } else if has_prefix(t, "-- +parameters:"@) {
        LineV::Parameters(t.skip("-- +parameters:"@.len() as int))
    } else if has_prefix(t, "-- +returns:"@) {
        LineV::Returns(t.skip("-- +returns:"@.len() as int))
    } else if has_prefix(t, "-- +call:"@) {
        LineV::Call(t.skip("-- +call:"@.len() as int))
    } else if has_prefix(t, "--+ "@) && t.len() > "--+ "@.len() {
        LineV::Description(t.skip("--+ "@.len() as int))
    } else {
        LineV::Other
    }
}

/// Exec image of `LineV`.
enum Line {
    Pipe(String),
    FsqlVersion(String),
    MigrationStart(String),
    MigrationEnd,
    MacroStart(String),
    MacroEnd,
    FunctionStart(String),
    FunctionEnd,
    GroupStart(String),
    GroupEnd,
    Nuclear,
    Tags(String),
    Version(String),
    Depends(String),
    Rollback,
    Parameters(String),
    Returns(String),
    Call(String),
    Description(String),
    Other,
}

impl View for Line {
    type V = LineV;

    closed spec fn view(&self) -> LineV {
        match self {
            Line::Pipe(s) => LineV::Pipe(s@),
            Line::FsqlVersion(s) => LineV::FsqlVersion(s@),
            Line::MigrationStart(s) => LineV::MigrationStart(s@),
            Line::MigrationEnd => LineV::MigrationEnd,
            Line::MacroStart(s) => LineV::MacroStart(s@),
            Line::MacroEnd => LineV::MacroEnd,
            Line::FunctionStart(s) => LineV::FunctionStart(s@),
            Line::FunctionEnd => LineV::FunctionEnd,
            Line::GroupStart(s) => LineV::GroupStart(s@),
            Line::GroupEnd => LineV::GroupEnd,
            Line::Nuclear => LineV::Nuclear,
            Line::Tags(s) => LineV::Tags(s@),
            Line::Version(s) => LineV::Version(s@),
            Line::Depends(s) => LineV::Depends(s@),
            Line::Rollback => LineV::Rollback,
            Line::Parameters(s) => LineV::Parameters(s@),
            Line::Returns(s) => LineV::Returns(s@),
            Line::Call(s) => LineV::Call(s@),
            Line::Description(s) => LineV::Description(s@),
            Line::Other => LineV::Other,
        }
    }
}

/// Reveal every directive literal.
proof fn reveal_directives()
    ensures
        "-- | "@.len() == 5,
        "-- +fsql:version: "@.len() == 18,
        "-- +migration:"@.len() == 14,
        "-- +endmigration"@.len() == 16,
        "-- +macro:"@.len() == 10,
        "-- +endmacro"@.len() == 12,
        "-- +function:"@.len() == 13,
        "-- +endfunction"@.len() == 15,
        "-- +group:"@.len() == 10,
        "-- +endgroup"@.len() == 12,
        "-- +nuclear"@.len() == 11,
        "-- +tags:"@.len() == 9,
        "-- +version:"@.len() == 12,
        "-- +depends:"@.len() == 12,
        "-- +rollback"@.len() == 12,
        "-- +parameters:"@.len() == 15,
        "-- +returns:"@.len() == 12,
        "-- +call:"@.len() == 9,
        "--+ "@.len() == 4,
{
    reveal_strlit("-- | ");
    reveal_strlit("-- +fsql:version: ");
    reveal_strlit("-- +migration:");
    reveal_strlit("-- +endmigration");
    reveal_strlit("-- +macro:");
    reveal_strlit("-- +endmacro");
    reveal_strlit("-- +function:");
    reveal_strlit("-- +endfunction");
    reveal_strlit("-- +group:");
    reveal_strlit("-- +endgroup");
    reveal_strlit("-- +nuclear");
    reveal_strlit("-- +tags:");
    reveal_strlit("-- +version:");
    reveal_strlit("-- +depends:");
    reveal_strlit("-- +rollback");
    reveal_strlit("-- +parameters:");
    reveal_strlit("-- +returns:");
    reveal_strlit("-- +call:");
    reveal_strlit("--+ ");
}

/// A prefix pins down the characters it covers.
proof fn lemma_prefix_char(t: Seq<char>, p: Seq<char>, i: int)
    requires
        has_prefix(t, p),
        0 <= i < p.len(),
    ensures
        t[i] == p[i],
{
    assert(t.take(p.len() as int)[i] == p[i]);
}

/// A line that begins with the file-version directive matches no other
/// directive pattern.
proof fn lemma_fsql_excludes(t: Seq<char>)
    requires
        has_prefix(t, "-- +fsql:version: "@),
    ensures
        !is_pipe_line(t),
        !has_prefix(t, "-- +migration:"@),
        !has_prefix(t, "-- +endmigration"@),
        !has_prefix(t, "-- +macro:"@),
        !has_prefix(t, "-- +endmacro"@),
        !has_prefix(t, "-- +function:"@),
        !has_prefix(t, "-- +endfunction"@),
        !has_prefix(t, "-- +group:"@),
        !has_prefix(t, "-- +endgroup"@),
        !has_prefix(t, "-- +nuclear"@),
        !has_prefix(t, "-- +tags:"@),
        !has_prefix(t, "-- +version:"@),
        !has_prefix(t, "-- +depends:"@),
        !has_prefix(t, "-- +rollback"@),
        !has_prefix(t, "-- +parameters:"@),
        !has_prefix(t, "-- +returns:"@),
        !has_prefix(t, "-- +call:"@),
        !has_prefix(t, "--+ "@),
{
    reveal_strlit("-- | ");
    reveal_strlit("-- +fsql:version: ");
    reveal_strlit("-- +migration:");
    reveal_strlit("-- +endmigration");
    reveal_strlit("-- +macro:");
    reveal_strlit("-- +endmacro");
    reveal_strlit("-- +function:");
    reveal_strlit("-- +endfunction");
    reveal_strlit("-- +group:");
    reveal_strlit("-- +endgroup");
    reveal_strlit("-- +nuclear");
    reveal_strlit("-- +tags:");
    reveal_strlit("-- +version:");
    reveal_strlit("-- +depends:");
    reveal_strlit("-- +rollback");
    reveal_strlit("-- +parameters:");
    reveal_strlit("-- +returns:");
    reveal_strlit("-- +call:");
    reveal_strlit("--+ ");
    lemma_prefix_char(t, "-- +fsql:version: "@, 2);
    lemma_prefix_char(t, "-- +fsql:version: "@, 3);
    lemma_prefix_char(t, "-- +fsql:version: "@, 4);
    lemma_prefix_char(t, "-- +fsql:version: "@, 5);
    if has_prefix(t, "-- | "@) {
        lemma_prefix_char(t, "-- | "@, 3);
    }
    if has_prefix(t, "-- +migration:"@) {
        lemma_prefix_char(t, "-- +migration:"@, 4);
    }
    if has_prefix(t, "-- +endmigration"@) {
        lemma_prefix_char(t, "-- +endmigration"@, 4);
    }
    if has_prefix(t, "-- +macro:"@) {
        lemma_prefix_char(t, "-- +macro:"@, 4);
    }
    if has_prefix(t, "-- +endmacro"@) {
        lemma_prefix_char(t, "-- +endmacro"@, 4);
    }
    if has_prefix(t, "-- +function:"@) {
        lemma_prefix_char(t, "-- +function:"@, 5);
    }
    if has_prefix(t, "-- +endfunction"@) {
        lemma_prefix_char(t, "-- +endfunction"@, 4);
    }
    if has_prefix(t, "-- +group:"@) {
        lemma_prefix_char(t, "-- +group:"@, 4);
    }
    if has_prefix(t, "-- +endgroup"@) {
        lemma_prefix_char(t, "-- +endgroup"@, 4);
    }
    if has_prefix(t, "-- +nuclear"@) {
        lemma_prefix_char(t, "-- +nuclear"@, 4);
    }
    if has_prefix(t, "-- +tags:"@) {
        lemma_prefix_char(t, "-- +tags:"@, 4);
    }
    if has_prefix(t, "-- +version:"@) {
        lemma_prefix_char(t, "-- +version:"@, 4);
    }
    if has_prefix(t, "-- +depends:"@) {
        lemma_prefix_char(t, "-- +depends:"@, 4);
    }
    if has_prefix(t, "-- +rollback"@) {
        lemma_prefix_char(t, "-- +rollback"@, 4);
    }
    if has_prefix(t, "-- +parameters:"@) {
        lemma_prefix_char(t, "-- +parameters:"@, 4);
    }
    if has_prefix(t, "-- +returns:"@) {
        lemma_prefix_char(t, "-- +returns:"@, 4);
    }
    if has_prefix(t, "-- +call:"@) {
        lemma_prefix_char(t, "-- +call:"@, 4);
    }
    if has_prefix(t, "--+ "@) {
        lemma_prefix_char(t, "--+ "@, 2);
    }
}

/// The name captured after a start directive whose prefix has length `p`.
fn capture_name(t: &str, p: usize) -> (r: String)
    requires
        p <= t@.len(),
    ensures
        r@ == name_capture(t@, p as int),
{
    let rest = trim(t.substring_char(p, t.unicode_len()));
    proof {
        assert(t@.subrange(p as int, t@.len() as int) =~= t@.skip(p as int));
        crate::text::lemma_word_end_bounds(rest@, 0);
    }
    let e = scan_word(rest, 0);
    let name = rest.substring_char(0, e);
    proof {
        assert(name@ =~= trim_spec(t@.skip(p as int)).take(
            word_end(trim_spec(t@.skip(p as int)), 0),
        ));
    }
    name.to_owned()
}

/// Classify one trimmed line.
fn classify(t: &str) -> (r: Line)
    ensures
        r@ == classify_v(t@),
{
    proof {
        reveal_directives();
    }
    let n = t.unicode_len();
    if starts_with_str(t, "-- | ") && n > 5 {
        let payload = t.substring_char(5, n).to_owned();
        proof {
            assert(payload@ =~= t@.skip(5));
        }
        return Line::Pipe(payload);
    }
    if starts_with_str(t, "-- +fsql:version: ") {
        let d1 = scan_digits(t, 18);
        proof {
            crate::text::lemma_digits_end_bounds(t@, 18);
        }
        if d1 > 18 && d1 < n && t.get_char(d1) == '.' {
            let d2 = scan_digits(t, d1 + 1);
            proof {
                crate::text::lemma_digits_end_bounds(t@, d1 as int + 1);
            }
            if d2 > d1 + 1 {
                proof {
                    assert(version2_end(t@, 18) == d2);
                }
                return Line::FsqlVersion(t.substring_char(18, d2).to_owned());
            }
        }
        proof {
            assert(version2_end(t@, 18) < 0);
            lemma_fsql_excludes(t@);
        }
        return Line::Other;
    }
    if starts_with_str(t, "-- +migration:") {
        return Line::MigrationStart(capture_name(t, 14));
    }
    if starts_with_str(t, "-- +endmigration") {
        return Line::MigrationEnd;
    }
    if starts_with_str(t, "-- +macro:") {
        return Line::MacroStart(capture_name(t, 10));
    }
    if starts_with_str(t, "-- +endmacro") {
        return Line::MacroEnd;
    }
    if starts_with_str(t, "-- +function:") {
        return Line::FunctionStart(capture_name(t, 13));
    }
    if starts_with_str(t, "-- +endfunction") {
        return Line::FunctionEnd;
    }
    if starts_with_str(t, "-- +group:") {
        return Line::GroupStart(capture_name(t, 10));
    }
    if starts_with_str(t, "-- +endgroup") {
        return Line::GroupEnd;
    }
    if starts_with_str(t, "-- +nuclear") {
        return Line::Nuclear;
    }
    if starts_with_str(t, "-- +tags:") {
        let value = t.substring_char(9, n).to_owned();
        proof {
            assert(value@ =~= t@.skip(9));
        }
        return Line::Tags(value);
    }
    if starts_with_str(t, "-- +version:") {
        let v = trim(t.substring_char(12, n));
        proof {
            assert(t@.subrange(12, n as int) =~= t@.skip(12));
        }
        let m = v.unicode_len();
        let d1 = scan_digits(v, 0);
        proof {
            crate::text::lemma_digits_end_bounds(v@, 0);
        }
        if d1 > 0 && d1 < m && v.get_char(d1) == '.' {
            let d2 = scan_digits(v, d1 + 1);
            proof {
                crate::text::lemma_digits_end_bounds(v@, d1 as int + 1);
            }
            if d2 > d1 + 1 && d2 < m && v.get_char(d2) == '.' {
                let d3 = scan_digits(v, d2 + 1);
                proof {
                    crate::text::lemma_digits_end_bounds(v@, d2 as int + 1);
                }
                if d3 > d2 + 1 {
                    proof {
                        assert(version2_end(v@, 0) == d2);
                        assert(version3_end(v@, 0) == d3);
                    }
                    return Line::Version(v.substring_char(0, d3).to_owned());
                }
            }
            proof {
                assert(version3_end(v@, 0) < 0);
            }
            return Line::Version(String::new());
        }
        proof {
            assert(version2_end(v@, 0) < 0);
            assert(version3_end(v@, 0) < 0);
        }
        return Line::Version(String::new());
    }
    if starts_with_str(t, "-- +depends:") {
        let value = trim(t.substring_char(12, n)).to_owned();
        proof {
            assert(t@.subrange(12, n as int) =~= t@.skip(12));
        }
        return Line::Depends(value);
    }
    if starts_with_str(t, "-- +rollback") {
        return Line::Rollback;
    }
    if starts_with_str(t, "-- +parameters:") {
        let value = t.substring_char(15, n).to_owned();
        proof {
            assert(value@ =~= t@.skip(15));
        }
        return Line::Parameters(value);
    }
    if starts_with_str(t, "-- +returns:") {
        let value = t.substring_char(12, n).to_owned();
        proof {
            assert(value@ =~= t@.skip(12));
        }
        return Line::Returns(value);
    }
    if starts_with_str(t, "-- +call:") {
        let value = t.substring_char(9, n).to_owned();
        proof {
            assert(value@ =~= t@.skip(9));
        }
        return Line::Call(value);
    }
    if starts_with_str(t, "--+ ") && n > 4 {
        let value = t.substring_char(4, n).to_owned();
        proof {
            assert(value@ =~= t@.skip(4));
        }
        return Line::Description(value);
    }
    Line::Other
}

// ---------------------------------------------------------------------------
// the parser state and its transition relation
// ---------------------------------------------------------------------------

/// The construct currently open, if any, with the line it was opened at.
/// At most one of migration, macro and function is ever open.
pub enum ActiveV {
    Idle,
    InMigration(MigrationV, int),
    InMacro(MacroFuncV, int),
    InFunction(FunctionV, int),
}

/// The whole parser state: the open construct, the stack of open groups with
/// their opening lines, the rollback and continuation registers, and what has
/// been finished so far.
pub struct StateV {
    pub active: ActiveV,
    pub groups: Seq<GroupV>,
    pub group_lines: Seq<int>,
    pub rollback: bool,
    pub pipe_for: Option<PipeFor>,
    pub buffer: Seq<char>,
    pub migrations: Seq<MigrationV>,
    pub out_groups: Seq<GroupV>,
    pub macros: Seq<MacroFuncV>,
    pub functions: Seq<FunctionV>,
    pub fsql_version: Option<Seq<char>>,
}

/// The state parsing starts from.
pub open spec fn init_state() -> StateV {
    StateV {
        active: ActiveV::Idle,
        groups: Seq::empty(),
        group_lines: Seq::empty(),
        rollback: false,
        pipe_for: None,
        buffer: Seq::empty(),
        migrations: Seq::empty(),
        out_groups: Seq::empty(),
        macros: Seq::empty(),
        functions: Seq::empty(),
        fsql_version: None,
    }
}

/// The word naming the open construct in structural error messages.
pub open spec fn active_ctx(a: ActiveV) -> Seq<char> {
    match a {
        ActiveV::Idle => Seq::empty(),
        ActiveV::InMigration(_, _) => "migration"@,
        ActiveV::InMacro(_, _) => "macro"@,
        ActiveV::InFunction(_, _) => "function"@,
    }
}

/// Apply migration-level tag tokens in order, stopping at the first unknown.
pub open spec fn apply_migration_tags(
    tags: Seq<crate::migration_tags::MigrationTags>,
    toks: Seq<Seq<char>>,
    lineno: int,
) -> Result<Seq<crate::migration_tags::MigrationTags>, ErrV>
    decreases toks.len(),
{
    if toks.len() == 0 {
        Ok(tags)
    } else {
        match parse_migration_tag(trim_spec(toks[0])) {
            Err(k) => Err(
                err_v(k, lineno, "Error parsing tag '"@ + trim_spec(toks[0]) + "'"@),
            ),
            Ok(tg) => apply_migration_tags(
                crate::migration::tag_insert(tags, tg),
                toks.drop_first(),
                lineno,
            ),
        }
    }
}

/// Apply function-level tag tokens in order, stopping at the first unknown.
pub open spec fn apply_function_tags(
    tags: Seq<crate::function::FunctionTags>,
    toks: Seq<Seq<char>>,
    lineno: int,
) -> Result<Seq<crate::function::FunctionTags>, ErrV>
    decreases toks.len(),
{
    if toks.len() == 0 {
        Ok(tags)
    } else {
        match crate::function::parse_function_tag(trim_spec(toks[0])) {
            Err(k) => Err(
                err_v(k, lineno, "Error parsing tag '"@ + trim_spec(toks[0]) + "'"@),
            ),
            Ok(tg) => apply_function_tags(
                crate::migration::tag_insert(tags, tg),
                toks.drop_first(),
                lineno,
            ),
        }
    }
}

/// What a tags value does to the state: split on commas, each trimmed token
/// parsed and applied to the open migration, else the innermost open group,
/// else the open function.
pub open spec fn apply_tags_v(st: StateV, value: Seq<char>, lineno: int) -> Result<StateV, ErrV> {
    let toks = split_char_spec(value, ',');
    match st.active {
        ActiveV::InMigration(m, l) => match apply_migration_tags(m.tags, toks, lineno) {
            Err(e) => Err(e),
            Ok(tags) => Ok(
                StateV {
                    active: ActiveV::InMigration(MigrationV { tags, ..m }, l),
                    ..st
                },
            ),
        },
        _ => {
            if st.groups.len() > 0 {
                let g = st.groups.last();
                match apply_migration_tags(g.tags, toks, lineno) {
                    Err(e) => Err(e),
                    Ok(tags) => Ok(
                        StateV {
                            groups: st.groups.update(
                                st.groups.len() - 1,
                                GroupV { tags, ..g },
                            ),
                            ..st
                        },
                    ),
                }
            } else {
                match st.active {
                    ActiveV::InFunction(f, l) => match apply_function_tags(
                        f.tags,
                        toks,
                        lineno,
                    ) {
                        Err(e) => Err(e),
                        Ok(tags) => Ok(
                            StateV {
                                active: ActiveV::InFunction(FunctionV { tags, ..f }, l),
                                ..st
                            },
                        ),
                    },
                    _ => Err(
                        err_v(
                            KindV::TagsWithoutContext,
                            lineno,
                            "Tags used without a migration, migration group, or function"@,
                        ),
                    ),
                }
            }
        },
    }
}

/// What a parameters value does to the state: parsed as a typed argument list
/// for an open function, as a macro parameter list for an open macro.
pub open spec fn apply_params_v(st: StateV, value: Seq<char>, lineno: int) -> Result<
    StateV,
    ErrV,
> {
    match st.active {
        ActiveV::InFunction(f, l) => match crate::function::parse_func_args(trim_spec(value)) {
            Err(k) => Err(
                err_v(k, lineno, "Error parsing parameters '"@ + trim_spec(value) + "'"@),
            ),
            Ok(args) => Ok(
                StateV {
                    active: ActiveV::InFunction(
                        FunctionV { arguments: f.arguments + args, ..f },
                        l,
                    ),
                    ..st
                },
            ),
        },
        ActiveV::InMacro(mc, l) => Ok(
            StateV {
                active: ActiveV::InMacro(
                    MacroFuncV {
                        arguments: crate::macro_func::parse_macro_args(trim_spec(value)),
                        ..mc
                    },
                    l,
                ),
                ..st
            },
        ),
        _ => Err(
            err_v(KindV::ParametersWithoutContext, lineno, "Parameters used without a function"@),
        ),
    }
}

/// What a returns value does to the state: sets the return type of the open
/// function.
pub open spec fn apply_returns_v(st: StateV, value: Seq<char>, lineno: int) -> Result<
    StateV,
    ErrV,
> {
    if trim_spec(value).len() == 0 {
        Err(err_v(KindV::MissingReturnType, lineno, "Missing return type in function"@))
    } else {
        match st.active {
            ActiveV::InFunction(f, l) => Ok(
                StateV {
                    active: ActiveV::InFunction(
                        FunctionV { return_type: Some(trim_spec(value)), ..f },
                        l,
                    ),
                    ..st
                },
            ),
            _ => Err(
                err_v(KindV::ReturnsWithoutContext, lineno, "Returns used without a function"@),
            ),
        }
    }
}

/// The called macro's name: the text before the first `(`, trimmed.
pub open spec fn macro_call_name(s: Seq<char>) -> Seq<char> {
    let p = crate::text::first_char(s, '(');
    if p < 0 {
        trim_spec(s)
    } else {
        trim_spec(s.take(p))
    }
}

/// What a macro-call value does to the state: records a macro dependency on
/// the open macro, else the open function, else the open migration.
pub open spec fn apply_call_v(st: StateV, value: Seq<char>, lineno: int) -> Result<StateV, ErrV> {
    let v = trim_spec(value);
    if v.len() == 0 {
        Err(err_v(KindV::MissingMacroName, lineno, "Missing macro name in call"@))
    } else {
        let dep = DepV {
            wraps: 0,
            kind: crate::migration_dependency::DepKindV::Macro,
            path: macro_call_name(v),
        };
        match st.active {
            ActiveV::InMacro(mc, l) => Ok(
                StateV {
                    active: ActiveV::InMacro(
                        MacroFuncV { dependencies: mc.dependencies.push(dep), ..mc },
                        l,
                    ),
                    ..st
                },
            ),
            ActiveV::InFunction(f, l) => Ok(
                StateV {
                    active: ActiveV::InFunction(
                        FunctionV { dependencies: f.dependencies.push(dep), ..f },
                        l,
                    ),
                    ..st
                },
            ),
            ActiveV::InMigration(m, l) => Ok(
                StateV {
                    active: ActiveV::InMigration(
                        MigrationV { dependencies: m.dependencies.push(dep), ..m },
                        l,
                    ),
                    ..st
                },
            ),
            ActiveV::Idle => Err(
                err_v(
                    KindV::MacroCallWithoutContext,
                    lineno,
                    "Macro call used without migration, macro or function"@,
                ),
            ),
        }
    }
}

/// The `::`-joined names of the open groups, outermost first.
pub open spec fn group_path(groups: Seq<GroupV>) -> Seq<char> {
    crate::text::seq_join(groups.map_values(|g: GroupV| g.name), "::"@)
}

/// The qualified path a migration closing under the open groups receives.
pub open spec fn migration_close_path(groups: Seq<GroupV>, name: Seq<char>) -> Seq<char> {
    if groups.len() == 0 {
        "Migration("@ + name + ")"@
    } else {
        group_path(groups) + "::Migration("@ + name + ")"@
    }
}

/// A structural error naming the open construct.
pub open spec fn unexpected_err(kind: KindV, head: Seq<char>, st: StateV, lineno: int) -> Result<
    StateV,
    ErrV,
> {
    Err(err_v(kind, lineno, head + active_ctx(st.active)))
}

/// One step of the state machine on a classified, trimmed, non-blank line.
/// `next_is_pipe` says whether the line after it is a continuation line.
pub open spec fn step_v(st: StateV, t: Seq<char>, next_is_pipe: bool, lineno: int) -> Result<
    StateV,
    ErrV,
> {
    match classify_v(t) {
        LineV::Pipe(payload) => {
            if next_is_pipe {
                Ok(StateV { buffer: st.buffer + payload, ..st })
            } else {
                match st.pipe_for {
                    None => Err(
                        err_v(
                            KindV::UnexpectedEndOfFile(lineno),
                            lineno,
                            "Unexpected pipe without context"@,
                        ),
                    ),
                    Some(pf) => {
                        let b = st.buffer + payload;
                        let st2 = StateV { buffer: Seq::empty(), pipe_for: None, ..st };
                        match pf {
                            PipeFor::Tags => apply_tags_v(st2, b, lineno),
                            PipeFor::Parameters => apply_params_v(st2, b, lineno),
                            PipeFor::Returns => apply_returns_v(st2, b, lineno),
                            PipeFor::Macro => apply_call_v(st2, b, lineno),
                        }
                    },
                }
            }
        },
        LineV::FsqlVersion(v) => Ok(StateV { fsql_version: Some(v), ..st }),
        LineV::MigrationStart(name) => {
            if !(st.active is Idle) {
                unexpected_err(
                    KindV::UnexpectedMigrationStart,
                    "Unexpected migration start inside "@,
                    st,
                    lineno,
                )
            } else if name.len() == 0 {
                Err(err_v(KindV::MissingMigrationName, lineno, "Missing migration name"@))
            } else {
                Ok(StateV { active: ActiveV::InMigration(migration_new(name), lineno), ..st })
            }
        },
        LineV::MigrationEnd => {
            match st.active {
                ActiveV::InMacro(_, _) => unexpected_err(
                    KindV::UnexpectedMigrationEnd,
                    "Unexpected migration end inside "@,
                    st,
                    lineno,
                ),
                ActiveV::InFunction(_, _) => unexpected_err(
                    KindV::UnexpectedMigrationEnd,
                    "Unexpected migration end inside "@,
                    st,
                    lineno,
                ),
                ActiveV::InMigration(m, _) => {
                    let m2 = MigrationV {
                        full_path: Some(migration_close_path(st.groups, m.name)),
                        ..m
                    };
                    if st.groups.len() > 0 {
                        let g = st.groups.last();
                        Ok(
                            StateV {
                                active: ActiveV::Idle,
                                rollback: false,
                                groups: st.groups.update(
                                    st.groups.len() - 1,
                                    GroupV { migrations: g.migrations.push(m2), ..g },
                                ),
                                ..st
                            },
                        )
                    } else {
                        Ok(
                            StateV {
                                active: ActiveV::Idle,
                                rollback: false,
                                migrations: st.migrations.push(m2),
                                ..st
                            },
                        )
                    }
                },
                ActiveV::Idle => Err(
                    err_v(KindV::UnexpectedMigrationEnd, lineno, "Unexpected migration end"@),
                ),
            }
        },
        LineV::MacroStart(name) => {
            if !(st.active is Idle) {
                unexpected_err(
                    KindV::UnexpectedMacroStart,
                    "Unexpected macro start inside "@,
                    st,
                    lineno,
                )
            } else if name.len() == 0 {
                Err(err_v(KindV::MissingMacroName, lineno, "Missing macro name"@))
            } else {
                Ok(StateV { active: ActiveV::InMacro(macro_new(name), lineno), ..st })
            }
        },
        LineV::MacroEnd => {
            match st.active {
                ActiveV::InMacro(mc, _) => Ok(
                    StateV {
                        active: ActiveV::Idle,
                        macros: st.macros.push(macro_finish(mc)),
                        ..st
                    },
                ),
                ActiveV::Idle => Err(
                    err_v(
                        KindV::UnexpectedMacroEnd,
                        lineno,
                        "Unexpected macro end inside "@ + "macro"@,
                    ),
                ),
                _ => unexpected_err(
                    KindV::UnexpectedMacroEnd,
                    "Unexpected macro end inside "@,
                    st,
                    lineno,
                ),
            }
        },
        LineV::FunctionStart(name) => {
            if !(st.active is Idle) {
                unexpected_err(
                    KindV::UnexpectedFunctionStart,
                    "Unexpected function start inside "@,
                    st,
                    lineno,
                )
            } else if name.len() == 0 {
                Err(err_v(KindV::MissingFunctionName, lineno, "Missing function name"@))
            } else {
                Ok(StateV { active: ActiveV::InFunction(function_new(name), lineno), ..st })
            }
        },
        LineV::FunctionEnd => {
            match st.active {
                ActiveV::InFunction(f, _) => Ok(
                    StateV {
                        active: ActiveV::Idle,
                        functions: st.functions.push(function_finish(f)),
                        ..st
                    },
                ),
                ActiveV::Idle => Err(
                    err_v(
                        KindV::UnexpectedFunctionEnd,
                        lineno,
                        "Unexpected function end inside "@ + "function"@,
                    ),
                ),
                _ => unexpected_err(
                    KindV::UnexpectedFunctionEnd,
                    "Unexpected function end inside "@,
                    st,
                    lineno,
                ),
            }
        },
        LineV::GroupStart(name) => {
            if !(st.active is Idle) {
                unexpected_err(
                    KindV::UnexpectedMigrationGroupStart,
                    "Unexpected migration group start inside "@,
                    st,
                    lineno,
                )
            } else if name.len() == 0 {
                Err(
                    err_v(
                        KindV::MissingMigrationGroupName,
                        lineno,
                        "Missing migration group name"@,
                    ),
                )
            } else {
                Ok(
                    StateV {
                        groups: st.groups.push(group_new(name)),
                        group_lines: st.group_lines.push(lineno),
                        ..st
                    },
                )
            }
        },
        LineV::GroupEnd => {
            if !(st.active is Idle) {
                unexpected_err(
                    KindV::UnexpectedMigrationGroupEnd,
                    "Unexpected migration group end inside "@,
                    st,
                    lineno,
                )
            } else if st.groups.len() > 0 {
                let g = st.groups.last();
                if st.groups.len() > 1 {
                    let parent = st.groups[st.groups.len() - 2];
                    Ok(
                        StateV {
                            groups: st.groups.update(
                                st.groups.len() - 2,
                                GroupV { groups: parent.groups.push(g), ..parent },
                            ).drop_last(),
                            group_lines: st.group_lines.drop_last(),
                            ..st
                        },
                    )
                } else {
                    Ok(
                        StateV {
                            groups: Seq::empty(),
                            group_lines: st.group_lines.drop_last(),
                            out_groups: st.out_groups.push(g),
                            ..st
                        },
                    )
                }
            } else {
                Err(
                    err_v(
                        KindV::UnexpectedMigrationGroupEnd,
                        lineno,
                        "Unexpected migration group end inside "@ + "migration group"@,
                    ),
                )
            }
        },
        LineV::Nuclear => {
            match st.active {
                ActiveV::InMigration(m, l) => Ok(
                    StateV {
                        active: ActiveV::InMigration(MigrationV { nuclear: true, ..m }, l),
                        ..st
                    },
                ),
                _ => {
                    if st.groups.len() > 0 {
                        let g = st.groups.last();
                        Ok(
                            StateV {
                                groups: st.groups.update(
                                    st.groups.len() - 1,
                                    GroupV { nuclear: true, ..g },
                                ),
                                ..st
                            },
                        )
                    } else {
                        Err(
                            err_v(
                                KindV::NuclearWithoutContext,
                                lineno,
                                "Nuclear tag used without a migration or migration group"@,
                            ),
                        )
                    }
                },
            }
        },
        LineV::Tags(value) => {
            if next_is_pipe {
                Ok(
                    StateV {
                        buffer: st.buffer + value,
                        pipe_for: Some(PipeFor::Tags),
                        ..st
                    },
                )
            } else if trim_spec(value).len() == 0 {
                Err(err_v(KindV::MissingTags, lineno, "Missing tags in migration"@))
            } else {
                apply_tags_v(st, value, lineno)
            }
        },
        LineV::Version(v) => {
            if v.len() == 0 {
                Err(
                    err_v(
                        KindV::MissingArgument("version"@),
                        lineno,
                        "Missing version in migration"@,
                    ),
                )
            } else {
                match st.active {
                    ActiveV::InMigration(m, l) => Ok(
                        StateV {
                            active: ActiveV::InMigration(
                                MigrationV { version: Some(v), ..m },
                                l,
                            ),
                            ..st
                        },
                    ),
                    _ => {
                        if st.groups.len() > 0 {
                            let g = st.groups.last();
                            Ok(
                                StateV {
                                    groups: st.groups.update(
                                        st.groups.len() - 1,
                                        GroupV { version: Some(v), ..g },
                                    ),
                                    ..st
                                },
                            )
                        } else {
                            Err(
                                err_v(
                                    KindV::MissingArgument("version"@),
                                    lineno,
                                    "Version used without a migration or migration group"@,
                                ),
                            )
                        }
                    },
                }
            }
        },
        LineV::Depends(value) => {
            if value.len() == 0 {
                Err(
                    err_v(
                        KindV::MissingArgument("depends"@),
                        lineno,
                        "Missing dependency in migration"@,
                    ),
                )
            } else {
                match dep_parse(value) {
                    Err(k) => Err(
                        err_v(k, lineno, "Error parsing dependency '"@ + value + "'"@),
                    ),
                    Ok(dep) => {
                        match st.active {
                            ActiveV::InMigration(m, l) => Ok(
                                StateV {
                                    active: ActiveV::InMigration(
                                        MigrationV {
                                            dependencies: m.dependencies.push(dep),
                                            ..m
                                        },
                                        l,
                                    ),
                                    ..st
                                },
                            ),
                            ActiveV::InMacro(mc, l) => Ok(
                                StateV {
                                    active: ActiveV::InMacro(
                                        MacroFuncV {
                                            dependencies: mc.dependencies.push(dep),
                                            ..mc
                                        },
                                        l,
                                    ),
                                    ..st
                                },
                            ),
                            ActiveV::InFunction(f, l) => Ok(
                                StateV {
                                    active: ActiveV::InFunction(
                                        FunctionV {
                                            dependencies: f.dependencies.push(dep),
                                            ..f
                                        },
                                        l,
                                    ),
                                    ..st
                                },
                            ),
                            ActiveV::Idle => {
                                if st.groups.len() > 0 {
                                    let g = st.groups.last();
                                    Ok(
                                        StateV {
                                            groups: st.groups.update(
                                                st.groups.len() - 1,
                                                GroupV {
                                                    dependencies: g.dependencies.push(dep),
                                                    ..g
                                                },
                                            ),
                                            ..st
                                        },
                                    )
                                } else {
                                    Err(
                                        err_v(
                                            KindV::DependsWithoutContext,
                                            lineno,
                                            "Depends used without a migration or migration group"@,
                                        ),
                                    )
                                }
                            },
                        }
                    },
                }
            }
        },
        LineV::Rollback => {
            match st.active {
                ActiveV::InMigration(_, _) => Ok(StateV { rollback: true, ..st }),
                _ => Err(
                    err_v(
                        KindV::RollbackWithoutContext,
                        lineno,
                        "Rollback used without a migration"@,
                    ),
                ),
            }
        },
        LineV::Parameters(value) => {
            if next_is_pipe {
                Ok(
                    StateV {
                        buffer: st.buffer + value,
                        pipe_for: Some(PipeFor::Parameters),
                        ..st
                    },
                )
            } else if trim_spec(value).len() == 0 {
                Err(err_v(KindV::MissingParameters, lineno, "Missing parameters in function"@))
            } else {
                apply_params_v(st, value, lineno)
            }
        },
        LineV::Returns(value) => {
            if next_is_pipe {
                Ok(
                    StateV {
                        buffer: st.buffer + value,
                        pipe_for: Some(PipeFor::Returns),
                        ..st
                    },
                )
            } else {
                apply_returns_v(st, value, lineno)
            }
        },
        LineV::Call(value) => {
            if next_is_pipe {
                Ok(
                    StateV {
                        buffer: st.buffer + value,
                        pipe_for: Some(PipeFor::Macro),
                        ..st
                    },
                )
            } else {
                apply_call_v(st, value, lineno)
            }
        },
        LineV::Description(value) => {
            if st.groups.len() > 0 {
                let g = st.groups.last();
                Ok(
                    StateV {
                        groups: st.groups.update(
                            st.groups.len() - 1,
                            GroupV {
                                description: crate::text::append_line(
                                    g.description,
                                    trim_spec(value),
                                ),
                                ..g
                            },
                        ),
                        ..st
                    },
                )
            } else {
                match st.active {
                    ActiveV::InFunction(f, l) => Ok(
                        StateV {
                            active: ActiveV::InFunction(
                                FunctionV {
                                    description: crate::text::append_line(
                                        f.description,
                                        trim_spec(value),
                                    ),
                                    ..f
                                },
                                l,
                            ),
                            ..st
                        },
                    ),
                    ActiveV::InMigration(m, l) => Ok(
                        StateV {
                            active: ActiveV::InMigration(
                                MigrationV {
                                    description: crate::text::append_line(
                                        m.description,
                                        trim_spec(value),
                                    ),
                                    ..m
                                },
                                l,
                            ),
                            ..st
                        },
                    ),
                    _ => Err(
                        err_v(
                            KindV::DescriptionWithoutContext,
                            lineno,
                            "Description used without a migration, migration group, or function"@,
                        ),
                    ),
                }
            }
        },
        LineV::Other => {
            match st.active {
                ActiveV::InMigration(m, l) => {
                    if st.rollback {
                        Ok(
                            StateV {
                                active: ActiveV::InMigration(
                                    MigrationV {
                                        sql_rollback: crate::text::append_line(m.sql_rollback, t),
                                        ..m
                                    },
                                    l,
                                ),
                                ..st
                            },
                        )
                    } else {
                        Ok(
                            StateV {
                                active: ActiveV::InMigration(
                                    MigrationV {
                                        sql: crate::text::append_line(m.sql, t),
                                        ..m
                                    },
                                    l,
                                ),
                                ..st
                            },
                        )
                    }
                },
                ActiveV::InMacro(mc, l) => Ok(
                    StateV {
                        active: ActiveV::InMacro(
                            MacroFuncV { body: crate::text::append_line(mc.body, t), ..mc },
                            l,
                        ),
                        ..st
                    },
                ),
                ActiveV::InFunction(f, l) => Ok(
                    StateV {
                        active: ActiveV::InFunction(
                            FunctionV { body: crate::text::append_line(f.body, t), ..f },
                            l,
                        ),
                        ..st
                    },
                ),
                ActiveV::Idle => Err(
                    err_v(
                        KindV::SqlWithoutContext,
                        lineno,
                        "SQL used without a migration, macro, or function"@,
                    ),
                ),
            }
        },
    }
}

/// The end-of-input check: any construct left open is an error citing its
/// opening line.
pub open spec fn finish_v(st: StateV) -> Option<ErrV> {
    match st.active {
        ActiveV::InMigration(_, l) => Some(
            err_v(KindV::MigrationNotClosed, l, "Migration not closed"@),
        ),
        ActiveV::InMacro(_, l) => Some(err_v(KindV::MacroNotClosed, l, "Macro not closed"@)),
        ActiveV::InFunction(_, l) => Some(
            err_v(KindV::FunctionNotClosed, l, "Function not closed"@),
        ),
        ActiveV::Idle => {
            if st.groups.len() > 0 {
                Some(
                    err_v(
                        KindV::MigrationGroupNotClosed,
                        st.group_lines.last(),
                        "Migration group not closed"@,
                    ),
                )
            } else {
                None
            }
        },
    }
}

/// Does the line at position `j` continue a directive's value?
pub open spec fn next_pipe(lines: Seq<Seq<char>>, j: int) -> bool {
    j < lines.len() && is_pipe_line(trim_spec(lines[j]))
}

/// Run the state machine over the lines from position `i` on: blank lines are
/// skipped, every other line is one step.
pub open spec fn run_v(lines: Seq<Seq<char>>, i: int, st: StateV) -> Result<StateV, ErrV>
    decreases lines.len() - i,
{
    if i < 0 || i >= lines.len() {
        Ok(st)
    } else {
        let t = trim_spec(lines[i]);
        if t.len() == 0 {
            run_v(lines, i + 1, st)
        } else {
            match step_v(st, t, next_pipe(lines, i + 1), i + 1) {
                Err(e) => Err(e),
                Ok(st2) => run_v(lines, i + 1, st2),
            }
        }
    }
}

/// What parsing a whole text yields: the final state, or the first error.
pub open spec fn parse_outcome(content: Seq<char>) -> Result<StateV, ErrV> {
    match run_v(crate::text::lines_of(content), 0, init_state()) {
        Err(e) => Err(e),
        Ok(st) => match finish_v(st) {
            Some(e) => Err(e),
            None => Ok(st),
        },
    }
}

/// Parser-state well-formedness: no function under construction has been
/// locked (the parser only locks a function when it closes it), and every
/// open group has its opening line on the line stack.
pub open spec fn state_wf(st: StateV) -> bool {
    &&& match st.active {
        ActiveV::InFunction(f, _) => !f.complete,
        _ => true,
    }
    &&& st.group_lines.len() == st.groups.len()
}

// ---------------------------------------------------------------------------
// laws of the state machine
// ---------------------------------------------------------------------------

/// Law: when a well-formed migration block closes, the migration's qualified
/// path is the `::`-join of all enclosing group names followed by
/// `Migration(<name>)`; with no enclosing group it is `Migration(<name>)`
/// alone.
pub proof fn lemma_migration_path_on_close(
    st: StateV,
    t: Seq<char>,
    nip: bool,
    lineno: int,
    m: MigrationV,
    l: int,
)
    requires
        st.active == ActiveV::InMigration(m, l),
        classify_v(t) is MigrationEnd,
    ensures
        step_v(st, t, nip, lineno) matches Ok(st2) && {
            let closed = if st.groups.len() > 0 {
                st2.groups.last().migrations.last()
            } else {
                st2.migrations.last()
            };
            &&& closed.full_path == Some(migration_close_path(st.groups, m.name))
            &&& crate::migration::migration_path(closed) == migration_close_path(
                st.groups,
                m.name,
            )
            &&& st.groups.len() == 0 ==> crate::migration::migration_path(closed) == "Migration("@
                + m.name + ")"@
            &&& st.groups.len() > 0 ==> crate::migration::migration_path(closed) == group_path(
                st.groups,
            ) + "::Migration("@ + m.name + ")"@
        },
{
    if st.groups.len() > 0 {
        let st2 = step_v(st, t, nip, lineno)->Ok_0;
        assert(st2.groups.last() == (GroupV {
            migrations: st.groups.last().migrations.push(
                MigrationV { full_path: Some(migration_close_path(st.groups, m.name)), ..m },
            ),
            ..st.groups.last()
        }));
    }
}

/// Law: opening a migration, macro or function while another construct is
/// already open always fails with a structural error naming the open
/// construct, whichever combination is attempted.
pub proof fn lemma_exclusive_construct(st: StateV, t: Seq<char>, nip: bool, lineno: int)
    requires
        !(st.active is Idle),
        classify_v(t) is MigrationStart || classify_v(t) is MacroStart || classify_v(
            t,
        ) is FunctionStart,
    ensures
        step_v(st, t, nip, lineno) is Err,
        classify_v(t) is MigrationStart ==> step_v(st, t, nip, lineno) == Err::<StateV, ErrV>(
            err_v(
                KindV::UnexpectedMigrationStart,
                lineno,
                "Unexpected migration start inside "@ + active_ctx(st.active),
            ),
        ),
        classify_v(t) is MacroStart ==> step_v(st, t, nip, lineno) == Err::<StateV, ErrV>(
            err_v(
                KindV::UnexpectedMacroStart,
                lineno,
                "Unexpected macro start inside "@ + active_ctx(st.active),
            ),
        ),
        classify_v(t) is FunctionStart ==> step_v(st, t, nip, lineno) == Err::<StateV, ErrV>(
            err_v(
                KindV::UnexpectedFunctionStart,
                lineno,
                "Unexpected function start inside "@ + active_ctx(st.active),
            ),
        ),
{
}

/// Law: a macro-end directive with no macro open fails with an unexpected
/// macro end error at that line.
pub proof fn lemma_unmatched_macro_end(st: StateV, t: Seq<char>, nip: bool, lineno: int)
    requires
        classify_v(t) is MacroEnd,
        !(st.active matches ActiveV::InMacro(_, _)),
    ensures
        step_v(st, t, nip, lineno) matches Err(e) && e.kind is UnexpectedMacroEnd && e.line
            == lineno,
{
}

/// Law: a file ending with an open, unclosed group fails with a
/// group-not-closed error citing the innermost group's opening line.
pub proof fn lemma_group_not_closed(st: StateV)
    requires
        st.active is Idle,
        st.groups.len() > 0,
    ensures
        finish_v(st) matches Some(e) && e.kind is MigrationGroupNotClosed && e.line
            == st.group_lines.last(),
{
}

/// The continuation segments joined in order, with nothing between them.
pub open spec fn concat_texts(us: Seq<Seq<char>>) -> Seq<char>
    decreases us.len(),
{
    if us.len() == 0 {
        Seq::empty()
    } else {
        us[0] + concat_texts(us.drop_first())
    }
}

/// Step through a run of lines where each line but the last is followed by
/// another continuation line.
pub open spec fn step_many(st: StateV, ts: Seq<Seq<char>>, lineno: int) -> Result<StateV, ErrV>
    decreases ts.len(),
{
    if ts.len() == 0 {
        Ok(st)
    } else {
        match step_v(st, ts[0], ts.len() > 1, lineno) {
            Err(e) => Err(e),
            Ok(st2) => step_many(st2, ts.drop_first(), lineno + 1),
        }
    }
}

/// The directive kinds whose value may continue onto following lines, with
/// the continuation target and the inline value.
pub open spec fn seeding(lv: LineV) -> Option<(PipeFor, Seq<char>)> {
    match lv {
        LineV::Tags(v) => Some((PipeFor::Tags, v)),
        LineV::Parameters(v) => Some((PipeFor::Parameters, v)),
        LineV::Returns(v) => Some((PipeFor::Returns, v)),
        LineV::Call(v) => Some((PipeFor::Macro, v)),
        _ => None,
    }
}

/// Where an accumulated continuation value is dispatched.
pub open spec fn dispatch_v(st: StateV, pf: PipeFor, b: Seq<char>, lineno: int) -> Result<
    StateV,
    ErrV,
> {
    match pf {
        PipeFor::Tags => apply_tags_v(st, b, lineno),
        PipeFor::Parameters => apply_params_v(st, b, lineno),
        PipeFor::Returns => apply_returns_v(st, b, lineno),
        PipeFor::Macro => apply_call_v(st, b, lineno),
    }
}

/// Tag application does not read the line number except to report errors.
proof fn lemma_mtags_lineno(
    tags: Seq<crate::migration_tags::MigrationTags>,
    toks: Seq<Seq<char>>,
    a: int,
    b: int,
)
    ensures
        apply_migration_tags(tags, toks, a) is Ok <==> apply_migration_tags(tags, toks, b) is Ok,
        apply_migration_tags(tags, toks, a) is Ok ==> apply_migration_tags(tags, toks, a)
            == apply_migration_tags(tags, toks, b),
    decreases toks.len(),
{
    if toks.len() > 0 {
        match parse_migration_tag(trim_spec(toks[0])) {
            Ok(tg) => {
                lemma_mtags_lineno(
                    crate::migration::tag_insert(tags, tg),
                    toks.drop_first(),
                    a,
                    b,
                );
            },
            Err(_) => {},
        }
    }
}

/// Function-tag application does not read the line number except to report
/// errors.
proof fn lemma_ftags_lineno(
    tags: Seq<crate::function::FunctionTags>,
    toks: Seq<Seq<char>>,
    a: int,
    b: int,
)
    ensures
        apply_function_tags(tags, toks, a) is Ok <==> apply_function_tags(tags, toks, b) is Ok,
        apply_function_tags(tags, toks, a) is Ok ==> apply_function_tags(tags, toks, a)
            == apply_function_tags(tags, toks, b),
    decreases toks.len(),
{
    if toks.len() > 0 {
        match crate::function::parse_function_tag(trim_spec(toks[0])) {
            Ok(tg) => {
                lemma_ftags_lineno(
                    crate::migration::tag_insert(tags, tg),
                    toks.drop_first(),
                    a,
                    b,
                );
            },
            Err(_) => {},
        }
    }
}

/// Dispatch does not read the line number except to report errors.
proof fn lemma_dispatch_lineno(st: StateV, pf: PipeFor, v: Seq<char>, a: int, b: int)
    ensures
        dispatch_v(st, pf, v, a) is Ok <==> dispatch_v(st, pf, v, b) is Ok,
        dispatch_v(st, pf, v, a) is Ok ==> dispatch_v(st, pf, v, a) == dispatch_v(st, pf, v, b),
{
    let toks = split_char_spec(v, ',');
    match pf {
        PipeFor::Tags => {
            match st.active {
                ActiveV::InMigration(m, _) => {
                    lemma_mtags_lineno(m.tags, toks, a, b);
                },
                _ => {
                    if st.groups.len() > 0 {
                        lemma_mtags_lineno(st.groups.last().tags, toks, a, b);
                    } else {
                        match st.active {
                            ActiveV::InFunction(f, _) => {
                                lemma_ftags_lineno(f.tags, toks, a, b);
                            },
                            _ => {},
                        }
                    }
                },
            }
        },
        _ => {},
    }
}

/// A run of continuation lines appends its payloads to the buffer and then
/// dispatches the whole buffer to the pending target.
proof fn lemma_pipe_run(st: StateV, ts: Seq<Seq<char>>, us: Seq<Seq<char>>, pf: PipeFor, l: int)
    requires
        ts.len() == us.len(),
        ts.len() > 0,
        forall|k: int| 0 <= k < ts.len() ==> classify_v(ts[k]) == LineV::Pipe(#[trigger] us[k]),
        st.pipe_for == Some(pf),
    ensures
        step_many(st, ts, l) == dispatch_v(
            StateV { buffer: Seq::empty(), pipe_for: None, ..st },
            pf,
            st.buffer + concat_texts(us),
            l + ts.len() - 1,
        ),
    decreases ts.len(),
{
    if ts.len() == 1 {
        assert(concat_texts(us.drop_first()) == Seq::<char>::empty());
        assert(st.buffer + (us[0] + Seq::<char>::empty()) =~= st.buffer + us[0]);
        assert(ts.drop_first().len() == 0);
        if step_v(st, ts[0], false, l) is Ok {
            let st2 = step_v(st, ts[0], false, l)->Ok_0;
            assert(step_many(st2, ts.drop_first(), l + 1) == Ok::<StateV, ErrV>(st2));
        }
        assert(step_many(st, ts, l) == step_v(st, ts[0], false, l));
    } else {
        let st2 = StateV { buffer: st.buffer + us[0], pipe_for: st.pipe_for, ..st };
        assert(step_v(st, ts[0], true, l) == Ok::<StateV, ErrV>(st2));
        assert(us.drop_first().len() == ts.drop_first().len());
        assert(forall|k: int|
            0 <= k < ts.drop_first().len() ==> classify_v(ts.drop_first()[k]) == LineV::Pipe(
                #[trigger] us.drop_first()[k],
            ));
        lemma_pipe_run(st2, ts.drop_first(), us.drop_first(), pf, l + 1);
        assert(st2.buffer + concat_texts(us.drop_first()) =~= st.buffer + concat_texts(us));
        assert(StateV { buffer: Seq::empty(), pipe_for: None, ..st2 } == (StateV {
            buffer: Seq::empty(),
            pipe_for: None,
            ..st
        }));
    }
}

/// Law: a directive whose value spans consecutive continuation lines parses
/// to the same state as the same directive with the segments written inline,
/// concatenated in order.  Line numbers inside error reports may differ, so
/// the two runs agree on success and fail together.
pub proof fn lemma_continuation_inline(
    st: StateV,
    d: Seq<char>,
    ts: Seq<Seq<char>>,
    us: Seq<Seq<char>>,
    d2: Seq<char>,
    pf: PipeFor,
    v: Seq<char>,
    l1: int,
    l2: int,
)
    requires
        st.pipe_for is None,
        st.buffer.len() == 0,
        ts.len() == us.len(),
        ts.len() > 0,
        forall|k: int| 0 <= k < ts.len() ==> classify_v(ts[k]) == LineV::Pipe(#[trigger] us[k]),
        seeding(classify_v(d)) == Some((pf, v)),
        seeding(classify_v(d2)) == Some((pf, v + concat_texts(us))),
        trim_spec(v + concat_texts(us)).len() > 0,
    ensures
        ({
            let piped = match step_v(st, d, true, l1) {
                Ok(st1) => step_many(st1, ts, l1 + 1),
                Err(e) => Err(e),
            };
            let inline = step_v(st, d2, false, l2);
            &&& (piped is Ok <==> inline is Ok)
            &&& (piped is Ok ==> piped == inline)
        }),
{
    let st1 = StateV { buffer: st.buffer + v, pipe_for: Some(pf), ..st };
    assert(step_v(st, d, true, l1) == Ok::<StateV, ErrV>(st1));
    lemma_pipe_run(st1, ts, us, pf, l1 + 1);
    let cleared = StateV { buffer: Seq::empty(), pipe_for: None, ..st1 };
    assert(cleared == st) by {
        assert(Seq::<char>::empty() =~= st.buffer);
    }
    assert(st1.buffer + concat_texts(us) =~= v + concat_texts(us)) by {
        assert(st.buffer + v =~= v);
    }
    let piped = step_many(st1, ts, l1 + 1);
    assert(piped == dispatch_v(st, pf, v + concat_texts(us), l1 + 1 + ts.len() - 1));
    let inline = step_v(st, d2, false, l2);
    assert(inline == dispatch_v(st, pf, v + concat_texts(us), l2));
    lemma_dispatch_lineno(st, pf, v + concat_texts(us), l1 + 1 + ts.len() - 1, l2);
}

// ---------------------------------------------------------------------------
// the executable state machine
// ---------------------------------------------------------------------------

/// The construct currently open, if any, with its opening line.
enum ActiveConstruct {
    Idle,
    InMigration(Migration, usize),
    InMacro(MacroFunc, usize),
    InFunction(Function, usize),
}

/// The executable parser state.
struct ParserState {
    active: ActiveConstruct,
    group_stack: Vec<MigrationGroup>,
    group_lines: Vec<usize>,
    rollback: bool,
    pipe_for: Option<PipeFor>,
    buffer: String,
    migrations: Vec<Migration>,
    out_groups: Vec<MigrationGroup>,
    macros: Vec<MacroFunc>,
    functions: Vec<Function>,
    fsql_version: Option<String>,
}

impl View for ParserState {
    type V = StateV;

    closed spec fn view(&self) -> StateV {
        StateV {
            active: match self.active {
                ActiveConstruct::Idle => ActiveV::Idle,
                ActiveConstruct::InMigration(m, l) => ActiveV::InMigration(m@, l as int),
                ActiveConstruct::InMacro(mc, l) => ActiveV::InMacro(mc@, l as int),
                ActiveConstruct::InFunction(f, l) => ActiveV::InFunction(f@, l as int),
            },
            groups: groups_view(self.group_stack@),
            group_lines: self.group_lines@.map_values(|x: usize| x as int),
            rollback: self.rollback,
            pipe_for: self.pipe_for,
            buffer: self.buffer@,
            migrations: self.migrations@.map_values(|m: Migration| m@),
            out_groups: groups_view(self.out_groups@),
            macros: self.macros@.map_values(|m: MacroFunc| m@),
            functions: self.functions@.map_values(|f: Function| f@),
            fsql_version: match self.fsql_version {
                Some(v) => Some(v@),
                None => None,
            },
        }
    }
}

impl ParserState {
    /// The state parsing starts from.
    fn init() -> (r: ParserState)
        ensures
            r@ == init_state(),
    {
        let r = ParserState {
            active: ActiveConstruct::Idle,
            group_stack: Vec::new(),
            group_lines: Vec::new(),
            rollback: false,
            pipe_for: None,
            buffer: String::new(),
            migrations: Vec::new(),
            out_groups: Vec::new(),
            macros: Vec::new(),
            functions: Vec::new(),
            fsql_version: None,
        };
        proof {
            lemma_groups_view(r.group_stack@);
            assert(groups_view(r.group_stack@) =~= Seq::<GroupV>::empty());
            assert(r@.group_lines =~= Seq::<int>::empty());
            assert(r@.migrations =~= Seq::<MigrationV>::empty());
            assert(r@.macros =~= Seq::<MacroFuncV>::empty());
            assert(r@.functions =~= Seq::<FunctionV>::empty());
        }
        r
    }

    /// Take the open construct out, leaving the slot idle.
    fn take_active(&mut self) -> (r: ActiveConstruct)
        ensures
            final(self)@ == (StateV { active: ActiveV::Idle, ..old(self)@ }),
            match r {
                ActiveConstruct::Idle => old(self)@.active is Idle,
                ActiveConstruct::InMigration(m, l) => old(self)@.active == ActiveV::InMigration(
                    m@,
                    l as int,
                ),
                ActiveConstruct::InMacro(mc, l) => old(self)@.active == ActiveV::InMacro(
                    mc@,
                    l as int,
                ),
                ActiveConstruct::InFunction(f, l) => old(self)@.active == ActiveV::InFunction(
                    f@,
                    l as int,
                ),
            },
    {
        let mut a = ActiveConstruct::Idle;
        core::mem::swap(&mut a, &mut self.active);
        a
    }

    /// Remove and return the innermost open group, leaving its opening line
    /// on the line stack.
    fn pop_group(&mut self) -> (r: MigrationGroup)
        requires
            old(self)@.groups.len() > 0,
        ensures
            final(self)@ == (StateV { groups: old(self)@.groups.drop_last(), ..old(self)@ }),
            r@ == old(self)@.groups.last(),
    {
        proof {
            lemma_groups_view(self.group_stack@);
            crate::migration_group::lemma_groups_view_drop_last(self.group_stack@);
        }
        match self.group_stack.pop() {
            Some(g) => g,
            None => {
                proof {
                    assert(false);
                }
                MigrationGroup::new("")
            },
        }
    }

    /// Push a group onto the stack of open groups.
    fn push_group(&mut self, g: MigrationGroup)
        ensures
            final(self)@ == (StateV { groups: old(self)@.groups.push(g@), ..old(self)@ }),
    {
        let ghost gv = g@;
        let ghost oldstack = self.group_stack@;
        self.group_stack.push(g);
        proof {
            crate::migration_group::lemma_groups_view_push(oldstack, self.group_stack@.last());
            assert(self.group_stack@ =~= oldstack.push(self.group_stack@.last()));
        }
    }

}

/// Apply tag tokens to a migration, in order, stopping at the first unknown.
fn add_tags_migration(
    m: &mut Migration,
    segments: &Vec<String>,
    Ghost(toks): Ghost<Seq<Seq<char>>>,
    lineno: usize,
) -> (r: Result<(), ParseError>)
    requires
        segments@.len() == toks.len(),
        forall|j: int| 0 <= j < toks.len() ==> segments@[j]@ == toks[j],
    ensures
        match r {
            Ok(()) => apply_migration_tags(old(m)@.tags, toks, lineno as int) matches Ok(tags)
                && final(m)@ == (MigrationV { tags, ..old(m)@ }),
            Err(e) => apply_migration_tags(old(m)@.tags, toks, lineno as int) == Err::<
                Seq<crate::migration_tags::MigrationTags>,
                ErrV,
            >(e@),
        },
{
    let ghost m0 = old(m)@;
    let mut i: usize = 0;
    proof {
        assert(toks.skip(0) =~= toks);
    }
    while i < segments.len()
        invariant
            i <= segments@.len(),
            segments@.len() == toks.len(),
            forall|j: int| 0 <= j < toks.len() ==> segments@[j]@ == toks[j],
            m0 == old(m)@,
            m@ == (MigrationV { tags: m@.tags, ..m0 }),
            apply_migration_tags(m0.tags, toks, lineno as int) == apply_migration_tags(
                m@.tags,
                toks.skip(i as int),
                lineno as int,
            ),
        decreases segments@.len() - i,
    {
        proof {
            assert(toks.skip(i as int)[0] == toks[i as int]);
            assert(toks.skip(i as int).drop_first() =~= toks.skip(i as int + 1));
        }
        let tok = trim(segments[i].as_str());
        match m.add_tag(tok) {
            Ok(_) => {},
            Err(k) => {
                proof {
                    assert(apply_migration_tags(m@.tags, toks.skip(i as int), lineno as int)
                        == Err::<Seq<crate::migration_tags::MigrationTags>, ErrV>(
                        err_v(k@, lineno as int, "Error parsing tag '"@ + trim_spec(toks[i as int]) + "'"@),
                    ));
                }
                return Err(ParseError::at3(k, lineno, "Error parsing tag '", tok, "'"));
            },
        }
        i += 1;
    }
    proof {
        assert(toks.skip(toks.len() as int) =~= Seq::<Seq<char>>::empty());
    }
    Ok(())
}

/// Apply tag tokens to a group, in order, stopping at the first unknown.
fn add_tags_group(
    g: &mut MigrationGroup,
    segments: &Vec<String>,
    Ghost(toks): Ghost<Seq<Seq<char>>>,
    lineno: usize,
) -> (r: Result<(), ParseError>)
    requires
        segments@.len() == toks.len(),
        forall|j: int| 0 <= j < toks.len() ==> segments@[j]@ == toks[j],
    ensures
        match r {
            Ok(()) => apply_migration_tags(old(g)@.tags, toks, lineno as int) matches Ok(tags)
                && final(g)@ == (GroupV { tags, ..old(g)@ }),
            Err(e) => apply_migration_tags(old(g)@.tags, toks, lineno as int) == Err::<
                Seq<crate::migration_tags::MigrationTags>,
                ErrV,
            >(e@),
        },
{
    let ghost g0 = old(g)@;
    let mut i: usize = 0;
    proof {
        assert(toks.skip(0) =~= toks);
    }
    while i < segments.len()
        invariant
            i <= segments@.len(),
            segments@.len() == toks.len(),
            forall|j: int| 0 <= j < toks.len() ==> segments@[j]@ == toks[j],
            g0 == old(g)@,
            g@ == (GroupV { tags: g@.tags, ..g0 }),
            apply_migration_tags(g0.tags, toks, lineno as int) == apply_migration_tags(
                g@.tags,
                toks.skip(i as int),
                lineno as int,
            ),
        decreases segments@.len() - i,
    {
        proof {
            assert(toks.skip(i as int)[0] == toks[i as int]);
            assert(toks.skip(i as int).drop_first() =~= toks.skip(i as int + 1));
        }
        let tok = trim(segments[i].as_str());
        match g.add_tag(tok) {
            Ok(_) => {},
            Err(k) => {
                proof {
                    assert(apply_migration_tags(g@.tags, toks.skip(i as int), lineno as int)
                        == Err::<Seq<crate::migration_tags::MigrationTags>, ErrV>(
                        err_v(k@, lineno as int, "Error parsing tag '"@ + trim_spec(toks[i as int]) + "'"@),
                    ));
                }
                return Err(ParseError::at3(k, lineno, "Error parsing tag '", tok, "'"));
            },
        }
        i += 1;
    }
    proof {
        assert(toks.skip(toks.len() as int) =~= Seq::<Seq<char>>::empty());
    }
    Ok(())
}

/// Apply tag tokens to a function, in order, stopping at the first unknown.
fn add_tags_function(
    f: &mut Function,
    segments: &Vec<String>,
    Ghost(toks): Ghost<Seq<Seq<char>>>,
    lineno: usize,
) -> (r: Result<(), ParseError>)
    requires
        !old(f)@.complete,
        segments@.len() == toks.len(),
        forall|j: int| 0 <= j < toks.len() ==> segments@[j]@ == toks[j],
    ensures
        match r {
            Ok(()) => apply_function_tags(old(f)@.tags, toks, lineno as int) matches Ok(tags)
                && final(f)@ == (FunctionV { tags, ..old(f)@ }),
            Err(e) => apply_function_tags(old(f)@.tags, toks, lineno as int) == Err::<
                Seq<crate::function::FunctionTags>,
                ErrV,
            >(e@),
        },
{
    let ghost f0 = old(f)@;
    let mut i: usize = 0;
    proof {
        assert(toks.skip(0) =~= toks);
    }
    while i < segments.len()
        invariant
            i <= segments@.len(),
            segments@.len() == toks.len(),
            forall|j: int| 0 <= j < toks.len() ==> segments@[j]@ == toks[j],
            f0 == old(f)@,
            f@ == (FunctionV { tags: f@.tags, ..f0 }),
            !f@.complete,
            apply_function_tags(f0.tags, toks, lineno as int) == apply_function_tags(
                f@.tags,
                toks.skip(i as int),
                lineno as int,
            ),
        decreases segments@.len() - i,
    {
        proof {
            assert(toks.skip(i as int)[0] == toks[i as int]);
            assert(toks.skip(i as int).drop_first() =~= toks.skip(i as int + 1));
        }
        let tok = trim(segments[i].as_str());
        match f.add_tag(tok) {
            Ok(_) => {},
            Err(k) => {
                proof {
                    assert(apply_function_tags(f@.tags, toks.skip(i as int), lineno as int)
                        == Err::<Seq<crate::function::FunctionTags>, ErrV>(
                        err_v(k@, lineno as int, "Error parsing tag '"@ + trim_spec(toks[i as int]) + "'"@),
                    ));
                }
                return Err(ParseError::at3(k, lineno, "Error parsing tag '", tok, "'"));
            },
        }
        i += 1;
    }
    proof {
        assert(toks.skip(toks.len() as int) =~= Seq::<Seq<char>>::empty());
    }
    Ok(())
}

/// The qualified path of a migration closing under the open groups.
fn build_migration_path(stack: &Vec<MigrationGroup>, name: &str) -> (r: String)
    ensures
        r@ == migration_close_path(groups_view(stack@), name@),
{
    proof {
        lemma_groups_view(stack@);
    }
    let ghost names = groups_view(stack@).map_values(|g: GroupV| g.name);
    let mut out = String::new();
    if stack.len() == 0 {
        out.append("Migration(");
        out.append(name);
        out.append(")");
        proof {
            assert(out@ =~= migration_close_path(groups_view(stack@), name@));
        }
        return out;
    }
    let mut i: usize = 0;
    proof {
        assert(names.take(0) =~= Seq::<Seq<char>>::empty());
        assert(out@ =~= crate::text::seq_join(names.take(0), "::"@));
    }
    while i < stack.len()
        invariant
            i <= stack@.len(),
            names == groups_view(stack@).map_values(|g: GroupV| g.name),
            names.len() == stack@.len(),
            forall|j: int| 0 <= j < names.len() ==> names[j] == group_view(stack@[j]).name,
            out@ == crate::text::seq_join(names.take(i as int), "::"@),
        decreases stack@.len() - i,
    {
        proof {
            assert(names.take(i as int + 1) =~= names.take(i as int).push(names[i as int]));
            crate::text::lemma_seq_join_push(names.take(i as int), "::"@, names[i as int]);
        }
        if i > 0 {
            out.append("::");
            out.append(stack[i].name());
        } else {
            out.append(stack[i].name());
            proof {
                assert(crate::text::seq_join(names.take(0), "::"@) + names[0] =~= names[0]);
            }
        }
        i += 1;
    }
    proof {
        assert(names.take(stack@.len() as int) =~= names);
    }
    out.append("::Migration(");
    out.append(name);
    out.append(")");
    proof {
        assert(out@ =~= migration_close_path(groups_view(stack@), name@));
    }
    out
}

impl ParserState {
    /// Dispatch a tags value to the open migration, else the innermost open
    /// group, else the open function.
    fn apply_tags(&mut self, value: &str, lineno: usize) -> (r: Result<(), ParseError>)
        requires
            state_wf(old(self)@),
        ensures
            match r {
                Ok(()) => apply_tags_v(old(self)@, value@, lineno as int) == Ok::<StateV, ErrV>(
                    final(self)@,
                ) && state_wf(final(self)@),
                Err(e) => apply_tags_v(old(self)@, value@, lineno as int) == Err::<StateV, ErrV>(
                    e@,
                ),
            },
    {
        let segments = split_on_char(value, ',');
        let ghost toks = split_char_spec(value@, ',');
        let a = self.take_active();
        match a {
            ActiveConstruct::InMigration(mut m, l) => {
                let ghost m_init = m@;
                match add_tags_migration(&mut m, &segments, Ghost(toks), lineno) {
                    Err(e) => Err(e),
                    Ok(()) => {
                        self.active = ActiveConstruct::InMigration(m, l);
                        proof {
                            assert(old(self)@.active == ActiveV::InMigration(m_init, l as int));
                            assert(apply_migration_tags(m_init.tags, toks, lineno as int)
                                matches Ok(tags) && m@ == (MigrationV { tags, ..m_init }));
                            assert(self@ == (StateV {
                                active: ActiveV::InMigration(m@, l as int),
                                ..old(self)@
                            }));
                            assert(apply_tags_v(old(self)@, value@, lineno as int) == Ok::<
                                StateV,
                                ErrV,
                            >(self@));
                        }
                        Ok(())
                    },
                }
            },
            ActiveConstruct::InFunction(f, l) => {
                proof {
                    lemma_groups_view(self.group_stack@);
                }
                if self.group_stack.len() > 0 {
                    self.active = ActiveConstruct::InFunction(f, l);
                    proof {
                        assert(self@ == old(self)@);
                        lemma_groups_view(self.group_stack@);
                    }
                    let r = self.tags_to_group(&segments, Ghost(toks), lineno);
                    proof {
                        if r is Ok {
                            assert(apply_tags_v(old(self)@, value@, lineno as int) == Ok::<
                                StateV,
                                ErrV,
                            >(self@));
                        }
                    }
                    r
                } else {
                    let mut f2 = f;
                    let ghost f_init = f2@;
                    match add_tags_function(&mut f2, &segments, Ghost(toks), lineno) {
                        Err(e) => Err(e),
                        Ok(()) => {
                            self.active = ActiveConstruct::InFunction(f2, l);
                            proof {
                                assert(old(self)@.active == ActiveV::InFunction(f_init, l as int));
                                assert(apply_function_tags(f_init.tags, toks, lineno as int)
                                    matches Ok(tags) && f2@ == (FunctionV { tags, ..f_init }));
                                assert(self@ == (StateV {
                                    active: ActiveV::InFunction(f2@, l as int),
                                    ..old(self)@
                                }));
                                assert(apply_tags_v(old(self)@, value@, lineno as int) == Ok::<
                                    StateV,
                                    ErrV,
                                >(self@));
                            }
                            Ok(())
                        },
                    }
                }
            },
            ActiveConstruct::InMacro(mc, l) => {
                self.active = ActiveConstruct::InMacro(mc, l);
                proof {
                    assert(self@ == old(self)@);
                    lemma_groups_view(self.group_stack@);
                }
                if self.group_stack.len() > 0 {
                    let r = self.tags_to_group(&segments, Ghost(toks), lineno);
                    proof {
                        if r is Ok {
                            assert(apply_tags_v(old(self)@, value@, lineno as int) == Ok::<
                                StateV,
                                ErrV,
                            >(self@));
                        }
                    }
                    r
                } else {
                    Err(
                        ParseError::at(
                            ParseErrorKind::TagsWithoutContext,
                            lineno,
                            "Tags used without a migration, migration group, or function",
                        ),
                    )
                }
            },
            ActiveConstruct::Idle => {
                proof {
                    assert(self@ == old(self)@);
                    lemma_groups_view(self.group_stack@);
                }
                if self.group_stack.len() > 0 {
                    let r = self.tags_to_group(&segments, Ghost(toks), lineno);
                    proof {
                        if r is Ok {
                            assert(apply_tags_v(old(self)@, value@, lineno as int) == Ok::<
                                StateV,
                                ErrV,
                            >(self@));
                        }
                    }
                    r
                } else {
                    Err(
                        ParseError::at(
                            ParseErrorKind::TagsWithoutContext,
                            lineno,
                            "Tags used without a migration, migration group, or function",
                        ),
                    )
                }
            },
        }
    }

    /// Apply tag tokens to the innermost open group.
    fn tags_to_group(
        &mut self,
        segments: &Vec<String>,
        Ghost(toks): Ghost<Seq<Seq<char>>>,
        lineno: usize,
    ) -> (r: Result<(), ParseError>)
        requires
            state_wf(old(self)@),
            old(self)@.groups.len() > 0,
            segments@.len() == toks.len(),
            forall|j: int| 0 <= j < toks.len() ==> segments@[j]@ == toks[j],
        ensures
            match r {
                Ok(()) => apply_migration_tags(
                    old(self)@.groups.last().tags,
                    toks,
                    lineno as int,
                ) matches Ok(tags) && final(self)@ == (StateV {
                    groups: old(self)@.groups.update(
                        old(self)@.groups.len() - 1,
                        GroupV { tags, ..old(self)@.groups.last() },
                    ),
                    ..old(self)@
                }) && state_wf(final(self)@),
                Err(e) => apply_migration_tags(old(self)@.groups.last().tags, toks, lineno as int)
                    == Err::<Seq<crate::migration_tags::MigrationTags>, ErrV>(e@),
            },
    {
        let mut g = self.pop_group();
        match add_tags_group(&mut g, segments, Ghost(toks), lineno) {
            Err(e) => Err(e),
            Ok(()) => {
                let ghost gv = g@;
                self.push_group(g);
                proof {
                    assert(old(self)@.groups.drop_last().push(gv) =~= old(self)@.groups.update(
                        old(self)@.groups.len() - 1,
                        gv,
                    ));
                }
                Ok(())
            },
        }
    }

    /// Dispatch a parameters value to the open function or macro.
    fn apply_params(&mut self, value: &str, lineno: usize) -> (r: Result<(), ParseError>)
        requires
            state_wf(old(self)@),
        ensures
            match r {
                Ok(()) => apply_params_v(old(self)@, value@, lineno as int) == Ok::<StateV, ErrV>(
                    final(self)@,
                ) && state_wf(final(self)@),
                Err(e) => apply_params_v(old(self)@, value@, lineno as int) == Err::<StateV, ErrV>(
                    e@,
                ),
            },
    {
        let a = self.take_active();
        match a {
            ActiveConstruct::InFunction(mut f, l) => {
                let t = trim(value);
                match f.parse_arguments(t) {
                    Err(k) => {
                        return Err(
                            ParseError::at3(k, lineno, "Error parsing parameters '", t, "'"),
                        );
                    },
                    Ok(()) => {
                        self.active = ActiveConstruct::InFunction(f, l);
                        proof {
                            assert(self@ == (StateV {
                                active: ActiveV::InFunction(f@, l as int),
                                ..old(self)@
                            }));
                        }
                        Ok(())
                    },
                }
            },
            ActiveConstruct::InMacro(mut mc, l) => {
                let t = trim(value);
                let _ = mc.parse_arguments(t);
                self.active = ActiveConstruct::InMacro(mc, l);
                proof {
                    assert(self@ == (StateV {
                        active: ActiveV::InMacro(mc@, l as int),
                        ..old(self)@
                    }));
                }
                Ok(())
            },
            _ => Err(
                ParseError::at(
                    ParseErrorKind::ParametersWithoutContext,
                    lineno,
                    "Parameters used without a function",
                ),
            ),
        }
    }

    /// Dispatch a returns value to the open function.
    fn apply_returns(&mut self, value: &str, lineno: usize) -> (r: Result<(), ParseError>)
        requires
            state_wf(old(self)@),
        ensures
            match r {
                Ok(()) => apply_returns_v(old(self)@, value@, lineno as int) == Ok::<StateV, ErrV>(
                    final(self)@,
                ) && state_wf(final(self)@),
                Err(e) => apply_returns_v(old(self)@, value@, lineno as int) == Err::<
                    StateV,
                    ErrV,
                >(e@),
            },
    {
        let t = trim(value);
        if t.unicode_len() == 0 {
            return Err(
                ParseError::at(
                    ParseErrorKind::MissingReturnType,
                    lineno,
                    "Missing return type in function",
                ),
            );
        }
        let a = self.take_active();
        match a {
            ActiveConstruct::InFunction(mut f, l) => {
                f.set_return_type(t.to_owned());
                self.active = ActiveConstruct::InFunction(f, l);
                proof {
                    assert(self@ == (StateV {
                        active: ActiveV::InFunction(f@, l as int),
                        ..old(self)@
                    }));
                }
                Ok(())
            },
            _ => Err(
                ParseError::at(
                    ParseErrorKind::ReturnsWithoutContext,
                    lineno,
                    "Returns used without a function",
                ),
            ),
        }
    }

    /// Dispatch a macro-call value: record a macro dependency on the open
    /// macro, function or migration.
    fn apply_call(&mut self, value: &str, lineno: usize) -> (r: Result<(), ParseError>)
        requires
            state_wf(old(self)@),
        ensures
            match r {
                Ok(()) => apply_call_v(old(self)@, value@, lineno as int) == Ok::<StateV, ErrV>(
                    final(self)@,
                ) && state_wf(final(self)@),
                Err(e) => apply_call_v(old(self)@, value@, lineno as int) == Err::<StateV, ErrV>(
                    e@,
                ),
            },
    {
        let v = trim(value);
        let n = v.unicode_len();
        if n == 0 {
            return Err(
                ParseError::at(ParseErrorKind::MissingMacroName, lineno, "Missing macro name in call"),
            );
        }
        let p = crate::text::find_char_from(v, '(', 0);
        proof {
            crate::text::lemma_first_char_at(v@, '(', p as int);
        }
        let head = if p < n {
            v.substring_char(0, p)
        } else {
            v
        };
        proof {
            if p < n {
                assert(head@ =~= v@.take(p as int));
            }
        }
        let name = trim(head);
        proof {
            assert(name@ == macro_call_name(v@));
        }
        let dep = Dependency::new_macro(name);
        let a = self.take_active();
        match a {
            ActiveConstruct::InMacro(mut mc, l) => {
                mc.add_dependency(dep);
                self.active = ActiveConstruct::InMacro(mc, l);
                proof {
                    assert(self@ == (StateV {
                        active: ActiveV::InMacro(mc@, l as int),
                        ..old(self)@
                    }));
                }
                Ok(())
            },
            ActiveConstruct::InFunction(mut f, l) => {
                f.add_dependency(dep);
                self.active = ActiveConstruct::InFunction(f, l);
                proof {
                    assert(self@ == (StateV {
                        active: ActiveV::InFunction(f@, l as int),
                        ..old(self)@
                    }));
                }
                Ok(())
            },
            ActiveConstruct::InMigration(mut m, l) => {
                m.add_dependency(dep);
                self.active = ActiveConstruct::InMigration(m, l);
                proof {
                    assert(self@ == (StateV {
                        active: ActiveV::InMigration(m@, l as int),
                        ..old(self)@
                    }));
                }
                Ok(())
            },
            ActiveConstruct::Idle => Err(
                ParseError::at(
                    ParseErrorKind::MacroCallWithoutContext,
                    lineno,
                    "Macro call used without migration, macro or function",
                ),
            ),
        }
    }

    /// The word naming the open construct, for structural error messages.
    fn ctx_word(&self) -> (r: &'static str)
        requires
            !(self@.active is Idle),
        ensures
            r@ == active_ctx(self@.active),
    {
        match self.active {
            ActiveConstruct::InMigration(_, _) => "migration",
            ActiveConstruct::InMacro(_, _) => "macro",
            ActiveConstruct::InFunction(_, _) => "function",
            ActiveConstruct::Idle => "",
        }
    }

    /// One step of the state machine on a trimmed, non-blank line.
    #[verifier::rlimit(60)]
    fn step(&mut self, t: &str, next_is_pipe: bool, lineno: usize) -> (r: Result<(), ParseError>)
        requires
            state_wf(old(self)@),
        ensures
            match r {
                Ok(()) => step_v(old(self)@, t@, next_is_pipe, lineno as int) == Ok::<StateV, ErrV>(
                    final(self)@,
                ) && state_wf(final(self)@),
                Err(e) => step_v(old(self)@, t@, next_is_pipe, lineno as int) == Err::<
                    StateV,
                    ErrV,
                >(e@),
            },
    {
        let line = classify(t);
        match line {
            Line::Pipe(payload) => {
                if next_is_pipe {
                    self.buffer.append(payload.as_str());
                    proof {
                        assert(self@ == (StateV {
                            buffer: old(self)@.buffer + payload@,
                            ..old(self)@
                        }));
                    }
                    Ok(())
                } else {
                    match self.pipe_for {
                        None => Err(
                            ParseError::at(
                                ParseErrorKind::UnexpectedEndOfFile(lineno),
                                lineno,
                                "Unexpected pipe without context",
                            ),
                        ),
                        Some(pf) => {
                            self.buffer.append(payload.as_str());
                            let mut b = String::new();
                            core::mem::swap(&mut b, &mut self.buffer);
                            self.pipe_for = None;
                            proof {
                                assert(b@ == old(self)@.buffer + payload@);
                                assert(self@ == (StateV {
                                    buffer: Seq::empty(),
                                    pipe_for: None,
                                    ..old(self)@
                                }));
                            }
                            match pf {
                                PipeFor::Tags => self.apply_tags(b.as_str(), lineno),
                                PipeFor::Parameters => self.apply_params(b.as_str(), lineno),
                                PipeFor::Returns => self.apply_returns(b.as_str(), lineno),
                                PipeFor::Macro => self.apply_call(b.as_str(), lineno),
                            }
                        },
                    }
                }
            },
            Line::FsqlVersion(v) => {
                self.fsql_version = Some(v);
                Ok(())
            },
            Line::MigrationStart(name) => {
                match &self.active {
                    ActiveConstruct::Idle => {
                        if name.as_str().unicode_len() == 0 {
                            Err(
                                ParseError::at(
                                    ParseErrorKind::MissingMigrationName,
                                    lineno,
                                    "Missing migration name",
                                ),
                            )
                        } else {
                            self.active = ActiveConstruct::InMigration(
                                Migration::new(name.as_str()),
                                lineno,
                            );
                            Ok(())
                        }
                    },
                    _ => Err(
                        ParseError::at2(
                            ParseErrorKind::UnexpectedMigrationStart,
                            lineno,
                            "Unexpected migration start inside ",
                            self.ctx_word(),
                        ),
                    ),
                }
            },
            Line::MigrationEnd => {
                let a = self.take_active();
                match a {
                    ActiveConstruct::InMacro(_, _) => Err(
                        ParseError::at2(
                            ParseErrorKind::UnexpectedMigrationEnd,
                            lineno,
                            "Unexpected migration end inside ",
                            "macro",
                        ),
                    ),
                    ActiveConstruct::InFunction(_, _) => Err(
                        ParseError::at2(
                            ParseErrorKind::UnexpectedMigrationEnd,
                            lineno,
                            "Unexpected migration end inside ",
                            "function",
                        ),
                    ),
                    ActiveConstruct::Idle => Err(
                        ParseError::at(
                            ParseErrorKind::UnexpectedMigrationEnd,
                            lineno,
                            "Unexpected migration end",
                        ),
                    ),
                    ActiveConstruct::InMigration(mut m, _) => {
                        proof {
                            lemma_groups_view(self.group_stack@);
                        }
                        let path = build_migration_path(&self.group_stack, m.name());
                        m.set_full_path(path.as_str());
                        self.rollback = false;
                        if self.group_stack.len() > 0 {
                            let mut g = self.pop_group();
                            g.add_migration(m);
                            let ghost gv = g@;
                            self.push_group(g);
                            proof {
                                assert(old(self)@.groups.drop_last().push(gv)
                                    =~= old(self)@.groups.update(
                                    old(self)@.groups.len() - 1,
                                    gv,
                                ));
                                assert(step_v(old(self)@, t@, next_is_pipe, lineno as int)
                                    == Ok::<StateV, ErrV>(self@));
                            }
                            Ok(())
                        } else {
                            let ghost before = self@.migrations;
                            self.migrations.push(m);
                            proof {
                                assert(self@.migrations =~= before.push(
                                    self.migrations@.last()@,
                                ));
                                assert(step_v(old(self)@, t@, next_is_pipe, lineno as int)
                                    == Ok::<StateV, ErrV>(self@));
                            }
                            Ok(())
                        }
                    },
                }
            },
            Line::MacroStart(name) => {
                match &self.active {
                    ActiveConstruct::Idle => {
                        if name.as_str().unicode_len() == 0 {
                            Err(
                                ParseError::at(
                                    ParseErrorKind::MissingMacroName,
                                    lineno,
                                    "Missing macro name",
                                ),
                            )
                        } else {
                            self.active = ActiveConstruct::InMacro(
                                MacroFunc::new(name.as_str()),
                                lineno,
                            );
                            Ok(())
                        }
                    },
                    _ => Err(
                        ParseError::at2(
                            ParseErrorKind::UnexpectedMacroStart,
                            lineno,
                            "Unexpected macro start inside ",
                            self.ctx_word(),
                        ),
                    ),
                }
            },
            Line::MacroEnd => {
                let a = self.take_active();
                match a {
                    ActiveConstruct::InMacro(mut mc, _) => {
                        mc.parse_body();
                        let ghost before = self@.macros;
                        self.macros.push(mc);
                        proof {
                            assert(self@.macros =~= before.push(self.macros@.last()@));
                            assert(step_v(old(self)@, t@, next_is_pipe, lineno as int) == Ok::<
                                StateV,
                                ErrV,
                            >(self@));
                        }
                        Ok(())
                    },
                    ActiveConstruct::Idle => Err(
                        ParseError::at2(
                            ParseErrorKind::UnexpectedMacroEnd,
                            lineno,
                            "Unexpected macro end inside ",
                            "macro",
                        ),
                    ),
                    ActiveConstruct::InMigration(_, _) => Err(
                        ParseError::at2(
                            ParseErrorKind::UnexpectedMacroEnd,
                            lineno,
                            "Unexpected macro end inside ",
                            "migration",
                        ),
                    ),
                    ActiveConstruct::InFunction(_, _) => Err(
                        ParseError::at2(
                            ParseErrorKind::UnexpectedMacroEnd,
                            lineno,
                            "Unexpected macro end inside ",
                            "function",
                        ),
                    ),
                }
            },
            Line::FunctionStart(name) => {
                match &self.active {
                    ActiveConstruct::Idle => {
                        if name.as_str().unicode_len() == 0 {
                            Err(
                                ParseError::at(
                                    ParseErrorKind::MissingFunctionName,
                                    lineno,
                                    "Missing function name",
                                ),
                            )
                        } else {
                            self.active = ActiveConstruct::InFunction(
                                Function::new(name.as_str()),
                                lineno,
                            );
                            Ok(())
                        }
                    },
                    _ => Err(
                        ParseError::at2(
                            ParseErrorKind::UnexpectedFunctionStart,
                            lineno,
                            "Unexpected function start inside ",
                            self.ctx_word(),
                        ),
                    ),
                }
            },
            Line::FunctionEnd => {
                let a = self.take_active();
                match a {
                    ActiveConstruct::InFunction(mut f, _) => {
                        f.put_boilerplate();
                        let ghost before = self@.functions;
                        self.functions.push(f);
                        proof {
                            assert(self@.functions =~= before.push(self.functions@.last()@));
                            assert(step_v(old(self)@, t@, next_is_pipe, lineno as int) == Ok::<
                                StateV,
                                ErrV,
                            >(self@));
                        }
                        Ok(())
                    },
                    ActiveConstruct::Idle => Err(
                        ParseError::at2(
                            ParseErrorKind::UnexpectedFunctionEnd,
                            lineno,
                            "Unexpected function end inside ",
                            "function",
                        ),
                    ),
                    ActiveConstruct::InMigration(_, _) => Err(
                        ParseError::at2(
                            ParseErrorKind::UnexpectedFunctionEnd,
                            lineno,
                            "Unexpected function end inside ",
                            "migration",
                        ),
                    ),
                    ActiveConstruct::InMacro(_, _) => Err(
                        ParseError::at2(
                            ParseErrorKind::UnexpectedFunctionEnd,
                            lineno,
                            "Unexpected function end inside ",
                            "macro",
                        ),
                    ),
                }
            },
            Line::GroupStart(name) => {
                match &self.active {
                    ActiveConstruct::Idle => {
                        if name.as_str().unicode_len() == 0 {
                            Err(
                                ParseError::at(
                                    ParseErrorKind::MissingMigrationGroupName,
                                    lineno,
                                    "Missing migration group name",
                                ),
                            )
                        } else {
                            self.push_group(MigrationGroup::new(name.as_str()));
                            self.group_lines.push(lineno);
                            proof {
                                assert(self@.group_lines =~= old(self)@.group_lines.push(
                                    lineno as int,
                                ));
                                assert(step_v(old(self)@, t@, next_is_pipe, lineno as int)
                                    == Ok::<StateV, ErrV>(self@));
                            }
                            Ok(())
                        }
                    },
                    _ => Err(
                        ParseError::at2(
                            ParseErrorKind::UnexpectedMigrationGroupStart,
                            lineno,
                            "Unexpected migration group start inside ",
                            self.ctx_word(),
                        ),
                    ),
                }
            },
            Line::GroupEnd => {
                match &self.active {
                    ActiveConstruct::Idle => {
                        proof {
                            lemma_groups_view(self.group_stack@);
                        }
                        if self.group_stack.len() > 0 {
                            let g = self.pop_group();
                            let _ = self.group_lines.pop();
                            proof {
                                lemma_groups_view(self.group_stack@);
                                assert(self@.group_lines =~= old(self)@.group_lines.drop_last());
                            }
                            if self.group_stack.len() > 0 {
                                let mut parent = self.pop_group();
                                parent.add_group(g);
                                let ghost pv = parent@;
                                self.push_group(parent);
                                proof {
                                    assert(old(self)@.groups.drop_last().drop_last().push(pv)
                                        =~= old(self)@.groups.update(
                                        old(self)@.groups.len() - 2,
                                        pv,
                                    ).drop_last());
                                    assert(step_v(old(self)@, t@, next_is_pipe, lineno as int)
                                        == Ok::<StateV, ErrV>(self@));
                                }
                                Ok(())
                            } else {
                                let ghost before = self@.out_groups;
                                let ghost prevec = self.out_groups@;
                                let ghost gv = g@;
                                self.out_groups.push(g);
                                proof {
                                    crate::migration_group::lemma_groups_view_push(
                                        prevec,
                                        self.out_groups@.last(),
                                    );
                                    assert(self.out_groups@ =~= prevec.push(
                                        self.out_groups@.last(),
                                    ));
                                    assert(self@.out_groups =~= before.push(gv));
                                    assert(old(self)@.groups.drop_last() =~= Seq::<
                                        GroupV,
                                    >::empty());
                                    assert(step_v(old(self)@, t@, next_is_pipe, lineno as int)
                                        == Ok::<StateV, ErrV>(self@));
                                }
                                Ok(())
                            }
                        } else {
                            Err(
                                ParseError::at2(
                                    ParseErrorKind::UnexpectedMigrationGroupEnd,
                                    lineno,
                                    "Unexpected migration group end inside ",
                                    "migration group",
                                ),
                            )
                        }
                    },
                    _ => Err(
                        ParseError::at2(
                            ParseErrorKind::UnexpectedMigrationGroupEnd,
                            lineno,
                            "Unexpected migration group end inside ",
                            self.ctx_word(),
                        ),
                    ),
                }
            },
            Line::Nuclear => {
                let a = self.take_active();
                match a {
                    ActiveConstruct::InMigration(mut m, l) => {
                        m.set_nuclear_true();
                        self.active = ActiveConstruct::InMigration(m, l);
                        proof {
                            assert(self@ == (StateV {
                                active: ActiveV::InMigration(m@, l as int),
                                ..old(self)@
                            }));
                        }
                        Ok(())
                    },
                    ActiveConstruct::InMacro(mc, l) => {
                        self.active = ActiveConstruct::InMacro(mc, l);
                        proof {
                            assert(self@ == old(self)@);
                        }
                        self.nuclear_to_group(lineno)
                    },
                    ActiveConstruct::InFunction(f, l) => {
                        self.active = ActiveConstruct::InFunction(f, l);
                        proof {
                            assert(self@ == old(self)@);
                        }
                        self.nuclear_to_group(lineno)
                    },
                    ActiveConstruct::Idle => self.nuclear_to_group(lineno),
                }
            },
            Line::Tags(value) => {
                if next_is_pipe {
                    self.buffer.append(value.as_str());
                    self.pipe_for = Some(PipeFor::Tags);
                    proof {
                        assert(self@ == (StateV {
                            buffer: old(self)@.buffer + value@,
                            pipe_for: Some(PipeFor::Tags),
                            ..old(self)@
                        }));
                    }
                    Ok(())
                } else if trim(value.as_str()).unicode_len() == 0 {
                    Err(
                        ParseError::at(
                            ParseErrorKind::MissingTags,
                            lineno,
                            "Missing tags in migration",
                        ),
                    )
                } else {
                    self.apply_tags(value.as_str(), lineno)
                }
            },
            Line::Version(v) => {
                if v.as_str().unicode_len() == 0 {
                    Err(
                        ParseError::at(
                            ParseErrorKind::MissingArgument("version".to_owned()),
                            lineno,
                            "Missing version in migration",
                        ),
                    )
                } else {
                    let a = self.take_active();
                    match a {
                        ActiveConstruct::InMigration(mut m, l) => {
                            m.set_version(v.as_str());
                            self.active = ActiveConstruct::InMigration(m, l);
                            proof {
                                assert(self@ == (StateV {
                                    active: ActiveV::InMigration(m@, l as int),
                                    ..old(self)@
                                }));
                            }
                            Ok(())
                        },
                        ActiveConstruct::InMacro(mc, l) => {
                            self.active = ActiveConstruct::InMacro(mc, l);
                            proof {
                                assert(self@ == old(self)@);
                            }
                            self.version_to_group(v.as_str(), lineno)
                        },
                        ActiveConstruct::InFunction(f, l) => {
                            self.active = ActiveConstruct::InFunction(f, l);
                            proof {
                                assert(self@ == old(self)@);
                            }
                            self.version_to_group(v.as_str(), lineno)
                        },
                        ActiveConstruct::Idle => self.version_to_group(v.as_str(), lineno),
                    }
                }
            },
            Line::Depends(value) => {
                if value.as_str().unicode_len() == 0 {
                    Err(
                        ParseError::at(
                            ParseErrorKind::MissingArgument("depends".to_owned()),
                            lineno,
                            "Missing dependency in migration",
                        ),
                    )
                } else {
                    match Dependency::new(value.as_str()) {
                        Err(k) => Err(
                            ParseError::at3(
                                k,
                                lineno,
                                "Error parsing dependency '",
                                value.as_str(),
                                "'",
                            ),
                        ),
                        Ok(dep) => {
                            let a = self.take_active();
                            match a {
                                ActiveConstruct::InMigration(mut m, l) => {
                                    m.add_dependency(dep);
                                    self.active = ActiveConstruct::InMigration(m, l);
                                    proof {
                                        assert(self@ == (StateV {
                                            active: ActiveV::InMigration(m@, l as int),
                                            ..old(self)@
                                        }));
                                    }
                                    Ok(())
                                },
                                ActiveConstruct::InMacro(mut mc, l) => {
                                    mc.add_dependency(dep);
                                    self.active = ActiveConstruct::InMacro(mc, l);
                                    proof {
                                        assert(self@ == (StateV {
                                            active: ActiveV::InMacro(mc@, l as int),
                                            ..old(self)@
                                        }));
                                    }
                                    Ok(())
                                },
                                ActiveConstruct::InFunction(mut f, l) => {
                                    f.add_dependency(dep);
                                    self.active = ActiveConstruct::InFunction(f, l);
                                    proof {
                                        assert(self@ == (StateV {
                                            active: ActiveV::InFunction(f@, l as int),
                                            ..old(self)@
                                        }));
                                    }
                                    Ok(())
                                },
                                ActiveConstruct::Idle => {
                                    proof {
                                        lemma_groups_view(self.group_stack@);
                                    }
                                    if self.group_stack.len() > 0 {
                                        let mut g = self.pop_group();
                                        g.add_dependency(dep);
                                        let ghost gv = g@;
                                        self.push_group(g);
                                        proof {
                                            assert(old(self)@.groups.drop_last().push(gv)
                                                =~= old(self)@.groups.update(
                                                old(self)@.groups.len() - 1,
                                                gv,
                                            ));
                                            assert(step_v(
                                                old(self)@,
                                                t@,
                                                next_is_pipe,
                                                lineno as int,
                                            ) == Ok::<StateV, ErrV>(self@));
                                        }
                                        Ok(())
                                    } else {
                                        Err(
                                            ParseError::at(
                                                ParseErrorKind::DependsWithoutContext,
                                                lineno,
                                                "Depends used without a migration or migration group",
                                            ),
                                        )
                                    }
                                },
                            }
                        },
                    }
                }
            },
            Line::Rollback => {
                match &self.active {
                    ActiveConstruct::InMigration(_, _) => {
                        self.rollback = true;
                        Ok(())
                    },
                    _ => Err(
                        ParseError::at(
                            ParseErrorKind::RollbackWithoutContext,
                            lineno,
                            "Rollback used without a migration",
                        ),
                    ),
                }
            },
            Line::Parameters(value) => {
                if next_is_pipe {
                    self.buffer.append(value.as_str());
                    self.pipe_for = Some(PipeFor::Parameters);
                    proof {
                        assert(self@ == (StateV {
                            buffer: old(self)@.buffer + value@,
                            pipe_for: Some(PipeFor::Parameters),
                            ..old(self)@
                        }));
                    }
                    Ok(())
                } else if trim(value.as_str()).unicode_len() == 0 {
                    Err(
                        ParseError::at(
                            ParseErrorKind::MissingParameters,
                            lineno,
                            "Missing parameters in function",
                        ),
                    )
                } else {
                    self.apply_params(value.as_str(), lineno)
                }
            },
            Line::Returns(value) => {
                if next_is_pipe {
                    self.buffer.append(value.as_str());
                    self.pipe_for = Some(PipeFor::Returns);
                    proof {
                        assert(self@ == (StateV {
                            buffer: old(self)@.buffer + value@,
                            pipe_for: Some(PipeFor::Returns),
                            ..old(self)@
                        }));
                    }
                    Ok(())
                } else {
                    self.apply_returns(value.as_str(), lineno)
                }
            },
            Line::Call(value) => {
                if next_is_pipe {
                    self.buffer.append(value.as_str());
                    self.pipe_for = Some(PipeFor::Macro);
                    proof {
                        assert(self@ == (StateV {
                            buffer: old(self)@.buffer + value@,
                            pipe_for: Some(PipeFor::Macro),
                            ..old(self)@
                        }));
                    }
                    Ok(())
                } else {
                    self.apply_call(value.as_str(), lineno)
                }
            },
            Line::Description(value) => {
                proof {
                    lemma_groups_view(self.group_stack@);
                }
                let d = trim(value.as_str());
                if self.group_stack.len() > 0 {
                    let mut g = self.pop_group();
                    g.add_description(d);
                    let ghost gv = g@;
                    self.push_group(g);
                    proof {
                        assert(old(self)@.groups.drop_last().push(gv)
                            =~= old(self)@.groups.update(old(self)@.groups.len() - 1, gv));
                        assert(step_v(old(self)@, t@, next_is_pipe, lineno as int) == Ok::<
                            StateV,
                            ErrV,
                        >(self@));
                    }
                    Ok(())
                } else {
                    let a = self.take_active();
                    match a {
                        ActiveConstruct::InFunction(mut f, l) => {
                            f.add_description(d);
                            self.active = ActiveConstruct::InFunction(f, l);
                            proof {
                                assert(self@ == (StateV {
                                    active: ActiveV::InFunction(f@, l as int),
                                    ..old(self)@
                                }));
                            }
                            Ok(())
                        },
                        ActiveConstruct::InMigration(mut m, l) => {
                            m.add_description(d);
                            self.active = ActiveConstruct::InMigration(m, l);
                            proof {
                                assert(self@ == (StateV {
                                    active: ActiveV::InMigration(m@, l as int),
                                    ..old(self)@
                                }));
                            }
                            Ok(())
                        },
                        _ => Err(
                            ParseError::at(
                                ParseErrorKind::DescriptionWithoutContext,
                                lineno,
                                "Description used without a migration, migration group, or function",
                            ),
                        ),
                    }
                }
            },
            Line::Other => {
                let a = self.take_active();
                match a {
                    ActiveConstruct::InMigration(mut m, l) => {
                        if self.rollback {
                            m.add_sql_rollback(t);
                        } else {
                            m.add_sql(t);
                        }
                        self.active = ActiveConstruct::InMigration(m, l);
                        proof {
                            assert(self@ == (StateV {
                                active: ActiveV::InMigration(m@, l as int),
                                ..old(self)@
                            }));
                        }
                        Ok(())
                    },
                    ActiveConstruct::InMacro(mut mc, l) => {
                        mc.add_body(t);
                        self.active = ActiveConstruct::InMacro(mc, l);
                        proof {
                            assert(self@ == (StateV {
                                active: ActiveV::InMacro(mc@, l as int),
                                ..old(self)@
                            }));
                        }
                        Ok(())
                    },
                    ActiveConstruct::InFunction(mut f, l) => {
                        f.add_body(t);
                        self.active = ActiveConstruct::InFunction(f, l);
                        proof {
                            assert(self@ == (StateV {
                                active: ActiveV::InFunction(f@, l as int),
                                ..old(self)@
                            }));
                        }
                        Ok(())
                    },
                    ActiveConstruct::Idle => Err(
                        ParseError::at(
                            ParseErrorKind::SqlWithoutContext,
                            lineno,
                            "SQL used without a migration, macro, or function",
                        ),
                    ),
                }
            },
        }
    }

    /// Set the nuclear flag on the innermost open group.
    fn nuclear_to_group(&mut self, lineno: usize) -> (r: Result<(), ParseError>)
        requires
            state_wf(old(self)@),
        ensures
            match r {
                Ok(()) => old(self)@.groups.len() > 0 && final(self)@ == (StateV {
                    groups: old(self)@.groups.update(
                        old(self)@.groups.len() - 1,
                        GroupV { nuclear: true, ..old(self)@.groups.last() },
                    ),
                    ..old(self)@
                }) && state_wf(final(self)@),
                Err(e) => old(self)@.groups.len() == 0 && e@ == err_v(
                    KindV::NuclearWithoutContext,
                    lineno as int,
                    "Nuclear tag used without a migration or migration group"@,
                ) && final(self)@ == old(self)@,
            },
    {
        proof {
            lemma_groups_view(self.group_stack@);
        }
        if self.group_stack.len() > 0 {
            let mut g = self.pop_group();
            g.set_nuclear_true();
            let ghost gv = g@;
            self.push_group(g);
            proof {
                assert(old(self)@.groups.drop_last().push(gv) =~= old(self)@.groups.update(
                    old(self)@.groups.len() - 1,
                    gv,
                ));
            }
            Ok(())
        } else {
            Err(
                ParseError::at(
                    ParseErrorKind::NuclearWithoutContext,
                    lineno,
                    "Nuclear tag used without a migration or migration group",
                ),
            )
        }
    }

    /// Set the version on the innermost open group.
    fn version_to_group(&mut self, v: &str, lineno: usize) -> (r: Result<(), ParseError>)
        requires
            state_wf(old(self)@),
        ensures
            match r {
                Ok(()) => old(self)@.groups.len() > 0 && final(self)@ == (StateV {
                    groups: old(self)@.groups.update(
                        old(self)@.groups.len() - 1,
                        GroupV { version: Some(v@), ..old(self)@.groups.last() },
                    ),
                    ..old(self)@
                }) && state_wf(final(self)@),
                Err(e) => old(self)@.groups.len() == 0 && e@ == err_v(
                    KindV::MissingArgument("version"@),
                    lineno as int,
                    "Version used without a migration or migration group"@,
                ) && final(self)@ == old(self)@,
            },
    {
        proof {
            lemma_groups_view(self.group_stack@);
        }
        if self.group_stack.len() > 0 {
            let mut g = self.pop_group();
            g.set_version(v);
            let ghost gv = g@;
            self.push_group(g);
            proof {
                assert(old(self)@.groups.drop_last().push(gv) =~= old(self)@.groups.update(
                    old(self)@.groups.len() - 1,
                    gv,
                ));
            }
            Ok(())
        } else {
            Err(
                ParseError::at(
                    ParseErrorKind::MissingArgument("version".to_owned()),
                    lineno,
                    "Version used without a migration or migration group",
                ),
            )
        }
    }
}

// ---------------------------------------------------------------------------
// the file-level entry point
// ---------------------------------------------------------------------------

/// Mathematical image of a `MigrationFile`.
pub struct MigrationFileV {
    pub file_path: Seq<char>,
    pub file_name: Seq<char>,
    pub file_content: Seq<char>,
    pub migrations: Seq<MigrationV>,
    pub migration_groups: Seq<GroupV>,
    pub macros: Seq<MacroFuncV>,
    pub functions: Seq<FunctionV>,
    pub fsql_version: Option<Seq<char>>,
}

/// One source file and everything parsed out of it.
#[derive(Debug)]
pub struct MigrationFile {
    pub file_path: String,
    pub file_name: String,
    pub file_content: String,
    pub migrations: Vec<Migration>,
    pub migration_groups: Vec<MigrationGroup>,
    pub macros: Vec<MacroFunc>,
    pub functions: Vec<Function>,
    pub fsql_version: Option<String>,
}

impl View for MigrationFile {
    type V = MigrationFileV;

    open spec fn view(&self) -> MigrationFileV {
        MigrationFileV {
            file_path: self.file_path@,
            file_name: self.file_name@,
            file_content: self.file_content@,
            migrations: self.migrations@.map_values(|m: Migration| m@),
            migration_groups: groups_view(self.migration_groups@),
            macros: self.macros@.map_values(|m: MacroFunc| m@),
            functions: self.functions@.map_values(|f: Function| f@),
            fsql_version: match self.fsql_version {
                Some(v) => Some(v@),
                None => None,
            },
        }
    }
}

impl MigrationFile {
    /// A fresh file with its raw text, not yet parsed.
    pub fn new(file_path: &str, file_name: &str, file_content: &str) -> (r: MigrationFile)
        ensures
            r@ == (MigrationFileV {
                file_path: file_path@,
                file_name: file_name@,
                file_content: file_content@,
                migrations: Seq::empty(),
                migration_groups: Seq::empty(),
                macros: Seq::empty(),
                functions: Seq::empty(),
                fsql_version: None,
            }),
    {
        let r = MigrationFile {
            file_path: file_path.to_owned(),
            file_name: file_name.to_owned(),
            file_content: file_content.to_owned(),
            migrations: Vec::new(),
            migration_groups: Vec::new(),
            macros: Vec::new(),
            functions: Vec::new(),
            fsql_version: None,
        };
        proof {
            lemma_groups_view(r.migration_groups@);
            assert(r@.migrations =~= Seq::<MigrationV>::empty());
            assert(r@.migration_groups =~= Seq::<GroupV>::empty());
            assert(r@.macros =~= Seq::<MacroFuncV>::empty());
            assert(r@.functions =~= Seq::<FunctionV>::empty());
        }
        r
    }

    /// Parse the file's text, appending the finished entities to this file's
    /// lists.  On an error nothing is changed and the first error is
    /// returned, carrying its 1-based source line.
    pub fn parse_file(&mut self) -> (r: Result<(), ParseError>)
        ensures
            match r {
                Ok(()) => parse_outcome(old(self)@.file_content) matches Ok(stv) && final(self)@
                    == (MigrationFileV {
                    migrations: old(self)@.migrations + stv.migrations,
                    migration_groups: old(self)@.migration_groups + stv.out_groups,
                    macros: old(self)@.macros + stv.macros,
                    functions: old(self)@.functions + stv.functions,
                    fsql_version: if stv.fsql_version is Some {
                        stv.fsql_version
                    } else {
                        old(self)@.fsql_version
                    },
                    ..old(self)@
                }),
                Err(e) => parse_outcome(old(self)@.file_content) == Err::<StateV, ErrV>(e@)
                    && final(self)@ == old(self)@,
            },
    {
        let lines = split_lines(self.file_content.as_str());
        let ghost linesv = crate::text::lines_of(self.file_content@);
        let mut st = ParserState::init();
        let mut i: usize = 0;
        while i < lines.len()
            invariant
                self@ == old(self)@,
                i <= lines@.len(),
                lines@.len() == linesv.len(),
                forall|j: int| 0 <= j < linesv.len() ==> lines@[j]@ == linesv[j],
                linesv == crate::text::lines_of(old(self)@.file_content),
                state_wf(st@),
                run_v(linesv, 0, init_state()) == run_v(linesv, i as int, st@),
            decreases lines@.len() - i,
        {
            let t = trim(lines[i].as_str());
            if t.unicode_len() == 0 {
                proof {
                    assert(run_v(linesv, i as int, st@) == run_v(linesv, i as int + 1, st@));
                }
            } else {
                let nip = if i + 1 < lines.len() {
                    let tn = trim(lines[i + 1].as_str());
                    starts_with_str(tn, "-- | ") && tn.unicode_len() > 5
                } else {
                    false
                };
                proof {
                    reveal_strlit("-- | ");
                    assert(nip == next_pipe(linesv, i as int + 1));
                }
                let ghost st_pre = st@;
                match st.step(t, nip, i + 1) {
                    Ok(()) => {},
                    Err(e) => {
                        proof {
                            assert(run_v(linesv, i as int, st_pre) == Err::<StateV, ErrV>(e@));
                            assert(parse_outcome(old(self)@.file_content) == Err::<StateV, ErrV>(
                                e@,
                            ));
                        }
                        return Err(e);
                    },
                }
            }
            i += 1;
        }
        proof {
            assert(run_v(linesv, lines@.len() as int, st@) == Ok::<StateV, ErrV>(st@));
            assert(run_v(linesv, 0, init_state()) == Ok::<StateV, ErrV>(st@));
        }
        match &st.active {
            ActiveConstruct::InMigration(_, l) => {
                return Err(ParseError::at(ParseErrorKind::MigrationNotClosed, *l, "Migration not closed"));
            },
            ActiveConstruct::InMacro(_, l) => {
                return Err(ParseError::at(ParseErrorKind::MacroNotClosed, *l, "Macro not closed"));
            },
            ActiveConstruct::InFunction(_, l) => {
                return Err(ParseError::at(ParseErrorKind::FunctionNotClosed, *l, "Function not closed"));
            },
            ActiveConstruct::Idle => {},
        }
        proof {
            lemma_groups_view(st.group_stack@);
        }
        if st.group_stack.len() > 0 {
            let l = st.group_lines[st.group_lines.len() - 1];
            proof {
                assert(st@.group_lines.last() == l as int);
            }
            return Err(
                ParseError::at(
                    ParseErrorKind::MigrationGroupNotClosed,
                    l,
                    "Migration group not closed",
                ),
            );
        }
        proof {
            assert(finish_v(st@) is None);
            assert(parse_outcome(old(self)@.file_content) == Ok::<StateV, ErrV>(st@));
        }
        let ghost stv = st@;
        let ParserState {
            migrations: new_migrations,
            out_groups: new_groups,
            macros: new_macros,
            functions: new_functions,
            fsql_version: new_fsql,
            ..
        } = st;
        proof {
            lemma_groups_view(new_groups@);
            lemma_groups_view(self.migration_groups@);
            assert(groups_view(new_groups@) =~= new_groups@.map_values(
                |g: MigrationGroup| g@,
            ));
            assert(groups_view(self.migration_groups@) =~= self.migration_groups@.map_values(
                |g: MigrationGroup| g@,
            ));
        }
        append_all(&mut self.migrations, new_migrations);
        append_all(&mut self.migration_groups, new_groups);
        append_all(&mut self.macros, new_macros);
        append_all(&mut self.functions, new_functions);
        match new_fsql {
            Some(v) => {
                self.fsql_version = Some(v);
            },
            None => {},
        }
        proof {
            lemma_groups_view(self.migration_groups@);
            assert(groups_view(self.migration_groups@) =~= self.migration_groups@.map_values(
                |g: MigrationGroup| g@,
            ));
            assert(self@ == (MigrationFileV {
                migrations: old(self)@.migrations + stv.migrations,
                migration_groups: old(self)@.migration_groups + stv.out_groups,
                macros: old(self)@.macros + stv.macros,
                functions: old(self)@.functions + stv.functions,
                fsql_version: if stv.fsql_version is Some {
                    stv.fsql_version
                } else {
                    old(self)@.fsql_version
                },
                ..old(self)@
            }));
        }
        Ok(())
    }
}

/// Move every element of `src` onto the end of `dst`, in order.
fn append_all<T: View>(dst: &mut Vec<T>, src: Vec<T>)
    ensures
        final(dst)@.map_values(|x: T| x@) == old(dst)@.map_values(|x: T| x@)
            + src@.map_values(|x: T| x@),
{
    let ghost dst0 = old(dst)@.map_values(|x: T| x@);
    let ghost src0 = src@.map_values(|x: T| x@);
    let mut rest = src;
    proof {
        assert(src0.take(0) =~= Seq::<T::V>::empty());
        assert(dst0 + src0.take(0) =~= dst0);
        assert(rest@.map_values(|x: T| x@) =~= src0.skip(0));
    }
    let ghost mut done: int = 0;
    while rest.len() > 0
        invariant
            0 <= done <= src0.len(),
            dst@.map_values(|x: T| x@) == dst0 + src0.take(done),
            rest@.map_values(|x: T| x@) == src0.skip(done),
            rest@.len() == src0.len() - done,
        decreases rest@.len(),
    {
        let ghost dcur = dst@.map_values(|x: T| x@);
        let x = rest.remove(0);
        proof {
            assert(src0.skip(done)[0] == src0[done]);
            assert(x@ == src0[done]);
            assert(rest@.map_values(|x: T| x@) =~= src0.skip(done).drop_first());
            assert(src0.skip(done).drop_first() =~= src0.skip(done + 1));
        }
        dst.push(x);
        proof {
            assert(dst@.map_values(|x: T| x@) =~= dcur.push(dst@.last()@));
            assert(dcur.push(src0[done]) =~= dst0 + src0.take(done + 1));
            done = done + 1;
        }
    }
    proof {
        assert(src0.take(src0.len() as int) =~= src0);
    }
}

} // verus!
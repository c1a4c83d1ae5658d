use fsql_parser::file::MigrationFile;
use fsql_parser::parse_errors::ParseErrorKind;

fn parse(content: &str) -> MigrationFile {
    let mut f = MigrationFile::new("p", "n", content);
    f.parse_file().unwrap();
    f
}

fn parse_err(content: &str) -> fsql_parser::parse_errors::ParseError {
    let mut f = MigrationFile::new("p", "n", content);
    f.parse_file().unwrap_err()
}

#[test]
fn sample_file_parses() {
    let content = "\n\
        -- +fsql:version: 0.5\n\
        \n\
        -- +migration: smth\n\
        -- +version: 1.0.0\n\
        --+ This is a migration description\n\
        -- +depends: ::path/to/something.sql::Migration(my_migration)\n\
        -- +tags: concurrent\n\
        -- +nuclear\n\
        CREATE TABLE t (id INT);\n\
        -- +rollback\n\
        DROP TABLE t;\n\
        -- +endmigration\n\
        \n\
        -- +macro: my_macro\n\
        -- +parameters: table_name, ...columns\n\
        CREATE TABLE {{table_name}} ({{...columns}});\n\
        -- +endmacro\n";
    let f = parse(content);
    assert_eq!(f.fsql_version.as_deref(), Some("0.5"));
    assert_eq!(f.migrations.len(), 1);
    assert_eq!(f.macros.len(), 1);
    let m = &f.migrations[0];
    assert_eq!(m.name(), "smth");
    assert_eq!(m.version(), Some("1.0.0"));
    assert_eq!(m.description(), "This is a migration description");
    assert_eq!(m.sql(), "CREATE TABLE t (id INT);");
    assert_eq!(m.sql_rollback(), "DROP TABLE t;");
    assert!(m.nuclear());
    assert_eq!(m.path(), "Migration(smth)");
    assert_eq!(m.dependencies().len(), 1);
    assert!(m.dependencies()[0].is_from_other_file());
    assert_eq!(m.tags().len(), 1);
    let mc = &f.macros[0];
    assert_eq!(mc.name(), "my_macro");
    assert_eq!(mc.arguments().len(), 2);
    assert!(mc.used_arguments().iter().any(|u| u == "table_name"));
    assert!(mc.used_arguments().iter().any(|u| u == "columns"));
}

#[test]
fn nested_group_path() {
    let content = "-- +group: g1\n\
        -- +group: g2\n\
        -- +migration: m\n\
        SELECT 1;\n\
        -- +endmigration\n\
        -- +endgroup\n\
        -- +endgroup\n";
    let f = parse(content);
    assert_eq!(f.migration_groups.len(), 1);
    let g1 = &f.migration_groups[0];
    assert_eq!(g1.name(), "g1");
    assert_eq!(g1.groups().len(), 1);
    let g2 = &g1.groups()[0];
    assert_eq!(g2.name(), "g2");
    assert_eq!(g2.migrations().len(), 1);
    assert_eq!(g2.migrations()[0].path(), "g1::g2::Migration(m)");
}

#[test]
fn top_level_migration_path_has_no_prefix() {
    let f = parse("-- +migration: solo\nSELECT 1;\n-- +endmigration\n");
    assert_eq!(f.migrations[0].path(), "Migration(solo)");
}

#[test]
fn migration_inside_migration_fails() {
    let e = parse_err("-- +migration: a\n-- +migration: b\n-- +endmigration\n");
    assert_eq!(e.kind, ParseErrorKind::UnexpectedMigrationStart);
    assert_eq!(e.line, 2);
    assert_eq!(e.column, 1);
    assert_eq!(e.message, "Unexpected migration start inside migration");
}

#[test]
fn macro_inside_migration_fails() {
    let e = parse_err("-- +migration: a\n-- +macro: b\n");
    assert_eq!(e.kind, ParseErrorKind::UnexpectedMacroStart);
    assert_eq!(e.message, "Unexpected macro start inside migration");
}

#[test]
fn function_inside_macro_fails() {
    let e = parse_err("-- +macro: a\n-- +function: b\n");
    assert_eq!(e.kind, ParseErrorKind::UnexpectedFunctionStart);
    assert_eq!(e.message, "Unexpected function start inside macro");
}

#[test]
fn migration_inside_function_fails() {
    let e = parse_err("-- +function: a\n-- +migration: b\n");
    assert_eq!(e.kind, ParseErrorKind::UnexpectedMigrationStart);
    assert_eq!(e.message, "Unexpected migration start inside function");
}

#[test]
fn unexpected_macro_end_fails() {
    let e = parse_err("SELECT;\n-- +endmacro\n");
    // the bare SQL line already fails the parse
    assert_eq!(e.kind, ParseErrorKind::SqlWithoutContext);
    let e2 = parse_err("-- +endmacro\n");
    assert_eq!(e2.kind, ParseErrorKind::UnexpectedMacroEnd);
    assert_eq!(e2.line, 1);
}

#[test]
fn unexpected_ends_fail() {
    assert_eq!(
        parse_err("-- +endmigration\n").kind,
        ParseErrorKind::UnexpectedMigrationEnd
    );
    assert_eq!(
        parse_err("-- +endfunction\n").kind,
        ParseErrorKind::UnexpectedFunctionEnd
    );
    assert_eq!(
        parse_err("-- +endgroup\n").kind,
        ParseErrorKind::UnexpectedMigrationGroupEnd
    );
}

#[test]
fn group_not_closed_cites_opening_line() {
    let e = parse_err("\n-- +group: g\n-- +migration: m\nSELECT 1;\n-- +endmigration\n");
    assert_eq!(e.kind, ParseErrorKind::MigrationGroupNotClosed);
    assert_eq!(e.line, 2);
}

#[test]
fn inner_unclosed_group_is_cited() {
    let e = parse_err("-- +group: outer\n-- +group: inner\n-- +endgroup\n");
    assert_eq!(e.kind, ParseErrorKind::MigrationGroupNotClosed);
    // only the outer group is still open, opened at line 1
    assert_eq!(e.line, 1);
}

#[test]
fn unclosed_constructs_fail() {
    let e = parse_err("\n-- +migration: m\nSELECT 1;\n");
    assert_eq!(e.kind, ParseErrorKind::MigrationNotClosed);
    assert_eq!(e.line, 2);
    assert_eq!(parse_err("-- +macro: m\n").kind, ParseErrorKind::MacroNotClosed);
    assert_eq!(
        parse_err("-- +function: f\n").kind,
        ParseErrorKind::FunctionNotClosed
    );
}

#[test]
fn tags_continuation_matches_inline() {
    let piped = parse(
        "-- +migration: m\n\
         -- +tags: concurrent,\n\
         -- | transactional\n\
         SELECT 1;\n\
         -- +endmigration\n",
    );
    let inline = parse(
        "-- +migration: m\n\
         -- +tags: concurrent,transactional\n\
         SELECT 1;\n\
         -- +endmigration\n",
    );
    assert_eq!(piped.migrations[0].tags(), inline.migrations[0].tags());
    assert_eq!(piped.migrations[0].tags().len(), 2);
}

#[test]
fn parameters_continuation_matches_inline() {
    let piped = parse(
        "-- +macro: m\n\
         -- +parameters: a, \n\
         -- | ...b\n\
         X\n\
         -- +endmacro\n",
    );
    let inline = parse(
        "-- +macro: m\n\
         -- +parameters: a, ...b\n\
         X\n\
         -- +endmacro\n",
    );
    assert_eq!(piped.macros[0].arguments().len(), 2);
    assert_eq!(
        piped.macros[0].arguments().len(),
        inline.macros[0].arguments().len()
    );
}

#[test]
fn returns_continuation_concatenates() {
    let f = parse(
        "-- +function: f\n\
         -- +returns: TAB\n\
         -- | LE\n\
         X\n\
         -- +endfunction\n",
    );
    assert_eq!(f.functions[0].return_type(), "TABLE");
}

#[test]
fn call_records_macro_dependency() {
    let f = parse(
        "-- +migration: m\n\
         -- +call: my_macro('a', 'b')\n\
         -- +endmigration\n",
    );
    let deps = f.migrations[0].dependencies();
    assert_eq!(deps.len(), 1);
    assert_eq!(deps[0].name(), "my_macro");
}

#[test]
fn orphan_continuation_line_fails() {
    let e = parse_err("-- | floating\nSELECT 1;\n");
    assert_eq!(e.kind, ParseErrorKind::UnexpectedEndOfFile(1));
    assert_eq!(e.line, 1);
}

#[test]
fn context_violations_fail() {
    assert_eq!(
        parse_err("-- +tags: concurrent\n").kind,
        ParseErrorKind::TagsWithoutContext
    );
    assert_eq!(
        parse_err("-- +rollback\n").kind,
        ParseErrorKind::RollbackWithoutContext
    );
    assert_eq!(
        parse_err("-- +nuclear\n").kind,
        ParseErrorKind::NuclearWithoutContext
    );
    assert_eq!(
        parse_err("-- +depends: Migration(x)\n").kind,
        ParseErrorKind::DependsWithoutContext
    );
    assert_eq!(
        parse_err("-- +returns: INT\n").kind,
        ParseErrorKind::ReturnsWithoutContext
    );
    assert_eq!(
        parse_err("-- +parameters: a: INT\n").kind,
        ParseErrorKind::ParametersWithoutContext
    );
    assert_eq!(
        parse_err("--+ lonely description\n").kind,
        ParseErrorKind::DescriptionWithoutContext
    );
    assert_eq!(
        parse_err("-- +call: mac()\n").kind,
        ParseErrorKind::MacroCallWithoutContext
    );
    assert_eq!(parse_err("SELECT 1;\n").kind, ParseErrorKind::SqlWithoutContext);
}

#[test]
fn unknown_tag_fails_with_token() {
    let e = parse_err("-- +migration: m\n-- +tags: sideways\n-- +endmigration\n");
    assert_eq!(e.kind, ParseErrorKind::UnknownTag("sideways".to_owned()));
    assert_eq!(e.line, 2);
}

#[test]
fn bad_dependency_fails() {
    let e = parse_err("-- +migration: m\n-- +depends: nonsense\n-- +endmigration\n");
    assert_eq!(
        e.kind,
        ParseErrorKind::InvalidDependencyFormat("nonsense".to_owned())
    );
}

#[test]
fn missing_names_fail() {
    assert_eq!(
        parse_err("-- +migration:\n").kind,
        ParseErrorKind::MissingMigrationName
    );
    assert_eq!(parse_err("-- +macro:\n").kind, ParseErrorKind::MissingMacroName);
    assert_eq!(
        parse_err("-- +function:\n").kind,
        ParseErrorKind::MissingFunctionName
    );
    assert_eq!(
        parse_err("-- +group:\n").kind,
        ParseErrorKind::MissingMigrationGroupName
    );
}

#[test]
fn rollback_resets_between_migrations() {
    let f = parse(
        "-- +migration: a\n\
         FWD A;\n\
         -- +rollback\n\
         BACK A;\n\
         -- +endmigration\n\
         -- +migration: b\n\
         FWD B;\n\
         -- +endmigration\n",
    );
    assert_eq!(f.migrations[0].sql(), "FWD A;");
    assert_eq!(f.migrations[0].sql_rollback(), "BACK A;");
    assert_eq!(f.migrations[1].sql(), "FWD B;");
    assert_eq!(f.migrations[1].sql_rollback(), "");
}

#[test]
fn last_file_version_wins() {
    let f = parse("-- +fsql:version: 0.5\n-- +fsql:version: 0.6\n");
    assert_eq!(f.fsql_version.as_deref(), Some("0.6"));
}

#[test]
fn group_collects_metadata() {
    let f = parse(
        "-- +group: g\n\
         --+ group docs\n\
         -- +version: 2.0.1\n\
         -- +tags: transactional\n\
         -- +nuclear\n\
         -- +depends: Group(other)\n\
         -- +endgroup\n",
    );
    let g = &f.migration_groups[0];
    assert_eq!(g.description(), "group docs");
    assert_eq!(g.version(), Some("2.0.1"));
    assert_eq!(g.tags().len(), 1);
    assert!(g.nuclear());
    assert_eq!(g.dependencies().len(), 1);
    assert!(g.dependencies()[0].is_group());
}

#[test]
fn function_block_parses_and_wraps() {
    let f = parse(
        "-- +function: greet\n\
         --+ says hello\n\
         -- +parameters: who: TEXT\n\
         -- +returns: TEXT\n\
         RETURN 'hi ' || who;\n\
         -- +endfunction\n",
    );
    let fun = &f.functions[0];
    assert_eq!(fun.name(), "greet");
    assert_eq!(fun.description(), "says hello");
    assert_eq!(
        fun.parsed_body(),
        "CREATE OR REPLACE FUNCTION greet(who TEXT) RETURNS TEXT AS $$\n\
         RETURN 'hi ' || who;\n$$ LANGUAGE plpgsql;"
    );
}

#[test]
fn malformed_version_value_fails() {
    let e = parse_err("-- +migration: m\n-- +version: abc\n-- +endmigration\n");
    assert_eq!(e.kind, ParseErrorKind::MissingArgument("version".to_owned()));
}

#[test]
fn version_outside_migration_or_group_fails() {
    let e = parse_err("-- +version: 1.2.3\n");
    assert_eq!(e.kind, ParseErrorKind::MissingArgument("version".to_owned()));
}

#[test]
fn body_lines_are_trimmed_and_joined() {
    let f = parse("-- +migration: m\n   SELECT 1;   \n   SELECT 2;\n-- +endmigration\n");
    assert_eq!(f.migrations[0].sql(), "SELECT 1;\nSELECT 2;");
}

#[test]
fn parse_error_leaves_file_untouched() {
    let mut f = MigrationFile::new("p", "n", "-- +endmacro\n");
    let _ = f.parse_file().unwrap_err();
    assert_eq!(f.migrations.len(), 0);
    assert_eq!(f.macros.len(), 0);
    assert_eq!(f.migration_groups.len(), 0);
    assert_eq!(f.functions.len(), 0);
    assert!(f.fsql_version.is_none());
}

#[test]
fn missing_values_fail() {
    assert_eq!(
        parse_err("-- +migration: m\n-- +tags:\n-- +endmigration\n").kind,
        ParseErrorKind::MissingTags
    );
    assert_eq!(
        parse_err("-- +function: f\n-- +parameters:\n-- +endfunction\n").kind,
        ParseErrorKind::MissingParameters
    );
    assert_eq!(
        parse_err("-- +function: f\n-- +returns:\n-- +endfunction\n").kind,
        ParseErrorKind::MissingReturnType
    );
    assert_eq!(
        parse_err("-- +migration: m\n-- +call:\n-- +endmigration\n").kind,
        ParseErrorKind::MissingMacroName
    );
    assert_eq!(
        parse_err("-- +migration: m\n-- +depends:\n-- +endmigration\n").kind,
        ParseErrorKind::MissingArgument("depends".to_owned())
    );
}

#[test]
fn call_continuation_concatenates_macro_name() {
    let f = parse(
        "-- +migration: m\n\
         -- +call: my_ma\n\
         -- | cro('x')\n\
         -- +endmigration\n",
    );
    let deps = f.migrations[0].dependencies();
    assert_eq!(deps.len(), 1);
    assert_eq!(deps[0].name(), "my_macro");
}

#[test]
fn description_goes_to_group_before_open_migration() {
    let f = parse(
        "-- +group: g\n\
         -- +migration: m\n\
         --+ note\n\
         SELECT 1;\n\
         -- +endmigration\n\
         -- +endgroup\n",
    );
    let g = &f.migration_groups[0];
    assert_eq!(g.description(), "note");
    assert_eq!(g.migrations()[0].description(), "");
}

#[test]
fn blank_lines_between_directive_and_continuation_break_the_run() {
    // a blank line after the directive means the value is applied inline
    let e = parse_err(
        "-- +migration: m\n\
         -- +tags: concurrent\n\
         \n\
         -- | transactional\n\
         -- +endmigration\n",
    );
    // the orphaned continuation line is the error
    assert_eq!(e.kind, ParseErrorKind::UnexpectedEndOfFile(4));
}

#[test]
fn function_argument_error_surfaces_from_parser() {
    let e = parse_err("-- +function: f\n-- +parameters: untyped\n-- +endfunction\n");
    assert_eq!(e.kind, ParseErrorKind::MissingArgumentType);
    assert_eq!(e.line, 2);
}

#[test]
fn empty_file_parses_to_nothing() {
    let f = parse("");
    assert_eq!(f.migrations.len(), 0);
    assert_eq!(f.migration_groups.len(), 0);
    assert_eq!(f.macros.len(), 0);
    assert_eq!(f.functions.len(), 0);
    assert!(f.fsql_version.is_none());
    let f2 = parse("\n\n   \n");
    assert_eq!(f2.migrations.len(), 0);
}

#[test]
fn unrecognised_directive_like_line_is_body_text() {
    // `+call-func:` has no case in the state machine; inside a migration the
    // line is ordinary body text.
    let f = parse("-- +migration: m\n-- +call-func: thing\n-- +endmigration\n");
    assert_eq!(f.migrations[0].sql(), "-- +call-func: thing");
}

#[test]
fn depends_and_calls_attach_to_macros_and_functions() {
    let f = parse(
        "-- +macro: m\n\
         -- +depends: Migration(base)\n\
         -- +call: helper()\n\
         X\n\
         -- +endmacro\n\
         -- +function: f\n\
         -- +depends: Group(core)\n\
         -- +call: helper2()\n\
         X\n\
         -- +endfunction\n",
    );
    let mc = &f.macros[0];
    assert_eq!(mc.dependencies().len(), 2);
    assert!(mc.dependencies()[0].is_migration());
    assert_eq!(mc.dependencies()[1].name(), "helper");
    let fun = &f.functions[0];
    assert_eq!(fun.dependencies().len(), 2);
    assert!(fun.dependencies()[0].is_group());
    assert_eq!(fun.dependencies()[1].name(), "helper2");
}

#[test]
fn depends_attaches_to_group_when_nothing_else_open() {
    let f = parse("-- +group: g\n-- +depends: Migration(x)\n-- +endgroup\n");
    assert_eq!(f.migration_groups[0].dependencies().len(), 1);
}

use fsql_parser::macro_func::{MacroArgument, MacroFunc};
use fsql_parser::parse_errors::ParseErrorKind;

#[test]
fn parameter_list_parses_plain_and_spread() {
    let mut mc = MacroFunc::new("m");
    mc.parse_arguments("table_name, ...columns").unwrap();
    let args = mc.arguments();
    assert_eq!(args.len(), 2);
    match &args[0] {
        MacroArgument::AsIs(n) => assert_eq!(n, "table_name"),
        _ => panic!("first parameter should be plain"),
    }
    match &args[1] {
        MacroArgument::Spread(n) => assert_eq!(n, "columns"),
        _ => panic!("second parameter should be a spread"),
    }
}

#[test]
fn parameter_list_parses_spread_with_joiner() {
    let mut mc = MacroFunc::new("m");
    mc.parse_arguments("...columns(', ')").unwrap();
    let args = mc.arguments();
    assert_eq!(args.len(), 1);
    match &args[0] {
        MacroArgument::SpreadJoinedBy(n, j) => {
            assert_eq!(n, "columns");
            assert_eq!(j, "', '");
        },
        _ => panic!("parameter should be a spread with a joiner"),
    }
}

#[test]
fn commas_inside_parentheses_do_not_split() {
    let mut mc = MacroFunc::new("m");
    mc.parse_arguments("a, ...b((x, y)), c").unwrap();
    assert_eq!(mc.arguments().len(), 3);
}

#[test]
fn empty_segments_are_skipped() {
    let mut mc = MacroFunc::new("m");
    mc.parse_arguments("a, , b,").unwrap();
    assert_eq!(mc.arguments().len(), 2);
}

#[test]
fn rendering_substitutes_plain_and_spread() {
    let mut mc = MacroFunc::new("m");
    mc.parse_arguments("table_name, ...columns").unwrap();
    mc.add_body("CREATE TABLE {{table_name}} ({{...columns}})");
    mc.parse_body();
    let values = vec![
        ("table_name".to_owned(), vec!["t".to_owned()]),
        ("columns".to_owned(), vec!["a INT".to_owned(), "b TEXT".to_owned()]),
    ];
    let rendered = mc.render_body(&values);
    assert_eq!(rendered, "CREATE TABLE t (a INT, b TEXT)");
}

#[test]
fn rendering_uses_custom_joiner() {
    let mut mc = MacroFunc::new("m");
    mc.parse_arguments("...cols(--)").unwrap();
    mc.add_body("SELECT {{...cols}}");
    mc.parse_body();
    let values = vec![("cols".to_owned(), vec!["a".to_owned(), "b".to_owned()])];
    assert_eq!(mc.render_body(&values), "SELECT a--b");
}

#[test]
fn rendering_leaves_unmapped_parameters_untouched() {
    let mut mc = MacroFunc::new("m");
    mc.parse_arguments("x, ...y").unwrap();
    mc.add_body("{{x}} {{...y}}");
    mc.parse_body();
    let values: Vec<(String, Vec<String>)> = Vec::new();
    assert_eq!(mc.render_body(&values), "{{x}} {{...y}}");
}

#[test]
fn body_is_normalised_on_close() {
    let mut mc = MacroFunc::new("m");
    mc.add_body("  SELECT 1;  ");
    mc.add_body("   ");
    mc.add_body("  SELECT 2;");
    mc.parse_body();
    assert_eq!(mc.parsed_body(), "SELECT 1;\nSELECT 2;");
}

#[test]
fn used_placeholders_are_recorded() {
    let mut mc = MacroFunc::new("m");
    mc.add_body("{{a}} and {{...b}} and {{...c(', ')}}");
    mc.parse_body();
    let used = mc.used_arguments();
    assert!(used.iter().any(|u| u == "a"));
    assert!(used.iter().any(|u| u == "b"));
    assert!(used.iter().any(|u| u == "c"));
    assert!(used.iter().any(|u| u == "...c(', ')"));
}

#[test]
fn unmatched_open_braces_end_the_scan() {
    let mut mc = MacroFunc::new("m");
    mc.add_body("{{a}} then {{broken");
    mc.parse_body();
    let used = mc.used_arguments();
    assert_eq!(used.len(), 1);
    assert_eq!(used[0], "a");
}

#[test]
fn check_arguments_reports_missing() {
    let mut mc = MacroFunc::new("m");
    mc.parse_arguments("a").unwrap();
    mc.add_body("{{a}} {{b}}");
    mc.parse_body();
    let e = mc.check_if_all_arguments_exist().unwrap_err();
    assert_eq!(e, ParseErrorKind::MissingArgument("b".to_owned()));
}

#[test]
fn check_arguments_accepts_declared() {
    let mut mc = MacroFunc::new("m");
    mc.parse_arguments("a, ...b").unwrap();
    mc.add_body("{{a}} {{...b}}");
    mc.parse_body();
    assert!(mc.check_if_all_arguments_exist().is_ok());
}

#[test]
fn macro_dependencies_accumulate() {
    let mut mc = MacroFunc::new("m");
    mc.add_dependency(fsql_parser::migration_dependency::Dependency::new_macro("other"));
    assert_eq!(mc.dependencies().len(), 1);
    assert_eq!(mc.dependencies()[0].name(), "other");
    assert_eq!(mc.name(), "m");
    assert_eq!(mc.description(), "");
}

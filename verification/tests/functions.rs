use fsql_parser::function::{FuncArgument, Function, FunctionTags};
use fsql_parser::migration_tags::MigrationTags;
use fsql_parser::parse_errors::ParseErrorKind;

#[test]
fn boilerplate_wraps_the_body() {
    let mut f = Function::new("add_user");
    f.parse_arguments("name: TEXT, age: INT").unwrap();
    f.set_return_type("BOOLEAN".to_owned());
    f.add_body("  INSERT INTO users VALUES (name, age);  ");
    f.add_body("");
    f.add_body("RETURN TRUE;");
    f.put_boilerplate();
    assert_eq!(
        f.parsed_body(),
        "CREATE OR REPLACE FUNCTION add_user(name TEXT, age INT) RETURNS BOOLEAN AS $$\n\
         INSERT INTO users VALUES (name, age);\nRETURN TRUE;\n$$ LANGUAGE plpgsql;"
    );
    // The wrapping branch leaves the completion flag untouched.
    assert!(!f.is_complete());
}

#[test]
fn defaults_are_void_and_plpgsql() {
    let f = Function::new("f");
    assert_eq!(f.return_type(), "VOID");
    assert_eq!(f.language(), "plpgsql");
}

#[test]
fn no_boilerplate_only_completes() {
    let mut f = Function::new("raw");
    assert!(f.add_tag("noboilerplate").unwrap());
    f.add_body("SELECT 1;");
    f.put_boilerplate();
    assert!(f.is_complete());
    assert_eq!(f.parsed_body(), "");
    assert_eq!(f.body(), "SELECT 1;");
}

#[test]
fn unknown_function_tag_is_rejected() {
    let mut f = Function::new("f");
    let e = f.add_tag("concurrent").unwrap_err();
    assert_eq!(e, ParseErrorKind::UnknownTag("concurrent".to_owned()));
    assert_eq!(f.tags().len(), 0);
    assert!(f.add_tag("NoBoilerplate").unwrap());
    assert_eq!(f.tags(), &vec![FunctionTags::NoBoilerplate]);
}

#[test]
fn argument_without_type_is_rejected() {
    let mut f = Function::new("f");
    let e = f.parse_arguments("name TEXT").unwrap_err();
    assert_eq!(e, ParseErrorKind::MissingArgumentType);
    assert_eq!(f.arguments().len(), 0);
    let e2 = f.parse_arguments("a: b: c").unwrap_err();
    assert_eq!(e2, ParseErrorKind::MissingArgumentType);
}

#[test]
fn arguments_parse_names_and_types() {
    let mut f = Function::new("f");
    f.parse_arguments(" a : INT ,b:TEXT").unwrap();
    let args = f.arguments();
    assert_eq!(args.len(), 2);
    assert_eq!(args[0].name, "a");
    assert_eq!(args[0].arg_type, "INT");
    assert_eq!(args[1].name, "b");
    assert_eq!(args[1].arg_type, "TEXT");
    let built = FuncArgument::new("c".to_owned(), "BIGINT".to_owned());
    assert_eq!(built.name, "c");
    assert_eq!(built.arg_type, "BIGINT");
}

#[test]
fn function_accumulates_description_and_language() {
    let mut f = Function::new("f");
    f.add_description("line one");
    f.add_description("line two");
    assert_eq!(f.description(), "line one\nline two");
    f.set_language("sql".to_owned());
    assert_eq!(f.language(), "sql");
    assert_eq!(f.name(), "f");
    assert_eq!(f.dependencies().len(), 0);
}

#[test]
fn migration_tags_parse_case_insensitively() {
    assert_eq!(
        MigrationTags::try_from("Concurrent").unwrap(),
        MigrationTags::Concurrent
    );
    assert_eq!(
        MigrationTags::try_from("TRANSACTIONAL").unwrap(),
        MigrationTags::Transactional
    );
    assert_eq!(
        MigrationTags::try_from("other").unwrap_err(),
        ParseErrorKind::UnknownTag("other".to_owned())
    );
}

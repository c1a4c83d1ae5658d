use fsql_parser::migration_dependency::Dependency;
use fsql_parser::parse_errors::ParseErrorKind;

#[test]
fn migration_reference_parses() {
    let d = Dependency::new("Migration(users)").unwrap();
    assert!(d.is_migration());
    assert!(!d.is_group());
    assert!(d.is_from_current_file());
    assert!(!d.is_from_other_file());
    assert_eq!(d.complete_path(), "Migration(users)");
    assert_eq!(d.name(), "Migration(users)");
}

#[test]
fn group_reference_parses() {
    let d = Dependency::new("core::Group(accounts)").unwrap();
    assert!(d.is_group());
    assert!(!d.is_migration());
    assert_eq!(d.complete_path(), "core::Group(accounts)");
    assert_eq!(d.name(), "Group(accounts)");
}

#[test]
fn migration_wins_over_group() {
    let d = Dependency::new("Migration(a)::Group(b)").unwrap();
    assert!(d.is_migration());
}

#[test]
fn dependency_from_other_file() {
    let d = Dependency::new("::path/to/file.sql::Migration(x)").unwrap();
    assert!(d.is_from_other_file());
    assert!(!d.is_from_current_file());
    assert!(!d.is_migration());
    assert_eq!(d.complete_path(), "path/to/file.sql::Migration(x)");
    assert_eq!(d.name(), "Migration(x)");
}

#[test]
fn invalid_dependency_is_rejected() {
    let e = Dependency::new("just some text").unwrap_err();
    assert_eq!(
        e,
        ParseErrorKind::InvalidDependencyFormat("just some text".to_owned())
    );
}

#[test]
fn empty_argument_is_rejected() {
    // `Migration()` has no character between the parentheses.
    let e = Dependency::new("Migration()").unwrap_err();
    assert!(matches!(e, ParseErrorKind::InvalidDependencyFormat(_)));
}

#[test]
fn file_scope_marker_alone_is_rejected() {
    let e = Dependency::new("::nothing here").unwrap_err();
    assert_eq!(
        e,
        ParseErrorKind::InvalidDependencyFormat("nothing here".to_owned())
    );
}

#[test]
fn call_site_constructors() {
    let m = Dependency::new_macro("ns::my_macro");
    assert!(!m.is_migration());
    assert!(!m.is_group());
    assert!(m.is_from_current_file());
    assert_eq!(m.complete_path(), "ns::my_macro");
    assert_eq!(m.name(), "my_macro");

    let f = Dependency::new_function("do_thing");
    assert_eq!(f.name(), "do_thing");

    let mg = Dependency::migration("a::Migration(b)");
    assert!(mg.is_migration());
    let g = Dependency::group("Group(x)");
    assert!(g.is_group());
}

use fsql_parser::migration::Migration;
use fsql_parser::migration_group::MigrationGroup;
use fsql_parser::migration_tags::MigrationTags;

#[test]
fn extraction_yields_every_migration_once() {
    let mut sub = MigrationGroup::new("sub");
    sub.add_migration(Migration::new("s1"));

    let mut g = MigrationGroup::new("top");
    g.add_migration(Migration::new("m1"));
    g.add_migration(Migration::new("m2"));
    g.add_group(sub);

    assert_eq!(g.count(), 3);

    let mut names = Vec::new();
    while let Some(m) = g.next() {
        names.push(m.name().to_owned());
    }
    assert_eq!(names.len(), 3);
    assert!(names.contains(&"m1".to_owned()));
    assert!(names.contains(&"m2".to_owned()));
    assert!(names.contains(&"s1".to_owned()));
    assert!(g.next().is_none());
}

#[test]
fn extraction_order_is_reverse_local_then_subgroups() {
    let mut inner = MigrationGroup::new("inner");
    inner.add_migration(Migration::new("i1"));
    inner.add_migration(Migration::new("i2"));

    let mut g = MigrationGroup::new("outer");
    g.add_migration(Migration::new("a"));
    g.add_migration(Migration::new("b"));
    g.add_group(inner);

    let mut names = Vec::new();
    while let Some(m) = g.next() {
        names.push(m.name().to_owned());
    }
    // Directly-owned migrations come out in reverse insertion order, then the
    // subgroup is exhausted the same way.
    assert_eq!(names, vec!["b", "a", "i2", "i1"]);
}

#[test]
fn count_of_empty_group_is_zero() {
    let g = MigrationGroup::new("empty");
    assert_eq!(g.count(), 0);
    let mut g = g;
    assert!(g.next().is_none());
}

#[test]
fn group_builders_accumulate() {
    let mut g = MigrationGroup::new("g");
    assert_eq!(g.name(), "g");
    assert!(g.version().is_none());
    g.set_version("1.2.3");
    assert_eq!(g.version(), Some("1.2.3"));
    g.add_description("first");
    g.add_description("second");
    assert_eq!(g.description(), "first\nsecond");
    assert!(g.add_tag("concurrent").unwrap());
    assert!(!g.add_tag("CONCURRENT").unwrap());
    assert_eq!(g.tags(), &vec![MigrationTags::Concurrent]);
    assert!(!g.nuclear());
    g.set_nuclear_true();
    assert!(g.nuclear());
    assert_eq!(g.migrations().len(), 0);
    assert_eq!(g.groups().len(), 0);
    assert_eq!(g.dependencies().len(), 0);
}

#[test]
fn unknown_group_tag_is_rejected() {
    let mut g = MigrationGroup::new("g");
    assert!(g.add_tag("sideways").is_err());
}

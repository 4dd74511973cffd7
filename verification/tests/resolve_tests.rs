use pgtools::resolve::resolve_migrations;
use pgtools::{DirEntry, EngineError, Version};

fn v(s: &str) -> Version {
    Version::parse(s).expect("version should parse")
}

fn file(name: &str) -> DirEntry {
    DirEntry { name: name.to_string(), is_file: true }
}

#[test]
fn sorts_ascending_and_filters_bounds() {
    // out of order on purpose; 1.0.0 is the current version, 2.0.0 the target
    let entries = vec![
        file("1.5.0.sql"),
        file("1.0.0.sql"),   // equal to current: kept, the marker names it as next
        file("1.2.0.sql"),
        file("2.0.0.sql"),   // equal to target: excluded
        file("2.1.0.sql"),   // above target: excluded
        file("0.9.0.sql"),   // below current: excluded
        file("1.4.0.sql"),
    ];
    let ms = resolve_migrations(&entries, &v("1.0.0"), &v("2.0.0")).unwrap();
    let names: Vec<&str> = ms.iter().map(|m| m.file_name.as_str()).collect();
    assert_eq!(names, vec!["1.0.0.sql", "1.2.0.sql", "1.4.0.sql", "1.5.0.sql"]);
    for w in ms.windows(2) {
        assert!(w[0].version.lt(&w[1].version));
    }
}

#[test]
fn a_script_at_the_recorded_version_is_selected_again() {
    // the marker names the next script still to run: after an interrupted
    // run it reads the version of the script that rolled back
    let entries = vec![file("1.1.0.sql"), file("1.2.0.sql"), file("1.0.0.sql")];
    let ms = resolve_migrations(&entries, &v("1.1.0"), &v("2.0.0")).unwrap();
    let names: Vec<&str> = ms.iter().map(|m| m.file_name.as_str()).collect();
    assert_eq!(names, vec!["1.1.0.sql", "1.2.0.sql"]);
}

#[test]
fn skips_non_sql_and_non_files() {
    let entries = vec![
        file("1.1.0.sql"),
        file("readme.txt"),
        file("1.3.0.SQL"),
        DirEntry { name: "1.2.0.sql".to_string(), is_file: false },
        file(".sql"),
    ];
    let ms = resolve_migrations(&entries, &v("1.0.0"), &v("2.0.0")).unwrap();
    let names: Vec<&str> = ms.iter().map(|m| m.file_name.as_str()).collect();
    assert_eq!(names, vec!["1.1.0.sql"]);
}

#[test]
fn bad_name_fails_naming_the_file() {
    let entries = vec![file("1.1.0.sql"), file("notaversion.sql")];
    match resolve_migrations(&entries, &v("1.0.0"), &v("2.0.0")) {
        Err(EngineError::InvalidMigrationName { file_name }) => {
            assert_eq!(file_name, "notaversion.sql");
        },
        other => panic!("expected an invalid-name error, got {:?}", other.is_ok()),
    }
}

#[test]
fn bad_name_fails_even_outside_the_range() {
    let entries = vec![file("0.0.1-bad..sql")];
    assert!(matches!(
        resolve_migrations(&entries, &v("1.0.0"), &v("2.0.0")),
        Err(EngineError::InvalidMigrationName { .. })
    ));
}

#[test]
fn duplicate_version_fails_naming_the_later_file() {
    // equal precedence, different build metadata
    let entries = vec![file("1.1.0+one.sql"), file("1.1.0+two.sql")];
    match resolve_migrations(&entries, &v("1.0.0"), &v("2.0.0")) {
        Err(EngineError::DuplicateVersion { file_name }) => {
            assert_eq!(file_name, "1.1.0+two.sql");
        },
        other => panic!("expected a duplicate error, got {:?}", other.is_ok()),
    }
}

#[test]
fn empty_directory_resolves_to_nothing() {
    let entries: Vec<DirEntry> = Vec::new();
    let ms = resolve_migrations(&entries, &v("1.0.0"), &v("2.0.0")).unwrap();
    assert!(ms.is_empty());
}

#[test]
fn pre_release_migrations_sort_by_precedence() {
    let entries = vec![file("1.1.0.sql"), file("1.1.0-alpha.sql"), file("1.1.0-alpha.2.sql")];
    let ms = resolve_migrations(&entries, &v("1.0.0"), &v("2.0.0")).unwrap();
    let names: Vec<&str> = ms.iter().map(|m| m.file_name.as_str()).collect();
    assert_eq!(names, vec!["1.1.0-alpha.sql", "1.1.0-alpha.2.sql", "1.1.0.sql"]);
}

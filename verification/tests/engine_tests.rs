use pgtools::engine::{parse_exists_output, parse_version_output};
use pgtools::{
    Action, ConnectionParameters, Database, DirEntry, DirListing, EngineError, Options, PgDump,
    PgRestore, Psql, Version,
};

fn v(s: &str) -> Version {
    Version::parse(s).expect("version should parse")
}

fn database(app_version: &str) -> Database {
    let connection = ConnectionParameters::new(vec![(
        "user".to_string(),
        "alice".to_string(),
    )]);
    let psql = Psql::default();
    let pg_dump = PgDump::default();
    let pg_restore = PgRestore::default();
    let options = Options {
        connection: &connection,
        psql: &psql,
        pg_dump: &pg_dump,
        pg_restore: &pg_restore,
        sql_directory: "sql",
    };
    Database::new(app_version, options).expect("engine should build")
}

fn file(name: &str) -> DirEntry {
    DirEntry { name: name.to_string(), is_file: true }
}

fn expect_drop(a: &Action, want: &str) {
    match a {
        Action::DropSchema { name } => assert_eq!(name, want),
        _ => panic!("expected a schema drop"),
    }
}

fn expect_create(a: &Action, want: &str) {
    match a {
        Action::CreateSchema { name } => assert_eq!(name, want),
        _ => panic!("expected a schema creation"),
    }
}

fn expect_script(a: &Action, want_path: &str, want_pin: bool, want_txn: bool) {
    match a {
        Action::RunScript { path, pin_data, single_txn } => {
            assert_eq!(path, want_path);
            assert_eq!(*pin_data, want_pin);
            assert_eq!(*single_txn, want_txn);
        },
        _ => panic!("expected a script run"),
    }
}

fn expect_set_version(a: &Action, want: &str) {
    match a {
        Action::SetVersion { version } => {
            assert!(version.eq_prec(&v(want)));
            assert_eq!(version.to_text(), want);
        },
        _ => panic!("expected a version set"),
    }
}

#[test]
fn new_takes_the_api_schema_from_the_user_parameter() {
    let db = database("1.0.0");
    assert_eq!(db.api_schema, "alice");
    assert_eq!(db.sql_directory, "sql");
    assert!(db.connection.starts_with("postgresql://"));
    assert!(db.connection.contains("user=alice"));
}

#[test]
fn new_rejects_a_bad_application_version() {
    let connection = ConnectionParameters::new(vec![("user".to_string(), "alice".to_string())]);
    let psql = Psql::default();
    let pg_dump = PgDump::default();
    let pg_restore = PgRestore::default();
    let options = Options {
        connection: &connection,
        psql: &psql,
        pg_dump: &pg_dump,
        pg_restore: &pg_restore,
        sql_directory: "sql",
    };
    match Database::new("one.two", options) {
        Err(EngineError::InvalidAppVersion { input }) => assert_eq!(input, "one.two"),
        _ => panic!("expected an invalid-version error"),
    }
}

#[test]
fn new_requires_a_user_parameter() {
    let connection = ConnectionParameters::new(vec![("host".to_string(), "db".to_string())]);
    let psql = Psql::default();
    let pg_dump = PgDump::default();
    let pg_restore = PgRestore::default();
    let options = Options {
        connection: &connection,
        psql: &psql,
        pg_dump: &pg_dump,
        pg_restore: &pg_restore,
        sql_directory: "sql",
    };
    assert!(matches!(Database::new("1.0.0", options), Err(EngineError::MissingUser)));
}

#[test]
fn migrate_runs_the_pending_script_and_ends_at_the_target() {
    let db = database("1.2.0");
    let current = v("1.0.0");
    let listing = DirListing::Entries(vec![file("1.1.0.sql")]);
    let acts = db.migrate_plan(Some(&current), &listing).unwrap();
    assert_eq!(acts.len(), 6);
    expect_drop(&acts[0], "alice");
    expect_script(&acts[1], "sql/migration/1.1.0.sql", true, true);
    expect_set_version(&acts[2], "1.2.0");
    expect_create(&acts[3], "alice");
    expect_script(&acts[4], "sql/api.sql", false, false);
    expect_set_version(&acts[5], "1.2.0");
}

#[test]
fn migrate_advances_the_marker_after_each_script() {
    let db = database("2.0.0");
    let current = v("1.0.0");
    let listing = DirListing::Entries(vec![file("1.2.0.sql"), file("1.1.0.sql")]);
    let acts = db.migrate_plan(Some(&current), &listing).unwrap();
    assert_eq!(acts.len(), 8);
    expect_script(&acts[1], "sql/migration/1.1.0.sql", true, true);
    // after the first script the marker reads the next pending version
    expect_set_version(&acts[2], "1.2.0");
    expect_script(&acts[3], "sql/migration/1.2.0.sql", true, true);
    // after the last script the marker reads the target
    expect_set_version(&acts[4], "2.0.0");
}

#[test]
fn an_interrupted_migration_resumes_at_the_marker() {
    // the marker reads 1.1.0: that script's transaction rolled back before
    // it could finish, so a re-invocation runs it again and nothing earlier
    let db = database("1.2.0");
    let current = v("1.1.0");
    let listing = DirListing::Entries(vec![file("1.0.5.sql"), file("1.1.0.sql")]);
    let acts = db.migrate_plan(Some(&current), &listing).unwrap();
    assert_eq!(acts.len(), 6);
    expect_drop(&acts[0], "alice");
    expect_script(&acts[1], "sql/migration/1.1.0.sql", true, true);
    expect_set_version(&acts[2], "1.2.0");
}

#[test]
fn the_marker_text_reads_back_as_the_version_written() {
    let written = v("1.4.2-rc.1+meta");
    let read = parse_version_output(&written.to_text()).unwrap();
    assert!(read.eq_prec(&written));
    assert_eq!(read.build, "meta");
    assert_eq!(read.to_text(), written.to_text());
}

#[test]
fn downgrade_is_refused_before_anything_runs() {
    let db = database("1.0.0");
    let current = v("2.0.0");
    let listing = DirListing::Entries(vec![file("1.1.0.sql")]);
    match db.migrate_plan(Some(&current), &listing) {
        Err(EngineError::Downgrade { current, target }) => {
            assert_eq!(current.to_text(), "2.0.0");
            assert_eq!(target.to_text(), "1.0.0");
        },
        _ => panic!("expected a downgrade error"),
    }
}

#[test]
fn missing_directory_is_not_an_error() {
    let db = database("1.2.0");
    let current = v("1.0.0");
    let acts = db.migrate_plan(Some(&current), &DirListing::Missing).unwrap();
    // no migration scripts: only the drop and the rebuild tail
    assert_eq!(acts.len(), 4);
    expect_drop(&acts[0], "alice");
    expect_create(&acts[1], "alice");
    expect_script(&acts[2], "sql/api.sql", false, false);
    expect_set_version(&acts[3], "1.2.0");
}

#[test]
fn a_non_directory_path_is_an_error() {
    let db = database("1.2.0");
    let current = v("1.0.0");
    assert!(matches!(
        db.migrate_plan(Some(&current), &DirListing::NotADirectory),
        Err(EngineError::NotADirectory)
    ));
}

#[test]
fn bad_migration_name_fails_the_whole_plan() {
    let db = database("1.2.0");
    let current = v("1.0.0");
    let listing = DirListing::Entries(vec![file("notaversion.sql")]);
    match db.migrate_plan(Some(&current), &listing) {
        Err(EngineError::InvalidMigrationName { file_name }) => {
            assert_eq!(file_name, "notaversion.sql");
        },
        _ => panic!("expected an invalid-name error"),
    }
}

#[test]
fn check_does_nothing_when_up_to_date() {
    let db = database("1.2.0");
    let current = v("1.2.0");
    let acts = db.check_plan(Some(&current), &DirListing::Missing).unwrap();
    assert!(acts.is_empty());
}

#[test]
fn check_migrates_when_out_of_date() {
    let db = database("1.2.0");
    let current = v("1.0.0");
    let listing = DirListing::Entries(vec![file("1.1.0.sql")]);
    let acts = db.check_plan(Some(&current), &listing).unwrap();
    assert_eq!(acts.len(), 6);
    expect_script(&acts[1], "sql/migration/1.1.0.sql", true, true);
}

#[test]
fn check_migrates_when_uninitialized() {
    let db = database("1.2.0");
    let acts = db.check_plan(None, &DirListing::Missing).unwrap();
    assert_eq!(acts.len(), 4);
}

#[test]
fn uninitialized_migrates_from_the_zero_version() {
    let db = database("1.0.0");
    let listing = DirListing::Entries(vec![file("0.5.0.sql"), file("0.2.0.sql")]);
    let acts = db.migrate_plan(None, &listing).unwrap();
    assert_eq!(acts.len(), 8);
    expect_script(&acts[1], "sql/migration/0.2.0.sql", true, true);
    expect_set_version(&acts[2], "0.5.0");
    expect_script(&acts[3], "sql/migration/0.5.0.sql", true, true);
    expect_set_version(&acts[4], "1.0.0");
}

#[test]
fn empty_migration_list_gives_no_actions() {
    let db = database("1.2.0");
    let acts = db.migration_actions(&Vec::new());
    assert!(acts.is_empty());
}

#[test]
fn initialize_bootstraps_both_schemas() {
    let db = database("1.2.0");
    let acts = db.init_plan();
    assert_eq!(acts.len(), 5);
    expect_create(&acts[0], "data");
    expect_script(&acts[1], "sql/data.sql", true, false);
    expect_create(&acts[2], "alice");
    expect_script(&acts[3], "sql/api.sql", false, false);
    expect_set_version(&acts[4], "1.2.0");
}

#[test]
fn reset_is_two_drops_then_initialize() {
    let db = database("1.2.0");
    let acts = db.reset_plan();
    assert_eq!(acts.len(), 7);
    expect_drop(&acts[0], "alice");
    expect_drop(&acts[1], "data");
    expect_create(&acts[2], "data");
    expect_script(&acts[3], "sql/data.sql", true, false);
    expect_create(&acts[4], "alice");
    expect_script(&acts[5], "sql/api.sql", false, false);
    expect_set_version(&acts[6], "1.2.0");
}

#[test]
fn query_command_lines_carry_the_standard_flags() {
    let db = database("1.2.0");
    let c = db.command(&Action::DropSchema { name: "alice".to_string() });
    assert_eq!(c.program, "psql");
    assert_eq!(
        c.args,
        vec![
            "--quiet",
            "--tuples-only",
            "--no-align",
            "--no-psqlrc",
            "--set=ON_ERROR_STOP=1",
            "--command",
            "DROP SCHEMA IF EXISTS alice CASCADE",
            "--dbname",
            db.connection.as_str(),
        ]
    );
}

#[test]
fn migration_scripts_run_pinned_inside_one_transaction() {
    let db = database("1.2.0");
    let c = db.command(&Action::RunScript {
        path: "sql/migration/1.1.0.sql".to_string(),
        pin_data: true,
        single_txn: true,
    });
    assert_eq!(
        c.args[5..],
        [
            "--command".to_string(),
            "SET search_path TO data".to_string(),
            "--single-transaction".to_string(),
            "--file".to_string(),
            "sql/migration/1.1.0.sql".to_string(),
            "--dbname".to_string(),
            db.connection.clone(),
        ]
    );
}

#[test]
fn setting_the_version_redefines_the_marker_function() {
    let db = database("1.2.0");
    let c = db.command(&Action::SetVersion { version: v("1.1.0") });
    assert_eq!(
        c.args[6],
        "CREATE OR REPLACE FUNCTION data.schema_version() RETURNS text AS $$ \
         BEGIN RETURN '1.1.0'; END; $$ IMMUTABLE LANGUAGE plpgsql"
    );
}

#[test]
fn the_probe_and_the_read_use_the_documented_statements() {
    let db = database("1.2.0");
    match db.version_probe_action() {
        Action::Query { sql } => assert_eq!(
            sql,
            "SELECT exists(SELECT * FROM pg_proc WHERE proname = 'schema_version')"
        ),
        _ => panic!("expected a statement"),
    }
    match db.version_value_action() {
        Action::Query { sql } => assert_eq!(sql, "SELECT data.schema_version()"),
        _ => panic!("expected a statement"),
    }
}

#[test]
fn dump_and_restore_command_lines() {
    let db = database("1.2.0");
    let d = db.dump_command("backup.dump");
    assert_eq!(d.program, "pg_dump");
    assert_eq!(
        d.args,
        vec!["--format", "custom", "--file", "backup.dump", "--dbname", db.connection.as_str()]
    );
    let r = db.restore_command("backup.dump");
    assert_eq!(r.program, "pg_restore");
    assert_eq!(
        r.args,
        vec!["--clean", "--create", "--if-exists", "backup.dump", "--dbname", db.connection.as_str()]
    );
}

#[test]
fn exists_probe_output_reads_t_or_f() {
    assert_eq!(parse_exists_output("t").unwrap(), true);
    assert_eq!(parse_exists_output("f").unwrap(), false);
    match parse_exists_output("maybe") {
        Err(EngineError::UnexpectedExistsOutput { output }) => assert_eq!(output, "maybe"),
        _ => panic!("expected an unexpected-output error"),
    }
}

#[test]
fn marker_output_must_be_a_version() {
    let p = parse_version_output("1.4.2").unwrap();
    assert_eq!((p.major, p.minor, p.patch), (1, 4, 2));
    match parse_version_output("garbage") {
        Err(EngineError::CorruptVersionMarker { output }) => assert_eq!(output, "garbage"),
        _ => panic!("expected a corrupt-marker error"),
    }
}

#[test]
fn connection_parameters_are_looked_up_by_key() {
    let mut params = ConnectionParameters::new(vec![
        ("host".to_string(), "db.example".to_string()),
        ("user".to_string(), "alice".to_string()),
    ]);
    assert_eq!(params.get("user").unwrap(), "alice");
    assert_eq!(params.get("host").unwrap(), "db.example");
    assert!(params.get("port").is_none());
    params.params_mut().push(("port".to_string(), "5432".to_string()));
    assert_eq!(params.get("port").unwrap(), "5432");
    assert_eq!(params.params().len(), 3);
}

#[test]
fn the_url_encodes_the_parameters() {
    let params = ConnectionParameters::new(vec![(
        "user".to_string(),
        "al ice".to_string(),
    )]);
    let url = params.as_url();
    assert_eq!(url.scheme(), "postgresql");
    assert!(url.as_str().contains("user=al%20ice") || url.as_str().contains("user=al+ice"));
}

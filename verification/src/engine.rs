//! The engine: plans of actions for every operation, and the exact command
//! lines they turn into.
//!
//! Each operation (migrate, initialize, reset, check-and-apply) is decided
//! here as a plan: an ordered list of [`Action`] values. The embedding
//! program reads the persisted version and the migration directory, hands
//! both in as plain values, gets the plan, and runs one command per action,
//! stopping at the first failure. Applying a migration script and advancing
//! the version marker right after it are adjacent actions of the plan, so
//! the marker always names the next script still to run: an interrupted run
//! leaves it at the script whose transaction rolled back, and the resolver
//! selects that script again, so a re-invocation resumes there without
//! re-running the scripts already applied.

use vstd::prelude::*;
use vstd::string::*;
use crate::error::EngineError;
use crate::options::{connection_url, connection_url_of, lookup, Options, PgDump, PgRestore, Psql};
use crate::resolve::{
    covers_entries, from_entries, is_candidate, parsed_version, resolve_migrations, selected,
    sorted_strict, stem_of, well_named, DirEntry, Migration, MigrationView,
};
use crate::version::{
    round_trips, semver_parse, spec_eq, spec_lt, spec_version_text, spec_zero, Version,
    VersionView,
};

verus! {

/// One step of a plan, to be run against the database by the query tool.
pub enum Action {
    /// `CREATE SCHEMA <name>`.
    CreateSchema { name: String },
    /// `DROP SCHEMA IF EXISTS <name> CASCADE`.
    DropSchema { name: String },
    /// Run a SQL script file; optionally pinned to the data schema's search
    /// path, optionally inside a single transaction.
    RunScript { path: String, pin_data: bool, single_txn: bool },
    /// Persist the version marker: redefine the marker function to return
    /// the version's text.
    SetVersion { version: Version },
    /// Run one SQL statement.
    Query { sql: String },
}

/// Spec-level value of an action.
pub enum ActionView {
    CreateSchema { name: Seq<char> },
    DropSchema { name: Seq<char> },
    RunScript { path: Seq<char>, pin_data: bool, single_txn: bool },
    SetVersion { version: VersionView },
    Query { sql: Seq<char> },
}

impl View for Action {
    type V = ActionView;

    open spec fn view(&self) -> ActionView {
        match self {
            Action::CreateSchema { name } => ActionView::CreateSchema { name: name@ },
            Action::DropSchema { name } => ActionView::DropSchema { name: name@ },
            Action::RunScript { path, pin_data, single_txn } => ActionView::RunScript {
                path: path@,
                pin_data: *pin_data,
                single_txn: *single_txn,
            },
            Action::SetVersion { version } => ActionView::SetVersion { version: version@ },
            Action::Query { sql } => ActionView::Query { sql: sql@ },
        }
    }
}

/// A command line: the program to spawn and its arguments, in order.
pub struct Command {
    pub program: String,
    pub args: Vec<String>,
}

/// Spec-level value of a command line.
pub struct CommandView {
    pub program: Seq<char>,
    pub args: Seq<Seq<char>>,
}

/// The views of a list of strings.
pub open spec fn strs_view(s: Seq<String>) -> Seq<Seq<char>> {
    s.map_values(|x: String| x@)
}

impl View for Command {
    type V = CommandView;

    open spec fn view(&self) -> CommandView {
        CommandView { program: self.program@, args: strs_view(self.args@) }
    }
}

/// The views of a list of actions.
pub open spec fn acts_view(s: Seq<Action>) -> Seq<ActionView> {
    s.map_values(|a: Action| a@)
}

/// The views of a list of migrations.
pub open spec fn mig_views(s: Seq<Migration>) -> Seq<MigrationView> {
    s.map_values(|m: Migration| m@)
}

/// `dir/name`.
pub open spec fn joined(dir: Seq<char>, name: Seq<char>) -> Seq<char> {
    dir + seq!['/'] + name
}

/// The statement creating a schema.
pub open spec fn sql_create_schema(name: Seq<char>) -> Seq<char> {
    "CREATE SCHEMA "@ + name
}

/// The statement dropping a schema, tolerant of its absence.
pub open spec fn sql_drop_schema(name: Seq<char>) -> Seq<char> {
    "DROP SCHEMA IF EXISTS "@ + name + " CASCADE"@
}

/// The statement redefining the marker function to return the version text.
pub open spec fn sql_set_version(v: VersionView) -> Seq<char> {
    "CREATE OR REPLACE FUNCTION data.schema_version() RETURNS text AS $$ BEGIN RETURN '"@
        + spec_version_text(v) + "'; END; $$ IMMUTABLE LANGUAGE plpgsql"@
}

/// The statement probing whether the marker function exists.
pub open spec fn sql_version_probe() -> Seq<char> {
    "SELECT exists(SELECT * FROM pg_proc WHERE proname = 'schema_version')"@
}

/// The statement reading the marker function's value.
pub open spec fn sql_version_value() -> Seq<char> {
    "SELECT data.schema_version()"@
}

/// The arguments specific to one action, between the query tool's base
/// arguments and the connection argument.
pub open spec fn spec_action_args(a: ActionView) -> Seq<Seq<char>> {
    match a {
        ActionView::CreateSchema { name } => seq!["--command"@, sql_create_schema(name)],
        ActionView::DropSchema { name } => seq!["--command"@, sql_drop_schema(name)],
        ActionView::RunScript { path, pin_data, single_txn } => (if pin_data {
            seq!["--command"@, "SET search_path TO data"@]
        } else {
            Seq::<Seq<char>>::empty()
        }) + (if single_txn {
            seq!["--single-transaction"@]
        } else {
            Seq::<Seq<char>>::empty()
        }) + seq!["--file"@, path],
        ActionView::SetVersion { version } => seq!["--command"@, sql_set_version(version)],
        ActionView::Query { sql } => seq!["--command"@, sql],
    }
}

/// The whole argument list of the query tool for one action.
pub open spec fn spec_psql_args(a: ActionView, connection: Seq<char>) -> Seq<Seq<char>> {
    seq!["--quiet"@, "--tuples-only"@, "--no-align"@, "--no-psqlrc"@, "--set=ON_ERROR_STOP=1"@]
        + spec_action_args(a) + seq!["--dbname"@, connection]
}

/// `dir/name`.
pub fn join_path(dir: &str, name: &str) -> (r: String)
    ensures
        r@ == joined(dir@, name@),
{
    proof {
        reveal_strlit("/");
    }
    let mut s = String::from_str(dir);
    s.append("/");
    s.append(name);
    assert(s@ =~= joined(dir@, name@));
    s
}

/// The engine: the target application version, the two schema names, the
/// connection URL, the tool paths and the SQL script directory, all fixed at
/// construction.
#[derive(Debug)]
pub struct Database {
    pub version: Version,
    pub api_schema: String,
    pub connection: String,
    pub psql: Psql,
    pub pg_dump: PgDump,
    pub pg_restore: PgRestore,
    pub sql_directory: String,
}

/// Spec-level value of the engine's configuration.
pub struct DatabaseView {
    pub version: VersionView,
    pub api_schema: Seq<char>,
    pub connection: Seq<char>,
    pub psql: Seq<char>,
    pub pg_dump: Seq<char>,
    pub pg_restore: Seq<char>,
    pub sql_directory: Seq<char>,
}

impl View for Database {
    type V = DatabaseView;

    open spec fn view(&self) -> DatabaseView {
        DatabaseView {
            version: self.version@,
            api_schema: self.api_schema@,
            connection: self.connection@,
            psql: self.psql@,
            pg_dump: self.pg_dump@,
            pg_restore: self.pg_restore@,
            sql_directory: self.sql_directory@,
        }
    }
}

/// The rebuild tail shared by migrate and initialize: recreate the api
/// schema, run the canonical api script, and set the marker to the target.
pub open spec fn spec_update_tail(db: DatabaseView) -> Seq<ActionView> {
    seq![
        ActionView::CreateSchema { name: db.api_schema },
        ActionView::RunScript {
            path: joined(db.sql_directory, "api.sql"@),
            pin_data: false,
            single_txn: false,
        },
        ActionView::SetVersion { version: db.version },
    ]
}

/// The migration pairs: each script inside one transaction, pinned to the
/// data schema, followed by the marker set to the next pending version, or
/// to the target after the last script.
pub open spec fn spec_migration_actions(ms: Seq<MigrationView>, db: DatabaseView) -> Seq<
    ActionView,
>
    decreases ms.len(),
{
    if ms.len() == 0 {
        Seq::empty()
    } else {
        let next = if ms.len() == 1 {
            db.version
        } else {
            ms[1].version
        };
        seq![
            ActionView::RunScript {
                path: joined(joined(db.sql_directory, "migration"@), ms[0].file_name),
                pin_data: true,
                single_txn: true,
            },
            ActionView::SetVersion { version: next },
        ] + spec_migration_actions(ms.skip(1), db)
    }
}

/// The whole migrate plan: drop the api schema, apply the migrations, then
/// the rebuild tail.
pub open spec fn spec_migrate_plan(ms: Seq<MigrationView>, db: DatabaseView) -> Seq<ActionView> {
    seq![ActionView::DropSchema { name: db.api_schema }] + spec_migration_actions(ms, db)
        + spec_update_tail(db)
}

/// The initialize plan: create the data schema, run the canonical data
/// script pinned to it, then the rebuild tail.
pub open spec fn spec_init_plan(db: DatabaseView) -> Seq<ActionView> {
    seq![
        ActionView::CreateSchema { name: "data"@ },
        ActionView::RunScript {
            path: joined(db.sql_directory, "data.sql"@),
            pin_data: true,
            single_txn: false,
        },
    ] + spec_update_tail(db)
}

/// The reset plan: drop both schemas, then initialize.
pub open spec fn spec_reset_plan(db: DatabaseView) -> Seq<ActionView> {
    seq![
        ActionView::DropSchema { name: db.api_schema },
        ActionView::DropSchema { name: "data"@ },
    ] + spec_init_plan(db)
}

/// The current version a plan starts from: the parsed marker, or zero where
/// none is recorded.
pub open spec fn spec_current(current: Option<&Version>) -> VersionView {
    match current {
        Some(v) => v@,
        None => spec_zero(),
    }
}

/// The migration directory as the embedding program found it.
pub enum DirListing {
    /// The directory does not exist: nothing to migrate, not an error.
    Missing,
    /// The path exists but is not a directory: an error.
    NotADirectory,
    /// The directory's entries.
    Entries(Vec<DirEntry>),
}

/// Spec-level value of a directory listing.
pub enum DirListingView {
    Missing,
    NotADirectory,
    Entries(Seq<DirEntry>),
}

impl View for DirListing {
    type V = DirListingView;

    open spec fn view(&self) -> DirListingView {
        match self {
            DirListing::Missing => DirListingView::Missing,
            DirListing::NotADirectory => DirListingView::NotADirectory,
            DirListing::Entries(es) => DirListingView::Entries(es@),
        }
    }
}

/// What a successful migrate plan holds, out of a current version and a
/// directory listing: no downgrade, and the drop-migrate-rebuild actions
/// over some migration list that resolves from the listing.
pub open spec fn migrate_plan_ok(
    db: DatabaseView,
    curv: VersionView,
    listing: DirListingView,
    acts: Seq<ActionView>,
) -> bool {
    &&& !spec_lt(db.version, curv)
    &&& if spec_eq(curv, db.version) {
        acts == spec_migrate_plan(Seq::<MigrationView>::empty(), db)
    } else {
        match listing {
            DirListingView::Missing => acts == spec_migrate_plan(Seq::<MigrationView>::empty(), db),
            DirListingView::NotADirectory => false,
            DirListingView::Entries(es) => exists|ms: Seq<Migration>|
                {
                    &&& #[trigger] sorted_strict(ms)
                    &&& forall|k: int| 0 <= k < es.len() ==> well_named(#[trigger] es[k]@)
                    &&& from_entries(es, ms, curv, db.version, es.len() as int)
                    &&& covers_entries(es, ms, curv, db.version, es.len() as int)
                    &&& forall|i: int| 0 <= i < ms.len() ==> round_trips((#[trigger] ms[i])@.version)
                    &&& acts == spec_migrate_plan(mig_views(ms), db)
                },
        }
    }
}

/// On what inputs a migrate plan fails with each error.
pub open spec fn migrate_plan_err(
    db: DatabaseView,
    curv: VersionView,
    listing: DirListingView,
    e: EngineError,
) -> bool {
    match e {
        EngineError::Downgrade { current, target } => {
            &&& spec_lt(db.version, curv)
            &&& current@ == curv
            &&& target@ == db.version
        },
        EngineError::NotADirectory => {
            &&& !spec_lt(db.version, curv)
            &&& !spec_eq(curv, db.version)
            &&& listing is NotADirectory
        },
        EngineError::InvalidMigrationName { file_name } => {
            &&& !spec_lt(db.version, curv)
            &&& !spec_eq(curv, db.version)
            &&& listing is Entries
            &&& exists|k: int|
                0 <= k < listing->Entries_0.len() && is_candidate(
                    #[trigger] listing->Entries_0[k]@,
                ) && semver_parse(stem_of(listing->Entries_0[k]@.name)) is None && file_name@
                    == listing->Entries_0[k]@.name
        },
        EngineError::DuplicateVersion { file_name } => {
            &&& !spec_lt(db.version, curv)
            &&& !spec_eq(curv, db.version)
            &&& listing is Entries
            &&& exists|k1: int, k2: int|
                0 <= k1 < listing->Entries_0.len() && 0 <= k2 < listing->Entries_0.len() && k1
                    != k2 && selected(#[trigger] listing->Entries_0[k1]@, curv, db.version)
                    && selected(#[trigger] listing->Entries_0[k2]@, curv, db.version) && spec_eq(
                    parsed_version(listing->Entries_0[k1]@),
                    parsed_version(listing->Entries_0[k2]@),
                ) && file_name@ == listing->Entries_0[k2]@.name
        },
        _ => false,
    }
}

impl Database {
    /// Build the engine: parse the target application version and take the
    /// api schema's name from the `user` connection parameter.
    pub fn new(app_version: &str, options: Options) -> (r: Result<Database, EngineError>)
        ensures
            match r {
                Ok(db) => {
                    &&& semver_parse(app_version@) is Some
                    &&& db@.version == semver_parse(app_version@).unwrap()
                    &&& round_trips(db@.version)
                    &&& lookup(options.connection.0@, "user"@) is Some
                    &&& db@.api_schema == lookup(options.connection.0@, "user"@).unwrap()
                    &&& db@.connection == connection_url_of(options.connection.0@)
                    &&& db@.psql == options.psql@
                    &&& db@.pg_dump == options.pg_dump@
                    &&& db@.pg_restore == options.pg_restore@
                    &&& db@.sql_directory == options.sql_directory@
                },
                Err(e) => match e {
                    EngineError::InvalidAppVersion { input } => semver_parse(app_version@) is None
                        && input@ == app_version@,
                    EngineError::MissingUser => semver_parse(app_version@) is Some && lookup(
                        options.connection.0@,
                        "user"@,
                    ) is None,
                    _ => false,
                },
            },
    {
        let version = match Version::parse(app_version) {
            None => {
                return Err(EngineError::InvalidAppVersion { input: app_version.to_owned() });
            },
            Some(v) => v,
        };
        proof {
            reveal_strlit("user");
        }
        let api_schema = match options.connection.get("user") {
            None => {
                return Err(EngineError::MissingUser);
            },
            Some(u) => u.clone(),
        };
        let connection = connection_url(&options.connection.0);
        Ok(
            Database {
                version,
                api_schema,
                connection,
                psql: Psql(options.psql.0.clone()),
                pg_dump: PgDump(options.pg_dump.0.clone()),
                pg_restore: PgRestore(options.pg_restore.0.clone()),
                sql_directory: options.sql_directory.to_owned(),
            },
        )
    }

    /// The command line running one action through the query tool.
    pub fn command(&self, action: &Action) -> (c: Command)
        ensures
            c@.program == self@.psql,
            c@.args == spec_psql_args(action@, self@.connection),
    {
        proof {
            reveal_strlit("--quiet");
            reveal_strlit("--tuples-only");
            reveal_strlit("--no-align");
            reveal_strlit("--no-psqlrc");
            reveal_strlit("--set=ON_ERROR_STOP=1");
            reveal_strlit("--command");
            reveal_strlit("--single-transaction");
            reveal_strlit("--file");
            reveal_strlit("--dbname");
            reveal_strlit("SET search_path TO data");
            reveal_strlit("CREATE SCHEMA ");
            reveal_strlit("DROP SCHEMA IF EXISTS ");
            reveal_strlit(" CASCADE");
        }
        let mut args: Vec<String> = Vec::new();
        args.push(String::from_str("--quiet"));
        args.push(String::from_str("--tuples-only"));
        args.push(String::from_str("--no-align"));
        args.push(String::from_str("--no-psqlrc"));
        args.push(String::from_str("--set=ON_ERROR_STOP=1"));
        match action {
            Action::CreateSchema { name } => {
                args.push(String::from_str("--command"));
                let mut sql = String::from_str("CREATE SCHEMA ");
                sql.append(name.as_str());
                args.push(sql);
            },
            Action::DropSchema { name } => {
                args.push(String::from_str("--command"));
                let mut sql = String::from_str("DROP SCHEMA IF EXISTS ");
                sql.append(name.as_str());
                sql.append(" CASCADE");
                args.push(sql);
            },
            Action::RunScript { path, pin_data, single_txn } => {
                if *pin_data {
                    args.push(String::from_str("--command"));
                    args.push(String::from_str("SET search_path TO data"));
                }
                if *single_txn {
                    args.push(String::from_str("--single-transaction"));
                }
                args.push(String::from_str("--file"));
                args.push(path.clone());
            },
            Action::SetVersion { version } => {
                args.push(String::from_str("--command"));
                args.push(set_version_sql(version));
            },
            Action::Query { sql } => {
                args.push(String::from_str("--command"));
                args.push(sql.clone());
            },
        }
        args.push(String::from_str("--dbname"));
        args.push(self.connection.clone());
        let c = Command { program: self.psql.0.clone(), args };
        assert(c@.args =~~= spec_psql_args(action@, self@.connection));
        c
    }

    /// The command line of the dump tool: custom format to the given file.
    pub fn dump_command(&self, path: &str) -> (c: Command)
        ensures
            c@.program == self@.pg_dump,
            c@.args == seq![
                "--format"@,
                "custom"@,
                "--file"@,
                path@,
                "--dbname"@,
                self@.connection,
            ],
    {
        proof {
            reveal_strlit("--format");
            reveal_strlit("custom");
            reveal_strlit("--file");
            reveal_strlit("--dbname");
        }
        let mut args: Vec<String> = Vec::new();
        args.push(String::from_str("--format"));
        args.push(String::from_str("custom"));
        args.push(String::from_str("--file"));
        args.push(path.to_owned());
        args.push(String::from_str("--dbname"));
        args.push(self.connection.clone());
        let c = Command { program: self.pg_dump.0.clone(), args };
        assert(c@.args =~~= seq![
            "--format"@,
            "custom"@,
            "--file"@,
            path@,
            "--dbname"@,
            self@.connection,
        ]);
        c
    }

    /// The command line of the restore tool against the given file.
    pub fn restore_command(&self, path: &str) -> (c: Command)
        ensures
            c@.program == self@.pg_restore,
            c@.args == seq![
                "--clean"@,
                "--create"@,
                "--if-exists"@,
                path@,
                "--dbname"@,
                self@.connection,
            ],
    {
        proof {
            reveal_strlit("--clean");
            reveal_strlit("--create");
            reveal_strlit("--if-exists");
            reveal_strlit("--dbname");
        }
        let mut args: Vec<String> = Vec::new();
        args.push(String::from_str("--clean"));
        args.push(String::from_str("--create"));
        args.push(String::from_str("--if-exists"));
        args.push(path.to_owned());
        args.push(String::from_str("--dbname"));
        args.push(self.connection.clone());
        let c = Command { program: self.pg_restore.0.clone(), args };
        assert(c@.args =~~= seq![
            "--clean"@,
            "--create"@,
            "--if-exists"@,
            path@,
            "--dbname"@,
            self@.connection,
        ]);
        c
    }

    /// The statement refreshing the planner's statistics after a restore.
    pub fn analyze_action(&self) -> (a: Action)
        ensures
            a@ == (ActionView::Query { sql: "ANALYZE"@ }),
    {
        Action::Query { sql: String::from_str("ANALYZE") }
    }

    /// The probe for the marker function's existence.
    pub fn version_probe_action(&self) -> (a: Action)
        ensures
            a@ == (ActionView::Query { sql: sql_version_probe() }),
    {
        Action::Query {
            sql: String::from_str(
                "SELECT exists(SELECT * FROM pg_proc WHERE proname = 'schema_version')",
            ),
        }
    }

    /// The read of the marker function's value.
    pub fn version_value_action(&self) -> (a: Action)
        ensures
            a@ == (ActionView::Query { sql: sql_version_value() }),
    {
        Action::Query { sql: String::from_str("SELECT data.schema_version()") }
    }
}

impl Database {
    /// The rebuild tail: recreate the api schema, run the canonical api
    /// script, set the marker to the target version.
    pub fn update_tail(&self) -> (acts: Vec<Action>)
        ensures
            acts_view(acts@) == spec_update_tail(self@),
    {
        proof {
            reveal_strlit("api.sql");
        }
        let mut acts: Vec<Action> = Vec::new();
        acts.push(Action::CreateSchema { name: self.api_schema.clone() });
        acts.push(
            Action::RunScript {
                path: join_path(self.sql_directory.as_str(), "api.sql"),
                pin_data: false,
                single_txn: false,
            },
        );
        acts.push(Action::SetVersion { version: self.version.duplicate() });
        assert(acts_view(acts@) =~= spec_update_tail(self@));
        acts
    }

    /// The initialize plan: create the data schema, run the canonical data
    /// script pinned to it, then the rebuild tail.
    pub fn init_plan(&self) -> (acts: Vec<Action>)
        ensures
            acts_view(acts@) == spec_init_plan(self@),
    {
        proof {
            reveal_strlit("data");
            reveal_strlit("data.sql");
        }
        let mut acts: Vec<Action> = Vec::new();
        acts.push(Action::CreateSchema { name: String::from_str("data") });
        acts.push(
            Action::RunScript {
                path: join_path(self.sql_directory.as_str(), "data.sql"),
                pin_data: true,
                single_txn: false,
            },
        );
        let mut tail = self.update_tail();
        acts.append(&mut tail);
        assert(acts_view(acts@) =~= spec_init_plan(self@));
        acts
    }

    /// The reset plan: drop both schemas, then initialize from nothing.
    pub fn reset_plan(&self) -> (acts: Vec<Action>)
        ensures
            acts_view(acts@) == spec_reset_plan(self@),
    {
        proof {
            reveal_strlit("data");
        }
        let mut acts: Vec<Action> = Vec::new();
        acts.push(Action::DropSchema { name: self.api_schema.clone() });
        acts.push(Action::DropSchema { name: String::from_str("data") });
        let mut init = self.init_plan();
        acts.append(&mut init);
        assert(acts_view(acts@) =~= spec_reset_plan(self@));
        acts
    }

    /// The migration pairs of a resolved list: each script, then the marker
    /// advanced to the next pending version or to the target.
    pub fn migration_actions(&self, migrations: &Vec<Migration>) -> (acts: Vec<Action>)
        ensures
            acts_view(acts@) == spec_migration_actions(mig_views(migrations@), self@),
    {
        proof {
            reveal_strlit("migration");
        }
        let mig_dir = join_path(self.sql_directory.as_str(), "migration");
        let mut acts: Vec<Action> = Vec::new();
        let n = migrations.len();
        let mut i: usize = 0;
        proof {
            assert(mig_views(migrations@).skip(0) =~= mig_views(migrations@));
            assert(acts_view(acts@) =~= Seq::<ActionView>::empty());
            assert(acts_view(acts@) + spec_migration_actions(mig_views(migrations@), self@)
                =~= spec_migration_actions(mig_views(migrations@), self@));
        }
        while i < n
            invariant
                i <= n,
                n == migrations@.len(),
                mig_dir@ == joined(self@.sql_directory, "migration"@),
                acts_view(acts@) + spec_migration_actions(
                    mig_views(migrations@).skip(i as int),
                    self@,
                ) == spec_migration_actions(mig_views(migrations@), self@),
            decreases n - i,
        {
            let ghost pre = acts_view(acts@);
            let ghost suffix = mig_views(migrations@).skip(i as int);
            acts.push(
                Action::RunScript {
                    path: join_path(mig_dir.as_str(), migrations[i].file_name.as_str()),
                    pin_data: true,
                    single_txn: true,
                },
            );
            let next = if i + 1 < n {
                migrations[i + 1].version.duplicate()
            } else {
                self.version.duplicate()
            };
            acts.push(Action::SetVersion { version: next });
            i = i + 1;
            proof {
                assert(suffix[0] == mig_views(migrations@)[i - 1]);
                assert(suffix.skip(1) =~= mig_views(migrations@).skip(i as int));
                assert(acts_view(acts@) =~= pre + spec_migration_actions(suffix, self@).take(2));
                assert(spec_migration_actions(suffix, self@) =~= spec_migration_actions(
                    suffix,
                    self@,
                ).take(2) + spec_migration_actions(suffix.skip(1), self@));
                assert(acts_view(acts@) + spec_migration_actions(
                    mig_views(migrations@).skip(i as int),
                    self@,
                ) =~= spec_migration_actions(mig_views(migrations@), self@));
            }
        }
        proof {
            assert(mig_views(migrations@).skip(n as int) =~= Seq::<MigrationView>::empty());
            assert(acts_view(acts@) =~= acts_view(acts@) + spec_migration_actions(
                Seq::<MigrationView>::empty(),
                self@,
            ));
        }
        acts
    }

    /// The migrate plan for a current version and a directory listing: drop
    /// the api schema, apply the resolved migrations, rebuild. Where the
    /// current version equals the target the directory is not read; where it
    /// exceeds the target, the downgrade is refused before anything runs.
    pub fn migrate_plan(&self, current: Option<&Version>, listing: &DirListing) -> (r: Result<
        Vec<Action>,
        EngineError,
    >)
        ensures
            match r {
                Ok(acts) => migrate_plan_ok(
                    self@,
                    spec_current(current),
                    listing@,
                    acts_view(acts@),
                ),
                Err(e) => migrate_plan_err(self@, spec_current(current), listing@, e),
            },
    {
        let zero = Version::zero();
        let cur: &Version = match current {
            Some(v) => v,
            None => &zero,
        };
        assert(cur@ == spec_current(current));
        if cur.eq_prec(&self.version) {
            let mut acts: Vec<Action> = Vec::new();
            acts.push(Action::DropSchema { name: self.api_schema.clone() });
            let mut tail = self.update_tail();
            acts.append(&mut tail);
            proof {
                crate::version::lemma_order_irrefl(cur@, self@.version);
                crate::version::lemma_order_irrefl(self@.version, cur@);
                assert(acts_view(acts@) =~= spec_migrate_plan(
                    Seq::<MigrationView>::empty(),
                    self@,
                ));
            }
            return Ok(acts);
        }
        if self.version.lt(cur) {
            return Err(
                EngineError::Downgrade {
                    current: cur.duplicate(),
                    target: self.version.duplicate(),
                },
            );
        }
        let ms: Vec<Migration> = match listing {
            DirListing::Missing => Vec::new(),
            DirListing::NotADirectory => {
                return Err(EngineError::NotADirectory);
            },
            DirListing::Entries(es) => {
                match resolve_migrations(es, cur, &self.version) {
                    Err(e) => {
                        return Err(e);
                    },
                    Ok(ms) => ms,
                }
            },
        };
        let mut acts: Vec<Action> = Vec::new();
        acts.push(Action::DropSchema { name: self.api_schema.clone() });
        let mut mig = self.migration_actions(&ms);
        acts.append(&mut mig);
        let mut tail = self.update_tail();
        acts.append(&mut tail);
        proof {
            assert(acts_view(acts@) =~= spec_migrate_plan(mig_views(ms@), self@));
            if listing@ is Missing {
                assert(mig_views(ms@) =~= Seq::<MigrationView>::empty());
            }
        }
        Ok(acts)
    }

    /// The check-and-apply decision: where the persisted version equals the
    /// target, nothing to do; otherwise the migrate plan.
    pub fn check_plan(&self, current: Option<&Version>, listing: &DirListing) -> (r: Result<
        Vec<Action>,
        EngineError,
    >)
        ensures
            match r {
                Ok(acts) => if current is Some && spec_eq(current.unwrap()@, self@.version) {
                    acts_view(acts@) == Seq::<ActionView>::empty()
                } else {
                    migrate_plan_ok(self@, spec_current(current), listing@, acts_view(acts@))
                },
                Err(e) => !(current is Some && spec_eq(current.unwrap()@, self@.version))
                    && migrate_plan_err(self@, spec_current(current), listing@, e),
            },
    {
        match current {
            Some(v) => {
                if v.eq_prec(&self.version) {
                    let acts: Vec<Action> = Vec::new();
                    assert(acts_view(acts@) =~= Seq::<ActionView>::empty());
                    return Ok(acts);
                }
            },
            None => {},
        }
        self.migrate_plan(current, listing)
    }
}

/// Read the probe's answer: `t` means the marker function exists, `f` that
/// it does not; anything else is refused.
pub fn parse_exists_output(output: &str) -> (r: Result<bool, EngineError>)
    ensures
        match r {
            Ok(b) => (output@ == "t"@ || output@ == "f"@) && (b <==> output@ == "t"@),
            Err(e) => match e {
                EngineError::UnexpectedExistsOutput { output: o } => output@ != "t"@ && output@
                    != "f"@ && o@ == output@,
                _ => false,
            },
        },
{
    proof {
        reveal_strlit("t");
        reveal_strlit("f");
    }
    if crate::options::str_eq(output, "t") {
        Ok(true)
    } else if crate::options::str_eq(output, "f") {
        Ok(false)
    } else {
        Err(EngineError::UnexpectedExistsOutput { output: output.to_owned() })
    }
}

/// Read the marker function's value as a version; a non-version text means
/// the marker is corrupt. With the marker written as a version's rendered
/// text (`sql_set_version`), this reads back exactly the version written:
/// rendering and parsing are inverse on parsed versions.
pub fn parse_version_output(output: &str) -> (r: Result<Version, EngineError>)
    ensures
        match r {
            Ok(v) => semver_parse(output@) is Some && v@ == semver_parse(output@).unwrap()
                && round_trips(v@),
            Err(e) => match e {
                EngineError::CorruptVersionMarker { output: o } => semver_parse(output@) is None
                    && o@ == output@,
                _ => false,
            },
        },
{
    match Version::parse(output) {
        Some(v) => Ok(v),
        None => Err(EngineError::CorruptVersionMarker { output: output.to_owned() }),
    }
}

/// The marker-function statement for a version.
fn set_version_sql(v: &Version) -> (r: String)
    ensures
        r@ == sql_set_version(v@),
{
    proof {
        reveal_strlit(
            "CREATE OR REPLACE FUNCTION data.schema_version() RETURNS text AS $$ BEGIN RETURN '",
        );
        reveal_strlit("'; END; $$ IMMUTABLE LANGUAGE plpgsql");
    }
    let mut s = String::from_str(
        "CREATE OR REPLACE FUNCTION data.schema_version() RETURNS text AS $$ BEGIN RETURN '",
    );
    let t = v.to_text();
    s.append(t.as_str());
    s.append("'; END; $$ IMMUTABLE LANGUAGE plpgsql");
    assert(s@ =~= sql_set_version(v@));
    s
}

} // verus!

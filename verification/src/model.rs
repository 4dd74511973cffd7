//! The abstract database: what a plan's actions do to the schemas, the
//! persisted version marker and the record of scripts run, assuming every
//! action succeeds. The laws of the engine are stated and proved over this
//! model.

use vstd::prelude::*;
use crate::engine::{
    joined, spec_init_plan, spec_migrate_plan, spec_migration_actions, spec_reset_plan,
    spec_update_tail, ActionView, DatabaseView,
};
use crate::resolve::MigrationView;
use crate::version::VersionView;

verus! {

/// An abstract database: the schemas present, the persisted version marker
/// (`None` where the database is uninitialized), and the scripts run so far,
/// in order.
#[verifier::ext_equal]
pub struct DbState {
    pub schemas: Set<Seq<char>>,
    pub marker: Option<VersionView>,
    pub scripts_run: Seq<Seq<char>>,
}

/// What one action does: schema creation and drop change the schema set,
/// running a script appends its path to the record, setting the version
/// replaces the marker, and a plain statement changes nothing modelled here.
pub open spec fn apply_action(s: DbState, a: ActionView) -> DbState {
    match a {
        ActionView::CreateSchema { name } => DbState { schemas: s.schemas.insert(name), ..s },
        ActionView::DropSchema { name } => DbState { schemas: s.schemas.remove(name), ..s },
        ActionView::RunScript { path, pin_data, single_txn } => DbState {
            scripts_run: s.scripts_run.push(path),
            ..s
        },
        ActionView::SetVersion { version } => DbState { marker: Some(version), ..s },
        ActionView::Query { sql } => s,
    }
}

/// The state after a plan's actions, in order.
pub open spec fn run_plan(s: DbState, acts: Seq<ActionView>) -> DbState
    decreases acts.len(),
{
    if acts.len() == 0 {
        s
    } else {
        run_plan(apply_action(s, acts[0]), acts.skip(1))
    }
}

/// Running one plan after another is running their concatenation.
pub proof fn lemma_run_plan_concat(s: DbState, a: Seq<ActionView>, b: Seq<ActionView>)
    ensures
        run_plan(s, a + b) == run_plan(run_plan(s, a), b),
    decreases a.len(),
{
    if a.len() == 0 {
        assert(a + b =~= b);
    } else {
        assert((a + b)[0] == a[0]);
        assert((a + b).skip(1) =~= a.skip(1) + b);
        lemma_run_plan_concat(apply_action(s, a[0]), a.skip(1), b);
    }
}

/// An empty migration list gives an empty action list: the applier leaves
/// the state, the persisted marker included, exactly as it was.
pub proof fn lemma_empty_migrations_change_nothing(db: DatabaseView, s: DbState)
    ensures
        spec_migration_actions(Seq::<MigrationView>::empty(), db) == Seq::<ActionView>::empty(),
        run_plan(s, spec_migration_actions(Seq::<MigrationView>::empty(), db)) == s,
{
}

/// The script paths of a migration list, in order.
pub open spec fn migration_paths(ms: Seq<MigrationView>, db: DatabaseView) -> Seq<Seq<char>> {
    ms.map_values(|m: MigrationView| joined(joined(db.sql_directory, "migration"@), m.file_name))
}

/// The migration pairs run exactly the scripts of the list, in order, touch
/// no schema, and leave the marker at the target where the list is
/// non-empty.
pub proof fn lemma_migration_actions_run(db: DatabaseView, s: DbState, ms: Seq<MigrationView>)
    ensures
        run_plan(s, spec_migration_actions(ms, db)).scripts_run == s.scripts_run
            + migration_paths(ms, db),
        run_plan(s, spec_migration_actions(ms, db)).schemas == s.schemas,
        ms.len() == 0 ==> run_plan(s, spec_migration_actions(ms, db)) == s,
        ms.len() > 0 ==> run_plan(s, spec_migration_actions(ms, db)).marker == Some(db.version),
    decreases ms.len(),
{
    if ms.len() == 0 {
        assert(migration_paths(ms, db) =~= Seq::<Seq<char>>::empty());
        assert(s.scripts_run + migration_paths(ms, db) =~= s.scripts_run);
    } else {
        let next = if ms.len() == 1 {
            db.version
        } else {
            ms[1].version
        };
        let a0 = ActionView::RunScript {
            path: joined(joined(db.sql_directory, "migration"@), ms[0].file_name),
            pin_data: true,
            single_txn: true,
        };
        let a1 = ActionView::SetVersion { version: next };
        let head = seq![a0, a1];
        let rest = spec_migration_actions(ms.skip(1), db);
        assert(spec_migration_actions(ms, db) =~= head + rest);
        lemma_run_plan_concat(s, head, rest);
        let s1 = apply_action(s, a0);
        let s2 = apply_action(s1, a1);
        assert(head.skip(1) =~= seq![a1]);
        assert(seq![a1].skip(1) =~= Seq::<ActionView>::empty());
        assert(run_plan(s, head) == run_plan(s1, seq![a1]));
        assert(run_plan(s1, seq![a1]) == run_plan(s2, Seq::<ActionView>::empty()));
        assert(run_plan(s, head) == s2);
        lemma_migration_actions_run(db, s2, ms.skip(1));
        assert(migration_paths(ms.skip(1), db) =~= migration_paths(ms, db).skip(1));
        assert(run_plan(s, spec_migration_actions(ms, db)).scripts_run =~= s.scripts_run
            + migration_paths(ms, db));
        if ms.len() == 1 {
            assert(ms.skip(1).len() == 0);
            assert(run_plan(s2, rest) == s2);
        }
    }
}

/// After the rebuild tail the api schema is present, the canonical api
/// script has just run, and the marker reads the target version.
pub proof fn lemma_update_tail_run(db: DatabaseView, s: DbState)
    ensures
        run_plan(s, spec_update_tail(db)).schemas == s.schemas.insert(db.api_schema),
        run_plan(s, spec_update_tail(db)).scripts_run == s.scripts_run.push(
            joined(db.sql_directory, "api.sql"@),
        ),
        run_plan(s, spec_update_tail(db)).marker == Some(db.version),
{
    let a = spec_update_tail(db);
    assert(a.skip(1) =~= seq![a[1], a[2]]);
    assert(seq![a[1], a[2]].skip(1) =~= seq![a[2]]);
    assert(seq![a[2]].skip(1) =~= Seq::<ActionView>::empty());
    let s1 = apply_action(s, a[0]);
    let s2 = apply_action(s1, a[1]);
    let s3 = apply_action(s2, a[2]);
    assert(run_plan(s, a) == run_plan(s1, seq![a[1], a[2]]));
    assert(run_plan(s1, seq![a[1], a[2]]) == run_plan(s2, seq![a[2]]));
    assert(run_plan(s2, seq![a[2]]) == run_plan(s3, Seq::<ActionView>::empty()));
    assert(run_plan(s, a) == s3);
}

/// The api schema is absent right after the drop, and present — with the
/// canonical api script just run — after the rebuild tail, whatever state
/// the database was in before.
pub proof fn lemma_api_schema_rebuild(db: DatabaseView, s: DbState)
    ensures
        !apply_action(
            s,
            ActionView::DropSchema { name: db.api_schema },
        ).schemas.contains(db.api_schema),
        run_plan(s, spec_update_tail(db)).schemas.contains(db.api_schema),
        run_plan(s, spec_update_tail(db)).scripts_run.last() == joined(
            db.sql_directory,
            "api.sql"@,
        ),
{
    lemma_update_tail_run(db, s);
}

/// A completed migrate plan leaves the marker exactly at the target
/// version, runs precisely the resolved scripts in order and then the
/// canonical api script, and leaves the api schema present.
pub proof fn lemma_migrate_plan_run(db: DatabaseView, s: DbState, ms: Seq<MigrationView>)
    ensures
        run_plan(s, spec_migrate_plan(ms, db)).marker == Some(db.version),
        run_plan(s, spec_migrate_plan(ms, db)).scripts_run == s.scripts_run
            + migration_paths(ms, db) + seq![joined(db.sql_directory, "api.sql"@)],
        run_plan(s, spec_migrate_plan(ms, db)).schemas == s.schemas.remove(
            db.api_schema,
        ).insert(db.api_schema),
{
    let drop = seq![ActionView::DropSchema { name: db.api_schema }];
    let mig = spec_migration_actions(ms, db);
    let tail = spec_update_tail(db);
    assert(spec_migrate_plan(ms, db) =~= drop + mig + tail);
    lemma_run_plan_concat(s, drop + mig, tail);
    lemma_run_plan_concat(s, drop, mig);
    assert((drop + mig).take(1) =~= drop);
    assert((drop + mig).skip(1) =~= mig);
    assert(drop.skip(1) =~= Seq::<ActionView>::empty());
    let s1 = apply_action(s, drop[0]);
    assert(run_plan(s, drop) == run_plan(s1, Seq::<ActionView>::empty()));
    assert(run_plan(s, drop) == s1);
    lemma_migration_actions_run(db, s1, ms);
    let s2 = run_plan(s1, mig);
    lemma_update_tail_run(db, s2);
    assert(run_plan(s, spec_migrate_plan(ms, db)).scripts_run =~= s.scripts_run
        + migration_paths(ms, db) + seq![joined(db.sql_directory, "api.sql"@)]);
}

/// The full state after initialize: both schemas present, the canonical
/// data and api scripts run in that order, the marker at the target.
pub proof fn lemma_init_plan_run(db: DatabaseView, s: DbState)
    ensures
        run_plan(s, spec_init_plan(db)) == (DbState {
            schemas: s.schemas.insert("data"@).insert(db.api_schema),
            marker: Some(db.version),
            scripts_run: s.scripts_run.push(joined(db.sql_directory, "data.sql"@)).push(
                joined(db.sql_directory, "api.sql"@),
            ),
        }),
{
    let a = spec_init_plan(db);
    let head = seq![a[0], a[1]];
    let tail = spec_update_tail(db);
    assert(a =~= head + tail);
    lemma_run_plan_concat(s, head, tail);
    assert(head.skip(1) =~= seq![a[1]]);
    assert(seq![a[1]].skip(1) =~= Seq::<ActionView>::empty());
    let s1 = apply_action(s, a[0]);
    let s2 = apply_action(s1, a[1]);
    assert(run_plan(s, head) == run_plan(s1, seq![a[1]]));
    assert(run_plan(s1, seq![a[1]]) == run_plan(s2, Seq::<ActionView>::empty()));
    assert(run_plan(s, head) == s2);
    lemma_update_tail_run(db, s2);
    assert(run_plan(s, a) =~= DbState {
        schemas: s.schemas.insert("data"@).insert(db.api_schema),
        marker: Some(db.version),
        scripts_run: s.scripts_run.push(joined(db.sql_directory, "data.sql"@)).push(
            joined(db.sql_directory, "api.sql"@),
        ),
    });
}

/// On a pristine database — no schemas — reset comes to exactly the state
/// initialize comes to, and that state satisfies the check-and-apply no-op
/// condition: the marker reads the target version, so a following
/// check-and-apply does nothing.
pub proof fn lemma_reset_then_check_is_initialize(db: DatabaseView, s: DbState)
    requires
        s.schemas == Set::<Seq<char>>::empty(),
    ensures
        run_plan(s, spec_reset_plan(db)) == run_plan(s, spec_init_plan(db)),
        run_plan(s, spec_reset_plan(db)).marker == Some(db.version),
{
    let drops = seq![
        ActionView::DropSchema { name: db.api_schema },
        ActionView::DropSchema { name: "data"@ },
    ];
    assert(spec_reset_plan(db) =~= drops + spec_init_plan(db));
    lemma_run_plan_concat(s, drops, spec_init_plan(db));
    assert(drops.skip(1) =~= seq![drops[1]]);
    assert(seq![drops[1]].skip(1) =~= Seq::<ActionView>::empty());
    let s1 = apply_action(s, drops[0]);
    let s2 = apply_action(s1, drops[1]);
    assert(s1.schemas =~= s.schemas);
    assert(s2.schemas =~= s.schemas);
    assert(s1 =~= s);
    assert(s2 =~= s);
    assert(run_plan(s, drops) == run_plan(s1, seq![drops[1]]));
    assert(run_plan(s1, seq![drops[1]]) == run_plan(s2, Seq::<ActionView>::empty()));
    assert(run_plan(s, drops) == s);
    lemma_init_plan_run(db, s);
}

} // verus!

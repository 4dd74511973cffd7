//! Migration resolution: which SQL scripts of the migration directory are to
//! be applied, and in what order.
//!
//! Out of a directory listing, the resolver keeps the regular files with the
//! SQL extension, parses each base name as a semantic version, keeps the
//! versions from the current schema version (inclusive) up to, excluding,
//! the target application version, and returns them sorted strictly
//! ascending. The lower bound is inclusive because the marker always names
//! the next script still to run: after an interrupted run the recorded
//! version is that of the script whose transaction rolled back, and a
//! re-invocation must select that script again. A file whose base name is
//! not a version fails the whole resolution; so do two kept files of equal
//! precedence.

use vstd::prelude::*;
use vstd::string::*;
use crate::error::EngineError;
use crate::version::{
    lemma_order_connected, lemma_order_trans, round_trips, semver_parse, spec_eq, spec_lt, Version,
    VersionView,
};

verus! {

/// One entry of the migration directory, as handed in by the embedding
/// program: the file name (not the whole path) and whether the entry is a
/// regular file.
pub struct DirEntry {
    pub name: String,
    pub is_file: bool,
}

/// Spec-level value of a directory entry.
pub struct DirEntryView {
    pub name: Seq<char>,
    pub is_file: bool,
}

impl View for DirEntry {
    type V = DirEntryView;

    open spec fn view(&self) -> DirEntryView {
        DirEntryView { name: self.name@, is_file: self.is_file }
    }
}

/// A resolved migration: the version a script upgrades the schema to, and
/// the script's file name inside the migration directory.
pub struct Migration {
    pub version: Version,
    pub file_name: String,
}

/// Spec-level value of a migration.
pub struct MigrationView {
    pub version: VersionView,
    pub file_name: Seq<char>,
}

impl View for Migration {
    type V = MigrationView;

    open spec fn view(&self) -> MigrationView {
        MigrationView { version: self.version@, file_name: self.file_name@ }
    }
}

/// A name of the form `<stem>.sql` with a non-empty stem.
pub open spec fn is_sql_name(s: Seq<char>) -> bool {
    s.len() > 4 && s[s.len() - 4] == '.' && s[s.len() - 3] == 's' && s[s.len() - 2] == 'q' && s[
        s.len() - 1
    ] == 'l'
}

/// The name with the SQL extension stripped.
pub open spec fn stem_of(s: Seq<char>) -> Seq<char> {
    s.take(s.len() - 4)
}

/// An entry the resolver considers at all: a regular file named `*.sql`.
pub open spec fn is_candidate(e: DirEntryView) -> bool {
    e.is_file && is_sql_name(e.name)
}

/// The version a candidate's name parses to.
pub open spec fn parsed_version(e: DirEntryView) -> VersionView {
    semver_parse(stem_of(e.name)).unwrap()
}

/// A candidate whose name parses as a version.
pub open spec fn well_named(e: DirEntryView) -> bool {
    is_candidate(e) ==> semver_parse(stem_of(e.name)) is Some
}

/// An entry the resolver keeps: a well-named candidate whose version is not
/// below the current version and strictly below the target. A version of
/// exactly the current one is kept: the marker names the next script still
/// to run, so keeping it is what lets an interrupted run resume there.
pub open spec fn selected(e: DirEntryView, cur: VersionView, tgt: VersionView) -> bool {
    is_candidate(e) && semver_parse(stem_of(e.name)) is Some && !spec_lt(parsed_version(e), cur)
        && spec_lt(parsed_version(e), tgt)
}

/// `Some(stem)` exactly where the name is `<stem>.sql` with a non-empty stem.
fn sql_stem(name: &str) -> (r: Option<String>)
    ensures
        r is Some <==> is_sql_name(name@),
        r is Some ==> r.unwrap()@ == stem_of(name@),
{
    let n = name.unicode_len();
    if n <= 4 {
        return None;
    }
    if name.get_char(n - 4) == '.' && name.get_char(n - 3) == 's' && name.get_char(n - 2) == 'q'
        && name.get_char(n - 1) == 'l' {
        let stem = name.substring_char(0, n - 4);
        assert(stem@ =~= stem_of(name@));
        Some(stem.to_owned())
    } else {
        None
    }
}

/// Migrations sorted strictly ascending by precedence.
pub open spec fn sorted_strict(ms: Seq<Migration>) -> bool {
    forall|p: int, q: int| 0 <= p < q < ms.len() ==> spec_lt(ms[p]@.version, ms[q]@.version)
}

/// The migration `m` comes from a selected entry among the first `n`.
pub open spec fn migration_from(
    entries: Seq<DirEntry>,
    m: MigrationView,
    cur: VersionView,
    tgt: VersionView,
    n: int,
) -> bool {
    exists|k: int|
        0 <= k < n && selected(#[trigger] entries[k]@, cur, tgt) && m.file_name == entries[k]@.name
            && m.version == parsed_version(entries[k]@)
}

/// Every migration of `out` comes from a selected entry among the first `n`.
pub open spec fn from_entries(
    entries: Seq<DirEntry>,
    out: Seq<Migration>,
    cur: VersionView,
    tgt: VersionView,
    n: int,
) -> bool {
    forall|p: int| 0 <= p < out.len() ==> migration_from(entries, (#[trigger] out[p])@, cur, tgt, n)
}

/// The entry at `k` stands in `out`, with its parsed version.
pub open spec fn entry_covered(entries: Seq<DirEntry>, k: int, out: Seq<Migration>) -> bool {
    exists|p: int|
        0 <= p < out.len() && (#[trigger] out[p])@.file_name == entries[k]@.name && out[p]@.version
            == parsed_version(entries[k]@)
}

/// Every selected entry among the first `n` stands in `out`.
pub open spec fn covers_entries(
    entries: Seq<DirEntry>,
    out: Seq<Migration>,
    cur: VersionView,
    tgt: VersionView,
    n: int,
) -> bool {
    forall|k: int|
        0 <= k < n && selected(#[trigger] entries[k]@, cur, tgt) ==> entry_covered(entries, k, out)
}

proof fn lemma_migration_from_widen(
    entries: Seq<DirEntry>,
    m: MigrationView,
    cur: VersionView,
    tgt: VersionView,
    n: int,
)
    requires
        migration_from(entries, m, cur, tgt, n),
    ensures
        migration_from(entries, m, cur, tgt, n + 1),
{
    let k = choose|k: int|
        0 <= k < n && selected(#[trigger] entries[k]@, cur, tgt) && m.file_name == entries[k]@.name
            && m.version == parsed_version(entries[k]@);
    assert(0 <= k < n + 1 && selected(entries[k]@, cur, tgt) && m.file_name == entries[k]@.name
        && m.version == parsed_version(entries[k]@));
}

/// Resolve the migrations to apply: out of the directory entries, the
/// regular `*.sql` files whose base names parse as versions from `current`
/// (inclusive) up to, excluding, `target`, sorted strictly ascending by
/// precedence.
///
/// Fails where a candidate's base name is not a version, naming the file,
/// and where two kept files have equal precedence, naming the later one.
#[verifier::rlimit(100)]
pub fn resolve_migrations(entries: &Vec<DirEntry>, current: &Version, target: &Version) -> (r:
    Result<Vec<Migration>, EngineError>)
    ensures
        match r {
            Ok(ms) => {
                &&& forall|k: int| 0 <= k < entries@.len() ==> well_named(#[trigger] entries@[k]@)
                &&& sorted_strict(ms@)
                &&& from_entries(entries@, ms@, current@, target@, entries@.len() as int)
                &&& covers_entries(entries@, ms@, current@, target@, entries@.len() as int)
                &&& forall|i: int| 0 <= i < ms@.len() ==> round_trips((#[trigger] ms@[i])@.version)
            },
            Err(e) => match e {
                EngineError::InvalidMigrationName { file_name } => exists|k: int|
                    0 <= k < entries@.len() && is_candidate(#[trigger] entries@[k]@) && semver_parse(
                        stem_of(entries@[k]@.name),
                    ) is None && file_name@ == entries@[k]@.name,
                EngineError::DuplicateVersion { file_name } => exists|k1: int, k2: int|
                    0 <= k1 < entries@.len() && 0 <= k2 < entries@.len() && k1 != k2 && selected(
                        #[trigger] entries@[k1]@,
                        current@,
                        target@,
                    ) && selected(#[trigger] entries@[k2]@, current@, target@) && spec_eq(
                        parsed_version(entries@[k1]@),
                        parsed_version(entries@[k2]@),
                    ) && file_name@ == entries@[k2]@.name,
                _ => false,
            },
        },
{
    let mut out: Vec<Migration> = Vec::new();
    let mut i: usize = 0;
    while i < entries.len()
        invariant
            i <= entries@.len(),
            forall|k: int| 0 <= k < i ==> well_named(#[trigger] entries@[k]@),
            sorted_strict(out@),
            from_entries(entries@, out@, current@, target@, i as int),
            covers_entries(entries@, out@, current@, target@, i as int),
            forall|p: int| 0 <= p < out@.len() ==> round_trips((#[trigger] out@[p])@.version),
        decreases entries@.len() - i,
    {
        let e = &entries[i];
        let ghost ev = e@;
        if e.is_file {
            match sql_stem(e.name.as_str()) {
                None => {
                    assert(!is_candidate(ev));
                    proof {
                        assert forall|p: int| 0 <= p < out@.len() implies migration_from(
                            entries@,
                            (#[trigger] out@[p])@,
                            current@,
                            target@,
                            i + 1,
                        ) by {
                            lemma_migration_from_widen(
                                entries@,
                                out@[p]@,
                                current@,
                                target@,
                                i as int,
                            );
                        }
                    }
                },
                Some(stem) => {
                    assert(is_candidate(ev));
                    match Version::parse(stem.as_str()) {
                        None => {
                            return Err(
                                EngineError::InvalidMigrationName { file_name: e.name.clone() },
                            );
                        },
                        Some(v) => {
                            assert(v@ == parsed_version(ev));
                            if !v.lt(current) && v.lt(target) {
                                assert(selected(ev, current@, target@));
                                let mut j: usize = 0;
                                loop
                                    invariant
                                        j <= out@.len(),
                                        forall|k: int|
                                            0 <= k < j ==> spec_lt(
                                                (#[trigger] out@[k]@).version,
                                                v@,
                                            ),
                                    ensures
                                        j <= out@.len(),
                                        forall|k: int|
                                            0 <= k < j ==> spec_lt(
                                                (#[trigger] out@[k]@).version,
                                                v@,
                                            ),
                                        j < out@.len() ==> !spec_lt(out@[j as int]@.version, v@),
                                    decreases out@.len() - j,
                                {
                                    if j == out.len() {
                                        break;
                                    }
                                    if !out[j].version.lt(&v) {
                                        break;
                                    }
                                    j = j + 1;
                                }
                                if j < out.len() && out[j].version.eq_prec(&v) {
                                    proof {
                                        assert(migration_from(
                                            entries@,
                                            out@[j as int]@,
                                            current@,
                                            target@,
                                            i as int,
                                        ));
                                        let k1 = choose|k: int|
                                            0 <= k < i && selected(
                                                #[trigger] entries@[k]@,
                                                current@,
                                                target@,
                                            ) && out@[j as int]@.file_name == entries@[k]@.name
                                                && out@[j as int]@.version == parsed_version(
                                                entries@[k]@,
                                            );
                                        assert(selected(entries@[k1]@, current@, target@));
                                        assert(spec_eq(
                                            parsed_version(entries@[k1]@),
                                            parsed_version(entries@[i as int]@),
                                        ));
                                    }
                                    return Err(
                                        EngineError::DuplicateVersion { file_name: e.name.clone() },
                                    );
                                }
                                proof {
                                    // the scan stopped at an element that does not sort below
                                    // v; since it is not of equal precedence, v sorts below it,
                                    // and below everything after it
                                    if (j as int) < out@.len() {
                                        if !spec_lt(v@, out@[j as int]@.version) {
                                            lemma_order_connected(out@[j as int]@.version, v@);
                                            assert(false);
                                        }
                                    }
                                    assert forall|p: int| j <= p < out@.len() implies spec_lt(
                                        v@,
                                        (#[trigger] out@[p]@).version,
                                    ) by {
                                        if p > j {
                                            lemma_order_trans(
                                                v@,
                                                out@[j as int]@.version,
                                                out@[p]@.version,
                                            );
                                        }
                                    }
                                }
                                let ghost old_out = out@;
                                let m = Migration { version: v, file_name: e.name.clone() };
                                let ghost mv = m@;
                                out.insert(j, m);
                                proof {
                                    assert(out@ == old_out.insert(j as int, m));
                                    assert forall|p: int| 0 <= p < out@.len() implies round_trips(
                                        (#[trigger] out@[p])@.version,
                                    ) by {
                                        if p < j {
                                            assert(out@[p] == old_out[p]);
                                        } else if p == j {
                                            assert(out@[p] == m);
                                        } else {
                                            assert(out@[p] == old_out[p - 1]);
                                        }
                                    }
                                    assert forall|p: int, q: int|
                                        0 <= p < q < out@.len() implies spec_lt(
                                        out@[p]@.version,
                                        out@[q]@.version,
                                    ) by {
                                        assert(out@[p] == if p < j {
                                            old_out[p]
                                        } else if p == j {
                                            m
                                        } else {
                                            old_out[p - 1]
                                        });
                                        assert(out@[q] == if q < j {
                                            old_out[q]
                                        } else if q == j {
                                            m
                                        } else {
                                            old_out[q - 1]
                                        });
                                    }
                                    assert(selected(entries@[i as int]@, current@, target@)
                                        && mv.file_name == entries@[i as int]@.name && mv.version
                                        == parsed_version(entries@[i as int]@));
                                    assert(migration_from(entries@, mv, current@, target@, i + 1));
                                    assert forall|p: int| 0 <= p < out@.len() implies migration_from(
                                        entries@,
                                        (#[trigger] out@[p])@,
                                        current@,
                                        target@,
                                        i + 1,
                                    ) by {
                                        if p < j {
                                            assert(out@[p] == old_out[p]);
                                            assert(migration_from(
                                                entries@,
                                                old_out[p]@,
                                                current@,
                                                target@,
                                                i as int,
                                            ));
                                            lemma_migration_from_widen(
                                                entries@,
                                                old_out[p]@,
                                                current@,
                                                target@,
                                                i as int,
                                            );
                                        } else if p == j {
                                            assert(out@[p] == m);
                                        } else {
                                            assert(out@[p] == old_out[p - 1]);
                                            assert(migration_from(
                                                entries@,
                                                old_out[p - 1]@,
                                                current@,
                                                target@,
                                                i as int,
                                            ));
                                            lemma_migration_from_widen(
                                                entries@,
                                                old_out[p - 1]@,
                                                current@,
                                                target@,
                                                i as int,
                                            );
                                        }
                                    }
                                    assert forall|k: int|
                                        0 <= k < i + 1 && selected(
                                            #[trigger] entries@[k]@,
                                            current@,
                                            target@,
                                        ) implies entry_covered(entries@, k, out@) by {
                                        if k < i {
                                            assert(entry_covered(entries@, k, old_out));
                                            let p = choose|p: int|
                                                0 <= p < old_out.len() && (
                                                #[trigger] old_out[p])@.file_name
                                                    == entries@[k]@.name && old_out[p]@.version
                                                    == parsed_version(entries@[k]@);
                                            let pnew: int = if p < j {
                                                p
                                            } else {
                                                p + 1
                                            };
                                            assert(out@[pnew] == old_out[p]);
                                            assert(0 <= pnew < out@.len() && out@[pnew]@.file_name
                                                == entries@[k]@.name && out@[pnew]@.version
                                                == parsed_version(entries@[k]@));
                                        } else {
                                            assert(out@[j as int] == m);
                                            assert(0 <= j < out@.len() && out@[j as int]@.file_name
                                                == entries@[k]@.name && out@[j as int]@.version
                                                == parsed_version(entries@[k]@));
                                        }
                                    }
                                }
                            } else {
                                assert(!selected(ev, current@, target@));
                                proof {
                                    assert forall|p: int|
                                        0 <= p < out@.len() implies migration_from(
                                        entries@,
                                        (#[trigger] out@[p])@,
                                        current@,
                                        target@,
                                        i + 1,
                                    ) by {
                                        lemma_migration_from_widen(
                                            entries@,
                                            out@[p]@,
                                            current@,
                                            target@,
                                            i as int,
                                        );
                                    }
                                }
                            }
                        },
                    }
                },
            }
        } else {
            assert(!is_candidate(ev));
            proof {
                assert forall|p: int| 0 <= p < out@.len() implies migration_from(
                    entries@,
                    (#[trigger] out@[p])@,
                    current@,
                    target@,
                    i + 1,
                ) by {
                    lemma_migration_from_widen(entries@, out@[p]@, current@, target@, i as int);
                }
            }
        }
        i = i + 1;
    }
    Ok(out)
}

} // verus!

//! Rules of short-lived, read-only SQLite snapshots: which files may be staged,
//! and when a staged copy is consistent.

use vstd::prelude::*;

use crate::text;

verus! {

pub const MAX_DATABASE_BYTES: u64 = 256 * 1024 * 1024;

pub const MAX_WAL_BYTES: u64 = 256 * 1024 * 1024;

pub const MAX_SHARED_MEMORY_BYTES: u64 = 16 * 1024 * 1024;

pub const MAX_ROLLBACK_JOURNAL_BYTES: u64 = 256 * 1024 * 1024;

pub const COPY_ATTEMPTS: usize = 3;

pub const BUSY_TIMEOUT_MILLIS: u64 = 100;

/// Stable failures of a snapshot that name no path.
#[derive(Debug, Clone, Copy, PartialEq, Eq, Structural)]
pub enum SqliteSnapshotError {
    /// The profile root is not an absolute, real directory.
    InvalidRoot,
    /// The database name is empty, absolute or leaves its directory.
    InvalidRelativePath,
    /// The database does not exist.
    Missing,
    /// A file is a link, a special file or lies outside the root.
    UnsafeFile,
    /// A file exceeds its size bound.
    TooLarge,
    /// The staged copy could not be made or opened.
    Open,
    /// The connection could not be restricted.
    Configure,
    /// No consistent read transaction could be established.
    Snapshot,
    /// The files kept changing while they were copied.
    Replaced,
}

/// The message of a failure.
pub open spec fn message_of(e: SqliteSnapshotError) -> Seq<char> {
    match e {
        SqliteSnapshotError::InvalidRoot => "browser SQLite profile root is invalid"@,
        SqliteSnapshotError::InvalidRelativePath => "browser SQLite relative path is invalid"@,
        SqliteSnapshotError::Missing => "browser SQLite database is missing"@,
        SqliteSnapshotError::UnsafeFile => "browser SQLite file layout is unsafe"@,
        SqliteSnapshotError::TooLarge => "browser SQLite database exceeds its size bound"@,
        SqliteSnapshotError::Open => "browser SQLite database could not be opened"@,
        SqliteSnapshotError::Configure => "browser SQLite read-only policy could not be applied"@,
        SqliteSnapshotError::Snapshot => "browser SQLite snapshot could not be established"@,
        SqliteSnapshotError::Replaced => "browser SQLite database changed identity during acquisition"@,
    }
}

impl SqliteSnapshotError {
    /// The message of a failure.
    pub fn message(self) -> (r: &'static str)
        ensures
            r@ == message_of(self),
    {
        match self {
            SqliteSnapshotError::InvalidRoot => "browser SQLite profile root is invalid",
            SqliteSnapshotError::InvalidRelativePath => "browser SQLite relative path is invalid",
            SqliteSnapshotError::Missing => "browser SQLite database is missing",
            SqliteSnapshotError::UnsafeFile => "browser SQLite file layout is unsafe",
            SqliteSnapshotError::TooLarge => "browser SQLite database exceeds its size bound",
            SqliteSnapshotError::Open => "browser SQLite database could not be opened",
            SqliteSnapshotError::Configure => "browser SQLite read-only policy could not be applied",
            SqliteSnapshotError::Snapshot => "browser SQLite snapshot could not be established",
            SqliteSnapshotError::Replaced => "browser SQLite database changed identity during acquisition",
        }
    }
}

/// The identity and the metadata of a file.
#[derive(Debug, Clone, Copy, PartialEq, Eq, Structural)]
pub struct FileSnapshot {
    pub device: u64,
    pub inode: u64,
    pub size: u64,
    pub modified_seconds: i64,
    pub modified_nanoseconds: i64,
    pub changed_seconds: i64,
    pub changed_nanoseconds: i64,
}

/// A database with its sidecar files.
#[derive(Clone, Copy)]
pub struct SourceSnapshot {
    pub database: FileSnapshot,
    pub wal: Option<FileSnapshot>,
    pub shared_memory: Option<FileSnapshot>,
    pub rollback_journal: Option<FileSnapshot>,
}

/// What looking a file up gives.
#[derive(Clone, Copy)]
pub enum FileLookup {
    /// There is no such file.
    NotFound,
    /// The file cannot be looked up.
    Unreadable,
    /// There is something; `inside` tells whether its real path is known to lie
    /// below the root.
    Found { regular: bool, inside: bool, snapshot: FileSnapshot },
}

/// The failure of a profile root, by what looking it up gives. `directory` is
/// `None` where it cannot be looked up, and `resolves` tells whether its real
/// path is known.
pub fn check_root(path: &str, directory: Option<bool>, resolves: bool) -> (r: Result<
    (),
    SqliteSnapshotError,
>)
    ensures
        r == (if path@.len() > 0 && path@[0] == '/' && directory == Some(true) && resolves {
            Ok::<(), SqliteSnapshotError>(())
        } else {
            Err(SqliteSnapshotError::InvalidRoot)
        }),
{
    let chars = text::chars_of(path);
    let is_directory = match directory {
        Some(is_directory) => is_directory,
        None => false,
    };
    if chars.len() == 0 || chars[0] != '/' || !is_directory || !resolves {
        return Err(SqliteSnapshotError::InvalidRoot);
    }
    Ok(())
}

/// Whether the components of a relative path at and behind `from` are all normal
/// names. Empty components are no components, and a lone dot is one only at the
/// start.
pub open spec fn normal_from(pieces: Seq<Seq<char>>, from: int) -> bool {
    forall|i: int|
        from <= i < pieces.len() ==> (#[trigger] pieces[i]) != ".."@ && !(i == 0 && pieces[i]
            == "."@)
}

/// Whether a path names a database below a root: relative, made of normal
/// components.
pub open spec fn relative_ok(path: Seq<char>) -> bool {
    path.len() > 0 && path[0] != '/' && normal_from(text::pieces(path, '/'), 0)
}

/// Checks that a path names a database below a root.
pub fn validate_relative_database(path: &str) -> (r: Result<(), SqliteSnapshotError>)
    ensures
        match r {
            Ok(_) => relative_ok(path@),
            Err(e) => !relative_ok(path@) && e == SqliteSnapshotError::InvalidRelativePath,
        },
{
    let chars = text::chars_of(path);
    if chars.len() == 0 || chars[0] == '/' {
        return Err(SqliteSnapshotError::InvalidRelativePath);
    }
    let pieces = text::split(chars.as_slice(), '/');
    let ghost all = text::pieces(path@, '/');
    let mut i: usize = 0;
    while i < pieces.len()
        invariant
            i <= pieces@.len(),
            pieces@.len() == all.len(),
            all == text::pieces(path@, '/'),
            forall|j: int| 0 <= j < pieces@.len() ==> (#[trigger] pieces@[j])@ == all[j],
            forall|j: int|
                0 <= j < i ==> (#[trigger] all[j]) != ".."@ && !(j == 0 && all[j] == "."@),
        decreases pieces@.len() - i,
    {
        assert(pieces@[i as int]@ == all[i as int]);
        if text::equals(pieces[i], "..") || (i == 0 && text::equals(pieces[i], ".")) {
            assert(!normal_from(all, 0));
            return Err(SqliteSnapshotError::InvalidRelativePath);
        }
        i += 1;
    }
    Ok(())
}

/// The path of a sidecar file: the database's, with a suffix.
pub fn sidecar_path(database: &str, suffix: &str) -> (r: String)
    ensures
        r@ == database@ + suffix@,
{
    let mut r = database.to_owned();
    r.append(suffix);
    r
}

/// The outcome of looking a file up against its bound.
pub open spec fn inspection(lookup: FileLookup, max_bytes: u64, required: bool) -> Result<
    Option<FileSnapshot>,
    SqliteSnapshotError,
> {
    match lookup {
        FileLookup::NotFound => if required {
            Err(SqliteSnapshotError::Missing)
        } else {
            Ok(None)
        },
        FileLookup::Unreadable => Err(SqliteSnapshotError::UnsafeFile),
        FileLookup::Found { regular, inside, snapshot } => if !regular {
            Err(SqliteSnapshotError::UnsafeFile)
        } else if snapshot.size > max_bytes {
            Err(SqliteSnapshotError::TooLarge)
        } else if !inside {
            Err(SqliteSnapshotError::UnsafeFile)
        } else {
            Ok(Some(snapshot))
        },
    }
}

/// The outcome of looking a file up against its bound.
pub fn inspect_file(lookup: FileLookup, max_bytes: u64, required: bool) -> (r: Result<
    Option<FileSnapshot>,
    SqliteSnapshotError,
>)
    ensures
        r == inspection(lookup, max_bytes, required),
{
    match lookup {
        FileLookup::NotFound => if required {
            Err(SqliteSnapshotError::Missing)
        } else {
            Ok(None)
        },
        FileLookup::Unreadable => Err(SqliteSnapshotError::UnsafeFile),
        FileLookup::Found { regular, inside, snapshot } => if !regular {
            Err(SqliteSnapshotError::UnsafeFile)
        } else if snapshot.size > max_bytes {
            Err(SqliteSnapshotError::TooLarge)
        } else if !inside {
            Err(SqliteSnapshotError::UnsafeFile)
        } else {
            Ok(Some(snapshot))
        },
    }
}

/// What looking up a database and its sidecar files gives.
#[derive(Clone, Copy)]
pub struct SourceLookup {
    pub database: FileLookup,
    pub wal: FileLookup,
    pub shared_memory: FileLookup,
    pub rollback_journal: FileLookup,
}

/// The database and its sidecar files, or the first failure among them.
pub open spec fn source_of(found: SourceLookup) -> Result<SourceSnapshot, SqliteSnapshotError> {
    match inspection(found.database, MAX_DATABASE_BYTES, true) {
        Err(e) => Err(e),
        Ok(None) => Err(SqliteSnapshotError::Missing),
        Ok(Some(database)) => match inspection(found.wal, MAX_WAL_BYTES, false) {
            Err(e) => Err(e),
            Ok(wal) => match inspection(found.shared_memory, MAX_SHARED_MEMORY_BYTES, false) {
                Err(e) => Err(e),
                Ok(shared_memory) => match inspection(
                    found.rollback_journal,
                    MAX_ROLLBACK_JOURNAL_BYTES,
                    false,
                ) {
                    Err(e) => Err(e),
                    Ok(rollback_journal) => Ok(
                        SourceSnapshot { database, wal, shared_memory, rollback_journal },
                    ),
                },
            },
        },
    }
}

/// The database and its sidecar files, or the first failure among them.
pub fn inspect_source_snapshot(found: SourceLookup) -> (r: Result<
    SourceSnapshot,
    SqliteSnapshotError,
>)
    ensures
        r == source_of(found),
{
    let database = match inspect_file(found.database, MAX_DATABASE_BYTES, true) {
        Ok(Some(database)) => database,
        Ok(None) => return Err(SqliteSnapshotError::Missing),
        Err(e) => return Err(e),
    };
    let wal = match inspect_file(found.wal, MAX_WAL_BYTES, false) {
        Ok(wal) => wal,
        Err(e) => return Err(e),
    };
    let shared_memory = match inspect_file(found.shared_memory, MAX_SHARED_MEMORY_BYTES, false) {
        Ok(shared_memory) => shared_memory,
        Err(e) => return Err(e),
    };
    match inspect_file(found.rollback_journal, MAX_ROLLBACK_JOURNAL_BYTES, false) {
        Ok(rollback_journal) => Ok(
            SourceSnapshot { database, wal, shared_memory, rollback_journal },
        ),
        Err(e) => Err(e),
    }
}

/// What copying one file tells. An absent opened or copied snapshot is one that
/// could not be taken.
#[derive(Clone, Copy)]
pub struct CopyReport {
    pub opened: Option<FileSnapshot>,
    pub opened_regular: bool,
    pub created: bool,
    pub copied: Option<u64>,
    pub flushed: bool,
    pub after: Option<FileSnapshot>,
}

/// Why a staging attempt ended.
#[derive(Debug, Clone, Copy, PartialEq, Eq, Structural)]
pub enum StageAttemptError {
    /// The files changed: another attempt may succeed.
    Changed,
    /// Another attempt is of no use.
    Failure(SqliteSnapshotError),
}

/// The outcome of copying a file that was expected as it was inspected.
pub open spec fn copy_outcome(report: CopyReport, expected: FileSnapshot, maximum: u64) -> Result<
    (),
    StageAttemptError,
> {
    if report.opened != Some(expected) || !report.opened_regular {
        Err(StageAttemptError::Changed)
    } else if !report.created || report.copied is None || !report.flushed {
        Err(StageAttemptError::Failure(SqliteSnapshotError::Open))
    } else if report.copied != Some(expected.size) || expected.size > maximum {
        Err(StageAttemptError::Changed)
    } else if report.after != Some(expected) {
        Err(StageAttemptError::Changed)
    } else {
        Ok(())
    }
}

fn same_file(found: Option<FileSnapshot>, expected: FileSnapshot) -> (r: bool)
    ensures
        r == (found == Some(expected)),
{
    match found {
        Some(snapshot) => snapshot == expected,
        None => false,
    }
}

/// The outcome of copying a file that was expected as it was inspected.
pub fn check_copy(report: CopyReport, expected: FileSnapshot, maximum: u64) -> (r: Result<
    (),
    StageAttemptError,
>)
    ensures
        r == copy_outcome(report, expected, maximum),
{
    if !same_file(report.opened, expected) || !report.opened_regular {
        return Err(StageAttemptError::Changed);
    }
    let copied: u64 = match report.copied {
        Some(copied) => copied,
        None => return Err(StageAttemptError::Failure(SqliteSnapshotError::Open)),
    };
    if !report.created || !report.flushed {
        return Err(StageAttemptError::Failure(SqliteSnapshotError::Open));
    }
    if copied != expected.size || copied > maximum {
        return Err(StageAttemptError::Changed);
    }
    if !same_file(report.after, expected) {
        return Err(StageAttemptError::Changed);
    }
    Ok(())
}

fn same_optional(a: Option<FileSnapshot>, b: Option<FileSnapshot>) -> (r: bool)
    ensures
        r == (a == b),
{
    match (a, b) {
        (Some(x), Some(y)) => x == y,
        (None, None) => true,
        _ => false,
    }
}

/// Whether the files stayed as they were while they were copied. `after` is the
/// second inspection.
pub fn check_stable(before: SourceSnapshot, after: Result<SourceSnapshot, SqliteSnapshotError>) -> (r:
    Result<(), StageAttemptError>)
    ensures
        r == (if after == Ok::<SourceSnapshot, SqliteSnapshotError>(before) {
            Ok::<(), StageAttemptError>(())
        } else {
            Err(StageAttemptError::Changed)
        }),
{
    match after {
        Ok(found) => {
            if found.database == before.database && same_optional(found.wal, before.wal)
                && same_optional(found.shared_memory, before.shared_memory) && same_optional(
                found.rollback_journal,
                before.rollback_journal,
            ) {
                Ok(())
            } else {
                Err(StageAttemptError::Changed)
            }
        },
        Err(_) => Err(StageAttemptError::Changed),
    }
}

/// What to do behind a staging attempt.
#[derive(Debug, Clone, Copy, PartialEq, Eq, Structural)]
pub enum StageStep {
    /// Use the staged copy.
    Use,
    /// Stage once more.
    Retry,
    /// Give up.
    Fail(SqliteSnapshotError),
}

/// What to do behind a staging attempt, of which `made` were made with it.
pub open spec fn stage_step(outcome: Result<(), StageAttemptError>, made: usize) -> StageStep {
    match outcome {
        Ok(_) => StageStep::Use,
        Err(StageAttemptError::Failure(e)) => StageStep::Fail(e),
        Err(StageAttemptError::Changed) => if made < COPY_ATTEMPTS {
            StageStep::Retry
        } else {
            StageStep::Fail(SqliteSnapshotError::Replaced)
        },
    }
}

/// What to do behind a staging attempt, of which `made` were made with it.
pub fn after_attempt(outcome: Result<(), StageAttemptError>, made: usize) -> (r: StageStep)
    ensures
        r == stage_step(outcome, made),
{
    match outcome {
        Ok(_) => StageStep::Use,
        Err(StageAttemptError::Failure(e)) => StageStep::Fail(e),
        Err(StageAttemptError::Changed) => if made < COPY_ATTEMPTS {
            StageStep::Retry
        } else {
            StageStep::Fail(SqliteSnapshotError::Replaced)
        },
    }
}

/// A copy is used only where every staged byte is of the file that was
/// inspected, and staging ends behind a bounded number of attempts.
pub proof fn law_copy_is_of_inspected_file(
    report: CopyReport,
    expected: FileSnapshot,
    maximum: u64,
    outcome: Result<(), StageAttemptError>,
)
    ensures
        copy_outcome(report, expected, maximum) is Ok ==> report.opened == report.after
            && report.copied == Some(expected.size) && expected.size <= maximum,
        stage_step(outcome, COPY_ATTEMPTS) != StageStep::Retry,
{
}

/// A file is taken only where it is a regular one inside its directory and not too
/// large; a required one must be there.
pub proof fn law_only_safe_files_are_taken(lookup: FileLookup, max_bytes: u64, required: bool)
    ensures
        inspection(lookup, max_bytes, required) matches Ok(Some(taken)) ==> (
        lookup matches FileLookup::Found { regular, inside, snapshot } && regular && inside
            && snapshot == taken && taken.size <= max_bytes),
        inspection(lookup, max_bytes, required) == Ok::<_, SqliteSnapshotError>(None::<FileSnapshot>)
            <==> lookup is NotFound && !required,
        required && lookup is NotFound ==> inspection(lookup, max_bytes, required) == Err::<
            Option<FileSnapshot>,
            _,
        >(SqliteSnapshotError::Missing),
{
}

/// A copy is used only where the file that was inspected was copied whole and was
/// the same before and after.
pub proof fn law_copies_are_of_one_state(report: CopyReport, expected: FileSnapshot, maximum: u64)
    ensures
        copy_outcome(report, expected, maximum) is Ok <==> report.opened == Some(expected)
            && report.opened_regular && report.created && report.flushed && report.copied == Some(
            expected.size,
        ) && report.after == Some(expected) && expected.size <= maximum,
{
}

} // verus!

//! The commands over a set of migrations and the store's version register.
use vstd::prelude::*;
use vstd::string::StrSliceExecFns;

use crate::codec::{
    Direction,
    MigrationFileName,
    filename_of,
    lemma_up_filename_valid,
    parses_as,
    push_char,
    valid_filename,
    valid_name,
};
use crate::error::MigrationError;
use crate::files::{Migration, MigrationFile, Migrations};

verus! {

/// A target store: it runs scripts and keeps the version register, the number
/// of the highest migration applied (0 for none).
pub trait Driver {
    /// Creates the version register, holding 0, where it is absent; safe to
    /// call on a store that has it.
    fn ensure_migration_table_exists(&mut self) -> Result<(), String>;

    /// Reads the version register.
    fn get_current_number(&mut self) -> Result<u16, String>;

    /// Writes the version register.
    fn set_current_number(&mut self, number: u16) -> Result<(), String>;

    /// Runs a script and, only if it succeeds, records `number` as the new
    /// version.
    fn migrate(&mut self, migration: String, number: u16) -> Result<(), String>;
}

/// The script of a migration for a direction.
pub open spec fn script_of(m: Migration, d: Direction) -> Seq<char> {
    match d {
        Direction::Up => m.up@,
        Direction::Down => m.down@,
    }
}

/// The version that running this step leaves.
pub open spec fn resulting_version(f: MigrationFile) -> int {
    match f.direction {
        Direction::Up => f.number as int,
        Direction::Down => f.number - 1,
    }
}

/// `f` is the step that runs migration `m` in direction `d`.
pub open spec fn is_step(f: MigrationFile, m: Migration, d: Direction) -> bool {
    &&& f.number == m.number as i32
    &&& f.direction == d
    &&& f.name@ == m.name@
    &&& f.filename@ == filename_of(m.number as nat, m.name@, d)
    &&& f.content is Some
    &&& f.content->Some_0@ == script_of(m, d)
}

/// A step that `migrate` can run: a migration number and its script.
pub open spec fn runnable(f: MigrationFile) -> bool {
    1 <= f.number <= 9999 && f.content is Some
}

/// The step that runs migration `m` in direction `d`.
fn step_of(m: &Migration, d: Direction) -> (r: MigrationFile)
    ensures
        is_step(r, *m, d),
{
    let filename = MigrationFileName { number: m.number, name: m.name.clone(), direction: d };
    let content = match d {
        Direction::Up => m.up.clone(),
        Direction::Down => m.down.clone(),
    };
    MigrationFile {
        content: Some(content),
        direction: d,
        number: m.number as i32,
        filename: filename.to_string(),
        name: m.name.clone(),
    }
}

/// The steps of `up` from version `current`: the up scripts of the migrations
/// above `current`, ascending; none when `current` is the last.
pub fn up_plan(migration_files: &Migrations, current: u16) -> (r: Vec<MigrationFile>)
    requires
        migration_files.wf(),
        current <= migration_files@.len(),
    ensures
        r@.len() == migration_files@.len() - current,
        forall|k: int|
            0 <= k < r@.len() ==> is_step(
                #[trigger] r@[k],
                migration_files@[current + k],
                Direction::Up,
            ),
        forall|k: int| 0 <= k < r@.len() ==> resulting_version(#[trigger] r@[k]) == current + k + 1,
{
    let mut r: Vec<MigrationFile> = Vec::new();
    let mut i: usize = current as usize;
    while i < migration_files.len()
        invariant
            migration_files.wf(),
            current <= i <= migration_files@.len(),
            r@.len() == i - current,
            forall|k: int|
                0 <= k < r@.len() ==> is_step(
                    #[trigger] r@[k],
                    migration_files@[current + k],
                    Direction::Up,
                ),
        decreases migration_files@.len() - i,
    {
        let m = migration_files.get((i + 1) as u16).unwrap();
        r.push(step_of(m, Direction::Up));
        i = i + 1;
    }
    r
}

/// The steps of `down` from version `current`: the down scripts of the
/// migrations from `current` down to 1; none when `current` is 0.
pub fn down_plan(migration_files: &Migrations, current: u16) -> (r: Vec<MigrationFile>)
    requires
        migration_files.wf(),
        current <= migration_files@.len(),
    ensures
        r@.len() == current,
        forall|k: int|
            0 <= k < r@.len() ==> is_step(
                #[trigger] r@[k],
                migration_files@[current - 1 - k],
                Direction::Down,
            ),
        forall|k: int| 0 <= k < r@.len() ==> resulting_version(#[trigger] r@[k]) == current - k - 1,
{
    let mut r: Vec<MigrationFile> = Vec::new();
    let mut i: u16 = current;
    while i > 0
        invariant
            migration_files.wf(),
            current <= migration_files@.len(),
            i <= current,
            r@.len() == current - i,
            forall|k: int|
                0 <= k < r@.len() ==> is_step(
                    #[trigger] r@[k],
                    migration_files@[current - 1 - k],
                    Direction::Down,
                ),
        decreases i,
    {
        let m = migration_files.get(i).unwrap();
        r.push(step_of(m, Direction::Down));
        i = i - 1;
    }
    r
}

/// The steps of `redo` from version `current`: the down script, then the up
/// script, of migration `current`; none when `current` is 0.
pub fn redo_plan(migration_files: &Migrations, current: u16) -> (r: Vec<MigrationFile>)
    requires
        migration_files.wf(),
        current <= migration_files@.len(),
    ensures
        current == 0 ==> r@.len() == 0,
        current > 0 ==> r@.len() == 2 && is_step(
            r@[0],
            migration_files@[current - 1],
            Direction::Down,
        ) && is_step(r@[1], migration_files@[current - 1], Direction::Up),
        current > 0 ==> resulting_version(r@[0]) == current - 1 && resulting_version(r@[1])
            == current,
{
    let mut r: Vec<MigrationFile> = Vec::new();
    if current > 0 {
        let m = migration_files.get(current).unwrap();
        r.push(step_of(m, Direction::Down));
        r.push(step_of(m, Direction::Up));
    }
    r
}

/// The steps of `revert` from version `current`: the down script of migration
/// `current`; none when `current` is 0.
pub fn revert_plan(migration_files: &Migrations, current: u16) -> (r: Vec<MigrationFile>)
    requires
        migration_files.wf(),
        current <= migration_files@.len(),
    ensures
        current == 0 ==> r@.len() == 0,
        current > 0 ==> r@.len() == 1 && is_step(
            r@[0],
            migration_files@[current - 1],
            Direction::Down,
        ),
        current > 0 ==> resulting_version(r@[0]) == current - 1,
{
    let mut r: Vec<MigrationFile> = Vec::new();
    if current > 0 {
        let m = migration_files.get(current).unwrap();
        r.push(step_of(m, Direction::Down));
    }
    r
}

/// The script and the resulting version that the driver runs for a step.
pub fn driver_call(migration_file: &MigrationFile) -> (r: (String, u16))
    requires
        runnable(*migration_file),
    ensures
        r.0@ == migration_file.content->Some_0@,
        r.1 == resulting_version(*migration_file),
{
    let version = match migration_file.direction {
        Direction::Up => migration_file.number as u16,
        Direction::Down => (migration_file.number - 1) as u16,
    };
    let script = match &migration_file.content {
        Some(c) => c.clone(),
        None => String::new(),
    };
    (script, version)
}

/// What the driver's answer for a step means: success, or the failure of this
/// step, which keeps the driver's cause.
pub fn step_result(migration_file: &MigrationFile, outcome: Result<(), String>) -> (r: Result<
    (),
    MigrationError,
>)
    requires
        runnable(*migration_file),
    ensures
        outcome is Ok <==> r is Ok,
        outcome matches Err(c) ==> r matches Err(MigrationError::MigrationExecutionFailure(n, d, c2))
            && n as i32 == migration_file.number && d == migration_file.direction && c2 == c,
{
    match outcome {
        Ok(()) => Ok(()),
        Err(cause) => Err(
            MigrationError::MigrationExecutionFailure(
                migration_file.number as u16,
                migration_file.direction,
                cause,
            ),
        ),
    }
}

/// Runs one step through the driver: the step's script, with the version it
/// leaves (see `driver_call`); the driver's answer is read by `step_result`.
fn migrate<D: Driver>(driver: &mut D, migration_file: &MigrationFile) -> (r: Result<(), MigrationError>)
    requires
        runnable(*migration_file),
    ensures
        r matches Err(e) ==> e matches MigrationError::MigrationExecutionFailure(n, d, _) && n as i32
            == migration_file.number && d == migration_file.direction,
{
    let (script, version) = driver_call(migration_file);
    let outcome = driver.migrate(script, version);
    step_result(migration_file, outcome)
}

/// What a command does after a step.
#[derive(Debug, Clone)]
pub enum StepAction {
    /// Runs the step at this position.
    Run(usize),
    /// All steps succeeded.
    Done,
    /// Stops with this failure; no further step runs.
    Stop(MigrationError),
}

/// After step `i` of `steps` ended with `outcome`: on success the next step
/// runs, or the command is done after the last; on failure the command stops
/// with that failure.
pub fn after_step(steps: &Vec<MigrationFile>, i: usize, outcome: Result<(), MigrationError>) -> (r:
    StepAction)
    requires
        i < steps@.len(),
    ensures
        outcome is Ok && i + 1 < steps@.len() ==> r == StepAction::Run((i + 1) as usize),
        outcome is Ok && i + 1 == steps@.len() ==> r is Done,
        outcome matches Err(e) ==> r == StepAction::Stop(e),
        r matches StepAction::Run(j) ==> j == i + 1 && j < steps@.len(),
{
    match outcome {
        Ok(()) => {
            if i < steps.len() - 1 {
                StepAction::Run(i + 1)
            } else {
                StepAction::Done
            }
        },
        Err(e) => StepAction::Stop(e),
    }
}

/// The failure names the number and direction of one of the steps.
pub open spec fn fails_at_step(e: MigrationError, steps: Seq<MigrationFile>) -> bool {
    exists|k: int|
        0 <= k < steps.len() && (e matches MigrationError::MigrationExecutionFailure(n, d, _)
            && n as i32 == (#[trigger] steps[k]).number && d == steps[k].direction)
}

/// Runs the steps in order, stopping at the first that fails.
fn run_steps<D: Driver>(driver: &mut D, steps: &Vec<MigrationFile>) -> (r: Result<(), MigrationError>)
    requires
        forall|k: int| 0 <= k < steps@.len() ==> runnable(#[trigger] steps@[k]),
    ensures
        r matches Err(e) ==> fails_at_step(e, steps@),
{
    if steps.len() == 0 {
        return Ok(());
    }
    let mut i: usize = 0;
    loop
        invariant
            i < steps@.len(),
            forall|k: int| 0 <= k < steps@.len() ==> runnable(#[trigger] steps@[k]),
        decreases steps@.len() - i,
    {
        let outcome = migrate(driver, &steps[i]);
        match after_step(steps, i, outcome) {
            StepAction::Run(j) => {
                i = j;
            },
            StepAction::Done => {
                return Ok(());
            },
            StepAction::Stop(e) => {
                assert(steps@[i as int] == steps[i as int]);
                return Err(e);
            },
        }
    }
}

/// What the driver's reading of the version register means: the value, or a
/// failure of the store that keeps the driver's cause.
pub fn register_value(read: Result<u16, String>) -> (r: Result<u16, MigrationError>)
    ensures
        read matches Ok(v) ==> r == Ok::<u16, MigrationError>(v),
        read matches Err(c) ==> r matches Err(MigrationError::VersionStoreFailure(c2)) && c2 == c,
{
    match read {
        Ok(v) => Ok(v),
        Err(cause) => Err(MigrationError::VersionStoreFailure(cause)),
    }
}

/// The failure for a version register past the last migration.
fn version_out_of_range() -> (e: MigrationError)
    ensures
        e is VersionStoreFailure,
{
    MigrationError::VersionStoreFailure("the recorded version is past the last migration".to_owned())
}

/// The steps of `up` from version `current`, as `up_plan` gives them; a version
/// past the last migration is a failure of the store.
pub fn up_steps(migration_files: &Migrations, current: u16) -> (r: Result<Vec<MigrationFile>, MigrationError>)
    requires
        migration_files.wf(),
    ensures
        r is Ok <==> current <= migration_files@.len(),
        r matches Ok(s) ==> {
            &&& s@.len() == migration_files@.len() - current
            &&& forall|k: int|
                0 <= k < s@.len() ==> is_step(#[trigger] s@[k], migration_files@[current + k], Direction::Up)
            &&& forall|k: int| 0 <= k < s@.len() ==> resulting_version(#[trigger] s@[k]) == current + k + 1
        },
        r matches Err(e) ==> e is VersionStoreFailure,
{
    if (current as usize) <= migration_files.len() {
        Ok(up_plan(migration_files, current))
    } else {
        Err(version_out_of_range())
    }
}

/// The steps of `down` from version `current`, as `down_plan` gives them; a
/// version past the last migration is a failure of the store.
pub fn down_steps(migration_files: &Migrations, current: u16) -> (r: Result<Vec<MigrationFile>, MigrationError>)
    requires
        migration_files.wf(),
    ensures
        r is Ok <==> current <= migration_files@.len(),
        r matches Ok(s) ==> {
            &&& s@.len() == current
            &&& forall|k: int|
                0 <= k < s@.len() ==> is_step(#[trigger] s@[k], migration_files@[current - 1 - k], Direction::Down)
            &&& forall|k: int| 0 <= k < s@.len() ==> resulting_version(#[trigger] s@[k]) == current - k - 1
        },
        r matches Err(e) ==> e is VersionStoreFailure,
{
    if (current as usize) <= migration_files.len() {
        Ok(down_plan(migration_files, current))
    } else {
        Err(version_out_of_range())
    }
}

/// The steps of `redo` from version `current`, as `redo_plan` gives them; a
/// version past the last migration is a failure of the store.
pub fn redo_steps(migration_files: &Migrations, current: u16) -> (r: Result<Vec<MigrationFile>, MigrationError>)
    requires
        migration_files.wf(),
    ensures
        r is Ok <==> current <= migration_files@.len(),
        r matches Ok(s) ==> {
            &&& current == 0 ==> s@.len() == 0
            &&& current > 0 ==> s@.len() == 2 && is_step(s@[0], migration_files@[current - 1], Direction::Down)
                && is_step(s@[1], migration_files@[current - 1], Direction::Up)
                && resulting_version(s@[0]) == current - 1 && resulting_version(s@[1]) == current
        },
        r matches Err(e) ==> e is VersionStoreFailure,
{
    if (current as usize) <= migration_files.len() {
        Ok(redo_plan(migration_files, current))
    } else {
        Err(version_out_of_range())
    }
}

/// The steps of `revert` from version `current`, as `revert_plan` gives them; a
/// version past the last migration is a failure of the store.
pub fn revert_steps(migration_files: &Migrations, current: u16) -> (r: Result<Vec<MigrationFile>, MigrationError>)
    requires
        migration_files.wf(),
    ensures
        r is Ok <==> current <= migration_files@.len(),
        r matches Ok(s) ==> {
            &&& current == 0 ==> s@.len() == 0
            &&& current > 0 ==> s@.len() == 1 && is_step(s@[0], migration_files@[current - 1], Direction::Down)
                && resulting_version(s@[0]) == current - 1
        },
        r matches Err(e) ==> e is VersionStoreFailure,
{
    if (current as usize) <= migration_files.len() {
        Ok(revert_plan(migration_files, current))
    } else {
        Err(version_out_of_range())
    }
}

/// A failure of a command: the store's, or that of one step in direction `d`
/// of a migration in the set.
pub open spec fn command_failure(e: MigrationError, migration_files: Migrations, d: Direction) -> bool {
    e is VersionStoreFailure || (e matches MigrationError::MigrationExecutionFailure(n, dd, _)
        && dd == d && 1 <= n <= migration_files@.len())
}

/// Applies, in ascending order, every migration above the current version,
/// stopping at the first failure; nothing to do when all are applied. The
/// steps are those of `up_steps`, run and stopped as `driver_call`,
/// `step_result` and `after_step` say.
pub fn up<D: Driver>(driver: &mut D, migration_files: &Migrations) -> (r: Result<(), MigrationError>)
    requires
        migration_files.wf(),
    ensures
        r matches Err(e) ==> command_failure(e, *migration_files, Direction::Up),
{
    let read = driver.get_current_number();
    let current = register_value(read)?;
    let steps = up_steps(migration_files, current)?;
    assert forall|k: int| 0 <= k < steps@.len() implies runnable(#[trigger] steps@[k]) by {
        assert(migration_files@[current + k].number == current + k + 1);
    }
    run_steps(driver, &steps)
}

/// Reverts, in descending order, every migration from the current version down
/// to 1, stopping at the first failure; nothing to do at version 0. The steps
/// are those of `down_steps`, run as `up` runs its own.
pub fn down<D: Driver>(driver: &mut D, migration_files: &Migrations) -> (r: Result<(), MigrationError>)
    requires
        migration_files.wf(),
    ensures
        r matches Err(e) ==> command_failure(e, *migration_files, Direction::Down),
{
    let read = driver.get_current_number();
    let current = register_value(read)?;
    let steps = down_steps(migration_files, current)?;
    assert forall|k: int| 0 <= k < steps@.len() implies runnable(#[trigger] steps@[k]) by {
        assert(migration_files@[current - 1 - k].number == current - k);
    }
    run_steps(driver, &steps)
}

/// Reverts the current migration and applies it again; nothing to do at
/// version 0. The steps are those of `redo_steps`, run as `up` runs its own.
pub fn redo<D: Driver>(driver: &mut D, migration_files: &Migrations) -> (r: Result<(), MigrationError>)
    requires
        migration_files.wf(),
    ensures
        r matches Err(e) ==> command_failure(e, *migration_files, Direction::Down)
            || command_failure(e, *migration_files, Direction::Up),
{
    let read = driver.get_current_number();
    let current = register_value(read)?;
    let steps = redo_steps(migration_files, current)?;
    assert forall|k: int| 0 <= k < steps@.len() implies runnable(#[trigger] steps@[k]) by {
        assert(migration_files@[current - 1].number == current);
    }
    run_steps(driver, &steps)
}

/// Reverts the current migration only; nothing to do at version 0. The steps
/// are those of `revert_steps`, run as `up` runs its own.
pub fn revert<D: Driver>(driver: &mut D, migration_files: &Migrations) -> (r: Result<(), MigrationError>)
    requires
        migration_files.wf(),
    ensures
        r matches Err(e) ==> command_failure(e, *migration_files, Direction::Down),
{
    let read = driver.get_current_number();
    let current = register_value(read)?;
    let steps = revert_steps(migration_files, current)?;
    assert forall|k: int| 0 <= k < steps@.len() implies runnable(#[trigger] steps@[k]) by {
        assert(migration_files@[current - 1].number == current);
    }
    run_steps(driver, &steps)
}

/// One line of the status report.
#[derive(Debug, Clone)]
pub struct StatusEntry {
    pub number: u16,
    pub name: String,
    /// This migration is the one the version register names.
    pub current: bool,
}

/// The version register and every migration, ascending.
#[derive(Debug, Clone)]
pub struct StatusReport {
    /// 0 when no migration has run.
    pub current: u16,
    pub entries: Vec<StatusEntry>,
}

/// Each migration's number and name, in ascending order, the one numbered
/// `current` marked.
pub fn status_entries(migration_files: &Migrations, current: u16) -> (r: Vec<StatusEntry>)
    requires
        migration_files.wf(),
    ensures
        r@.len() == migration_files@.len(),
        forall|k: int|
            0 <= k < r@.len() ==> (#[trigger] r@[k]).number == k + 1 && r@[k].name@
                == migration_files@[k].name@ && r@[k].current == (k + 1 == current),
{
    let mut r: Vec<StatusEntry> = Vec::new();
    let mut i: usize = 0;
    while i < migration_files.len()
        invariant
            migration_files.wf(),
            i <= migration_files@.len(),
            r@.len() == i,
            forall|k: int|
                0 <= k < r@.len() ==> (#[trigger] r@[k]).number == k + 1 && r@[k].name@
                    == migration_files@[k].name@ && r@[k].current == (k + 1 == current),
        decreases migration_files@.len() - i,
    {
        let m = migration_files.get((i + 1) as u16).unwrap();
        r.push(StatusEntry { number: m.number, name: m.name.clone(), current: m.number == current });
        i = i + 1;
    }
    r
}

/// Reads the version register and lists the migrations against it.
pub fn status<D: Driver>(driver: &mut D, migration_files: &Migrations) -> (r: Result<
    StatusReport,
    MigrationError,
>)
    requires
        migration_files.wf(),
    ensures
        r matches Ok(report) ==> report.entries@.len() == migration_files@.len() && forall|k: int|
            0 <= k < report.entries@.len() ==> (#[trigger] report.entries@[k]).number == k + 1
                && report.entries@[k].name@ == migration_files@[k].name@
                && report.entries@[k].current == (k + 1 == report.current),
        r matches Err(e) ==> e is VersionStoreFailure,
{
    match driver.get_current_number() {
        Ok(current) => Ok(
            StatusReport { current, entries: status_entries(migration_files, current) },
        ),
        Err(cause) => Err(MigrationError::VersionStoreFailure(cause)),
    }
}

/// A slug with its spaces turned into underscores.
pub open spec fn sanitized(slug: Seq<char>) -> Seq<char> {
    slug.map_values(|c: char| if c == ' ' { '_' } else { c })
}

/// Turns the spaces of a slug into underscores; nothing else changes.
pub fn sanitize_slug(slug: &str) -> (r: String)
    ensures
        r@ == sanitized(slug@),
{
    let len = slug.unicode_len();
    let mut r = String::new();
    let mut i: usize = 0;
    while i < len
        invariant
            len == slug@.len(),
            i <= len,
            r@ == sanitized(slug@).take(i as int),
        decreases len - i,
    {
        let c = slug.get_char(i);
        if c == ' ' {
            push_char(&mut r, '_');
        } else {
            push_char(&mut r, c);
        }
        assert(sanitized(slug@).take(i + 1) =~= sanitized(slug@).take(i as int).push(
            sanitized(slug@)[i as int],
        ));
        i = i + 1;
    }
    assert(sanitized(slug@).take(len as int) =~= sanitized(slug@));
    r
}

/// The up and down filenames of migration `number` named by `slug`, each read
/// back as a check: a name that does not read back (a character outside
/// `[_0-9a-zA-Z]`, a number past four digits) is an `InvalidFilename`.
pub fn create_migration(slug: &str, number: u16) -> (r: Result<(String, String), MigrationError>)
    ensures
        r is Ok <==> valid_filename(filename_of(number as nat, sanitized(slug@), Direction::Up))
            && valid_filename(filename_of(number as nat, sanitized(slug@), Direction::Down)),
        r matches Ok((u, d)) ==> u@ == filename_of(number as nat, sanitized(slug@), Direction::Up)
            && d@ == filename_of(number as nat, sanitized(slug@), Direction::Down),
        r is Ok <==> number < 10000 && valid_name(sanitized(slug@)),
        r matches Err(e) ==> e matches MigrationError::InvalidFilename(t) && t@ == filename_of(
            number as nat,
            sanitized(slug@),
            Direction::Up,
        ),
{
    let fixed_slug = sanitize_slug(slug);
    let migration_filename_up = MigrationFileName {
        number,
        name: fixed_slug.clone(),
        direction: Direction::Up,
    };
    let filename_up = migration_filename_up.to_string();
    proof {
        if number < 10000 && valid_name(fixed_slug@) {
            assert(parses_as(filename_up@, number as nat, fixed_slug@, Direction::Up));
        }
    }
    MigrationFileName::parse(filename_up.as_str())?;
    proof {
        lemma_up_filename_valid(number as nat, fixed_slug@);
    }
    let migration_filename_down = MigrationFileName {
        number,
        name: fixed_slug,
        direction: Direction::Down,
    };
    let filename_down = migration_filename_down.to_string();
    MigrationFileName::parse(filename_down.as_str())?;
    Ok((filename_up, filename_down))
}

/// The filenames of a new migration named by `slug`, numbered one past the
/// highest present (1 when there is none).
pub fn create(migration_files: &Migrations, slug: &str) -> (r: Result<(String, String), MigrationError>)
    requires
        migration_files.wf(),
    ensures
        ({
            let number = (migration_files@.len() + 1) as nat;
            let name = sanitized(slug@);
            &&& r is Ok <==> valid_filename(filename_of(number, name, Direction::Up))
                && valid_filename(filename_of(number, name, Direction::Down))
            &&& r matches Ok((u, d)) ==> u@ == filename_of(number, name, Direction::Up) && d@
                == filename_of(number, name, Direction::Down)
            &&& r is Ok <==> number < 10000 && valid_name(name)
            &&& r matches Err(e) ==> e matches MigrationError::InvalidFilename(t) && t@
                == filename_of(number, name, Direction::Up)
        }),
{
    let number = migration_files.max_number() + 1;
    create_migration(slug, number)
}

} // verus!

use dbmigrate::codec::Direction;
use dbmigrate::commands::{
    after_step, create, create_migration, down, down_plan, down_steps, driver_call, redo,
    redo_plan, redo_steps, register_value, revert, revert_plan, revert_steps, sanitize_slug,
    status, step_result, up, up_plan, up_steps, Driver, StepAction,
};
use dbmigrate::error::MigrationError;
use dbmigrate::files::{migrations_from_files, Migrations};

/// A store in memory that records every script it is asked to run.
struct Recorder {
    current: u16,
    calls: Vec<(String, u16)>,
    fail_script: Option<String>,
}

impl Recorder {
    fn at(current: u16) -> Recorder {
        Recorder { current, calls: Vec::new(), fail_script: None }
    }
}

impl Driver for Recorder {
    fn ensure_migration_table_exists(&mut self) -> Result<(), String> {
        Ok(())
    }

    fn get_current_number(&mut self) -> Result<u16, String> {
        Ok(self.current)
    }

    fn set_current_number(&mut self, number: u16) -> Result<(), String> {
        self.current = number;
        Ok(())
    }

    fn migrate(&mut self, migration: String, number: u16) -> Result<(), String> {
        self.calls.push((migration.clone(), number));
        if self.fail_script.as_deref() == Some(migration.as_str()) {
            return Err("syntax error".to_string());
        }
        self.current = number;
        Ok(())
    }
}

fn three() -> Migrations {
    let mut m = Migrations::new();
    for i in 1..=3 {
        m.push(format!("m{}", i), format!("up{}", i), format!("down{}", i));
    }
    m
}

fn calls(r: &Recorder) -> Vec<(&str, u16)> {
    r.calls.iter().map(|(s, n)| (s.as_str(), *n)).collect()
}

#[test]
fn up_from_zero_runs_all_in_ascending_order() {
    let m = three();
    let mut d = Recorder::at(0);
    up(&mut d, &m).unwrap();
    assert_eq!(calls(&d), vec![("up1", 1), ("up2", 2), ("up3", 3)]);
    assert_eq!(d.current, 3);
}

#[test]
fn up_when_current_is_last_does_nothing() {
    let m = three();
    let mut d = Recorder::at(3);
    up(&mut d, &m).unwrap();
    assert!(d.calls.is_empty());
    assert_eq!(d.current, 3);
}

#[test]
fn up_from_middle_runs_only_higher() {
    let m = three();
    let mut d = Recorder::at(1);
    up(&mut d, &m).unwrap();
    assert_eq!(calls(&d), vec![("up2", 2), ("up3", 3)]);
}

#[test]
fn down_from_three_runs_all_in_descending_order() {
    let m = three();
    let mut d = Recorder::at(3);
    down(&mut d, &m).unwrap();
    assert_eq!(calls(&d), vec![("down3", 2), ("down2", 1), ("down1", 0)]);
    assert_eq!(d.current, 0);
}

#[test]
fn down_at_zero_does_nothing() {
    let m = three();
    let mut d = Recorder::at(0);
    down(&mut d, &m).unwrap();
    assert!(d.calls.is_empty());
}

#[test]
fn redo_reverts_then_applies_current() {
    let m = three();
    let mut d = Recorder::at(2);
    redo(&mut d, &m).unwrap();
    assert_eq!(calls(&d), vec![("down2", 1), ("up2", 2)]);
    assert_eq!(d.current, 2);
}

#[test]
fn revert_runs_one_down_script() {
    let m = three();
    let mut d = Recorder::at(2);
    revert(&mut d, &m).unwrap();
    assert_eq!(calls(&d), vec![("down2", 1)]);
    assert_eq!(d.current, 1);
}

#[test]
fn redo_and_revert_at_zero_do_nothing() {
    let m = three();
    let mut d = Recorder::at(0);
    redo(&mut d, &m).unwrap();
    revert(&mut d, &m).unwrap();
    assert!(d.calls.is_empty());
    assert_eq!(d.current, 0);
}

#[test]
fn up_stops_at_first_failure_without_rollback() {
    let m = three();
    let mut d = Recorder::at(0);
    d.fail_script = Some("up2".to_string());
    match up(&mut d, &m) {
        Err(MigrationError::MigrationExecutionFailure(2, Direction::Up, cause)) => {
            assert_eq!(cause, "syntax error")
        }
        other => panic!("unexpected {:?}", other),
    }
    assert_eq!(calls(&d), vec![("up1", 1), ("up2", 2)]);
    assert_eq!(d.current, 1);
}

#[test]
fn down_failure_names_migration_and_direction() {
    let m = three();
    let mut d = Recorder::at(3);
    d.fail_script = Some("down2".to_string());
    match down(&mut d, &m) {
        Err(MigrationError::MigrationExecutionFailure(2, Direction::Down, _)) => {}
        other => panic!("unexpected {:?}", other),
    }
    assert_eq!(d.current, 2);
}

#[test]
fn version_past_last_migration_is_a_store_failure() {
    let m = three();
    let mut d = Recorder::at(5);
    match revert(&mut d, &m) {
        Err(MigrationError::VersionStoreFailure(_)) => {}
        other => panic!("unexpected {:?}", other),
    }
    assert!(d.calls.is_empty());
}

#[test]
fn plans_carry_scripts_versions_and_filenames() {
    let m = three();
    let p = up_plan(&m, 1);
    assert_eq!(p.len(), 2);
    assert_eq!(p[0].number, 2);
    assert_eq!(p[0].direction, Direction::Up);
    assert_eq!(p[0].filename, "0002.m2.up.sql");
    assert_eq!(p[0].content.as_deref(), Some("up2"));
    let p = down_plan(&m, 2);
    assert_eq!(p.iter().map(|f| f.number).collect::<Vec<_>>(), vec![2, 1]);
    assert_eq!(p[1].filename, "0001.m1.down.sql");
    let p = redo_plan(&m, 3);
    assert_eq!(p.len(), 2);
    assert_eq!(p[0].direction, Direction::Down);
    assert_eq!(p[1].direction, Direction::Up);
    assert_eq!(revert_plan(&m, 0).len(), 0);
}

#[test]
fn status_marks_current() {
    let m = three();
    let mut d = Recorder::at(2);
    let report = status(&mut d, &m).unwrap();
    assert_eq!(report.current, 2);
    let marks: Vec<(u16, &str, bool)> =
        report.entries.iter().map(|e| (e.number, e.name.as_str(), e.current)).collect();
    assert_eq!(marks, vec![(1, "m1", false), (2, "m2", true), (3, "m3", false)]);
}

#[test]
fn create_on_empty_set_allocates_one() {
    let m = Migrations::new();
    let (u, d) = create(&m, "init").unwrap();
    assert_eq!(u, "0001.init.up.sql");
    assert_eq!(d, "0001.init.down.sql");
}

#[test]
fn create_after_two_allocates_three() {
    let mut m = Migrations::new();
    m.push("a".to_string(), String::new(), String::new());
    m.push("b".to_string(), String::new(), String::new());
    let (u, d) = create(&m, "add users").unwrap();
    assert_eq!(u, "0003.add_users.up.sql");
    assert_eq!(d, "0003.add_users.down.sql");
}

#[test]
fn create_rejects_slug_off_the_grammar() {
    match create_migration("bad-slug", 4) {
        Err(MigrationError::InvalidFilename(t)) => assert_eq!(t, "0004.bad-slug.up.sql"),
        other => panic!("unexpected {:?}", other),
    }
    match create_migration("ok", 10000) {
        Err(MigrationError::InvalidFilename(t)) => assert_eq!(t, "10000.ok.up.sql"),
        other => panic!("unexpected {:?}", other),
    }
}

#[test]
fn sanitize_replaces_spaces_only() {
    assert_eq!(sanitize_slug("a b  c-d"), "a_b__c-d");
}

#[test]
fn load_then_up_runs_both_scripts() {
    let files = vec![
        ("0001.init.up.sql".to_string(), "CREATE TABLE t (id INT);".to_string()),
        ("0001.init.down.sql".to_string(), "DROP TABLE t;".to_string()),
        ("0002.add_users.up.sql".to_string(), "CREATE TABLE users (id INT);".to_string()),
        ("0002.add_users.down.sql".to_string(), "DROP TABLE users;".to_string()),
    ];
    let m = migrations_from_files(&files).unwrap();
    assert_eq!(m.get(1).unwrap().name, "init");
    assert_eq!(m.get(2).unwrap().name, "add_users");
    let mut d = Recorder::at(0);
    up(&mut d, &m).unwrap();
    assert_eq!(
        calls(&d),
        vec![("CREATE TABLE t (id INT);", 1), ("CREATE TABLE users (id INT);", 2)]
    );
    assert_eq!(d.current, 2);
}

#[test]
fn driver_call_hands_script_and_resulting_version() {
    let m = three();
    let up_step = &up_plan(&m, 1)[0];
    assert_eq!(driver_call(up_step), ("up2".to_string(), 2));
    let down_step = &down_plan(&m, 2)[0];
    assert_eq!(driver_call(down_step), ("down2".to_string(), 1));
}

#[test]
fn step_result_keeps_the_cause() {
    let m = three();
    let step = &down_plan(&m, 3)[0];
    assert!(step_result(step, Ok(())).is_ok());
    match step_result(step, Err("boom".to_string())) {
        Err(MigrationError::MigrationExecutionFailure(3, Direction::Down, c)) => assert_eq!(c, "boom"),
        other => panic!("unexpected {:?}", other),
    }
}

#[test]
fn after_step_runs_next_finishes_or_stops() {
    let m = three();
    let steps = up_plan(&m, 0);
    assert!(matches!(after_step(&steps, 0, Ok(())), StepAction::Run(1)));
    assert!(matches!(after_step(&steps, 2, Ok(())), StepAction::Done));
    let failure = MigrationError::MigrationExecutionFailure(2, Direction::Up, "x".to_string());
    match after_step(&steps, 1, Err(failure)) {
        StepAction::Stop(MigrationError::MigrationExecutionFailure(2, Direction::Up, c)) => {
            assert_eq!(c, "x")
        }
        other => panic!("unexpected {:?}", other),
    }
}

#[test]
fn register_value_keeps_value_or_cause() {
    assert_eq!(register_value(Ok(4)).unwrap(), 4);
    match register_value(Err("no row".to_string())) {
        Err(MigrationError::VersionStoreFailure(c)) => assert_eq!(c, "no row"),
        other => panic!("unexpected {:?}", other),
    }
}

#[test]
fn steps_reject_version_past_last() {
    let m = three();
    assert!(matches!(up_steps(&m, 4), Err(MigrationError::VersionStoreFailure(_))));
    assert!(matches!(down_steps(&m, 4), Err(MigrationError::VersionStoreFailure(_))));
    assert!(matches!(redo_steps(&m, 4), Err(MigrationError::VersionStoreFailure(_))));
    assert!(matches!(revert_steps(&m, 4), Err(MigrationError::VersionStoreFailure(_))));
    assert_eq!(up_steps(&m, 3).unwrap().len(), 0);
    assert_eq!(down_steps(&m, 3).unwrap().len(), 3);
    assert_eq!(redo_steps(&m, 1).unwrap().len(), 2);
    assert_eq!(revert_steps(&m, 0).unwrap().len(), 0);
}

#[test]
fn redo_failing_in_down_half_skips_up_half() {
    let m = three();
    let mut d = Recorder::at(2);
    d.fail_script = Some("down2".to_string());
    match redo(&mut d, &m) {
        Err(MigrationError::MigrationExecutionFailure(2, Direction::Down, c)) => {
            assert_eq!(c, "syntax error")
        }
        other => panic!("unexpected {:?}", other),
    }
    assert_eq!(calls(&d), vec![("down2", 1)]);
    assert_eq!(d.current, 2);
}

#[test]
fn redo_failing_in_up_half_leaves_down_applied() {
    let m = three();
    let mut d = Recorder::at(2);
    d.fail_script = Some("up2".to_string());
    match redo(&mut d, &m) {
        Err(MigrationError::MigrationExecutionFailure(2, Direction::Up, _)) => {}
        other => panic!("unexpected {:?}", other),
    }
    assert_eq!(calls(&d), vec![("down2", 1), ("up2", 2)]);
    assert_eq!(d.current, 1);
}

#[test]
fn revert_failure_keeps_cause_and_version() {
    let m = three();
    let mut d = Recorder::at(3);
    d.fail_script = Some("down3".to_string());
    match revert(&mut d, &m) {
        Err(MigrationError::MigrationExecutionFailure(3, Direction::Down, c)) => {
            assert_eq!(c, "syntax error")
        }
        other => panic!("unexpected {:?}", other),
    }
    assert_eq!(calls(&d), vec![("down3", 2)]);
    assert_eq!(d.current, 3);
}

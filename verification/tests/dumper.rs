use mcfly::dumper::{dump_selection, DumpEntry};
use mcfly::init::Init;
use mcfly::schema::{migration_plan, MigrationPlan, SchemaError};
use mcfly::settings::InitMode;
use mcfly::shell_history::HistoryError;
use mcfly::time::{time_bound, timestamp_numbers_in_range, TimeError};

fn entry(cmd: &str, when_run: i64) -> DumpEntry {
    DumpEntry { cmd: cmd.to_string(), when_run }
}

fn cmds(v: &[DumpEntry]) -> Vec<(String, i64)> {
    v.iter().map(|e| (e.cmd.clone(), e.when_run)).collect()
}

#[test]
fn empty_history_dumps_nothing() {
    assert!(matches!(dump_selection(vec![], None), Ok(None)));
    assert!(matches!(dump_selection(vec![], Some("^cargo")), Ok(None)));
}

#[test]
fn dump_without_pattern_keeps_every_entry() {
    let r = dump_selection(vec![entry("ls", 1), entry("cargo run", 2)], None).unwrap().unwrap();
    assert_eq!(cmds(&r), vec![("ls".to_string(), 1), ("cargo run".to_string(), 2)]);
}

#[test]
fn dump_pattern_filters_commands() {
    let es = vec![entry("cargo run", 1), entry("ls", 2), entry("cargo run --release", 3)];
    let r = dump_selection(es, Some("^cargo run")).unwrap().unwrap();
    assert_eq!(cmds(&r), vec![("cargo run".to_string(), 1), ("cargo run --release".to_string(), 3)]);
    let none = dump_selection(vec![entry("ls", 1)], Some("^git")).unwrap().unwrap();
    assert!(none.is_empty());
}

#[test]
fn dump_pattern_that_does_not_compile_is_refused() {
    assert!(matches!(
        dump_selection(vec![entry("ls", 1)], Some("(")),
        Err(HistoryError::InvalidPattern)
    ));
}

#[test]
fn time_bounds_come_from_the_text() {
    assert!(matches!(time_bound(None), Ok(None)));
    assert!(matches!(time_bound(Some("@0s")), Ok(Some(0))));
    assert!(matches!(time_bound(Some("@86400s")), Ok(Some(86400))));
    assert!(matches!(time_bound(Some("not a time")), Err(TimeError::Invalid(_))));
    assert!(matches!(time_bound(Some("+200000y")), Err(TimeError::OutOfRange(_))));
    assert!(timestamp_numbers_in_range("2023-09-12 09:15:30"));
    assert!(!timestamp_numbers_in_range("1 3 0 0 0 1y"));
}

#[test]
fn powershell_script_names_the_executable() {
    let pwsh = Init::new(&InitMode::Powershell);
    assert_eq!(pwsh.script_text("& ::MCFLY:: search; ::MCFLY::", "/bin/mcfly"), "& /bin/mcfly search; /bin/mcfly");
    let bash = Init::new(&InitMode::Bash);
    assert_eq!(bash.script_text("::MCFLY::", "/bin/mcfly"), "::MCFLY::");
}

#[test]
fn schema_migration_takes_the_missing_steps() {
    assert_eq!(
        migration_plan(0),
        Ok(MigrationPlan {
            announce: true,
            add_cmd_tpl: true,
            add_session_id: true,
            add_selected_commands: true,
            record_version: true,
        })
    );
    assert_eq!(
        migration_plan(2),
        Ok(MigrationPlan {
            announce: true,
            add_cmd_tpl: false,
            add_session_id: false,
            add_selected_commands: true,
            record_version: true,
        })
    );
    assert_eq!(migration_plan(3).map(|p| p.announce), Ok(false));
    assert_eq!(migration_plan(4), Err(SchemaError::NewerThanSupported(4)));
}

use pgmt::start_run;
use pgmt::Error;
use pgmt::HistoryStoreModel;
use pgmt::MigrationAction;
use pgmt::MigrationEvent;
use pgmt::MigrationRun;
use pgmt::Placeholders;
use pgmt::RunPhase;
use pgmt::SqlFile;

fn file(name: &str, content: &str) -> SqlFile {
    SqlFile {
        content: content.to_string(),
        file_name: name.to_string(),
        file_path: format!("migrations/{}", name),
    }
}

/// Drives a run to its end against the in-memory store, failing the
/// execution of any script that contains one of the given fragments.
fn drive(mut run: MigrationRun, store: &mut HistoryStoreModel, failing: &[&str]) -> MigrationRun {
    loop {
        match run.next_action() {
            MigrationAction::Begin => {
                store.begin();
                run.on_event(MigrationEvent::Succeeded);
            }
            MigrationAction::InsertRow(row) => {
                store.append(row);
                run.on_event(MigrationEvent::Succeeded);
            }
            MigrationAction::Execute(sql) => {
                if failing.iter().any(|f| sql.contains(f)) {
                    run.on_event(MigrationEvent::DbError("script failed".to_string()));
                } else {
                    run.on_event(MigrationEvent::Succeeded);
                }
            }
            MigrationAction::Commit => {
                store.commit();
                run.on_event(MigrationEvent::Succeeded);
            }
            MigrationAction::Rollback => {
                store.rollback();
                run.on_event(MigrationEvent::Succeeded);
            }
            MigrationAction::Stop => return run,
        }
    }
}

#[test]
fn fresh_database_one_v_migration() {
    let files = vec![file("V1.0.0__migration.sql", "CREATE TABLE table_1 (id INT);")];
    let mut store = HistoryStoreModel::new();
    let history = store.read_all().clone();
    let run = start_run(files, &history, Placeholders::new()).unwrap();
    let run = drive(run, &mut store, &[]);
    assert!(matches!(run.phase, RunPhase::Done));

    let rows = store.read_all();
    assert_eq!(rows.len(), 1);
    assert_eq!(rows[0].installed_rank, 1);
    assert_eq!(rows[0].version.as_deref(), Some("1.0.0"));
    assert_eq!(rows[0].description, "migration.sql");
    assert_eq!(rows[0].kind, "V");
    assert_eq!(rows[0].script, "V1.0.0__migration.sql");
    assert_eq!(rows[0].installed_by, "installed_by");
    assert_eq!(rows[0].execution_time, 0);
    assert!(rows[0].success);
    assert_eq!(
        rows[0].checksum,
        crc32fast::hash("CREATE TABLE table_1 (id INT);".as_bytes()) as i32
    );
}

#[test]
fn second_run_applies_only_new_files() {
    let migration_1 = file("V1.0.0__migration.sql", "CREATE TABLE table_1 (id INT);\n");
    let migration_2 = file(
        "V1.1.0__migration.sql",
        "ALTER TABLE table_1 ADD COLUMN name TEXT NOT NULL;\n",
    );

    let mut store = HistoryStoreModel::new();
    let history = store.read_all().clone();
    let run = start_run(vec![migration_1.clone()], &history, Placeholders::new()).unwrap();
    let run = drive(run, &mut store, &[]);
    assert!(matches!(run.phase, RunPhase::Done));
    assert_eq!(store.read_all().len(), 1);

    // The second run sees both files, in scrambled order; only the newer
    // one is applied, and version order decides, not arrival order.
    let history = store.read_all().clone();
    let run = start_run(
        vec![migration_2, migration_1],
        &history,
        Placeholders::new(),
    )
    .unwrap();
    let run = drive(run, &mut store, &[]);
    assert!(matches!(run.phase, RunPhase::Done));

    let rows = store.read_all();
    assert_eq!(rows.len(), 2);
    assert_eq!(rows[0].installed_rank, 1);
    assert_eq!(rows[0].script, "V1.0.0__migration.sql");
    assert_eq!(rows[1].installed_rank, 2);
    assert_eq!(rows[1].script, "V1.1.0__migration.sql");
    assert!(rows[0].installed_rank < rows[1].installed_rank);
}

#[test]
fn failed_migration_leaves_no_trace() {
    let files = vec![file(
        "V1.0.0__x.sql",
        "CREATE TABLE users (id INT);\nCREATE TABLE users (id INT);",
    )];
    let mut store = HistoryStoreModel::new();
    let history = store.read_all().clone();
    let run = start_run(files, &history, Placeholders::new()).unwrap();
    let run = drive(run, &mut store, &["CREATE TABLE users"]);
    match run.phase {
        RunPhase::Failed(Error::Database(m)) => assert_eq!(m, "script failed"),
        _ => panic!("expected the run to fail on the script error"),
    }
    // The rolled-back transaction left no history row behind.
    assert_eq!(store.read_all().len(), 0);
}

#[test]
fn remaining_files_are_not_attempted_after_a_failure() {
    let files = vec![
        file("V1.0.0__ok.sql", "CREATE TABLE a (id INT);"),
        file("V1.1.0__bad.sql", "BROKEN;"),
        file("V1.2.0__never.sql", "CREATE TABLE b (id INT);"),
    ];
    let mut store = HistoryStoreModel::new();
    let history = store.read_all().clone();
    let run = start_run(files, &history, Placeholders::new()).unwrap();
    let run = drive(run, &mut store, &["BROKEN"]);
    assert!(matches!(run.phase, RunPhase::Failed(Error::Database(_))));
    // Only the first migration committed; the failing one rolled back and
    // the one after it was never attempted.
    let rows = store.read_all();
    assert_eq!(rows.len(), 1);
    assert_eq!(rows[0].script, "V1.0.0__ok.sql");
}

#[test]
fn missing_placeholder_fails_the_run() {
    let files = vec![file("V1.0.0__q.sql", "SELECT ${who};")];
    let mut store = HistoryStoreModel::new();
    let history = store.read_all().clone();
    let run = start_run(files, &history, Placeholders::new()).unwrap();
    let run = drive(run, &mut store, &[]);
    match run.phase {
        RunPhase::Failed(Error::MissingVariableTemplateError(e)) => assert_eq!(e.name, "who"),
        _ => panic!("expected a missing-placeholder failure"),
    }
    // No history row and no script execution survive.
    assert_eq!(store.read_all().len(), 0);
}

#[test]
fn u_and_r_files_are_ignored() {
    let files = vec![
        file("V1.0.0__a.sql", "CREATE TABLE a (id INT);"),
        file("U1.0.0__a.sql", "DROP TABLE a;"),
        file("R__seed.sql", "INSERT INTO a VALUES (1);"),
    ];
    let mut store = HistoryStoreModel::new();
    let history = store.read_all().clone();
    let run = start_run(files, &history, Placeholders::new()).unwrap();
    let run = drive(run, &mut store, &[]);
    assert!(matches!(run.phase, RunPhase::Done));
    let rows = store.read_all();
    assert_eq!(rows.len(), 1);
    assert_eq!(rows[0].script, "V1.0.0__a.sql");
    assert_eq!(rows[0].kind, "V");
}

#[test]
fn placeholders_are_expanded_before_execution() {
    let files = vec![file("V1.0.0__q.sql", "CREATE TABLE ${name} (id INT);")];
    let mut placeholders = Placeholders::new();
    placeholders.insert("name".to_string(), "accounts".to_string());
    let mut store = HistoryStoreModel::new();
    let history = store.read_all().clone();
    let run = start_run(files, &history, placeholders).unwrap();

    // Walk the run by hand to observe the executed script text.
    let mut run = run;
    let mut executed: Vec<String> = Vec::new();
    loop {
        match run.next_action() {
            MigrationAction::Begin => {
                store.begin();
                run.on_event(MigrationEvent::Succeeded);
            }
            MigrationAction::InsertRow(row) => {
                store.append(row);
                run.on_event(MigrationEvent::Succeeded);
            }
            MigrationAction::Execute(sql) => {
                executed.push(sql);
                run.on_event(MigrationEvent::Succeeded);
            }
            MigrationAction::Commit => {
                store.commit();
                run.on_event(MigrationEvent::Succeeded);
            }
            MigrationAction::Rollback => {
                store.rollback();
                run.on_event(MigrationEvent::Succeeded);
            }
            MigrationAction::Stop => break,
        }
    }
    assert!(matches!(run.phase, RunPhase::Done));
    assert_eq!(executed, vec!["CREATE TABLE accounts (id INT);".to_string()]);
}

#[test]
fn checksum_drift_is_detected_by_start_run() {
    let mut store = HistoryStoreModel::new();
    let history = store.read_all().clone();
    let run = start_run(
        vec![file("V1.0.0__m.sql", "A")],
        &history,
        Placeholders::new(),
    )
    .unwrap();
    let run = drive(run, &mut store, &[]);
    assert!(matches!(run.phase, RunPhase::Done));

    // The same file name now carries content B: the reconciler refuses.
    let history = store.read_all().clone();
    let res = start_run(
        vec![file("V1.0.0__m.sql", "B")],
        &history,
        Placeholders::new(),
    );
    match res {
        Err(Error::ChecksumMismatchError(e)) => {
            assert_eq!(e.file_name, "V1.0.0__m.sql");
            assert_eq!(e.file_checksum, crc32fast::hash(b"B") as i32);
            assert_eq!(e.applied_checksum, crc32fast::hash(b"A") as i32);
        }
        _ => panic!("expected a checksum mismatch"),
    }
    // No new history row was written.
    assert_eq!(store.read_all().len(), 1);
}

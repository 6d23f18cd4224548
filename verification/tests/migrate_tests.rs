use bootcore::migrate::{MigrationError, MigrationRun};

fn names(v: &[&str]) -> Vec<String> {
    v.iter().map(|s| s.to_string()).collect()
}

/// Drives one run to completion, executing every pending script
/// successfully; returns the names applied by this run, in order.
fn run_all(run: &mut MigrationRun) -> Vec<String> {
    let mut applied_now = Vec::new();
    while let Some(name) = run.next_pending() {
        run.record_applied(&name);
        applied_now.push(name);
    }
    applied_now
}

#[test]
fn fresh_store_applies_in_order() {
    let mut run = MigrationRun::new(names(&["m1_create_users", "m2_add_index"]), Vec::new());
    let applied_now = run_all(&mut run);
    assert_eq!(applied_now, names(&["m1_create_users", "m2_add_index"]));
    assert_eq!(*run.recorded(), names(&["m1_create_users", "m2_add_index"]));
    assert!(run.next_pending().is_none());
}

#[test]
fn second_run_applies_nothing() {
    let embedded = names(&["m1_create_users", "m2_add_index"]);
    let mut first = MigrationRun::new(embedded.clone(), Vec::new());
    let _ = run_all(&mut first);
    let record = first.recorded().clone();

    let mut second = MigrationRun::new(embedded, record.clone());
    let applied_now = run_all(&mut second);
    assert!(applied_now.is_empty());
    assert_eq!(*second.recorded(), record);
}

#[test]
fn already_recorded_names_are_skipped() {
    let run = MigrationRun::new(names(&["m1", "m2"]), names(&["m1"]));
    assert_eq!(run.next_pending().unwrap(), "m2".to_string());
}

#[test]
fn failure_keeps_prior_and_resumes_there() {
    let embedded = names(&["m1", "m2", "m3"]);

    // First run: m1 succeeds, m2's forward script fails; the run aborts.
    let mut run = MigrationRun::new(embedded.clone(), Vec::new());
    let first = run.next_pending().unwrap();
    assert_eq!(first, "m1".to_string());
    run.record_applied(&first);
    let failing = run.next_pending().unwrap();
    assert_eq!(failing, "m2".to_string());
    let err = MigrationError { failed: failing };
    assert_eq!(err.failed, "m2".to_string());

    // m1 is recorded, m2 is not.
    assert_eq!(*run.recorded(), names(&["m1"]));

    // A later run against the same store resumes at m2, not at m1.
    let mut retry = MigrationRun::new(embedded, run.recorded().clone());
    assert_eq!(retry.next_pending().unwrap(), "m2".to_string());
    let applied_now = run_all(&mut retry);
    assert_eq!(applied_now, names(&["m2", "m3"]));
    assert_eq!(*retry.recorded(), names(&["m1", "m2", "m3"]));
}

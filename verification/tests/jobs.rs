use euoni_converter::jobs::{
    converted_output_name, parse_status, status_name, unix_seconds, JobStatus, JobStore,
};

#[test]
fn creates_job_in_queued_state() {
    let mut store = JobStore::new();
    let job = store.create_job("example.png", "png", "jpg").expect("fresh job id");

    assert_eq!(job.status, JobStatus::Queued);
    assert_eq!(job.payload.from, "png");
    assert_eq!(job.payload.to, "jpg");
    assert_eq!(job.progress, 0);
    assert!(store.get(&job.id).is_some());
}

#[test]
fn updates_progress_and_status() {
    let mut store = JobStore::new();
    let job = store.create_job("example.png", "png", "jpg").expect("fresh job id");

    store.set_progress(&job.id, 42);
    store.update_status(&job.id, JobStatus::Processing);

    let saved = store.get(&job.id).expect("job should exist");
    assert_eq!(saved.progress, 42);
    assert_eq!(saved.status, JobStatus::Processing);
}

#[test]
fn recovers_processing_jobs_as_queued() {
    let mut store = JobStore::new();
    let job = store.create_job("pending.png", "png", "jpg").expect("fresh job id");
    store.update_status(&job.id, JobStatus::Processing);

    assert_eq!(store.recover_pending(), vec![job.id.clone()]);
    assert_eq!(store.get(&job.id).unwrap().status, JobStatus::Queued);
}

#[test]
fn removes_only_expired_terminal_jobs() {
    let mut store = JobStore::new();
    let completed = store.create_job("done.png", "png", "jpg").expect("fresh job id");
    store.update_status(&completed.id, JobStatus::Completed);
    let active = store.create_job("active.png", "png", "jpg").expect("fresh job id");

    let expired = store.remove_expired(completed.created_at + 3601, 3600);

    assert_eq!(expired, vec![completed.id.clone()]);
    assert!(store.get(&completed.id).is_none());
    assert!(store.get(&active.id).is_some());
}

#[test]
fn job_ids_are_32_lowercase_hex_digits() {
    let mut store = JobStore::new();
    let job = store.create_job("a.png", "png", "jpg").unwrap();
    assert_eq!(job.id.len(), 32);
    assert!(job.id.chars().all(|c| c.is_ascii_digit() || ('a'..='f').contains(&c)));
    let other = store.create_job("b.png", "png", "jpg").unwrap();
    assert_ne!(job.id, other.id);
    assert_eq!(store.list().len(), 2);
}

#[test]
fn a_taken_id_is_refused() {
    let mut store = JobStore::new();
    assert!(store.insert_job("x".to_string(), 5, "a.png", "png", "jpg").is_some());
    assert!(store.insert_job("x".to_string(), 6, "b.png", "png", "pdf").is_none());
    assert_eq!(store.list().len(), 1);
    assert_eq!(store.get("x").unwrap().input_name, "a.png");
}

#[test]
fn jobs_are_listed_in_order_of_creation() {
    let mut store = JobStore::new();
    store.insert_job("c".to_string(), 30, "c.png", "png", "jpg").unwrap();
    store.insert_job("a".to_string(), 10, "a.png", "png", "jpg").unwrap();
    store.insert_job("b".to_string(), 30, "b.png", "png", "jpg").unwrap();
    store.insert_job("d".to_string(), 20, "d.png", "png", "jpg").unwrap();
    let ids: Vec<String> = store.list().into_iter().map(|j| j.id).collect();
    assert_eq!(ids, vec!["a", "d", "c", "b"]);
}

#[test]
fn updates_of_a_missing_job_change_nothing() {
    let mut store = JobStore::new();
    store.insert_job("a".to_string(), 1, "a.png", "png", "jpg").unwrap();
    assert!(store.update_status("b", JobStatus::Failed).is_none());
    assert!(store.set_progress("b", 5).is_none());
    assert!(store.set_output("b", "x").is_none());
    assert!(store.set_error("b", "x").is_none());
    let a = store.get("a").unwrap();
    assert_eq!(a.status, JobStatus::Queued);
    assert_eq!(a.progress, 0);
}

#[test]
fn errors_fail_the_job_and_outputs_are_recorded() {
    let mut store = JobStore::new();
    store.insert_job("a".to_string(), 1, "a.png", "png", "jpg").unwrap();
    let failed = store.set_error("a", "boom").unwrap();
    assert_eq!(failed.status, JobStatus::Failed);
    assert_eq!(failed.error.as_deref(), Some("boom"));
    let with_output = store.set_output("a", "converted.jpg").unwrap();
    assert_eq!(with_output.output_name.as_deref(), Some("converted.jpg"));
}

#[test]
fn a_job_runs_through_its_lifecycle() {
    let mut store = JobStore::new();
    store.insert_job("a".to_string(), 1, "a.png", "png", "jpg").unwrap();
    let before = store.start_job("a").unwrap();
    assert_eq!(before.status, JobStatus::Queued);
    let running = store.get("a").unwrap();
    assert_eq!(running.status, JobStatus::Processing);
    assert_eq!(running.progress, 10);
    let name = converted_output_name(&before.payload.to);
    assert_eq!(name, "converted.jpg");
    let done = store.complete_job("a", &name).unwrap();
    assert_eq!(done.status, JobStatus::Completed);
    assert_eq!(done.progress, 100);
    assert_eq!(done.output_name.as_deref(), Some("converted.jpg"));
    assert!(store.start_job("missing").is_none());
}

#[test]
fn recovery_lists_queued_jobs_in_creation_order() {
    let mut store = JobStore::new();
    store.insert_job("a".to_string(), 1, "a.png", "png", "jpg").unwrap();
    store.insert_job("b".to_string(), 2, "b.png", "png", "jpg").unwrap();
    store.insert_job("c".to_string(), 3, "c.png", "png", "jpg").unwrap();
    store.update_status("a", JobStatus::Processing);
    store.update_status("b", JobStatus::Completed);
    assert_eq!(store.recover_pending(), vec!["a", "c"]);
    assert_eq!(store.get("b").unwrap().status, JobStatus::Completed);
}

#[test]
fn expiry_keeps_recent_and_unfinished_jobs() {
    let mut store = JobStore::new();
    store.insert_job("old-done".to_string(), 100, "a.png", "png", "jpg").unwrap();
    store.insert_job("old-failed".to_string(), 100, "a.png", "png", "jpg").unwrap();
    store.insert_job("old-queued".to_string(), 100, "a.png", "png", "jpg").unwrap();
    store.insert_job("new-done".to_string(), 200, "a.png", "png", "jpg").unwrap();
    store.update_status("old-done", JobStatus::Completed);
    store.set_error("old-failed", "x");
    store.update_status("new-done", JobStatus::Cancelled);
    assert_eq!(store.expired_job_ids(150, 50), vec!["old-done", "old-failed"]);
    assert_eq!(store.expired_job_ids(10, 50), Vec::<String>::new());
    store.delete("old-done");
    assert!(store.get("old-done").is_none());
    assert_eq!(store.remove_expired(250, 50), vec!["old-failed", "new-done"]);
    let left: Vec<String> = store.list().into_iter().map(|j| j.id).collect();
    assert_eq!(left, vec!["old-queued"]);
}

#[test]
fn status_names_read_back_as_their_status() {
    for status in [
        JobStatus::Queued,
        JobStatus::Processing,
        JobStatus::Completed,
        JobStatus::Failed,
        JobStatus::Cancelled,
    ] {
        assert_eq!(parse_status(status_name(&status)), status);
    }
    assert_eq!(status_name(&JobStatus::Cancelled), "cancelled");
    assert_eq!(parse_status("anything"), JobStatus::Queued);
}

#[test]
fn saved_jobs_restore_the_same_table() {
    let mut store = JobStore::new();
    store.insert_job("b".to_string(), 20, "b.png", "png", "jpg");
    store.insert_job("a".to_string(), 10, "a.wav", "wav", "mp3");
    store.insert_job("c".to_string(), 20, "c.mp4", "mp4", "wav");
    store.set_error("a", "ffmpeg failed: boom");
    store.complete_job("c", "converted.wav");

    let saved = store.list();
    let reopened = JobStore::from_saved(&saved);
    assert_eq!(reopened.list(), saved);
    assert_eq!(reopened.get("c").unwrap().output_name.as_deref(), Some("converted.wav"));
    assert_eq!(reopened.get("a").unwrap().status, JobStatus::Failed);
}

#[test]
fn restoring_a_known_id_changes_nothing() {
    let mut store = JobStore::new();
    let job = store.insert_job("x".to_string(), 5, "x.png", "png", "jpg").unwrap();
    let mut changed = job.clone();
    changed.progress = 77;
    assert!(!store.restore(changed));
    assert_eq!(store.get("x"), Some(job));
    let mut other = store.get("x").unwrap();
    other.id = "y".to_string();
    other.created_at = 1;
    assert!(store.restore(other));
    let ids: Vec<String> = store.list().into_iter().map(|j| j.id).collect();
    assert_eq!(ids, vec!["y".to_string(), "x".to_string()]);
}

#[test]
fn deleting_expired_ids_matches_remove_expired() {
    let build = || {
        let mut store = JobStore::new();
        store.insert_job("old-done".to_string(), 100, "a.png", "png", "jpg");
        store.insert_job("old-active".to_string(), 100, "b.png", "png", "jpg");
        store.insert_job("new-done".to_string(), 5000, "c.png", "png", "jpg");
        store.insert_job("old-failed".to_string(), 200, "d.png", "png", "jpg");
        store.update_status("old-done", JobStatus::Completed);
        store.update_status("new-done", JobStatus::Completed);
        store.set_error("old-failed", "boom");
        store
    };
    let mut one_by_one = build();
    let ids = one_by_one.expired_job_ids(4000, 3600);
    assert_eq!(ids, vec!["old-done".to_string(), "old-failed".to_string()]);
    for id in &ids {
        one_by_one.delete(id);
    }
    let mut at_once = build();
    assert_eq!(at_once.remove_expired(4000, 3600), ids);
    assert_eq!(one_by_one.list(), at_once.list());
    assert_eq!(one_by_one.list().len(), 2);
}

#[test]
fn clock_readings_before_the_epoch_count_as_zero() {
    assert_eq!(unix_seconds(Some(1_700_000_000)), 1_700_000_000);
    assert_eq!(unix_seconds(None), 0);
}

#[test]
fn a_run_is_begun_then_finished() {
    let mut store = JobStore::new();
    store.insert_job("j".to_string(), 3, "in.png", "png", "jpg");
    assert_eq!(store.begin_run("missing"), Err("job not found".to_string()));

    let found = store.begin_run("j").unwrap();
    assert_eq!(found.status, JobStatus::Queued);
    let running = store.get("j").unwrap();
    assert_eq!(running.status, JobStatus::Processing);
    assert_eq!(running.progress, 10);

    assert_eq!(store.finish_run("j", "converted.jpg", Ok(())), Ok(()));
    let done = store.get("j").unwrap();
    assert_eq!(done.status, JobStatus::Completed);
    assert_eq!(done.progress, 100);
    assert_eq!(done.output_name.as_deref(), Some("converted.jpg"));

    store.insert_job("k".to_string(), 4, "in.wav", "wav", "mp3");
    store.begin_run("k").unwrap();
    assert_eq!(
        store.finish_run("k", "converted.mp3", Err("ffmpeg failed: boom".to_string())),
        Err("ffmpeg failed: boom".to_string())
    );
    let failed = store.get("k").unwrap();
    assert_eq!(failed.status, JobStatus::Failed);
    assert_eq!(failed.error.as_deref(), Some("ffmpeg failed: boom"));
    assert_eq!(failed.output_name, None);
}

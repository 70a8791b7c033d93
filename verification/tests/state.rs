use pdf2vid::state::JobSlot;

#[test]
fn only_one_export_runs_at_a_time() {
    let mut slot = JobSlot::new();
    assert!(slot.try_start_export("a".into()).is_ok());
    assert_eq!(
        slot.try_start_export("b".into()).unwrap_err(),
        "An export is already running; cancel it before starting a new one"
    );
    assert_eq!(slot.active.as_ref().unwrap().job_id, "a");
}

#[test]
fn cancel_flags_the_running_job_and_finish_clears_it() {
    let mut slot = JobSlot::new();
    assert_eq!(slot.cancel_job(), None);
    slot.start_job("job-1".into());
    assert!(!slot.is_cancelled("job-1"));
    assert_eq!(slot.cancel_job(), Some("job-1".to_string()));
    assert!(slot.is_cancelled("job-1"));
    assert_eq!(slot.cancel_job(), Some("job-1".to_string()));
    slot.finish_job("job-1");
    assert!(slot.active.is_none());
}

#[test]
fn a_stale_job_cannot_clear_a_newer_one() {
    let mut slot = JobSlot::new();
    slot.start_job("old".into());
    slot.start_job("new".into());
    slot.finish_job("old");
    assert_eq!(slot.active.as_ref().unwrap().job_id, "new");
    assert!(slot.is_cancelled("old"));
    assert!(!slot.is_cancelled("new"));
}

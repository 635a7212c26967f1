use turmy::job::{remember_finished_jobs, visible_jobs, Job};

fn test_job(id: &str) -> Job {
    Job {
        job_id: id.to_string(),
        array_id: id.to_string(),
        array_step: None,
        name: format!("job-{id}"),
        state: "RUNNING".to_string(),
        state_compact: "R".to_string(),
        reason: None,
        user: "user".to_string(),
        time: "00:01".to_string(),
        time_limit: "01:00:00".to_string(),
        start_time: "N/A".to_string(),
        tres: "cpu=1".to_string(),
        partition: "debug".to_string(),
        nodelist: "node01".to_string(),
        stdout: None,
        stderr: None,
        command: "true".to_string(),
        finished: false,
    }
}

fn ids(jobs: &[Job]) -> Vec<String> {
    jobs.iter().map(Job::id).collect()
}

#[test]
fn disappeared_jobs_are_remembered_and_can_be_filtered() {
    let previous = vec![test_job("1"), test_job("2")];
    let mut refreshed_job = test_job("2");
    refreshed_job.time = "00:02".to_string();

    let remembered = remember_finished_jobs(previous, vec![refreshed_job]);

    assert_eq!(remembered.len(), 2);
    assert_eq!(remembered[0].id(), "2");
    assert_eq!(remembered[0].time, "00:02");
    assert!(!remembered[0].finished);
    assert_eq!(remembered[1].id(), "1");
    assert_eq!(remembered[1].state, "FINISHED");
    assert_eq!(remembered[1].state_compact, "F");
    assert!(remembered[1].finished);

    assert_eq!(
        visible_jobs(&remembered, false)
            .iter()
            .map(Job::id)
            .collect::<Vec<_>>(),
        ["2"]
    );
    assert_eq!(
        visible_jobs(&remembered, true)
            .iter()
            .map(Job::id)
            .collect::<Vec<_>>(),
        ["2", "1"]
    );
}

#[test]
fn reappearing_job_becomes_active_again() {
    let remembered = remember_finished_jobs(vec![test_job("1")], Vec::new());
    assert!(remembered[0].finished);

    let mut reappeared = test_job("1");
    reappeared.time = "00:03".to_string();
    let remembered = remember_finished_jobs(remembered, vec![reappeared]);

    assert_eq!(remembered.len(), 1);
    assert_eq!(remembered[0].state, "RUNNING");
    assert_eq!(remembered[0].time, "00:03");
    assert!(!remembered[0].finished);
}

#[test]
fn array_steps_are_named_after_their_array() {
    let mut job = test_job("7");
    job.array_id = "5".to_string();
    job.array_step = Some("[80-500]".to_string());
    assert_eq!(job.id(), "5_[80-500]");
}

#[test]
fn finished_jobs_keep_their_output_files() {
    let mut job = test_job("1");
    job.stdout = Some("/tmp/1.out".to_string());
    job.stderr = Some("/tmp/1.err".to_string());
    job.reason = Some("Priority".to_string());
    let remembered = remember_finished_jobs(vec![job], vec![test_job("2")]);
    assert_eq!(ids(&remembered), ["2", "1"]);
    assert_eq!(remembered[1].stdout.as_deref(), Some("/tmp/1.out"));
    assert_eq!(remembered[1].stderr.as_deref(), Some("/tmp/1.err"));
    assert_eq!(remembered[1].reason, None);
}

#[test]
fn a_second_refresh_with_the_same_jobs_changes_nothing() {
    let once = remember_finished_jobs(vec![test_job("1"), test_job("2")], vec![test_job("3")]);
    let twice = remember_finished_jobs(
        remember_finished_jobs(vec![test_job("1"), test_job("2")], vec![test_job("3")]),
        vec![test_job("3")],
    );
    assert_eq!(ids(&once), ids(&twice));
    assert_eq!(ids(&once), ["3", "1", "2"]);
    assert!(twice[2].finished);
}

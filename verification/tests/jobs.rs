use koharu::jobs::{
    export_allowed, export_selection, export_stems, final_job_state, progress_step,
    shell_command_error, start_allowed, ProgressEvent, RunOutcome,
};
use koharu::protocol::{AppErrorCode, JobState};

#[test]
fn a_second_process_is_a_conflict() {
    assert!(start_allowed(true, 0).is_ok());
    let error = start_allowed(true, 1).unwrap_err();
    assert_eq!(error.code, AppErrorCode::Conflict);
    assert_eq!(error.message, "another process is already running");
    let error = start_allowed(false, 1).unwrap_err();
    assert_eq!(error.code, AppErrorCode::NoProject);
    assert_eq!(error.message, "no project is open");
}

#[test]
fn a_start_counts_every_stage_of_every_page() {
    assert_eq!(
        progress_step(7, 9, ProgressEvent::Started { pages: 3, stages: 4 }),
        Some((0, 12))
    );
    assert_eq!(
        progress_step(0, 0, ProgressEvent::Started { pages: usize::MAX, stages: 2 }),
        Some((0, usize::MAX))
    );
}

#[test]
fn finished_and_skipped_steps_count_up_to_the_total() {
    assert_eq!(progress_step(2, 12, ProgressEvent::Finished), Some((3, 12)));
    assert_eq!(progress_step(2, 12, ProgressEvent::Skipped), Some((3, 12)));
    assert_eq!(progress_step(12, 12, ProgressEvent::Finished), Some((12, 12)));
    assert_eq!(
        progress_step(usize::MAX, usize::MAX, ProgressEvent::Skipped),
        Some((usize::MAX, usize::MAX))
    );
}

#[test]
fn loading_reports_and_running_is_silent() {
    assert_eq!(progress_step(4, 12, ProgressEvent::Loading), Some((4, 12)));
    assert_eq!(progress_step(4, 12, ProgressEvent::Running), None);
}

#[test]
fn counts_stay_within_the_total_over_a_run() {
    let mut counts = (0, 0);
    let events = [
        ProgressEvent::Started { pages: 1, stages: 2 },
        ProgressEvent::Loading,
        ProgressEvent::Running,
        ProgressEvent::Finished,
        ProgressEvent::Skipped,
        ProgressEvent::Finished,
    ];
    for event in events {
        if let Some(next) = progress_step(counts.0, counts.1, event) {
            counts = next;
        }
        assert!(counts.0 <= counts.1);
    }
    assert_eq!(counts, (2, 2));
}

#[test]
fn a_run_ends_as_its_outcome_says() {
    assert_eq!(final_job_state(RunOutcome::Completed), JobState::Finished);
    assert_eq!(final_job_state(RunOutcome::Stopped), JobState::Stopped);
    assert_eq!(final_job_state(RunOutcome::Failed), JobState::Failed);
}

#[test]
fn export_waits_for_processing_and_needs_a_project() {
    let error = export_allowed(1, true).unwrap_err();
    assert_eq!(error.code, AppErrorCode::Conflict);
    assert_eq!(
        error.message,
        "pages cannot be exported while processing is running"
    );
    assert_eq!(export_allowed(0, false).unwrap_err().code, AppErrorCode::NoProject);
    assert!(export_allowed(0, true).is_ok());
}

#[test]
fn an_empty_selection_exports_every_page() {
    assert_eq!(export_selection(vec![], &vec![5, 6, 7]), Ok(vec![5, 6, 7]));
    assert_eq!(export_selection(vec![6], &vec![5, 6, 7]), Ok(vec![6]));
    let error = export_selection(vec![], &vec![]).unwrap_err();
    assert_eq!(error.code, AppErrorCode::InvalidRequest);
    assert_eq!(error.message, "there are no pages to export");
}

#[test]
fn exported_files_are_numbered_in_export_order() {
    assert_eq!(
        export_stems(&vec!["cover".to_owned(), "b/c".to_owned()]),
        vec!["0001_cover".to_owned(), "0002_b_c".to_owned()]
    );
}

#[test]
fn shell_commands_are_refused() {
    let error = shell_command_error();
    assert_eq!(error.code, AppErrorCode::InvalidRequest);
    assert_eq!(error.message, "command belongs to the desktop shell");
}

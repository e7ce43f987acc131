//! Processing jobs and page export: when a run may start, how its progress
//! counts move, how it ends, and which pages an export writes.
use vstd::prelude::*;
use crate::names::{export_stem, spec_export_stem};
use crate::protocol::{AppError, AppErrorCode, JobState};

verus! {

/// A processing run may start only with a project open and no other run going.
pub fn start_allowed(has_project: bool, running_jobs: usize) -> (r: Result<(), AppError>)
    ensures
        !has_project ==> (r matches Err(e) && e.code == AppErrorCode::NoProject && e.message@
            == "no project is open"@),
        has_project && running_jobs > 0 ==> (r matches Err(e) && e.code == AppErrorCode::Conflict
            && e.message@ == "another process is already running"@),
        has_project && running_jobs == 0 ==> r is Ok,
{
    if !has_project {
        return Err(AppError::new(AppErrorCode::NoProject, "no project is open"));
    }
    if running_jobs > 0 {
        return Err(AppError::new(AppErrorCode::Conflict, "another process is already running"));
    }
    Ok(())
}

/// What the pipeline reports while a run goes on.
#[derive(Clone, Copy, Debug, PartialEq, Eq, Structural)]
pub enum ProgressEvent {
    /// The run covers this many pages, each through this many stages.
    Started { pages: usize, stages: usize },
    /// A stage is loading its model for a page.
    Loading,
    /// A stage finished a page.
    Finished,
    /// A stage had nothing to do for a page.
    Skipped,
    /// A stage is working on a page.
    Running,
}

/// A run's counts after an event: a start resets them to none of
/// `pages * stages` (capped at `usize::MAX`); a finished or skipped step counts
/// one more, never past the total; loading reports the counts unchanged; a
/// running step reports nothing and leaves them.
pub open spec fn spec_progress_step(completed: usize, total: usize, event: ProgressEvent) -> Option<
    (usize, usize),
> {
    match event {
        ProgressEvent::Started { pages, stages } => Some(
            (0usize, if pages * stages > usize::MAX { usize::MAX } else { (pages * stages) as usize }),
        ),
        ProgressEvent::Loading => Some((completed, total)),
        ProgressEvent::Finished | ProgressEvent::Skipped => Some(
            (if completed + 1 > total { total } else { (completed + 1) as usize }, total),
        ),
        ProgressEvent::Running => None,
    }
}

/// The counts a run's job shows after `event`, or `None` where the event
/// changes nothing and publishes no update.
pub fn progress_step(completed: usize, total: usize, event: ProgressEvent) -> (r: Option<(usize, usize)>)
    ensures
        r == spec_progress_step(completed, total, event),
{
    match event {
        ProgressEvent::Started { pages, stages } => {
            let all = match pages.checked_mul(stages) {
                Some(n) => n,
                None => usize::MAX,
            };
            Some((0, all))
        },
        ProgressEvent::Loading => Some((completed, total)),
        ProgressEvent::Finished | ProgressEvent::Skipped => {
            let next = completed.saturating_add(1);
            let capped = if next > total { total } else { next };
            Some((capped, total))
        },
        ProgressEvent::Running => None,
    }
}

/// A job never shows more steps done than it has: from counts within the total,
/// every event leads to counts within the total, and a finished or skipped step
/// never lowers the count.
pub proof fn lemma_progress_within_total(completed: usize, total: usize, event: ProgressEvent)
    requires
        completed <= total,
    ensures
        match spec_progress_step(completed, total, event) {
            Some((c, t)) => c <= t,
            None => true,
        },
        (event is Finished || event is Skipped) ==> (spec_progress_step(completed, total, event)
            matches Some((c, t)) && completed <= c && t == total),
{
}

/// How the pipeline's run ended.
#[derive(Clone, Copy, Debug, PartialEq, Eq, Structural)]
pub enum RunOutcome {
    /// The run went through.
    Completed,
    /// The run was stopped on request.
    Stopped,
    /// The run failed with an error.
    Failed,
}

/// The state a job ends in for the way its run ended.
pub fn final_job_state(outcome: RunOutcome) -> (state: JobState)
    ensures
        state == match outcome {
            RunOutcome::Completed => JobState::Finished,
            RunOutcome::Stopped => JobState::Stopped,
            RunOutcome::Failed => JobState::Failed,
        },
{
    match outcome {
        RunOutcome::Completed => JobState::Finished,
        RunOutcome::Stopped => JobState::Stopped,
        RunOutcome::Failed => JobState::Failed,
    }
}

/// Pages may be exported only while no run goes on, and with a project open.
pub fn export_allowed(running_jobs: usize, has_project: bool) -> (r: Result<(), AppError>)
    ensures
        running_jobs > 0 ==> (r matches Err(e) && e.code == AppErrorCode::Conflict && e.message@
            == "pages cannot be exported while processing is running"@),
        running_jobs == 0 && !has_project ==> (r matches Err(e) && e.code == AppErrorCode::NoProject
            && e.message@ == "no project is open"@),
        running_jobs == 0 && has_project ==> r is Ok,
{
    if running_jobs > 0 {
        return Err(
            AppError::new(
                AppErrorCode::Conflict,
                "pages cannot be exported while processing is running",
            ),
        );
    }
    if !has_project {
        return Err(AppError::new(AppErrorCode::NoProject, "no project is open"));
    }
    Ok(())
}

/// The pages an export writes: the selected ones, or every page of the project
/// when none is selected; an error when that leaves none.
pub fn export_selection(selected: Vec<u128>, pages: &Vec<u128>) -> (r: Result<Vec<u128>, AppError>)
    ensures
        selected@.len() > 0 ==> (r matches Ok(chosen) && chosen@ == selected@),
        selected@.len() == 0 && pages@.len() > 0 ==> (r matches Ok(chosen) && chosen@ == pages@),
        selected@.len() == 0 && pages@.len() == 0 ==> (r matches Err(e) && e.code
            == AppErrorCode::InvalidRequest && e.message@ == "there are no pages to export"@),
{
    let chosen = if selected.len() == 0 {
        pages.clone()
    } else {
        selected
    };
    if chosen.len() == 0 {
        return Err(AppError::new(AppErrorCode::InvalidRequest, "there are no pages to export"));
    }
    Ok(chosen)
}

/// The file stems of the exported pages, from their labels in export order:
/// the page at `i` is numbered `i + 1`.
pub fn export_stems(labels: &Vec<String>) -> (stems: Vec<String>)
    ensures
        stems@.len() == labels@.len(),
        forall|i: int| 0 <= i < labels@.len() ==> #[trigger] stems@[i]@ == spec_export_stem(
            i as nat,
            labels@[i]@,
        ),
{
    let mut stems: Vec<String> = Vec::new();
    let mut i: usize = 0;
    while i < labels.len()
        invariant
            i <= labels@.len(),
            stems@.len() == i,
            forall|j: int| 0 <= j < i ==> #[trigger] stems@[j]@ == spec_export_stem(
                j as nat,
                labels@[j]@,
            ),
        decreases labels.len() - i,
    {
        stems.push(export_stem(i, labels[i].as_str()));
        i = i + 1;
    }
    stems
}

/// The error for a command that the desktop shell handles, not the application.
pub fn shell_command_error() -> (e: AppError)
    ensures
        e.code == AppErrorCode::InvalidRequest,
        e.message@ == "command belongs to the desktop shell"@,
{
    AppError::new(AppErrorCode::InvalidRequest, "command belongs to the desktop shell")
}

} // verus!

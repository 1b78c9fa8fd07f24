//! The dispatcher's decisions: how a batch of per-video jobs is run and how
//! their failures are reported.
//!
//! The workers, the thread pool and the terminal belong to the binary; what
//! is decided here is the mode, the progress accounting, and the batch's
//! aggregate result — one bad video never aborts its siblings unless the
//! diagnostic mode that propagates the first error is switched on.

use vstd::prelude::*;

use crate::error::Error;
use crate::screencaps::JobOutcome;
use crate::settings::Settings;

verus! {

/// How the batch is run: one job at a time, or fanned out over a pool.
#[derive(Debug, PartialEq, Eq, Structural)]
pub enum DispatchMode {
    Synchronous,
    Parallel,
}

/// The mode the settings ask for.
pub fn dispatch_mode(settings: &Settings) -> (r: DispatchMode)
    ensures
        r == (if settings.synchronous {
            DispatchMode::Synchronous
        } else {
            DispatchMode::Parallel
        }),
{
    if settings.synchronous() {
        DispatchMode::Synchronous
    } else {
        DispatchMode::Parallel
    }
}

/// How many steps one job's progress indicator counts: one per sample, plus
/// one for opening the container and one for saving the sheet.
pub fn progress_bar_length(settings: &Settings) -> (r: u64)
    requires
        settings.wf(),
    ensures
        r == settings.columns * settings.rows + 1 + 2,
{
    settings.num_captures() as u64 + 2
}

/// The outcome recorded for a video that vanished between discovery and
/// processing: the job is abandoned as failed, never a panic.
pub fn missing_file_outcome(path: &str) -> (r: JobOutcome)
    ensures
        r matches JobOutcome::Failed { error } && (error matches Error::MissingFile { path: p }
            && p@ == path@),
{
    JobOutcome::Failed { error: Error::MissingFile { path: path.to_owned() } }
}

/// The position of the first failed job, or `-1` when every job succeeded
/// or linked.
pub open spec fn spec_first_failed(outcomes: Seq<JobOutcome>) -> int
    decreases outcomes.len(),
{
    if outcomes.len() == 0 {
        -1
    } else if outcomes[0] is Failed {
        0
    } else {
        let r = spec_first_failed(outcomes.drop_first());
        if r == -1 {
            -1
        } else {
            r + 1
        }
    }
}

proof fn lemma_first_failed_at(outcomes: Seq<JobOutcome>, i: int)
    requires
        0 <= i < outcomes.len(),
        outcomes[i] is Failed,
        forall|j: int| 0 <= j < i ==> !(#[trigger] outcomes[j] is Failed),
    ensures
        spec_first_failed(outcomes) == i,
    decreases outcomes.len(),
{
    if i > 0 {
        lemma_first_failed_at(outcomes.drop_first(), i - 1);
    }
}

proof fn lemma_first_failed_none(outcomes: Seq<JobOutcome>)
    requires
        forall|j: int| 0 <= j < outcomes.len() ==> !(#[trigger] outcomes[j] is Failed),
    ensures
        spec_first_failed(outcomes) == -1,
    decreases outcomes.len(),
{
    if outcomes.len() > 0 {
        lemma_first_failed_none(outcomes.drop_first());
    }
}

/// The batch's aggregate result.  Completing the batch counts as success
/// even when individual jobs failed; only the diagnostic mode that unwraps
/// errors propagates a failure, and then it is the first one, returned here
/// as its position.
pub fn batch_result(outcomes: &Vec<JobOutcome>, unwrap_errors: bool) -> (r: Option<usize>)
    ensures
        r is Some <==> unwrap_errors && spec_first_failed(outcomes@) >= 0,
        r matches Some(i) ==> i == spec_first_failed(outcomes@) && outcomes@[i as int] is Failed,
{
    let mut i: usize = 0;
    while i < outcomes.len()
        invariant
            0 <= i <= outcomes@.len(),
            forall|j: int| 0 <= j < i ==> !(#[trigger] outcomes@[j] is Failed),
        decreases outcomes@.len() - i,
    {
        let failed = match &outcomes[i] {
            JobOutcome::Failed { .. } => true,
            _ => false,
        };
        if failed {
            proof {
                lemma_first_failed_at(outcomes@, i as int);
            }
            if unwrap_errors {
                return Some(i);
            } else {
                return None;
            }
        }
        i = i + 1;
    }
    proof {
        lemma_first_failed_none(outcomes@);
    }
    None
}

} // verus!

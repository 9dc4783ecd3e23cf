//! What the threads behind the menu-bar icon report, and when a transcript is pasted.

use vstd::prelude::*;

use crate::error;
use crate::error::AppError;
use crate::progress::ModelDownloadProgress;

verus! {

/// A report of a thread.
#[derive(Debug)]
pub enum WorkerEvent {
    /// A new status.
    Status(String),
    /// How far the transcription is, in percent.
    TranscriptionProgress(u8),
    /// How far the model's download is.
    ModelDownload(ModelDownloadProgress),
    /// The model's download is over.
    ModelDownloadDone,
    /// The transcript was pasted.
    Success(String),
    /// The transcript could not be pasted.
    PasteFailed { transcript: String, error: String },
    /// There is no transcript.
    Failed(String),
    /// The transcription was cancelled.
    Cancelled,
}

/// What the thread that transcribes a recording does next.
#[derive(Debug)]
pub enum WorkerStep {
    /// Transcribe the recording.
    Transcribe,
    /// Paste the transcript, followed by Enter where `submit` is set.
    Paste { transcript: String, submit: bool },
    /// Remove the recording's file.
    RemoveFile { report: WorkerEvent },
    /// Report what happened.
    Report { report: WorkerEvent },
    Done,
}

/// What came of a step.
#[derive(Debug)]
pub enum WorkerOutcome {
    /// The transcription has ended. `cancelled` says whether the user gave it up by then, and
    /// `submit` whether they want it sent.
    Transcribed { result: Result<String, AppError>, cancelled: bool, submit: bool },
    Pasted(Result<(), AppError>),
    /// The file was removed, or could not be.
    Removed,
    Reported,
}

/// Whether an outcome is one that a step can have.
pub open spec fn fits(step: WorkerStep, outcome: WorkerOutcome) -> bool {
    match step {
        WorkerStep::Transcribe => outcome is Transcribed,
        WorkerStep::Paste { .. } => outcome is Pasted,
        WorkerStep::RemoveFile { .. } => outcome is Removed,
        WorkerStep::Report { .. } => outcome is Reported,
        WorkerStep::Done => false,
    }
}

/// Whether `next` is what follows a step and its outcome.
pub open spec fn follows(step: WorkerStep, outcome: WorkerOutcome, next: WorkerStep) -> bool {
    match (step, outcome) {
        (WorkerStep::Transcribe, WorkerOutcome::Transcribed { result, cancelled, submit }) => {
            match result {
                Ok(text) => if cancelled {
                    next == (WorkerStep::RemoveFile { report: WorkerEvent::Cancelled })
                } else {
                    next == (WorkerStep::Paste { transcript: text, submit })
                },
                Err(e) => next matches WorkerStep::RemoveFile { report } && is_failure(report, e),
            }
        },
        (WorkerStep::Paste { transcript, .. }, WorkerOutcome::Pasted(pasted)) => match pasted {
            Ok(()) => next == (WorkerStep::RemoveFile { report: WorkerEvent::Success(transcript) }),
            Err(e) => next matches WorkerStep::RemoveFile { report }
                && report matches WorkerEvent::PasteFailed { transcript: kept, error }
                && kept == transcript && error@ == error::error_text(e),
        },
        (WorkerStep::RemoveFile { report }, WorkerOutcome::Removed) => next == (
        WorkerStep::Report { report }),
        (WorkerStep::Report { .. }, WorkerOutcome::Reported) => next == WorkerStep::Done,
        _ => false,
    }
}

/// Whether a report says that there is no transcript, and why.
pub open spec fn is_failure(report: WorkerEvent, e: AppError) -> bool {
    report matches WorkerEvent::Failed(why) && why@ == error::error_text(e)
}

impl WorkerStep {
    /// What to do once a step has ended.
    pub fn after(self, outcome: WorkerOutcome) -> (next: WorkerStep)
        requires
            fits(self, outcome),
        ensures
            follows(self, outcome, next),
    {
        match (self, outcome) {
            (WorkerStep::Transcribe, WorkerOutcome::Transcribed { result, cancelled, submit }) => {
                match result {
                    Ok(transcript) => if cancelled {
                        WorkerStep::RemoveFile { report: WorkerEvent::Cancelled }
                    } else {
                        WorkerStep::Paste { transcript, submit }
                    },
                    Err(e) => WorkerStep::RemoveFile { report: WorkerEvent::Failed(e.text()) },
                }
            },
            (WorkerStep::Paste { transcript, .. }, WorkerOutcome::Pasted(pasted)) => match pasted {
                Ok(()) => WorkerStep::RemoveFile { report: WorkerEvent::Success(transcript) },
                Err(e) => WorkerStep::RemoveFile {
                    report: WorkerEvent::PasteFailed { transcript, error: e.text() },
                },
            },
            (WorkerStep::RemoveFile { report }, _) => WorkerStep::Report { report },
            _ => WorkerStep::Done,
        }
    }
}

/// Whether a thread takes these steps, with these outcomes, from the first to the last.
pub open spec fn is_run(steps: Seq<WorkerStep>, outcomes: Seq<WorkerOutcome>) -> bool {
    &&& steps.len() == outcomes.len() + 1
    &&& steps[0] == WorkerStep::Transcribe
    &&& steps.last() == WorkerStep::Done
    &&& forall|i: int|
        0 <= i < outcomes.len() ==> follows(#[trigger] steps[i], outcomes[i], steps[i + 1])
}

/// A thread removes the recording's file and reports once, in this order, whatever happens;
/// before that it pastes exactly where there is a transcript and it was not cancelled.
pub proof fn lemma_worker_reports_once(steps: Seq<WorkerStep>, outcomes: Seq<WorkerOutcome>)
    requires
        is_run(steps, outcomes),
    ensures
        outcomes[0] is Transcribed,
        ({
            let pastes = outcomes[0]->result is Ok && !outcomes[0]->cancelled;
            let n: int = if pastes {
                1
            } else {
                0
            };
            &&& steps.len() == 4 + n
            &&& pastes ==> steps[1] is Paste
            &&& steps[1 + n] is RemoveFile
            &&& steps[2 + n] == (WorkerStep::Report { report: steps[1 + n]->RemoveFile_report })
            &&& steps[3 + n] == WorkerStep::Done
        }),
{
    assert(follows(steps[0], outcomes[0], steps[1]));
    let pastes = outcomes[0]->result is Ok && !outcomes[0]->cancelled;
    let n: int = if pastes {
        assert(follows(steps[1], outcomes[1], steps[2]));
        1
    } else {
        0
    };
    assert(follows(steps[1 + n], outcomes[1 + n], steps[2 + n]));
    assert(follows(steps[2 + n], outcomes[2 + n], steps[3 + n]));
    if outcomes.len() > 3 + n {
        assert(follows(steps[3 + n], outcomes[3 + n], steps[4 + n]));
    }
}

/// What is pasted, and reported, is what was transcribed: the transcript goes unchanged from the
/// transcription to the paste and into the report, with the wish to send it as it was when the
/// transcription ended. An error is reported in its own words, and what was cancelled as that.
pub proof fn lemma_worker_passes_the_transcript_on(
    steps: Seq<WorkerStep>,
    outcomes: Seq<WorkerOutcome>,
    report: WorkerEvent,
)
    requires
        is_run(steps, outcomes),
        steps.contains(WorkerStep::Report { report }),
    ensures
        outcomes[0] matches WorkerOutcome::Transcribed { result, cancelled, submit } && match result {
            Err(e) => report matches WorkerEvent::Failed(why) && why@ == error::error_text(e),
            Ok(transcript) => if cancelled {
                report == WorkerEvent::Cancelled
            } else {
                &&& steps[1] == (WorkerStep::Paste { transcript, submit })
                &&& outcomes[1] matches WorkerOutcome::Pasted(pasted) && match pasted {
                    Ok(()) => report == WorkerEvent::Success(transcript),
                    Err(e) => report matches WorkerEvent::PasteFailed { transcript: kept, error }
                        && kept == transcript && error@ == error::error_text(e),
                }
            },
        },
{
    lemma_worker_reports_once(steps, outcomes);
    let at = choose|i: int| 0 <= i < steps.len() && steps[i] == (WorkerStep::Report { report });
    let pastes = outcomes[0]->result is Ok && !outcomes[0]->cancelled;
    assert(follows(steps[0], outcomes[0], steps[1]));
    if pastes {
        assert(follows(steps[1], outcomes[1], steps[2]));
        assert(at == 3);
    } else {
        assert(at == 2);
    }
}

/// Reports what came of fetching the model when the app starts: the end of the download, and
/// then, where it failed, why.
pub fn after_model_fetch(fetched: Result<(), AppError>) -> (events: (WorkerEvent, Option<WorkerEvent>))
    ensures
        events.0 == WorkerEvent::ModelDownloadDone,
        match fetched {
            Ok(()) => events.1 is None,
            Err(e) => events.1 matches Some(WorkerEvent::Status(status)) && status@
                == "Model download failed: "@ + error::error_text(e),
        },
{
    match fetched {
        Ok(()) => (WorkerEvent::ModelDownloadDone, None),
        Err(e) => {
            let mut status = "Model download failed: ".to_string();
            status.append(e.text().as_str());
            (WorkerEvent::ModelDownloadDone, Some(WorkerEvent::Status(status)))
        },
    }
}

} // verus!

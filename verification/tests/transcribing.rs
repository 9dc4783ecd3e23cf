use diktovani::error::AppError;
use diktovani::transcribe::{
    append_transcription_log, clamp_progress, join_segments, TranscribeOutcome, TranscribeStep,
    Transcription, READY_STATUS,
};
use diktovani::worker::{after_model_fetch, WorkerEvent, WorkerOutcome, WorkerStep};

fn go(transcription: Transcription, outcome: TranscribeOutcome) -> Transcription {
    match transcription.transcribe_wav_file(outcome) {
        Ok(next) => next,
        Err(e) => panic!("{}", e.text()),
    }
}

fn before_inference() -> Transcription {
    let t = Transcription::new("en".to_string());
    assert_eq!(t.step(), TranscribeStep::ReadAudio);
    let t = go(t, TranscribeOutcome::Done);
    assert_eq!(t.step(), TranscribeStep::ExtractSamples);
    let t = go(t, TranscribeOutcome::Samples(16000));
    assert_eq!(t.step(), TranscribeStep::FetchModel);
    let t = go(t, TranscribeOutcome::Done);
    assert_eq!(t.step(), TranscribeStep::LoadModel);
    let t = go(t, TranscribeOutcome::Done);
    assert_eq!(t.step(), TranscribeStep::Announce);
    let t = go(t, TranscribeOutcome::Done);
    assert_eq!(t.step(), TranscribeStep::StartTicker);
    let t = go(t, TranscribeOutcome::Done);
    assert_eq!(t.step(), TranscribeStep::Infer);
    t
}

#[test]
fn a_transcription_runs_through() {
    let heard = " Ahoj. Titulky vytvořil JohnyX. ".to_string();
    let t = go(before_inference(), TranscribeOutcome::Heard(heard));
    assert_eq!(t.step(), TranscribeStep::StopTicker);
    let t = go(t, TranscribeOutcome::Done);
    assert_eq!(t.step(), TranscribeStep::ReportDone);
    let t = go(t, TranscribeOutcome::Done);
    assert_eq!(t.step(), TranscribeStep::Finished);
    assert_eq!(t.language(), "en");
    assert_eq!(t.into_transcript(), "Ahoj.");
    assert_eq!(READY_STATUS, "Model ready. Transcribing...");
}

#[test]
fn an_empty_recording_has_no_transcript() {
    let t = go(Transcription::new("en".to_string()), TranscribeOutcome::Done);
    let t = go(t, TranscribeOutcome::Samples(0));
    assert_eq!(t.step(), TranscribeStep::Finished);
    assert_eq!(t.into_transcript(), "");
}

fn failure(t: Transcription, outcome: TranscribeOutcome) -> String {
    match t.transcribe_wav_file(outcome) {
        Ok(_) => panic!("an error was expected"),
        Err(e) => e.text(),
    }
}

#[test]
fn transcriptions_fail() {
    assert_eq!(
        failure(
            Transcription::new("en".to_string()),
            TranscribeOutcome::Failed(AppError::Io("missing".to_string()))
        ),
        "IO error: missing"
    );
    assert_eq!(
        failure(before_inference(), TranscribeOutcome::NotLoaded),
        "Whisper model is not loaded."
    );
    assert_eq!(
        failure(before_inference(), TranscribeOutcome::Poisoned("p".to_string())),
        "Engine mutex poisoned: p"
    );
    assert_eq!(
        failure(before_inference(), TranscribeOutcome::GaveUp("g".to_string())),
        "Transcription failed: g"
    );
}

#[test]
fn progress_stays_between_bounds() {
    assert_eq!(clamp_progress(-5), 0);
    assert_eq!(clamp_progress(0), 0);
    assert_eq!(clamp_progress(42), 42);
    assert_eq!(clamp_progress(100), 100);
    assert_eq!(clamp_progress(i32::MAX), 100);
}

#[test]
fn segments_are_joined() {
    assert_eq!(join_segments(&vec![]), "");
    assert_eq!(join_segments(&vec![" Dobrý".to_string(), " den.".to_string()]), " Dobrý den.");
}

#[test]
fn timings_are_listed() {
    assert_eq!(append_transcription_log(true, "1.500", "0.750", 12), "1.500,0.750,12\n");
    assert_eq!(
        append_transcription_log(false, "1.500", "0.750", 12),
        "audio_seconds,transcription_seconds,transcript_bytes\n1.500,0.750,12\n"
    );
}

fn transcribed(result: Result<String, AppError>, cancelled: bool, submit: bool) -> WorkerStep {
    WorkerStep::Transcribe.after(WorkerOutcome::Transcribed { result, cancelled, submit })
}

/// Removes the file, reports, and hands the report out.
fn reported(step: WorkerStep) -> WorkerEvent {
    assert!(matches!(step, WorkerStep::RemoveFile { .. }));
    match step.after(WorkerOutcome::Removed) {
        WorkerStep::Report { report } => {
            let copy = format!("{report:?}");
            let done = WorkerStep::Report { report }.after(WorkerOutcome::Reported);
            assert!(matches!(done, WorkerStep::Done));
            if copy == "Cancelled" {
                WorkerEvent::Cancelled
            } else {
                WorkerEvent::Status(copy)
            }
        }
        other => panic!("{other:?}"),
    }
}

fn report_text(step: WorkerStep) -> String {
    match reported(step) {
        WorkerEvent::Status(text) => text,
        other => format!("{other:?}"),
    }
}

#[test]
fn a_cancelled_transcript_is_not_pasted() {
    assert!(matches!(
        reported(transcribed(Ok("Ahoj".to_string()), true, true)),
        WorkerEvent::Cancelled
    ));
    let failed = transcribed(Err(AppError::Wav("w".to_string())), true, false);
    assert_eq!(report_text(failed), "Failed(\"WAV error: w\")");
    match transcribed(Ok("Ahoj".to_string()), false, true) {
        WorkerStep::Paste { transcript, submit } => assert!(transcript == "Ahoj" && submit),
        other => panic!("{other:?}"),
    }
}

#[test]
fn pastes_are_reported() {
    let paste = || transcribed(Ok("t".to_string()), false, false);
    let pasted = paste().after(WorkerOutcome::Pasted(Ok(())));
    assert_eq!(report_text(pasted), "Success(\"t\")");
    let error = AppError::Message("m".to_string());
    let pasted = paste().after(WorkerOutcome::Pasted(Err(error)));
    assert_eq!(report_text(pasted), "PasteFailed { transcript: \"t\", error: \"m\" }");
}

#[test]
fn fetches_are_reported() {
    let (done, status) = after_model_fetch(Ok(()));
    assert!(matches!(done, WorkerEvent::ModelDownloadDone));
    assert!(status.is_none());
    let (done, status) = after_model_fetch(Err(AppError::Io("full".to_string())));
    assert!(matches!(done, WorkerEvent::ModelDownloadDone));
    match status {
        Some(WorkerEvent::Status(text)) => {
            assert_eq!(text, "Model download failed: IO error: full")
        }
        other => panic!("{other:?}"),
    }
}

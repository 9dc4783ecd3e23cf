//! Turning a recording into a transcript, step by step.

use vstd::prelude::*;

use crate::credit;
use crate::credit::strip_trailing_subtitle_credit;
use crate::error;
use crate::error::AppError;
use crate::text;

verus! {

/// What to do next.
#[derive(Clone, Copy, Debug, PartialEq, Eq, Structural)]
pub enum TranscribeStep {
    /// Read the recording's file.
    ReadAudio,
    /// Decode and resample it.
    ExtractSamples,
    /// Have the model's file.
    FetchModel,
    /// Have the model in memory.
    LoadModel,
    /// Say that the model is ready.
    Announce,
    /// Start to report estimated progress.
    StartTicker,
    /// Run the model on the samples.
    Infer,
    /// Stop reporting estimated progress.
    StopTicker,
    /// Report that everything is done.
    ReportDone,
    /// The transcript is there.
    Finished,
}

/// What came of a step.
pub enum TranscribeOutcome {
    Done,
    /// Decoding gave this many samples.
    Samples(usize),
    /// The step failed.
    Failed(AppError),
    /// The model heard this.
    Heard(String),
    /// The model gave up.
    GaveUp(String),
    /// No model was in memory.
    NotLoaded,
    /// The model could not be had.
    Poisoned(String),
}

/// The transcription of one recording.
pub struct Transcription {
    language: String,
    step: TranscribeStep,
    transcript: String,
}

/// Whether an outcome is one that a step can have.
pub open spec fn fits(step: TranscribeStep, outcome: TranscribeOutcome) -> bool {
    match step {
        TranscribeStep::ReadAudio | TranscribeStep::FetchModel | TranscribeStep::LoadModel => {
            outcome is Done || outcome is Failed
        },
        TranscribeStep::ExtractSamples => outcome is Samples || outcome is Failed,
        TranscribeStep::Infer => {
            outcome is Heard || outcome is GaveUp || outcome is NotLoaded || outcome is Poisoned
        },
        TranscribeStep::Finished => false,
        _ => outcome is Done,
    }
}

/// Whether an outcome ends the transcription with an error.
pub open spec fn is_failure(outcome: TranscribeOutcome) -> bool {
    outcome is Failed || outcome is GaveUp || outcome is NotLoaded || outcome is Poisoned
}

/// What follows a step that went well.
pub open spec fn next_step(step: TranscribeStep, outcome: TranscribeOutcome) -> TranscribeStep {
    match step {
        TranscribeStep::ReadAudio => TranscribeStep::ExtractSamples,
        TranscribeStep::ExtractSamples => if outcome == TranscribeOutcome::Samples(0) {
            TranscribeStep::Finished
        } else {
            TranscribeStep::FetchModel
        },
        TranscribeStep::FetchModel => TranscribeStep::LoadModel,
        TranscribeStep::LoadModel => TranscribeStep::Announce,
        TranscribeStep::Announce => TranscribeStep::StartTicker,
        TranscribeStep::StartTicker => TranscribeStep::Infer,
        TranscribeStep::Infer => TranscribeStep::StopTicker,
        TranscribeStep::StopTicker => TranscribeStep::ReportDone,
        TranscribeStep::ReportDone => TranscribeStep::Finished,
        TranscribeStep::Finished => TranscribeStep::Finished,
    }
}

/// The transcript for what the model heard: without the white characters around it, and without
/// a subtitle author's credit as its last sentence.
pub open spec fn transcript_of(heard: Seq<char>) -> Seq<char> {
    let inner = text::trim(heard);
    credit::stripped(inner, credit::lowercase_of(credit::last_sentence_of(inner)))
}

/// Whether an error is the one that an outcome brings.
pub open spec fn is_error_of(e: AppError, outcome: TranscribeOutcome) -> bool {
    match outcome {
        TranscribeOutcome::Failed(failure) => e == failure,
        TranscribeOutcome::GaveUp(why) => error::says(e, "Transcription failed: "@ + why@),
        TranscribeOutcome::NotLoaded => error::says(e, "Whisper model is not loaded."@),
        TranscribeOutcome::Poisoned(why) => error::says(e, "Engine mutex poisoned: "@ + why@),
        _ => false,
    }
}

/// What is announced once the model is in memory.
pub const READY_STATUS: &'static str = "Model ready. Transcribing...";

impl Transcription {
    /// The step that is to be taken.
    pub closed spec fn at(&self) -> TranscribeStep {
        self.step
    }

    /// The transcript so far.
    pub closed spec fn so_far(&self) -> Seq<char> {
        self.transcript@
    }

    /// The code of the language that the model is to listen for.
    pub closed spec fn listens_for(&self) -> Seq<char> {
        self.language@
    }

    /// A transcription starts with the recording's file.
    pub fn new(language: String) -> (transcription: Transcription)
        ensures
            transcription.at() == TranscribeStep::ReadAudio,
            transcription.so_far() == Seq::<char>::empty(),
            transcription.listens_for() == language@,
    {
        Transcription { language, step: TranscribeStep::ReadAudio, transcript: String::new() }
    }

    /// The code of the language that the model is to listen for.
    pub fn language(&self) -> (language: &str)
        ensures
            language@ == self.listens_for(),
    {
        self.language.as_str()
    }

    /// The step that is to be taken.
    pub fn step(&self) -> (step: TranscribeStep)
        ensures
            step == self.at(),
    {
        self.step
    }

    /// The transcript, which is complete once no step is left.
    pub fn into_transcript(self) -> (transcript: String)
        ensures
            transcript@ == self.so_far(),
    {
        self.transcript
    }

    /// Takes in what came of the current step. The language stays what it was at the start.
    pub fn transcribe_wav_file(self, outcome: TranscribeOutcome) -> (next: Result<
        Transcription,
        AppError,
    >)
        requires
            fits(self.at(), outcome),
        ensures
            next is Err <==> is_failure(outcome),
            match next {
                Ok(t) => {
                    &&& t.at() == next_step(self.at(), outcome)
                    &&& t.listens_for() == self.listens_for()
                    &&& t.so_far() == match outcome {
                        TranscribeOutcome::Heard(heard) => transcript_of(heard@),
                        _ => self.so_far(),
                    }
                },
                Err(e) => is_error_of(e, outcome),
            },
    {
        let empty_recording = match outcome {
            TranscribeOutcome::Samples(count) => count == 0,
            _ => false,
        };
        let transcript = match outcome {
            TranscribeOutcome::Failed(e) => {
                return Err(e);
            },
            TranscribeOutcome::GaveUp(why) => {
                return Err(AppError::because("Transcription failed: ", why.as_str()));
            },
            TranscribeOutcome::NotLoaded => {
                return Err(AppError::new("Whisper model is not loaded."));
            },
            TranscribeOutcome::Poisoned(why) => {
                return Err(AppError::because("Engine mutex poisoned: ", why.as_str()));
            },
            TranscribeOutcome::Heard(heard) => {
                let chars = text::chars_of(heard.as_str());
                let inner = text::string_of(text::trimmed(chars.as_slice()));
                strip_trailing_subtitle_credit(inner.as_str())
            },
            TranscribeOutcome::Done => self.transcript,
            TranscribeOutcome::Samples(_) => self.transcript,
        };
        let step = match self.step {
            TranscribeStep::ReadAudio => TranscribeStep::ExtractSamples,
            TranscribeStep::ExtractSamples => if empty_recording {
                TranscribeStep::Finished
            } else {
                TranscribeStep::FetchModel
            },
            TranscribeStep::FetchModel => TranscribeStep::LoadModel,
            TranscribeStep::LoadModel => TranscribeStep::Announce,
            TranscribeStep::Announce => TranscribeStep::StartTicker,
            TranscribeStep::StartTicker => TranscribeStep::Infer,
            TranscribeStep::Infer => TranscribeStep::StopTicker,
            TranscribeStep::StopTicker => TranscribeStep::ReportDone,
            TranscribeStep::ReportDone => TranscribeStep::Finished,
            TranscribeStep::Finished => TranscribeStep::Finished,
        };
        Ok(Transcription { language: self.language, step, transcript })
    }
}

/// A transcription that goes well ends with the transcript of what the model heard, and a
/// recording without samples ends without one, before any model is fetched: the steps that
/// follow, one outcome after another.
pub proof fn lemma_transcription_runs_through(samples: usize, heard: String)
    ensures
        next_step(TranscribeStep::ExtractSamples, TranscribeOutcome::Samples(0))
            == TranscribeStep::Finished,
        samples > 0 ==> {
            let s1 = next_step(TranscribeStep::ReadAudio, TranscribeOutcome::Done);
            let s2 = next_step(s1, TranscribeOutcome::Samples(samples));
            let s3 = next_step(s2, TranscribeOutcome::Done);
            let s4 = next_step(s3, TranscribeOutcome::Done);
            let s5 = next_step(s4, TranscribeOutcome::Done);
            let s6 = next_step(s5, TranscribeOutcome::Done);
            let s7 = next_step(s6, TranscribeOutcome::Heard(heard));
            let s8 = next_step(s7, TranscribeOutcome::Done);
            let s9 = next_step(s8, TranscribeOutcome::Done);
            &&& s2 == TranscribeStep::FetchModel && s3 == TranscribeStep::LoadModel
            &&& s4 == TranscribeStep::Announce && s6 == TranscribeStep::Infer
            &&& s8 == TranscribeStep::ReportDone && s9 == TranscribeStep::Finished
        },
{
}

/// A step's number on the way to the transcript.
pub open spec fn rank(step: TranscribeStep) -> nat {
    match step {
        TranscribeStep::ReadAudio => 0,
        TranscribeStep::ExtractSamples => 1,
        TranscribeStep::FetchModel => 2,
        TranscribeStep::LoadModel => 3,
        TranscribeStep::Announce => 4,
        TranscribeStep::StartTicker => 5,
        TranscribeStep::Infer => 6,
        TranscribeStep::StopTicker => 7,
        TranscribeStep::ReportDone => 8,
        TranscribeStep::Finished => 9,
    }
}

/// Every step leads on, so that a transcription comes to its end.
pub proof fn lemma_steps_lead_on(step: TranscribeStep, outcome: TranscribeOutcome)
    requires
        step != TranscribeStep::Finished,
    ensures
        rank(next_step(step, outcome)) > rank(step),
{
}

/// A number kept between 0 and 100.
pub open spec fn clamped(progress: i32) -> int {
    if progress < 0 {
        0
    } else if progress > 100 {
        100
    } else {
        progress as int
    }
}

/// The number that the model reports as its progress, kept between 0 and 100.
pub fn clamp_progress(progress: i32) -> (percent: u8)
    ensures
        percent == clamped(progress),
{
    if progress < 0 {
        0
    } else if progress > 100 {
        100
    } else {
        progress as u8
    }
}

/// Segments one after another.
pub open spec fn joined_segments(segments: Seq<String>) -> Seq<char>
    decreases segments.len(),
{
    if segments.len() == 0 {
        Seq::empty()
    } else {
        joined_segments(segments.drop_last()) + segments.last()@
    }
}

/// What the model heard, from the segments that it heard.
pub fn join_segments(segments: &Vec<String>) -> (heard: String)
    ensures
        heard@ == joined_segments(segments@),
{
    let mut heard = String::new();
    let mut i: usize = 0;
    while i < segments.len()
        invariant
            i <= segments@.len(),
            heard@ == joined_segments(segments@.take(i as int)),
        decreases segments.len() - i,
    {
        heard.append(segments[i].as_str());
        assert(segments@.take(i + 1).drop_last() == segments@.take(i as int));
        i += 1;
    }
    assert(segments@.take(i as int) == segments@);
    heard
}

/// The first line of the list of timings.
pub const TIMINGS_HEADER: &'static str = "audio_seconds,transcription_seconds,transcript_bytes\n";

/// A line of the list of timings.
pub open spec fn timings_row(audio: Seq<char>, transcription: Seq<char>, bytes: usize) -> Seq<char> {
    audio + ","@ + transcription + ","@ + text::decimal(bytes as nat) + "\n"@
}

/// What to append to the list of timings, which exists already or not: how many seconds the audio and
/// its transcription took, as numerals, and how many bytes the transcript has.
pub fn append_transcription_log(
    exists_already: bool,
    audio_seconds: &str,
    transcription_seconds: &str,
    transcript_bytes: usize,
) -> (lines: String)
    ensures
        lines@ == if exists_already {
            timings_row(audio_seconds@, transcription_seconds@, transcript_bytes)
        } else {
            TIMINGS_HEADER@ + timings_row(audio_seconds@, transcription_seconds@, transcript_bytes)
        },
{
    let mut row = audio_seconds.to_string();
    row.append(",");
    row.append(transcription_seconds);
    row.append(",");
    row.append(text::write_decimal(transcript_bytes as u128).as_str());
    row.append("\n");
    if exists_already {
        return row;
    }
    let mut lines = TIMINGS_HEADER.to_string();
    lines.append(row.as_str());
    lines
}

/// How many characters segments have in all.
pub open spec fn total_length(segments: Seq<String>) -> nat
    decreases segments.len(),
{
    if segments.len() == 0 {
        0
    } else {
        segments[0]@.len() + total_length(segments.drop_first())
    }
}

/// What is heard in two lists of segments, one after the other, is what is heard in the first
/// followed by what is heard in the second; and of one segment it is that segment.
pub proof fn lemma_heard_parts_add_up(a: Seq<String>, b: Seq<String>, one: String)
    ensures
        joined_segments(Seq::<String>::empty()) == Seq::<char>::empty(),
        joined_segments(seq![one]) == one@,
        joined_segments(a + b) == joined_segments(a) + joined_segments(b),
    decreases b.len(),
{
    assert(seq![one].drop_last() =~= Seq::<String>::empty());
    assert(joined_segments(Seq::<String>::empty()) =~= Seq::<char>::empty());
    assert(joined_segments(seq![one]) =~= one@);
    if b.len() == 0 {
        assert(a + b =~= a);
        assert(joined_segments(a) + joined_segments(b) =~= joined_segments(a));
    } else {
        lemma_heard_parts_add_up(a, b.drop_last(), one);
        assert((a + b).drop_last() =~= a + b.drop_last());
        assert((a + b).last() == b.last());
        assert(joined_segments(a + b) =~= joined_segments(a) + joined_segments(b));
    }
}

/// What is heard has the length of all segments together.
pub proof fn lemma_heard_is_as_long_as_its_segments(segments: Seq<String>)
    ensures
        joined_segments(segments).len() == total_length(segments),
    decreases segments.len(),
{
    if segments.len() > 0 {
        let first = segments[0];
        lemma_heard_is_as_long_as_its_segments(segments.drop_first());
        lemma_heard_parts_add_up(seq![first], segments.drop_first(), first);
        assert(segments =~= seq![first] + segments.drop_first());
    }
}

/// Every segment stands in what is heard, behind all segments before it.
pub proof fn lemma_every_segment_is_heard(segments: Seq<String>, k: int)
    requires
        0 <= k < segments.len(),
    ensures
        total_length(segments.take(k)) + segments[k]@.len() <= joined_segments(segments).len(),
        joined_segments(segments).subrange(
            total_length(segments.take(k)) as int,
            (total_length(segments.take(k)) + segments[k]@.len()) as int,
        ) == segments[k]@,
{
    let before = segments.take(k);
    let one = segments[k];
    let after = segments.skip(k + 1);
    assert(segments =~= before + (seq![one] + after));
    lemma_heard_parts_add_up(before, seq![one] + after, one);
    lemma_heard_parts_add_up(seq![one], after, one);
    lemma_heard_is_as_long_as_its_segments(before);
    let n = total_length(before) as int;
    assert(joined_segments(segments) =~= joined_segments(before) + (one@ + joined_segments(after)));
    assert(joined_segments(segments).subrange(n, n + one@.len()) =~= one@);
}

/// The list of timings gets its first line exactly once, when it is new; the line of a
/// transcription is the same either way, and holds its numbers, separated by commas.
pub proof fn lemma_timings_lines_are_told_apart(
    audio: Seq<char>,
    transcription: Seq<char>,
    bytes: usize,
)
    ensures
        audio.is_prefix_of(timings_row(audio, transcription, bytes)),
        timings_row(audio, transcription, bytes).len() == audio.len() + transcription.len()
            + text::decimal(bytes as nat).len() + 3,
        timings_row(audio, transcription, bytes)[audio.len() as int] == ',',
        timings_row(audio, transcription, bytes).subrange(
            (audio.len() + 1) as int,
            (audio.len() + 1 + transcription.len()) as int,
        ) == transcription,
        timings_row(audio, transcription, bytes)[(audio.len() + 1 + transcription.len()) as int]
            == ',',
        timings_row(audio, transcription, bytes).subrange(
            (audio.len() + transcription.len() + 2) as int,
            timings_row(audio, transcription, bytes).len() - 1,
        ) == text::decimal(bytes as nat),
        timings_row(audio, transcription, bytes).last() == '\n',
{
    reveal_strlit(",");
    reveal_strlit("\n");
    let row = timings_row(audio, transcription, bytes);
    let n = audio.len() as int;
    let m = transcription.len() as int;
    assert(row.take(n) =~= audio);
    assert(row.subrange(n + 1, n + 1 + m) =~= transcription);
    assert(row.subrange(n + m + 2, row.len() - 1) =~= text::decimal(bytes as nat));
}

/// Progress is a percentage: one that is reported is taken as it is, anything else as the closest
/// one, so that progress that does not go back is shown as not going back.
pub proof fn lemma_progress_is_a_percentage(a: i32, b: i32)
    ensures
        0 <= clamped(a) <= 100,
        0 <= a <= 100 <==> clamped(a) == a,
        a <= b ==> clamped(a) <= clamped(b),
        0 <= b <= 100 ==> (if a < clamped(a) {
            clamped(a) - a
        } else {
            a - clamped(a)
        }) <= (if a < b {
            b - a
        } else {
            a - b
        }),
{
}

/// White characters around what the model heard do not count.
pub proof fn lemma_silence_around_speech_does_not_count(
    before: Seq<char>,
    heard: Seq<char>,
    after: Seq<char>,
)
    requires
        text::is_all_white(before),
        text::is_all_white(after),
    ensures
        transcript_of(before + heard + after) == transcript_of(heard),
{
    let start = text::lemma_white_at_the_start(heard);
    let rest = text::trim_start(heard);
    let end = text::lemma_white_at_the_end(rest);
    let inner = text::trim(heard);
    assert(before + heard + after =~= (before + start) + inner + (end + after));
    assert forall|i: int| 0 <= i < (before + start).len() implies text::is_white(
        #[trigger] (before + start)[i],
    ) by {
        if i < before.len() {
            assert(text::is_white(before[i]));
        } else {
            assert(text::is_white(start[i - before.len()]));
        }
    }
    assert forall|i: int| 0 <= i < (end + after).len() implies text::is_white(
        #[trigger] (end + after)[i],
    ) by {
        if i < end.len() {
            assert(text::is_white(end[i]));
        } else {
            assert(text::is_white(after[i - end.len()]));
        }
    }
    text::lemma_trim_is_done_once(heard);
    text::lemma_trim_finds_the_middle(before + start, inner, end + after);
}

/// An error that ends a transcription is the one that a step brought, or ends with its reason.
pub proof fn lemma_transcription_failures_are_told(
    e: AppError,
    step: TranscribeStep,
    outcome: TranscribeOutcome,
)
    requires
        fits(step, outcome),
        is_error_of(e, outcome),
    ensures
        is_failure(outcome),
        match outcome {
            TranscribeOutcome::Failed(failure) => e == failure,
            TranscribeOutcome::GaveUp(why) => why@.is_suffix_of(error::error_text(e)),
            TranscribeOutcome::Poisoned(why) => why@.is_suffix_of(error::error_text(e)),
            _ => step == TranscribeStep::Infer,
        },
{
    let told = error::error_text(e);
    if let TranscribeOutcome::GaveUp(why) = outcome {
        assert(told.skip(told.len() - why@.len()) =~= why@);
    }
    if let TranscribeOutcome::Poisoned(why) = outcome {
        assert(told.skip(told.len() - why@.len()) =~= why@);
    }
}

/// The model is run once it was fetched, loaded and announced, and estimated progress is reported
/// just while it runs: each of these steps comes right behind the one before it, and nothing but
/// a recording without samples skips them.
pub proof fn lemma_model_is_run_when_it_is_there(step: TranscribeStep, outcome: TranscribeOutcome)
    requires
        step != TranscribeStep::Finished,
        fits(step, outcome),
    ensures
        rank(next_step(step, outcome)) == rank(step) + 1 || (outcome == TranscribeOutcome::Samples(
            0,
        ) && next_step(step, outcome) == TranscribeStep::Finished),
        outcome matches TranscribeOutcome::Samples(samples) ==> (samples == 0 <==> next_step(
            step,
            outcome,
        ) == TranscribeStep::Finished),
{
}

/// A transcription can take in whatever comes of its steps: each that reads, decodes, fetches or
/// loads may go well or fail, and the model may be heard, give up or be missing. No outcome is
/// both a success and a failure.
pub proof fn lemma_every_outcome_is_taken_in(
    samples: usize,
    heard: String,
    why: String,
    e: AppError,
)
    ensures
        fits(TranscribeStep::ReadAudio, TranscribeOutcome::Done),
        fits(TranscribeStep::ReadAudio, TranscribeOutcome::Failed(e)),
        fits(TranscribeStep::ExtractSamples, TranscribeOutcome::Samples(samples)),
        fits(TranscribeStep::ExtractSamples, TranscribeOutcome::Failed(e)),
        fits(TranscribeStep::FetchModel, TranscribeOutcome::Done),
        fits(TranscribeStep::FetchModel, TranscribeOutcome::Failed(e)),
        fits(TranscribeStep::LoadModel, TranscribeOutcome::Done),
        fits(TranscribeStep::LoadModel, TranscribeOutcome::Failed(e)),
        fits(TranscribeStep::Infer, TranscribeOutcome::Heard(heard)),
        fits(TranscribeStep::Infer, TranscribeOutcome::GaveUp(why)),
        fits(TranscribeStep::Infer, TranscribeOutcome::NotLoaded),
        fits(TranscribeStep::Infer, TranscribeOutcome::Poisoned(why)),
        !is_failure(TranscribeOutcome::Done) && !is_failure(TranscribeOutcome::Samples(samples))
            && !is_failure(TranscribeOutcome::Heard(heard)),
        is_failure(TranscribeOutcome::Failed(e)) && is_failure(TranscribeOutcome::GaveUp(why))
            && is_failure(TranscribeOutcome::NotLoaded) && is_failure(
            TranscribeOutcome::Poisoned(why),
        ),
{
}

} // verus!

//! Recording sessions: opening one, starting and stopping it, and what it leaves.

use vstd::prelude::*;

use crate::audio;
use crate::audio::{get_optimal_config, InputConfig, StreamChoice, SPEECH_SAMPLE_RATE};
use crate::error;
use crate::error::AppError;
use crate::text;

verus! {

/// A recording that was stopped.
#[derive(Debug)]
pub struct AudioRecording {
    pub file_path: String,
    pub sample_rate: u32,
    pub channels: u16,
    /// Samples over all channels: its duration is this number by the rate and the channels.
    pub samples: u64,
}

/// How to open a session.
#[derive(Debug)]
pub struct SessionPlan {
    /// The name of the file to record into, in the directory for temporary files.
    pub file_name: String,
    pub choice: StreamChoice,
}

/// What the recording thread answered to a command.
pub enum CommandReply {
    Confirmed,
    /// The command could not be sent.
    NotSent(String),
    /// No answer came.
    NoReply(String),
}

/// What came of finishing the file of a recording.
pub enum Finalized {
    /// The file is complete, with this many samples.
    Done(u64),
    /// The writer could not be had.
    Locked(String),
    /// The file system refused.
    Failed(String),
}

struct Session {
    file_path: String,
    sample_rate: u32,
    channels: u16,
}

/// The recorder: the session that is open, if any, and whether it records.
pub struct RecorderState {
    session: Option<Session>,
    recording: bool,
}

/// What is known of an open session.
#[verifier::ext_equal]
pub ghost struct SessionView {
    pub file_path: Seq<char>,
    pub sample_rate: u32,
    pub channels: u16,
}

/// What is known of a recorder.
#[verifier::ext_equal]
pub ghost struct RecorderView {
    pub session: Option<SessionView>,
    pub recording: bool,
}

impl View for RecorderState {
    type V = RecorderView;

    closed spec fn view(&self) -> RecorderView {
        RecorderView {
            session: match self.session {
                Some(s) => Some(
                    SessionView {
                        file_path: s.file_path@,
                        sample_rate: s.sample_rate,
                        channels: s.channels,
                    },
                ),
                None => None,
            },
            recording: self.recording,
        }
    }
}

/// A recorder with no session.
pub open spec fn at_rest() -> RecorderView {
    RecorderView { session: None, recording: false }
}

/// A recorder whose session is open and not yet recording.
pub open spec fn opened(file_path: Seq<char>, choice: StreamChoice) -> RecorderView {
    RecorderView {
        session: Some(
            SessionView { file_path, sample_rate: choice.sample_rate, channels: choice.channels },
        ),
        recording: false,
    }
}

/// A recorder once the start command was answered.
pub open spec fn after_start(recorder: RecorderView, reply: CommandReply) -> RecorderView {
    if recorder.session is Some && reply is Confirmed {
        RecorderView { recording: true, ..recorder }
    } else {
        recorder
    }
}

/// A recorder once the stop command was answered.
pub open spec fn after_stop(recorder: RecorderView, reply: CommandReply) -> RecorderView {
    if recorder.session is Some && reply is Confirmed {
        RecorderView { recording: false, ..recorder }
    } else {
        recorder
    }
}

/// A recorder once the file of its recording was finished.
pub open spec fn after_finish(recorder: RecorderView, finalized: Finalized) -> RecorderView {
    if recorder.session is Some && finalized is Done {
        at_rest()
    } else {
        recorder
    }
}

/// From opening a session to finishing its file, nothing is lost: the session that
/// `finish_recording` hands out is the one that was opened, it records between start and stop
/// only, and the recorder is then at rest.
pub proof fn lemma_recording_runs_from_start_to_stop(
    file_path: Seq<char>,
    choice: StreamChoice,
    samples: u64,
)
    ensures
        ({
            let ready = opened(file_path, choice);
            let running = after_start(ready, CommandReply::Confirmed);
            let stopped = after_stop(running, CommandReply::Confirmed);
            &&& !ready.recording && running.recording && !stopped.recording
            &&& stopped.session == ready.session
            &&& after_finish(stopped, Finalized::Done(samples)) == at_rest()
        }),
{
}

/// Only a confirmed start makes a recorder record, and whatever fails leaves its session open.
pub proof fn lemma_only_a_confirmed_start_records(
    recorder: RecorderView,
    reply: CommandReply,
    finalized: Finalized,
)
    ensures
        after_start(recorder, reply).recording ==> recorder.recording || reply is Confirmed,
        after_stop(recorder, reply).recording ==> recorder.recording,
        after_finish(recorder, finalized).recording ==> recorder.recording,
        after_stop(recorder, reply).session == recorder.session,
        !(finalized is Done) ==> after_finish(recorder, finalized) == recorder,
{
}

/// The name of the file of a recording that starts so many milliseconds into the epoch.
pub open spec fn recording_name(millis: u128) -> Seq<char> {
    "whispering-mvp-"@ + text::decimal(millis as nat) + ".wav"@
}

impl RecorderState {
    /// Whether a recorder that records has a session.
    pub open spec fn wf(&self) -> bool {
        self@.recording ==> self@.session is Some
    }

    /// A recorder with no session.
    pub fn new() -> (recorder: RecorderState)
        ensures
            recorder.wf(),
            recorder@ == at_rest(),
    {
        RecorderState { session: None, recording: false }
    }

    /// Whether it records.
    pub fn is_recording(&self) -> (recording: bool)
        ensures
            recording == self@.recording,
    {
        self.recording
    }

    /// Closes the session, if one is open.
    pub fn close_session(&mut self)
        ensures
            final(self).wf(),
            final(self)@ == at_rest(),
    {
        self.session = None;
        self.recording = false;
    }

    /// Starts a new recording: closes the session, if one is open, and plans a new one from the
    /// clock's milliseconds and from the configurations of the default microphone, if there is
    /// one.
    pub fn start_new_recording(
        &mut self,
        millis: Result<u128, String>,
        microphone: Option<Result<Vec<InputConfig>, String>>,
    ) -> (plan: Result<SessionPlan, AppError>)
        requires
            millis is Ok ==> (microphone matches Some(Ok(list)) ==> audio::takes_covered_rates(
                list@,
                SPEECH_SAMPLE_RATE,
            )),
        ensures
            final(self).wf(),
            final(self)@ == at_rest(),
            match plan {
                Ok(p) => {
                    &&& millis matches Ok(ms) && p.file_name@ == recording_name(ms)
                    &&& microphone matches Some(Ok(list)) && {
                        &&& audio::is_choice(list@, SPEECH_SAMPLE_RATE, p.choice.config as int)
                        &&& p.choice.channels == list@[p.choice.config as int].channels
                        &&& p.choice.sample_format == list@[p.choice.config as int].sample_format
                        &&& p.choice.sample_rate == audio::closest_rate(
                            list@[p.choice.config as int],
                            SPEECH_SAMPLE_RATE,
                        )
                    }
                },
                Err(e) => match (millis, microphone) {
                    (Err(why), _) => error::says(e, "Failed to create temp filename: "@ + why@),
                    (Ok(_), None) => error::says(e, "No default input device available."@),
                    (Ok(_), Some(Err(why))) => error::says(
                        e,
                        "Failed to enumerate input configs: "@ + why@,
                    ),
                    (Ok(_), Some(Ok(list))) => {
                        &&& !audio::has_choice(list@, SPEECH_SAMPLE_RATE)
                        &&& error::says(
                            e,
                            if list@.len() == 0 {
                                "No supported input configurations were found."@
                            } else if forall|i: int| !audio::is_usable(list@, i) {
                                "No compatible microphone formats were found."@
                            } else {
                                "Failed to choose a microphone config."@
                            },
                        )
                    },
                },
            },
    {
        self.close_session();
        let ms: u128 = match millis {
            Ok(ms) => ms,
            Err(why) => {
                return Err(AppError::because("Failed to create temp filename: ", why.as_str()));
            },
        };
        let mut file_name = "whispering-mvp-".to_string();
        file_name.append(text::write_decimal(ms).as_str());
        file_name.append(".wav");
        let configs = match microphone {
            Some(configs) => configs,
            None => {
                return Err(AppError::new("No default input device available."));
            },
        };
        match get_optimal_config(configs, Some(SPEECH_SAMPLE_RATE)) {
            Ok(choice) => Ok(SessionPlan { file_name, choice }),
            Err(e) => Err(e),
        }
    }

    /// Takes in whether the file at `file_path` could be started, and opens the session.
    pub fn open_session(&mut self, file_path: &str, choice: StreamChoice, created: Result<
        (),
        String,
    >) -> (session: Result<(), AppError>)
        requires
            old(self).wf(),
        ensures
            final(self).wf(),
            match created {
                Ok(()) => session is Ok && final(self)@ == opened(file_path@, choice),
                Err(why) => {
                    &&& session matches Err(e) && error::is_io(e, why@)
                    &&& final(self)@ == old(self)@
                },
            },
    {
        match created {
            Ok(()) => {
                self.session = Some(
                    Session {
                        file_path: file_path.to_string(),
                        sample_rate: choice.sample_rate,
                        channels: choice.channels,
                    },
                );
                self.recording = false;
                Ok(())
            },
            Err(why) => Err(AppError::Io(why)),
        }
    }

    /// Takes in the answer to the start command: an open session records once it is confirmed.
    pub fn confirm_start(&mut self, reply: CommandReply) -> (started: Result<(), AppError>)
        requires
            old(self).wf(),
        ensures
            final(self).wf(),
            final(self)@ == after_start(old(self)@, reply),
            match old(self)@.session {
                None => started matches Err(e) && error::says(
                    e,
                    "Recording session failed to initialize."@,
                ),
                Some(_) => match reply {
                    CommandReply::Confirmed => started is Ok,
                    CommandReply::NotSent(why) => started matches Err(e) && error::says(
                        e,
                        "Failed to send start command: "@ + why@,
                    ),
                    CommandReply::NoReply(why) => started matches Err(e) && error::says(
                        e,
                        "Failed to receive start confirmation: "@ + why@,
                    ),
                },
            },
    {
        if self.session.is_none() {
            return Err(AppError::new("Recording session failed to initialize."));
        }
        match reply {
            CommandReply::Confirmed => {
                self.recording = true;
                Ok(())
            },
            CommandReply::NotSent(why) => Err(
                AppError::because("Failed to send start command: ", why.as_str()),
            ),
            CommandReply::NoReply(why) => Err(
                AppError::because("Failed to receive start confirmation: ", why.as_str()),
            ),
        }
    }

    /// Takes in the answer to the stop command: nothing records any longer once it is
    /// confirmed, and the file is to be finished.
    pub fn stop_recording(&mut self, reply: CommandReply) -> (stopped: Result<(), AppError>)
        requires
            old(self).wf(),
        ensures
            final(self).wf(),
            final(self)@ == after_stop(old(self)@, reply),
            match old(self)@.session {
                None => stopped matches Err(e) && error::says(e, "No active recording session."@),
                Some(_) => match reply {
                    CommandReply::Confirmed => stopped is Ok,
                    CommandReply::NotSent(why) => stopped matches Err(e) && error::says(
                        e,
                        "Failed to send stop command: "@ + why@,
                    ),
                    CommandReply::NoReply(why) => stopped matches Err(e) && error::says(
                        e,
                        "Failed to receive stop confirmation: "@ + why@,
                    ),
                },
            },
    {
        if self.session.is_none() {
            return Err(AppError::new("No active recording session."));
        }
        match reply {
            CommandReply::Confirmed => {
                self.recording = false;
                Ok(())
            },
            CommandReply::NotSent(why) => Err(
                AppError::because("Failed to send stop command: ", why.as_str()),
            ),
            CommandReply::NoReply(why) => Err(
                AppError::because("Failed to receive stop confirmation: ", why.as_str()),
            ),
        }
    }

    /// Takes in whether the file could be finished: hands the recording out and closes the
    /// session.
    pub fn finish_recording(&mut self, finalized: Finalized) -> (recording: Result<
        AudioRecording,
        AppError,
    >)
        requires
            old(self).wf(),
        ensures
            final(self).wf(),
            final(self)@ == after_finish(old(self)@, finalized),
            match (old(self)@.session, finalized) {
                (None, _) => recording matches Err(e) && error::says(e, "Missing WAV writer."@),
                (Some(session), Finalized::Done(samples)) => {
                    &&& recording matches Ok(r) && {
                        &&& r.file_path@ == session.file_path
                        &&& r.sample_rate == session.sample_rate
                        &&& r.channels == session.channels
                        &&& r.samples == samples
                    }
                },
                (Some(_), Finalized::Locked(why)) => recording matches Err(e) && error::says(
                    e,
                    "Failed to lock WAV writer: "@ + why@,
                ),
                (Some(_), Finalized::Failed(why)) => recording matches Err(e) && error::is_io(e, why@),
            },
    {
        let recording = match &self.session {
            None => {
                return Err(AppError::new("Missing WAV writer."));
            },
            Some(session) => match finalized {
                Finalized::Done(samples) => AudioRecording {
                    file_path: session.file_path.clone(),
                    sample_rate: session.sample_rate,
                    channels: session.channels,
                    samples,
                },
                Finalized::Locked(why) => {
                    return Err(AppError::because("Failed to lock WAV writer: ", why.as_str()));
                },
                Finalized::Failed(why) => {
                    return Err(AppError::Io(why));
                },
            },
        };
        self.close_session();
        Ok(recording)
    }
}

/// A confirmed start makes a session record that was open, and changes nothing else; a start
/// that was not confirmed changes nothing. A stop takes back what a start did.
pub proof fn lemma_start_and_stop_take_each_other_back(recorder: RecorderView, reply: CommandReply)
    ensures
        after_start(recorder, reply).session == recorder.session,
        after_start(recorder, reply).recording <==> recorder.recording || (recorder.session is Some
            && reply is Confirmed),
        after_stop(recorder, reply).recording <==> recorder.recording && !(recorder.session is Some
            && reply is Confirmed),
        !recorder.recording ==> after_stop(after_start(recorder, reply), reply) == recorder,
        recorder.recording ==> after_start(after_stop(recorder, reply), reply) == recorder,
{
}

/// A session records into the file that it was given, at the rate and with the channels that
/// were chosen, and a recorder at rest has none.
pub proof fn lemma_session_is_what_was_chosen(
    file_path: Seq<char>,
    choice: StreamChoice,
    finalized: Finalized,
)
    ensures
        opened(file_path, choice).session matches Some(session) && session.file_path == file_path
            && session.sample_rate == choice.sample_rate && session.channels == choice.channels,
        after_finish(opened(file_path, choice), finalized).session is None <==> finalized is Done,
        at_rest().session is None && !at_rest().recording,
{
}

/// The file of a recording is named after its time, which can be read off it; so recordings that
/// start at different times have different files.
pub proof fn lemma_recordings_have_their_own_files(a: u128, b: u128)
    ensures
        ({
            let name = recording_name(a);
            let n = name.len() as int;
            &&& seq!['.', 'w', 'a', 'v'].is_suffix_of(name)
            &&& text::number_of(
                name.subrange("whispering-mvp-"@.len() as int, n - 4),
            ) == a
        }),
        recording_name(a) == recording_name(b) ==> a == b,
{
    reveal_strlit(".wav");
    lemma_time_in_name(a);
    lemma_time_in_name(b);
    let name = recording_name(a);
    assert(name.skip(name.len() - 4) =~= seq!['.', 'w', 'a', 'v']);
}

proof fn lemma_time_in_name(millis: u128)
    ensures
        text::number_of(
            recording_name(millis).subrange(
                "whispering-mvp-"@.len() as int,
                recording_name(millis).len() - 4,
            ),
        ) == millis,
{
    reveal_strlit(".wav");
    text::lemma_decimal_digits(millis as nat);
    let name = recording_name(millis);
    assert(name.subrange("whispering-mvp-"@.len() as int, name.len() - 4) =~= text::decimal(
        millis as nat,
    ));
}

} // verus!

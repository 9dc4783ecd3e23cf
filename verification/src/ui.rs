//! The app behind the menu-bar icon: what it remembers, and how it reacts.
//!
//! Every reaction changes what the app remembers and lists what is then to be done outside, in
//! that order. Where something done outside can fail, its result is handed back.

use vstd::prelude::*;

use crate::bubble::BubbleState;
use crate::error;
use crate::error::AppError;
use crate::hotkey::FnTap;
use crate::launch;
use crate::launch::{LaunchOutcome, LaunchStep};
use crate::palette;
use crate::palette::{color_with_id, IconColor};
use crate::platform;
use crate::platform::Platform;
use crate::progress::ModelDownloadProgress;
use crate::recorder::{AudioRecording, RecorderState, RecorderView};
use crate::settings;
use crate::settings::{Settings, SettingsView};
use crate::text;
use crate::worker;
use crate::worker::{WorkerEvent, WorkerOutcome, WorkerStep};

verus! {

/// Something that happened.
#[derive(Debug)]
pub enum UserEvent {
    /// The Fn key was tapped.
    FnTap(FnTap),
    /// The bubble's button was pressed.
    Cancel,
    /// The left mouse button was released on the icon.
    PrimaryClick,
    /// Anything else happened to the icon.
    OtherTrayEvent,
    /// An item of the menu was chosen.
    Menu(MenuChoice),
    /// A thread reported something.
    Worker(WorkerEvent),
}

/// An item of the menu.
#[derive(Debug)]
pub enum MenuChoice {
    Status,
    /// The color with this id, which is empty for the default icon.
    IconColor(String),
    /// The language with this code and name.
    Language { code: String, label: String },
    CopyLastTranscript,
    /// Starting at login, and whether the item is now checked.
    LaunchAtLogin { checked: bool },
    Quit,
    Other,
}

/// Something that is to be done outside.
#[derive(Clone, Copy, Debug, PartialEq, Eq, Structural)]
pub enum Effect {
    /// Drop the model if it has lain idle for too long.
    UnloadIdleModel,
    /// Show the current status, transcript and visual state in the menu bar.
    RefreshTray,
    /// Start a recording, and hand the result to `recording_started`.
    StartRecorder,
    /// Stop the recording, and hand the result to `recording_stopped`.
    StopRecorder,
    /// Stop the recording, and remove its file.
    DiscardRecording,
    /// Load the model ahead of its use.
    SpawnPreload,
    /// Transcribe the recording under the newest cancel flag, in the language that
    /// `transcription_language` says now, and paste the transcript.
    SpawnTranscription,
    /// Make a new cancel flag, which is not raised.
    NewCancelFlag,
    /// Raise the newest cancel flag.
    RaiseCancelFlag,
    /// Tell the transcription whether its text is to be sent.
    SetSubmit(bool),
    ShowBubble(BubbleState),
    UpdateBubble(BubbleState),
    HideBubble,
    /// Open the log, and hand a failure to `log_not_opened`.
    OpenLog,
    /// Check the items of colors by `is_color_marked`.
    SyncIconColorMarks,
    /// Check the items of languages by `is_language_marked`.
    SyncLanguageMarks,
    SaveSettings,
    /// Copy the last transcript, and hand the result to `last_transcript_copied`.
    CopyLastTranscript,
    /// Start at login or not, and hand the result to `launch_at_login_set`.
    SetLaunchAtLogin(bool),
    /// Check the item for starting at login, or not.
    SetLaunchAtLoginMark(bool),
    /// Create the bubble, hidden.
    CreateBubble,
    /// Fetch the model's file.
    SpawnModelDownload,
    /// Ask the user for the accessibility permission.
    PromptAccessibility,
    /// Listen to the Fn key, and hand the result to `hotkey_installed`.
    InstallHotkey { announce: bool },
    Exit,
}

/// What the icon shows.
#[derive(Clone, Copy, Debug, PartialEq, Eq, Structural)]
pub enum TrayVisualState {
    Idle,
    Recording,
    Transcribing { progress: u8, submit: bool },
}

/// One of the system's symbols.
#[derive(Clone, Copy, Debug)]
pub struct TraySymbol {
    pub name: &'static str,
    pub description: &'static str,
}

/// What the menu shows.
#[derive(Debug)]
pub struct TrayTexts {
    pub tooltip: String,
    pub status_item: String,
    pub copy_item: String,
    pub copy_enabled: bool,
}

/// What the app remembers.
pub struct WhisperingMvpApp {
    pub recorder: RecorderState,
    pub settings: Settings,
    pub last_transcript: String,
    pub status: String,
    pub is_transcribing: bool,
    /// How far the transcription is, in percent.
    pub transcription_progress: u8,
    /// Whether the transcript is to be sent with Enter.
    pub submit_after_transcription: bool,
    /// Whether the model's download is shown.
    pub downloading_model: bool,
    /// Whether the Fn key is to be listened to once the permission is there.
    pub waiting_for_accessibility_hotkey: bool,
    pub hotkey_installed: bool,
}

/// What the app remembers, in plain values.
#[verifier::ext_equal]
pub ghost struct AppView {
    pub recorder: RecorderView,
    pub settings: SettingsView,
    pub last_transcript: Seq<char>,
    pub status: Seq<char>,
    pub is_transcribing: bool,
    pub transcription_progress: u8,
    pub submit: bool,
    pub downloading_model: bool,
    pub waiting_for_hotkey: bool,
    pub hotkey_installed: bool,
}

impl View for WhisperingMvpApp {
    type V = AppView;

    open spec fn view(&self) -> AppView {
        AppView {
            recorder: self.recorder@,
            settings: self.settings@,
            last_transcript: self.last_transcript@,
            status: self.status@,
            is_transcribing: self.is_transcribing,
            transcription_progress: self.transcription_progress,
            submit: self.submit_after_transcription,
            downloading_model: self.downloading_model,
            waiting_for_hotkey: self.waiting_for_accessibility_hotkey,
            hotkey_installed: self.hotkey_installed,
        }
    }
}

/// A reaction: what the app remembers then, and what is to be done.
#[verifier::ext_equal]
pub ghost struct Reaction {
    pub app: AppView,
    pub effects: Seq<Effect>,
}

/// No reaction.
pub open spec fn ignored(app: AppView) -> Reaction {
    Reaction { app, effects: Seq::empty() }
}

/// The reaction that only shows another status.
pub open spec fn with_status(app: AppView, status: Seq<char>) -> Reaction {
    Reaction { app: AppView { status, ..app }, effects: seq![Effect::RefreshTray] }
}

/// Whether nothing runs that the bubble belongs to.
pub open spec fn bubble_is_free(app: AppView) -> bool {
    !app.recorder.recording && !app.is_transcribing
}

/// Shows the bubble, unless the user never wants to see it.
pub open spec fn show_bubble_in(app: AppView, state: BubbleState) -> Seq<Effect> {
    if app.settings.hide_bubble {
        Seq::empty()
    } else {
        seq![Effect::ShowBubble(state)]
    }
}

/// The app once a transcription is over.
pub open spec fn ended(app: AppView) -> AppView {
    AppView { is_transcribing: false, transcription_progress: 0, submit: false, ..app }
}

/// Whether the transcript is sent is turned around.
pub open spec fn on_toggle_submit(app: AppView) -> Reaction {
    Reaction {
        app: AppView {
            submit: !app.submit,
            status: if app.submit {
                "Po přepisu se text jen vloží."@
            } else {
                "Po přepisu se text vloží a odešle (Enter)."@
            },
            ..app
        },
        effects: seq![
            Effect::SetSubmit(!app.submit),
            Effect::UpdateBubble(BubbleState::Transcribing { submit: !app.submit }),
            Effect::RefreshTray,
        ],
    }
}

/// A recording is started or stopped, unless a transcription is running.
pub open spec fn on_toggle_recording(app: AppView) -> Reaction {
    if app.is_transcribing {
        with_status(app, "Wait for the current transcription to finish."@)
    } else if app.recorder.recording {
        Reaction { app, effects: seq![Effect::StopRecorder] }
    } else {
        Reaction { app, effects: seq![Effect::StartRecorder] }
    }
}

/// The reaction to a click on the icon.
pub open spec fn on_primary_action(app: AppView) -> Reaction {
    if app.is_transcribing {
        on_toggle_submit(app)
    } else {
        on_toggle_recording(app)
    }
}

/// The reaction to a tap of the Fn key: two quick taps start a recording, one tap stops it or
/// turns sending around.
pub open spec fn on_fn_tap(app: AppView, tap: FnTap) -> Reaction {
    if app.is_transcribing {
        if tap == FnTap::Single {
            on_toggle_submit(app)
        } else {
            ignored(app)
        }
    } else if app.recorder.recording == (tap == FnTap::Single) {
        on_toggle_recording(app)
    } else {
        ignored(app)
    }
}

/// The reaction to the bubble's button: it throws the recording or the transcription away, or
/// else hides the bubble of a download, which goes on.
pub open spec fn on_cancel(app: AppView) -> Reaction {
    if app.recorder.recording {
        Reaction {
            app: AppView { status: "Nahrávání zrušeno."@, ..app },
            effects: seq![Effect::DiscardRecording, Effect::HideBubble, Effect::RefreshTray],
        }
    } else if app.is_transcribing {
        Reaction {
            app: AppView { status: "Přepis zrušen."@, ..ended(app) },
            effects: seq![
                Effect::RaiseCancelFlag,
                Effect::SetSubmit(false),
                Effect::HideBubble,
                Effect::RefreshTray,
            ],
        }
    } else if app.downloading_model {
        Reaction { app, effects: seq![Effect::HideBubble] }
    } else {
        ignored(app)
    }
}

/// The reaction to the choice of a color.
pub open spec fn on_icon_color(app: AppView, id: Seq<char>) -> Reaction {
    Reaction {
        app: AppView { settings: SettingsView { icon_color: id, ..app.settings }, ..app },
        effects: seq![Effect::SyncIconColorMarks, Effect::SaveSettings, Effect::RefreshTray],
    }
}

/// The reaction to the choice of a language.
pub open spec fn on_language(app: AppView, code: Seq<char>, label: Seq<char>) -> Reaction {
    Reaction {
        app: AppView {
            settings: SettingsView { language: code, ..app.settings },
            status: "Jazyk přepisu: "@ + label,
            ..app
        },
        effects: seq![Effect::SyncLanguageMarks, Effect::SaveSettings, Effect::RefreshTray],
    }
}

/// The reaction to an item of the menu.
pub open spec fn on_menu(app: AppView, choice: MenuChoice) -> Reaction {
    match choice {
        MenuChoice::Status => Reaction { app, effects: seq![Effect::OpenLog] },
        MenuChoice::IconColor(id) => on_icon_color(app, id@),
        MenuChoice::Language { code, label } => on_language(app, code@, label@),
        MenuChoice::CopyLastTranscript => Reaction {
            app,
            effects: seq![Effect::CopyLastTranscript],
        },
        MenuChoice::LaunchAtLogin { checked } => Reaction {
            app,
            effects: seq![Effect::SetLaunchAtLogin(checked)],
        },
        MenuChoice::Quit => Reaction { app, effects: seq![Effect::Exit] },
        MenuChoice::Other => ignored(app),
    }
}

/// The reaction to the end of a transcription: the last transcript, if there is one, and the
/// status.
pub open spec fn on_end(app: AppView, transcript: Option<Seq<char>>, status: Seq<char>) -> Reaction {
    Reaction {
        app: AppView {
            last_transcript: match transcript {
                Some(text) => text,
                None => app.last_transcript,
            },
            status,
            ..ended(app)
        },
        effects: seq![Effect::SetSubmit(false), Effect::HideBubble, Effect::RefreshTray],
    }
}

/// The reaction to news of the model's download. A recording or a transcription that is running
/// keeps the bubble.
pub open spec fn on_download(app: AppView, progress: ModelDownloadProgress) -> Reaction {
    let state = BubbleState::DownloadingModel { progress };
    Reaction {
        app: AppView { downloading_model: true, ..app },
        effects: if !bubble_is_free(app) {
            Seq::empty()
        } else if app.downloading_model {
            seq![Effect::UpdateBubble(state)]
        } else {
            show_bubble_in(app, state)
        },
    }
}

/// The reaction to the report of a thread.
pub open spec fn on_worker(app: AppView, event: WorkerEvent) -> Reaction {
    match event {
        WorkerEvent::Status(status) => with_status(app, status@),
        WorkerEvent::TranscriptionProgress(percent) => Reaction {
            app: AppView { transcription_progress: percent, ..app },
            effects: seq![Effect::RefreshTray],
        },
        WorkerEvent::ModelDownload(progress) => on_download(app, progress),
        WorkerEvent::ModelDownloadDone => Reaction {
            app: AppView { downloading_model: false, ..app },
            effects: if app.downloading_model && bubble_is_free(app) {
                seq![Effect::HideBubble]
            } else {
                Seq::empty()
            },
        },
        WorkerEvent::Success(transcript) => on_end(
            app,
            Some(transcript@),
            "Transcript pasted. "@ + text::preview_text_of(transcript@),
        ),
        WorkerEvent::PasteFailed { transcript, error } => on_end(
            app,
            Some(transcript@),
            "Transcript ready but paste failed: "@ + error@ + ". "@ + text::preview_text_of(
                transcript@,
            ),
        ),
        WorkerEvent::Failed(error) => on_end(app, None, "Transcription failed: "@ + error@),
        WorkerEvent::Cancelled => on_end(app, None, "Přepis zrušen."@),
    }
}

/// The reaction to an event, but for the look at the idle model that comes first.
pub open spec fn on_event(app: AppView, event: UserEvent) -> Reaction {
    match event {
        UserEvent::FnTap(tap) => on_fn_tap(app, tap),
        UserEvent::Cancel => on_cancel(app),
        UserEvent::PrimaryClick => on_primary_action(app),
        UserEvent::OtherTrayEvent => ignored(app),
        UserEvent::Menu(choice) => on_menu(app, choice),
        UserEvent::Worker(report) => on_worker(app, report),
    }
}

/// The status that shows a recording's length, rate and channels.
pub open spec fn stopped_status(duration: Seq<char>, sample_rate: u32, channels: u16) -> Seq<char> {
    "Recording stopped ("@ + duration + "s, "@ + text::decimal(sample_rate as nat) + " Hz, "@
        + text::decimal(channels as nat) + " ch). Transcribing..."@
}

/// The reaction to a recording that was stopped: its transcription starts, under a cancel flag
/// of its own.
pub open spec fn on_stopped(app: AppView, status: Seq<char>) -> Reaction {
    Reaction {
        app: AppView {
            is_transcribing: true,
            transcription_progress: 0,
            submit: false,
            status,
            ..app
        },
        effects: seq![
            Effect::SetSubmit(false),
            Effect::NewCancelFlag,
            Effect::UpdateBubble(BubbleState::Transcribing { submit: false }),
            Effect::RefreshTray,
            Effect::SpawnTranscription,
        ],
    }
}

/// The reaction to a recording that was started.
pub open spec fn on_started(app: AppView) -> Reaction {
    Reaction {
        app: AppView { status: "Recording... left click again to stop."@, ..app },
        effects: seq![Effect::SpawnPreload] + show_bubble_in(app, BubbleState::Recording)
            + seq![Effect::RefreshTray],
    }
}

/// The reaction to starting at login, or not, having failed: the item is as it was.
pub open spec fn on_launch_at_login_failed(app: AppView, enabled: bool, status: Seq<char>) -> Reaction {
    Reaction {
        app: AppView { status, ..app },
        effects: seq![Effect::SetLaunchAtLoginMark(!enabled), Effect::RefreshTray],
    }
}

/// The status of an app that has just started.
pub open spec fn first_status(granted: bool) -> Seq<char> {
    if granted {
        "Ready. Left click the microphone in the menu bar or double-press Fn/Globe to dictate."@
    } else {
        "Ready. Left click to dictate. Enable Accessibility for Diktovani to turn on auto-paste and the Fn/Globe hotkey."@
    }
}

/// An app that has just started.
pub open spec fn new_app(granted: bool, settings: SettingsView) -> AppView {
    AppView {
        recorder: crate::recorder::at_rest(),
        settings,
        last_transcript: Seq::empty(),
        status: first_status(granted),
        is_transcribing: false,
        transcription_progress: 0,
        submit: false,
        downloading_model: false,
        waiting_for_hotkey: !granted,
        hotkey_installed: false,
    }
}

/// The text that pops up over the icon.
pub open spec fn tooltip_of(app: AppView) -> Seq<char> {
    "Diktovani\n"@ + app.status
}

/// The reaction to what came of stopping a recording.
pub open spec fn on_recording_stopped(
    app: AppView,
    recording: Result<&AudioRecording, AppError>,
    duration: Seq<char>,
) -> Reaction {
    match recording {
        Ok(r) => on_stopped(app, stopped_status(duration, r.sample_rate, r.channels)),
        Err(e) => with_status(app, "Stop failed: "@ + error::error_text(e)),
    }
}

/// The reaction to what came of starting a recording.
pub open spec fn on_recording_started(app: AppView, started: Result<(), AppError>) -> Reaction {
    match started {
        Ok(()) => on_started(app),
        Err(e) => with_status(app, "Start failed: "@ + error::error_text(e)),
    }
}

/// The reaction to what came of copying the last transcript.
pub open spec fn on_copied(app: AppView, copied: Result<(), AppError>) -> Reaction {
    with_status(
        app,
        match copied {
            Ok(()) => "Last transcript copied to clipboard."@,
            Err(e) => "Failed to copy last transcript: "@ + error::error_text(e),
        },
    )
}

/// The reaction to what came of starting at login, or no longer.
pub open spec fn on_launch_at_login_set(
    app: AppView,
    enabled: bool,
    set: Result<(), AppError>,
) -> Reaction {
    match set {
        Ok(()) => with_status(
            app,
            if enabled {
                "Autostart enabled."@
            } else {
                "Autostart disabled."@
            },
        ),
        Err(e) => on_launch_at_login_failed(
            app,
            enabled,
            "Failed to update autostart: "@ + error::error_text(e),
        ),
    }
}

/// The reaction to the icon having been created, with or without the accessibility permission.
pub open spec fn on_startup(app: AppView, granted: bool) -> Reaction {
    let first = seq![Effect::RefreshTray, Effect::CreateBubble, Effect::SpawnModelDownload];
    if granted {
        Reaction { app, effects: first }
    } else {
        Reaction {
            app: AppView {
                waiting_for_hotkey: true,
                status:
                    "Accessibility permission is needed for auto-paste and the Fn/Globe hotkey. macOS settings were opened."@,
                ..app
            },
            effects: first + seq![Effect::PromptAccessibility, Effect::RefreshTray],
        }
    }
}

/// The reaction to the wish to listen to the Fn key.
pub open spec fn on_hotkey_wanted(app: AppView, announce: bool) -> Reaction {
    if app.hotkey_installed {
        Reaction { app: AppView { waiting_for_hotkey: false, ..app }, effects: Seq::empty() }
    } else {
        Reaction { app, effects: seq![Effect::InstallHotkey { announce }] }
    }
}

/// The reaction to what came of listening to the Fn key.
pub open spec fn on_hotkey_result(app: AppView, installed: bool, announce: bool) -> Reaction {
    if !installed {
        ignored(app)
    } else {
        let listening = AppView { hotkey_installed: true, waiting_for_hotkey: false, ..app };
        if announce && bubble_is_free(app) {
            with_status(
                listening,
                "Accessibility granted. Left click the microphone or double-press Fn/Globe to dictate."@,
            )
        } else {
            ignored(listening)
        }
    }
}

/// The reaction to a moment without events: once the permission that the app waits for is
/// there, the Fn key is listened to.
pub open spec fn on_accessibility_check(app: AppView, granted: bool) -> Reaction {
    if app.waiting_for_hotkey && !app.hotkey_installed && granted {
        on_hotkey_wanted(app, true)
    } else {
        ignored(app)
    }
}

/// What the icon shows.
pub open spec fn visual_state(app: AppView) -> TrayVisualState {
    if app.is_transcribing {
        TrayVisualState::Transcribing { progress: app.transcription_progress, submit: app.submit }
    } else if app.recorder.recording {
        TrayVisualState::Recording
    } else {
        TrayVisualState::Idle
    }
}

/// The system's symbol for a state, where it has one.
pub open spec fn tray_symbol_of(state: TrayVisualState) -> Option<TraySymbol> {
    match state {
        TrayVisualState::Idle => Some(TraySymbol { name: "mic.fill", description: "Microphone" }),
        TrayVisualState::Recording => Some(
            TraySymbol { name: "checkmark", description: "Stop recording" },
        ),
        TrayVisualState::Transcribing { .. } => None,
    }
}

/// The system's symbol for a state; a transcription has none.
pub fn tray_symbol(state: TrayVisualState) -> (symbol: Option<TraySymbol>)
    ensures
        symbol == tray_symbol_of(state),
{
    match state {
        TrayVisualState::Idle => Some(
            TraySymbol { name: "mic.fill", description: "Microphone" },
        ),
        TrayVisualState::Recording => Some(
            TraySymbol { name: "checkmark", description: "Stop recording" },
        ),
        TrayVisualState::Transcribing { .. } => None,
    }
}

impl WhisperingMvpApp {
    /// Whether what the app remembers fits together.
    pub open spec fn wf(&self) -> bool {
        self.recorder.wf()
    }

    /// An app that has just started.
    pub fn new(granted: bool, settings: Settings) -> (app: WhisperingMvpApp)
        ensures
            app.wf(),
            app@ == new_app(granted, settings@),
    {
        let status = if granted {
            "Ready. Left click the microphone in the menu bar or double-press Fn/Globe to dictate."
        } else {
            "Ready. Left click to dictate. Enable Accessibility for Diktovani to turn on auto-paste and the Fn/Globe hotkey."
        };
        WhisperingMvpApp {
            recorder: RecorderState::new(),
            settings,
            last_transcript: String::new(),
            status: status.to_string(),
            is_transcribing: false,
            transcription_progress: 0,
            submit_after_transcription: false,
            downloading_model: false,
            waiting_for_accessibility_hotkey: !granted,
            hotkey_installed: false,
        }
    }

    /// What the icon shows.
    pub fn current_visual_state(&self) -> (state: TrayVisualState)
        ensures
            state == visual_state(self@),
    {
        if self.is_transcribing {
            TrayVisualState::Transcribing {
                progress: self.transcription_progress,
                submit: self.submit_after_transcription,
            }
        } else if self.recorder.is_recording() {
            TrayVisualState::Recording
        } else {
            TrayVisualState::Idle
        }
    }

    /// The text that pops up over the icon.
    pub fn tooltip(&self) -> (tooltip: String)
        ensures
            tooltip@ == tooltip_of(self@),
    {
        let mut tooltip = "Diktovani\n".to_string();
        tooltip.append(self.status.as_str());
        tooltip
    }

    /// What the menu shows.
    pub fn tray_texts(&self) -> (texts: TrayTexts)
        ensures
            texts.tooltip@ == tooltip_of(self@),
            texts.status_item@ == text::status_menu_text_of(self@.status),
            texts.copy_item@ == text::copy_last_transcript_menu_text_of(self@.last_transcript),
            texts.copy_enabled == (text::trim(self@.last_transcript).len() > 0),
    {
        TrayTexts {
            tooltip: self.tooltip(),
            status_item: text::status_menu_text(self.status.as_str()),
            copy_item: text::copy_last_transcript_menu_text(self.last_transcript.as_str()),
            copy_enabled: !text::is_blank(self.last_transcript.as_str()),
        }
    }

    /// The color of the idle icon, unless it is the default one.
    pub fn idle_color(&self) -> (color: Option<IconColor>)
        ensures
            color == palette::color_from(self@.settings.icon_color, 0),
    {
        color_with_id(self.settings.icon_color.as_str())
    }

    /// Whether the item of a color is checked; the default icon's has an empty id.
    pub fn is_color_marked(&self, color_id: &str) -> (marked: bool)
        ensures
            marked == (self@.settings.icon_color == color_id@),
    {
        text::spells(text::chars_of(self.settings.icon_color.as_str()).as_slice(), color_id)
    }

    /// Whether the item of a language is checked.
    pub fn is_language_marked(&self, code: &str) -> (marked: bool)
        ensures
            marked == (self@.settings.language == code@),
    {
        text::spells(text::chars_of(self.settings.language.as_str()).as_slice(), code)
    }

    /// The code of the language that a transcription that starts now runs in.
    pub fn transcription_language(&self) -> (language: String)
        ensures
            language@ == self@.settings.language,
    {
        self.settings.language.clone()
    }

    /// Shows another status.
    fn set_status(&mut self, status: &str) -> (effects: Vec<Effect>)
        requires
            old(self).wf(),
        ensures
            final(self).wf(),
            (Reaction { app: final(self)@, effects: effects@ }) == with_status(
                old(self)@,
                status@,
            ),
    {
        self.status = status.to_string();
        vec![Effect::RefreshTray]
    }

    /// Reacts to an event.
    pub fn user_event(&mut self, event: UserEvent) -> (effects: Vec<Effect>)
        requires
            old(self).wf(),
        ensures
            final(self).wf(),
            final(self)@ == on_event(old(self)@, event).app,
            effects@ == seq![Effect::UnloadIdleModel] + on_event(old(self)@, event).effects,
    {
        let mut effects = vec![Effect::UnloadIdleModel];
        let mut more = match event {
            UserEvent::FnTap(tap) => self.handle_fn_tap(tap),
            UserEvent::Cancel => self.cancel_current(),
            UserEvent::PrimaryClick => self.handle_primary_action(),
            UserEvent::OtherTrayEvent => Vec::new(),
            UserEvent::Menu(choice) => self.choose_item(choice),
            UserEvent::Worker(report) => self.take_report(report),
        };
        effects.append(&mut more);
        effects
    }

    /// Turns around whether the transcript is sent.
    pub fn toggle_submit_after_transcription(&mut self) -> (effects: Vec<Effect>)
        requires
            old(self).wf(),
        ensures
            final(self).wf(),
            (Reaction { app: final(self)@, effects: effects@ }) == on_toggle_submit(old(self)@),
    {
        let enabled = !self.submit_after_transcription;
        self.submit_after_transcription = enabled;
        self.status = if enabled {
            "Po přepisu se text vloží a odešle (Enter).".to_string()
        } else {
            "Po přepisu se text jen vloží.".to_string()
        };
        vec![
            Effect::SetSubmit(enabled),
            Effect::UpdateBubble(BubbleState::Transcribing { submit: enabled }),
            Effect::RefreshTray,
        ]
    }

    /// Starts or stops a recording.
    pub fn toggle_recording(&mut self) -> (effects: Vec<Effect>)
        requires
            old(self).wf(),
        ensures
            final(self).wf(),
            (Reaction { app: final(self)@, effects: effects@ }) == on_toggle_recording(old(self)@),
    {
        if self.is_transcribing {
            return self.set_status("Wait for the current transcription to finish.");
        }
        if self.recorder.is_recording() {
            vec![Effect::StopRecorder]
        } else {
            vec![Effect::StartRecorder]
        }
    }

    /// Reacts to a click on the icon.
    pub fn handle_primary_action(&mut self) -> (effects: Vec<Effect>)
        requires
            old(self).wf(),
        ensures
            final(self).wf(),
            (Reaction { app: final(self)@, effects: effects@ }) == on_primary_action(old(self)@),
    {
        if self.is_transcribing {
            self.toggle_submit_after_transcription()
        } else {
            self.toggle_recording()
        }
    }

    /// Reacts to a tap of the Fn key.
    pub fn handle_fn_tap(&mut self, tap: FnTap) -> (effects: Vec<Effect>)
        requires
            old(self).wf(),
        ensures
            final(self).wf(),
            (Reaction { app: final(self)@, effects: effects@ }) == on_fn_tap(old(self)@, tap),
    {
        if self.is_transcribing {
            if tap == FnTap::Single {
                return self.toggle_submit_after_transcription();
            }
        } else if self.recorder.is_recording() {
            if tap == FnTap::Single {
                return self.toggle_recording();
            }
        } else if tap == FnTap::Double {
            return self.toggle_recording();
        }
        Vec::new()
    }

    /// Reacts to the bubble's button.
    pub fn cancel_current(&mut self) -> (effects: Vec<Effect>)
        requires
            old(self).wf(),
        ensures
            final(self).wf(),
            (Reaction { app: final(self)@, effects: effects@ }) == on_cancel(old(self)@),
    {
        if self.recorder.is_recording() {
            self.status = "Nahrávání zrušeno.".to_string();
            vec![Effect::DiscardRecording, Effect::HideBubble, Effect::RefreshTray]
        } else if self.is_transcribing {
            self.is_transcribing = false;
            self.transcription_progress = 0;
            self.submit_after_transcription = false;
            self.status = "Přepis zrušen.".to_string();
            vec![
                Effect::RaiseCancelFlag,
                Effect::SetSubmit(false),
                Effect::HideBubble,
                Effect::RefreshTray,
            ]
        } else if self.downloading_model {
            vec![Effect::HideBubble]
        } else {
            Vec::new()
        }
    }

    /// Chooses the color of the idle icon.
    pub fn select_icon_color(&mut self, color_id: String) -> (effects: Vec<Effect>)
        requires
            old(self).wf(),
        ensures
            final(self).wf(),
            (Reaction { app: final(self)@, effects: effects@ }) == on_icon_color(
                old(self)@,
                color_id@,
            ),
    {
        self.settings.icon_color = color_id;
        vec![Effect::SyncIconColorMarks, Effect::SaveSettings, Effect::RefreshTray]
    }

    /// Chooses the language that is transcribed.
    pub fn select_language(&mut self, code: String, label: &str) -> (effects: Vec<Effect>)
        requires
            old(self).wf(),
        ensures
            final(self).wf(),
            (Reaction { app: final(self)@, effects: effects@ }) == on_language(
                old(self)@,
                code@,
                label@,
            ),
    {
        self.settings.language = code;
        let mut status = "Jazyk přepisu: ".to_string();
        status.append(label);
        self.status = status;
        vec![Effect::SyncLanguageMarks, Effect::SaveSettings, Effect::RefreshTray]
    }

    /// Reacts to an item of the menu.
    fn choose_item(&mut self, choice: MenuChoice) -> (effects: Vec<Effect>)
        requires
            old(self).wf(),
        ensures
            final(self).wf(),
            (Reaction { app: final(self)@, effects: effects@ }) == on_menu(old(self)@, choice),
    {
        match choice {
            MenuChoice::Status => vec![Effect::OpenLog],
            MenuChoice::IconColor(id) => self.select_icon_color(id),
            MenuChoice::Language { code, label } => self.select_language(code, label.as_str()),
            MenuChoice::CopyLastTranscript => vec![Effect::CopyLastTranscript],
            MenuChoice::LaunchAtLogin { checked } => vec![Effect::SetLaunchAtLogin(checked)],
            MenuChoice::Quit => vec![Effect::Exit],
            MenuChoice::Other => Vec::new(),
        }
    }

    /// Ends the transcription with a status.
    fn end_transcription(&mut self, status: String) -> (effects: Vec<Effect>)
        requires
            old(self).wf(),
        ensures
            final(self).wf(),
            (Reaction { app: final(self)@, effects: effects@ }) == on_end(
                old(self)@,
                None,
                status@,
            ),
    {
        self.is_transcribing = false;
        self.transcription_progress = 0;
        self.submit_after_transcription = false;
        self.status = status;
        vec![Effect::SetSubmit(false), Effect::HideBubble, Effect::RefreshTray]
    }

    /// Reacts to the report of a thread.
    fn take_report(&mut self, report: WorkerEvent) -> (effects: Vec<Effect>)
        requires
            old(self).wf(),
        ensures
            final(self).wf(),
            (Reaction { app: final(self)@, effects: effects@ }) == on_worker(old(self)@, report),
    {
        match report {
            WorkerEvent::Status(status) => {
                self.status = status;
                vec![Effect::RefreshTray]
            },
            WorkerEvent::TranscriptionProgress(percent) => {
                self.transcription_progress = percent;
                vec![Effect::RefreshTray]
            },
            WorkerEvent::ModelDownload(progress) => {
                let state = BubbleState::DownloadingModel { progress };
                let mut effects: Vec<Effect> = Vec::new();
                if !self.recorder.is_recording() && !self.is_transcribing {
                    if self.downloading_model {
                        effects.push(Effect::UpdateBubble(state));
                    } else if !self.settings.hide_bubble {
                        effects.push(Effect::ShowBubble(state));
                    }
                }
                self.downloading_model = true;
                effects
            },
            WorkerEvent::ModelDownloadDone => {
                let mut effects: Vec<Effect> = Vec::new();
                if self.downloading_model {
                    self.downloading_model = false;
                    if !self.recorder.is_recording() && !self.is_transcribing {
                        effects.push(Effect::HideBubble);
                    }
                }
                effects
            },
            WorkerEvent::Success(transcript) => {
                let mut status = "Transcript pasted. ".to_string();
                status.append(text::preview_text(transcript.as_str()).as_str());
                self.last_transcript = transcript;
                self.end_transcription(status)
            },
            WorkerEvent::PasteFailed { transcript, error } => {
                let mut status = "Transcript ready but paste failed: ".to_string();
                status.append(error.as_str());
                status.append(". ");
                status.append(text::preview_text(transcript.as_str()).as_str());
                self.last_transcript = transcript;
                self.end_transcription(status)
            },
            WorkerEvent::Failed(error) => {
                let mut status = "Transcription failed: ".to_string();
                status.append(error.as_str());
                self.end_transcription(status)
            },
            WorkerEvent::Cancelled => self.end_transcription("Přepis zrušen.".to_string()),
        }
    }

    /// Takes in what came of stopping the recording, which lasted `duration` seconds, a numeral.
    pub fn recording_stopped(&mut self, recording: Result<&AudioRecording, AppError>, duration: &str) -> (effects:
        Vec<Effect>)
        requires
            old(self).wf(),
        ensures
            final(self).wf(),
            (Reaction { app: final(self)@, effects: effects@ }) == on_recording_stopped(
                old(self)@,
                recording,
                duration@,
            ),
    {
        match recording {
            Ok(r) => {
                self.is_transcribing = true;
                self.transcription_progress = 0;
                self.submit_after_transcription = false;
                let mut status = "Recording stopped (".to_string();
                status.append(duration);
                status.append("s, ");
                status.append(text::write_decimal(r.sample_rate as u128).as_str());
                status.append(" Hz, ");
                status.append(text::write_decimal(r.channels as u128).as_str());
                status.append(" ch). Transcribing...");
                self.status = status;
                vec![
                    Effect::SetSubmit(false),
                    Effect::NewCancelFlag,
                    Effect::UpdateBubble(BubbleState::Transcribing { submit: false }),
                    Effect::RefreshTray,
                    Effect::SpawnTranscription,
                ]
            },
            Err(e) => self.set_status_because("Stop failed: ", &e),
        }
    }

    /// Takes in what came of starting a recording.
    pub fn recording_started(&mut self, started: Result<(), AppError>) -> (effects: Vec<Effect>)
        requires
            old(self).wf(),
        ensures
            final(self).wf(),
            (Reaction { app: final(self)@, effects: effects@ }) == on_recording_started(
                old(self)@,
                started,
            ),
    {
        match started {
            Ok(()) => {
                self.status = "Recording... left click again to stop.".to_string();
                let mut effects = vec![Effect::SpawnPreload];
                if !self.settings.hide_bubble {
                    effects.push(Effect::ShowBubble(BubbleState::Recording));
                }
                effects.push(Effect::RefreshTray);
                effects
            },
            Err(e) => self.set_status_because("Start failed: ", &e),
        }
    }

    /// Shows what failed and why.
    fn set_status_because(&mut self, what: &str, e: &AppError) -> (effects: Vec<Effect>)
        requires
            old(self).wf(),
        ensures
            final(self).wf(),
            (Reaction { app: final(self)@, effects: effects@ }) == with_status(
                old(self)@,
                what@ + error::error_text(*e),
            ),
    {
        let mut status = what.to_string();
        status.append(e.text().as_str());
        self.set_status(status.as_str())
    }

    /// Takes in that the log could not be opened.
    pub fn log_not_opened(&mut self, why: &str) -> (effects: Vec<Effect>)
        requires
            old(self).wf(),
        ensures
            final(self).wf(),
            (Reaction { app: final(self)@, effects: effects@ }) == with_status(
                old(self)@,
                "Nepodařilo se otevřít log: "@ + why@,
            ),
    {
        let mut status = "Nepodařilo se otevřít log: ".to_string();
        status.append(why);
        self.set_status(status.as_str())
    }

    /// Takes in what came of copying the last transcript.
    pub fn last_transcript_copied(&mut self, copied: Result<(), AppError>) -> (effects: Vec<Effect>)
        requires
            old(self).wf(),
        ensures
            final(self).wf(),
            (Reaction { app: final(self)@, effects: effects@ }) == on_copied(old(self)@, copied),
    {
        match copied {
            Ok(()) => self.set_status("Last transcript copied to clipboard."),
            Err(e) => self.set_status_because("Failed to copy last transcript: ", &e),
        }
    }

    /// Takes in what came of starting at login or not: a failure leaves the item as it was.
    pub fn launch_at_login_set(&mut self, enabled: bool, set: Result<(), AppError>) -> (effects: Vec<
        Effect,
    >)
        requires
            old(self).wf(),
        ensures
            final(self).wf(),
            (Reaction { app: final(self)@, effects: effects@ }) == on_launch_at_login_set(
                old(self)@,
                enabled,
                set,
            ),
    {
        match set {
            Ok(()) => if enabled {
                self.set_status("Autostart enabled.")
            } else {
                self.set_status("Autostart disabled.")
            },
            Err(e) => {
                let mut status = "Failed to update autostart: ".to_string();
                status.append(e.text().as_str());
                self.status = status;
                vec![Effect::SetLaunchAtLoginMark(!enabled), Effect::RefreshTray]
            },
        }
    }

    /// Reacts to the icon having been created.
    pub fn startup(&mut self, granted: bool) -> (effects: Vec<Effect>)
        requires
            old(self).wf(),
        ensures
            final(self).wf(),
            (Reaction { app: final(self)@, effects: effects@ }) == on_startup(old(self)@, granted),
    {
        let mut effects = vec![
            Effect::RefreshTray,
            Effect::CreateBubble,
            Effect::SpawnModelDownload,
        ];
        if !granted {
            self.waiting_for_accessibility_hotkey = true;
            self.status =
            "Accessibility permission is needed for auto-paste and the Fn/Globe hotkey. macOS settings were opened.".to_string();
            effects.push(Effect::PromptAccessibility);
            effects.push(Effect::RefreshTray);
        }
        effects
    }

    /// Has the Fn key listened to.
    pub fn install_hotkey_monitor(&mut self, announce: bool) -> (effects: Vec<Effect>)
        requires
            old(self).wf(),
        ensures
            final(self).wf(),
            (Reaction { app: final(self)@, effects: effects@ }) == on_hotkey_wanted(
                old(self)@,
                announce,
            ),
    {
        if self.hotkey_installed {
            self.waiting_for_accessibility_hotkey = false;
            return Vec::new();
        }
        vec![Effect::InstallHotkey { announce }]
    }

    /// Takes in what came of listening to the Fn key.
    pub fn hotkey_installed(&mut self, installed: bool, announce: bool) -> (effects: Vec<Effect>)
        requires
            old(self).wf(),
        ensures
            final(self).wf(),
            (Reaction { app: final(self)@, effects: effects@ }) == on_hotkey_result(
                old(self)@,
                installed,
                announce,
            ),
    {
        if !installed {
            return Vec::new();
        }
        self.hotkey_installed = true;
        self.waiting_for_accessibility_hotkey = false;
        if announce && !self.recorder.is_recording() && !self.is_transcribing {
            return self.set_status(
                "Accessibility granted. Left click the microphone or double-press Fn/Globe to dictate.",
            );
        }
        Vec::new()
    }

    /// Reacts to a moment without events.
    pub fn about_to_wait(&mut self, granted: bool) -> (effects: Vec<Effect>)
        requires
            old(self).wf(),
        ensures
            final(self).wf(),
            final(self)@ == on_accessibility_check(old(self)@, granted).app,
            effects@ == seq![Effect::UnloadIdleModel] + on_accessibility_check(
                old(self)@,
                granted,
            ).effects,
    {
        let mut effects = vec![Effect::UnloadIdleModel];
        let mut more = self.refresh_accessibility_hotkey(granted);
        effects.append(&mut more);
        effects
    }

    /// Has the Fn key listened to once the permission is there.
    fn refresh_accessibility_hotkey(&mut self, granted: bool) -> (effects: Vec<Effect>)
        requires
            old(self).wf(),
        ensures
            final(self).wf(),
            (Reaction { app: final(self)@, effects: effects@ }) == on_accessibility_check(
                old(self)@,
                granted,
            ),
    {
        if !self.waiting_for_accessibility_hotkey || self.hotkey_installed {
            return Vec::new();
        }
        if !granted {
            return Vec::new();
        }
        self.install_hotkey_monitor(true)
    }
}

/// Everything that the app can be told.
pub ghost enum Occurrence {
    Event(UserEvent),
    /// The recording was stopped, and this is the status.
    Stopped(Seq<char>),
    /// A recording was started.
    Started,
    /// Something else came to an end, with this status.
    Told(Seq<char>),
    /// Starting at login could not be changed.
    LaunchAtLoginFailed { enabled: bool, status: Seq<char> },
    Startup { granted: bool },
    HotkeyWanted { announce: bool },
    HotkeyResult { installed: bool, announce: bool },
    Waiting { granted: bool },
    /// The recorder did something.
    Recorder(RecorderView),
}

/// The reaction to anything that the app can be told.
pub open spec fn react(app: AppView, occurrence: Occurrence) -> Reaction {
    match occurrence {
        Occurrence::Event(event) => on_event(app, event),
        Occurrence::Stopped(status) => on_stopped(app, status),
        Occurrence::Started => on_started(app),
        Occurrence::Told(status) => with_status(app, status),
        Occurrence::LaunchAtLoginFailed { enabled, status } => on_launch_at_login_failed(
            app,
            enabled,
            status,
        ),
        Occurrence::Startup { granted } => on_startup(app, granted),
        Occurrence::HotkeyWanted { announce } => on_hotkey_wanted(app, announce),
        Occurrence::HotkeyResult { installed, announce } => on_hotkey_result(
            app,
            installed,
            announce,
        ),
        Occurrence::Waiting { granted } => on_accessibility_check(app, granted),
        Occurrence::Recorder(recorder) => ignored(AppView { recorder, ..app }),
    }
}

/// The cancel flags, one for each transcription and the newest last, once something is done.
pub open spec fn flags_after(flags: Seq<bool>, effects: Seq<Effect>) -> Seq<bool>
    decreases effects.len(),
{
    if effects.len() == 0 {
        flags
    } else {
        let before = flags_after(flags, effects.drop_last());
        match effects.last() {
            Effect::NewCancelFlag => before.push(false),
            Effect::RaiseCancelFlag => if before.len() > 0 {
                before.update(before.len() - 1, true)
            } else {
                before
            },
            _ => before,
        }
    }
}

/// The app together with the cancel flags.
pub ghost struct World {
    pub app: AppView,
    pub flags: Seq<bool>,
}

/// The world once the app has reacted.
pub open spec fn step(world: World, occurrence: Occurrence) -> World {
    let reaction = react(world.app, occurrence);
    World { app: reaction.app, flags: flags_after(world.flags, reaction.effects) }
}

/// The world once the app has reacted to one occurrence after another.
pub open spec fn run(world: World, occurrences: Seq<Occurrence>) -> World
    decreases occurrences.len(),
{
    if occurrences.len() == 0 {
        world
    } else {
        step(run(world, occurrences.drop_last()), occurrences.last())
    }
}

proof fn lemma_flags_stay_raised(flags: Seq<bool>, effects: Seq<Effect>, job: int)
    requires
        0 <= job < flags.len(),
    ensures
        flags_after(flags, effects).len() >= flags.len(),
        flags[job] ==> flags_after(flags, effects)[job],
    decreases effects.len(),
{
    if effects.len() > 0 {
        lemma_flags_stay_raised(flags, effects.drop_last(), job);
    }
}

/// Whatever happens, a cancel flag that was raised stays raised.
pub proof fn lemma_cancelled_stays_cancelled(world: World, occurrences: Seq<Occurrence>, job: int)
    requires
        0 <= job < world.flags.len(),
        world.flags[job],
    ensures
        job < run(world, occurrences).flags.len(),
        run(world, occurrences).flags[job],
    decreases occurrences.len(),
{
    if occurrences.len() > 0 {
        let before = run(world, occurrences.drop_last());
        lemma_cancelled_stays_cancelled(world, occurrences.drop_last(), job);
        lemma_flags_stay_raised(
            before.flags,
            react(before.app, occurrences.last()).effects,
            job,
        );
    }
}

proof fn lemma_flags_after_three(flags: Seq<bool>, a: Effect, b: Effect, c: Effect)
    ensures
        flags_after(flags, seq![a, b, c]) == flags_after(
            flags_after(flags_after(flags, seq![a]), seq![b]),
            seq![c],
        ),
{
    reveal_with_fuel(flags_after, 4);
    assert(seq![a, b, c].drop_last() =~= seq![a, b]);
    assert(seq![a, b].drop_last() =~= seq![a]);
    assert(seq![a].drop_last() =~= Seq::<Effect>::empty());
    assert(seq![b].drop_last() =~= Seq::<Effect>::empty());
    assert(seq![c].drop_last() =~= Seq::<Effect>::empty());
}

/// A transcription that the user cancels is never pasted: its flag, the newest one, is raised
/// at once, and stays so whatever happens before the transcription ends, new recordings
/// included. Its thread then removes the recording's file and reports once, that it was
/// cancelled, or why there is no transcript.
pub proof fn lemma_cancelled_transcription_is_not_pasted(
    world: World,
    later: Seq<Occurrence>,
    steps: Seq<WorkerStep>,
    outcomes: Seq<WorkerOutcome>,
)
    requires
        world.app.is_transcribing,
        !world.app.recorder.recording,
        world.flags.len() > 0,
        worker::is_run(steps, outcomes),
        outcomes[0] matches WorkerOutcome::Transcribed { cancelled, .. } ==> cancelled == run(
            step(world, Occurrence::Event(UserEvent::Cancel)),
            later,
        ).flags[world.flags.len() - 1],
    ensures
        !step(world, Occurrence::Event(UserEvent::Cancel)).app.is_transcribing,
        forall|i: int| 0 <= i < steps.len() ==> !((#[trigger] steps[i]) is Paste),
        steps.len() == 4,
        steps[1] is RemoveFile,
        steps[2] matches WorkerStep::Report { report } && match outcomes[0]->result {
            Ok(_) => report == WorkerEvent::Cancelled,
            Err(e) => worker::is_failure(report, e),
        },
{
    let cancelled = step(world, Occurrence::Event(UserEvent::Cancel));
    let effects = react(world.app, Occurrence::Event(UserEvent::Cancel)).effects;
    let rest = seq![Effect::RaiseCancelFlag, Effect::SetSubmit(false), Effect::HideBubble];
    assert(effects.drop_last() =~= rest);
    lemma_flags_after_three(
        world.flags,
        Effect::RaiseCancelFlag,
        Effect::SetSubmit(false),
        Effect::HideBubble,
    );
    reveal_with_fuel(flags_after, 2);
    assert(cancelled.flags[world.flags.len() - 1]);
    lemma_cancelled_stays_cancelled(cancelled, later, world.flags.len() - 1);
    worker::lemma_worker_reports_once(steps, outcomes);
    assert(worker::follows(steps[0], outcomes[0], steps[1]));
}

/// A transcription runs in the language that the settings held when the recording was stopped:
/// its start leaves the settings alone.
pub proof fn lemma_transcription_starts_in_the_chosen_language(app: AppView, status: Seq<char>)
    ensures
        on_stopped(app, status).app.settings == app.settings,
        on_stopped(app, status).effects.last() == Effect::SpawnTranscription,
{
}

/// The ids of the items for colors, in the order of the menu.
pub open spec fn color_item(k: int) -> Seq<char> {
    if k == 0 {
        Seq::empty()
    } else {
        palette::palette()[k - 1].id@
    }
}

/// A color that is chosen from the menu is kept: exactly its item is checked, it survives saving
/// and loading along with the other settings, which stay as they were, and it is then the color
/// of the idle icon, none for the default icon.
pub proof fn lemma_chosen_color_is_kept(app: AppView, k: int)
    requires
        0 <= k <= palette::palette().len(),
        settings::is_plain(app.settings.language),
    ensures
        ({
            let chosen = on_icon_color(app, color_item(k)).app.settings;
            &&& chosen == (SettingsView { icon_color: color_item(k), ..app.settings })
            &&& on_icon_color(app, color_item(k)).effects.contains(Effect::SaveSettings)
            &&& settings::loaded(Some(settings::saved(chosen))) == chosen
            &&& palette::color_from(chosen.icon_color, 0) == if k == 0 {
                None
            } else {
                Some(palette::palette()[k - 1])
            }
            &&& forall|m: int|
                0 <= m <= palette::palette().len() ==> ((chosen.icon_color == #[trigger] color_item(
                    m,
                )) == (m == k))
        }),
{
    palette::lemma_ids_are_told_apart();
    let chosen = on_icon_color(app, color_item(k)).app.settings;
    if k > 0 {
        settings::lemma_word_is_plain(color_item(k));
        palette::lemma_color_is_found(k - 1, 0);
    } else {
        palette::lemma_no_color_is_found(Seq::empty(), 0);
    }
    settings::lemma_saved_settings_are_loaded(chosen);
    assert(on_icon_color(app, color_item(k)).effects[1] == Effect::SaveSettings);
}

/// Each transcription gets a cancel flag of its own, which is not raised, and the flags of
/// earlier ones are left as they are.
pub proof fn lemma_transcription_has_its_own_flag(world: World, status: Seq<char>)
    ensures
        step(world, Occurrence::Stopped(status)).flags == world.flags.push(false),
        react(world.app, Occurrence::Stopped(status)).effects.last() == Effect::SpawnTranscription,
{
    let effects = on_stopped(world.app, status).effects;
    let third = Effect::UpdateBubble(BubbleState::Transcribing { submit: false });
    assert(effects.drop_last().drop_last() =~= seq![
        Effect::SetSubmit(false),
        Effect::NewCancelFlag,
        third,
    ]);
    lemma_flags_after_three(world.flags, Effect::SetSubmit(false), Effect::NewCancelFlag, third);
    reveal_with_fuel(flags_after, 3);
}

/// A user who never wants to see the bubble never sees it, and nothing makes the app forget
/// that.
pub proof fn lemma_hidden_bubble_is_not_shown(app: AppView, occurrence: Occurrence)
    requires
        app.settings.hide_bubble,
    ensures
        react(app, occurrence).app.settings.hide_bubble,
        forall|i: int|
            0 <= i < react(app, occurrence).effects.len() ==> !((#[trigger] react(
                app,
                occurrence,
            ).effects[i]) is ShowBubble),
{
}

/// A recording or a transcription that is running keeps the bubble: news of the model's
/// download do nothing to it.
pub proof fn lemma_download_leaves_bubble_alone(app: AppView, progress: ModelDownloadProgress)
    requires
        !bubble_is_free(app),
    ensures
        on_worker(app, WorkerEvent::ModelDownload(progress)).effects.len() == 0,
        on_worker(app, WorkerEvent::ModelDownloadDone).effects.len() == 0,
{
}

/// What taps of the Fn key do. A single tap does nothing while the app is idle, so that the key
/// works as ever, and two quick taps do nothing but start a recording. Where a tap acts, it acts
/// as a click on the icon.
pub proof fn lemma_taps_act_as_clicks(app: AppView)
    ensures
        app.is_transcribing ==> {
            &&& on_fn_tap(app, FnTap::Single) == on_primary_action(app)
            &&& on_fn_tap(app, FnTap::Single).app.submit == !app.submit
            &&& on_fn_tap(app, FnTap::Double) == ignored(app)
        },
        !app.is_transcribing && app.recorder.recording ==> {
            &&& on_fn_tap(app, FnTap::Single) == on_primary_action(app)
            &&& on_fn_tap(app, FnTap::Single) == (Reaction {
                app,
                effects: seq![Effect::StopRecorder],
            })
            &&& on_fn_tap(app, FnTap::Double) == ignored(app)
        },
        bubble_is_free(app) ==> {
            &&& on_fn_tap(app, FnTap::Single) == ignored(app)
            &&& on_fn_tap(app, FnTap::Double) == on_primary_action(app)
            &&& on_fn_tap(app, FnTap::Double) == (Reaction {
                app,
                effects: seq![Effect::StartRecorder],
            })
        },
{
}

/// Turning sending around twice leaves it as it was.
pub proof fn lemma_submit_toggles_back(app: AppView)
    ensures
        on_toggle_submit(app).app.submit == !app.submit,
        on_toggle_submit(on_toggle_submit(app).app).app.submit == app.submit,
{
}

/// What always holds: text is sent only by a transcription that is running, and none runs
/// during a recording.
pub open spec fn fits_together(app: AppView) -> bool {
    &&& app.submit ==> app.is_transcribing
    &&& !(app.is_transcribing && app.recorder.recording)
}

/// Whether something can happen: a recording that was stopped does not record, and none records
/// during a transcription, since none is started then.
pub open spec fn can_happen(app: AppView, occurrence: Occurrence) -> bool {
    match occurrence {
        Occurrence::Stopped(_) => !app.recorder.recording,
        Occurrence::Recorder(recorder) => recorder.recording ==> !app.is_transcribing,
        _ => true,
    }
}

/// Every reaction keeps what always holds.
pub proof fn lemma_reactions_fit_together(app: AppView, occurrence: Occurrence)
    requires
        fits_together(app),
        can_happen(app, occurrence),
    ensures
        fits_together(react(app, occurrence).app),
{
}

/// A recording is started only while nothing runs, and stopped or thrown away only while it
/// records.
pub proof fn lemma_recorder_is_driven_in_turn(app: AppView, occurrence: Occurrence, i: int)
    requires
        0 <= i < react(app, occurrence).effects.len(),
    ensures
        react(app, occurrence).effects[i] == Effect::StartRecorder ==> bubble_is_free(app),
        react(app, occurrence).effects[i] == Effect::StopRecorder ==> app.recorder.recording
            && !app.is_transcribing,
        react(app, occurrence).effects[i] == Effect::DiscardRecording ==> app.recorder.recording,
{
}

/// A transcript that was made is kept, whether it could be pasted or not, and nothing else
/// changes the last transcript.
pub proof fn lemma_last_transcript_is_kept(app: AppView, occurrence: Occurrence)
    ensures
        react(app, occurrence).app.last_transcript == match occurrence {
            Occurrence::Event(UserEvent::Worker(WorkerEvent::Success(transcript))) => transcript@,
            Occurrence::Event(
                UserEvent::Worker(WorkerEvent::PasteFailed { transcript, .. }),
            ) => transcript@,
            _ => app.last_transcript,
        },
{
}

/// Whether the app, told of something, asks for an effect.
pub open spec fn asks_for(app: AppView, occurrence: Occurrence, effect: Effect) -> bool {
    react(app, occurrence).effects.contains(effect)
}

/// The item for starting at login does what it shows: whatever the app remembers, choosing it
/// asks for the app to be started at login, or no longer, exactly as the item is then checked,
/// and for nothing else. Nothing but the item asks for that.
pub proof fn lemma_launch_item_does_what_it_shows(app: AppView, occurrence: Occurrence, wanted: bool)
    ensures
        asks_for(app, occurrence, Effect::SetLaunchAtLogin(wanted)) <==> (occurrence
            matches Occurrence::Event(UserEvent::Menu(MenuChoice::LaunchAtLogin { checked }))
            && checked == wanted),
        (occurrence matches Occurrence::Event(
            UserEvent::Menu(MenuChoice::LaunchAtLogin { checked }),
        )) ==> react(app, occurrence).app == app && react(app, occurrence).effects.len() == 1,
{
    if let Occurrence::Event(UserEvent::Menu(MenuChoice::LaunchAtLogin { checked })) = occurrence {
        assert(react(app, occurrence).effects[0] == Effect::SetLaunchAtLogin(checked));
    }
}

/// Once what the item asked for is done without an error, the app starts at login exactly where
/// the item is checked; and where it was not done, the item is checked as it was before.
pub proof fn lemma_app_starts_at_login_where_checked(
    app: AppView,
    checked: bool,
    wanted: bool,
    existed: bool,
    outcomes: Seq<LaunchOutcome>,
    status: Seq<char>,
    mark: bool,
)
    requires
        asks_for(
            app,
            Occurrence::Event(UserEvent::Menu(MenuChoice::LaunchAtLogin { checked })),
            Effect::SetLaunchAtLogin(wanted),
        ),
    ensures
        launch::first_step(Platform::MacOs, wanted) matches Some(step) && (launch::launch_run(
            launch::LaunchState { step, plist_exists: existed },
            outcomes,
        ) matches Some(state) ==> state.step == LaunchStep::Finished ==> platform::starts_at_login(
            Platform::MacOs,
            Some(state.plist_exists),
        ) == checked),
        asks_for(
            app,
            Occurrence::LaunchAtLoginFailed { enabled: wanted, status },
            Effect::SetLaunchAtLoginMark(mark),
        ) <==> mark == !checked,
{
    lemma_launch_item_does_what_it_shows(
        app,
        Occurrence::Event(UserEvent::Menu(MenuChoice::LaunchAtLogin { checked })),
        wanted,
    );
    launch::lemma_finished_change_is_reported(Platform::MacOs, wanted, existed, outcomes);
    assert(react(
        app,
        Occurrence::LaunchAtLoginFailed { enabled: wanted, status },
    ).effects[0] == Effect::SetLaunchAtLoginMark(!wanted));
}

/// Each item of the menu does what it says, and nothing else does.
pub proof fn lemma_menu_items_have_their_effects(app: AppView, occurrence: Occurrence)
    ensures
        asks_for(app, occurrence, Effect::Exit) <==> occurrence == Occurrence::Event(
            UserEvent::Menu(MenuChoice::Quit),
        ),
        asks_for(app, occurrence, Effect::OpenLog) <==> occurrence == Occurrence::Event(
            UserEvent::Menu(MenuChoice::Status),
        ),
        asks_for(app, occurrence, Effect::CopyLastTranscript) <==> occurrence == Occurrence::Event(
            UserEvent::Menu(MenuChoice::CopyLastTranscript),
        ),
        asks_for(app, occurrence, Effect::SyncIconColorMarks) <==> (occurrence
            matches Occurrence::Event(UserEvent::Menu(MenuChoice::IconColor(_)))),
        asks_for(app, occurrence, Effect::SyncLanguageMarks) <==> (occurrence
            matches Occurrence::Event(UserEvent::Menu(MenuChoice::Language { .. }))),
        asks_for(app, occurrence, Effect::SaveSettings) <==> asks_for(
            app,
            occurrence,
            Effect::SyncIconColorMarks,
        ) || asks_for(app, occurrence, Effect::SyncLanguageMarks),
{
    let effects = react(app, occurrence).effects;
    assert(effects.len() > 0 ==> effects.contains(effects[0]));
    assert(effects.len() > 1 ==> effects.contains(effects[1]));
}

/// Work is started by what calls for it, and by nothing else: a transcription, under a new
/// cancel flag, by a recording that was stopped; loading the model by one that was started; and
/// the download, the bubble and the question for the permission by the start of the app.
pub proof fn lemma_work_starts_when_called_for(app: AppView, occurrence: Occurrence)
    ensures
        asks_for(app, occurrence, Effect::SpawnTranscription) <==> occurrence is Stopped,
        asks_for(app, occurrence, Effect::NewCancelFlag) <==> occurrence is Stopped,
        asks_for(app, occurrence, Effect::SpawnPreload) <==> occurrence is Started,
        asks_for(app, occurrence, Effect::SpawnModelDownload) <==> occurrence is Startup,
        asks_for(app, occurrence, Effect::CreateBubble) <==> occurrence is Startup,
        asks_for(app, occurrence, Effect::PromptAccessibility) <==> occurrence
            == (Occurrence::Startup { granted: false }),
{
    let effects = react(app, occurrence).effects;
    assert(effects.len() > 0 ==> effects.contains(effects[0]));
    assert(effects.len() > 1 ==> effects.contains(effects[1]));
    assert(effects.len() > 2 ==> effects.contains(effects[2]));
    assert(effects.len() > 3 ==> effects.contains(effects[3]));
    assert(effects.len() > 4 ==> effects.contains(effects[4]));
}

/// A recording is started by a click or by two quick taps while nothing runs, and stopped by a
/// click or by one tap while it records. The bubble's button throws away what runs: a recording,
/// or else a transcription, whose flag is raised.
pub proof fn lemma_recordings_are_started_and_stopped_on_purpose(
    app: AppView,
    occurrence: Occurrence,
)
    ensures
        asks_for(app, occurrence, Effect::StartRecorder) <==> !app.is_transcribing
            && !app.recorder.recording && (occurrence == Occurrence::Event(UserEvent::PrimaryClick)
            || occurrence == Occurrence::Event(UserEvent::FnTap(FnTap::Double))),
        asks_for(app, occurrence, Effect::StopRecorder) <==> !app.is_transcribing
            && app.recorder.recording && (occurrence == Occurrence::Event(UserEvent::PrimaryClick)
            || occurrence == Occurrence::Event(UserEvent::FnTap(FnTap::Single))),
        asks_for(app, occurrence, Effect::DiscardRecording) <==> app.recorder.recording
            && occurrence == Occurrence::Event(UserEvent::Cancel),
        asks_for(app, occurrence, Effect::RaiseCancelFlag) <==> !app.recorder.recording
            && app.is_transcribing && occurrence == Occurrence::Event(UserEvent::Cancel),
{
    let effects = react(app, occurrence).effects;
    assert(effects.len() > 0 ==> effects.contains(effects[0]));
}

/// The Fn key is listened to once: only where it is not yet, and where that is wanted or the
/// permission that the app waits for is there.
pub proof fn lemma_hotkey_is_installed_once(app: AppView, occurrence: Occurrence, announce: bool)
    ensures
        asks_for(app, occurrence, Effect::InstallHotkey { announce }) <==> !app.hotkey_installed
            && (occurrence == (Occurrence::HotkeyWanted { announce }) || (announce
            && app.waiting_for_hotkey && occurrence == (Occurrence::Waiting { granted: true }))),
        react(app, occurrence).app.hotkey_installed == (app.hotkey_installed || (occurrence
            matches Occurrence::HotkeyResult { installed, .. } && installed)),
        react(app, occurrence).app.hotkey_installed && !app.hotkey_installed ==> !react(
            app,
            occurrence,
        ).app.waiting_for_hotkey,
{
    let effects = react(app, occurrence).effects;
    assert(effects.len() > 0 ==> effects.contains(effects[0]));
}

/// The transcription is told of every change of whether its text is sent, and of nothing that
/// is not so.
pub proof fn lemma_submit_is_passed_on(app: AppView, occurrence: Occurrence)
    ensures
        forall|b: bool|
            asks_for(app, occurrence, Effect::SetSubmit(b)) ==> b == react(
                app,
                occurrence,
            ).app.submit,
        react(app, occurrence).app.submit != app.submit ==> asks_for(
            app,
            occurrence,
            Effect::SetSubmit(!app.submit),
        ),
        react(app, occurrence).app.submit != app.submit && react(
            app,
            occurrence,
        ).app.is_transcribing && app.is_transcribing && !(occurrence is Stopped) ==> occurrence
            == Occurrence::Event(UserEvent::PrimaryClick) || occurrence == Occurrence::Event(
            UserEvent::FnTap(FnTap::Single),
        ),
{
    let effects = react(app, occurrence).effects;
    assert(effects.len() > 0 ==> effects.contains(effects[0]));
    assert(effects.len() > 1 ==> effects.contains(effects[1]));
}

/// The bubble shows what is so: a transcription with its sending as it is, a recording that was
/// just started, or the download just reported; and it goes once a transcription is over.
pub proof fn lemma_bubble_shows_what_is_so(app: AppView, occurrence: Occurrence)
    ensures
        forall|state: BubbleState|
            (asks_for(app, occurrence, Effect::ShowBubble(state)) || asks_for(
                app,
                occurrence,
                Effect::UpdateBubble(state),
            )) ==> match state {
                BubbleState::Recording => occurrence is Started,
                BubbleState::Transcribing { submit } => react(app, occurrence).app.is_transcribing
                    && submit == react(app, occurrence).app.submit,
                BubbleState::DownloadingModel { progress } => occurrence == Occurrence::Event(
                    UserEvent::Worker(WorkerEvent::ModelDownload(progress)),
                ) && bubble_is_free(app),
            },
        app.is_transcribing && !react(app, occurrence).app.is_transcribing ==> asks_for(
            app,
            occurrence,
            Effect::HideBubble,
        ),
        react(app, occurrence).app.is_transcribing && (!app.is_transcribing || react(
            app,
            occurrence,
        ).app.submit != app.submit) ==> asks_for(
            app,
            occurrence,
            Effect::UpdateBubble(
                BubbleState::Transcribing { submit: react(app, occurrence).app.submit },
            ),
        ),
        occurrence is Started && !app.settings.hide_bubble ==> asks_for(
            app,
            occurrence,
            Effect::ShowBubble(BubbleState::Recording),
        ),
{
    let effects = react(app, occurrence).effects;
    assert(effects.len() > 0 ==> effects.contains(effects[0]));
    assert(effects.len() > 1 ==> effects.contains(effects[1]));
    assert(effects.len() > 2 ==> effects.contains(effects[2]));
}

/// Whatever changes in what the menu bar shows is shown at once.
pub proof fn lemma_changes_are_shown(app: AppView, occurrence: Occurrence)
    requires
        !(occurrence is Recorder),
    ensures
        ({
            let after = react(app, occurrence).app;
            after.status != app.status || after.last_transcript != app.last_transcript
                || after.settings.icon_color != app.settings.icon_color || visual_state(after)
                != visual_state(app) ==> asks_for(app, occurrence, Effect::RefreshTray)
        }),
{
    let effects = react(app, occurrence).effects;
    assert(effects.len() > 0 ==> effects.contains(effects.last()));
    assert(effects.len() > 3 ==> effects.contains(effects[3]));
}

/// A transcription runs from a recording that was stopped until its thread reports its end or
/// the user cancels it, and it starts and ends without progress.
pub proof fn lemma_transcription_runs_until_its_end(app: AppView, occurrence: Occurrence)
    ensures
        ({
            let after = react(app, occurrence).app;
            let over = match occurrence {
                Occurrence::Event(UserEvent::Worker(WorkerEvent::Success(_))) => true,
                Occurrence::Event(UserEvent::Worker(WorkerEvent::PasteFailed { .. })) => true,
                Occurrence::Event(UserEvent::Worker(WorkerEvent::Failed(_))) => true,
                Occurrence::Event(UserEvent::Worker(WorkerEvent::Cancelled)) => true,
                Occurrence::Event(UserEvent::Cancel) => app.is_transcribing
                    && !app.recorder.recording,
                _ => false,
            };
            &&& after.is_transcribing == (!over && (app.is_transcribing || occurrence is Stopped))
            &&& over || occurrence is Stopped ==> after.transcription_progress == 0
                && !after.submit
            &&& occurrence matches Occurrence::Event(
                UserEvent::Worker(WorkerEvent::TranscriptionProgress(percent)),
            ) ==> after.transcription_progress == percent
            &&& !over && !(occurrence is Stopped) && !(occurrence matches Occurrence::Event(
                UserEvent::Worker(WorkerEvent::TranscriptionProgress(_)),
            )) ==> after.transcription_progress == app.transcription_progress
        }),
{
}

/// Only the menu changes the settings, each item only its own, to what was chosen; and the
/// recorder is changed by nothing but the recorder.
pub proof fn lemma_settings_change_by_choice(app: AppView, occurrence: Occurrence)
    ensures
        ({
            let after = react(app, occurrence).app;
            &&& after.settings.hide_bubble == app.settings.hide_bubble
            &&& after.settings.icon_color == match occurrence {
                Occurrence::Event(UserEvent::Menu(MenuChoice::IconColor(id))) => id@,
                _ => app.settings.icon_color,
            }
            &&& after.settings.language == match occurrence {
                Occurrence::Event(UserEvent::Menu(MenuChoice::Language { code, .. })) => code@,
                _ => app.settings.language,
            }
            &&& after.recorder == match occurrence {
                Occurrence::Recorder(recorder) => recorder,
                _ => app.recorder,
            }
        }),
{
}

/// A download is known of from its first report to its end, and by nothing else.
pub proof fn lemma_download_is_known_until_its_end(app: AppView, occurrence: Occurrence)
    ensures
        react(app, occurrence).app.downloading_model == match occurrence {
            Occurrence::Event(UserEvent::Worker(WorkerEvent::ModelDownload(_))) => true,
            Occurrence::Event(UserEvent::Worker(WorkerEvent::ModelDownloadDone)) => false,
            _ => app.downloading_model,
        },
        forall|progress: ModelDownloadProgress|
            occurrence == Occurrence::Event(
                UserEvent::Worker(WorkerEvent::ModelDownload(progress)),
            ) && bubble_is_free(app) ==> {
                &&& app.downloading_model ==> asks_for(
                    app,
                    occurrence,
                    Effect::UpdateBubble(BubbleState::DownloadingModel { progress }),
                )
                &&& !app.downloading_model && !app.settings.hide_bubble ==> asks_for(
                    app,
                    occurrence,
                    Effect::ShowBubble(BubbleState::DownloadingModel { progress }),
                )
            },
{
    let effects = react(app, occurrence).effects;
    assert(effects.len() > 0 ==> effects.contains(effects[0]));
}

/// What a thread or an operation says is what the user reads: a status as it is, and the reason
/// of a failure at its end, together with the start of the transcript where there is one.
pub proof fn lemma_reports_are_read(app: AppView, status: String, transcript: String, why: String)
    ensures
        on_worker(app, WorkerEvent::Status(status)).app.status == status@,
        react(app, Occurrence::Told(status@)).app.status == status@,
        why@.is_suffix_of(on_worker(app, WorkerEvent::Failed(why)).app.status),
        text::preview_text_of(transcript@).is_suffix_of(
            on_worker(app, WorkerEvent::Success(transcript)).app.status,
        ),
        (why@ + ". "@ + text::preview_text_of(transcript@)).is_suffix_of(
            on_worker(
                app,
                WorkerEvent::PasteFailed { transcript, error: why },
            ).app.status,
        ),
{
    let preview = text::preview_text_of(transcript@);
    let failed = on_worker(app, WorkerEvent::Failed(why)).app.status;
    assert(failed.skip(failed.len() - why@.len()) =~= why@);
    let success = on_worker(app, WorkerEvent::Success(transcript)).app.status;
    assert(success.skip(success.len() - preview.len()) =~= preview);
    let paste_failed = on_worker(
        app,
        WorkerEvent::PasteFailed { transcript, error: why },
    ).app.status;
    let end = why@ + ". "@ + preview;
    assert(paste_failed =~= "Transcript ready but paste failed: "@ + end);
    assert(paste_failed.skip(paste_failed.len() - end.len()) =~= end);
}

/// The icon is idle exactly while nothing runs; a transcription shows its progress and whether
/// it is sent, and comes before a recording.
pub proof fn lemma_icon_shows_what_runs(app: AppView)
    ensures
        visual_state(app) == TrayVisualState::Idle <==> !app.is_transcribing
            && !app.recorder.recording,
        visual_state(app) == TrayVisualState::Recording <==> !app.is_transcribing
            && app.recorder.recording,
        visual_state(app) matches TrayVisualState::Transcribing { progress, submit } ==> progress
            == app.transcription_progress && submit == app.submit,
        visual_state(app) is Transcribing <==> app.is_transcribing,
{
}

/// A failure changes nothing but the status, which ends with the reason: no recording, no
/// transcription and no work of a thread starts, and the item for starting at login is checked
/// again as it was.
pub proof fn lemma_failures_are_told(
    app: AppView,
    recording: &AudioRecording,
    e: AppError,
    duration: Seq<char>,
    enabled: bool,
)
    ensures
        ({
            let stop = on_recording_stopped(app, Err(e), duration);
            let start = on_recording_started(app, Err(e));
            let copy = on_copied(app, Err(e));
            let launch = on_launch_at_login_set(app, enabled, Err(e));
            &&& error::error_text(e).is_suffix_of(stop.app.status)
            &&& error::error_text(e).is_suffix_of(start.app.status)
            &&& error::error_text(e).is_suffix_of(copy.app.status)
            &&& error::error_text(e).is_suffix_of(launch.app.status)
            &&& stop.app == (AppView { status: stop.app.status, ..app })
            &&& start.app == (AppView { status: start.app.status, ..app })
            &&& copy.app == (AppView { status: copy.app.status, ..app })
            &&& launch.app == (AppView { status: launch.app.status, ..app })
            &&& stop.effects == seq![Effect::RefreshTray]
            &&& start.effects == seq![Effect::RefreshTray]
            &&& copy.effects == seq![Effect::RefreshTray]
            &&& launch.effects.contains(Effect::SetLaunchAtLoginMark(!enabled))
            &&& !launch.effects.contains(Effect::SetLaunchAtLoginMark(enabled))
        }),
        on_recording_stopped(app, Ok(recording), duration).app.is_transcribing,
        on_recording_stopped(app, Ok(recording), duration).effects.contains(
            Effect::SpawnTranscription,
        ),
        on_recording_started(app, Ok(())).effects.contains(Effect::SpawnPreload),
{
    let why = error::error_text(e);
    let stop = on_recording_stopped(app, Err(e), duration).app.status;
    let start = on_recording_started(app, Err(e)).app.status;
    let copy = on_copied(app, Err(e)).app.status;
    let launch = on_launch_at_login_set(app, enabled, Err(e));
    assert(stop.skip(stop.len() - why.len()) =~= why);
    assert(start.skip(start.len() - why.len()) =~= why);
    assert(copy.skip(copy.len() - why.len()) =~= why);
    assert(launch.app.status.skip(launch.app.status.len() - why.len()) =~= why);
    assert(launch.effects[0] == Effect::SetLaunchAtLoginMark(!enabled));
    assert(on_recording_stopped(app, Ok(recording), duration).effects[4]
        == Effect::SpawnTranscription);
    assert(on_recording_started(app, Ok(())).effects[0] == Effect::SpawnPreload);
}

/// A change of starting at login that was made says which one it was, leaves the item alone, and
/// cannot be mistaken for one that failed; nor can a copy that was made.
pub proof fn lemma_successes_are_told(app: AppView, e: AppError)
    ensures
        on_launch_at_login_set(app, true, Ok(())).app.status != on_launch_at_login_set(
            app,
            false,
            Ok(()),
        ).app.status,
        forall|enabled: bool, other: bool|
            on_launch_at_login_set(app, enabled, Ok(())).app.status != on_launch_at_login_set(
                app,
                other,
                Err(e),
            ).app.status,
        forall|enabled: bool, mark: bool|
            !on_launch_at_login_set(app, enabled, Ok(())).effects.contains(
                Effect::SetLaunchAtLoginMark(mark),
            ),
        on_copied(app, Ok(())).app.status != on_copied(app, Err(e)).app.status,
{
    reveal_strlit("Autostart enabled.");
    reveal_strlit("Autostart disabled.");
    reveal_strlit("Failed to update autostart: ");
    reveal_strlit("Last transcript copied to clipboard.");
    reveal_strlit("Failed to copy last transcript: ");
    assert("Autostart enabled."@.len() != "Autostart disabled."@.len());
    assert("Autostart enabled."@[0] == 'A');
    assert("Autostart disabled."@[0] == 'A');
    assert(("Failed to update autostart: "@ + error::error_text(e))[0] == 'F');
    assert("Last transcript copied to clipboard."@[0] == 'L');
    assert(("Failed to copy last transcript: "@ + error::error_text(e))[0] == 'F');
}

/// The status of a recording that was stopped tells its length, its rate and its channels, in
/// this order: each can be read off it.
pub proof fn lemma_stopped_status_tells_the_recording(
    duration: Seq<char>,
    sample_rate: u32,
    channels: u16,
)
    ensures
        ({
            let told = stopped_status(duration, sample_rate, channels).skip(
                "Recording stopped ("@.len() as int,
            );
            let behind = told.skip(duration.len() as int + 3);
            let rate_end = text::position_of(behind, ' ') as int;
            let last = behind.skip(rate_end + 5);
            let channels_end = text::position_of(last, ' ') as int;
            &&& (duration + seq!['s']).is_prefix_of(told)
            &&& text::number_of(behind.take(rate_end)) == sample_rate
            &&& seq![' ', 'H', 'z'].is_prefix_of(behind.skip(rate_end))
            &&& text::number_of(last.take(channels_end)) == channels
            &&& seq![' ', 'c', 'h'].is_prefix_of(last.skip(channels_end))
        }),
{
    reveal_strlit("s, ");
    reveal_strlit(" Hz, ");
    reveal_strlit(" ch). Transcribing...");
    let start = "Recording stopped ("@;
    let rate = text::decimal(sample_rate as nat);
    let number = text::decimal(channels as nat);
    let last = number + " ch). Transcribing..."@;
    let behind = rate + (" Hz, "@ + last);
    let told = duration + "s, "@ + behind;
    let status = stopped_status(duration, sample_rate, channels);
    assert(status =~= start + told);
    assert(status.skip(start.len() as int) =~= told);
    assert(told.take(duration.len() as int + 1) =~= duration + seq!['s']);
    assert(told.skip(duration.len() as int + 3) =~= behind);
    lemma_number_ends_at_space(sample_rate as nat, " Hz, "@ + last);
    let n = rate.len() as int;
    assert(behind.skip(n) =~= " Hz, "@ + last);
    assert(behind.skip(n).take(3) =~= seq![' ', 'H', 'z']);
    assert(behind.skip(n + 5) =~= last);
    lemma_number_ends_at_space(channels as nat, " ch). Transcribing..."@);
    let m = number.len() as int;
    assert(last.skip(m) =~= " ch). Transcribing..."@);
    assert(last.skip(m).take(3) =~= seq![' ', 'c', 'h']);
}

proof fn lemma_number_ends_at_space(n: nat, rest: Seq<char>)
    requires
        rest.len() > 0,
        rest[0] == ' ',
    ensures
        text::position_of(text::decimal(n) + rest, ' ') == text::decimal(n).len(),
        text::number_of((text::decimal(n) + rest).take(text::decimal(n).len() as int)) == n,
{
    let digits = text::decimal(n);
    text::lemma_decimal_digits(n);
    text::lemma_position_behind(digits, ' ', rest);
    assert((digits + rest).take(digits.len() as int) =~= digits);
}

/// The status tells whether the text is sent, in the same words whatever the app was doing; a
/// language that was chosen by its name; and what was cancelled, in the same words whether the
/// user did so or the thread reports it.
pub proof fn lemma_statuses_tell_what_was_done(
    a: AppView,
    b: AppView,
    code: Seq<char>,
    label: Seq<char>,
)
    ensures
        on_toggle_submit(a).app.status == on_toggle_submit(b).app.status <==> a.submit == b.submit,
        label.is_suffix_of(on_language(a, code, label).app.status),
        a.is_transcribing && !a.recorder.recording ==> on_cancel(a).app.status == on_worker(
            b,
            WorkerEvent::Cancelled,
        ).app.status,
        a.recorder.recording && b.is_transcribing && !b.recorder.recording ==> on_cancel(
            a,
        ).app.status != on_cancel(b).app.status,
        first_status(true) != first_status(false),
        tooltip_of(a) == tooltip_of(b) <==> a.status == b.status,
        a.status.is_suffix_of(tooltip_of(a)),
{
    reveal_strlit("Po přepisu se text jen vloží.");
    reveal_strlit("Po přepisu se text vloží a odešle (Enter).");
    assert("Po přepisu se text jen vloží."@.len()
        != "Po přepisu se text vloží a odešle (Enter)."@.len());
    reveal_strlit("Nahrávání zrušeno.");
    reveal_strlit("Přepis zrušen.");
    assert("Nahrávání zrušeno."@.len() != "Přepis zrušen."@.len());
    reveal_strlit(
        "Ready. Left click the microphone in the menu bar or double-press Fn/Globe to dictate.",
    );
    reveal_strlit(
        "Ready. Left click to dictate. Enable Accessibility for Diktovani to turn on auto-paste and the Fn/Globe hotkey.",
    );
    assert(first_status(true).len() != first_status(false).len());
    let language = on_language(a, code, label).app.status;
    assert(language.skip(language.len() - label.len()) =~= label);
    let n = "Diktovani\n"@.len() as int;
    assert(tooltip_of(a).skip(n) =~= a.status);
    assert(tooltip_of(b).skip(n) =~= b.status);
}

/// The status changes only where something is told: by the user turning sending around, giving
/// something up, choosing a language or clicking too early, by a thread, by something that came
/// to an end, or by the permission for the Fn key.
pub proof fn lemma_status_changes_where_something_is_told(app: AppView, occurrence: Occurrence)
    requires
        react(app, occurrence).app.status != app.status,
    ensures
        match occurrence {
            Occurrence::Event(event) => match event {
                UserEvent::FnTap(tap) => tap == FnTap::Single && app.is_transcribing,
                UserEvent::PrimaryClick => app.is_transcribing,
                UserEvent::Cancel => app.recorder.recording || app.is_transcribing,
                UserEvent::OtherTrayEvent => false,
                UserEvent::Menu(choice) => choice is Language,
                UserEvent::Worker(report) => !(report is TranscriptionProgress) && !(report
                    is ModelDownload) && !(report is ModelDownloadDone),
            },
            Occurrence::Stopped(status) => react(app, occurrence).app.status == status,
            Occurrence::Started => true,
            Occurrence::Told(status) => react(app, occurrence).app.status == status,
            Occurrence::LaunchAtLoginFailed { status, .. } => react(app, occurrence).app.status
                == status,
            Occurrence::Startup { granted } => !granted,
            Occurrence::HotkeyResult { installed, announce } => installed && announce
                && bubble_is_free(app),
            _ => false,
        },
{
}

/// The app waits for the permission from its start without it until the Fn key is listened to.
pub proof fn lemma_app_waits_for_the_permission(
    app: AppView,
    occurrence: Occurrence,
    granted: bool,
    settings: SettingsView,
)
    ensures
        react(app, occurrence).app.waiting_for_hotkey == match occurrence {
            Occurrence::Startup { granted } => !granted || app.waiting_for_hotkey,
            Occurrence::HotkeyWanted { .. } => app.waiting_for_hotkey && !app.hotkey_installed,
            Occurrence::HotkeyResult { installed, .. } => app.waiting_for_hotkey && !installed,
            _ => app.waiting_for_hotkey,
        },
        new_app(granted, settings).waiting_for_hotkey == !granted,
        react(
            new_app(granted, settings),
            Occurrence::Startup { granted },
        ).app.waiting_for_hotkey == !granted,
{
}

/// The bubble is hidden by the end of what it shows, and by its button, and by nothing else.
pub proof fn lemma_bubble_is_hidden_at_the_end(app: AppView, occurrence: Occurrence)
    ensures
        asks_for(app, occurrence, Effect::HideBubble) <==> match occurrence {
            Occurrence::Event(UserEvent::Cancel) => app.recorder.recording || app.is_transcribing
                || app.downloading_model,
            Occurrence::Event(UserEvent::Worker(report)) => match report {
                WorkerEvent::Success(_) => true,
                WorkerEvent::PasteFailed { .. } => true,
                WorkerEvent::Failed(_) => true,
                WorkerEvent::Cancelled => true,
                WorkerEvent::ModelDownloadDone => app.downloading_model && !app.is_transcribing
                    && !app.recorder.recording,
                _ => false,
            },
            _ => false,
        },
{
    let effects = react(app, occurrence).effects;
    assert(effects.len() > 0 ==> effects.contains(effects[0]));
    assert(effects.len() > 1 ==> effects.contains(effects[1]));
    assert(effects.len() > 2 ==> effects.contains(effects[2]));
}

/// An app that has just started rests: nothing runs, there is no transcript to copy, and it has
/// the settings that it was given.
pub proof fn lemma_new_app_rests(granted: bool, settings: SettingsView)
    ensures
        ({
            let app = new_app(granted, settings);
            &&& visual_state(app) == TrayVisualState::Idle
            &&& fits_together(app)
            &&& app.settings == settings
            &&& app.last_transcript.len() == 0
            &&& !app.downloading_model && !app.hotkey_installed
            &&& app.recorder.session is None
        }),
{
}

/// The icons can be told apart: a transcription has none of the system's symbols, and idleness
/// another one than a recording.
pub proof fn lemma_icons_are_told_apart(a: TrayVisualState, b: TrayVisualState)
    ensures
        tray_symbol_of(a) is None <==> a is Transcribing,
        tray_symbol_of(a) matches Some(x) ==> (tray_symbol_of(b) matches Some(y) ==> (x.name@
            == y.name@ <==> a == b) && (x.description@ == y.description@ <==> a == b)),
{
    reveal_strlit("mic.fill");
    reveal_strlit("checkmark");
    reveal_strlit("Microphone");
    reveal_strlit("Stop recording");
    assert("mic.fill"@.len() != "checkmark"@.len());
    assert("Microphone"@.len() != "Stop recording"@.len());
}

} // verus!

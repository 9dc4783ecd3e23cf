use diktovani::bubble::BubbleState;
use diktovani::error::AppError;
use diktovani::hotkey::FnTap;
use diktovani::progress::ModelDownloadProgress;
use diktovani::audio::{InputConfig, SampleFormat};
use diktovani::recorder::{AudioRecording, CommandReply};
use diktovani::settings::Settings;
use diktovani::palette::icon_colors;
use diktovani::ui::{
    tray_symbol, Effect, MenuChoice, TrayVisualState, UserEvent, WhisperingMvpApp,
};
use diktovani::worker::WorkerEvent;

fn idle() -> WhisperingMvpApp {
    WhisperingMvpApp::new(true, Settings::default())
}

fn record(app: &mut WhisperingMvpApp) {
    let config = InputConfig {
        channels: 1,
        min_sample_rate: 16000,
        max_sample_rate: 16000,
        sample_format: SampleFormat::F32,
    };
    let plan = app.recorder.start_new_recording(Ok(1), Some(Ok(vec![config]))).unwrap();
    app.recorder.open_session("/tmp/a.wav", plan.choice, Ok(())).unwrap();
    app.recorder.confirm_start(CommandReply::Confirmed).unwrap();
}

fn recording() -> WhisperingMvpApp {
    let mut app = idle();
    record(&mut app);
    app
}

fn stopped() -> AudioRecording {
    AudioRecording {
        file_path: "/tmp/a.wav".to_string(),
        sample_rate: 16000,
        channels: 1,
        samples: 24000,
    }
}

fn transcribing() -> WhisperingMvpApp {
    let mut app = idle();
    app.recording_stopped(Ok(&stopped()), "1.5");
    app
}

fn event(app: &mut WhisperingMvpApp, event: UserEvent) -> Vec<Effect> {
    let effects = app.user_event(event);
    assert_eq!(effects[0], Effect::UnloadIdleModel);
    effects[1..].to_vec()
}

#[test]
fn the_first_status_depends_on_the_permission() {
    let app = idle();
    assert_eq!(
        app.status,
        "Ready. Left click the microphone in the menu bar or double-press Fn/Globe to dictate."
    );
    assert!(!app.waiting_for_accessibility_hotkey);
    let app = WhisperingMvpApp::new(false, Settings::default());
    assert_eq!(
        app.status,
        "Ready. Left click to dictate. Enable Accessibility for Diktovani to turn on auto-paste and the Fn/Globe hotkey."
    );
    assert!(app.waiting_for_accessibility_hotkey);
    assert_eq!(app.current_visual_state(), TrayVisualState::Idle);
}

#[test]
fn a_click_starts_and_stops() {
    let mut app = idle();
    assert_eq!(event(&mut app, UserEvent::PrimaryClick), vec![Effect::StartRecorder]);
    let mut app = recording();
    assert_eq!(app.current_visual_state(), TrayVisualState::Recording);
    assert_eq!(event(&mut app, UserEvent::PrimaryClick), vec![Effect::StopRecorder]);
    assert_eq!(event(&mut app, UserEvent::OtherTrayEvent), vec![]);
}

#[test]
fn a_click_turns_sending_around() {
    let mut app = transcribing();
    let effects = event(&mut app, UserEvent::PrimaryClick);
    assert_eq!(
        effects,
        vec![
            Effect::SetSubmit(true),
            Effect::UpdateBubble(BubbleState::Transcribing { submit: true }),
            Effect::RefreshTray,
        ]
    );
    assert_eq!(app.status, "Po přepisu se text vloží a odešle (Enter).");
    assert_eq!(
        app.current_visual_state(),
        TrayVisualState::Transcribing { progress: 0, submit: true }
    );
    event(&mut app, UserEvent::PrimaryClick);
    assert_eq!(app.status, "Po přepisu se text jen vloží.");
    assert!(!app.submit_after_transcription);
}

#[test]
fn taps_of_the_fn_key() {
    let mut app = idle();
    assert_eq!(event(&mut app, UserEvent::FnTap(FnTap::Single)), vec![]);
    assert_eq!(event(&mut app, UserEvent::FnTap(FnTap::Double)), vec![Effect::StartRecorder]);
    let mut app = recording();
    assert_eq!(event(&mut app, UserEvent::FnTap(FnTap::Double)), vec![]);
    assert_eq!(event(&mut app, UserEvent::FnTap(FnTap::Single)), vec![Effect::StopRecorder]);
    let mut app = transcribing();
    assert_eq!(event(&mut app, UserEvent::FnTap(FnTap::Double)), vec![]);
    assert_eq!(
        event(&mut app, UserEvent::FnTap(FnTap::Single))[0],
        Effect::SetSubmit(true)
    );
}

#[test]
fn a_stopped_recording_is_transcribed() {
    let mut app = idle();
    let effects = app.recording_stopped(Ok(&stopped()), "1.5");
    assert_eq!(
        effects,
        vec![
            Effect::SetSubmit(false),
            Effect::NewCancelFlag,
            Effect::UpdateBubble(BubbleState::Transcribing { submit: false }),
            Effect::RefreshTray,
            Effect::SpawnTranscription,
        ]
    );
    assert_eq!(app.status, "Recording stopped (1.5s, 16000 Hz, 1 ch). Transcribing...");
    assert!(app.is_transcribing);
    let mut app = recording();
    let effects = app.recording_stopped(Err(AppError::Message("x".to_string())), "0.0");
    assert_eq!(effects, vec![Effect::RefreshTray]);
    assert_eq!(app.status, "Stop failed: x");
    assert!(!app.is_transcribing);
}

#[test]
fn a_started_recording_shows_the_bubble() {
    let mut app = recording();
    assert_eq!(
        app.recording_started(Ok(())),
        vec![
            Effect::SpawnPreload,
            Effect::ShowBubble(BubbleState::Recording),
            Effect::RefreshTray,
        ]
    );
    assert_eq!(app.status, "Recording... left click again to stop.");
    assert_eq!(app.tooltip(), "Diktovani\nRecording... left click again to stop.");
    let mut app = idle();
    assert_eq!(
        app.recording_started(Err(AppError::Io("busy".to_string()))),
        vec![Effect::RefreshTray]
    );
    assert_eq!(app.status, "Start failed: IO error: busy");
}

#[test]
fn a_hidden_bubble_is_not_shown() {
    let mut app = recording();
    app.settings.hide_bubble = true;
    assert_eq!(
        app.recording_started(Ok(())),
        vec![Effect::SpawnPreload, Effect::RefreshTray]
    );
    let mut app = idle();
    app.settings.hide_bubble = true;
    assert_eq!(event(&mut app, UserEvent::Worker(WorkerEvent::ModelDownload(news()))), vec![]);
}

#[test]
fn cancelling_throws_away() {
    let mut app = recording();
    assert_eq!(
        event(&mut app, UserEvent::Cancel),
        vec![Effect::DiscardRecording, Effect::HideBubble, Effect::RefreshTray]
    );
    assert_eq!(app.status, "Nahrávání zrušeno.");
    let mut app = transcribing();
    app.submit_after_transcription = true;
    assert_eq!(
        event(&mut app, UserEvent::Cancel),
        vec![
            Effect::RaiseCancelFlag,
            Effect::SetSubmit(false),
            Effect::HideBubble,
            Effect::RefreshTray,
        ]
    );
    assert_eq!(app.status, "Přepis zrušen.");
    assert!(!app.is_transcribing && !app.submit_after_transcription);
    let mut app = idle();
    assert_eq!(event(&mut app, UserEvent::Cancel), vec![]);
    app.downloading_model = true;
    assert_eq!(event(&mut app, UserEvent::Cancel), vec![Effect::HideBubble]);
    assert!(app.downloading_model);
}

#[test]
fn a_cancelled_flag_stays_raised() {
    let mut flags = vec![false];
    let mut apply = |effects: Vec<Effect>| {
        for effect in effects {
            match effect {
                Effect::NewCancelFlag => flags.push(false),
                Effect::RaiseCancelFlag => *flags.last_mut().unwrap() = true,
                _ => {}
            }
        }
        flags.clone()
    };
    let mut app = idle();
    apply(app.recording_stopped(Ok(&stopped()), "1.0"));
    assert_eq!(apply(app.user_event(UserEvent::Cancel)), vec![false, true]);
    assert_eq!(apply(app.recording_stopped(Ok(&stopped()), "1.0")), vec![false, true, false]);
    let late = UserEvent::Worker(WorkerEvent::Cancelled);
    assert_eq!(apply(app.user_event(late)), vec![false, true, false]);
}

fn news() -> ModelDownloadProgress {
    ModelDownloadProgress {
        percent: Some(1),
        downloaded_bytes: 10,
        downloaded_megabytes: 0,
        eta: None,
    }
}

#[test]
fn a_download_uses_a_free_bubble() {
    let state = BubbleState::DownloadingModel { progress: news() };
    let download = || UserEvent::Worker(WorkerEvent::ModelDownload(news()));
    let done = || UserEvent::Worker(WorkerEvent::ModelDownloadDone);
    let mut app = idle();
    assert_eq!(event(&mut app, done()), vec![]);
    assert_eq!(event(&mut app, download()), vec![Effect::ShowBubble(state)]);
    assert_eq!(event(&mut app, download()), vec![Effect::UpdateBubble(state)]);
    assert_eq!(event(&mut app, done()), vec![Effect::HideBubble]);
    assert!(!app.downloading_model);
    for mut app in [recording(), transcribing()] {
        assert_eq!(event(&mut app, download()), vec![]);
        assert!(app.downloading_model);
        assert_eq!(event(&mut app, done()), vec![]);
        assert!(!app.downloading_model);
    }
}

#[test]
fn reports_end_a_transcription() {
    let ended = vec![Effect::SetSubmit(false), Effect::HideBubble, Effect::RefreshTray];
    let mut app = transcribing();
    let report = WorkerEvent::Success("Dobrý den.".to_string());
    assert_eq!(event(&mut app, UserEvent::Worker(report)), ended);
    assert_eq!(app.status, "Transcript pasted. Last transcript: Dobrý den.");
    assert_eq!(app.last_transcript, "Dobrý den.");
    assert!(!app.is_transcribing);

    let mut app = transcribing();
    let report = WorkerEvent::PasteFailed {
        transcript: "Text".to_string(),
        error: "no keys".to_string(),
    };
    assert_eq!(event(&mut app, UserEvent::Worker(report)), ended);
    assert_eq!(
        app.status,
        "Transcript ready but paste failed: no keys. Last transcript: Text"
    );
    assert_eq!(app.last_transcript, "Text");

    let report = WorkerEvent::Failed("broken".to_string());
    assert_eq!(event(&mut app, UserEvent::Worker(report)), ended);
    assert_eq!(app.status, "Transcription failed: broken");
    assert_eq!(app.last_transcript, "Text");

    assert_eq!(event(&mut app, UserEvent::Worker(WorkerEvent::Cancelled)), ended);
    assert_eq!(app.status, "Přepis zrušen.");
}

#[test]
fn reports_show_progress() {
    let mut app = transcribing();
    let report = WorkerEvent::TranscriptionProgress(40);
    assert_eq!(event(&mut app, UserEvent::Worker(report)), vec![Effect::RefreshTray]);
    assert_eq!(
        app.current_visual_state(),
        TrayVisualState::Transcribing { progress: 40, submit: false }
    );
    let report = WorkerEvent::Status("Model ready.".to_string());
    assert_eq!(event(&mut app, UserEvent::Worker(report)), vec![Effect::RefreshTray]);
    assert_eq!(app.status, "Model ready.");
}

#[test]
fn menu_items() {
    let mut app = idle();
    assert_eq!(event(&mut app, UserEvent::Menu(MenuChoice::Status)), vec![Effect::OpenLog]);
    assert_eq!(
        event(&mut app, UserEvent::Menu(MenuChoice::IconColor("sky".to_string()))),
        vec![Effect::SyncIconColorMarks, Effect::SaveSettings, Effect::RefreshTray]
    );
    assert_eq!(app.settings.icon_color, "sky");
    assert_eq!(app.idle_color().unwrap().id, "sky");
    let choice = MenuChoice::Language { code: "en".to_string(), label: "Angličtina".to_string() };
    assert_eq!(
        event(&mut app, UserEvent::Menu(choice)),
        vec![Effect::SyncLanguageMarks, Effect::SaveSettings, Effect::RefreshTray]
    );
    assert_eq!(app.settings.language, "en");
    assert_eq!(app.status, "Jazyk přepisu: Angličtina");
    assert_eq!(
        event(&mut app, UserEvent::Menu(MenuChoice::CopyLastTranscript)),
        vec![Effect::CopyLastTranscript]
    );
    assert_eq!(
        event(&mut app, UserEvent::Menu(MenuChoice::LaunchAtLogin { checked: true })),
        vec![Effect::SetLaunchAtLogin(true)]
    );
    assert_eq!(event(&mut app, UserEvent::Menu(MenuChoice::Quit)), vec![Effect::Exit]);
    assert_eq!(event(&mut app, UserEvent::Menu(MenuChoice::Other)), vec![]);
}

#[test]
fn a_chosen_color_is_kept() {
    let mut ids = vec!["".to_string()];
    ids.extend(icon_colors().iter().map(|color| color.id.to_string()));
    for id in &ids {
        let mut app = idle();
        app.settings.hide_bubble = true;
        app.select_icon_color(id.clone());
        let marked: Vec<&String> = ids.iter().filter(|other| app.is_color_marked(other)).collect();
        assert_eq!(marked, vec![id]);
        let loaded = Settings::load(Some(&app.settings.save()));
        assert_eq!((loaded.icon_color.as_str(), loaded.language.as_str()), (id.as_str(), "cs"));
        assert!(loaded.hide_bubble);
        let color = WhisperingMvpApp::new(true, loaded).idle_color();
        assert_eq!(color.map(|c| c.id.to_string()), Some(id.clone()).filter(|id| !id.is_empty()));
    }
}

#[test]
fn a_transcription_runs_in_the_chosen_language() {
    let mut app = idle();
    app.select_language("en".to_string(), "Angličtina");
    assert!(app.is_language_marked("en") && !app.is_language_marked("cs"));
    app.recording_stopped(Ok(&stopped()), "1.5");
    assert_eq!(app.transcription_language(), "en");
}

#[test]
fn states_have_symbols() {
    assert_eq!(tray_symbol(TrayVisualState::Idle).unwrap().name, "mic.fill");
    let symbol = tray_symbol(TrayVisualState::Recording).unwrap();
    assert_eq!((symbol.name, symbol.description), ("checkmark", "Stop recording"));
    assert!(tray_symbol(TrayVisualState::Transcribing { progress: 1, submit: false }).is_none());
}

#[test]
fn results_are_shown() {
    let mut app = idle();
    app.log_not_opened("no viewer");
    assert_eq!(app.status, "Nepodařilo se otevřít log: no viewer");
    app.last_transcript_copied(Ok(()));
    assert_eq!(app.status, "Last transcript copied to clipboard.");
    app.last_transcript_copied(Err(AppError::Message("m".to_string())));
    assert_eq!(app.status, "Failed to copy last transcript: m");
    assert_eq!(app.launch_at_login_set(true, Ok(())), vec![Effect::RefreshTray]);
    assert_eq!(app.status, "Autostart enabled.");
    app.launch_at_login_set(false, Ok(()));
    assert_eq!(app.status, "Autostart disabled.");
    assert_eq!(
        app.launch_at_login_set(true, Err(AppError::Message("m".to_string()))),
        vec![Effect::SetLaunchAtLoginMark(false), Effect::RefreshTray]
    );
    assert_eq!(app.status, "Failed to update autostart: m");
}

#[test]
fn menu_texts() {
    let mut app = idle();
    app.status = "a\nb".to_string();
    let texts = app.tray_texts();
    assert_eq!(texts.tooltip, "Diktovani\na\nb");
    assert_eq!(texts.status_item, "Status: a b");
    assert_eq!(texts.copy_item, "Zkopírovat poslední přepis: —");
    assert!(!texts.copy_enabled);
    app.last_transcript = "x".to_string();
    assert!(app.tray_texts().copy_enabled);
}

#[test]
fn starting_up() {
    let first = vec![Effect::RefreshTray, Effect::CreateBubble, Effect::SpawnModelDownload];
    let mut app = idle();
    assert_eq!(app.startup(true), first);
    let mut app = WhisperingMvpApp::new(false, Settings::default());
    let mut asked = first;
    asked.push(Effect::PromptAccessibility);
    asked.push(Effect::RefreshTray);
    assert_eq!(app.startup(false), asked);
    assert_eq!(
        app.status,
        "Accessibility permission is needed for auto-paste and the Fn/Globe hotkey. macOS settings were opened."
    );
}

#[test]
fn the_hotkey_waits_for_the_permission() {
    let mut app = WhisperingMvpApp::new(false, Settings::default());
    assert_eq!(app.about_to_wait(false), vec![Effect::UnloadIdleModel]);
    assert_eq!(
        app.about_to_wait(true),
        vec![Effect::UnloadIdleModel, Effect::InstallHotkey { announce: true }]
    );
    assert_eq!(app.hotkey_installed(false, true), vec![]);
    assert!(app.waiting_for_accessibility_hotkey);
    assert_eq!(app.hotkey_installed(true, true), vec![Effect::RefreshTray]);
    assert_eq!(
        app.status,
        "Accessibility granted. Left click the microphone or double-press Fn/Globe to dictate."
    );
    assert!(app.hotkey_installed && !app.waiting_for_accessibility_hotkey);
    assert_eq!(app.about_to_wait(true), vec![Effect::UnloadIdleModel]);
    assert_eq!(app.install_hotkey_monitor(false), vec![]);
    let mut app = idle();
    assert_eq!(
        app.install_hotkey_monitor(false),
        vec![Effect::InstallHotkey { announce: false }]
    );
    assert_eq!(app.hotkey_installed(true, false), vec![]);
}

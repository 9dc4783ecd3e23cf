use diktovani::paste::{
    copy_and_paste_text, copy_text_to_clipboard, paste_keys, LetterKey, ModifierKey, PasteAction,
    PasteKey, PasteRun, PasteStart,
};
use diktovani::platform::Platform;

fn started(submit: bool) -> PasteRun {
    match copy_and_paste_text("Ahoj", submit, true) {
        PasteStart::Run(run) => run,
        _ => panic!("a run was expected"),
    }
}

fn actions(mut run: PasteRun, readable: bool) -> Vec<PasteAction> {
    let mut done = Vec::new();
    while run.next_action() != PasteAction::Finished {
        let action = run.next_action();
        done.push(action);
        let outcome = if action == PasteAction::SaveClipboard && !readable {
            Err("empty".to_string())
        } else {
            Ok(())
        };
        assert!(run.advance(outcome).is_ok());
    }
    done
}

#[test]
fn paste_runs_through() {
    let all = actions(started(false), true);
    assert_eq!(
        all,
        vec![
            PasteAction::OpenClipboard,
            PasteAction::SaveClipboard,
            PasteAction::WriteTranscript,
            PasteAction::Wait { milliseconds: 50 },
            PasteAction::OpenKeyboard,
            PasteAction::Press { key: PasteKey::Modifier },
            PasteAction::Press { key: PasteKey::V },
            PasteAction::Release { key: PasteKey::V },
            PasteAction::Release { key: PasteKey::Modifier },
            PasteAction::Wait { milliseconds: 100 },
            PasteAction::RestoreClipboard,
        ]
    );
}

#[test]
fn submitting_waits_and_presses_return() {
    let all = actions(started(true), true);
    assert_eq!(
        all[9..12].to_vec(),
        vec![
            PasteAction::Wait { milliseconds: 250 },
            PasteAction::Press { key: PasteKey::Return },
            PasteAction::Release { key: PasteKey::Return },
        ]
    );
    assert_eq!(all.len(), 14);
}

#[test]
fn every_pressed_key_is_released() {
    let all = actions(started(true), true);
    let mut held: Vec<PasteKey> = Vec::new();
    for action in all {
        match action {
            PasteAction::Press { key } => held.push(key),
            PasteAction::Release { key } => held.retain(|k| *k != key),
            _ => {}
        }
    }
    assert!(held.is_empty());
}

#[test]
fn unreadable_clipboard_is_not_put_back() {
    let all = actions(started(false), false);
    assert!(!all.contains(&PasteAction::RestoreClipboard));
    assert_eq!(all.len(), 10);
}

#[test]
fn blank_texts_are_not_pasted() {
    assert!(matches!(copy_and_paste_text(" \n", true, true), PasteStart::Nothing));
    assert!(matches!(copy_and_paste_text("", false, false), PasteStart::Nothing));
    assert!(copy_text_to_clipboard("\t").is_none());
}

#[test]
fn pasting_needs_the_permission() {
    match copy_and_paste_text("x", false, false) {
        PasteStart::NeedsPermission(e) => assert_eq!(
            e.text(),
            "Accessibility permission is required for auto-paste. Enable Diktovani in System Settings > Privacy & Security > Accessibility."
        ),
        _ => panic!("an error was expected"),
    }
}

fn error_at(submit: bool, action: PasteAction) -> Option<String> {
    let mut run = started(submit);
    while run.next_action() != action {
        assert!(run.advance(Ok(())).is_ok());
    }
    let text = run.advance(Err("no".to_string())).err().map(|e| e.text());
    if text.is_some() {
        assert_eq!(run.next_action(), action);
    }
    text
}

#[test]
fn each_failure_has_its_text() {
    let texts = [
        (PasteAction::OpenClipboard, "Failed to access clipboard: no"),
        (PasteAction::WriteTranscript, "Failed to write transcript to clipboard: no"),
        (PasteAction::OpenKeyboard, "Failed to initialize input automation: no"),
        (PasteAction::Press { key: PasteKey::Modifier }, "Failed to press modifier key: no"),
        (PasteAction::Press { key: PasteKey::V }, "Failed to press paste key: no"),
        (PasteAction::Release { key: PasteKey::V }, "Failed to release paste key: no"),
        (PasteAction::Release { key: PasteKey::Modifier }, "Failed to release modifier key: no"),
        (PasteAction::Press { key: PasteKey::Return }, "Failed to press Return key: no"),
        (PasteAction::Release { key: PasteKey::Return }, "Failed to release Return key: no"),
    ];
    for (action, text) in texts {
        assert_eq!(error_at(true, action), Some(text.to_string()));
    }
    assert_eq!(error_at(true, PasteAction::SaveClipboard), None);
    assert_eq!(error_at(true, PasteAction::RestoreClipboard), None);
}

#[test]
fn copying_takes_two_steps() {
    let run = copy_text_to_clipboard("x").unwrap();
    assert_eq!(
        actions(run, true),
        vec![PasteAction::OpenClipboard, PasteAction::WriteTranscript]
    );
}

#[test]
fn shortcut_depends_on_the_system() {
    assert_eq!(paste_keys(Platform::MacOs), (ModifierKey::Meta, LetterKey::Code(9)));
    assert_eq!(paste_keys(Platform::Windows), (ModifierKey::Control, LetterKey::Code(0x56)));
    assert_eq!(paste_keys(Platform::Other), (ModifierKey::Control, LetterKey::Character('v')));
}

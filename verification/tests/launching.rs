use diktovani::launch::{
    after_launch_step, launch_agent_plist_contents, set_launch_at_login, xml_escape, LaunchOutcome,
    LaunchStep,
};
use diktovani::platform::{is_launch_at_login_enabled, Platform};

#[test]
fn markup_is_escaped() {
    assert_eq!(xml_escape("a&b<c>d\"e'f"), "a&amp;b&lt;c&gt;d&quot;e&apos;f");
    assert_eq!(xml_escape("&amp;"), "&amp;amp;");
}

#[test]
fn plist_names_the_program() {
    let contents = launch_agent_plist_contents("/Applications/A&B.app");
    let expected = r#"<?xml version="1.0" encoding="UTF-8"?>
<!DOCTYPE plist PUBLIC "-//Apple//DTD PLIST 1.0//EN" "http://www.apple.com/DTDs/PropertyList-1.0.dtd">
<plist version="1.0">
<dict>
    <key>Label</key>
    <string>com.example.diktovani</string>
    <key>ProgramArguments</key>
    <array>
        <string>/Applications/A&amp;B.app</string>
    </array>
    <key>RunAtLoad</key>
    <true/>
    <key>KeepAlive</key>
    <false/>
</dict>
</plist>
"#;
    assert_eq!(contents, expected);
}

fn follow(enabled: bool) -> Vec<LaunchStep> {
    let mut steps = vec![set_launch_at_login(Platform::MacOs, enabled).unwrap()];
    while *steps.last().unwrap() != LaunchStep::Finished {
        let last = *steps.last().unwrap();
        steps.push(after_launch_step(last, LaunchOutcome::Done).unwrap());
    }
    steps
}

#[test]
fn enabling_takes_these_steps() {
    assert_eq!(
        follow(true),
        vec![
            LaunchStep::CreateDirectory,
            LaunchStep::FindExecutable,
            LaunchStep::WriteTemporary,
            LaunchStep::RenameTemporary,
            LaunchStep::UnloadOld,
            LaunchStep::Load,
            LaunchStep::Finished,
        ]
    );
}

#[test]
fn disabling_takes_these_steps() {
    assert_eq!(
        follow(false),
        vec![
            LaunchStep::CheckExists,
            LaunchStep::UnloadCurrent,
            LaunchStep::RemovePlist,
            LaunchStep::Finished,
        ]
    );
    assert_eq!(
        after_launch_step(LaunchStep::CheckExists, LaunchOutcome::Absent).unwrap(),
        LaunchStep::Finished
    );
    let unseen = LaunchOutcome::Failed("no permission".to_string());
    assert_eq!(
        after_launch_step(LaunchStep::CheckExists, unseen).unwrap(),
        LaunchStep::Finished
    );
}

#[test]
fn a_finished_change_is_reported() {
    for enabled in [true, false] {
        for existed in [true, false] {
            let mut exists = existed;
            let mut step = set_launch_at_login(Platform::MacOs, enabled).unwrap();
            while step != LaunchStep::Finished {
                let outcome = match step {
                    LaunchStep::CheckExists if !exists => LaunchOutcome::Absent,
                    LaunchStep::UnloadOld => LaunchOutcome::BadStatus("1".to_string()),
                    _ => LaunchOutcome::Done,
                };
                match step {
                    LaunchStep::RenameTemporary => exists = true,
                    LaunchStep::RemovePlist => exists = false,
                    _ => {}
                }
                step = after_launch_step(step, outcome).unwrap();
            }
            assert_eq!(is_launch_at_login_enabled(Platform::MacOs, Some(exists)), enabled);
        }
    }
}

#[test]
fn other_systems_refuse() {
    for platform in [Platform::Windows, Platform::Other] {
        assert_eq!(
            set_launch_at_login(platform, true).unwrap_err().text(),
            "Launch at login is only implemented for macOS."
        );
    }
}

fn failure(step: LaunchStep) -> Option<String> {
    after_launch_step(step, LaunchOutcome::Failed("no".to_string()))
        .err()
        .map(|e| e.text())
}

#[test]
fn failing_steps_say_why() {
    let io = Some("IO error: no".to_string());
    assert_eq!(failure(LaunchStep::CreateDirectory), io);
    assert_eq!(
        failure(LaunchStep::FindExecutable),
        Some("Failed to resolve current executable: no".to_string())
    );
    assert_eq!(failure(LaunchStep::WriteTemporary), io);
    assert_eq!(failure(LaunchStep::RenameTemporary), io);
    assert_eq!(failure(LaunchStep::UnloadOld), None);
    assert_eq!(failure(LaunchStep::Load), Some("Failed to run launchctl load: no".to_string()));
    assert_eq!(failure(LaunchStep::UnloadCurrent), None);
    assert_eq!(failure(LaunchStep::RemovePlist), io);
    assert_eq!(
        after_launch_step(LaunchStep::Load, LaunchOutcome::BadStatus("exit status: 5".to_string()))
            .unwrap_err()
            .text(),
        "launchctl load failed with status exit status: 5."
    );
}

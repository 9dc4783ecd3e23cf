use diktovani::platform::{
    cache_model_path, has_accessibility_permission, is_launch_at_login_enabled,
    launch_agent_plist_path, request_accessibility_permission_if_needed, settings_path, Platform,
    LANGUAGE, MODEL_FILENAME,
};
use diktovani::settings::Settings;

#[test]
fn default_settings_are_czech() {
    let settings = Settings::default();
    assert_eq!(settings.icon_color, "");
    assert_eq!(settings.language, LANGUAGE);
    assert_eq!(LANGUAGE, "cs");
    assert!(!settings.hide_bubble);
}

#[test]
fn missing_file_gives_defaults() {
    let settings = Settings::load(None);
    assert_eq!(settings.save(), "icon_color=\nlanguage=cs\nhide_bubble=false\n");
}

#[test]
fn lines_are_read() {
    let settings = Settings::load(Some(
        "# comment\r\n icon_color = mint \r\nlanguage=en\nunknown=1\nhide_bubble = true\n",
    ));
    assert_eq!(settings.icon_color, "mint");
    assert_eq!(settings.language, "en");
    assert!(settings.hide_bubble);
}

#[test]
fn later_lines_win_and_odd_values_are_kept() {
    let settings = Settings::load(Some("language=de\nlanguage=a=b\nhide_bubble=true\nhide_bubble=TRUE"));
    assert_eq!(settings.language, "a=b");
    assert!(!settings.hide_bubble);
}

#[test]
fn saved_settings_are_loaded_again() {
    let settings = Settings {
        icon_color: "sky".to_string(),
        language: "en".to_string(),
        hide_bubble: true,
    };
    let file = settings.save();
    assert_eq!(file, "icon_color=sky\nlanguage=en\nhide_bubble=true\n");
    let again = Settings::load(Some(&file));
    assert_eq!(again.icon_color, "sky");
    assert_eq!(again.language, "en");
    assert!(again.hide_bubble);
}

#[test]
fn loaded_settings_survive_saving() {
    for file in ["", "language= a b \nicon_color=\t=x \r\nhide_bubble=true", "=\n=\nlanguage="] {
        let once = Settings::load(Some(file)).save();
        assert_eq!(Settings::load(Some(&once)).save(), once);
    }
}

#[test]
fn paths_lie_below_home() {
    assert_eq!(cache_model_path(true).unwrap(), format!(".cache/diktovani/{MODEL_FILENAME}"));
    assert_eq!(settings_path(true).unwrap(), ".cache/diktovani/settings.conf");
    assert_eq!(
        launch_agent_plist_path(true).unwrap(),
        "Library/LaunchAgents/com.example.diktovani.plist"
    );
}

#[test]
fn paths_need_a_home() {
    assert_eq!(
        cache_model_path(false).unwrap_err().text(),
        "HOME is not set, cannot resolve ~/.cache/diktovani."
    );
    assert!(settings_path(false).is_none());
    assert_eq!(
        launch_agent_plist_path(false).unwrap_err().text(),
        "HOME is not set, cannot resolve LaunchAgents."
    );
}

#[test]
fn only_macos_asks_for_a_permission() {
    assert!(!has_accessibility_permission(Platform::MacOs, false));
    assert!(has_accessibility_permission(Platform::MacOs, true));
    assert!(has_accessibility_permission(Platform::Windows, false));
    assert!(has_accessibility_permission(Platform::Other, false));
    let request = request_accessibility_permission_if_needed(false);
    assert!(!request.granted && request.prompt);
    let request = request_accessibility_permission_if_needed(true);
    assert!(request.granted && !request.prompt);
}

#[test]
fn launch_at_login_is_known_on_macos() {
    assert!(is_launch_at_login_enabled(Platform::MacOs, Some(true)));
    assert!(!is_launch_at_login_enabled(Platform::MacOs, Some(false)));
    assert!(!is_launch_at_login_enabled(Platform::MacOs, None));
    assert!(!is_launch_at_login_enabled(Platform::Other, Some(true)));
}

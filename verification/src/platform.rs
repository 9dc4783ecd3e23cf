//! What differs between systems: permissions, and where the app keeps its files.

use vstd::prelude::*;

use crate::error;
use crate::error::AppError;

verus! {

/// The name that the system knows the app by.
pub const APP_IDENTIFIER: &'static str = "com.example.diktovani";

/// The file name of the speech model.
pub const MODEL_FILENAME: &'static str = "ggml-large-v3-turbo.bin";

/// Where the speech model is downloaded from.
pub const MODEL_URL: &'static str =
    "https://huggingface.co/ggerganov/whisper.cpp/resolve/main/ggml-large-v3-turbo.bin";

/// The code of the language that is transcribed unless another one is chosen.
pub const LANGUAGE: &'static str = "cs";

/// The file that the app's output goes to.
pub const LOG_PATH: &'static str = "/tmp/diktovani.log";

/// The kind of system that the app runs on.
#[derive(Clone, Copy, Debug, PartialEq, Eq, Structural)]
pub enum Platform {
    MacOs,
    Windows,
    Other,
}

/// What came of asking for the accessibility permission.
#[derive(Clone, Copy, Debug, PartialEq, Eq, Structural)]
pub struct AccessibilityRequest {
    /// Whether the permission is there already.
    pub granted: bool,
    /// Whether the user is to be asked for it.
    pub prompt: bool,
}

/// Whether the app may control other apps. Only macOS asks for a permission; `trusted` is what
/// macOS says.
pub fn has_accessibility_permission(platform: Platform, trusted: bool) -> (granted: bool)
    ensures
        granted == (platform == Platform::MacOs ==> trusted),
{
    match platform {
        Platform::MacOs => trusted,
        Platform::Windows => true,
        Platform::Other => true,
    }
}

/// Has the user asked for the accessibility permission where it is missing.
pub fn request_accessibility_permission_if_needed(granted: bool) -> (request: AccessibilityRequest)
    ensures
        request.granted == granted,
        request.prompt == !granted,
{
    if granted {
        return AccessibilityRequest { granted: true, prompt: false };
    }
    AccessibilityRequest { granted: false, prompt: true }
}

/// Whether the app starts when the user logs in, by what is known of the launch agent's file.
pub open spec fn starts_at_login(platform: Platform, plist_exists: Option<bool>) -> bool {
    platform == Platform::MacOs && plist_exists == Some(true)
}

/// Whether the app starts when the user logs in: on macOS, whether the launch agent's file
/// exists, of which `plist_exists` says nothing where its place is unknown.
pub fn is_launch_at_login_enabled(platform: Platform, plist_exists: Option<bool>) -> (enabled: bool)
    ensures
        enabled == starts_at_login(platform, plist_exists),
{
    match platform {
        Platform::MacOs => match plist_exists {
            Some(exists) => exists,
            None => false,
        },
        Platform::Windows => false,
        Platform::Other => false,
    }
}

/// Where the speech model is kept, below the user's home directory.
pub fn cache_model_path(home_is_set: bool) -> (path: Result<String, AppError>)
    ensures
        match path {
            Ok(p) => home_is_set && p@ == ".cache/diktovani/"@ + MODEL_FILENAME@,
            Err(e) => !home_is_set && error::says(
                e,
                "HOME is not set, cannot resolve ~/.cache/diktovani."@,
            ),
        },
{
    if !home_is_set {
        return Err(AppError::new("HOME is not set, cannot resolve ~/.cache/diktovani."));
    }
    let mut path = ".cache/diktovani/".to_string();
    path.append(MODEL_FILENAME);
    Ok(path)
}

/// Where the settings are kept, below the user's home directory.
pub fn settings_path(home_is_set: bool) -> (path: Option<String>)
    ensures
        match path {
            Some(p) => home_is_set && p@ == ".cache/diktovani/settings.conf"@,
            None => !home_is_set,
        },
{
    if !home_is_set {
        return None;
    }
    Some(".cache/diktovani/settings.conf".to_string())
}

/// Where the launch agent's file is kept, below the user's home directory.
pub fn launch_agent_plist_path(home_is_set: bool) -> (path: Result<String, AppError>)
    ensures
        match path {
            Ok(p) => home_is_set && p@ == "Library/LaunchAgents/"@ + APP_IDENTIFIER@ + ".plist"@,
            Err(e) => !home_is_set && error::says(
                e,
                "HOME is not set, cannot resolve LaunchAgents."@,
            ),
        },
{
    if !home_is_set {
        return Err(AppError::new("HOME is not set, cannot resolve LaunchAgents."));
    }
    let mut path = "Library/LaunchAgents/".to_string();
    path.append(APP_IDENTIFIER);
    path.append(".plist");
    Ok(path)
}

} // verus!

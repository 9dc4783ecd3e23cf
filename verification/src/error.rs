//! The errors that the app reports.

use vstd::prelude::*;

verus! {

/// Why an operation failed: in the app's own words, or in those of the file system or of the
/// WAV reader.
#[derive(Debug)]
pub enum AppError {
    Message(String),
    Io(String),
    Wav(String),
}

/// What an error says.
pub open spec fn error_text(error: AppError) -> Seq<char> {
    match error {
        AppError::Message(text) => text@,
        AppError::Io(text) => "IO error: "@ + text@,
        AppError::Wav(text) => "WAV error: "@ + text@,
    }
}

/// Whether an error is the given message.
pub open spec fn says(error: AppError, text: Seq<char>) -> bool {
    error matches AppError::Message(message) && message@ == text
}

/// Whether an error passes on what the file system said.
pub open spec fn is_io(error: AppError, text: Seq<char>) -> bool {
    error matches AppError::Io(message) && message@ == text
}

/// Whether an error passes on what the WAV reader said.
pub open spec fn is_wav(error: AppError, text: Seq<char>) -> bool {
    error matches AppError::Wav(message) && message@ == text
}

impl AppError {
    /// The error as a line of text.
    pub fn text(&self) -> (text: String)
        ensures
            text@ == error_text(*self),
    {
        match self {
            AppError::Message(message) => message.clone(),
            AppError::Io(message) => {
                let mut text = "IO error: ".to_string();
                text.append(message.as_str());
                text
            },
            AppError::Wav(message) => {
                let mut text = "WAV error: ".to_string();
                text.append(message.as_str());
                text
            },
        }
    }

    /// The error with a fixed message.
    pub fn new(message: &str) -> (error: AppError)
        ensures
            says(error, message@),
    {
        AppError::Message(message.to_string())
    }

    /// The error that says what failed and why.
    pub fn because(what: &str, why: &str) -> (error: AppError)
        ensures
            says(error, what@ + why@),
    {
        let mut message = what.to_string();
        message.append(why);
        AppError::Message(message)
    }
}

/// Whatever went wrong, the reason is at the end of what the app says; and the app says where
/// the reason comes from, unless it is the app's own.
pub proof fn lemma_reasons_are_told(reason: String)
    ensures
        error_text(AppError::Message(reason)) == reason@,
        reason@.is_suffix_of(error_text(AppError::Io(reason))),
        reason@.is_suffix_of(error_text(AppError::Wav(reason))),
        error_text(AppError::Io(reason)) != error_text(AppError::Wav(reason)),
{
    reveal_strlit("IO error: ");
    reveal_strlit("WAV error: ");
    let io = error_text(AppError::Io(reason));
    let wav = error_text(AppError::Wav(reason));
    assert(io.skip(io.len() - reason@.len()) =~= reason@);
    assert(wav.skip(wav.len() - reason@.len()) =~= reason@);
    assert(io.len() != wav.len());
}

} // verus!

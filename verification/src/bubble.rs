//! What the bubble below the menu-bar icon shows.

use vstd::prelude::*;

use crate::progress;
use crate::progress::{download_detail_text, ModelDownloadProgress};
use crate::text;

verus! {

/// What the bubble is about.
#[derive(Clone, Copy, Debug, PartialEq, Eq, Structural)]
pub enum BubbleState {
    /// A recording is running.
    Recording,
    /// A transcription is running; `submit` once its text is to be sent with Enter.
    Transcribing { submit: bool },
    /// The model is being downloaded.
    DownloadingModel { progress: ModelDownloadProgress },
}

/// What the bubble shows.
#[derive(Debug)]
pub struct BubbleContent {
    /// The name of the system's symbol.
    pub symbol: String,
    pub title: String,
    pub info: String,
    /// The text on the button.
    pub button: String,
    /// How much of the progress bar is filled, in percent, where there is one.
    pub percent: Option<u32>,
}

/// The name of the symbol for a state.
pub open spec fn symbol_of(state: BubbleState) -> Seq<char> {
    match state {
        BubbleState::Recording => "checkmark.circle.fill"@,
        BubbleState::Transcribing { submit: false } => "waveform"@,
        BubbleState::Transcribing { submit: true } => "play.fill"@,
        BubbleState::DownloadingModel { .. } => "arrow.down.circle.fill"@,
    }
}

/// The title for a state.
pub open spec fn title_of(state: BubbleState) -> Seq<char> {
    match state {
        BubbleState::Recording => "Nahrávám…"@,
        BubbleState::Transcribing { submit: false } => "Přepisuji…"@,
        BubbleState::Transcribing { submit: true } => "Po dokončení rovnou odešlu"@,
        BubbleState::DownloadingModel { .. } => "Stahuji model…"@,
    }
}

/// The second line for a state.
pub open spec fn info_of(state: BubbleState) -> Seq<char> {
    match state {
        BubbleState::Recording =>
            "Klikni na háček ✓ v liště nebo stiskni Fn pro spuštění přepisu."@,
        BubbleState::Transcribing { submit: false } =>
            "Klávesou Fn (nebo klikem na lištu) zapneš odeslání Enterem."@,
        BubbleState::Transcribing { submit: true } =>
            "Klikni znovu na lištu nebo stiskni Fn pro zrušení odeslání."@,
        BubbleState::DownloadingModel { progress } => progress::detail_text(progress),
    }
}

/// The text on the button for a state.
pub open spec fn button_of(state: BubbleState) -> Seq<char> {
    if state is DownloadingModel {
        "Skrýt dialog"@
    } else {
        "Zrušit"@
    }
}

/// How much of the progress bar is filled in a state, where there is one.
pub open spec fn filled(state: BubbleState) -> Option<u32> {
    match state {
        BubbleState::DownloadingModel { progress } => progress.percent,
        _ => None,
    }
}

/// What the bubble shows in a state. A download cannot be cancelled from it: there the button
/// hides the bubble.
pub fn bubble_content(state: BubbleState) -> (content: BubbleContent)
    ensures
        content.symbol@ == symbol_of(state),
        content.title@ == title_of(state),
        content.info@ == info_of(state),
        content.button@ == button_of(state),
        content.percent == filled(state),
{
    match state {
        BubbleState::Recording => BubbleContent {
            symbol: "checkmark.circle.fill".to_string(),
            title: "Nahrávám…".to_string(),
            info: "Klikni na háček ✓ v liště nebo stiskni Fn pro spuštění přepisu.".to_string(),
            button: "Zrušit".to_string(),
            percent: None,
        },
        BubbleState::Transcribing { submit } => if submit {
            BubbleContent {
                symbol: "play.fill".to_string(),
                title: "Po dokončení rovnou odešlu".to_string(),
                info: "Klikni znovu na lištu nebo stiskni Fn pro zrušení odeslání.".to_string(),
                button: "Zrušit".to_string(),
                percent: None,
            }
        } else {
            BubbleContent {
                symbol: "waveform".to_string(),
                title: "Přepisuji…".to_string(),
                info: "Klávesou Fn (nebo klikem na lištu) zapneš odeslání Enterem.".to_string(),
                button: "Zrušit".to_string(),
                percent: None,
            }
        },
        BubbleState::DownloadingModel { progress } => BubbleContent {
            symbol: "arrow.down.circle.fill".to_string(),
            title: "Stahuji model…".to_string(),
            info: download_detail_text(&progress),
            button: "Skrýt dialog".to_string(),
            percent: progress.percent,
        },
    }
}

/// Whether two states are of one kind: they differ at most in how far a download is.
pub open spec fn is_alike(a: BubbleState, b: BubbleState) -> bool {
    a == b || (a is DownloadingModel && b is DownloadingModel)
}

/// The user can tell the states apart: two states have the same title, or the same symbol, only
/// where they are of one kind; and the button for a download is none of the others.
pub proof fn lemma_states_are_told_apart(a: BubbleState, b: BubbleState)
    ensures
        title_of(a) == title_of(b) <==> is_alike(a, b),
        symbol_of(a) == symbol_of(b) <==> is_alike(a, b),
        button_of(a) == button_of(b) <==> (a is DownloadingModel <==> b is DownloadingModel),
        filled(a) is Some ==> a is DownloadingModel,
{
    reveal_strlit("Nahrávám…");
    reveal_strlit("Přepisuji…");
    reveal_strlit("Po dokončení rovnou odešlu");
    reveal_strlit("Stahuji model…");
    reveal_strlit("checkmark.circle.fill");
    reveal_strlit("waveform");
    reveal_strlit("play.fill");
    reveal_strlit("arrow.down.circle.fill");
    reveal_strlit("Skrýt dialog");
    reveal_strlit("Zrušit");
    assert("Nahrávám…"@.len() == 9);
    assert("Přepisuji…"@.len() == 10);
    assert("Po dokončení rovnou odešlu"@.len() == 26);
    assert("Stahuji model…"@.len() == 14);
    assert("checkmark.circle.fill"@.len() == 21);
    assert("waveform"@.len() == 8);
    assert("play.fill"@.len() == 9);
    assert("arrow.down.circle.fill"@.len() == 22);
    assert("Skrýt dialog"@.len() != "Zrušit"@.len());
}

/// The bubble of a download tells how far it is: its second line is the download's, and its bar
/// is filled to the percentage that the line starts with.
pub proof fn lemma_bubble_tells_the_download(progress: ModelDownloadProgress)
    ensures
        info_of(BubbleState::DownloadingModel { progress }) == progress::detail_text(progress),
        filled(BubbleState::DownloadingModel { progress }) matches Some(percent)
            ==> text::decimal(percent as nat).is_prefix_of(
            info_of(BubbleState::DownloadingModel { progress }),
        ),
        filled(BubbleState::DownloadingModel { progress }) is Some <==> progress.percent is Some,
{
    if let Some(percent) = progress.percent {
        let digits = text::decimal(percent as nat);
        assert(progress::detail_text(progress).take(digits.len() as int) =~= digits);
    }
}

} // verus!
